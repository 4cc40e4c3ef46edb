//! Namespace of the signal framework walkthroughs.
use vstd::prelude::*;

verus! {

/// Namespace of the signal framework walkthroughs.
#[derive(Debug, Clone, Copy)]
pub struct SignalExample;

} // verus!
