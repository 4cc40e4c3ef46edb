//! Namespace of the shared signal calculations.
use vstd::prelude::*;

verus! {

/// Namespace of the shared signal calculations.
#[derive(Debug, Clone, Copy)]
pub struct SignalUtils;

} // verus!
