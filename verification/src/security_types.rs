//! Kinds of tradable securities.
use vstd::prelude::*;

verus! {

/// Kind of a tradable security.
#[derive(Debug, Clone, Copy, PartialEq, Eq, Hash, Structural)]
pub enum SecurityType {
    Stock,
    Future,
    Forex,
}

} // verus!
