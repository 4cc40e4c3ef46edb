//! Position inertia decisions.
use vstd::prelude::*;

verus! {

/// Outcome of the position inertia check.
#[derive(Debug, Clone, Copy, PartialEq, Eq, Structural)]
pub enum InertiaDecision {
    Hold,
    Rebalance,
}

} // verus!
