//! Equal risk contribution inertia decisions.
use vstd::prelude::*;

verus! {

/// Outcome of the inertia check on an equal-risk-contribution rebalance.
#[derive(Debug, Clone, Copy, PartialEq, Eq, Structural)]
pub enum ERCInertiaDecision {
    Hold,
    Rebalance,
}

} // verus!
