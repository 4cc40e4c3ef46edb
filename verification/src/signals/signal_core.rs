//! Shared signal classifications.
use vstd::prelude::*;

verus! {

/// Confidence level of a signal.
#[derive(Debug, Clone, Copy, PartialEq, Eq, Structural)]
pub enum SignalQuality {
    High,
    Medium,
    Low,
    Filtered,
}

/// Family of a signal, used for combination weighting.
#[derive(Debug, Clone, Copy, PartialEq, Eq, Structural)]
pub enum SignalType {
    Momentum,
    Breakout,
    Carry,
    MeanReversion,
}

} // verus!
