//! Risk management actions.
use vstd::prelude::*;

verus! {

/// Action requested by the risk manager.
#[derive(Debug, Clone, Copy, PartialEq, Eq, Structural)]
pub enum RiskAction {
    ReducePosition,
    AddStopLoss,
    AddTakeProfit,
    ClosePosition,
    HoldPosition,
}

/// How soon a risk action is needed.
#[derive(Debug, Clone, Copy, PartialEq, Eq, Structural)]
pub enum RiskUrgency {
    /// Immediate action required.
    Critical,
    /// Action required within minutes.
    High,
    /// Action required within hours.
    Medium,
    /// Monitor closely.
    Low,
}

} // verus!
