//! Carry classifications.
use crate::market_data::{carver_timeframes_spec, TimeFrame};
use vstd::prelude::*;

verus! {

/// Direction of a carry signal.
#[derive(Debug, Clone, Copy, PartialEq, Eq, Structural)]
pub enum CarrySignalType {
    /// The higher yielding currency is favored.
    PositiveCarry,
    /// The lower yielding currency is favored.
    NegativeCarry,
    /// Minimal carry advantage.
    Neutral,
}

/// Timeframes of the carry signal: the short, medium and long Carver ranges.
pub open spec fn carry_timeframes_spec() -> Seq<TimeFrame> {
    seq![TimeFrame::Days2_8, TimeFrame::Days4_16, TimeFrame::Days8_32]
}

/// Timeframes the carry signal generator supports.
pub fn carry_supported_timeframes() -> (v: Vec<TimeFrame>)
    ensures
        v@ == carry_timeframes_spec(),
{
    let v = vec![TimeFrame::Days2_8, TimeFrame::Days4_16, TimeFrame::Days8_32];
    assert(v@ =~= carry_timeframes_spec());
    v
}

/// Carry uses the three shortest of Carver's momentum ranges, in the same order.
pub proof fn law_carry_timeframes_are_carver_prefix()
    ensures
        carry_timeframes_spec() == carver_timeframes_spec().take(3),
{
    assert(carry_timeframes_spec() =~= carver_timeframes_spec().take(3));
}

} // verus!
