//! Breakout classifications.
use crate::market_data::{carver_timeframes_spec, timeframe_range, TimeFrame};
use vstd::prelude::*;

verus! {

/// Direction of a detected breakout.
#[derive(Debug, Clone, Copy, PartialEq, Eq, Structural)]
pub enum BreakoutType {
    /// Price breaks above the recent high.
    UpBreakout,
    /// Price breaks below the recent low.
    DownBreakout,
    /// No significant breakout.
    NoBreakout,
}

/// Breakout lookback of a timeframe in bars.
pub open spec fn breakout_lookback_spec(tf: TimeFrame) -> int {
    match tf {
        TimeFrame::Days2_8 => 8,
        TimeFrame::Days4_16 => 16,
        TimeFrame::Days8_32 => 32,
        TimeFrame::Days16_64 => 64,
        _ => 20,
    }
}

/// Breakout lookback of a timeframe: the longest period of a Carver range, 20 otherwise.
pub fn get_lookback_period_for_timeframe(timeframe: TimeFrame) -> (n: usize)
    ensures
        n == breakout_lookback_spec(timeframe),
{
    match timeframe {
        TimeFrame::Days2_8 => 8,
        TimeFrame::Days4_16 => 16,
        TimeFrame::Days8_32 => 32,
        TimeFrame::Days16_64 => 64,
        _ => 20,
    }
}

/// On Carver's timeframes, breakouts look back over the longest period of the range.
pub proof fn law_breakout_lookback_is_range_end(i: int)
    requires
        0 <= i < carver_timeframes_spec().len(),
    ensures
        breakout_lookback_spec(carver_timeframes_spec()[i]) == timeframe_range(
            carver_timeframes_spec()[i],
        ).1,
{
}

} // verus!
