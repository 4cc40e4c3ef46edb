//! Settings of the momentum signal generator.
use crate::market_data::{carver_timeframes_spec, TimeFrame};
use crate::signals::signal_core::SignalType;
use vstd::prelude::*;

verus! {

/// Default momentum lookback, in days.
pub const DEFAULT_MOMENTUM_LOOKBACK: usize = 20;

/// Momentum signal generator: computes momentum over a lookback window.
#[derive(Debug, Clone)]
pub struct MomentumSignalGenerator {
    lookback_period: usize,
}

impl MomentumSignalGenerator {
    /// The lookback window in days.
    pub closed spec fn lookback_view(self) -> usize {
        self.lookback_period
    }

    /// A generator with the default 20-day lookback.
    pub fn new() -> (g: Self)
        ensures
            g.lookback_view() == DEFAULT_MOMENTUM_LOOKBACK,
    {
        MomentumSignalGenerator { lookback_period: DEFAULT_MOMENTUM_LOOKBACK }
    }

    /// A generator with the given lookback.
    pub fn with_lookback(lookback_period: usize) -> (g: Self)
        ensures
            g.lookback_view() == lookback_period,
    {
        MomentumSignalGenerator { lookback_period }
    }

    /// The lookback window in days.
    pub fn lookback_period(&self) -> (n: usize)
        ensures
            n == self.lookback_view(),
    {
        self.lookback_period
    }

    /// The generator produces momentum signals.
    pub fn signal_type(&self) -> (t: SignalType)
        ensures
            t == SignalType::Momentum,
    {
        SignalType::Momentum
    }

    /// Timeframes the generator supports: Carver's four momentum ranges.
    pub fn supported_timeframes(&self) -> (v: Vec<TimeFrame>)
        ensures
            v@ == carver_timeframes_spec(),
    {
        TimeFrame::carver_momentum_timeframes()
    }
}

} // verus!
