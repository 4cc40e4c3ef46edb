//! Bollinger band classifications.
use vstd::prelude::*;

verus! {

/// Kind of Bollinger band signal.
#[derive(Debug, Clone, Copy, PartialEq, Eq, Structural)]
pub enum BollingerSignalType {
    /// Price near a band, reversal expected.
    MeanReversion,
    /// Price breaking through a band.
    Breakout,
    /// Low volatility, expansion expected.
    Squeeze,
    /// No clear signal.
    Neutral,
}

/// Volatility regime read from the band width.
#[derive(Debug, Clone, Copy, PartialEq, Eq, Structural)]
pub enum VolatilityRegime {
    Low,
    Normal,
    High,
}

} // verus!
