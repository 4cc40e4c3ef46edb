use algotrading::breakout::get_lookback_period_for_timeframe;
use algotrading::carry::carry_supported_timeframes;
use algotrading::market_data::TimeFrame;
use algotrading::signals::momentum::MomentumSignalGenerator;
use algotrading::signals::SignalType;

#[test]
fn test_momentum_signal_generator_creation() {
    let generator = MomentumSignalGenerator::new();
    assert_eq!(generator.signal_type(), SignalType::Momentum);
    assert_eq!(generator.lookback_period(), 20);

    let custom_generator = MomentumSignalGenerator::with_lookback(14);
    assert_eq!(custom_generator.lookback_period(), 14);
    assert_eq!(custom_generator.signal_type(), SignalType::Momentum);
}

#[test]
fn momentum_generator_supports_carver_timeframes() {
    let generator = MomentumSignalGenerator::new();
    assert_eq!(generator.supported_timeframes(), TimeFrame::carver_momentum_timeframes());
}

#[test]
fn breakout_lookbacks_per_timeframe() {
    assert_eq!(get_lookback_period_for_timeframe(TimeFrame::Days2_8), 8);
    assert_eq!(get_lookback_period_for_timeframe(TimeFrame::Days16_64), 64);
    assert_eq!(get_lookback_period_for_timeframe(TimeFrame::Days1), 20);
    for tf in TimeFrame::carver_momentum_timeframes() {
        assert_eq!(get_lookback_period_for_timeframe(tf) as i32, tf.momentum_range().1);
    }
}

#[test]
fn carry_timeframes_are_the_short_carver_ranges() {
    let carry = carry_supported_timeframes();
    assert_eq!(carry, TimeFrame::carver_momentum_timeframes()[..3].to_vec());
}
