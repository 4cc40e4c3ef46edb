use algotrading::market_data::TimeFrame;

#[test]
fn timeframe_minutes_and_labels() {
    assert_eq!(TimeFrame::Minutes15.to_minutes(), 15);
    assert_eq!(TimeFrame::Hours4.to_minutes(), 240);
    assert_eq!(TimeFrame::Days14.to_minutes(), 20160);
    assert_eq!(TimeFrame::Days16_64.to_minutes(), 57600);
    assert_eq!(TimeFrame::Days2_8.label(), "2-8d");
    assert_eq!(TimeFrame::Hours1.label(), "1h");
}

#[test]
fn timeframe_duration_matches_minutes() {
    for tf in TimeFrame::all_timeframes() {
        assert_eq!(tf.to_duration().num_minutes(), tf.to_minutes());
    }
}

#[test]
fn all_timeframes_lists_each_once() {
    let all = TimeFrame::all_timeframes();
    assert_eq!(all.len(), 10);
    for (i, a) in all.iter().enumerate() {
        for b in all.iter().skip(i + 1) {
            assert_ne!(a, b);
            assert_ne!(a.label(), b.label());
        }
    }
}

#[test]
fn carver_timeframes_use_the_midpoint_of_their_range() {
    let carver = TimeFrame::carver_momentum_timeframes();
    assert_eq!(
        carver,
        vec![TimeFrame::Days2_8, TimeFrame::Days4_16, TimeFrame::Days8_32, TimeFrame::Days16_64]
    );
    for tf in carver {
        let (lo, hi) = tf.momentum_range();
        assert_eq!(tf.to_minutes(), ((lo + hi) / 2) as i64 * 1440);
        assert!(TimeFrame::all_timeframes().contains(&tf));
    }
}

#[test]
fn momentum_ranges() {
    assert_eq!(TimeFrame::Days1.momentum_range(), (1, 1));
    assert_eq!(TimeFrame::Days8_32.momentum_range(), (8, 32));
    assert_eq!(TimeFrame::Minutes15.momentum_range(), (15, 15));
}

#[test]
fn timeframe_duration_in_whole_seconds() {
    assert_eq!(TimeFrame::Days2_8.to_duration().num_seconds(), 5 * 86_400);
    assert_eq!(TimeFrame::Minutes15.to_duration().num_seconds(), 900);
    assert_eq!(TimeFrame::Minutes15.to_duration().subsec_nanos(), 0);
}
