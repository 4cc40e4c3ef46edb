//! Timeframes of the multi-timeframe momentum analysis, and the market data handler's
//! price histories.
pub use crate::price_history::{MarketDataHandler, PriceHistory};
use crate::futures_utils::decimal_digits;
use vstd::prelude::*;

verus! {

#[verifier::external_type_specification]
#[verifier::external_body]
pub struct ExTimeDelta(chrono::TimeDelta);

/// Analysis timeframes; the `DaysA_B` variants are Carver's A-to-B day momentum ranges.
#[derive(Debug, Clone, Copy, PartialEq, Eq, Hash, Structural)]
pub enum TimeFrame {
    Minutes15,
    Hours1,
    Hours4,
    Days1,
    Days7,
    Days14,
    Days2_8,
    Days4_16,
    Days8_32,
    Days16_64,
}

/// Length of a timeframe in minutes.
pub open spec fn timeframe_minutes(tf: TimeFrame) -> int {
    match tf {
        TimeFrame::Minutes15 => 15,
        TimeFrame::Hours1 => 60,
        TimeFrame::Hours4 => 240,
        TimeFrame::Days1 => 1440,
        TimeFrame::Days7 => 10080,
        TimeFrame::Days14 => 20160,
        TimeFrame::Days2_8 => 7200,
        TimeFrame::Days4_16 => 14400,
        TimeFrame::Days8_32 => 28800,
        TimeFrame::Days16_64 => 57600,
    }
}

/// Display label of a timeframe.
pub open spec fn timeframe_label(tf: TimeFrame) -> Seq<char> {
    match tf {
        TimeFrame::Minutes15 => "15m"@,
        TimeFrame::Hours1 => "1h"@,
        TimeFrame::Hours4 => "4h"@,
        TimeFrame::Days1 => "1d"@,
        TimeFrame::Days7 => "7d"@,
        TimeFrame::Days14 => "14d"@,
        TimeFrame::Days2_8 => "2-8d"@,
        TimeFrame::Days4_16 => "4-16d"@,
        TimeFrame::Days8_32 => "8-32d"@,
        TimeFrame::Days16_64 => "16-64d"@,
    }
}

/// Lookback range (shortest, longest) of a timeframe.
pub open spec fn timeframe_range(tf: TimeFrame) -> (int, int) {
    match tf {
        TimeFrame::Minutes15 => (15, 15),
        TimeFrame::Hours1 => (60, 60),
        TimeFrame::Hours4 => (240, 240),
        TimeFrame::Days1 => (1, 1),
        TimeFrame::Days7 => (7, 7),
        TimeFrame::Days14 => (14, 14),
        TimeFrame::Days2_8 => (2, 8),
        TimeFrame::Days4_16 => (4, 16),
        TimeFrame::Days8_32 => (8, 32),
        TimeFrame::Days16_64 => (16, 64),
    }
}

/// Every timeframe, shortest first.
pub open spec fn all_timeframes_spec() -> Seq<TimeFrame> {
    seq![
        TimeFrame::Minutes15,
        TimeFrame::Hours1,
        TimeFrame::Hours4,
        TimeFrame::Days1,
        TimeFrame::Days7,
        TimeFrame::Days14,
        TimeFrame::Days2_8,
        TimeFrame::Days4_16,
        TimeFrame::Days8_32,
        TimeFrame::Days16_64,
    ]
}

/// Carver's multi-timeframe momentum ranges.
pub open spec fn carver_timeframes_spec() -> Seq<TimeFrame> {
    seq![TimeFrame::Days2_8, TimeFrame::Days4_16, TimeFrame::Days8_32, TimeFrame::Days16_64]
}

/// The duration that `TimeDelta::minutes` builds from a number of minutes.
pub uninterp spec fn timedelta_of_minutes(minutes: i64) -> chrono::TimeDelta;

/// The whole seconds that `TimeDelta::num_seconds` reports of a duration.
pub uninterp spec fn timedelta_seconds(d: chrono::TimeDelta) -> int;

/// `TimeDelta::num_seconds`: the duration's whole seconds.
#[verifier::external_body]
pub(crate) fn num_seconds(d: &chrono::TimeDelta) -> (s: i64)
    ensures
        s == timedelta_seconds(*d),
{
    d.num_seconds()
}

/// `TimeDelta::minutes`: its result is a function of the minutes alone, and is
/// `minutes * 60` whole seconds (no sub-second part).
#[verifier::external_body]
fn duration_from_minutes(minutes: i64) -> (d: chrono::TimeDelta)
    requires
        -1_000_000 <= minutes <= 1_000_000,
    ensures
        d == timedelta_of_minutes(minutes),
        timedelta_seconds(d) == 60 * minutes,
{
    chrono::TimeDelta::minutes(minutes)
}

impl TimeFrame {
    /// Length of the timeframe in minutes; Carver ranges use the midpoint of their range.
    pub fn to_minutes(self) -> (m: i64)
        ensures
            m == timeframe_minutes(self),
    {
        match self {
            TimeFrame::Minutes15 => 15,
            TimeFrame::Hours1 => 60,
            TimeFrame::Hours4 => 240,
            TimeFrame::Days1 => 1440,
            TimeFrame::Days7 => 10080,
            TimeFrame::Days14 => 20160,
            TimeFrame::Days2_8 => 5 * 1440,
            TimeFrame::Days4_16 => 10 * 1440,
            TimeFrame::Days8_32 => 20 * 1440,
            TimeFrame::Days16_64 => 40 * 1440,
        }
    }

    /// The timeframe as a `chrono` duration of `to_minutes()` minutes.
    pub fn to_duration(self) -> (d: chrono::TimeDelta)
        ensures
            d == timedelta_of_minutes(timeframe_minutes(self) as i64),
            timedelta_seconds(d) == 60 * timeframe_minutes(self),
    {
        duration_from_minutes(self.to_minutes())
    }

    /// Short display label ("15m", "2-8d", ...).
    pub fn label(&self) -> (s: &'static str)
        ensures
            s@ == timeframe_label(*self),
    {
        proof {
            reveal_strlit("15m");
            reveal_strlit("1h");
            reveal_strlit("4h");
            reveal_strlit("1d");
            reveal_strlit("7d");
            reveal_strlit("14d");
            reveal_strlit("2-8d");
            reveal_strlit("4-16d");
            reveal_strlit("8-32d");
            reveal_strlit("16-64d");
        }
        match self {
            TimeFrame::Minutes15 => "15m",
            TimeFrame::Hours1 => "1h",
            TimeFrame::Hours4 => "4h",
            TimeFrame::Days1 => "1d",
            TimeFrame::Days7 => "7d",
            TimeFrame::Days14 => "14d",
            TimeFrame::Days2_8 => "2-8d",
            TimeFrame::Days4_16 => "4-16d",
            TimeFrame::Days8_32 => "8-32d",
            TimeFrame::Days16_64 => "16-64d",
        }
    }

    /// All timeframes, shortest first.
    pub fn all_timeframes() -> (v: Vec<TimeFrame>)
        ensures
            v@ == all_timeframes_spec(),
    {
        let v = vec![
            TimeFrame::Minutes15,
            TimeFrame::Hours1,
            TimeFrame::Hours4,
            TimeFrame::Days1,
            TimeFrame::Days7,
            TimeFrame::Days14,
            TimeFrame::Days2_8,
            TimeFrame::Days4_16,
            TimeFrame::Days8_32,
            TimeFrame::Days16_64,
        ];
        assert(v@ =~= all_timeframes_spec());
        v
    }

    /// Carver's multi-timeframe momentum periods.
    pub fn carver_momentum_timeframes() -> (v: Vec<TimeFrame>)
        ensures
            v@ == carver_timeframes_spec(),
    {
        let v = vec![
            TimeFrame::Days2_8,
            TimeFrame::Days4_16,
            TimeFrame::Days8_32,
            TimeFrame::Days16_64,
        ];
        assert(v@ =~= carver_timeframes_spec());
        v
    }

    /// Range of lookback periods (shortest, longest) for the momentum calculation.
    pub fn momentum_range(&self) -> (r: (i32, i32))
        ensures
            (r.0 as int, r.1 as int) == timeframe_range(*self),
            r.0 <= r.1,
    {
        match self {
            TimeFrame::Minutes15 => (15, 15),
            TimeFrame::Hours1 => (60, 60),
            TimeFrame::Hours4 => (240, 240),
            TimeFrame::Days1 => (1, 1),
            TimeFrame::Days7 => (7, 7),
            TimeFrame::Days14 => (14, 14),
            TimeFrame::Days2_8 => (2, 8),
            TimeFrame::Days4_16 => (4, 16),
            TimeFrame::Days8_32 => (8, 32),
            TimeFrame::Days16_64 => (16, 64),
        }
    }
}

/// Every timeframe occurs exactly once in `all_timeframes`.
pub proof fn law_all_timeframes_lists_each_once(tf: TimeFrame)
    ensures
        all_timeframes_spec().contains(tf),
        all_timeframes_spec().no_duplicates(),
{
    let s = all_timeframes_spec();
    assert(s[0] == TimeFrame::Minutes15);
    assert(s[1] == TimeFrame::Hours1);
    assert(s[2] == TimeFrame::Hours4);
    assert(s[3] == TimeFrame::Days1);
    assert(s[4] == TimeFrame::Days7);
    assert(s[5] == TimeFrame::Days14);
    assert(s[6] == TimeFrame::Days2_8);
    assert(s[7] == TimeFrame::Days4_16);
    assert(s[8] == TimeFrame::Days8_32);
    assert(s[9] == TimeFrame::Days16_64);
}

/// Carver's momentum timeframes are among all timeframes, and each spans the midpoint of
/// its day range: its length in minutes is that midpoint in days.
pub proof fn law_carver_timeframes_use_range_midpoint(i: int)
    requires
        0 <= i < carver_timeframes_spec().len(),
    ensures
        all_timeframes_spec().contains(carver_timeframes_spec()[i]),
        timeframe_minutes(carver_timeframes_spec()[i]) == (timeframe_range(
            carver_timeframes_spec()[i],
        ).0 + timeframe_range(carver_timeframes_spec()[i]).1) / 2 * 1440,
{
    let tf = carver_timeframes_spec()[i];
    law_all_timeframes_lists_each_once(tf);
}

/// Distinct timeframes have distinct labels and every timeframe is a positive length.
pub proof fn law_timeframe_labels_are_distinct(a: TimeFrame, b: TimeFrame)
    ensures
        timeframe_label(a) == timeframe_label(b) ==> a == b,
        timeframe_minutes(a) > 0,
        timeframe_range(a).0 <= timeframe_range(a).1,
{
    reveal_strlit("15m");
    reveal_strlit("1h");
    reveal_strlit("4h");
    reveal_strlit("1d");
    reveal_strlit("7d");
    reveal_strlit("14d");
    reveal_strlit("2-8d");
    reveal_strlit("4-16d");
    reveal_strlit("8-32d");
    reveal_strlit("16-64d");
    if timeframe_label(a) == timeframe_label(b) {
        let la = timeframe_label(a);
        let lb = timeframe_label(b);
        assert(la.len() == lb.len());
        assert(la[0] == lb[0]);
        if la.len() >= 2 {
            assert(la[1] == lb[1]);
        }
        if la.len() >= 3 {
            assert(la[2] == lb[2]);
        }
    }
}

/// Minutes in the unit that a label's last character names: minutes, hours or days.
pub open spec fn unit_minutes(unit: char) -> int {
    if unit == 'm' {
        1
    } else if unit == 'h' {
        60
    } else if unit == 'd' {
        1440
    } else {
        0
    }
}

/// A timeframe lasts what its label says: a fixed timeframe ("15m", "1h", "1d", "14d", ...) is
/// that many minutes, hours or days long; a range "A-Bd" spans days A to B and lasts the
/// midpoint of the range in days. A day timeframe's length lies within its range of days;
/// the others have their length in minutes as their range.
pub proof fn law_timeframe_length_matches_label(tf: TimeFrame)
    ensures
        ({
            let label = timeframe_label(tf);
            let unit = label.last();
            let r = timeframe_range(tf);
            let minutes = timeframe_minutes(tf);
            &&& unit_minutes(unit) > 0
            &&& minutes % unit_minutes(unit) == 0
            &&& r.0 == r.1 ==> label == decimal_digits((minutes / unit_minutes(unit)) as nat).push(unit)
            &&& r.0 < r.1 ==> unit == 'd' && label == decimal_digits(r.0 as nat) + seq!['-']
                + decimal_digits(r.1 as nat).push('d') && minutes == (r.0 + r.1) / 2 * 1440
            &&& unit == 'd' ==> r.0 * 1440 <= minutes <= r.1 * 1440
            &&& unit != 'd' ==> r == (minutes, minutes)
        }),
{
    reveal_strlit("15m");
    reveal_strlit("1h");
    reveal_strlit("4h");
    reveal_strlit("1d");
    reveal_strlit("7d");
    reveal_strlit("14d");
    reveal_strlit("2-8d");
    reveal_strlit("4-16d");
    reveal_strlit("8-32d");
    reveal_strlit("16-64d");
    reveal_with_fuel(decimal_digits, 3);
    let label = timeframe_label(tf);
    match tf {
        TimeFrame::Minutes15 => assert(label =~= decimal_digits(15).push('m')),
        TimeFrame::Hours1 => assert(label =~= decimal_digits(1).push('h')),
        TimeFrame::Hours4 => assert(label =~= decimal_digits(4).push('h')),
        TimeFrame::Days1 => assert(label =~= decimal_digits(1).push('d')),
        TimeFrame::Days7 => assert(label =~= decimal_digits(7).push('d')),
        TimeFrame::Days14 => assert(label =~= decimal_digits(14).push('d')),
        TimeFrame::Days2_8 => assert(label =~= decimal_digits(2) + seq!['-'] + decimal_digits(8).push('d')),
        TimeFrame::Days4_16 => assert(label =~= decimal_digits(4) + seq!['-'] + decimal_digits(16).push('d')),
        TimeFrame::Days8_32 => assert(label =~= decimal_digits(8) + seq!['-'] + decimal_digits(32).push('d')),
        TimeFrame::Days16_64 => assert(label =~= decimal_digits(16) + seq!['-'] + decimal_digits(64).push('d')),
    }
}

} // verus!
