//! Per-symbol price histories of the market data handler: time-ordered insertion of
//! historical prices, appending of real-time prices, and trimming to a maximum length.
//! Prices travel as an opaque payload.
use crate::calendar::{unix_seconds_representable, utc_now, Timestamp};
use crate::futures_utils::str_equal;
use crate::market_data::{num_seconds, timeframe_minutes, TimeFrame};
use std::collections::HashMap;
use vstd::prelude::*;

verus! {

/// Length of a newly registered history.
pub const DEFAULT_HISTORY_SIZE: usize = 1000;

/// Prices of one symbol with their times, and the most that are kept.
#[derive(Debug, Clone)]
pub struct PriceHistory<P> {
    pub symbol: String,
    pub prices: Vec<(Timestamp, P)>,
    pub max_size: usize,
}

/// `a` lies strictly after `b`.
pub open spec fn later(a: Timestamp, b: Timestamp) -> bool {
    a.secs > b.secs || (a.secs == b.secs && a.nanos > b.nanos)
}

/// Times never decrease along the sequence.
pub open spec fn time_ordered<P>(s: Seq<(Timestamp, P)>) -> bool {
    forall|i: int, j: int| 0 <= i < j < s.len() ==> !later(s[i].0, s[j].0)
}

/// Position of the first entry strictly later than `t` (`s.len()` if none is).
pub open spec fn first_later<P>(s: Seq<(Timestamp, P)>, t: Timestamp) -> int
    decreases s.len(),
{
    if s.len() == 0 {
        0
    } else if later(s[0].0, t) {
        0
    } else {
        1 + first_later(s.drop_first(), t)
    }
}

/// Stable sort by time: each entry goes after every earlier-placed entry that is not later
/// than it, so entries with equal times keep their order.
pub open spec fn sorted_by_time<P>(s: Seq<(Timestamp, P)>) -> Seq<(Timestamp, P)>
    decreases s.len(),
{
    if s.len() == 0 {
        s
    } else {
        let r = sorted_by_time(s.drop_last());
        r.insert(first_later(r, s.last().0), s.last())
    }
}

/// The last `max` entries of `s` (all of them if there are fewer).
pub open spec fn keep_last<P>(s: Seq<(Timestamp, P)>, max: nat) -> Seq<(Timestamp, P)> {
    if s.len() > max {
        s.skip(s.len() - max)
    } else {
        s
    }
}

/// Prices after a historical price is added: appended, sorted by time, trimmed to the newest
/// `max` entries.
pub open spec fn with_historical<P>(s: Seq<(Timestamp, P)>, entry: (Timestamp, P), max: nat) -> Seq<
    (Timestamp, P),
> {
    keep_last(sorted_by_time(s.push(entry)), max)
}

/// Prices after a real-time price is appended: the oldest entry goes when the history is
/// over its maximum.
pub open spec fn with_realtime<P>(s: Seq<(Timestamp, P)>, entry: (Timestamp, P), max: nat) -> Seq<
    (Timestamp, P),
> {
    if s.push(entry).len() > max {
        s.push(entry).drop_first()
    } else {
        s.push(entry)
    }
}

/// Whether `DateTime::from_timestamp(secs, 0)` gives a date-time.
#[verifier::external_body]
fn unix_seconds_in_range(secs: i64) -> (b: bool)
    ensures
        b == unix_seconds_representable(secs as int),
{
    chrono::DateTime::from_timestamp(secs, 0).is_some()
}

/// The first entry strictly later than `t`.
fn first_later_index<P>(s: &Vec<(Timestamp, P)>, t: Timestamp) -> (k: usize)
    ensures
        k == first_later(s@, t),
        k <= s@.len(),
{
    let mut k: usize = 0;
    while k < s.len()
        invariant
            0 <= k <= s@.len(),
            forall|j: int| 0 <= j < k ==> !later(#[trigger] s@[j].0, t),
        decreases s@.len() - k,
    {
        let e = s[k].0;
        if e.secs > t.secs || (e.secs == t.secs && e.nanos > t.nanos) {
            proof {
                lemma_first_later_at(s@, t, k as int);
            }
            return k;
        }
        k = k + 1;
    }
    proof {
        lemma_first_later_at(s@, t, k as int);
    }
    k
}

/// `first_later` is the first position whose entry is later than `t`.
proof fn lemma_first_later_at<P>(s: Seq<(Timestamp, P)>, t: Timestamp, k: int)
    requires
        0 <= k <= s.len(),
        k < s.len() ==> later(s[k].0, t),
        forall|j: int| 0 <= j < k ==> !later(#[trigger] s[j].0, t),
    ensures
        first_later(s, t) == k,
    decreases k,
{
    if k > 0 {
        assert forall|j: int| 0 <= j < k - 1 implies !later(#[trigger] s.drop_first()[j].0, t) by {
            assert(s.drop_first()[j] == s[j + 1]);
        }
        lemma_first_later_at(s.drop_first(), t, k - 1);
    }
}

/// Sorts entries by time, keeping the order of equal times.
fn sort_by_time<P>(v: Vec<(Timestamp, P)>) -> (r: Vec<(Timestamp, P)>)
    ensures
        r@ == sorted_by_time(v@),
{
    let ghost orig = v@;
    let mut rest = v;
    let mut out: Vec<(Timestamp, P)> = Vec::new();
    let mut i: usize = 0;
    let n = rest.len();
    assert(orig.len() == n);
    while rest.len() > 0
        invariant
            0 <= i <= orig.len(),
            orig.len() <= usize::MAX,
            rest@ == orig.skip(i as int),
            out@ == sorted_by_time(orig.take(i as int)),
        decreases rest@.len(),
    {
        let x = rest.remove(0);
        proof {
            assert(orig.take(i + 1).drop_last() =~= orig.take(i as int));
            assert(orig.take(i + 1).last() == x);
            assert(rest@ =~= orig.skip(i + 1));
        }
        let pos = first_later_index(&out, x.0);
        out.insert(pos, x);
        i = i + 1;
    }
    assert(orig.take(i as int) =~= orig);
    out
}

/// Drops the oldest entries until at most `max` remain.
fn trim_to<P>(v: &mut Vec<(Timestamp, P)>, max: usize)
    ensures
        final(v)@ == keep_last(old(v)@, max as nat),
{
    let ghost orig = old(v)@;
    let mut removed: usize = 0;
    let n = v.len();
    assert(orig.len() == n);
    while v.len() > max
        invariant
            orig.len() <= usize::MAX,
            orig.len() > max ==> removed <= orig.len() - max,
            orig.len() <= max ==> removed == 0,
            v@ == orig.skip(removed as int),
        decreases v@.len(),
    {
        v.remove(0);
        removed = removed + 1;
        assert(v@ =~= orig.skip(removed as int));
    }
    assert(orig.skip(0) =~= orig);
}

impl<P> PriceHistory<P> {
    /// An empty history of `symbol` keeping at most `max_size` prices.
    pub fn new(symbol: String, max_size: usize) -> (h: Self)
        ensures
            h.symbol == symbol,
            h.prices@ == Seq::<(Timestamp, P)>::empty(),
            h.max_size == max_size,
    {
        PriceHistory { symbol, prices: Vec::new(), max_size }
    }

    /// Adds a historical price: the prices are kept sorted by time (equal times in arrival
    /// order) and only the newest `max_size` stay.
    pub fn add_historical(&mut self, timestamp: Timestamp, price: P)
        ensures
            final(self).prices@ == with_historical(
                old(self).prices@,
                (timestamp, price),
                old(self).max_size as nat,
            ),
            final(self).symbol == old(self).symbol,
            final(self).max_size == old(self).max_size,
    {
        let mut prices = Vec::new();
        std::mem::swap(&mut prices, &mut self.prices);
        prices.push((timestamp, price));
        let mut sorted = sort_by_time(prices);
        trim_to(&mut sorted, self.max_size);
        self.prices = sorted;
    }

    /// Appends a real-time price; the oldest price goes when the history is over its maximum.
    pub fn add_realtime(&mut self, timestamp: Timestamp, price: P)
        ensures
            final(self).prices@ == with_realtime(
                old(self).prices@,
                (timestamp, price),
                old(self).max_size as nat,
            ),
            final(self).symbol == old(self).symbol,
            final(self).max_size == old(self).max_size,
    {
        self.prices.push((timestamp, price));
        if self.prices.len() > self.max_size {
            self.prices.remove(0);
        }
    }
}

/// The entries at or after `start`, in their order.
pub open spec fn entries_since<P>(s: Seq<(Timestamp, P)>, start: Timestamp) -> Seq<(Timestamp, P)>
    decreases s.len(),
{
    if s.len() == 0 {
        s
    } else {
        let r = entries_since(s.drop_last(), start);
        if later(start, s.last().0) {
            r
        } else {
            r.push(s.last())
        }
    }
}

/// Start of the window of `timeframe` that ends at `now`: `now` less the timeframe's length.
pub open spec fn window_start(now: Timestamp, timeframe: TimeFrame) -> Timestamp {
    Timestamp { secs: (now.secs - 60 * timeframe_minutes(timeframe)) as i64, nanos: now.nanos }
}

impl<P: Copy> PriceHistory<P> {
    /// The prices of the window of `timeframe` ending at `now`: those stamped at or after
    /// `now` less the timeframe's duration.
    pub fn prices_in_timeframe(&self, now: Timestamp, timeframe: TimeFrame) -> (res: Vec<(Timestamp, P)>)
        requires
            now.secs - 60 * timeframe_minutes(timeframe) >= i64::MIN,
        ensures
            res@ == entries_since(self.prices@, window_start(now, timeframe)),
    {
        let length = num_seconds(&timeframe.to_duration());
        let start = Timestamp { secs: now.secs - length, nanos: now.nanos };
        let mut out: Vec<(Timestamp, P)> = Vec::new();
        let mut i: usize = 0;
        while i < self.prices.len()
            invariant
                i <= self.prices@.len(),
                out@ == entries_since(self.prices@.take(i as int), start),
            decreases self.prices@.len() - i,
        {
            let e = self.prices[i];
            proof {
                assert(self.prices@.take(i + 1).drop_last() =~= self.prices@.take(i as int));
                assert(self.prices@.take(i + 1).last() == e);
            }
            if !(start.secs > e.0.secs || (start.secs == e.0.secs && start.nanos > e.0.nanos)) {
                out.push(e);
            }
            i = i + 1;
        }
        assert(self.prices@.take(i as int) =~= self.prices@);
        out
    }

    /// The prices of the window of `timeframe` ending now, by the clock.
    pub fn current_timeframe_prices(&self, timeframe: TimeFrame) -> (res: Vec<(Timestamp, P)>)
        ensures
            exists|now: Timestamp|
                now.nanos < 1_000_000_000 && unix_seconds_representable(now.secs as int) && res@
                    == #[trigger] entries_since(self.prices@, window_start(now, timeframe)),
    {
        let now = utc_now();
        let res = self.prices_in_timeframe(now, timeframe);
        assert(res@ == entries_since(self.prices@, window_start(now, timeframe)));
        res
    }
}

/// Position of the history of `symbol` (`s.len()` if there is none).
pub open spec fn index_of_symbol<P>(s: Seq<PriceHistory<P>>, symbol: Seq<char>) -> int
    decreases s.len(),
{
    if s.len() == 0 {
        0
    } else if s[0].symbol@ == symbol {
        0
    } else {
        1 + index_of_symbol(s.drop_first(), symbol)
    }
}

/// The history of `symbol`, if one is registered.
pub open spec fn history_of<P>(s: Seq<PriceHistory<P>>, symbol: Seq<char>) -> Option<PriceHistory<P>> {
    let k = index_of_symbol(s, symbol);
    if 0 <= k < s.len() {
        Some(s[k])
    } else {
        None
    }
}

/// Market data bookkeeping: the symbol of each market-data request and the price history
/// of each registered symbol, one per symbol.
pub struct MarketDataHandler<P> {
    symbol_map: HashMap<i32, String>,
    histories: Vec<PriceHistory<P>>,
}

/// No two histories belong to the same symbol.
pub open spec fn one_history_per_symbol<P>(s: Seq<PriceHistory<P>>) -> bool {
    forall|i: int, j: int| 0 <= i < j < s.len() ==> (#[trigger] s[i]).symbol@ != (#[trigger] s[j]).symbol@
}

impl<P> MarketDataHandler<P> {
    /// A symbol is registered at most once.
    #[verifier::type_invariant]
    spec fn histories_unique(self) -> bool {
        one_history_per_symbol(self.histories@)
    }

    /// The histories in registration order.
    pub closed spec fn histories_view(self) -> Seq<PriceHistory<P>> {
        self.histories@
    }

    /// The symbol of each market-data request id.
    pub closed spec fn request_symbols(self) -> Map<i32, String> {
        self.symbol_map@
    }

    /// No symbols registered.
    pub fn new() -> (h: Self)
        ensures
            h.histories_view() == Seq::<PriceHistory<P>>::empty(),
            h.request_symbols() == Map::<i32, String>::empty(),
    {
        MarketDataHandler { symbol_map: HashMap::new(), histories: Vec::new() }
    }

    /// Position of the history of `symbol`.
    fn position_of(&self, symbol: &str) -> (res: Option<usize>)
        ensures
            res matches Some(k) ==> k == index_of_symbol(self.histories@, symbol@) && k
                < self.histories@.len(),
            res is None ==> index_of_symbol(self.histories@, symbol@) == self.histories@.len(),
    {
        let mut k: usize = 0;
        while k < self.histories.len()
            invariant
                0 <= k <= self.histories@.len(),
                forall|j: int| 0 <= j < k ==> (#[trigger] self.histories@[j]).symbol@ != symbol@,
            decreases self.histories@.len() - k,
        {
            if str_equal(self.histories[k].symbol.as_str(), symbol) {
                proof {
                    lemma_symbol_at(self.histories@, symbol@, k as int);
                }
                return Some(k);
            }
            k = k + 1;
        }
        proof {
            lemma_symbol_at(self.histories@, symbol@, k as int);
        }
        None
    }

    /// Records `symbol` as the symbol of request `req_id`, and registers it with an empty
    /// history of 1000 prices unless it already has one.
    pub fn register_symbol(&mut self, req_id: i32, symbol: String)
        ensures
            final(self).request_symbols() == old(self).request_symbols().insert(req_id, symbol),
            history_of(old(self).histories_view(), symbol@) is Some ==> final(self).histories_view()
                == old(self).histories_view(),
            history_of(old(self).histories_view(), symbol@) is None ==> appended_empty(
                old(self).histories_view(),
                final(self).histories_view(),
                symbol@,
            ),
    {
        proof {
            use_type_invariant(&*self);
            lemma_index_of_symbol_bounded(self.histories@, symbol@);
            lemma_index_of_symbol_skips(self.histories@, symbol@);
        }
        let mut map = HashMap::new();
        std::mem::swap(&mut map, &mut self.symbol_map);
        map.insert(req_id, symbol.clone());
        self.symbol_map = map;
        let ghost before = self.histories@;
        if self.position_of(symbol.as_str()).is_none() {
            let mut hs = Vec::new();
            std::mem::swap(&mut hs, &mut self.histories);
            hs.push(PriceHistory::new(symbol, DEFAULT_HISTORY_SIZE));
            proof {
                assert(hs@.take(before.len() as int) =~= before);
                assert forall|i: int, j: int| 0 <= i < j < hs@.len() implies (#[trigger] hs@[i]).symbol@
                    != (#[trigger] hs@[j]).symbol@ by {
                    if j == before.len() {
                        assert(hs@[i] == before[i]);
                    } else {
                        assert(hs@[i] == before[i] && hs@[j] == before[j]);
                    }
                }
            }
            self.histories = hs;
        }
    }

    /// The history of `symbol`.
    pub fn get_price_history(&self, symbol: &str) -> (res: Option<&PriceHistory<P>>)
        ensures
            one_history_per_symbol(self.histories_view()),
            match res {
                Some(h) => history_of(self.histories_view(), symbol@) == Some(*h),
                None => history_of(self.histories_view(), symbol@) is None,
            },
    {
        proof {
            use_type_invariant(self);
            lemma_index_of_symbol_bounded(self.histories@, symbol@);
        }
        match self.position_of(symbol) {
            Some(k) => Some(&self.histories[k]),
            None => None,
        }
    }

    /// Adds a historical price of `symbol` given as Unix seconds (stamped with the current
    /// time when the seconds lie outside the representable calendar); unregistered symbols
    /// are ignored.
    pub fn add_historical_price(&mut self, symbol: &str, unix_seconds: i64, price: P)
        ensures
            final(self).request_symbols() == old(self).request_symbols(),
            history_of(old(self).histories_view(), symbol@) is None ==> final(self).histories_view()
                == old(self).histories_view(),
            history_of(old(self).histories_view(), symbol@) is Some ==> only_prices_changed(
                old(self).histories_view(),
                final(self).histories_view(),
                index_of_symbol(old(self).histories_view(), symbol@),
            ),
            history_of(old(self).histories_view(), symbol@) matches Some(h) ==> exists|t: Timestamp|
                #[trigger] historical_outcome(
                    h,
                    final(self).histories_view()[index_of_symbol(old(self).histories_view(), symbol@)],
                    unix_seconds,
                    t,
                    price,
                ),
    {
        proof {
            use_type_invariant(&*self);
            lemma_index_of_symbol_bounded(self.histories@, symbol@);
        }
        match self.position_of(symbol) {
            None => {},
            Some(k) => {
                let timestamp = if unix_seconds_in_range(unix_seconds) {
                    Timestamp { secs: unix_seconds, nanos: 0 }
                } else {
                    utc_now()
                };
                let ghost before = self.histories@;
                let mut hs = Vec::new();
                std::mem::swap(&mut hs, &mut self.histories);
                let mut h = hs.remove(k);
                h.add_historical(timestamp, price);
                hs.insert(k, h);
                self.histories = hs;
                proof {
                    assert(unix_seconds_representable(unix_seconds as int) ==> timestamp == (
                        Timestamp { secs: unix_seconds, nanos: 0 }));
                    assert(self.histories@ =~= before.update(k as int, self.histories@[k as int]));
                    assert(self.histories@[k as int].prices@ == with_historical(
                        before[k as int].prices@,
                        (timestamp, price),
                        before[k as int].max_size as nat,
                    ));
                    assert(before == old(self).histories_view());
                    assert(index_of_symbol(old(self).histories_view(), symbol@) == k);
                    assert(historical_outcome(
                        history_of(old(self).histories_view(), symbol@)->0,
                        self.histories_view()[index_of_symbol(old(self).histories_view(), symbol@)],
                        unix_seconds,
                        timestamp,
                        price,
                    ));
                }
            },
        }
    }

    /// Appends a real-time price of `symbol`, stamped with the current time; unregistered
    /// symbols are ignored.
    pub fn update_realtime_data(&mut self, symbol: &str, price: P)
        ensures
            final(self).request_symbols() == old(self).request_symbols(),
            history_of(old(self).histories_view(), symbol@) is None ==> final(self).histories_view()
                == old(self).histories_view(),
            history_of(old(self).histories_view(), symbol@) is Some ==> only_prices_changed(
                old(self).histories_view(),
                final(self).histories_view(),
                index_of_symbol(old(self).histories_view(), symbol@),
            ),
            history_of(old(self).histories_view(), symbol@) matches Some(h) ==> exists|t: Timestamp|
                #[trigger] realtime_outcome(
                    h,
                    final(self).histories_view()[index_of_symbol(old(self).histories_view(), symbol@)],
                    t,
                    price,
                ),
    {
        proof {
            use_type_invariant(&*self);
            lemma_index_of_symbol_bounded(self.histories@, symbol@);
        }
        match self.position_of(symbol) {
            None => {},
            Some(k) => {
                let timestamp = utc_now();
                let ghost before = self.histories@;
                let mut hs = Vec::new();
                std::mem::swap(&mut hs, &mut self.histories);
                let mut h = hs.remove(k);
                h.add_realtime(timestamp, price);
                hs.insert(k, h);
                proof {
                    assert(hs@ =~= before.update(k as int, hs@[k as int]));
                    assert forall|i: int, j: int| 0 <= i < j < hs@.len() implies (#[trigger] hs@[i]).symbol@
                        != (#[trigger] hs@[j]).symbol@ by {
                        assert(hs@[i].symbol == before[i].symbol && hs@[j].symbol == before[j].symbol);
                    }
                }
                self.histories = hs;
                proof {
                    assert(self.histories@ =~= before.update(k as int, self.histories@[k as int]));
                    assert(self.histories@[k as int].prices@ == with_realtime(
                        before[k as int].prices@,
                        (timestamp, price),
                        before[k as int].max_size as nat,
                    ));
                    assert(before == old(self).histories_view());
                    assert(index_of_symbol(old(self).histories_view(), symbol@) == k);
                    assert(realtime_outcome(
                        history_of(old(self).histories_view(), symbol@)->0,
                        self.histories_view()[index_of_symbol(old(self).histories_view(), symbol@)],
                        timestamp,
                        price,
                    ));
                }
            },
        }
    }
}

/// `after` is history `h` once a historical price stamped `t` was added, where `t` is a
/// valid time and is the given Unix second whenever that second lies in the representable
/// calendar.
pub open spec fn historical_outcome<P>(
    h: PriceHistory<P>,
    after: PriceHistory<P>,
    unix_seconds: i64,
    t: Timestamp,
    price: P,
) -> bool {
    &&& t.nanos < 1_000_000_000
    &&& unix_seconds_representable(unix_seconds as int) ==> t == (Timestamp {
        secs: unix_seconds,
        nanos: 0,
    })
    &&& after.prices@ == with_historical(h.prices@, (t, price), h.max_size as nat)
}

/// `after` is history `h` once a real-time price stamped `t`, a clock reading, was appended.
pub open spec fn realtime_outcome<P>(h: PriceHistory<P>, after: PriceHistory<P>, t: Timestamp, price: P) -> bool {
    &&& t.nanos < 1_000_000_000
    &&& after.prices@ == with_realtime(h.prices@, (t, price), h.max_size as nat)
}

impl<P> Default for MarketDataHandler<P> {
    /// No symbols registered.
    fn default() -> (h: Self)
        ensures
            h.histories_view() == Seq::<PriceHistory<P>>::empty(),
            h.request_symbols() == Map::<i32, String>::empty(),
    {
        Self::new()
    }
}

/// `after` is `before` with one more, empty history of `symbol` (1000 prices) at the end.
pub open spec fn appended_empty<P>(
    before: Seq<PriceHistory<P>>,
    after: Seq<PriceHistory<P>>,
    symbol: Seq<char>,
) -> bool {
    &&& after.len() == before.len() + 1
    &&& after.take(before.len() as int) == before
    &&& after.last().symbol@ == symbol
    &&& after.last().max_size == DEFAULT_HISTORY_SIZE
    &&& after.last().prices@ == Seq::<(Timestamp, P)>::empty()
}

/// `after` differs from `before` at most in the prices of the history at `k`.
pub open spec fn only_prices_changed<P>(
    before: Seq<PriceHistory<P>>,
    after: Seq<PriceHistory<P>>,
    k: int,
) -> bool {
    &&& 0 <= k < before.len()
    &&& after.len() == before.len()
    &&& forall|j: int| 0 <= j < before.len() && j != k ==> after[j] == before[j]
    &&& after[k].symbol == before[k].symbol
    &&& after[k].max_size == before[k].max_size
}

/// `index_of_symbol` never exceeds the length.
proof fn lemma_index_of_symbol_bounded<P>(s: Seq<PriceHistory<P>>, symbol: Seq<char>)
    ensures
        0 <= index_of_symbol(s, symbol) <= s.len(),
    decreases s.len(),
{
    if s.len() > 0 {
        lemma_index_of_symbol_bounded(s.drop_first(), symbol);
    }
}

/// `index_of_symbol` is the first position holding the symbol.
proof fn lemma_symbol_at<P>(s: Seq<PriceHistory<P>>, symbol: Seq<char>, k: int)
    requires
        0 <= k <= s.len(),
        k < s.len() ==> s[k].symbol@ == symbol,
        forall|j: int| 0 <= j < k ==> (#[trigger] s[j]).symbol@ != symbol,
    ensures
        index_of_symbol(s, symbol) == k,
    decreases k,
{
    if k > 0 {
        assert forall|j: int| 0 <= j < k - 1 implies (#[trigger] s.drop_first()[j]).symbol@
            != symbol by {
            assert(s.drop_first()[j] == s[j + 1]);
        }
        lemma_symbol_at(s.drop_first(), symbol, k - 1);
    }
}

/// Facts about `first_later`: entries before it are not later than `t`, the entry at it is.
proof fn lemma_first_later_bounds<P>(s: Seq<(Timestamp, P)>, t: Timestamp)
    ensures
        0 <= first_later(s, t) <= s.len(),
        forall|j: int| 0 <= j < first_later(s, t) ==> !later(#[trigger] s[j].0, t),
        first_later(s, t) < s.len() ==> later(s[first_later(s, t)].0, t),
    decreases s.len(),
{
    if s.len() > 0 && !later(s[0].0, t) {
        lemma_first_later_bounds(s.drop_first(), t);
        assert forall|j: int| 0 <= j < first_later(s, t) implies !later(#[trigger] s[j].0, t) by {
            if j > 0 {
                assert(s[j] == s.drop_first()[j - 1]);
            }
        }
    }
}

/// Sorting keeps the number of entries and leaves them in time order.
proof fn lemma_sorted_by_time<P>(s: Seq<(Timestamp, P)>)
    ensures
        sorted_by_time(s).len() == s.len(),
        time_ordered(sorted_by_time(s)),
    decreases s.len(),
{
    if s.len() > 0 {
        let r = sorted_by_time(s.drop_last());
        lemma_sorted_by_time(s.drop_last());
        let e = s.last();
        lemma_first_later_bounds(r, e.0);
        let p = first_later(r, e.0);
        let q = r.insert(p, e);
        assert(q == sorted_by_time(s));
        assert forall|i: int, j: int| 0 <= i < j < q.len() implies !later(q[i].0, q[j].0) by {
            if j < p {
                assert(q[i] == r[i] && q[j] == r[j]);
            } else if j == p {
                assert(q[i] == r[i]);
                assert(!later(r[i].0, e.0));
            } else if i < p {
                assert(q[i] == r[i] && q[j] == r[j - 1]);
                assert(!later(r[i].0, r[j - 1].0) || i == j - 1);
            } else if i == p {
                assert(q[j] == r[j - 1]);
                assert(later(r[p].0, e.0));
                assert(p == j - 1 || !later(r[p].0, r[j - 1].0));
            } else {
                assert(q[i] == r[i - 1] && q[j] == r[j - 1]);
                assert(!later(r[i - 1].0, r[j - 1].0));
            }
        }
    }
}

/// After a historical price is added, the prices are in time order and number the smaller of
/// the maximum and one more than before.
pub proof fn law_historical_prices_ordered_and_bounded<P>(
    s: Seq<(Timestamp, P)>,
    entry: (Timestamp, P),
    max: nat,
)
    ensures
        time_ordered(with_historical(s, entry, max)),
        with_historical(s, entry, max).len() == if s.len() + 1 > max {
            max
        } else {
            s.len() + 1
        },
{
    let sorted = sorted_by_time(s.push(entry));
    lemma_sorted_by_time(s.push(entry));
    let kept = with_historical(s, entry, max);
    if sorted.len() > max {
        let d = sorted.len() - max;
        assert forall|i: int, j: int| 0 <= i < j < kept.len() implies !later(kept[i].0, kept[j].0) by {
            assert(kept[i] == sorted[i + d] && kept[j] == sorted[j + d]);
        }
    }
}

/// A real-time price never takes a history over its maximum.
pub proof fn law_realtime_prices_bounded<P>(s: Seq<(Timestamp, P)>, entry: (Timestamp, P), max: nat)
    requires
        s.len() <= max,
    ensures
        with_realtime(s, entry, max).len() <= max,
        with_realtime(s, entry, max).last() == entry || max == 0,
{
}

/// No history before position `index_of_symbol` belongs to the symbol.
proof fn lemma_index_of_symbol_skips<P>(s: Seq<PriceHistory<P>>, symbol: Seq<char>)
    ensures
        forall|j: int|
            0 <= j < index_of_symbol(s, symbol) && j < s.len() ==> (#[trigger] s[j]).symbol@
                != symbol,
    decreases s.len(),
{
    if s.len() > 0 && s[0].symbol@ != symbol {
        lemma_index_of_symbol_skips(s.drop_first(), symbol);
        assert forall|j: int| 0 <= j < index_of_symbol(s, symbol) && j < s.len() implies (
        #[trigger] s[j]).symbol@ != symbol by {
            if j > 0 {
                assert(s[j] == s.drop_first()[j - 1]);
            }
        }
    }
}

/// Once a new symbol is registered, looking it up gives its empty history of the default
/// size.
pub proof fn law_registered_symbol_is_found<P>(
    before: Seq<PriceHistory<P>>,
    after: Seq<PriceHistory<P>>,
    symbol: Seq<char>,
)
    requires
        history_of(before, symbol) is None,
        appended_empty(before, after, symbol),
    ensures
        history_of(after, symbol) matches Some(h) && h.symbol@ == symbol && h.prices@
            == Seq::<(Timestamp, P)>::empty() && h.max_size == DEFAULT_HISTORY_SIZE,
{
    lemma_index_of_symbol_bounded(before, symbol);
    lemma_index_of_symbol_skips(before, symbol);
    let k = before.len() as int;
    assert forall|j: int| 0 <= j < k implies (#[trigger] after[j]).symbol@ != symbol by {
        assert(after[j] == after.take(k)[j]);
        assert(before[j] == after[j]);
    }
    lemma_symbol_at(after, symbol, k);
}

} // verus!
