use algotrading::calendar::Timestamp;
use algotrading::market_data::{MarketDataHandler, PriceHistory, TimeFrame};
use algotrading::price_history::DEFAULT_HISTORY_SIZE;

fn at(secs: i64) -> Timestamp {
    Timestamp { secs, nanos: 0 }
}

fn times(h: &PriceHistory<f64>) -> Vec<i64> {
    h.prices.iter().map(|(t, _)| t.secs).collect()
}

fn now_secs() -> i64 {
    std::time::SystemTime::now()
        .duration_since(std::time::UNIX_EPOCH)
        .unwrap()
        .as_secs() as i64
}

#[test]
fn historical_prices_are_kept_in_time_order() {
    let mut h: PriceHistory<f64> = PriceHistory::new("AAPL".to_string(), 10);
    h.add_historical(at(300), 3.0);
    h.add_historical(at(100), 1.0);
    h.add_historical(at(200), 2.0);
    assert_eq!(times(&h), vec![100, 200, 300]);
    let prices: Vec<f64> = h.prices.iter().map(|(_, p)| *p).collect();
    assert_eq!(prices, vec![1.0, 2.0, 3.0]);
}

#[test]
fn equal_times_keep_arrival_order() {
    let mut h: PriceHistory<f64> = PriceHistory::new("AAPL".to_string(), 10);
    h.add_historical(at(100), 1.0);
    h.add_historical(at(100), 2.0);
    h.add_historical(at(50), 0.5);
    let prices: Vec<f64> = h.prices.iter().map(|(_, p)| *p).collect();
    assert_eq!(prices, vec![0.5, 1.0, 2.0]);
}

#[test]
fn historical_prices_trim_the_oldest() {
    let mut h: PriceHistory<f64> = PriceHistory::new("AAPL".to_string(), 2);
    h.add_historical(at(300), 3.0);
    h.add_historical(at(100), 1.0);
    h.add_historical(at(200), 2.0);
    assert_eq!(times(&h), vec![200, 300]);
    h.add_historical(at(50), 0.5);
    assert_eq!(times(&h), vec![200, 300]);
}

#[test]
fn realtime_prices_drop_the_first_when_full() {
    let mut h: PriceHistory<f64> = PriceHistory::new("AAPL".to_string(), 2);
    h.add_realtime(at(10), 1.0);
    h.add_realtime(at(5), 2.0);
    assert_eq!(times(&h), vec![10, 5]);
    h.add_realtime(at(20), 3.0);
    assert_eq!(times(&h), vec![5, 20]);
    assert_eq!(h.max_size, 2);
    assert_eq!(h.symbol, "AAPL");
}

#[test]
fn registered_symbols_get_an_empty_history() {
    let mut book: MarketDataHandler<f64> = MarketDataHandler::new();
    assert!(book.get_price_history("AAPL").is_none());
    book.register_symbol(1, "AAPL".to_string());
    let h = book.get_price_history("AAPL").unwrap();
    assert_eq!(h.symbol, "AAPL");
    assert_eq!(h.max_size, DEFAULT_HISTORY_SIZE);
    assert_eq!(DEFAULT_HISTORY_SIZE, 1000);
    assert!(h.prices.is_empty());
}

#[test]
fn registering_twice_keeps_the_prices() {
    let mut book: MarketDataHandler<f64> = MarketDataHandler::new();
    book.register_symbol(2, "AAPL".to_string());
    book.add_historical_price("AAPL", 1_700_000_000, 190.0);
    book.register_symbol(3, "AAPL".to_string());
    assert_eq!(book.get_price_history("AAPL").unwrap().prices.len(), 1);
}

#[test]
fn unregistered_symbols_are_ignored() {
    let mut book: MarketDataHandler<f64> = MarketDataHandler::new();
    book.register_symbol(4, "AAPL".to_string());
    book.add_historical_price("MSFT", 1_700_000_000, 400.0);
    book.update_realtime_data("MSFT", 401.0);
    assert!(book.get_price_history("MSFT").is_none());
    assert!(book.get_price_history("AAPL").unwrap().prices.is_empty());
}

#[test]
fn historical_price_keeps_its_unix_second() {
    let mut book: MarketDataHandler<f64> = MarketDataHandler::new();
    book.register_symbol(5, "ES".to_string());
    book.register_symbol(6, "NQ".to_string());
    book.add_historical_price("NQ", 1_700_000_100, 2.0);
    book.add_historical_price("NQ", 1_700_000_000, 1.0);
    let nq = book.get_price_history("NQ").unwrap();
    assert_eq!(nq.prices[0].0, Timestamp { secs: 1_700_000_000, nanos: 0 });
    assert_eq!(nq.prices[1].0, Timestamp { secs: 1_700_000_100, nanos: 0 });
    assert!(book.get_price_history("ES").unwrap().prices.is_empty());
}

#[test]
fn out_of_range_second_is_stamped_now() {
    let mut book: MarketDataHandler<f64> = MarketDataHandler::new();
    book.register_symbol(7, "ES".to_string());
    let before = now_secs();
    book.add_historical_price("ES", i64::MAX, 5.0);
    let after = now_secs();
    let t = book.get_price_history("ES").unwrap().prices[0].0;
    assert!(before <= t.secs && t.secs <= after);
    assert!(t.nanos < 1_000_000_000);
}

#[test]
fn realtime_price_is_stamped_now() {
    let mut book: MarketDataHandler<f64> = MarketDataHandler::new();
    book.register_symbol(8, "ES".to_string());
    let before = now_secs();
    book.update_realtime_data("ES", 5.0);
    let after = now_secs();
    let h = book.get_price_history("ES").unwrap();
    assert_eq!(h.prices.len(), 1);
    assert_eq!(h.prices[0].1, 5.0);
    assert!(before <= h.prices[0].0.secs && h.prices[0].0.secs <= after);
}

#[test]
fn representable_seconds_end_with_the_calendar() {
    let mut book: MarketDataHandler<f64> = MarketDataHandler::new();
    book.register_symbol(9, "CL".to_string());
    book.add_historical_price("CL", 8_210_266_876_799, 1.0);
    book.add_historical_price("CL", -8_334_601_228_800, 0.0);
    let h = book.get_price_history("CL").unwrap();
    assert_eq!(h.prices[0].0, Timestamp { secs: -8_334_601_228_800, nanos: 0 });
    assert_eq!(h.prices[1].0, Timestamp { secs: 8_210_266_876_799, nanos: 0 });
    let before = now_secs();
    book.add_historical_price("CL", 8_210_266_876_800, 2.0);
    let after = now_secs();
    let h = book.get_price_history("CL").unwrap();
    assert_eq!(h.prices.len(), 3);
    assert_eq!(h.prices[1].1, 2.0);
    assert!(before <= h.prices[1].0.secs && h.prices[1].0.secs <= after);
}

#[test]
fn default_handler_is_empty() {
    let book: MarketDataHandler<f64> = MarketDataHandler::default();
    assert!(book.get_price_history("ES").is_none());
}

#[test]
fn timeframe_window_keeps_prices_from_its_start() {
    let mut h: PriceHistory<f64> = PriceHistory::new("ES".to_string(), 10);
    let now = Timestamp { secs: 100_000, nanos: 500 };
    h.add_historical(Timestamp { secs: 100_000 - 3600, nanos: 499 }, 1.0);
    h.add_historical(Timestamp { secs: 100_000 - 3600, nanos: 500 }, 2.0);
    h.add_historical(Timestamp { secs: 100_000 - 60, nanos: 0 }, 3.0);
    h.add_historical(Timestamp { secs: 100_000 - 7200, nanos: 0 }, 0.5);
    let hour: Vec<f64> = h.prices_in_timeframe(now, TimeFrame::Hours1).iter().map(|(_, p)| *p).collect();
    assert_eq!(hour, vec![2.0, 3.0]);
    let quarter: Vec<f64> = h.prices_in_timeframe(now, TimeFrame::Minutes15).iter().map(|(_, p)| *p).collect();
    assert_eq!(quarter, vec![3.0]);
    assert_eq!(h.prices_in_timeframe(now, TimeFrame::Hours4).len(), 4);
}

#[test]
fn current_window_uses_the_clock() {
    let mut h: PriceHistory<f64> = PriceHistory::new("ES".to_string(), 10);
    let now = now_secs();
    h.add_historical(at(now - 2 * 86_400), 1.0);
    h.add_historical(at(now - 600), 2.0);
    let recent: Vec<f64> = h.current_timeframe_prices(TimeFrame::Hours1).iter().map(|(_, p)| *p).collect();
    assert_eq!(recent, vec![2.0]);
    assert_eq!(h.current_timeframe_prices(TimeFrame::Days7).len(), 2);
}
