use algotrading::order_types::TimeInForce;
use algotrading::orders::{OrderError, OrderManager, OrderSignal, OrderStatus};

#[derive(Debug, Clone, PartialEq)]
struct Fill {
    quantity: f64,
    price: f64,
}

fn signal(symbol: &str, quantity: f64) -> OrderSignal<Fill> {
    OrderSignal {
        symbol: symbol.to_string(),
        action: "BUY".to_string(),
        order_type: "MKT".to_string(),
        reason: "test".to_string(),
        details: Fill { quantity, price: 100.0 },
    }
}

#[test]
fn orders_are_numbered_from_1000() {
    let mut book: OrderManager<Fill> = OrderManager::new();
    assert_eq!(book.next_order_id(), 1000);
    let a = book.create_order(signal("AAPL", 10.0));
    let b = book.create_order(signal("MSFT", 5.0));
    assert_eq!(a.id, 1000);
    assert_eq!(b.id, 1001);
    assert_eq!(book.next_order_id(), 1002);
    assert_eq!(a.status, OrderStatus::Pending);
    assert_eq!(a.details, Fill { quantity: 10.0, price: 100.0 });
}

#[test]
fn created_order_is_found_by_id() {
    let mut book: OrderManager<Fill> = OrderManager::new();
    let a = book.create_order(signal("AAPL", 10.0));
    let found = book.get_order(a.id).unwrap();
    assert_eq!(found.symbol, "AAPL");
    assert_eq!(found.action, "BUY");
    assert_eq!(found.order_type, "MKT");
    assert!(book.get_order(999).is_none());
}

#[test]
fn status_update_changes_only_the_target() {
    let mut book: OrderManager<Fill> = OrderManager::new();
    let a = book.create_order(signal("AAPL", 10.0));
    let b = book.create_order(signal("MSFT", 5.0));
    assert_eq!(book.update_order_status(a.id, OrderStatus::Submitted), Ok(()));
    assert_eq!(book.get_order(a.id).unwrap().status, OrderStatus::Submitted);
    assert_eq!(book.get_order(b.id).unwrap().status, OrderStatus::Pending);
}

#[test]
fn unknown_order_is_reported() {
    let mut book: OrderManager<Fill> = OrderManager::new();
    book.create_order(signal("AAPL", 10.0));
    assert_eq!(book.update_order_status(42, OrderStatus::Filled), Err(OrderError::NotFound(42)));
    assert_eq!(book.cancel_order(7), Err(OrderError::NotFound(7)));
}

#[test]
fn cancel_sets_cancelled_and_pending_list_follows() {
    let mut book: OrderManager<Fill> = OrderManager::new();
    let a = book.create_order(signal("AAPL", 10.0));
    let b = book.create_order(signal("MSFT", 5.0));
    let c = book.create_order(signal("GOOG", 1.0));
    book.update_order_status(b.id, OrderStatus::Submitted).unwrap();
    book.cancel_order(a.id).unwrap();
    book.update_order_status(c.id, OrderStatus::Filled).unwrap();
    assert_eq!(book.get_order(a.id).unwrap().status, OrderStatus::Cancelled);
    let pending = book.get_pending_orders();
    assert_eq!(pending.len(), 1);
    assert_eq!(pending[0].id, b.id);
}

#[test]
fn time_in_force_codes() {

    assert_eq!(TimeInForce::Day.tif_code(), "DAY");
    assert_eq!(TimeInForce::GTC.tif_code(), "GTC");
    assert_eq!(TimeInForce::IOC.tif_code(), "IOC");
    assert_eq!(TimeInForce::FOK.tif_code(), "FOK");
}

#[test]
fn created_order_is_stamped_with_the_creation_time() {
    let now = || {
        std::time::SystemTime::now()
            .duration_since(std::time::UNIX_EPOCH)
            .unwrap()
            .as_secs() as i64
    };
    let mut book: OrderManager<Fill> = OrderManager::new();
    let before = now();
    let a = book.create_order(signal("AAPL", 10.0));
    let after = now();
    assert!(before <= a.timestamp.secs && a.timestamp.secs <= after);
    assert!(a.timestamp.nanos < 1_000_000_000);
    assert_eq!(book.get_order(a.id).unwrap().timestamp, a.timestamp);
}
