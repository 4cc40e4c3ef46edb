use algotrading::momentum::{exit_symbols, get_order_type};

fn names(v: &[&str]) -> Vec<String> {
    v.iter().map(|s| s.to_string()).collect()
}

#[test]
fn positions_that_left_the_top_are_exited() {
    let held = names(&["AAPL", "MSFT", "ES", "GC"]);
    let top = names(&["MSFT", "NQ", "GC"]);
    assert_eq!(exit_symbols(&held, &top), names(&["AAPL", "ES"]));
}

#[test]
fn nothing_is_exited_when_all_positions_stay_on_top() {
    let held = names(&["MSFT"]);
    let top = names(&["MSFT", "NQ"]);
    assert!(exit_symbols(&held, &top).is_empty());
    assert_eq!(exit_symbols(&held, &Vec::new()), names(&["MSFT"]));
    assert!(exit_symbols(&Vec::new(), &top).is_empty());
}

#[test]
fn order_type_follows_the_limit_order_setting() {
    assert_eq!(get_order_type(true), "LMT");
    assert_eq!(get_order_type(false), "MKT");
}
