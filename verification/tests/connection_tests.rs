use algotrading::connection::{create_contract, unit_label};
use algotrading::security_types::SecurityType;

#[test]
fn forex_pairs_split_into_base_and_quote() {
    let c = create_contract(SecurityType::Forex, "EUR.USD", "IDEALPRO", "JPY", None);
    assert_eq!(c.symbol, "EUR");
    assert_eq!(c.currency, "USD");
    assert_eq!(c.exchange, "IDEALPRO");
    assert_eq!(c.last_trade_date_or_contract_month, "");
}

#[test]
fn forex_symbol_without_single_dot_keeps_configured_currency() {
    let c = create_contract(SecurityType::Forex, "EUR", "IDEALPRO", "USD", None);
    assert_eq!((c.symbol.as_str(), c.currency.as_str()), ("EUR", "USD"));
    let c = create_contract(SecurityType::Forex, "EUR.USD.X", "IDEALPRO", "USD", None);
    assert_eq!((c.symbol.as_str(), c.currency.as_str()), ("EUR.USD.X", "USD"));
}

#[test]
fn futures_carry_their_contract_month() {
    let c = create_contract(SecurityType::Future, "ES", "CME", "USD", Some("202506"));
    assert_eq!(c.symbol, "ES");
    assert_eq!(c.last_trade_date_or_contract_month, "202506");
    let s = create_contract(SecurityType::Stock, "AAPL", "SMART", "USD", Some("202506"));
    assert_eq!(s.last_trade_date_or_contract_month, "");
    assert_eq!(s.currency, "USD");
}

#[test]
fn quantity_units() {
    assert_eq!(unit_label(SecurityType::Stock), "shares");
    assert_eq!(unit_label(SecurityType::Future), "contracts");
    assert_eq!(unit_label(SecurityType::Forex), "units");
}
