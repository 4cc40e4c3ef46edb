use algotrading::config::{
    default_correlation_lookback_days, default_enable_position_inertia,
    default_enable_risk_budgeting, default_enable_transaction_cost_optimization,
    default_min_positions_for_erc, default_use_limit_orders, futures_expiry_update, TwsConfig,
};
use algotrading::security_types::SecurityType;

#[test]
fn defaults_of_the_configuration() {
    assert!(default_use_limit_orders());
    assert!(default_enable_risk_budgeting());
    assert_eq!(default_correlation_lookback_days(), 63);
    assert_eq!(default_min_positions_for_erc(), 3);
    assert!(default_enable_transaction_cost_optimization());
    assert!(default_enable_position_inertia());
}

#[test]
fn default_connection_is_local_paper_trading() {
    let c = TwsConfig::paper_trading();
    assert_eq!(c.host, "127.0.0.1");
    assert_eq!(c.port, 7497);
    assert_eq!(c.client_id, 1);
}

#[test]
fn only_configured_futures_are_rolled() {
    assert!(futures_expiry_update(SecurityType::Stock, true, "AAPL").is_none());
    assert!(futures_expiry_update(SecurityType::Future, false, "ES").is_none());
    let (expiry, month) = futures_expiry_update(SecurityType::Future, true, "ES").unwrap();
    assert_eq!(expiry.len(), 8);
    assert!(expiry.starts_with(&month));
}
