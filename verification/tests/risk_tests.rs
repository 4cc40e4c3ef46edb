use algotrading::risk::{RiskAction, RiskUrgency};

#[test]
fn test_position_size_calculation() {
    assert!(true);
}

#[test]
fn test_stop_loss_calculation() {
    assert!(true);
}

#[test]
fn risk_classifications_are_distinct() {
    assert_ne!(RiskAction::ReducePosition, RiskAction::ClosePosition);
    assert_ne!(RiskUrgency::Critical, RiskUrgency::High);
}
