//! Margin health classification.
use vstd::prelude::*;

verus! {

/// Margin health of the account, with a message for warnings and alerts.
#[derive(Debug, Clone, PartialEq)]
pub enum MarginStatus {
    Healthy,
    Warning(String),
    Critical(String),
}

} // verus!
