//! Connection settings and the non-numeric configuration defaults.
use crate::futures_utils::{
    contract_month_text, expiry_text, front_month_defined, front_month_expiry_spec,
    front_month_outcome, get_front_month_contract,
};
use crate::calendar::ymd_valid;
use crate::security_types::SecurityType;
use vstd::prelude::*;
use vstd::string::StringExecFns;

verus! {

/// Connection settings of the TWS / IB Gateway session.
#[derive(Debug, Clone)]
pub struct TwsConfig {
    pub host: String,
    pub port: u16,
    pub client_id: i32,
}

/// Port of the TWS paper-trading session.
pub const PAPER_TRADING_PORT: u16 = 7497;

impl TwsConfig {
    /// The default connection: the local paper-trading session, client 1.
    pub fn paper_trading() -> (c: TwsConfig)
        ensures
            c.host@ == "127.0.0.1"@,
            c.port == PAPER_TRADING_PORT,
            c.client_id == 1,
    {
        TwsConfig { host: String::from_str("127.0.0.1"), port: PAPER_TRADING_PORT, client_id: 1 }
    }
}

/// Limit orders are preferred by default.
pub fn default_use_limit_orders() -> (b: bool)
    ensures
        b,
{
    true
}

/// Risk budgeting is on by default.
pub fn default_enable_risk_budgeting() -> (b: bool)
    ensures
        b,
{
    true
}

/// About three months of trading days for correlations.
pub fn default_correlation_lookback_days() -> (n: usize)
    ensures
        n == 63,
{
    63
}

/// Equal risk contribution needs at least three positions by default.
pub fn default_min_positions_for_erc() -> (n: usize)
    ensures
        n == 3,
{
    3
}

/// Transaction cost optimization is on by default.
pub fn default_enable_transaction_cost_optimization() -> (b: bool)
    ensures
        b,
{
    true
}

/// Position inertia is on by default.
pub fn default_enable_position_inertia() -> (b: bool)
    ensures
        b,
{
    true
}

/// Outcome of rolling a configured future on the date `today`: the front month's expiry and
/// contract-month texts where the rule yields one, `None` where it does not.
pub open spec fn expiry_update_outcome(
    symbol: Seq<char>,
    today: (int, int, int),
    res: Option<(String, String)>,
) -> bool {
    &&& (res is Some <==> front_month_defined(symbol, today))
    &&& res matches Some(r) ==> r.0@ == expiry_text(front_month_expiry_spec(symbol, today))
        && r.1@ == contract_month_text(front_month_expiry_spec(symbol, today))
}

/// The rolled (expiry, contract month) of a configured security when its futures contract
/// is refreshed at load time: only futures that carry contract specifications are rolled,
/// to the front month of the date the clock gives; a security that is not rolled, or whose
/// front month cannot be determined on that date, keeps its configured dates (`None`).
pub fn futures_expiry_update(security_type: SecurityType, has_futures_specs: bool, symbol: &str) -> (res:
    Option<(String, String)>)
    ensures
        !(security_type == SecurityType::Future && has_futures_specs) ==> res is None,
        security_type == SecurityType::Future && has_futures_specs ==> exists|
            y: i32,
            m: u32,
            d: u32,
        |
            ymd_valid(y as int, m as int, d as int) && #[trigger] expiry_update_outcome(
                symbol@,
                (y as int, m as int, d as int),
                res,
            ),
{
    if security_type == SecurityType::Future && has_futures_specs {
        let fetched = get_front_month_contract(symbol);
        let ghost date = choose|y: i32, m: u32, d: u32|
            ymd_valid(y as int, m as int, d as int) && #[trigger] front_month_outcome(
                symbol@,
                (y as int, m as int, d as int),
                fetched,
            );
        let res = match fetched {
            Ok(r) => Some(r),
            Err(_) => None,
        };
        assert(expiry_update_outcome(symbol@, (date.0 as int, date.1 as int, date.2 as int), res));
        res
    } else {
        None
    }
}

} // verus!
