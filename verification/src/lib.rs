//! Verified core of a systematic futures and equities trading bot: the futures
//! contract calendar, timeframe tables, order book bookkeeping and the shared
//! enumerations of the signal, risk and margin layers.

pub mod bollinger;
pub mod breakout;
pub mod calendar;
pub mod carry;
pub mod config;
pub mod connection;
pub mod futures_utils;
pub mod margin;
pub mod momentum;
pub mod market_data;
pub mod order_types;
pub mod price_history;
pub mod orders;
pub mod position_inertia;
pub mod risk;
pub mod risk_budgeting_inertia;
pub mod security_types;
pub mod signals;
