//! Order sides and time-in-force settings.
use vstd::prelude::*;

verus! {

/// Side of an order.
#[derive(Debug, Clone, Copy, PartialEq, Eq, Structural)]
pub enum OrderAction {
    Buy,
    Sell,
}

/// How long an order stays working.
#[derive(Debug, Clone, Copy, PartialEq, Eq, Structural)]
pub enum TimeInForce {
    /// Expires at the end of the trading day.
    Day,
    /// Good till canceled.
    GTC,
    /// Immediate or cancel.
    IOC,
    /// Fill or kill.
    FOK,
}

/// Broker code of a time-in-force setting.
pub open spec fn tif_code_spec(t: TimeInForce) -> Seq<char> {
    match t {
        TimeInForce::Day => "DAY"@,
        TimeInForce::GTC => "GTC"@,
        TimeInForce::IOC => "IOC"@,
        TimeInForce::FOK => "FOK"@,
    }
}

impl TimeInForce {
    /// Broker code of the setting ("DAY", "GTC", "IOC", "FOK").
    pub fn tif_code(&self) -> (s: &'static str)
        ensures
            s@ == tif_code_spec(*self),
    {
        proof {
            reveal_strlit("DAY");
            reveal_strlit("GTC");
            reveal_strlit("IOC");
            reveal_strlit("FOK");
        }
        match self {
            TimeInForce::Day => "DAY",
            TimeInForce::GTC => "GTC",
            TimeInForce::IOC => "IOC",
            TimeInForce::FOK => "FOK",
        }
    }
}

/// Distinct settings have distinct broker codes.
pub proof fn law_tif_codes_are_distinct(a: TimeInForce, b: TimeInForce)
    ensures
        tif_code_spec(a) == tif_code_spec(b) ==> a == b,
{
    reveal_strlit("DAY");
    reveal_strlit("GTC");
    reveal_strlit("IOC");
    reveal_strlit("FOK");
    if tif_code_spec(a) == tif_code_spec(b) {
        assert(tif_code_spec(a)[0] == tif_code_spec(b)[0]);
    }
}

} // verus!
