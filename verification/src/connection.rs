//! The broker-independent part of the TWS connection: which contract a configured
//! security is traded as, and how its quantities are named.
use crate::security_types::SecurityType;
use vstd::prelude::*;
use vstd::string::{StrSliceExecFns, StringExecFns};

verus! {

/// The fields of a broker contract for a configured security.
#[derive(Debug, Clone)]
pub struct ContractSpec {
    pub security_type: SecurityType,
    pub symbol: String,
    pub exchange: String,
    pub currency: String,
    /// `YYYYMM` contract month of a future; empty otherwise.
    pub last_trade_date_or_contract_month: String,
}

/// Number of '.' characters in `s`.
pub open spec fn dot_count(s: Seq<char>) -> nat
    decreases s.len(),
{
    if s.len() == 0 {
        0
    } else {
        dot_count(s.drop_last()) + if s.last() == '.' {
            1nat
        } else {
            0nat
        }
    }
}

/// Position of the first '.' in `s` (`s.len()` if there is none).
pub open spec fn first_dot(s: Seq<char>) -> int
    decreases s.len(),
{
    if s.len() == 0 {
        0
    } else if s[0] == '.' {
        0
    } else {
        1 + first_dot(s.drop_first())
    }
}

/// Base and quote currency of a forex symbol: "EUR.USD" names base EUR and quote USD;
/// a symbol without exactly one '.' is the base itself, quoted in the configured currency.
pub open spec fn forex_legs(symbol: Seq<char>, currency: Seq<char>) -> (Seq<char>, Seq<char>) {
    if dot_count(symbol) == 1 {
        (symbol.take(first_dot(symbol)), symbol.skip(first_dot(symbol) + 1))
    } else {
        (symbol, currency)
    }
}

proof fn lemma_dot_count_push(s: Seq<char>, c: char)
    ensures
        dot_count(s.push(c)) == dot_count(s) + if c == '.' {
            1nat
        } else {
            0nat
        },
{
    assert(s.push(c).drop_last() =~= s);
}

proof fn lemma_first_dot_at(s: Seq<char>, k: int)
    requires
        0 <= k < s.len(),
        s[k] == '.',
        forall|j: int| 0 <= j < k ==> s[j] != '.',
    ensures
        first_dot(s) == k,
    decreases k,
{
    if k > 0 {
        lemma_first_dot_at(s.drop_first(), k - 1);
    }
}

/// Counts the dots of `s` and finds the first one.
fn scan_dots(s: &str) -> (res: (usize, usize))
    ensures
        res.0 == dot_count(s@),
        res.0 >= 1 ==> res.1 == first_dot(s@) && res.1 < s@.len() && s@[res.1 as int] == '.',
{
    let n = s.unicode_len();
    let mut count: usize = 0;
    let mut first: usize = 0;
    let mut i: usize = 0;
    while i < n
        invariant
            n == s@.len(),
            0 <= i <= n,
            count == dot_count(s@.take(i as int)),
            count <= i,
            count >= 1 ==> first < i && first == first_dot(s@) && s@[first as int] == '.',
            count == 0 ==> forall|j: int| 0 <= j < i ==> s@[j] != '.',
        decreases n - i,
    {
        let c = s.get_char(i);
        proof {
            assert(s@.take(i + 1) =~= s@.take(i as int).push(c));
            lemma_dot_count_push(s@.take(i as int), c);
        }
        if c == '.' {
            if count == 0 {
                proof {
                    lemma_first_dot_at(s@, i as int);
                }
                first = i;
            }
            count = count + 1;
        }
        i = i + 1;
    }
    assert(s@.take(n as int) =~= s@);
    (count, first)
}

/// The broker contract of a configured security: stocks and futures keep their symbol,
/// exchange and currency, futures also carry their contract month, and forex symbols of
/// the form "BASE.QUOTE" are split into base symbol and quote currency.
pub fn create_contract(
    security_type: SecurityType,
    symbol: &str,
    exchange: &str,
    currency: &str,
    contract_month: Option<&str>,
) -> (c: ContractSpec)
    ensures
        c.security_type == security_type,
        c.exchange@ == exchange@,
        security_type != SecurityType::Forex ==> c.symbol@ == symbol@ && c.currency@ == currency@,
        security_type == SecurityType::Forex ==> (c.symbol@, c.currency@) == forex_legs(
            symbol@,
            currency@,
        ),
        c.last_trade_date_or_contract_month@ == (match (security_type, contract_month) {
            (SecurityType::Future, Some(m)) => m@,
            _ => Seq::<char>::empty(),
        }),
{
    let month = match (security_type, contract_month) {
        (SecurityType::Future, Some(m)) => String::from_str(m),
        _ => String::new(),
    };
    match security_type {
        SecurityType::Forex => {
            let (dots, first) = scan_dots(symbol);
            if dots == 1 {
                let n = symbol.unicode_len();
                let base = symbol.substring_char(0, first);
                let quote = symbol.substring_char(first + 1, n);
                ContractSpec {
                    security_type,
                    symbol: String::from_str(base),
                    exchange: String::from_str(exchange),
                    currency: String::from_str(quote),
                    last_trade_date_or_contract_month: month,
                }
            } else {
                ContractSpec {
                    security_type,
                    symbol: String::from_str(symbol),
                    exchange: String::from_str(exchange),
                    currency: String::from_str(currency),
                    last_trade_date_or_contract_month: month,
                }
            }
        },
        _ => ContractSpec {
            security_type,
            symbol: String::from_str(symbol),
            exchange: String::from_str(exchange),
            currency: String::from_str(currency),
            last_trade_date_or_contract_month: month,
        },
    }
}

/// Unit in which quantities of a security are counted.
pub open spec fn unit_label_spec(t: SecurityType) -> Seq<char> {
    match t {
        SecurityType::Stock => "shares"@,
        SecurityType::Future => "contracts"@,
        SecurityType::Forex => "units"@,
    }
}

/// Unit in which quantities of a security are counted: shares, contracts or units.
pub fn unit_label(security_type: SecurityType) -> (s: &'static str)
    ensures
        s@ == unit_label_spec(security_type),
{
    proof {
        reveal_strlit("shares");
        reveal_strlit("contracts");
        reveal_strlit("units");
    }
    match security_type {
        SecurityType::Stock => "shares",
        SecurityType::Future => "contracts",
        SecurityType::Forex => "units",
    }
}

} // verus!
