//! The non-numeric decisions of the momentum strategy: which held positions to exit and which
//! order type to send.
use crate::futures_utils::str_equal;
use vstd::prelude::*;

verus! {

/// The held symbols, in their order, that are not among the top performers: each of these
/// positions is exited because its momentum rank dropped.
pub open spec fn symbols_to_exit(held: Seq<Seq<char>>, top: Seq<Seq<char>>) -> Seq<Seq<char>>
    decreases held.len(),
{
    if held.len() == 0 {
        held
    } else {
        let r = symbols_to_exit(held.drop_last(), top);
        if top.contains(held.last()) {
            r
        } else {
            r.push(held.last())
        }
    }
}

/// Whether `symbol` is in `list`.
fn contains_symbol(list: &Vec<String>, symbol: &str) -> (b: bool)
    ensures
        b == list.deep_view().contains(symbol@),
{
    let mut i: usize = 0;
    while i < list.len()
        invariant
            i <= list.len(),
            forall|j: int| 0 <= j < i ==> list.deep_view()[j] != symbol@,
        decreases list.len() - i,
    {
        if str_equal(list[i].as_str(), symbol) {
            assert(list.deep_view()[i as int] == symbol@);
            return true;
        }
        i = i + 1;
    }
    false
}

/// Held positions that are not among the top performers, in the order they are held.
pub fn exit_symbols(held: &Vec<String>, top_performers: &Vec<String>) -> (res: Vec<String>)
    ensures
        res.deep_view() == symbols_to_exit(held.deep_view(), top_performers.deep_view()),
{
    let mut out: Vec<String> = Vec::new();
    let mut i: usize = 0;
    while i < held.len()
        invariant
            i <= held.len(),
            out.deep_view() == symbols_to_exit(
                held.deep_view().take(i as int),
                top_performers.deep_view(),
            ),
        decreases held.len() - i,
    {
        proof {
            assert(held.deep_view().take(i + 1).drop_last() =~= held.deep_view().take(i as int));
            assert(held.deep_view().take(i + 1).last() == held.deep_view()[i as int]);
        }
        if !contains_symbol(top_performers, held[i].as_str()) {
            let s = held[i].clone();
            out.push(s);
            assert(out.deep_view() =~= symbols_to_exit(
                held.deep_view().take(i as int),
                top_performers.deep_view(),
            ).push(held.deep_view()[i as int]));
        }
        i = i + 1;
    }
    assert(held.deep_view().take(i as int) =~= held.deep_view());
    out
}

/// Order type of the strategy's orders: limit orders ("LMT") when configured, market orders
/// ("MKT") otherwise.
pub fn get_order_type(use_limit_orders: bool) -> (s: String)
    ensures
        use_limit_orders ==> s@ == "LMT"@,
        !use_limit_orders ==> s@ == "MKT"@,
{
    if use_limit_orders {
        String::from_str("LMT")
    } else {
        String::from_str("MKT")
    }
}

/// A position is exited exactly when it is held and not among the top performers.
pub proof fn law_exit_exactly_the_dropped_positions(
    held: Seq<Seq<char>>,
    top: Seq<Seq<char>>,
    symbol: Seq<char>,
)
    ensures
        symbols_to_exit(held, top).contains(symbol) <==> (held.contains(symbol) && !top.contains(
            symbol,
        )),
    decreases held.len(),
{
    if held.len() > 0 {
        let init = held.drop_last();
        let last = held.last();
        law_exit_exactly_the_dropped_positions(init, top, symbol);
        let r = symbols_to_exit(init, top);
        assert(held =~= init.push(last));
        assert(held.contains(symbol) <==> (init.contains(symbol) || symbol == last)) by {
            if held.contains(symbol) {
                let k = choose|k: int| 0 <= k < held.len() && held[k] == symbol;
                if k < init.len() {
                    assert(init[k] == symbol);
                }
            }
            if init.contains(symbol) {
                let k = choose|k: int| 0 <= k < init.len() && init[k] == symbol;
                assert(held[k] == symbol);
            }
            if symbol == last {
                assert(held[held.len() - 1] == symbol);
            }
        }
        if !top.contains(last) {
            let out = r.push(last);
            assert(symbols_to_exit(held, top) == out);
            assert(out.contains(symbol) <==> (r.contains(symbol) || symbol == last)) by {
                if out.contains(symbol) {
                    let k = choose|k: int| 0 <= k < out.len() && out[k] == symbol;
                    if k < r.len() {
                        assert(r[k] == symbol);
                    }
                }
                if r.contains(symbol) {
                    let k = choose|k: int| 0 <= k < r.len() && r[k] == symbol;
                    assert(out[k] == symbol);
                }
                if symbol == last {
                    assert(out[r.len() as int] == symbol);
                }
            }
        }
    }
}

} // verus!
