//! Best bid and offer of the reference exchange.
use vstd::prelude::*;
use vstd::string::StringExecFns;
use crate::json::{member, parse_json, parsed, text_of, Document, Json};
use crate::num::Num;
use crate::text::{lowercase, lowercased};

verus! {

/// A ticker message with its numbers still as texts.
#[derive(Clone, Debug)]
pub struct RawTicker {
    pub bid: Option<String>,
    pub ask: Option<String>,
    pub bid_qty: Option<String>,
    pub ask_qty: Option<String>,
}

/// The text that a member is.
pub open spec fn member_text(d: Document, key: Seq<char>) -> Option<Seq<char>> {
    match member(d, key) {
        Some(x) => text_of(x),
        None => None,
    }
}

/// A text, where there is one.
pub open spec fn seen(t: Option<String>) -> Option<Seq<char>> {
    match t {
        Some(s) => Some(s@),
        None => None,
    }
}

/// The text that a member is.
fn read_text(v: &Json, key: &str) -> (r: Option<String>)
    ensures
        seen(r) == member_text(v@, key@),
{
    match v.get(key) {
        Some(x) => match x.as_str() {
            Some(t) => Some(t.to_owned()),
            None => None,
        },
        None => None,
    }
}

/// The ticker message that a document is.
pub fn read_ticker(v: &Json) -> (r: RawTicker)
    ensures
        seen(r.bid) == member_text(v@, "b"@),
        seen(r.ask) == member_text(v@, "a"@),
        seen(r.bid_qty) == member_text(v@, "B"@),
        seen(r.ask_qty) == member_text(v@, "A"@),
{
    RawTicker {
        bid: read_text(v, "b"),
        ask: read_text(v, "a"),
        bid_qty: read_text(v, "B"),
        ask_qty: read_text(v, "A"),
    }
}

/// The ticker message that a text is; `None` where it is no JSON.
pub fn parse_ticker(text: &str) -> (r: Option<RawTicker>)
    ensures
        match parsed(text@) {
            Some(d) => r matches Some(t) && seen(t.bid) == member_text(d, "b"@) && seen(t.ask)
                == member_text(d, "a"@) && seen(t.bid_qty) == member_text(d, "B"@) && seen(
                t.ask_qty,
            ) == member_text(d, "A"@),
            None => r is None,
        },
{
    match parse_json(text) {
        Some(v) => Some(read_ticker(&v)),
        None => None,
    }
}

/// Whether a best bid and ask are to be published.
pub open spec fn publishable(bid: Num, ask: Num) -> bool {
    bid.finite() && ask.finite() && bid.below(ask)
}

/// Whether a best bid and ask are to be published: both finite, and not crossed.
pub fn accepts_bbo(bid: Num, ask: Num) -> (r: bool)
    ensures
        r == (bid.finite() && ask.finite() && bid.below(ask)),
        r == publishable(bid, ask),
{
    bid.is_finite() && ask.is_finite() && bid.lt(ask)
}

/// The address of the ticker of a market, under the given base.
pub fn ticker_url(base: &str, symbol: &str) -> (r: String)
    ensures
        r@ == base@ + "/"@ + lowercased(symbol@) + "@bookTicker"@,
{
    let market: String = lowercase(symbol);
    base.to_owned().concat("/").concat(market.as_str()).concat("@bookTicker")
}

/// No crossed or unbounded quote is published, and every other one is. A member's text is the text
/// that it is.
pub proof fn published_quotes_are_sound(bid: Num, ask: Num, d: Document, key: Seq<char>, t: Seq<char>)
    ensures
        publishable(bid, ask) ==> bid.finite() && ask.finite() && bid.below(ask),
        !bid.finite() || !ask.finite() || ask.at_most(bid) ==> !publishable(bid, ask),
        bid.finite() && ask.finite() && bid.below(ask) ==> publishable(bid, ask),
        member(d, key) == Some(Document::Text(t)) ==> member_text(d, key) == Some(t),
        member(d, key) is None ==> member_text(d, key) is None,
{
}

} // verus!
