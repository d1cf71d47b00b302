//! What the exchange sends, with prices and sizes as numbers.
use vstd::prelude::*;
use crate::num::{spec_zero, Num};
use crate::text::{contains_text, occurs, same_text};

verus! {

/// The markets of the exchange.
#[derive(Clone, Debug)]
pub struct OrderBooksResponse {
    pub order_books: Vec<OrderBookDetail>,
}

/// One market of the exchange.
#[derive(Clone, Debug)]
pub struct OrderBookDetail {
    pub symbol: String,
    pub market_id: u32,
    pub min_base_amount: String,
    pub min_quote_amount: String,
    pub supported_size_decimals: u32,
    pub supported_price_decimals: u32,
    pub maker_fee: String,
    pub status: String,
}

/// The nonce that the next transaction must carry.
#[derive(Clone, Copy, Debug)]
pub struct NextNonceResponse {
    pub nonce: i64,
}

/// The reply to a transaction, over either transport.
#[derive(Clone, Debug)]
pub struct TxResponse {
    pub code: i64,
    pub message: String,
    pub volume_quota_remaining: Option<i64>,
}

/// The orders of the account that rest on the exchange.
#[derive(Clone, Debug)]
pub struct AccountActiveOrdersResponse {
    pub orders: Vec<RemoteOrder>,
}

/// An order as the exchange reports it.
#[derive(Clone, Debug)]
pub struct RemoteOrder {
    pub client_order_index: Option<i64>,
    pub order_index: Option<i64>,
    pub is_ask: Option<bool>,
    pub price: Option<Num>,
    pub remaining_base_amount: Option<Num>,
    pub filled_base_amount: Option<Num>,
    pub status: Option<String>,
}

/// Whether a reported status says that the order left the book.
pub open spec fn terminal_status(status: Seq<char>) -> bool {
    ||| status == "filled"@
    ||| status == "cancelled"@
    ||| status == "expired"@
}

impl RemoteOrder {
    /// Whether the order still rests: only a terminal status says that it does not, since the list
    /// of active orders may leave the status out.
    pub open spec fn live(&self) -> bool {
        !(self.status is Some && terminal_status(self.status->0@))
    }

    /// Whether the order still rests on the exchange.
    pub fn is_live(&self) -> (r: bool)
        ensures
            r == self.live(),
    {
        match &self.status {
            None => true,
            Some(s) => !(same_text(s.as_str(), "filled") || same_text(s.as_str(), "cancelled")
                || same_text(s.as_str(), "expired")),
        }
    }
}

/// One level of an order book.
#[derive(Clone, Copy, Debug, PartialEq, Eq, Structural)]
pub struct PriceLevel {
    pub price: Num,
    pub size: Num,
}

/// The levels that a book message carries.
#[derive(Clone, Debug)]
pub struct OrderBookPayload {
    pub bids: Vec<PriceLevel>,
    pub asks: Vec<PriceLevel>,
    pub offset: Option<u64>,
    pub nonce: Option<i64>,
    pub begin_nonce: Option<i64>,
}

/// A book message: a snapshot on subscription, a delta afterwards.
#[derive(Clone, Debug)]
pub struct OrderBookMsg {
    pub msg_type: String,
    pub offset: Option<u64>,
    pub nonce: Option<i64>,
    pub begin_nonce: Option<i64>,
    pub order_book: OrderBookPayload,
}

/// The first of two optional values that is there.
pub open spec fn first_of<T>(a: Option<T>, b: Option<T>) -> Option<T> {
    if a is Some {
        a
    } else {
        b
    }
}

impl OrderBookMsg {
    /// Whether the message carries a whole book.
    pub open spec fn snapshot(&self) -> bool {
        occurs(self.msg_type@, "subscribed"@)
    }

    /// The offset of the message.
    pub open spec fn spec_offset(&self) -> Option<u64> {
        first_of(self.offset, self.order_book.offset)
    }

    /// The nonce of the message.
    pub open spec fn spec_nonce(&self) -> Option<i64> {
        first_of(self.nonce, self.order_book.nonce)
    }

    /// The first nonce that the message covers.
    pub open spec fn spec_begin_nonce(&self) -> Option<i64> {
        first_of(self.begin_nonce, self.order_book.begin_nonce)
    }

    /// Whether the message carries a whole book.
    pub fn is_snapshot(&self) -> (r: bool)
        ensures
            r == self.snapshot(),
    {
        contains_text(self.msg_type.as_str(), "subscribed")
    }

    /// The offset of the envelope, or else that of the payload.
    pub fn effective_offset(&self) -> (r: Option<u64>)
        ensures
            r == self.spec_offset(),
    {
        if self.offset.is_some() {
            self.offset
        } else {
            self.order_book.offset
        }
    }

    /// The matching engine's nonce of this update: the envelope's, or else the payload's.
    pub fn effective_nonce(&self) -> (r: Option<i64>)
        ensures
            r == self.spec_nonce(),
    {
        if self.nonce.is_some() {
            self.nonce
        } else {
            self.order_book.nonce
        }
    }

    /// The first nonce that this update covers: the nonce of the update before it, unless
    /// updates were missed.
    pub fn effective_begin_nonce(&self) -> (r: Option<i64>)
        ensures
            r == self.spec_begin_nonce(),
    {
        if self.begin_nonce.is_some() {
            self.begin_nonce
        } else {
            self.order_book.begin_nonce
        }
    }
}

/// A ticker message: best bid and ask under either of their two names.
#[derive(Clone, Copy, Debug)]
pub struct TickerMsg {
    pub best_bid: Option<Num>,
    pub bid: Option<Num>,
    pub best_ask: Option<Num>,
    pub ask: Option<Num>,
}

impl TickerMsg {
    /// The best bid.
    pub fn best_bid(&self) -> (r: Option<Num>)
        ensures
            r == first_of(self.best_bid, self.bid),
    {
        if self.best_bid.is_some() {
            self.best_bid
        } else {
            self.bid
        }
    }

    /// The best ask.
    pub fn best_ask(&self) -> (r: Option<Num>)
        ensures
            r == first_of(self.best_ask, self.ask),
    {
        if self.best_ask.is_some() {
            self.best_ask
        } else {
            self.ask
        }
    }
}

/// Orders of the account, by market.
#[derive(Clone, Debug)]
pub struct AccountOrdersMsg {
    pub msg_type: String,
    pub orders: Vec<(String, Vec<RemoteOrder>)>,
}

/// Positions and trades of the account, by market.
#[derive(Clone, Debug)]
pub struct AccountAllMsg {
    pub msg_type: String,
    pub positions: Vec<(String, PositionPayload)>,
    pub trades: Vec<(String, Vec<TradePayload>)>,
}

/// A position as the exchange reports it: magnitude and sign.
#[derive(Clone, Copy, Debug, PartialEq, Eq, Structural)]
pub struct PositionPayload {
    pub position: Option<Num>,
    pub sign: Option<i32>,
    pub avg_entry_price: Option<Num>,
}

impl PositionPayload {
    /// The reported magnitude, zero where it is missing.
    pub open spec fn size(self) -> Num {
        match self.position {
            Some(p) => p,
            None => spec_zero(),
        }
    }

    /// Position size in base units, negative where the reported sign is.
    pub fn signed(&self) -> (r: Num)
        ensures
            r == if self.sign is Some && self.sign->0 < 0 {
                self.size().absolute().negated()
            } else {
                self.size().absolute()
            },
    {
        let size: Num = match self.position {
            Some(p) => p.abs(),
            None => Num::zero(),
        };
        match self.sign {
            Some(s) => if s < 0 {
                size.neg()
            } else {
                size
            },
            None => size,
        }
    }
}

/// A trade as the exchange reports it.
#[derive(Clone, Copy, Debug, PartialEq, Eq, Structural)]
pub struct TradePayload {
    pub price: Option<Num>,
    pub size: Option<Num>,
    pub usd_amount: Option<Num>,
    pub is_maker_ask: Option<bool>,
    pub ask_id: Option<i64>,
    pub bid_id: Option<i64>,
    pub ask_client_id: Option<i64>,
    pub bid_client_id: Option<i64>,
    pub ask_account_id: Option<i64>,
    pub bid_account_id: Option<i64>,
    pub ask_account_pnl: Option<Num>,
    pub bid_account_pnl: Option<Num>,
    pub timestamp: Option<i64>,
    pub transaction_time: Option<i64>,
    pub trade_id: Option<i64>,
}

/// The magnitude of an integer.
pub open spec fn magnitude_of(n: int) -> int {
    if n < 0 {
        -n
    } else {
        n
    }
}

/// Integer division that rounds towards zero.
pub open spec fn toward_zero(n: int, d: int) -> int {
    if n < 0 {
        -((-n) / d)
    } else {
        n / d
    }
}

/// A timestamp in milliseconds, whatever its unit: nanoseconds and microseconds are told by
/// their size and cut down, seconds are scaled up.
pub open spec fn as_millis(ts: int) -> int {
    let size = magnitude_of(ts);
    if size > 10_000_000_000_000_000 {
        toward_zero(ts, 1_000_000)
    } else if size > 10_000_000_000_000 {
        toward_zero(ts, 1_000)
    } else if size < 10_000_000_000 {
        ts * 1_000
    } else {
        ts
    }
}

/// A timestamp in milliseconds, whatever its unit.
pub fn normalize_timestamp_ms(ts: i64) -> (r: i64)
    requires
        ts != i64::MIN,
    ensures
        r == as_millis(ts as int),
{
    let size: i64 = if ts < 0 { -ts } else { ts };
    if size > 10_000_000_000_000_000 {
        if ts < 0 {
            -(size / 1_000_000)
        } else {
            size / 1_000_000
        }
    } else if size > 10_000_000_000_000 {
        if ts < 0 {
            -(size / 1_000)
        } else {
            size / 1_000
        }
    } else if size < 10_000_000_000 {
        ts * 1_000
    } else {
        ts
    }
}

impl TradePayload {
    /// When the trade happened, as reported.
    pub open spec fn reported_time(self) -> Option<i64> {
        first_of(self.transaction_time, self.timestamp)
    }

    /// When the trade happened, in milliseconds.
    pub fn event_time_ms(&self) -> (r: Option<i64>)
        requires
            self.reported_time() != Some(i64::MIN),
        ensures
            r == match self.reported_time() {
                Some(t) => Some(as_millis(t as int) as i64),
                None => None,
            },
    {
        let reported: Option<i64> = if self.transaction_time.is_some() {
            self.transaction_time
        } else {
            self.timestamp
        };
        match reported {
            Some(t) => Some(normalize_timestamp_ms(t)),
            None => None,
        }
    }
}

/// Capital of the account as the exchange reports it.
#[derive(Clone, Copy, Debug)]
pub struct StatsPayload {
    pub available_balance: Option<Num>,
    pub portfolio_value: Option<Num>,
}

/// An order rests unless its status says that it was filled, was cancelled or expired; one without a
/// status rests.
pub proof fn orders_rest_until_they_are_done(o: RemoteOrder)
    ensures
        o.status is None ==> o.live(),
        o.status is Some ==> (o.live() <==> o.status->0@ != "filled"@ && o.status->0@ != "cancelled"@
            && o.status->0@ != "expired"@),
{
}

/// What a book message counts for: its envelope where that says something, else its payload.
pub proof fn envelopes_come_first(m: OrderBookMsg)
    ensures
        m.snapshot() <==> occurs(m.msg_type@, "subscribed"@),
        m.offset is Some ==> m.spec_offset() == m.offset,
        m.offset is None ==> m.spec_offset() == m.order_book.offset,
        m.nonce is Some ==> m.spec_nonce() == m.nonce,
        m.nonce is None ==> m.spec_nonce() == m.order_book.nonce,
        m.begin_nonce is Some ==> m.spec_begin_nonce() == m.begin_nonce,
        m.begin_nonce is None ==> m.spec_begin_nonce() == m.order_book.begin_nonce,
{
}

/// One moment is the same in whichever unit it is given: seconds, milliseconds, microseconds and
/// nanoseconds of it, parts of the unit dropped, come to the same millisecond; and a time before the
/// epoch is as far from it as the same time after it.
pub proof fn moments_are_the_same_in_any_unit(second: int, ms: int, us: int, ns: int)
    requires
        10_000_000 < second < 10_000_000_000,
        0 <= ms < 1_000,
        0 <= us < 1_000,
        0 <= ns < 1_000,
    ensures
        as_millis(second) == second * 1_000,
        as_millis(second * 1_000 + ms) == second * 1_000 + ms,
        as_millis((second * 1_000 + ms) * 1_000 + us) == second * 1_000 + ms,
        as_millis(((second * 1_000 + ms) * 1_000 + us) * 1_000 + ns) == second * 1_000 + ms,
        as_millis(-second) == -as_millis(second),
        as_millis(-(second * 1_000 + ms)) == -(second * 1_000 + ms),
        as_millis(-((second * 1_000 + ms) * 1_000 + us)) == -(second * 1_000 + ms),
        as_millis(-(((second * 1_000 + ms) * 1_000 + us) * 1_000 + ns)) == -(second * 1_000 + ms),
{
}

/// A trade happened when its transaction did, or else at its own time; a position without a
/// magnitude is one of none.
pub proof fn trades_go_by_their_transaction(t: TradePayload, p: PositionPayload)
    ensures
        t.transaction_time is Some ==> t.reported_time() == t.transaction_time,
        t.transaction_time is None ==> t.reported_time() == t.timestamp,
        p.position is Some ==> p.size() == p.position->0,
        p.position is None ==> p.size().bits == 0,
{
}

} // verus!
