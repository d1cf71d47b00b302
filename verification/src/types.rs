//! Core types shared by every part of the library.
use vstd::prelude::*;
use crate::num::Num;

verus! {

/// Order side.
#[derive(Clone, Copy, Debug, PartialEq, Eq, Hash, Structural)]
pub enum Side {
    Buy,
    Sell,
}

impl Side {
    /// Whether orders of this side rest on the ask side of the book.
    pub fn is_ask(self) -> (r: bool)
        ensures
            r == (self == Side::Sell),
    {
        match self {
            Side::Buy => false,
            Side::Sell => true,
        }
    }

    /// The side in lower case.
    pub fn as_str(self) -> (r: &'static str)
        ensures
            r@ == side_text(self),
    {
        match self {
            Side::Buy => "buy",
            Side::Sell => "sell",
        }
    }
}

/// The side in lower case.
pub open spec fn side_text(side: Side) -> Seq<char> {
    match side {
        Side::Buy => "buy"@,
        Side::Sell => "sell"@,
    }
}

/// What to do with an order slot this cycle.
#[derive(Clone, Copy, Debug, PartialEq, Eq, Structural)]
pub enum OrderAction {
    Create,
    Modify,
    Cancel,
}

/// One order operation on a (side, level) slot.
#[derive(Clone, Copy, Debug, PartialEq, Eq, Structural)]
pub struct BatchOp {
    pub side: Side,
    pub level: usize,
    pub action: OrderAction,
    pub price: Num,
    pub size: Num,
    /// Client order index; for a modify or a cancel, that of the resting order.
    pub client_order_id: i64,
    /// Exchange order index, for a modify or a cancel.
    pub exchange_id: Option<i64>,
    pub reduce_only: bool,
}

/// Outcome of sending a transaction.
#[derive(Clone, Copy, Debug, PartialEq, Eq, Structural)]
pub enum TxSendStatus {
    /// The exchange took it.
    Accepted,
    /// Definitely rejected.
    Rejected,
    /// Nothing was written: safe to retry over another transport.
    NotSent,
    /// Something may have been written but the reply was lost: never to be retried.
    Unknown,
}

/// Outcome of sending a transaction, with what the exchange said.
#[derive(Clone, Debug)]
pub struct TxSendResult {
    pub status: TxSendStatus,
    pub code: i64,
    pub message: String,
    pub quota_remaining: Option<i64>,
}

impl TxSendResult {
    /// Nothing was written, for the given reason.
    pub fn not_sent(reason: String) -> (r: TxSendResult)
        ensures
            r.status == TxSendStatus::NotSent,
            r.code == -1,
            r.message@ == reason@,
            r.quota_remaining is None,
    {
        TxSendResult {
            status: TxSendStatus::NotSent,
            code: -1,
            message: reason,
            quota_remaining: None,
        }
    }

    /// The reply was lost, for the given reason.
    pub fn unknown(reason: String) -> (r: TxSendResult)
        ensures
            r.status == TxSendStatus::Unknown,
            r.code == -1,
            r.message@ == reason@,
            r.quota_remaining is None,
    {
        TxSendResult {
            status: TxSendStatus::Unknown,
            code: -1,
            message: reason,
            quota_remaining: None,
        }
    }
}

/// Lifecycle of one (side, level) order slot.
#[derive(Clone, Copy, Debug, PartialEq, Eq, Structural)]
pub enum SideStatus {
    Idle,
    Placing,
    Live,
    Modifying,
    Canceling,
}

/// What the order tracker learns from the other tasks. None may be dropped.
#[allow(inconsistent_fields)]
#[derive(Clone, Copy, Debug, PartialEq, Eq, Structural)]
pub enum OrderEvent {
    /// The order rests on the exchange.
    BindLive {
        side: Side,
        level: usize,
        client_order_id: i64,
        exchange_id: Option<i64>,
        price: Num,
        size: Num,
    },
    /// The order left the book. Client id 0 stands for any order in the slot.
    ClearLive { side: Side, level: usize, client_order_id: i64 },
    /// Every order left the book.
    ClearAll,
    /// The exchange's id of an order became known.
    IdResolved { client_order_id: i64, exchange_id: i64 },
    /// Part or all of an order of ours was filled.
    Fill { client_order_id: i64, filled_size: Num },
}

/// What the exchange says of a market.
#[derive(Clone, Debug)]
pub struct MarketConfig {
    pub market_id: u32,
    pub symbol: String,
    pub price_tick: Num,
    pub amount_tick: Num,
    pub min_base_amount: Num,
    pub min_quote_amount: Num,
    pub price_decimals: u32,
    pub size_decimals: u32,
}

/// Each side has its own name.
pub proof fn sides_have_names()
    ensures
        side_text(Side::Buy) == "buy"@,
        side_text(Side::Sell) == "sell"@,
{
}

} // verus!
