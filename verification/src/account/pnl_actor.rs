//! Profit of the session: which trades count, for whom, and what they do to the account.
//!
//! A trade of the account is booked once. One whose client id is not known to be ours yet waits
//! until it is. A trade that waited while a position of the exchange was taken over is part of
//! that position already, so that its profit is booked but its size is not applied again.
use std::collections::VecDeque;
use vstd::prelude::*;
use vstd::string::StringExecFns;
use crate::account::fill_accounting::{
    after_fill, up, FillAccounting, FillNumbers, Fills,
};
use crate::account::id_set::{remembered, IdSet};
use crate::account::persistence::{loaded, written, LiveState};
use crate::csv_text::{cells, csv_line, encode_row};
use crate::lighter::messages::{as_millis, normalize_timestamp_ms, TradePayload};
use crate::metrics::trade_log::{opt, printed_if, TradeRow};
use crate::num::{spec_epsilon, spec_zero, Num};
use crate::text::{decimal, decimal_text, signed_decimal, signed_text};
use crate::timestamps::{rfc3339_of_ms, timestamp_from_ms};
use crate::types::{side_text, Side};

verus! {

/// Most trades that wait for their client id.
pub const PENDING_LIMIT: usize = 2_000;

/// A price no older than this, in milliseconds, is fresh.
pub const MID_FRESH_MS: u64 = 10_000;

/// A position as the exchange reports it.
#[derive(Clone, Copy, Debug, PartialEq, Eq, Structural)]
pub struct PositionSnapshot {
    pub signed_position: Num,
    pub entry_vwap: Option<Num>,
}

/// What the profit account is told.
#[derive(Debug)]
pub enum PnlEvent {
    RegisterClientIds(Vec<i64>),
    AccountAll { position: Option<PositionSnapshot>, trades: Vec<TradePayload> },
    Capital { available_capital: Option<Num>, portfolio_value: Option<Num> },
    Shutdown,
}

/// Why a trade is passed over.
#[derive(Clone, Copy, Debug, PartialEq, Eq, Structural)]
pub enum SkipReason {
    MissingTradeId,
    AccountNotInTrade,
    InvalidPriceOrSize,
}

/// The account's side of a trade.
#[derive(Clone, Copy, Debug, PartialEq, Eq, Structural)]
pub struct FillView {
    pub side: Side,
    pub price: Num,
    pub size: Num,
    /// The traded value as reported; price times size where it is missing.
    pub notional_usd: Option<Num>,
    pub client_order_id: Option<i64>,
    pub exchange_order_id: Option<i64>,
    pub exchange_pnl: Option<Num>,
}

/// A trade that is booked.
#[derive(Clone, Copy, Debug, PartialEq, Eq, Structural)]
pub struct Booking {
    pub trade_id: i64,
    pub fill: FillView,
    /// When the trade happened, as reported.
    pub reported_time: Option<i64>,
    /// Whether its client id is one of ours.
    pub known: bool,
    /// Whether its profit is the strategy's.
    pub attributed: bool,
    /// Whether a position taken over since holds it already.
    pub superseded: bool,
}

/// What becomes of a trade.
#[derive(Clone, Copy, Debug, PartialEq, Eq, Structural)]
pub enum TradeDecision {
    /// It was booked before.
    Duplicate,
    /// It waits for its client id.
    PendingClientId(i64),
    Skipped(SkipReason),
    Booked(Booking),
}

/// The account's side of a trade, where it is in the trade.
pub open spec fn fill_view(t: TradePayload, account: i64) -> Option<FillView> {
    if t.price is None || t.size is None {
        None
    } else if t.ask_account_id == Some(account) {
        Some(
            FillView {
                side: Side::Sell,
                price: t.price->0,
                size: t.size->0,
                notional_usd: t.usd_amount,
                client_order_id: t.ask_client_id,
                exchange_order_id: t.ask_id,
                exchange_pnl: t.ask_account_pnl,
            },
        )
    } else if t.bid_account_id == Some(account) {
        Some(
            FillView {
                side: Side::Buy,
                price: t.price->0,
                size: t.size->0,
                notional_usd: t.usd_amount,
                client_order_id: t.bid_client_id,
                exchange_order_id: t.bid_id,
                exchange_pnl: t.bid_account_pnl,
            },
        )
    } else {
        None
    }
}

impl FillView {
    /// The account's side of a trade, where it is in the trade and the trade has price and size.
    pub fn from_trade(trade: &TradePayload, account_index: i64) -> (r: Option<FillView>)
        ensures
            r == fill_view(*trade, account_index),
    {
        let (price, size): (Num, Num) = match (trade.price, trade.size) {
            (Some(p), Some(s)) => (p, s),
            _ => {
                return None;
            },
        };
        if trade.ask_account_id == Some(account_index) {
            Some(
                FillView {
                    side: Side::Sell,
                    price,
                    size,
                    notional_usd: trade.usd_amount,
                    client_order_id: trade.ask_client_id,
                    exchange_order_id: trade.ask_id,
                    exchange_pnl: trade.ask_account_pnl,
                },
            )
        } else if trade.bid_account_id == Some(account_index) {
            Some(
                FillView {
                    side: Side::Buy,
                    price,
                    size,
                    notional_usd: trade.usd_amount,
                    client_order_id: trade.bid_client_id,
                    exchange_order_id: trade.bid_id,
                    exchange_pnl: trade.bid_account_pnl,
                },
            )
        } else {
            None
        }
    }
}

/// What is known of the trades.
pub struct Ledger {
    pub account_index: i64,
    pub include_all: bool,
    /// Client ids of ours.
    pub clients: Seq<i64>,
    /// Trades booked.
    pub seen: Seq<i64>,
    /// Trades that wait, with the generation at which they came.
    pub pending: Seq<(TradePayload, u64)>,
    /// How often a position of the exchange was taken over.
    pub generation: u64,
    pub fills: u64,
    pub buys: u64,
    pub sells: u64,
    pub duplicates: u64,
    pub unattributed: u64,
}

/// What becomes of a trade that came at the given generation.
pub open spec fn decision(s: Ledger, t: TradePayload, generation: u64) -> TradeDecision {
    match t.trade_id {
        None => TradeDecision::Skipped(SkipReason::MissingTradeId),
        Some(id) => if s.seen.contains(id) {
            TradeDecision::Duplicate
        } else {
            match fill_view(t, s.account_index) {
                None => TradeDecision::Skipped(SkipReason::AccountNotInTrade),
                Some(f) => if f.price.at_most(spec_zero()) || f.size.at_most(spec_zero()) {
                    TradeDecision::Skipped(SkipReason::InvalidPriceOrSize)
                } else {
                    let known = f.client_order_id is Some && s.clients.contains(
                        f.client_order_id->0,
                    );
                    let attributed = known || s.include_all;
                    if !attributed && f.client_order_id is Some {
                        TradeDecision::PendingClientId(f.client_order_id->0)
                    } else {
                        TradeDecision::Booked(
                            Booking {
                                trade_id: id,
                                fill: f,
                                reported_time: t.reported_time(),
                                known,
                                attributed,
                                superseded: generation < s.generation,
                            },
                        )
                    }
                },
            }
        },
    }
}

/// The ledger after a decision.
pub open spec fn after_decision(s: Ledger, d: TradeDecision) -> Ledger {
    match d {
        TradeDecision::Duplicate => Ledger { duplicates: up(s.duplicates), ..s },
        TradeDecision::Booked(b) => Ledger {
            seen: remembered(s.seen, b.trade_id),
            unattributed: if b.attributed {
                s.unattributed
            } else {
                up(s.unattributed)
            },
            fills: up(s.fills),
            buys: if b.fill.side == Side::Buy {
                up(s.buys)
            } else {
                s.buys
            },
            sells: if b.fill.side == Side::Sell {
                up(s.sells)
            } else {
                s.sells
            },
            ..s
        },
        _ => s,
    }
}

/// What is booked by a decision.
pub open spec fn booked(d: TradeDecision) -> Seq<Booking> {
    match d {
        TradeDecision::Booked(b) => seq![b],
        _ => Seq::empty(),
    }
}

/// Whether a trade with this id waits.
pub open spec fn waits(s: Ledger, id: i64) -> bool {
    exists|i: int| 0 <= i < s.pending.len() && (#[trigger] s.pending[i]).0.trade_id == Some(id)
}

/// The ledger with one more trade waiting, or too many for the first one.
pub open spec fn queued(s: Ledger, t: TradePayload) -> Ledger {
    let grown = s.pending.push((t, s.generation));
    if grown.len() > PENDING_LIMIT {
        Ledger { pending: grown.drop_first(), unattributed: up(s.unattributed), ..s }
    } else {
        Ledger { pending: grown, ..s }
    }
}

/// The ledger after a trade came in, and what is booked.
pub open spec fn processed(s: Ledger, t: TradePayload) -> (Ledger, Seq<Booking>) {
    match t.trade_id {
        None => (Ledger { unattributed: up(s.unattributed), ..s }, Seq::empty()),
        Some(id) => if s.seen.contains(id) {
            (Ledger { duplicates: up(s.duplicates), ..s }, Seq::empty())
        } else if waits(s, id) {
            (s, Seq::empty())
        } else {
            let d = decision(s, t, s.generation);
            match d {
                TradeDecision::PendingClientId(_) => (queued(s, t), Seq::empty()),
                TradeDecision::Skipped(_) => (
                    Ledger { unattributed: up(s.unattributed), ..s },
                    Seq::empty(),
                ),
                _ => (after_decision(s, d), booked(d)),
            }
        },
    }
}

/// The ledger after the first `n` of the trades came in, and what is booked.
pub open spec fn processed_all(
    s: Ledger,
    trades: Seq<TradePayload>,
    n: nat,
) -> (Ledger, Seq<Booking>)
    decreases n,
{
    if n == 0 {
        (s, Seq::empty())
    } else {
        let (t, bookings) = processed_all(s, trades, (n - 1) as nat);
        let (u, more) = processed(t, trades[n - 1]);
        (u, bookings + more)
    }
}

/// The ledger after the first `n` of the waiting trades were tried again, and what is booked.
/// Those that wait on are collected anew.
pub open spec fn retried(
    s: Ledger,
    waiting: Seq<(TradePayload, u64)>,
    n: nat,
) -> (Ledger, Seq<Booking>)
    decreases n,
{
    if n == 0 {
        (Ledger { pending: Seq::empty(), ..s }, Seq::empty())
    } else {
        let (t, bookings) = retried(s, waiting, (n - 1) as nat);
        let (trade, generation) = waiting[n - 1];
        let d = decision(t, trade, generation);
        match d {
            TradeDecision::PendingClientId(_) => (
                Ledger { pending: t.pending.push((trade, generation)), ..t },
                bookings,
            ),
            TradeDecision::Skipped(_) => (
                Ledger { unattributed: up(t.unattributed), ..t },
                bookings,
            ),
            _ => (after_decision(t, d), bookings + booked(d)),
        }
    }
}

/// The ledger after every waiting trade was tried again, and what is booked.
pub open spec fn retried_all(s: Ledger) -> (Ledger, Seq<Booking>) {
    retried(s, s.pending, s.pending.len())
}

/// Client ids of ours after the first `n` of the given ones were registered.
pub open spec fn registered(clients: Seq<i64>, ids: Seq<i64>, n: nat) -> Seq<i64>
    decreases n,
{
    if n == 0 {
        clients
    } else {
        let rest = registered(clients, ids, (n - 1) as nat);
        if ids[n - 1] > 0 {
            remembered(rest, ids[n - 1])
        } else {
            rest
        }
    }
}

/// The ledger after client ids were registered, and what is booked.
pub open spec fn after_register(s: Ledger, ids: Seq<i64>) -> (Ledger, Seq<Booking>) {
    retried_all(Ledger { clients: registered(s.clients, ids, ids.len()), ..s })
}

/// The ledger after trades came in, and what is booked.
pub open spec fn after_trades(s: Ledger, trades: Seq<TradePayload>) -> (Ledger, Seq<Booking>) {
    let (t, first) = processed_all(s, trades, trades.len());
    let (u, second) = retried_all(t);
    (u, first + second)
}

/// What is known of the money.
pub struct Money {
    pub accounting: Fills,
    pub strategy_realized: Num,
    pub unattributed_realized: Num,
    pub notional: Num,
    /// The position as the exchange reported it last.
    pub position: Option<PositionSnapshot>,
    pub available_capital: Option<Num>,
    pub portfolio_value: Option<Num>,
    pub last_mid: Option<Num>,
    pub mid_stale: bool,
    pub last_unrealized: Num,
}

/// Whether a reported position is taken over by the local account: it is flat, or it comes with
/// its entry price.
pub open spec fn takes_over(p: PositionSnapshot) -> bool {
    p.signed_position.absolute().below(spec_epsilon()) || p.entry_vwap is Some
}

/// The ledger after a position was reported: one that is taken over starts a new generation.
pub open spec fn synced_ledger(s: Ledger, p: PositionSnapshot) -> Ledger {
    Ledger {
        generation: if takes_over(p) {
            up(s.generation)
        } else {
            s.generation
        },
        ..s
    }
}

/// The money after a position was reported: one that is taken over becomes the local account's,
/// which goes on with the strategy's profit.
pub open spec fn synced_money(m: Money, fee_rate: Num, p: PositionSnapshot) -> Money {
    Money {
        position: Some(p),
        accounting: if takes_over(p) {
            Fills {
                maker_fee_rate: fee_rate,
                position: p.signed_position,
                entry_vwap: match p.entry_vwap {
                    Some(v) => v,
                    None => spec_zero(),
                },
                realized: m.strategy_realized,
                fill_count: 0,
                volume: spec_zero(),
            }
        } else {
            m.accounting
        },
        ..m
    }
}

/// What is left to do of a message.
pub struct Unfinished {
    /// Bookings whose sums are not posted yet, in order.
    pub due: Seq<Booking>,
    /// The position that came with them.
    pub held: Option<PositionSnapshot>,
}

/// Nothing is left to do.
pub open spec fn finished() -> Unfinished {
    Unfinished { due: Seq::empty(), held: None }
}

/// The sums after a booking, worked out from those before it.
#[derive(Clone, Copy, Debug, PartialEq, Eq, Structural)]
pub struct Amounts {
    /// The numbers of the fill. Not read for a superseded booking.
    pub fill: FillNumbers,
    /// Realized profit of the booking's bucket with this booking in it.
    pub realized: Num,
    /// Traded value with this booking in it.
    pub notional: Num,
}

/// The money after a booking.
pub open spec fn after_booking(m: Money, b: Booking, a: Amounts) -> Money {
    Money {
        accounting: if b.superseded {
            m.accounting
        } else {
            after_fill(m.accounting, b.fill.side, b.fill.price, b.fill.size, a.fill)
        },
        strategy_realized: if b.attributed {
            a.realized
        } else {
            m.strategy_realized
        },
        unattributed_realized: if b.attributed {
            m.unattributed_realized
        } else {
            a.realized
        },
        notional: a.notional,
        ..m
    }
}

/// The money after the first `n` of the bookings, with the sums of each.
pub open spec fn all_posted(
    m: Money,
    bookings: Seq<Booking>,
    amounts: Seq<Amounts>,
    n: nat,
) -> Money
    decreases n,
{
    if n == 0 {
        m
    } else {
        after_booking(
            all_posted(m, bookings, amounts, (n - 1) as nat),
            bookings[n - 1],
            amounts[n - 1],
        )
    }
}

/// Ledger and money after a whole message of trades and, perhaps, a position: first every trade
/// is taken and every booking posted, then the position.
pub open spec fn after_message(
    s: Ledger,
    m: Money,
    fee_rate: Num,
    trades: Seq<TradePayload>,
    amounts: Seq<Amounts>,
    position: Option<PositionSnapshot>,
) -> (Ledger, Money) {
    let (t, bookings) = after_trades(s, trades);
    let n = all_posted(m, bookings, amounts, bookings.len());
    match position {
        Some(p) => (synced_ledger(t, p), synced_money(n, fee_rate, p)),
        None => (t, n),
    }
}

/// The profit that a booking realizes: the exchange's figure where it gives one, else the local
/// one, which for a superseded booking is nothing.
pub open spec fn delta_of(b: Booking, local: Num) -> Num {
    match b.fill.exchange_pnl {
        Some(p) => p,
        None => if b.superseded {
            spec_zero()
        } else {
            local
        },
    }
}

/// The profit that a booking realizes.
pub fn realized_delta(b: &Booking, local: Num) -> (r: Num)
    ensures
        r == delta_of(*b, local),
{
    match b.fill.exchange_pnl {
        Some(p) => p,
        None => if b.superseded {
            Num::zero()
        } else {
            local
        },
    }
}

/// How a booking is labelled in the trade log.
pub open spec fn source_text(b: Booking) -> Seq<char> {
    if !b.known {
        "account_all_unattributed"@
    } else if b.superseded {
        "account_all_late_attributed"@
    } else {
        "account_all"@
    }
}

/// How a booking is labelled in the trade log.
pub fn fill_source(b: &Booking) -> (r: &'static str)
    ensures
        r@ == source_text(*b),
{
    if !b.known {
        "account_all_unattributed"
    } else if b.superseded {
        "account_all_late_attributed"
    } else {
        "account_all"
    }
}

/// What an open position is worth at the mid price, in principle.
#[derive(Clone, Copy, Debug, PartialEq, Eq, Structural)]
pub enum Exposure {
    /// Nothing.
    Nothing,
    /// The mid above the entry price, times the position.
    Long,
    /// The entry price above the mid, times the position's size.
    Short,
}

/// What an open position is worth, in principle.
pub open spec fn exposure(position: Num, entry: Num, mid: Option<Num>) -> Exposure {
    if mid is None || !spec_zero().below(mid->0) || !spec_zero().below(entry) {
        Exposure::Nothing
    } else if spec_epsilon().below(position) {
        Exposure::Long
    } else if position.below(spec_epsilon().negated()) {
        Exposure::Short
    } else {
        Exposure::Nothing
    }
}

/// The price to mark with: that of the own venue while it is fresh, else that of the reference,
/// else the last one, which is then stale.
pub open spec fn marked(
    m: Money,
    own_mid: Num,
    own_age: u64,
    reference_mid: Num,
    reference_age: u64,
) -> Money {
    if spec_zero().below(own_mid) && own_age <= MID_FRESH_MS {
        Money { last_mid: Some(own_mid), mid_stale: false, ..m }
    } else if spec_zero().below(reference_mid) && reference_age <= MID_FRESH_MS {
        Money { last_mid: Some(reference_mid), mid_stale: false, ..m }
    } else if m.last_mid is Some {
        Money { mid_stale: true, ..m }
    } else {
        m
    }
}

/// The money after capital and value were reported: what is not reported stays.
pub open spec fn with_capital(m: Money, capital: Option<Num>, value: Option<Num>) -> Money {
    Money {
        available_capital: if capital is Some {
            capital
        } else {
            m.available_capital
        },
        portfolio_value: if value is Some {
            value
        } else {
            m.portfolio_value
        },
        ..m
    }
}

/// The unrealized profit to report.
pub open spec fn reported_unrealized(m: Money, computed: Num) -> Num {
    if m.mid_stale {
        m.last_unrealized
    } else {
        computed
    }
}

/// Whether a saved state belongs to this account and market.
pub open spec fn restorable(state: LiveState, account_index: i64, market_id: u32) -> bool {
    state.account_index == account_index && state.market_id == market_id
        && state.updated_at@.len() > 0
}

/// The ledger of a new session: the number of fills goes on from a saved state of this account and
/// market.
pub open spec fn opening_ledger(
    account_index: i64,
    market_id: u32,
    include_all: bool,
    restored: LiveState,
) -> Ledger {
    Ledger {
        account_index,
        include_all,
        clients: Seq::empty(),
        seen: Seq::empty(),
        pending: Seq::empty(),
        generation: 0,
        fills: if restorable(restored, account_index, market_id) {
            restored.fill_count
        } else {
            0
        },
        buys: 0,
        sells: 0,
        duplicates: 0,
        unattributed: 0,
    }
}

/// The money of a new session: position, profit and traded value go on from a saved state of this
/// account and market.
pub open spec fn opening_money(
    account_index: i64,
    market_id: u32,
    maker_fee_rate: Num,
    restored: LiveState,
) -> Money {
    let on = restorable(restored, account_index, market_id);
    Money {
        accounting: Fills {
            maker_fee_rate,
            position: if on {
                restored.position_size_est
            } else {
                spec_zero()
            },
            entry_vwap: if on {
                restored.entry_vwap
            } else {
                spec_zero()
            },
            realized: if on {
                restored.realized_pnl_cumulative
            } else {
                spec_zero()
            },
            fill_count: 0,
            volume: spec_zero(),
        },
        strategy_realized: if on {
            restored.realized_pnl_cumulative
        } else {
            spec_zero()
        },
        unattributed_realized: spec_zero(),
        notional: if on {
            restored.volume_usd
        } else {
            spec_zero()
        },
        position: None,
        available_capital: None,
        portfolio_value: None,
        last_mid: None,
        mid_stale: false,
        last_unrealized: spec_zero(),
    }
}

/// Whether a state is what survives of a ledger and its money, still without its stamps.
pub open spec fn survives(r: LiveState, l: Ledger, m: Money, market_id: u32) -> bool {
    &&& r.account_index == l.account_index
    &&& r.market_id == market_id
    &&& r.position_size_est == m.accounting.position
    &&& r.entry_vwap == m.accounting.entry_vwap
    &&& r.realized_pnl_cumulative == m.strategy_realized
    &&& r.fill_count == l.fills
    &&& r.volume_usd == m.notional
    &&& r.exchange_position_size == match m.position {
        Some(p) => p.signed_position,
        None => spec_zero(),
    }
    &&& r.exchange_entry_vwap == match m.position {
        Some(p) => p.entry_vwap,
        None => None,
    }
    &&& r.portfolio_value == match m.portfolio_value {
        Some(v) => v,
        None => spec_zero(),
    }
    &&& r.available_capital == match m.available_capital {
        Some(v) => v,
        None => spec_zero(),
    }
    &&& r.symbol@.len() == 0
    &&& r.updated_at@.len() == 0
}

/// Profit account of the session.
#[derive(Debug)]
pub struct PnlActor {
    account_index: i64,
    market_id: u32,
    maker_fee_rate: Num,
    include_unattributed: bool,
    strategy_clients: IdSet,
    seen_trades: IdSet,
    pending: VecDeque<(TradePayload, u64)>,
    due: VecDeque<Booking>,
    held: Option<PositionSnapshot>,
    sync_generation: u64,
    fill_count: u64,
    buy_count: u64,
    sell_count: u64,
    duplicate_fill_count: u64,
    unattributed_fill_count: u64,
    accounting: FillAccounting,
    strategy_realized: Num,
    unattributed_realized: Num,
    notional: Num,
    position: Option<PositionSnapshot>,
    available_capital: Option<Num>,
    portfolio_value: Option<Num>,
    last_mid: Option<Num>,
    mid_stale: bool,
    last_unrealized: Num,
}

impl PnlActor {
    /// What is known of the trades.
    pub closed spec fn ledger(&self) -> Ledger {
        Ledger {
            account_index: self.account_index,
            include_all: self.include_unattributed,
            clients: self.strategy_clients@,
            seen: self.seen_trades@,
            pending: self.pending@,
            generation: self.sync_generation,
            fills: self.fill_count,
            buys: self.buy_count,
            sells: self.sell_count,
            duplicates: self.duplicate_fill_count,
            unattributed: self.unattributed_fill_count,
        }
    }

    /// What is known of the money.
    pub closed spec fn money(&self) -> Money {
        Money {
            accounting: self.accounting@,
            strategy_realized: self.strategy_realized,
            unattributed_realized: self.unattributed_realized,
            notional: self.notional,
            position: self.position,
            available_capital: self.available_capital,
            portfolio_value: self.portfolio_value,
            last_mid: self.last_mid,
            mid_stale: self.mid_stale,
            last_unrealized: self.last_unrealized,
        }
    }

    /// What is left to do of the last message.
    pub closed spec fn unfinished(&self) -> Unfinished {
        Unfinished { due: self.due@, held: self.held }
    }

    /// The market of the account.
    pub closed spec fn market(&self) -> u32 {
        self.market_id
    }

    /// The fee rate.
    pub closed spec fn fee_rate(&self) -> Num {
        self.maker_fee_rate
    }

    /// The id sets are well-formed, and no more trades wait than may.
    closed spec fn bounded(&self) -> bool {
        &&& self.strategy_clients.wf()
        &&& self.seen_trades.wf()
        &&& self.pending@.len() <= PENDING_LIMIT
    }

    /// The id sets are well-formed, and the waiting trades are orderly.
    pub closed spec fn wf(&self) -> bool {
        self.bounded() && orderly(self.ledger())
    }

    /// A profit account that goes on from a saved state, where that belongs to this account and
    /// market, and from nothing otherwise.
    pub fn new(
        account_index: i64,
        market_id: u32,
        maker_fee_rate: Num,
        include_unattributed: bool,
        restored: &LiveState,
    ) -> (r: PnlActor)
        ensures
            r.wf(),
            r.unfinished() == finished(),
            r.market() == market_id,
            r.fee_rate() == maker_fee_rate,
            r.ledger() == opening_ledger(account_index, market_id, include_unattributed, *restored),
            r.money() == opening_money(account_index, market_id, maker_fee_rate, *restored),
    {
        let on: bool = restored.account_index == account_index && restored.market_id == market_id
            && !restored.updated_at.as_str().is_empty();
        let accounting: FillAccounting = if on {
            FillAccounting::from_snapshot(
                maker_fee_rate,
                restored.position_size_est,
                restored.entry_vwap,
                restored.realized_pnl_cumulative,
            )
        } else {
            FillAccounting::new(maker_fee_rate)
        };
        PnlActor {
            account_index,
            market_id,
            maker_fee_rate,
            include_unattributed,
            strategy_clients: IdSet::new(),
            seen_trades: IdSet::new(),
            pending: VecDeque::new(),
            due: VecDeque::new(),
            held: None,
            sync_generation: 0,
            fill_count: if on { restored.fill_count } else { 0 },
            buy_count: 0,
            sell_count: 0,
            duplicate_fill_count: 0,
            unattributed_fill_count: 0,
            accounting,
            strategy_realized: if on { restored.realized_pnl_cumulative } else { Num::zero() },
            unattributed_realized: Num::zero(),
            notional: if on { restored.volume_usd } else { Num::zero() },
            position: None,
            available_capital: None,
            portfolio_value: None,
            last_mid: None,
            mid_stale: false,
            last_unrealized: Num::zero(),
        }
    }

    /// What becomes of a trade that came at the given generation.
    fn try_accept_trade(&self, trade: &TradePayload, queued_generation: u64) -> (r: TradeDecision)
        requires
            self.bounded(),
        ensures
            r == decision(self.ledger(), *trade, queued_generation),
    {
        let trade_id: i64 = match trade.trade_id {
            Some(id) => id,
            None => {
                return TradeDecision::Skipped(SkipReason::MissingTradeId);
            },
        };
        if self.seen_trades.contains(trade_id) {
            return TradeDecision::Duplicate;
        }
        let fill: FillView = match FillView::from_trade(trade, self.account_index) {
            Some(f) => f,
            None => {
                return TradeDecision::Skipped(SkipReason::AccountNotInTrade);
            },
        };
        if fill.price.le(Num::zero()) || fill.size.le(Num::zero()) {
            return TradeDecision::Skipped(SkipReason::InvalidPriceOrSize);
        }
        let known: bool = match fill.client_order_id {
            Some(c) => self.strategy_clients.contains(c),
            None => false,
        };
        let attributed: bool = known || self.include_unattributed;
        if !attributed {
            if let Some(c) = fill.client_order_id {
                return TradeDecision::PendingClientId(c);
            }
        }
        let reported_time: Option<i64> = if trade.transaction_time.is_some() {
            trade.transaction_time
        } else {
            trade.timestamp
        };
        TradeDecision::Booked(
            Booking {
                trade_id,
                fill,
                reported_time,
                known,
                attributed,
                superseded: queued_generation < self.sync_generation,
            },
        )
    }

    /// Carries a decision out.
    fn carry_out(&mut self, d: &TradeDecision)
        requires
            old(self).bounded(),
        ensures
            final(self).bounded(),
            final(self).ledger() == after_decision(old(self).ledger(), *d),
            final(self).money() == old(self).money(),
            final(self).unfinished() == old(self).unfinished(),
            final(self).market() == old(self).market(),
            final(self).fee_rate() == old(self).fee_rate(),
    {
        match d {
            TradeDecision::Duplicate => {
                self.duplicate_fill_count = self.duplicate_fill_count.saturating_add(1);
            },
            TradeDecision::Booked(b) => {
                let _ = self.seen_trades.insert(b.trade_id);
                if !b.attributed {
                    self.unattributed_fill_count = self.unattributed_fill_count.saturating_add(1);
                }
                self.fill_count = self.fill_count.saturating_add(1);
                match b.fill.side {
                    Side::Buy => {
                        self.buy_count = self.buy_count.saturating_add(1);
                    },
                    Side::Sell => {
                        self.sell_count = self.sell_count.saturating_add(1);
                    },
                }
            },
            _ => {},
        }
    }

    /// Whether a trade with this id waits.
    fn is_waiting(&self, id: i64) -> (r: bool)
        ensures
            r == waits(self.ledger(), id),
    {
        let mut i: usize = 0;
        while i < self.pending.len()
            invariant
                i <= self.pending@.len(),
                forall|k: int|
                    0 <= k < i ==> (#[trigger] self.ledger().pending[k]).0.trade_id != Some(id),
            decreases self.pending@.len() - i,
        {
            if self.pending[i].0.trade_id == Some(id) {
                proof {
                    assert(self.ledger().pending[i as int].0.trade_id == Some(id));
                }
                return true;
            }
            i = i + 1;
        }
        false
    }

    /// Takes a trade: books it, lets it wait, or passes it over.
    fn process_or_queue(&mut self, trade: &TradePayload, bookings: &mut Vec<Booking>)
        requires
            old(self).wf(),
        ensures
            final(self).wf(),
            ({
                let (s, more) = processed(old(self).ledger(), *trade);
                &&& final(self).ledger() == s
                &&& final(bookings)@ == old(bookings)@ + more
            }),
            final(self).money() == old(self).money(),
            final(self).unfinished() == old(self).unfinished(),
            final(self).market() == old(self).market(),
            final(self).fee_rate() == old(self).fee_rate(),
    {
        proof {
            assert(bookings@ + Seq::<Booking>::empty() =~= bookings@);
            incoming_trades_keep_order(self.ledger(), *trade);
        }
        let trade_id: i64 = match trade.trade_id {
            Some(id) => id,
            None => {
                self.unattributed_fill_count = self.unattributed_fill_count.saturating_add(1);
                return ;
            },
        };
        if self.seen_trades.contains(trade_id) {
            self.duplicate_fill_count = self.duplicate_fill_count.saturating_add(1);
            return ;
        }
        if self.is_waiting(trade_id) {
            return ;
        }
        let d: TradeDecision = self.try_accept_trade(trade, self.sync_generation);
        match d {
            TradeDecision::PendingClientId(_) => {
                let ghost before = self.pending@;
                self.pending.push_back((*trade, self.sync_generation));
                if self.pending.len() > PENDING_LIMIT {
                    let ghost grown = self.pending@;
                    let _ = self.pending.pop_front();
                    self.unattributed_fill_count = self.unattributed_fill_count.saturating_add(1);
                    proof {
                        assert(self.pending@ =~= grown.drop_first());
                    }
                }
            },
            TradeDecision::Skipped(_) => {
                self.unattributed_fill_count = self.unattributed_fill_count.saturating_add(1);
            },
            TradeDecision::Booked(b) => {
                self.carry_out(&d);
                let ghost before = bookings@;
                bookings.push(b);
                proof {
                    assert(bookings@ =~= before + seq![b]);
                }
            },
            TradeDecision::Duplicate => {
                self.carry_out(&d);
            },
        }
    }

    /// Tries every waiting trade again.
    fn retry_pending(&mut self, bookings: &mut Vec<Booking>)
        requires
            old(self).wf(),
        ensures
            final(self).wf(),
            ({
                let (s, more) = retried_all(old(self).ledger());
                &&& final(self).ledger() == s
                &&& final(bookings)@ == old(bookings)@ + more
            }),
            final(self).money() == old(self).money(),
            final(self).unfinished() == old(self).unfinished(),
            final(self).market() == old(self).market(),
            final(self).fee_rate() == old(self).fee_rate(),
    {
        let ghost start = self.ledger();
        let ghost first = bookings@;
        proof {
            retries_keep_order(start);
        }
        let mut waiting: VecDeque<(TradePayload, u64)> = VecDeque::new();
        std::mem::swap(&mut waiting, &mut self.pending);
        let ghost all = waiting@;
        let n: usize = waiting.len();
        let mut i: usize = 0;
        proof {
            assert(self.ledger().pending =~= Seq::empty());
            assert(first + Seq::<Booking>::empty() =~= first);
        }
        while i < n
            invariant
                self.bounded(),
                all == waiting@,
                all == start.pending,
                i <= n == all.len() <= PENDING_LIMIT,
                self.pending@.len() <= i,
                self.ledger() == retried(start, all, i as nat).0,
                bookings@ == first + retried(start, all, i as nat).1,
                self.money() == old(self).money(),
                self.unfinished() == old(self).unfinished(),
                self.market() == old(self).market(),
                self.fee_rate() == old(self).fee_rate(),
            decreases n - i,
        {
            let (trade, generation): (TradePayload, u64) = waiting[i];
            let d: TradeDecision = self.try_accept_trade(&trade, generation);
            let ghost before = bookings@;
            match d {
                TradeDecision::PendingClientId(_) => {
                    self.pending.push_back((trade, generation));
                },
                TradeDecision::Skipped(_) => {
                    self.unattributed_fill_count = self.unattributed_fill_count.saturating_add(1);
                },
                TradeDecision::Booked(b) => {
                    self.carry_out(&d);
                    bookings.push(b);
                    proof {
                        assert(bookings@ =~= first + (retried(start, all, i as nat).1 + seq![b]));
                    }
                },
                TradeDecision::Duplicate => {
                    self.carry_out(&d);
                    proof {
                        assert(before =~= first + (retried(start, all, i as nat).1 + Seq::<
                            Booking,
                        >::empty()));
                    }
                },
            }
            i = i + 1;
        }
    }

    /// Registers client ids as ours, and books the trades that waited for them. The sums of the
    /// bookings are to be posted next, in order.
    pub fn on_register(&mut self, ids: &Vec<i64>) -> (r: Vec<Booking>)
        requires
            old(self).wf(),
            old(self).unfinished() == finished(),
        ensures
            final(self).wf(),
            (final(self).ledger(), r@) == after_register(old(self).ledger(), ids@),
            final(self).unfinished() == (Unfinished { due: r@, held: None }),
            final(self).money() == old(self).money(),
            final(self).market() == old(self).market(),
            final(self).fee_rate() == old(self).fee_rate(),
    {
        let ghost start = self.ledger();
        let mut i: usize = 0;
        while i < ids.len()
            invariant
                self.wf(),
                i <= ids@.len(),
                self.ledger() == (Ledger {
                    clients: registered(start.clients, ids@, i as nat),
                    ..start
                }),
                self.money() == old(self).money(),
                self.unfinished() == old(self).unfinished(),
                self.market() == old(self).market(),
                self.fee_rate() == old(self).fee_rate(),
            decreases ids@.len() - i,
        {
            if ids[i] > 0 {
                let _ = self.strategy_clients.insert(ids[i]);
            }
            i = i + 1;
        }
        let mut bookings: Vec<Booking> = Vec::new();
        self.retry_pending(&mut bookings);
        proof {
            assert(bookings@ =~= after_register(start, ids@).1);
        }
        self.owe(&bookings, None);
        bookings
    }

    /// Takes the trades of a message. The sums of the bookings are to be posted next, in order;
    /// the position that came with them, where there is one, is held back until
    /// [`PnlActor::finish_message`].
    pub fn on_account(
        &mut self,
        trades: &Vec<TradePayload>,
        position: Option<PositionSnapshot>,
    ) -> (r: Vec<Booking>)
        requires
            old(self).wf(),
            old(self).unfinished() == finished(),
        ensures
            final(self).wf(),
            (final(self).ledger(), r@) == after_trades(old(self).ledger(), trades@),
            final(self).unfinished() == (Unfinished { due: r@, held: position }),
            final(self).money() == old(self).money(),
            final(self).market() == old(self).market(),
            final(self).fee_rate() == old(self).fee_rate(),
    {
        let ghost start = self.ledger();
        let mut bookings: Vec<Booking> = Vec::new();
        let mut i: usize = 0;
        while i < trades.len()
            invariant
                self.wf(),
                i <= trades@.len(),
                (self.ledger(), bookings@) == processed_all(start, trades@, i as nat),
                self.money() == old(self).money(),
                self.unfinished() == old(self).unfinished(),
                self.market() == old(self).market(),
                self.fee_rate() == old(self).fee_rate(),
            decreases trades@.len() - i,
        {
            self.process_or_queue(&trades[i], &mut bookings);
            i = i + 1;
        }
        self.retry_pending(&mut bookings);
        self.owe(&bookings, position);
        bookings
    }

    /// Notes bookings whose sums are to be posted, and the position that waits for them.
    fn owe(&mut self, bookings: &Vec<Booking>, position: Option<PositionSnapshot>)
        requires
            old(self).wf(),
            old(self).unfinished() == finished(),
        ensures
            final(self).wf(),
            final(self).unfinished() == (Unfinished { due: bookings@, held: position }),
            final(self).ledger() == old(self).ledger(),
            final(self).money() == old(self).money(),
            final(self).market() == old(self).market(),
            final(self).fee_rate() == old(self).fee_rate(),
    {
        let mut i: usize = 0;
        while i < bookings.len()
            invariant
                i <= bookings@.len(),
                self.wf(),
                self.due@ == bookings@.take(i as int),
                self.ledger() == old(self).ledger(),
                self.money() == old(self).money(),
                self.market() == old(self).market(),
                self.fee_rate() == old(self).fee_rate(),
            decreases bookings@.len() - i,
        {
            self.due.push_back(bookings[i]);
            proof {
                assert(bookings@.take(i + 1) =~= bookings@.take(i as int).push(bookings@[i as int]));
            }
            i = i + 1;
        }
        self.held = position;
        proof {
            assert(bookings@.take(i as int) =~= bookings@);
        }
    }

    /// Posts the sums of a booking, the first one that is due.
    pub fn post(&mut self, b: &Booking, a: Amounts)
        requires
            old(self).wf(),
            old(self).unfinished().due.len() > 0,
            old(self).unfinished().due[0] == *b,
        ensures
            final(self).wf(),
            final(self).ledger() == old(self).ledger(),
            final(self).money() == after_booking(old(self).money(), *b, a),
            final(self).unfinished() == (Unfinished {
                due: old(self).unfinished().due.drop_first(),
                ..old(self).unfinished()
            }),
            final(self).market() == old(self).market(),
            final(self).fee_rate() == old(self).fee_rate(),
    {
        if !b.superseded {
            let _ = self.accounting.apply(b.fill.side, b.fill.price, b.fill.size, a.fill);
        }
        if b.attributed {
            self.strategy_realized = a.realized;
        } else {
            self.unattributed_realized = a.realized;
        }
        self.notional = a.notional;
        let _ = self.due.pop_front();
        proof {
            assert(self.due@ =~= old(self).due@.drop_first());
        }
    }

    /// Ends a message whose bookings are all posted: the position that came with it is taken now.
    pub fn finish_message(&mut self)
        requires
            old(self).wf(),
            old(self).unfinished().due.len() == 0,
        ensures
            final(self).wf(),
            final(self).unfinished() == finished(),
            (final(self).ledger(), final(self).money()) == match old(self).unfinished().held {
                Some(p) => (
                    synced_ledger(old(self).ledger(), p),
                    synced_money(old(self).money(), old(self).fee_rate(), p),
                ),
                None => (old(self).ledger(), old(self).money()),
            },
            final(self).market() == old(self).market(),
            final(self).fee_rate() == old(self).fee_rate(),
    {
        let held: Option<PositionSnapshot> = self.held;
        self.held = None;
        proof {
            assert(self.due@ =~= Seq::empty());
        }
        if let Some(p) = held {
            self.update_position(p);
        }
    }

    /// Takes a position that the exchange reports. One that is flat or comes with its entry price
    /// becomes the local account's, and starts a new generation.
    fn update_position(&mut self, p: PositionSnapshot)
        requires
            old(self).wf(),
        ensures
            final(self).wf(),
            final(self).unfinished() == old(self).unfinished(),
            final(self).market() == old(self).market(),
            final(self).fee_rate() == old(self).fee_rate(),
            final(self).ledger() == synced_ledger(old(self).ledger(), p),
            final(self).money() == synced_money(old(self).money(), old(self).fee_rate(), p),
    {
        self.position = Some(p);
        if p.signed_position.abs().lt(Num::epsilon()) || p.entry_vwap.is_some() {
            let vwap: Num = match p.entry_vwap {
                Some(v) => v,
                None => Num::zero(),
            };
            self.accounting = FillAccounting::from_snapshot(
                self.maker_fee_rate,
                p.signed_position,
                vwap,
                self.strategy_realized,
            );
            self.sync_generation = self.sync_generation.saturating_add(1);
        }
    }

    /// Takes the capital that the exchange reports; what is missing stays as it was.
    pub fn on_capital(&mut self, available_capital: Option<Num>, portfolio_value: Option<Num>)
        requires
            old(self).wf(),
        ensures
            final(self).wf(),
            final(self).unfinished() == old(self).unfinished(),
            final(self).market() == old(self).market(),
            final(self).fee_rate() == old(self).fee_rate(),
            final(self).ledger() == old(self).ledger(),
            final(self).money() == (Money {
                available_capital: if available_capital is Some {
                    available_capital
                } else {
                    old(self).money().available_capital
                },
                portfolio_value: if portfolio_value is Some {
                    portfolio_value
                } else {
                    old(self).money().portfolio_value
                },
                ..old(self).money()
            }),
            final(self).money() == with_capital(
                old(self).money(),
                available_capital,
                portfolio_value,
            ),
    {
        if available_capital.is_some() {
            self.available_capital = available_capital;
        }
        if portfolio_value.is_some() {
            self.portfolio_value = portfolio_value;
        }
    }

    /// Chooses the price to mark with.
    pub fn refresh_mid(
        &mut self,
        own_mid: Num,
        own_age: u64,
        reference_mid: Num,
        reference_age: u64,
    )
        requires
            old(self).wf(),
        ensures
            final(self).wf(),
            final(self).unfinished() == old(self).unfinished(),
            final(self).market() == old(self).market(),
            final(self).fee_rate() == old(self).fee_rate(),
            final(self).ledger() == old(self).ledger(),
            final(self).money() == marked(
                old(self).money(),
                own_mid,
                own_age,
                reference_mid,
                reference_age,
            ),
    {
        if own_mid.is_positive() && own_age <= MID_FRESH_MS {
            self.last_mid = Some(own_mid);
            self.mid_stale = false;
        } else if reference_mid.is_positive() && reference_age <= MID_FRESH_MS {
            self.last_mid = Some(reference_mid);
            self.mid_stale = false;
        } else if self.last_mid.is_some() {
            self.mid_stale = true;
        }
    }

    /// The open position: the exchange's figure once there is one, else the local one.
    pub open spec fn spec_open_position(&self) -> Num {
        match self.money().position {
            Some(p) => p.signed_position,
            None => self.money().accounting.position,
        }
    }

    /// Its entry price: the exchange's figure where it gives one, else the local one.
    pub open spec fn spec_entry_vwap(&self) -> Num {
        if self.money().position is Some && self.money().position->0.entry_vwap is Some {
            self.money().position->0.entry_vwap->0
        } else {
            self.money().accounting.entry_vwap
        }
    }

    /// The open position.
    pub fn open_position(&self) -> (r: Num)
        ensures
            r == self.spec_open_position(),
    {
        match self.position {
            Some(p) => p.signed_position,
            None => self.accounting.position_size(),
        }
    }

    /// Entry price of the open position.
    pub fn entry_vwap(&self) -> (r: Num)
        ensures
            r == self.spec_entry_vwap(),
    {
        match self.position {
            Some(p) => match p.entry_vwap {
                Some(v) => v,
                None => self.accounting.entry_vwap(),
            },
            None => self.accounting.entry_vwap(),
        }
    }

    /// What the open position is worth, in principle.
    pub fn exposure(&self) -> (r: Exposure)
        ensures
            r == exposure(
                self.spec_open_position(),
                self.spec_entry_vwap(),
                self.money().last_mid,
            ),
    {
        let position: Num = self.open_position();
        let entry: Num = self.entry_vwap();
        match self.last_mid {
            Some(m) => if !m.is_positive() || !entry.is_positive() {
                Exposure::Nothing
            } else if Num::epsilon().lt(position) {
                Exposure::Long
            } else if position.lt(Num::epsilon().neg()) {
                Exposure::Short
            } else {
                Exposure::Nothing
            },
            None => Exposure::Nothing,
        }
    }

    /// The unrealized profit to report: while the price is stale the last one, otherwise the one
    /// worked out now, which is kept.
    pub fn unrealized_pnl(&mut self, computed: Num) -> (r: Num)
        requires
            old(self).wf(),
        ensures
            final(self).wf(),
            final(self).unfinished() == old(self).unfinished(),
            final(self).market() == old(self).market(),
            final(self).fee_rate() == old(self).fee_rate(),
            final(self).ledger() == old(self).ledger(),
            r == if old(self).money().mid_stale {
                old(self).money().last_unrealized
            } else {
                computed
            },
            r == reported_unrealized(old(self).money(), computed),
            final(self).money() == (Money { last_unrealized: r, ..old(self).money() }),
    {
        if self.mid_stale {
            self.last_unrealized
        } else {
            self.last_unrealized = computed;
            computed
        }
    }

    /// The state that survives a restart, still without its stamps.
    pub fn live_state(&self) -> (r: LiveState)
        ensures
            survives(r, self.ledger(), self.money(), self.market()),
    {
        LiveState {
            account_index: self.account_index,
            market_id: self.market_id,
            position_size_est: self.accounting.position_size(),
            entry_vwap: self.accounting.entry_vwap(),
            realized_pnl_cumulative: self.strategy_realized,
            fill_count: self.fill_count,
            volume_usd: self.notional,
            exchange_position_size: match self.position {
                Some(p) => p.signed_position,
                None => Num::zero(),
            },
            exchange_entry_vwap: match self.position {
                Some(p) => p.entry_vwap,
                None => None,
            },
            portfolio_value: match self.portfolio_value {
                Some(v) => v,
                None => Num::zero(),
            },
            available_capital: match self.available_capital {
                Some(v) => v,
                None => Num::zero(),
            },
            symbol: String::new(),
            updated_at: String::new(),
        }
    }

    /// The local account.
    pub fn accounting(&self) -> (r: FillAccounting)
        ensures
            r@ == self.money().accounting,
    {
        self.accounting
    }

    /// Realized profit of the strategy.
    pub fn strategy_realized(&self) -> (r: Num)
        ensures
            r == self.money().strategy_realized,
    {
        self.strategy_realized
    }

    /// Realized profit that is not the strategy's.
    pub fn unattributed_realized(&self) -> (r: Num)
        ensures
            r == self.money().unattributed_realized,
    {
        self.unattributed_realized
    }

    /// Traded value.
    pub fn notional(&self) -> (r: Num)
        ensures
            r == self.money().notional,
    {
        self.notional
    }

    /// The price that was marked with last, and whether it is stale.
    pub fn mid(&self) -> (r: (Option<Num>, bool))
        ensures
            r.0 == self.money().last_mid,
            r.1 == self.money().mid_stale,
    {
        (self.last_mid, self.mid_stale)
    }

    /// Available capital and portfolio value.
    pub fn capital(&self) -> (r: (Option<Num>, Option<Num>))
        ensures
            r.0 == self.money().available_capital,
            r.1 == self.money().portfolio_value,
    {
        (self.available_capital, self.portfolio_value)
    }
}

/// The profit of the session at one moment.
#[derive(Clone, Debug)]
pub struct PnlSummary {
    pub session_id: String,
    pub symbol: String,
    pub market_id: u32,
    pub account_index: i64,
    pub started_at: String,
    pub updated_at: String,
    pub strategy_realized_pnl_usdc: Num,
    pub strategy_unrealized_pnl_usdc: Num,
    pub strategy_mtm_pnl_usdc: Num,
    /// Realized profit that is not the strategy's.
    pub unattributed_realized_pnl_usdc: Num,
    pub open_position_base: Num,
    pub entry_vwap: Num,
    pub last_mid: Option<Num>,
    /// Whether the price is stale, so that the unrealized profit is the last one.
    pub mid_stale: bool,
    pub fill_count: u64,
    pub buy_count: u64,
    pub sell_count: u64,
    pub notional_usdc: Num,
    pub duplicate_fill_count: u64,
    pub unattributed_fill_count: u64,
    pub pending_unattributed_fill_count: usize,
    pub available_capital: Option<Num>,
    pub portfolio_value: Option<Num>,
}

/// The numbers of a summary in print.
#[derive(Clone, Debug)]
pub struct SummaryTexts {
    /// Six decimals.
    pub realized: String,
    /// Six decimals.
    pub unrealized: String,
    /// Six decimals.
    pub mtm: String,
    /// Eight decimals.
    pub open_position: String,
    /// Four decimals.
    pub entry_vwap: String,
    /// Four decimals. Not read where there is no price.
    pub last_mid: String,
    /// Six decimals.
    pub notional: String,
}

/// Columns of the snapshots.
pub open spec fn snapshot_header() -> Seq<Seq<char>> {
    seq![
        "timestamp"@,
        "session_id"@,
        "symbol"@,
        "market_id"@,
        "account_index"@,
        "strategy_realized_pnl_usdc"@,
        "strategy_unrealized_pnl_usdc"@,
        "strategy_mtm_pnl_usdc"@,
        "open_position_base"@,
        "entry_vwap"@,
        "last_mid"@,
        "fill_count"@,
        "buy_count"@,
        "sell_count"@,
        "notional_usdc"@,
        "duplicate_fill_count"@,
        "unattributed_fill_count"@,
        "pending_unattributed_fill_count"@,
    ]
}

/// The line with the columns of the snapshots, where the file is missing or empty.
pub fn ensure_snapshot_header(existing_len: u64) -> (r: Option<Vec<u8>>)
    ensures
        match r {
            Some(bytes) => existing_len == 0 && bytes@ == csv_line(snapshot_header()),
            None => existing_len > 0,
        },
{
    if existing_len > 0 {
        return None;
    }
    let mut row: Vec<String> = Vec::new();
    row.push("timestamp".to_owned());
    row.push("session_id".to_owned());
    row.push("symbol".to_owned());
    row.push("market_id".to_owned());
    row.push("account_index".to_owned());
    row.push("strategy_realized_pnl_usdc".to_owned());
    row.push("strategy_unrealized_pnl_usdc".to_owned());
    row.push("strategy_mtm_pnl_usdc".to_owned());
    row.push("open_position_base".to_owned());
    row.push("entry_vwap".to_owned());
    row.push("last_mid".to_owned());
    row.push("fill_count".to_owned());
    row.push("buy_count".to_owned());
    row.push("sell_count".to_owned());
    row.push("notional_usdc".to_owned());
    row.push("duplicate_fill_count".to_owned());
    row.push("unattributed_fill_count".to_owned());
    row.push("pending_unattributed_fill_count".to_owned());
    proof {
        assert(cells(row@) =~= snapshot_header());
    }
    Some(encode_row(&row))
}

/// The cells of a snapshot.
pub open spec fn snapshot_cells(s: PnlSummary, t: SummaryTexts) -> Seq<Seq<char>> {
    seq![
        s.updated_at@,
        s.session_id@,
        s.symbol@,
        decimal(s.market_id as nat),
        signed_decimal(s.account_index as int),
        t.realized@,
        t.unrealized@,
        t.mtm@,
        t.open_position@,
        t.entry_vwap@,
        printed_if(s.last_mid, t.last_mid@),
        decimal(s.fill_count as nat),
        decimal(s.buy_count as nat),
        decimal(s.sell_count as nat),
        t.notional@,
        decimal(s.duplicate_fill_count as nat),
        decimal(s.unattributed_fill_count as nat),
        decimal(s.pending_unattributed_fill_count as nat),
    ]
}

/// The line of a snapshot.
pub fn snapshot_line(s: &PnlSummary, t: &SummaryTexts) -> (r: Vec<u8>)
    ensures
        r@ == csv_line(snapshot_cells(*s, *t)),
{
    let mut row: Vec<String> = Vec::new();
    row.push(s.updated_at.clone());
    row.push(s.session_id.clone());
    row.push(s.symbol.clone());
    row.push(decimal_text(s.market_id as u64));
    row.push(signed_text(s.account_index));
    row.push(t.realized.clone());
    row.push(t.unrealized.clone());
    row.push(t.mtm.clone());
    row.push(t.open_position.clone());
    row.push(t.entry_vwap.clone());
    row.push(opt(s.last_mid, &t.last_mid));
    row.push(decimal_text(s.fill_count));
    row.push(decimal_text(s.buy_count));
    row.push(decimal_text(s.sell_count));
    row.push(t.notional.clone());
    row.push(decimal_text(s.duplicate_fill_count));
    row.push(decimal_text(s.unattributed_fill_count));
    row.push(decimal_text(s.pending_unattributed_fill_count as u64));
    proof {
        assert(cells(row@) =~= snapshot_cells(*s, *t));
    }
    encode_row(&row)
}

/// When a booked trade happened, in print, where it was reported and can be printed.
pub open spec fn booking_stamp(b: Booking) -> Option<Seq<char>> {
    match b.reported_time {
        Some(t) => rfc3339_of_ms(as_millis(t as int) as i64),
        None => None,
    }
}

/// The part of a trade-log row that the numbers of a booking decide.
#[derive(Clone, Copy, Debug, PartialEq, Eq, Structural)]
pub struct RowNumbers {
    /// Profit that the booking realized.
    pub realized_delta: Num,
    /// Fee of the fill: nothing for a superseded booking.
    pub fee_usd: Num,
    /// Traded value.
    pub notional_usd: Num,
    /// How far from the mid price the fill was, where there is a positive one.
    pub spread_capture_bps: Option<Num>,
    /// The position at the mid price, where there is one.
    pub inventory_after_usd: Option<Num>,
}

/// Whether a text is the decimal of an id, both missing where the other is.
pub open spec fn id_text(id: Option<i64>, text: Option<String>) -> bool {
    match (id, text) {
        (Some(i), Some(t)) => t@ == signed_decimal(i as int),
        (None, None) => true,
        _ => false,
    }
}

fn id_as_text(id: Option<i64>) -> (r: Option<String>)
    ensures
        id_text(id, r),
{
    match id {
        Some(i) => Some(signed_text(i)),
        None => None,
    }
}

impl PnlActor {
    /// The trade-log row of a booking, once its sums were posted and the price was chosen.
    pub fn trade_row(&self, b: &Booking, n: RowNumbers) -> (r: TradeRow)
        requires
            b.reported_time != Some(i64::MIN),
        ensures
            match (r.timestamp, booking_stamp(*b)) {
                (Some(t), Some(s)) => t@ == s,
                (None, None) => true,
                _ => false,
            },
            r.side@ == side_text(b.fill.side),
            r.price == b.fill.price,
            r.size == b.fill.size,
            r.level == -1,
            r.position_after == self.money().accounting.position,
            r.realized_pnl == n.realized_delta,
            r.available_capital == match self.money().available_capital {
                Some(v) => v,
                None => spec_zero(),
            },
            r.portfolio_value == match self.money().portfolio_value {
                Some(v) => v,
                None => spec_zero(),
            },
            !r.simulated,
            r.notional_usd == Some(n.notional_usd),
            r.fee_usd == Some(n.fee_usd),
            r.entry_vwap_after == Some(self.money().accounting.entry_vwap),
            r.realized_pnl_cumulative == Some(self.money().strategy_realized),
            r.mid_at_fill == self.money().last_mid,
            r.spread_capture_bps == n.spread_capture_bps,
            r.inventory_after_usd == n.inventory_after_usd,
            id_text(b.fill.client_order_id, r.client_order_index),
            id_text(b.fill.exchange_order_id, r.exchange_order_index),
            r.fill_source@ == source_text(*b),
    {
        let timestamp: Option<String> = match b.reported_time {
            Some(t) => timestamp_from_ms(normalize_timestamp_ms(t)),
            None => None,
        };
        TradeRow {
            timestamp,
            side: b.fill.side.as_str().to_owned(),
            price: b.fill.price,
            size: b.fill.size,
            level: -1,
            position_after: self.accounting.position_size(),
            realized_pnl: n.realized_delta,
            available_capital: match self.available_capital {
                Some(v) => v,
                None => Num::zero(),
            },
            portfolio_value: match self.portfolio_value {
                Some(v) => v,
                None => Num::zero(),
            },
            simulated: false,
            notional_usd: Some(n.notional_usd),
            fee_usd: Some(n.fee_usd),
            entry_vwap_after: Some(self.accounting.entry_vwap()),
            realized_pnl_cumulative: Some(self.strategy_realized),
            mid_at_fill: self.last_mid,
            spread_capture_bps: n.spread_capture_bps,
            inventory_after_usd: n.inventory_after_usd,
            client_order_index: id_as_text(b.fill.client_order_id),
            exchange_order_index: id_as_text(b.fill.exchange_order_id),
            fill_source: fill_source(b).to_owned(),
        }
    }

    /// The summary of the session, given its names, the unrealized profit and its sum with the
    /// realized one.
    pub fn summary(
        &self,
        session_id: &str,
        symbol: &str,
        started_at: &str,
        updated_at: &str,
        unrealized: Num,
        mtm: Num,
    ) -> (r: PnlSummary)
        ensures
            r.session_id@ == session_id@,
            r.symbol@ == symbol@,
            r.market_id == self.market(),
            r.account_index == self.ledger().account_index,
            r.started_at@ == started_at@,
            r.updated_at@ == updated_at@,
            r.strategy_realized_pnl_usdc == self.money().strategy_realized,
            r.strategy_unrealized_pnl_usdc == unrealized,
            r.strategy_mtm_pnl_usdc == mtm,
            r.unattributed_realized_pnl_usdc == self.money().unattributed_realized,
            r.open_position_base == self.spec_open_position(),
            r.entry_vwap == self.spec_entry_vwap(),
            r.last_mid == self.money().last_mid,
            r.mid_stale == self.money().mid_stale,
            r.fill_count == self.ledger().fills,
            r.buy_count == self.ledger().buys,
            r.sell_count == self.ledger().sells,
            r.notional_usdc == self.money().notional,
            r.duplicate_fill_count == self.ledger().duplicates,
            r.unattributed_fill_count == self.ledger().unattributed,
            r.pending_unattributed_fill_count == self.ledger().pending.len(),
            r.available_capital == self.money().available_capital,
            r.portfolio_value == self.money().portfolio_value,
    {
        PnlSummary {
            session_id: session_id.to_owned(),
            symbol: symbol.to_owned(),
            market_id: self.market_id,
            account_index: self.account_index,
            started_at: started_at.to_owned(),
            updated_at: updated_at.to_owned(),
            strategy_realized_pnl_usdc: self.strategy_realized,
            strategy_unrealized_pnl_usdc: unrealized,
            strategy_mtm_pnl_usdc: mtm,
            unattributed_realized_pnl_usdc: self.unattributed_realized,
            open_position_base: self.open_position(),
            entry_vwap: self.entry_vwap(),
            last_mid: self.last_mid,
            mid_stale: self.mid_stale,
            fill_count: self.fill_count,
            buy_count: self.buy_count,
            sell_count: self.sell_count,
            notional_usdc: self.notional,
            duplicate_fill_count: self.duplicate_fill_count,
            unattributed_fill_count: self.unattributed_fill_count,
            pending_unattributed_fill_count: self.pending.len(),
            available_capital: self.available_capital,
            portfolio_value: self.portfolio_value,
        }
    }
}

/// The name of a session.
pub fn session_name(symbol: &str, market_id: u32, stamp: &str) -> (r: String)
    ensures
        r@ == symbol@ + "-"@ + decimal(market_id as nat) + "-"@ + stamp@,
{
    let id: String = decimal_text(market_id as u64);
    symbol.to_owned().concat("-").concat(id.as_str()).concat("-").concat(stamp)
}

/// A trade that was booked is not booked again, however often it comes in.
pub proof fn booked_trades_are_not_booked_again(s: Ledger, t: TradePayload, id: i64)
    requires
        t.trade_id == Some(id),
        s.seen.contains(id),
    ensures
        processed(s, t).1 == Seq::<Booking>::empty(),
        processed(s, t).0 == (Ledger { duplicates: up(s.duplicates), ..s }),
        forall|g: u64| decision(s, t, g) == TradeDecision::Duplicate,
{
}

/// The moment a trade is booked it counts as seen.
pub proof fn booking_marks_the_trade(s: Ledger, t: TradePayload, b: Booking)
    requires
        processed(s, t).1.contains(b),
    ensures
        t.trade_id == Some(b.trade_id),
        processed(s, t).0.seen.contains(b.trade_id),
{
    let d = decision(s, t, s.generation);
    assert(d == TradeDecision::Booked(b));
    let seen = remembered(s.seen, b.trade_id);
    assert(seen[seen.len() - 1] == b.trade_id);
}

/// A trade that waited through a takeover of the position books its profit and leaves the local
/// account alone.
pub proof fn superseded_trades_leave_the_account(m: Money, b: Booking, a: Amounts)
    requires
        b.superseded,
    ensures
        after_booking(m, b, a).accounting == m.accounting,
{
}

/// What always holds of the waiting trades: there are not too many, each has an id that no other
/// has, none of them was booked, and none came after the current generation.
pub open spec fn orderly(s: Ledger) -> bool {
    &&& s.pending.len() <= PENDING_LIMIT
    &&& forall|i: int|
        0 <= i < s.pending.len() ==> {
            &&& (#[trigger] s.pending[i]).0.trade_id is Some
            &&& !s.seen.contains(s.pending[i].0.trade_id->0)
            &&& s.pending[i].1 <= s.generation
        }
    &&& forall|i: int, j: int|
        0 <= i < j < s.pending.len() ==> (#[trigger] s.pending[i]).0.trade_id != (
        #[trigger] s.pending[j]).0.trade_id
}

proof fn lemma_remembered_only(ids: Seq<i64>, id: i64, other: i64)
    requires
        remembered(ids, id).contains(other),
    ensures
        other == id || ids.contains(other),
{
    let t = remembered(ids, id);
    let j = choose|j: int| 0 <= j < t.len() && t[j] == other;
    if !ids.contains(id) {
        let grown = ids.push(id);
        assert(grown.contains(other)) by {
            if t.len() == grown.len() {
                assert(grown[j] == other);
            } else {
                assert(grown[j + 1] == other);
            }
        }
        let k = choose|k: int| 0 <= k < grown.len() && grown[k] == other;
        if k < ids.len() {
            assert(ids[k] == other);
        }
    }
}

/// A trade that comes in leaves the waiting trades orderly.
pub proof fn incoming_trades_keep_order(s: Ledger, t: TradePayload)
    requires
        orderly(s),
    ensures
        orderly(processed(s, t).0),
{
    let after = processed(s, t).0;
    if t.trade_id is Some && !s.seen.contains(t.trade_id->0) && !waits(s, t.trade_id->0) {
        let id = t.trade_id->0;
        assert forall|i: int| 0 <= i < s.pending.len() implies (
        #[trigger] s.pending[i]).0.trade_id != Some(id) by {}
        match decision(s, t, s.generation) {
            TradeDecision::Booked(b) => {
                assert forall|i: int| 0 <= i < s.pending.len() implies !after.seen.contains(
                    (#[trigger] s.pending[i]).0.trade_id->0,
                ) by {
                    let other = s.pending[i].0.trade_id->0;
                    if after.seen.contains(other) {
                        lemma_remembered_only(s.seen, id, other);
                    }
                }
            },
            TradeDecision::PendingClientId(_) => {
                let grown = s.pending.push((t, s.generation));
                if grown.len() > PENDING_LIMIT {
                    assert forall|i: int| 0 <= i < after.pending.len() implies
                        #[trigger] after.pending[i] == grown[i + 1] by {}
                }
            },
            _ => {},
        }
    }
}

proof fn lemma_retry(s: Ledger, n: nat)
    requires
        orderly(s),
        n <= s.pending.len(),
    ensures
        ({
            let t = retried(s, s.pending, n).0;
            &&& orderly(t)
            &&& t.pending.len() <= n
            &&& t.generation == s.generation
            &&& forall|j: int|
                0 <= j < t.pending.len() ==> s.pending.take(n as int).contains(
                    #[trigger] t.pending[j],
                )
            &&& forall|k: int|
                n <= k < s.pending.len() ==> !t.seen.contains(
                    (#[trigger] s.pending[k]).0.trade_id->0,
                )
        }),
    decreases n,
{
    if n > 0 {
        let m = (n - 1) as nat;
        lemma_retry(s, m);
        let t = retried(s, s.pending, m).0;
        let u = retried(s, s.pending, n).0;
        let item = s.pending[n - 1];
        let d = decision(t, item.0, item.1);
        let head = s.pending.take(n as int);
        assert(head[n - 1] == item);
        assert forall|j: int| 0 <= j < t.pending.len() implies {
            &&& head.contains(#[trigger] t.pending[j])
            &&& t.pending[j].0.trade_id != item.0.trade_id
        } by {
            let k = choose|k: int|
                0 <= k < s.pending.take(m as int).len() && s.pending.take(m as int)[k]
                    == t.pending[j];
            assert(s.pending[k] == t.pending[j]);
            assert(head[k] == t.pending[j]);
            assert(s.pending[k].0.trade_id != s.pending[n - 1].0.trade_id);
        }
        match d {
            TradeDecision::Booked(b) => {
                assert forall|j: int| 0 <= j < t.pending.len() implies !u.seen.contains(
                    (#[trigger] t.pending[j]).0.trade_id->0,
                ) by {
                    let other = t.pending[j].0.trade_id->0;
                    if u.seen.contains(other) {
                        lemma_remembered_only(t.seen, b.trade_id, other);
                    }
                }
                assert forall|k: int| n <= k < s.pending.len() implies !u.seen.contains(
                    (#[trigger] s.pending[k]).0.trade_id->0,
                ) by {
                    let other = s.pending[k].0.trade_id->0;
                    assert(s.pending[n - 1].0.trade_id != s.pending[k].0.trade_id);
                    if u.seen.contains(other) {
                        lemma_remembered_only(t.seen, b.trade_id, other);
                    }
                }
            },
            _ => {},
        }
    }
}

/// Trying the waiting trades again leaves them orderly.
pub proof fn retries_keep_order(s: Ledger)
    requires
        orderly(s),
    ensures
        orderly(retried_all(s).0),
        retried_all(s).0.pending.len() <= s.pending.len(),
{
    lemma_retry(s, s.pending.len());
}

/// Whatever is booked out of the waiting trades after a takeover is superseded.
pub proof fn takeover_supersedes_the_waiting(
    s: Ledger,
    t: TradePayload,
    generation: u64,
    b: Booking,
)
    requires
        generation <= s.generation < u64::MAX,
        decision(Ledger { generation: up(s.generation), ..s }, t, generation)
            == TradeDecision::Booked(b),
    ensures
        b.superseded,
{
}

/// A trade of the account without a client id is booked at once, apart from the strategy's
/// profit.
pub proof fn trades_without_client_id_are_booked(s: Ledger, t: TradePayload, id: i64, f: FillView)
    requires
        t.trade_id == Some(id),
        !s.seen.contains(id),
        !waits(s, id),
        fill_view(t, s.account_index) == Some(f),
        f.client_order_id is None,
        !f.price.at_most(spec_zero()),
        !f.size.at_most(spec_zero()),
    ensures
        processed(s, t).1.len() == 1,
        processed(s, t).1[0].fill == f,
        processed(s, t).1[0].attributed == s.include_all,
{
}

/// What an accepted trade does, whenever it came and whether or not it had to wait. A trade of the
/// account that is new, has a positive price and size, and whose client id is ours or missing, or
/// counts in any case, is booked: it counts as one fill, a sale where the account was the ask and
/// a purchase otherwise. Its profit, the exchange's figure where there is one, goes to the strategy
/// exactly where the client id is ours or everything counts, and to the other bucket otherwise. The
/// local account takes the fill unless a position taken over since holds it. When the trade comes
/// in again, only the number of duplicates goes up.
pub proof fn accepted_trades_are_booked_once(
    s: Ledger,
    t: TradePayload,
    generation: u64,
    id: i64,
    f: FillView,
    m: Money,
    a: Amounts,
    local: Num,
)
    requires
        t.trade_id == Some(id),
        !s.seen.contains(id),
        fill_view(t, s.account_index) == Some(f),
        spec_zero().below(f.price),
        spec_zero().below(f.size),
        s.include_all || f.client_order_id is None || s.clients.contains(f.client_order_id->0),
    ensures
        ({
            let known = f.client_order_id is Some && s.clients.contains(f.client_order_id->0);
            let counts = known || s.include_all;
            let b = Booking {
                trade_id: id,
                fill: f,
                reported_time: t.reported_time(),
                known,
                attributed: counts,
                superseded: generation < s.generation,
            };
            let u = after_decision(s, TradeDecision::Booked(b));
            let after = after_booking(m, b, a);
            &&& decision(s, t, generation) == TradeDecision::Booked(b)
            &&& u == (Ledger {
                seen: u.seen,
                fills: up(s.fills),
                buys: if f.side == Side::Buy {
                    up(s.buys)
                } else {
                    s.buys
                },
                sells: if f.side == Side::Sell {
                    up(s.sells)
                } else {
                    s.sells
                },
                unattributed: if counts {
                    s.unattributed
                } else {
                    up(s.unattributed)
                },
                ..s
            })
            &&& (f.side == Side::Sell) == (t.ask_account_id == Some(s.account_index))
            &&& u.seen.contains(id)
            &&& forall|g: u64| #[trigger] decision(u, t, g) == TradeDecision::Duplicate
            &&& after_decision(u, TradeDecision::Duplicate) == (Ledger {
                duplicates: up(u.duplicates),
                ..u
            })
            &&& processed(u, t) == (
                Ledger { duplicates: up(u.duplicates), ..u },
                Seq::<Booking>::empty(),
            )
            &&& !waits(s, id) && generation == s.generation ==> processed(s, t) == (u, seq![b])
            &&& after.strategy_realized == if counts {
                a.realized
            } else {
                m.strategy_realized
            }
            &&& after.unattributed_realized == if counts {
                m.unattributed_realized
            } else {
                a.realized
            }
            &&& after.notional == a.notional
            &&& after.accounting.fill_count == if b.superseded {
                m.accounting.fill_count
            } else {
                up(m.accounting.fill_count)
            }
            &&& delta_of(b, local) == match f.exchange_pnl {
                Some(p) => p,
                None => if b.superseded {
                    spec_zero()
                } else {
                    local
                },
            }
        }),
{
    let seen = remembered(s.seen, id);
    assert(seen[seen.len() - 1] == id);
}

/// A trade that waited is booked, as any other accepted trade is, the next time the waiting trades
/// are tried, and waits no longer.
pub proof fn waiting_trades_are_booked_when_accepted(
    start: Ledger,
    waiting: Seq<(TradePayload, u64)>,
    n: nat,
    b: Booking,
)
    requires
        n > 0,
        decision(
            retried(start, waiting, (n - 1) as nat).0,
            waiting[n - 1].0,
            waiting[n - 1].1,
        ) == TradeDecision::Booked(b),
    ensures
        ({
            let (s, bookings) = retried(start, waiting, (n - 1) as nat);
            retried(start, waiting, n) == (
                after_decision(s, TradeDecision::Booked(b)),
                bookings + seq![b],
            )
        }),
{
}

/// The trades of a message are booked before the position that came with it is taken. Where the
/// position is taken over, it is what the local account holds in the end, with all the profit that
/// the message's trades brought the strategy and with none of their fills; where it is not, the
/// local account is what the trades made of it. Trades seen, fills, profit and traded value are
/// those after the trades in either case. The position supersedes no booking of its own message:
/// one is superseded only where a trade waited since before an earlier takeover.
pub proof fn trades_come_before_the_position(
    s: Ledger,
    m: Money,
    fee_rate: Num,
    trades: Seq<TradePayload>,
    amounts: Seq<Amounts>,
    p: PositionSnapshot,
)
    ensures
        ({
            let (t, bookings) = after_trades(s, trades);
            let n = all_posted(m, bookings, amounts, bookings.len());
            let (u, r) = after_message(s, m, fee_rate, trades, amounts, Some(p));
            &&& r.position == Some(p)
            &&& r.strategy_realized == n.strategy_realized
            &&& r.unattributed_realized == n.unattributed_realized
            &&& r.notional == n.notional
            &&& takes_over(p) ==> {
                &&& r.accounting.position == p.signed_position
                &&& r.accounting.entry_vwap == match p.entry_vwap {
                    Some(v) => v,
                    None => spec_zero(),
                }
                &&& r.accounting.realized == n.strategy_realized
                &&& r.accounting.fill_count == 0
                &&& r.accounting.volume == spec_zero()
                &&& u.generation == up(s.generation)
            }
            &&& !takes_over(p) ==> r.accounting == n.accounting && u.generation == s.generation
            &&& u == (Ledger { generation: u.generation, ..t })
            &&& t.generation == s.generation
            &&& forall|k: int|
                0 <= k < bookings.len() && (#[trigger] bookings[k]).superseded
                    ==> older_waits(s)
        }),
{
    lemma_trades_keep_generation(s, trades, trades.len());
    let mid = processed_all(s, trades, trades.len()).0;
    lemma_retries_keep_generation(mid, mid.pending, mid.pending.len());
    let (t, bookings) = after_trades(s, trades);
    assert forall|k: int| 0 <= k < bookings.len() && (#[trigger] bookings[k]).superseded implies
        older_waits(s) by {
        let first = processed_all(s, trades, trades.len()).1;
        let second = retried_all(mid).1;
        if k < first.len() {
            assert(bookings[k] == first[k]);
        } else {
            assert(bookings[k] == second[k - first.len()]);
            assert(older_waits(mid));
        }
    }
}

/// Whether a trade waits that came before the current generation.
pub open spec fn older_waits(s: Ledger) -> bool {
    exists|i: int| 0 <= i < s.pending.len() && (#[trigger] s.pending[i]).1 < s.generation
}

proof fn lemma_trades_keep_generation(s: Ledger, trades: Seq<TradePayload>, n: nat)
    ensures
        ({
            let (t, bookings) = processed_all(s, trades, n);
            &&& t.generation == s.generation
            &&& forall|k: int| 0 <= k < bookings.len() ==> !(#[trigger] bookings[k]).superseded
            &&& older_waits(t) ==> older_waits(s)
        }),
    decreases n,
{
    if n > 0 {
        lemma_trades_keep_generation(s, trades, (n - 1) as nat);
        let t = processed_all(s, trades, (n - 1) as nat).0;
        let u = processed_all(s, trades, n).0;
        if older_waits(u) {
            let i = choose|i: int|
                0 <= i < u.pending.len() && (#[trigger] u.pending[i]).1 < u.generation;
            if i < t.pending.len() && u.pending[i] == t.pending[i] {
                assert(older_waits(t));
            } else if i + 1 < t.pending.len() && u.pending[i] == t.pending[i + 1] {
                assert(older_waits(t));
            }
        }
    }
}

proof fn lemma_retries_keep_generation(s: Ledger, waiting: Seq<(TradePayload, u64)>, n: nat)
    requires
        n <= waiting.len(),
    ensures
        ({
            let (t, bookings) = retried(s, waiting, n);
            &&& t.generation == s.generation
            &&& forall|k: int|
                0 <= k < bookings.len() && (#[trigger] bookings[k]).superseded ==> exists|i: int|
                    0 <= i < waiting.len() && (#[trigger] waiting[i]).1 < s.generation
        }),
    decreases n,
{
    if n > 0 {
        lemma_retries_keep_generation(s, waiting, (n - 1) as nat);
        let (t, before) = retried(s, waiting, (n - 1) as nat);
        let bookings = retried(s, waiting, n).1;
        assert forall|k: int|
            0 <= k < bookings.len() && (#[trigger] bookings[k]).superseded implies exists|i: int|
            0 <= i < waiting.len() && (#[trigger] waiting[i]).1 < s.generation by {
            if k < before.len() {
                assert(bookings[k] == before[k]);
            } else {
                assert(waiting[n - 1].1 < s.generation);
            }
        }
    }
}

/// What a session leaves behind is what the next one of the same account and market goes on from:
/// the state that survives it, written under any stamp that is not empty and loaded again, restores
/// profit, fills, traded value, position and entry price. For another account or market nothing is
/// restored.
pub proof fn saved_state_is_restored(
    l: Ledger,
    m: Money,
    market_id: u32,
    state: LiveState,
    symbol: Seq<char>,
    at: Seq<char>,
    saved: LiveState,
    again: LiveState,
    account_index: i64,
    next_market: u32,
    include_all: bool,
    rate: Num,
)
    requires
        survives(state, l, m, market_id),
        written(saved, state, symbol, at),
        at.len() > 0,
        loaded(again, Some(saved)),
    ensures
        ({
            let ledger = opening_ledger(account_index, next_market, include_all, again);
            let money = opening_money(account_index, next_market, rate, again);
            if account_index == l.account_index && next_market == market_id {
                &&& ledger.fills == l.fills
                &&& money.strategy_realized == m.strategy_realized
                &&& money.notional == m.notional
                &&& money.accounting.position == m.accounting.position
                &&& money.accounting.entry_vwap == m.accounting.entry_vwap
                &&& money.accounting.realized == m.strategy_realized
            } else {
                &&& ledger.fills == 0
                &&& money.strategy_realized == spec_zero()
                &&& money.notional == spec_zero()
                &&& money.accounting.position == spec_zero()
                &&& money.accounting.entry_vwap == spec_zero()
                &&& money.accounting.realized == spec_zero()
            }
        }),
{
}

} // verus!
