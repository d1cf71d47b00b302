//! The live feeds: what messages of the account mean, how the account is set up, and how the book
//! is cleared.
use vstd::prelude::*;
use vstd::string::StringExecFns;
use crate::account::pnl_actor::PositionSnapshot;
use crate::lighter::messages::{
    AccountAllMsg, AccountOrdersMsg, PositionPayload, RemoteOrder, StatsPayload, TradePayload,
};
use crate::lighter::signer::{MARGIN_MODE_CROSS, MARGIN_MODE_ISOLATED};
use crate::num::{larger, spec_zero, Num};
use crate::orchestrator::hot::Mode;
use crate::text::{
    decimal, decimal_text, equals_ignoring_case, lowercase, lowercased, same_ignoring_case,
    same_text, signed_decimal, signed_text,
};
use crate::types::OrderEvent;

verus! {

/// So often an order book is cleared before giving up.
pub const CANCEL_ATTEMPTS: u32 = 5;

/// The fills of ours that a trade tells of: on the ask side, and on the bid side.
pub open spec fn trade_fills(t: TradePayload, account: i64) -> Seq<OrderEvent> {
    let size = match t.size {
        Some(s) => s,
        None => spec_zero(),
    };
    if size.at_most(spec_zero()) {
        Seq::empty()
    } else {
        let ask = if t.ask_account_id == Some(account) && t.ask_client_id is Some {
            seq![OrderEvent::Fill { client_order_id: t.ask_client_id->0, filled_size: size }]
        } else {
            Seq::empty()
        };
        let bid = if t.bid_account_id == Some(account) && t.bid_client_id is Some {
            seq![OrderEvent::Fill { client_order_id: t.bid_client_id->0, filled_size: size }]
        } else {
            Seq::empty()
        };
        ask + bid
    }
}

/// The fills of ours that the first `n` trades tell of.
pub open spec fn fills_of(trades: Seq<TradePayload>, account: i64, n: nat) -> Seq<OrderEvent>
    decreases n,
{
    if n == 0 {
        Seq::empty()
    } else {
        fills_of(trades, account, (n - 1) as nat) + trade_fills(trades[n - 1], account)
    }
}

/// The fills of ours that trades tell of.
pub fn own_fills(trades: &Vec<TradePayload>, account: i64) -> (r: Vec<OrderEvent>)
    ensures
        r@ == fills_of(trades@, account, trades@.len()),
{
    let mut r: Vec<OrderEvent> = Vec::new();
    let mut i: usize = 0;
    while i < trades.len()
        invariant
            i <= trades@.len(),
            r@ == fills_of(trades@, account, i as nat),
        decreases trades@.len() - i,
    {
        let t: TradePayload = trades[i];
        let ghost before = r@;
        let size: Num = match t.size {
            Some(s) => s,
            None => Num::zero(),
        };
        if !size.le(Num::zero()) {
            if t.ask_account_id == Some(account) {
                if let Some(c) = t.ask_client_id {
                    r.push(OrderEvent::Fill { client_order_id: c, filled_size: size });
                }
            }
            if t.bid_account_id == Some(account) {
                if let Some(c) = t.bid_client_id {
                    r.push(OrderEvent::Fill { client_order_id: c, filled_size: size });
                }
            }
        }
        proof {
            assert(r@ =~= before + trade_fills(t, account));
        }
        i = i + 1;
    }
    r
}

/// The ids that the first `n` orders tell of: those of the exchange for ours.
pub open spec fn ids_of(orders: Seq<RemoteOrder>, n: nat) -> Seq<OrderEvent>
    decreases n,
{
    if n == 0 {
        Seq::empty()
    } else {
        let rest = ids_of(orders, (n - 1) as nat);
        match (orders[n - 1].client_order_index, orders[n - 1].order_index) {
            (Some(c), Some(e)) => rest.push(
                OrderEvent::IdResolved { client_order_id: c, exchange_id: e },
            ),
            _ => rest,
        }
    }
}

/// The ids that the first `n` markets' orders tell of.
pub open spec fn all_ids_of(markets: Seq<(String, Vec<RemoteOrder>)>, n: nat) -> Seq<OrderEvent>
    decreases n,
{
    if n == 0 {
        Seq::empty()
    } else {
        all_ids_of(markets, (n - 1) as nat) + ids_of(markets[n - 1].1@, markets[n - 1].1@.len())
    }
}

/// The ids that a message about the account's orders tells of.
pub fn resolved_ids(msg: &AccountOrdersMsg) -> (r: Vec<OrderEvent>)
    ensures
        r@ == all_ids_of(msg.orders@, msg.orders@.len()),
{
    let mut r: Vec<OrderEvent> = Vec::new();
    let mut m: usize = 0;
    while m < msg.orders.len()
        invariant
            m <= msg.orders@.len(),
            r@ == all_ids_of(msg.orders@, m as nat),
        decreases msg.orders@.len() - m,
    {
        let orders: &Vec<RemoteOrder> = &msg.orders[m].1;
        let ghost before = r@;
        let mut i: usize = 0;
        proof {
            assert(before + Seq::<OrderEvent>::empty() =~= before);
        }
        while i < orders.len()
            invariant
                i <= orders@.len(),
                r@ == before + ids_of(orders@, i as nat),
            decreases orders@.len() - i,
        {
            if let (Some(c), Some(e)) = (orders[i].client_order_index, orders[i].order_index) {
                r.push(OrderEvent::IdResolved { client_order_id: c, exchange_id: e });
            }
            i = i + 1;
            proof {
                assert(r@ =~= before + ids_of(orders@, i as nat));
            }
        }
        m = m + 1;
    }
    r
}

/// The first entry of a market, from the `n`-th on.
pub open spec fn entry<T>(entries: Seq<(String, T)>, market: Seq<char>, n: nat) -> Option<T>
    decreases entries.len() - n,
{
    if n >= entries.len() {
        None
    } else if entries[n as int].0@ == market {
        Some(entries[n as int].1)
    } else {
        entry(entries, market, n + 1)
    }
}

/// What a message about the account means for one market.
#[derive(Debug)]
pub struct AccountUpdate {
    pub position: Option<PositionSnapshot>,
    pub trades: Vec<TradePayload>,
    /// Our fills among the trades.
    pub fills: Vec<OrderEvent>,
    /// Whether the profit account is told.
    pub report: bool,
}

/// A position as the profit account takes it.
pub open spec fn snapshot_of(p: PositionPayload) -> PositionSnapshot {
    PositionSnapshot {
        signed_position: if p.sign is Some && p.sign->0 < 0 {
            p.size().absolute().negated()
        } else {
            p.size().absolute()
        },
        entry_vwap: p.avg_entry_price,
    }
}

fn find_position(entries: &Vec<(String, PositionPayload)>, market: &str) -> (r: Option<
    PositionSnapshot,
>)
    ensures
        r == match entry(entries@, market@, 0) {
            Some(p) => Some(snapshot_of(p)),
            None => None,
        },
{
    let mut i: usize = 0;
    while i < entries.len()
        invariant
            i <= entries@.len(),
            entry(entries@, market@, 0) == entry(entries@, market@, i as nat),
        decreases entries@.len() - i,
    {
        if same_text(entries[i].0.as_str(), market) {
            let p: PositionPayload = entries[i].1;
            return Some(
                PositionSnapshot { signed_position: p.signed(), entry_vwap: p.avg_entry_price },
            );
        }
        i = i + 1;
    }
    None
}

fn find_trades(entries: &Vec<(String, Vec<TradePayload>)>, market: &str) -> (r: Vec<TradePayload>)
    ensures
        r@ == match entry(entries@, market@, 0) {
            Some(t) => t@,
            None => Seq::empty(),
        },
{
    let mut i: usize = 0;
    while i < entries.len()
        invariant
            i <= entries@.len(),
            entry(entries@, market@, 0) == entry(entries@, market@, i as nat),
        decreases entries@.len() - i,
    {
        if same_text(entries[i].0.as_str(), market) {
            let found: &Vec<TradePayload> = &entries[i].1;
            let mut r: Vec<TradePayload> = Vec::new();
            let mut k: usize = 0;
            while k < found.len()
                invariant
                    k <= found@.len(),
                    r@ == found@.take(k as int),
                decreases found@.len() - k,
            {
                r.push(found[k]);
                k = k + 1;
                proof {
                    assert(r@ =~= found@.take(k as int));
                }
            }
            proof {
                assert(found@.take(k as int) =~= found@);
            }
            return r;
        }
        i = i + 1;
    }
    Vec::new()
}

/// What a message about the account means for one market.
pub fn account_update(msg: &AccountAllMsg, market_id: u32, account: i64) -> (r: AccountUpdate)
    ensures
        ({
            let market = decimal(market_id as nat);
            &&& r.position == match entry(msg.positions@, market, 0) {
                Some(p) => Some(snapshot_of(p)),
                None => None,
            }
            &&& r.trades@ == match entry(msg.trades@, market, 0) {
                Some(t) => t@,
                None => Seq::empty(),
            }
            &&& r.fills@ == fills_of(r.trades@, account, r.trades@.len())
            &&& r.report == (r.position is Some || r.trades@.len() > 0)
        }),
{
    let market: String = decimal_text(market_id as u64);
    let position: Option<PositionSnapshot> = find_position(&msg.positions, market.as_str());
    let trades: Vec<TradePayload> = find_trades(&msg.trades, market.as_str());
    let fills: Vec<OrderEvent> = own_fills(&trades, account);
    let report: bool = position.is_some() || trades.len() > 0;
    AccountUpdate { position, trades, fills, report }
}

/// Whether the profit account is told of a capital message.
pub fn stats_reported(stats: &StatsPayload) -> (r: bool)
    ensures
        r == (stats.available_balance is Some || stats.portfolio_value is Some),
{
    stats.available_balance.is_some() || stats.portfolio_value.is_some()
}

/// The channels of the market's book and ticker.
pub fn market_channels(market_id: u32) -> (r: (String, String))
    ensures
        r.0@ == "order_book/"@ + decimal(market_id as nat),
        r.1@ == "ticker/"@ + decimal(market_id as nat),
{
    let id: String = decimal_text(market_id as u64);
    ("order_book/".to_owned().concat(id.as_str()), "ticker/".to_owned().concat(id.as_str()))
}

/// The channel of the account's orders of a market.
pub fn account_orders_channel(market_id: u32, account: i64) -> (r: String)
    ensures
        r@ == "account_orders/"@ + decimal(market_id as nat) + "/"@ + signed_decimal(
            account as int,
        ),
{
    let id: String = decimal_text(market_id as u64);
    let acct: String = signed_text(account);
    "account_orders/".to_owned().concat(id.as_str()).concat("/").concat(acct.as_str())
}

/// The channel of the account's positions and trades.
pub fn account_all_channel(account: i64) -> (r: String)
    ensures
        r@ == "account_all/"@ + signed_decimal(account as int),
{
    let acct: String = signed_text(account);
    "account_all/".to_owned().concat(acct.as_str())
}

/// The channel of the account's capital.
pub fn user_stats_channel(account: i64) -> (r: String)
    ensures
        r@ == "user_stats/"@ + signed_decimal(account as int),
{
    let acct: String = signed_text(account);
    "user_stats/".to_owned().concat(acct.as_str())
}

/// Margin fraction, in ten-thousandths, and margin mode of a leverage.
pub open spec fn leverage_of(margin_mode: Seq<char>, leverage: i32) -> (int, i32) {
    (
        10_000int / (if leverage < 1 {
            1int
        } else {
            leverage as int
        }),
        if same_ignoring_case(margin_mode, "isolated"@) {
            MARGIN_MODE_ISOLATED
        } else {
            MARGIN_MODE_CROSS
        },
    )
}

/// How the account's leverage is set: the initial margin fraction in basis points, and the margin
/// mode.
pub fn leverage_plan(margin_mode: &str, leverage: i32) -> (r: (i32, i32))
    ensures
        r.0 == 10_000int / (if leverage < 1 {
            1int
        } else {
            leverage as int
        }),
        r.1 == if same_ignoring_case(margin_mode@, "isolated"@) {
            MARGIN_MODE_ISOLATED
        } else {
            MARGIN_MODE_CROSS
        },
        r.0 == leverage_of(margin_mode@, leverage).0,
        r.1 == leverage_of(margin_mode@, leverage).1,
{
    let times: i32 = if leverage < 1 { 1 } else { leverage };
    let mode: i32 = if equals_ignoring_case(margin_mode, "isolated") {
        MARGIN_MODE_ISOLATED
    } else {
        MARGIN_MODE_CROSS
    };
    (10_000 / times, mode)
}

/// The order size to start with.
pub open spec fn first_amount(configured: Num, min_base: Num) -> Num {
    if spec_zero().below(configured) {
        configured
    } else {
        larger(min_base, Num { bits: 0x3EE4_F8B5_88E3_68F1 })
    }
}

/// The order size to start with: the configured one where it is positive, else the market's
/// least, but a hundred-thousandth at least.
pub fn base_amount_seed(configured: Num, min_base: Num) -> (r: Num)
    ensures
        r == if spec_zero().below(configured) {
            configured
        } else {
            larger(min_base, Num { bits: 0x3EE4_F8B5_88E3_68F1 })
        },
        r == first_amount(configured, min_base),
{
    if configured.is_positive() {
        configured
    } else {
        min_base.max(Num::new(0x3EE4_F8B5_88E3_68F1))
    }
}

/// The largest position to start with.
pub open spec fn first_limit(mode: Mode) -> Num {
    match mode {
        Mode::Live => spec_zero(),
        Mode::DryRun => Num { bits: 0x426D_1A94_A200_0000 },
    }
}

/// The largest position to start with: none in live trading, where nothing is quoted before the
/// capital is known, and a million millions in a dry run.
pub fn max_position_seed(mode: Mode) -> (r: Num)
    ensures
        r == match mode {
            Mode::Live => spec_zero(),
            Mode::DryRun => Num { bits: 0x426D_1A94_A200_0000 },
        },
        r == first_limit(mode),
{
    match mode {
        Mode::Live => Num::zero(),
        Mode::DryRun => Num::new(0x426D_1A94_A200_0000),
    }
}

/// The symbol of the reference venue.
pub fn binance_symbol(market_symbol: &str) -> (r: String)
    ensures
        r@ == lowercased(market_symbol@) + "usdt"@,
{
    lowercase(market_symbol).concat("usdt")
}

/// An age in print: `none` for what never came.
pub fn age_for_log(age_ms: u64) -> (r: String)
    ensures
        r@ == if age_ms == u64::MAX {
            "none"@
        } else {
            decimal(age_ms as nat)
        },
{
    if age_ms == u64::MAX {
        "none".to_owned()
    } else {
        decimal_text(age_ms)
    }
}

/// What follows an attempt to clear the book.
#[derive(Clone, Copy, Debug, PartialEq, Eq, Structural)]
pub enum ClearStep {
    /// No order rests: that was verified.
    Flat,
    /// Another attempt follows, after a moment.
    Again,
    /// The attempts are used up.
    GaveUp,
}

/// What is to be done once the resting orders were counted after a try to clear them.
pub open spec fn clear_step(attempt: u32, resting: Option<usize>) -> ClearStep {
    if resting == Some(0usize) {
        ClearStep::Flat
    } else if attempt < CANCEL_ATTEMPTS {
        ClearStep::Again
    } else {
        ClearStep::GaveUp
    }
}

/// An order book that is being cleared.
#[derive(Clone, Copy, Debug, PartialEq, Eq, Structural)]
pub struct BookClearing {
    /// Number of the attempt, from 1 on.
    pub attempt: u32,
}

impl BookClearing {
    /// The first attempt.
    pub fn new() -> (r: BookClearing)
        ensures
            r.attempt == 1,
    {
        BookClearing { attempt: 1 }
    }

    /// What follows once the resting orders were counted, or could not be.
    pub fn verify(&mut self, resting: Option<usize>) -> (r: ClearStep)
        requires
            1 <= old(self).attempt <= CANCEL_ATTEMPTS,
        ensures
            r == if resting == Some(0usize) {
                ClearStep::Flat
            } else if old(self).attempt < CANCEL_ATTEMPTS {
                ClearStep::Again
            } else {
                ClearStep::GaveUp
            },
            r == clear_step(old(self).attempt, resting),
            final(self).attempt == if r == ClearStep::Again {
                (old(self).attempt + 1) as u32
            } else {
                old(self).attempt
            },
    {
        if let Some(n) = resting {
            if n == 0 {
                return ClearStep::Flat;
            }
        }
        if self.attempt < CANCEL_ATTEMPTS {
            self.attempt = self.attempt + 1;
            ClearStep::Again
        } else {
            ClearStep::GaveUp
        }
    }
}

/// Whether trading may start: there is a key to sign with, and the book was seen without an order
/// of the account.
pub fn may_start_live(key: &str, cleared: ClearStep) -> (r: bool)
    ensures
        r == (key@.len() > 0 && cleared == ClearStep::Flat),
{
    key.unicode_len() > 0 && cleared == ClearStep::Flat
}

/// A fill is told of only for an order of the account that has a client id, and never for a trade
/// of no size.
pub proof fn fills_are_ours(t: TradePayload, account: i64, i: int)
    requires
        0 <= i < trade_fills(t, account).len(),
    ensures
        trade_fills(t, account)[i] matches OrderEvent::Fill { client_order_id, filled_size } && (
        t.ask_account_id == Some(account) && t.ask_client_id == Some(client_order_id)
            || t.bid_account_id == Some(account) && t.bid_client_id == Some(client_order_id))
            && t.size == Some(filled_size),
{
}

/// Which fills a trade tells of: of one that has a size above zero, that of the account's ask order
/// and that of its bid order, each where the account is on that side and the order has a client id,
/// with the size of the trade; of any other, none.
pub proof fn trades_tell_of_own_orders(t: TradePayload, account: i64)
    ensures
        ({
            let r = trade_fills(t, account);
            let sized = t.size is Some && !t.size->0.at_most(spec_zero());
            let ask = sized && t.ask_account_id == Some(account) && t.ask_client_id is Some;
            let bid = sized && t.bid_account_id == Some(account) && t.bid_client_id is Some;
            &&& r.len() == (if ask {
                1int
            } else {
                0
            }) + (if bid {
                1int
            } else {
                0
            })
            &&& ask ==> r[0] == (OrderEvent::Fill {
                client_order_id: t.ask_client_id->0,
                filled_size: t.size->0,
            })
            &&& bid ==> r.last() == (OrderEvent::Fill {
                client_order_id: t.bid_client_id->0,
                filled_size: t.size->0,
            })
        }),
{
}

/// No fill of ours is lost among the trades of a message, and none is made up: an event is among
/// them exactly where one of the trades tells of it.
pub proof fn fills_come_from_the_trades(
    trades: Seq<TradePayload>,
    account: i64,
    n: nat,
    e: OrderEvent,
)
    requires
        n <= trades.len(),
    ensures
        fills_of(trades, account, n).contains(e) <==> exists|i: int|
            0 <= i < n && trade_fills(#[trigger] trades[i], account).contains(e),
    decreases n,
{
    if n > 0 {
        fills_come_from_the_trades(trades, account, (n - 1) as nat, e);
        let rest = fills_of(trades, account, (n - 1) as nat);
        let more = trade_fills(trades[n - 1], account);
        let all = fills_of(trades, account, n);
        assert(all == rest + more);
        if rest.contains(e) {
            let k = choose|k: int| 0 <= k < rest.len() && rest[k] == e;
            assert(all[k] == e);
        }
        if more.contains(e) {
            let k = choose|k: int| 0 <= k < more.len() && more[k] == e;
            assert(all[rest.len() + k] == e);
        }
        if all.contains(e) {
            let k = choose|k: int| 0 <= k < all.len() && all[k] == e;
            if k < rest.len() {
                assert(rest[k] == e);
            } else {
                assert(more[k - rest.len()] == e);
                assert(trade_fills(trades[n - 1], account).contains(e));
            }
        }
    }
}

/// Which ids orders tell of: exactly those of the orders that have both, client id for client id.
pub proof fn orders_tell_of_their_ids(orders: Seq<RemoteOrder>, n: nat, event: OrderEvent)
    requires
        n <= orders.len(),
    ensures
        ids_of(orders, n).contains(event) <==> exists|i: int|
            0 <= i < n && (#[trigger] orders[i]).client_order_index is Some
                && orders[i].order_index is Some && event == (OrderEvent::IdResolved {
                client_order_id: orders[i].client_order_index->0,
                exchange_id: orders[i].order_index->0,
            }),
    decreases n,
{
    if n > 0 {
        orders_tell_of_their_ids(orders, (n - 1) as nat, event);
        let rest = ids_of(orders, (n - 1) as nat);
        let all = ids_of(orders, n);
        let o = orders[n - 1];
        if rest.contains(event) {
            let k = choose|k: int| 0 <= k < rest.len() && rest[k] == event;
            assert(all[k] == event);
        }
        if all.contains(event) {
            let k = choose|k: int| 0 <= k < all.len() && all[k] == event;
            if k < rest.len() {
                assert(rest[k] == event);
            }
        }
        if o.client_order_index is Some && o.order_index is Some {
            assert(all[rest.len() as int] == (OrderEvent::IdResolved {
                client_order_id: o.client_order_index->0,
                exchange_id: o.order_index->0,
            }));
        }
    }
}

/// A message about orders tells of the ids of every market in it.
pub proof fn every_market_tells_of_its_ids(
    markets: Seq<(String, Vec<RemoteOrder>)>,
    n: nat,
    event: OrderEvent,
)
    requires
        n <= markets.len(),
    ensures
        all_ids_of(markets, n).contains(event) <==> exists|m: int|
            0 <= m < n && ids_of((#[trigger] markets[m]).1@, markets[m].1@.len()).contains(event),
    decreases n,
{
    if n > 0 {
        every_market_tells_of_its_ids(markets, (n - 1) as nat, event);
        let rest = all_ids_of(markets, (n - 1) as nat);
        let more = ids_of(markets[n - 1].1@, markets[n - 1].1@.len());
        let all = all_ids_of(markets, n);
        assert(all == rest + more);
        if rest.contains(event) {
            let k = choose|k: int| 0 <= k < rest.len() && rest[k] == event;
            assert(all[k] == event);
        }
        if more.contains(event) {
            let k = choose|k: int| 0 <= k < more.len() && more[k] == event;
            assert(all[rest.len() + k] == event);
        }
        if all.contains(event) {
            let k = choose|k: int| 0 <= k < all.len() && all[k] == event;
            if k < rest.len() {
                assert(rest[k] == event);
            } else {
                assert(more[k - rest.len()] == event);
            }
        }
    }
}

/// The entry of a market is the first one under its name, and there is none only where no entry is
/// under it.
pub proof fn entries_are_found<T>(entries: Seq<(String, T)>, market: Seq<char>, n: nat)
    ensures
        match entry(entries, market, n) {
            Some(x) => exists|i: int|
                n <= i < entries.len() && (#[trigger] entries[i]).0@ == market && entries[i].1 == x
                    && forall|j: int| n <= j < i ==> (#[trigger] entries[j]).0@ != market,
            None => forall|i: int| n <= i < entries.len() ==> (#[trigger] entries[i]).0@ != market,
        },
    decreases entries.len() - n,
{
    if n < entries.len() {
        if entries[n as int].0@ == market {
            assert(entries[n as int].1 == entry(entries, market, n)->0);
        } else {
            entries_are_found(entries, market, n + 1);
        }
    }
}

/// A position that is reported has the reported magnitude, is short exactly where the reported sign
/// is negative, and comes with the reported entry price.
pub proof fn positions_have_their_sign(p: PositionPayload)
    ensures
        ({
            let s = snapshot_of(p);
            &&& s.entry_vwap == p.avg_entry_price
            &&& s.signed_position.magnitude() == p.size().magnitude()
            &&& p.sign is Some && p.sign->0 < 0 ==> s.signed_position.rank() <= 0
            &&& !(p.sign is Some && p.sign->0 < 0) ==> s.signed_position.rank() >= 0
        }),
{
}

/// A leverage of `n` asks for a margin of one `n`-th, rounded down, in ten-thousandths; one below one
/// counts as one. The margin is isolated exactly where the mode says so, in whatever case.
pub proof fn leverage_is_a_fraction_of_margin(mode: Seq<char>, leverage: i32)
    ensures
        leverage <= 1 ==> leverage_of(mode, leverage).0 == 10_000,
        leverage >= 1 ==> leverage_of(mode, leverage).0 * leverage <= 10_000 < (leverage_of(
            mode,
            leverage,
        ).0 + 1) * leverage,
        same_ignoring_case(mode, "isolated"@) ==> leverage_of(mode, leverage).1 == 1,
        !same_ignoring_case(mode, "isolated"@) ==> leverage_of(mode, leverage).1 == 0,
{
    if leverage >= 1 {
        let n = leverage as int;
        let q = 10_000int / n;
        assert(q * n <= 10_000 < (q + 1) * n) by (nonlinear_arith)
            requires
                n >= 1,
                q == 10_000int / n,
        ;
    }
}

/// A run starts with the configured order size where that is positive, and else with the market's
/// least, a hundred-thousandth at least; in live trading it starts with no position allowed.
pub proof fn runs_start_small(configured: Num, min_base: Num)
    ensures
        spec_zero().below(configured) ==> first_amount(configured, min_base) == configured,
        !spec_zero().below(configured) && (Num { bits: 0x3EE4_F8B5_88E3_68F1 }).below(min_base)
            ==> first_amount(configured, min_base) == min_base,
        !spec_zero().below(configured) && min_base.below(Num { bits: 0x3EE4_F8B5_88E3_68F1 })
            ==> first_amount(configured, min_base).bits == 0x3EE4_F8B5_88E3_68F1,
        first_limit(Mode::Live) == spec_zero(),
        first_limit(Mode::DryRun).bits == 0x426D_1A94_A200_0000,
{
}

/// The book is clear exactly where no order is known to rest. Five tries are made before it is given
/// up; one whose outcome could not be counted is not taken for clear.
pub proof fn books_are_cleared_or_given_up(attempt: u32, n: usize)
    ensures
        clear_step(attempt, Some(0)) == ClearStep::Flat,
        n > 0 && attempt < 5 ==> clear_step(attempt, Some(n)) == ClearStep::Again,
        n > 0 && attempt >= 5 ==> clear_step(attempt, Some(n)) == ClearStep::GaveUp,
        attempt < 5 ==> clear_step(attempt, None) == ClearStep::Again,
        attempt >= 5 ==> clear_step(attempt, None) == ClearStep::GaveUp,
{
}

} // verus!
