//! Order tracking: one slot per (side, level), the operations that bring the resting orders to
//! the wanted quotes, and what events and snapshots of the exchange do to the slots.
//!
//! A slot is taken the moment an operation for it is emitted, so that no later cycle places a
//! second order in it. Only an event, or repeated absence from the exchange's own list of
//! orders, frees it.
use vstd::prelude::*;
use crate::exec::id_map::{recorded, IdMap};
use crate::lighter::messages::{first_of, RemoteOrder};
use crate::num::{larger, spec_epsilon, spec_zero, Num};
use crate::types::{BatchOp, OrderAction, OrderEvent, Side, SideStatus};

verus! {

/// Largest client order id: 2^48 - 1.
pub const MAX_CLIENT_ORDER_INDEX: i64 = 281_474_976_710_655;

/// Consecutive snapshots without an order before its slot is freed.
pub const MISSING_RECONCILE_DEBOUNCE: u32 = 2;

/// How long a slot is safe from snapshots after its last update, in nanoseconds.
pub const RECONCILE_GRACE_NS: u64 = 5_000_000_000;

/// One (side, level) slot.
#[derive(Clone, Copy, Debug, PartialEq, Eq, Structural)]
pub struct OrderSlot {
    pub status: SideStatus,
    pub order_id: Option<i64>,
    pub price: Option<Num>,
    pub size: Option<Num>,
    /// Monotonic time of the last update, in nanoseconds.
    pub updated_at: u64,
    /// Consecutive snapshots in which the order was missing.
    pub miss: u32,
}

/// The wanted quote of one (side, level).
#[derive(Clone, Copy, Debug, PartialEq, Eq, Structural)]
pub struct SideQuote {
    pub price: Num,
    /// How far the wanted price lies from the tracked price, in basis points of that. Not read for
    /// a slot without a price.
    pub change_bps: Num,
    /// How far the wanted size lies from the tracked size. Not read for a slot without a size.
    pub size_change: Num,
}

/// What the tracker knows.
pub struct Orders {
    pub bids: Seq<OrderSlot>,
    pub asks: Seq<OrderSlot>,
    pub ids: Map<i64, i64>,
    pub last_id: int,
    pub amount_tick: Num,
}

/// Slots of one side.
pub open spec fn side_slots(s: Orders, side: Side) -> Seq<OrderSlot> {
    match side {
        Side::Buy => s.bids,
        Side::Sell => s.asks,
    }
}

/// The slot of a (side, level).
pub open spec fn slot_at(s: Orders, side: Side, level: int) -> OrderSlot {
    side_slots(s, side)[level]
}

/// The state with one slot replaced.
pub open spec fn with_slot(s: Orders, side: Side, level: int, slot: OrderSlot) -> Orders {
    match side {
        Side::Buy => Orders { bids: s.bids.update(level, slot), ..s },
        Side::Sell => Orders { asks: s.asks.update(level, slot), ..s },
    }
}

/// Cells in the order in which they are visited: level by level, the bid before the ask.
pub open spec fn cell_side(cell: int) -> Side {
    if cell % 2 == 0 {
        Side::Buy
    } else {
        Side::Sell
    }
}

/// The slot of a cell.
pub open spec fn cell_slot(s: Orders, cell: int) -> OrderSlot {
    slot_at(s, cell_side(cell), cell / 2)
}

/// A slot without an order.
pub open spec fn idle_slot(now: u64) -> OrderSlot {
    OrderSlot {
        status: SideStatus::Idle,
        order_id: None,
        price: None,
        size: None,
        updated_at: now,
        miss: 0,
    }
}

/// A slot whose order rests on the exchange.
pub open spec fn bound_slot(id: i64, price: Num, size: Num, now: u64) -> OrderSlot {
    OrderSlot {
        status: SideStatus::Live,
        order_id: Some(id),
        price: Some(price),
        size: Some(size),
        updated_at: now,
        miss: 0,
    }
}

/// Client ids of the orders in a row of slots.
pub open spec fn slot_ids(slots: Seq<OrderSlot>) -> Seq<i64>
    decreases slots.len(),
{
    if slots.len() == 0 {
        Seq::empty()
    } else {
        let rest = slot_ids(slots.drop_last());
        match slots.last().order_id {
            Some(id) => rest.push(id),
            None => rest,
        }
    }
}

/// Client ids of all tracked orders: the bids', then the asks'.
pub open spec fn tracked_ids(s: Orders) -> Seq<i64> {
    slot_ids(s.bids) + slot_ids(s.asks)
}

/// The client order id that follows `last`: drawn from the clock, pushed past the last one
/// where the clock has not moved on, and never 0.
pub open spec fn next_id(last: int, now_ns: int) -> int {
    let drawn = now_ns % (MAX_CLIENT_ORDER_INDEX as int);
    let fresh = if drawn <= last {
        (last + 1) % (MAX_CLIENT_ORDER_INDEX + 1)
    } else {
        drawn
    };
    if fresh == 0 {
        1
    } else {
        fresh
    }
}

/// Whether an order of this side brings the position closer to zero.
pub open spec fn reducing(side: Side, position: Num) -> bool {
    ||| spec_epsilon().below(position) && side == Side::Sell
    ||| position.below(spec_epsilon().negated()) && side == Side::Buy
}

/// The operation that cancels an order.
pub open spec fn cancel_op(side: Side, level: int, cid: i64, eid: i64) -> BatchOp {
    BatchOp {
        side,
        level: level as usize,
        action: OrderAction::Cancel,
        price: spec_zero(),
        size: spec_zero(),
        client_order_id: cid,
        exchange_id: Some(eid),
        reduce_only: false,
    }
}

/// What a quoting cycle is given besides the quotes.
pub struct Cycle {
    pub base_amount: Num,
    pub position: Num,
    /// How far a price may lie from its quote, in basis points, before the order is moved.
    pub threshold_bps: Num,
    pub now_ns: int,
    pub hold: bool,
}

/// The change of size that calls for an update: a tick, where there is one, and never next to
/// nothing.
pub open spec fn size_tolerance(tick: Num) -> Num {
    larger(
        if spec_zero().below(tick) {
            tick
        } else {
            spec_epsilon()
        },
        spec_epsilon(),
    )
}

/// Whether a resting order lies too far from its quote: its price is not known or beyond the
/// threshold, or its size is not known or a tick off.
pub open spec fn out_of_place(slot: OrderSlot, q: SideQuote, tick: Num, threshold_bps: Num) -> bool {
    ||| slot.price is None
    ||| threshold_bps.below(q.change_bps)
    ||| slot.size is None
    ||| size_tolerance(tick).at_most(q.size_change)
}

/// The operation that brings one slot to its wanted quote.
pub open spec fn cell_op(
    slot: OrderSlot,
    ids: Map<i64, i64>,
    tick: Num,
    last: int,
    side: Side,
    level: int,
    quote: Option<SideQuote>,
    c: Cycle,
) -> Option<BatchOp> {
    match quote {
        None => match slot.order_id {
            Some(cid) => if !c.hold && ids.contains_key(cid) {
                Some(cancel_op(side, level, cid, ids[cid]))
            } else {
                None
            },
            None => None,
        },
        Some(q) => if c.base_amount.at_most(spec_zero()) || q.price.at_most(spec_zero()) {
            None
        } else {
            match slot.order_id {
                Some(cid) => if !c.hold && ids.contains_key(cid) && out_of_place(
                    slot,
                    q,
                    tick,
                    c.threshold_bps,
                ) {
                    Some(
                        BatchOp {
                            side,
                            level: level as usize,
                            action: OrderAction::Modify,
                            price: q.price,
                            size: c.base_amount,
                            client_order_id: cid,
                            exchange_id: Some(ids[cid]),
                            reduce_only: reducing(side, c.position),
                        },
                    )
                } else {
                    None
                },
                None => Some(
                    BatchOp {
                        side,
                        level: level as usize,
                        action: OrderAction::Create,
                        price: q.price,
                        size: c.base_amount,
                        client_order_id: next_id(last, c.now_ns) as i64,
                        exchange_id: None,
                        reduce_only: reducing(side, c.position),
                    },
                ),
            }
        },
    }
}

/// The wanted quote of a cell.
pub open spec fn cell_quote(
    quotes: Seq<(Option<SideQuote>, Option<SideQuote>)>,
    cell: int,
) -> Option<SideQuote> {
    if cell % 2 == 0 {
        quotes[cell / 2].0
    } else {
        quotes[cell / 2].1
    }
}

/// The operations for the first `cells` cells, and the last client id handed out.
pub open spec fn planned(
    s: Orders,
    quotes: Seq<(Option<SideQuote>, Option<SideQuote>)>,
    c: Cycle,
    cells: nat,
) -> (Seq<BatchOp>, int)
    decreases cells,
{
    if cells == 0 {
        (Seq::empty(), s.last_id)
    } else {
        let cell = cells - 1;
        let (ops, last) = planned(s, quotes, c, cell as nat);
        match cell_op(
            cell_slot(s, cell),
            s.ids,
            s.amount_tick,
            last,
            cell_side(cell),
            cell / 2,
            cell_quote(quotes, cell),
            c,
        ) {
            Some(op) => (
                ops.push(op),
                if op.action == OrderAction::Create {
                    op.client_order_id as int
                } else {
                    last
                },
            ),
            None => (ops, last),
        }
    }
}

/// A slot once an operation for it was emitted.
pub open spec fn pending_slot(slot: OrderSlot, op: BatchOp, now: u64) -> OrderSlot {
    match op.action {
        OrderAction::Create => OrderSlot {
            status: SideStatus::Placing,
            order_id: Some(op.client_order_id),
            price: Some(op.price),
            size: Some(op.size),
            updated_at: now,
            miss: 0,
        },
        OrderAction::Modify => OrderSlot {
            status: SideStatus::Modifying,
            price: Some(op.price),
            size: Some(op.size),
            updated_at: now,
            miss: 0,
            ..slot
        },
        OrderAction::Cancel => OrderSlot {
            status: SideStatus::Canceling,
            updated_at: now,
            miss: 0,
            ..slot
        },
    }
}

/// The state with one more pair of ids recorded.
pub open spec fn with_ids(s: Orders, cid: i64, eid: i64) -> Orders {
    Orders { ids: recorded(s.ids, tracked_ids(s).to_set(), cid, eid), ..s }
}

/// The first cell from `cell` on whose slot holds the order.
pub open spec fn holder(s: Orders, cid: i64, cell: int) -> Option<int>
    decreases 2 * s.bids.len() - cell,
{
    if cell >= 2 * s.bids.len() {
        None
    } else if cell_slot(s, cell).order_id == Some(cid) {
        Some(cell)
    } else {
        holder(s, cid, cell + 1)
    }
}

/// The slot of an order that was filled: shrunk to what remains, or free where no more than a
/// tick remains or the tracked size is unknown.
pub open spec fn filled_slot(
    slot: OrderSlot,
    tick: Num,
    remaining: Option<Num>,
    now: u64,
) -> OrderSlot {
    if slot.size is Some && remaining is Some && larger(tick, spec_epsilon()).below(
        remaining->0,
    ) {
        OrderSlot { size: remaining, updated_at: now, miss: 0, ..slot }
    } else {
        idle_slot(now)
    }
}

/// What an event does to the state. `remaining` is what a fill leaves of the tracked size.
pub open spec fn after_event(
    s: Orders,
    evt: OrderEvent,
    remaining: Option<Num>,
    now: u64,
) -> Orders {
    match evt {
        OrderEvent::BindLive { side, level, client_order_id, exchange_id, price, size } => {
            let t = match exchange_id {
                Some(eid) => with_ids(s, client_order_id, eid),
                None => s,
            };
            with_slot(t, side, level as int, bound_slot(client_order_id, price, size, now))
        },
        OrderEvent::ClearLive { side, level, client_order_id } => if client_order_id == 0
            || slot_at(s, side, level as int).order_id == Some(client_order_id) {
            with_slot(s, side, level as int, idle_slot(now))
        } else {
            s
        },
        OrderEvent::ClearAll => Orders {
            bids: Seq::new(s.bids.len(), |i: int| idle_slot(now)),
            asks: Seq::new(s.asks.len(), |i: int| idle_slot(now)),
            ..s
        },
        OrderEvent::IdResolved { client_order_id, exchange_id } => with_ids(
            s,
            client_order_id,
            exchange_id,
        ),
        OrderEvent::Fill { client_order_id, filled_size } => match holder(s, client_order_id, 0) {
            Some(cell) => with_slot(
                s,
                cell_side(cell),
                cell / 2,
                filled_slot(cell_slot(s, cell), s.amount_tick, remaining, now),
            ),
            None => s,
        },
    }
}

/// Whether the slot that an event names exists.
pub open spec fn event_fits(s: Orders, evt: OrderEvent) -> bool {
    match evt {
        OrderEvent::BindLive { level, .. } => level < s.bids.len(),
        OrderEvent::ClearLive { level, .. } => level < s.bids.len(),
        _ => true,
    }
}

/// The ids known once the first `n` orders of a snapshot were recorded.
pub open spec fn mapped(s: Orders, remote: Seq<RemoteOrder>, n: nat) -> Map<i64, i64>
    decreases n,
{
    if n == 0 {
        s.ids
    } else {
        let known = mapped(s, remote, (n - 1) as nat);
        match (remote[n - 1].client_order_index, remote[n - 1].order_index) {
            (Some(c), Some(e)) => recorded(known, tracked_ids(s).to_set(), c, e),
            _ => known,
        }
    }
}

/// Whether a snapshot shows the order as resting.
pub open spec fn seen_live(remote: Seq<RemoteOrder>, cid: i64) -> bool {
    exists|i: int|
        0 <= i < remote.len() && #[trigger] remote[i].live() && remote[i].client_order_index
            == Some(cid)
}

/// The last order of a snapshot with the given client id.
pub open spec fn last_with(remote: Seq<RemoteOrder>, cid: i64) -> Option<RemoteOrder>
    decreases remote.len(),
{
    if remote.len() == 0 {
        None
    } else if remote.last().client_order_index == Some(cid) {
        Some(remote.last())
    } else {
        last_with(remote.drop_last(), cid)
    }
}

/// The miss counter, one higher where that fits.
pub open spec fn one_more(miss: u32) -> u32 {
    if miss == u32::MAX {
        miss
    } else {
        (miss + 1) as u32
    }
}

/// A slot once a snapshot was checked for its order: it is freed only when the order was missing
/// from enough snapshots in a row and the slot is past its grace period.
pub open spec fn debounced(slot: OrderSlot, remote: Seq<RemoteOrder>, now: u64) -> OrderSlot {
    match slot.order_id {
        None => slot,
        Some(cid) => if seen_live(remote, cid) {
            OrderSlot { miss: 0, ..slot }
        } else if one_more(slot.miss) >= MISSING_RECONCILE_DEBOUNCE && now >= slot.updated_at
            + RECONCILE_GRACE_NS {
            idle_slot(now)
        } else {
            OrderSlot { miss: one_more(slot.miss), ..slot }
        },
    }
}

/// Whether a reported order is on the other side.
pub open spec fn other_side(side: Side, o: RemoteOrder) -> bool {
    match side {
        Side::Buy => o.is_ask == Some(true),
        Side::Sell => o.is_ask == Some(false),
    }
}

/// A slot with price and size as a snapshot reports them: only an order that still rests is taken
/// over.
pub open spec fn refreshed(
    slot: OrderSlot,
    side: Side,
    remote: Seq<RemoteOrder>,
    now: u64,
) -> OrderSlot {
    match slot.order_id {
        None => slot,
        Some(cid) => match last_with(remote, cid) {
            None => slot,
            Some(o) => if other_side(side, o) || !o.live() {
                slot
            } else {
                let price = first_of(o.price, slot.price);
                let size = first_of(o.remaining_base_amount, slot.size);
                if price is Some && size is Some {
                    bound_slot(cid, price->0, size->0, now)
                } else {
                    OrderSlot { status: SideStatus::Live, updated_at: now, ..slot }
                }
            },
        },
    }
}

/// What a snapshot makes of a slot.
pub open spec fn settled(
    slot: OrderSlot,
    side: Side,
    remote: Seq<RemoteOrder>,
    now: u64,
) -> OrderSlot {
    refreshed(debounced(slot, remote, now), side, remote, now)
}

/// Whether two states differ in a slot of a level.
spec fn differ_at(a: Orders, b: Orders, level: int) -> bool {
    a.bids[level] != b.bids[level] || a.asks[level] != b.asks[level]
}

/// What a snapshot of the exchange's orders does to the state.
pub open spec fn reconciled(s: Orders, remote: Seq<RemoteOrder>, now: u64) -> Orders {
    Orders {
        bids: Seq::new(s.bids.len(), |i: int| settled(s.bids[i], Side::Buy, remote, now)),
        asks: Seq::new(s.asks.len(), |i: int| settled(s.asks[i], Side::Sell, remote, now)),
        ids: mapped(s, remote, remote.len()),
        ..s
    }
}

/// The operation that takes one resting order off the book.
pub open spec fn cell_cancel(s: Orders, cell: int) -> Option<BatchOp> {
    let slot = cell_slot(s, cell);
    match slot.order_id {
        Some(cid) => if slot.status != SideStatus::Canceling && s.ids.contains_key(cid) {
            Some(cancel_op(cell_side(cell), cell / 2, cid, s.ids[cid]))
        } else {
            None
        },
        None => None,
    }
}

/// The operations that take the resting orders of the first `cells` cells off the book.
pub open spec fn cancels(s: Orders, cells: nat) -> Seq<BatchOp>
    decreases cells,
{
    if cells == 0 {
        Seq::empty()
    } else {
        match cell_cancel(s, cells - 1) {
            Some(op) => cancels(s, (cells - 1) as nat).push(op),
            None => cancels(s, (cells - 1) as nat),
        }
    }
}

/// Tracker of the orders of one market.
#[derive(Clone, Debug)]
pub struct OrderManager {
    num_levels: usize,
    amount_tick: Num,
    bids: Vec<OrderSlot>,
    asks: Vec<OrderSlot>,
    client_to_exchange: IdMap,
    last_client_order_index: i64,
}

impl View for OrderManager {
    type V = Orders;

    closed spec fn view(&self) -> Orders {
        Orders {
            bids: self.bids@,
            asks: self.asks@,
            ids: self.client_to_exchange@,
            last_id: self.last_client_order_index as int,
            amount_tick: self.amount_tick,
        }
    }
}

impl OrderManager {
    /// One slot per level on each side, and a last id in range.
    pub closed spec fn wf(&self) -> bool {
        &&& self.bids@.len() == self.num_levels
        &&& self.asks@.len() == self.num_levels
        &&& 0 <= self.last_client_order_index <= MAX_CLIENT_ORDER_INDEX
    }

    /// A tracker with `num_levels` empty slots on each side.
    pub fn new(num_levels: usize, amount_tick: Num, now: u64) -> (r: OrderManager)
        ensures
            r.wf(),
            r@ == (Orders {
                bids: Seq::new(num_levels as nat, |i: int| idle_slot(now)),
                asks: Seq::new(num_levels as nat, |i: int| idle_slot(now)),
                ids: Map::empty(),
                last_id: 0,
                amount_tick,
            }),
    {
        let r: OrderManager = OrderManager {
            num_levels,
            amount_tick,
            bids: idle_row(num_levels, now),
            asks: idle_row(num_levels, now),
            client_to_exchange: IdMap::new(),
            last_client_order_index: 0,
        };
        proof {
            assert(r@.bids =~= Seq::new(num_levels as nat, |i: int| idle_slot(now)));
            assert(r@.asks =~= Seq::new(num_levels as nat, |i: int| idle_slot(now)));
        }
        r
    }

    /// Number of levels on each side.
    pub fn num_levels(&self) -> (r: usize)
        requires
            self.wf(),
        ensures
            r == self@.bids.len(),
            r == self@.asks.len(),
    {
        self.num_levels
    }

    /// The slot of a (side, level).
    pub fn slot(&self, side: Side, level: usize) -> (r: OrderSlot)
        requires
            self.wf(),
            level < self@.bids.len(),
        ensures
            r == slot_at(self@, side, level as int),
    {
        match side {
            Side::Buy => self.bids[level],
            Side::Sell => self.asks[level],
        }
    }

    /// Replaces the slot of a (side, level).
    fn set_slot(&mut self, side: Side, level: usize, slot: OrderSlot)
        requires
            old(self).wf(),
            level < old(self)@.bids.len(),
        ensures
            final(self).wf(),
            final(self)@ == with_slot(old(self)@, side, level as int, slot),
    {
        match side {
            Side::Buy => {
                self.bids.set(level, slot);
            },
            Side::Sell => {
                self.asks.set(level, slot);
            },
        }
    }

    /// The next client order id: never 0, and never the last one again.
    pub fn next_client_order_index(&mut self, now_ns: i64) -> (r: i64)
        requires
            old(self).wf(),
        ensures
            final(self).wf(),
            r == next_id(old(self)@.last_id, now_ns as int),
            final(self)@ == (Orders { last_id: r as int, ..old(self)@ }),
    {
        let drawn: i64 = now_ns.checked_rem_euclid(MAX_CLIENT_ORDER_INDEX).unwrap();
        let last: i64 = self.last_client_order_index;
        let fresh: i64 = if drawn <= last {
            if last == MAX_CLIENT_ORDER_INDEX {
                0
            } else {
                last + 1
            }
        } else {
            drawn
        };
        let id: i64 = if fresh == 0 { 1 } else { fresh };
        self.last_client_order_index = id;
        id
    }

    /// The exchange id recorded for a client id.
    pub fn resolve_exchange_id(&self, client_id: i64) -> (r: Option<i64>)
        requires
            self.wf(),
        ensures
            r == if self@.ids.contains_key(client_id) {
                Some(self@.ids[client_id])
            } else {
                None
            },
    {
        self.client_to_exchange.get(client_id)
    }

    /// Whether a change of size calls for an update, given the tracked size and its distance from
    /// the wanted one.
    fn size_change_requires_update(&self, resting: Option<Num>, size_change: Num) -> (r: bool)
        ensures
            r == (resting is None || size_tolerance(self@.amount_tick).at_most(size_change)),
    {
        let tick: Num = if self.amount_tick.is_positive() {
            self.amount_tick
        } else {
            Num::epsilon()
        };
        resting.is_none() || tick.max(Num::epsilon()).le(size_change)
    }

    /// Whether an order of this side brings the position closer to zero.
    pub fn is_reducing_side(side: Side, position: Num) -> (r: bool)
        ensures
            r == reducing(side, position),
    {
        match side {
            Side::Sell => Num::epsilon().lt(position),
            Side::Buy => position.lt(Num::epsilon().neg()),
        }
    }

    /// The operation that brings one slot to its wanted quote.
    fn plan_cell(
        &mut self,
        side: Side,
        level: usize,
        quote: Option<SideQuote>,
        base_amount: Num,
        position: Num,
        threshold_bps: Num,
        now_ns: i64,
        hold_mutations: bool,
    ) -> (r: Option<BatchOp>)
        requires
            old(self).wf(),
            level < old(self)@.bids.len(),
        ensures
            final(self).wf(),
            r == cell_op(
                slot_at(old(self)@, side, level as int),
                old(self)@.ids,
                old(self)@.amount_tick,
                old(self)@.last_id,
                side,
                level as int,
                quote,
                (Cycle {
                    base_amount,
                    position,
                    threshold_bps,
                    now_ns: now_ns as int,
                    hold: hold_mutations,
                }),
            ),
            final(self)@ == (Orders {
                last_id: if r is Some && r->0.action == OrderAction::Create {
                    r->0.client_order_id as int
                } else {
                    old(self)@.last_id
                },
                ..old(self)@
            }),
    {
        let slot: OrderSlot = self.slot(side, level);
        let quote: SideQuote = match quote {
            None => {
                if hold_mutations {
                    return None;
                }
                return match slot.order_id {
                    Some(cid) => match self.resolve_exchange_id(cid) {
                        Some(eid) => Some(cancel(side, level, cid, eid)),
                        None => None,
                    },
                    None => None,
                };
            },
            Some(q) => q,
        };
        if base_amount.le(Num::zero()) || quote.price.le(Num::zero()) {
            return None;
        }
        let reduce_only: bool = Self::is_reducing_side(side, position);
        match slot.order_id {
            Some(cid) => {
                if hold_mutations {
                    return None;
                }
                match self.resolve_exchange_id(cid) {
                    Some(eid) => if slot.price.is_none() || threshold_bps.lt(quote.change_bps)
                        || self.size_change_requires_update(slot.size, quote.size_change) {
                        Some(
                            BatchOp {
                                side,
                                level,
                                action: OrderAction::Modify,
                                price: quote.price,
                                size: base_amount,
                                client_order_id: cid,
                                exchange_id: Some(eid),
                                reduce_only,
                            },
                        )
                    } else {
                        None
                    },
                    None => None,
                }
            },
            None => {
                let id: i64 = self.next_client_order_index(now_ns);
                Some(
                    BatchOp {
                        side,
                        level,
                        action: OrderAction::Create,
                        price: quote.price,
                        size: base_amount,
                        client_order_id: id,
                        exchange_id: None,
                        reduce_only,
                    },
                )
            },
        }
    }

    /// The operations that bring the resting orders to the wanted quotes: a create for an empty
    /// slot, a modify for an order that moved, a cancel for an order that is no longer wanted.
    ///
    /// While mutations are held only creates are emitted: right after a fill the exchange ids of
    /// the resting orders are not to be relied on, but a fresh id cannot collide.
    pub fn collect_order_operations(
        &mut self,
        level_quotes: &Vec<(Option<SideQuote>, Option<SideQuote>)>,
        base_amount: Num,
        position: Num,
        effective_threshold_bps: Num,
        now_ns: i64,
        hold_mutations: bool,
    ) -> (r: Vec<BatchOp>)
        requires
            old(self).wf(),
            level_quotes@.len() <= old(self)@.bids.len(),
        ensures
            final(self).wf(),
            ({
                let c = Cycle {
                    base_amount,
                    position,
                    threshold_bps: effective_threshold_bps,
                    now_ns: now_ns as int,
                    hold: hold_mutations,
                };
                let plan = planned(old(self)@, level_quotes@, c, 2 * level_quotes@.len());
                &&& r@ == plan.0
                &&& final(self)@ == (Orders { last_id: plan.1, ..old(self)@ })
            }),
    {
        let mut ops: Vec<BatchOp> = Vec::new();
        let ghost start = self@;
        let ghost c = Cycle {
            base_amount,
            position,
            threshold_bps: effective_threshold_bps,
            now_ns: now_ns as int,
            hold: hold_mutations,
        };
        let mut level: usize = 0;
        while level < level_quotes.len()
            invariant
                self.wf(),
                level <= level_quotes@.len() <= start.bids.len(),
                c == (Cycle {
                    base_amount,
                    position,
                    threshold_bps: effective_threshold_bps,
                    now_ns: now_ns as int,
                    hold: hold_mutations,
                }),
                ops@ == planned(start, level_quotes@, c, (2 * level) as nat).0,
                self@ == (Orders {
                    last_id: planned(start, level_quotes@, c, (2 * level) as nat).1,
                    ..start
                }),
            decreases level_quotes@.len() - level,
        {
            let quotes: (Option<SideQuote>, Option<SideQuote>) = level_quotes[level];
            let bid: Option<BatchOp> = self.plan_cell(
                Side::Buy,
                level,
                quotes.0,
                base_amount,
                position,
                effective_threshold_bps,
                now_ns,
                hold_mutations,
            );
            if let Some(op) = bid {
                ops.push(op);
            }
            proof {
                assert(cell_slot(start, (2 * level) as int) == slot_at(start, Side::Buy, level as int));
                assert(ops@ == planned(start, level_quotes@, c, (2 * level + 1) as nat).0);
            }
            let ask: Option<BatchOp> = self.plan_cell(
                Side::Sell,
                level,
                quotes.1,
                base_amount,
                position,
                effective_threshold_bps,
                now_ns,
                hold_mutations,
            );
            if let Some(op) = ask {
                ops.push(op);
            }
            proof {
                assert(cell_slot(start, 2 * level + 1) == slot_at(start, Side::Sell, level as int));
                assert(ops@ == planned(start, level_quotes@, c, (2 * level + 2) as nat).0);
            }
            level = level + 1;
        }
        ops
    }

    /// Sets the status of a slot.
    pub fn mark_status(&mut self, side: Side, level: usize, status: SideStatus, now: u64)
        requires
            old(self).wf(),
            level < old(self)@.bids.len(),
        ensures
            final(self).wf(),
            final(self)@ == with_slot(
                old(self)@,
                side,
                level as int,
                (OrderSlot {
                    status,
                    updated_at: now,
                    ..slot_at(old(self)@, side, level as int)
                }),
            ),
    {
        let slot: OrderSlot = self.slot(side, level);
        self.set_slot(side, level, OrderSlot { status, updated_at: now, ..slot });
    }

    /// Takes the slot of an operation the moment it is emitted, before it is signed or sent.
    pub fn mark_pending(&mut self, op: &BatchOp, now: u64)
        requires
            old(self).wf(),
            op.level < old(self)@.bids.len(),
        ensures
            final(self).wf(),
            final(self)@ == with_slot(
                old(self)@,
                op.side,
                op.level as int,
                pending_slot(slot_at(old(self)@, op.side, op.level as int), *op, now),
            ),
    {
        let slot: OrderSlot = self.slot(op.side, op.level);
        let next: OrderSlot = match op.action {
            OrderAction::Create => OrderSlot {
                status: SideStatus::Placing,
                order_id: Some(op.client_order_id),
                price: Some(op.price),
                size: Some(op.size),
                updated_at: now,
                miss: 0,
            },
            OrderAction::Modify => OrderSlot {
                status: SideStatus::Modifying,
                price: Some(op.price),
                size: Some(op.size),
                updated_at: now,
                miss: 0,
                ..slot
            },
            OrderAction::Cancel => OrderSlot {
                status: SideStatus::Canceling,
                updated_at: now,
                miss: 0,
                ..slot
            },
        };
        self.set_slot(op.side, op.level, next);
    }

    /// Records the exchange id of an order.
    fn record_id_mapping(&mut self, client_id: i64, exchange_id: i64)
        requires
            old(self).wf(),
        ensures
            final(self).wf(),
            final(self)@ == with_ids(old(self)@, client_id, exchange_id),
    {
        let live: Vec<i64> = self.tracked_client_ids();
        self.client_to_exchange.record(client_id, exchange_id, &live);
    }

    /// The tracked size of an order: what a fill is subtracted from.
    pub fn tracked_size(&self, client_order_id: i64) -> (r: Option<Num>)
        requires
            self.wf(),
        ensures
            r == match holder(self@, client_order_id, 0) {
                Some(cell) => cell_slot(self@, cell).size,
                None => None,
            },
    {
        match self.find_holder(client_order_id) {
            Some((side, level)) => self.slot(side, level).size,
            None => None,
        }
    }

    /// The slot that holds an order.
    fn find_holder(&self, client_order_id: i64) -> (r: Option<(Side, usize)>)
        requires
            self.wf(),
        ensures
            match holder(self@, client_order_id, 0) {
                Some(cell) => r == Some((cell_side(cell), (cell / 2) as usize)) && 0 <= cell < 2
                    * self@.bids.len(),
                None => r is None,
            },
    {
        let mut level: usize = 0;
        while level < self.num_levels
            invariant
                self.wf(),
                level <= self.num_levels,
                holder(self@, client_order_id, 0) == holder(
                    self@,
                    client_order_id,
                    (2 * level) as int,
                ),
            decreases self.num_levels - level,
        {
            proof {
                assert(cell_slot(self@, (2 * level) as int) == slot_at(self@, Side::Buy, level as int));
                assert(cell_slot(self@, 2 * level + 1) == slot_at(self@, Side::Sell, level as int));
            }
            if self.bids[level].order_id == Some(client_order_id) {
                return Some((Side::Buy, level));
            }
            if self.asks[level].order_id == Some(client_order_id) {
                return Some((Side::Sell, level));
            }
            proof {
                assert(holder(self@, client_order_id, (2 * level) as int) == holder(
                    self@,
                    client_order_id,
                    2 * level + 1,
                ));
                assert(holder(self@, client_order_id, 2 * level + 1) == holder(
                    self@,
                    client_order_id,
                    2 * level + 2,
                ));
            }
            level = level + 1;
        }
        None
    }

    /// Applies one event. `remaining` is what a fill leaves of the tracked size (see
    /// [`OrderManager::tracked_size`]); it is not read for other events.
    pub fn apply_event(&mut self, evt: OrderEvent, remaining: Option<Num>, now: u64)
        requires
            old(self).wf(),
            event_fits(old(self)@, evt),
        ensures
            final(self).wf(),
            final(self)@ == after_event(old(self)@, evt, remaining, now),
    {
        match evt {
            OrderEvent::BindLive { side, level, client_order_id, exchange_id, price, size } => {
                if let Some(eid) = exchange_id {
                    self.record_id_mapping(client_order_id, eid);
                }
                self.set_slot(side, level, bound(client_order_id, price, size, now));
            },
            OrderEvent::ClearLive { side, level, client_order_id } => {
                if client_order_id == 0 || self.slot(side, level).order_id == Some(
                    client_order_id,
                ) {
                    self.set_slot(side, level, idle(now));
                }
            },
            OrderEvent::ClearAll => {
                self.bids = idle_row(self.num_levels, now);
                self.asks = idle_row(self.num_levels, now);
                proof {
                    let want = after_event(old(self)@, evt, remaining, now);
                    assert(self@.bids =~= want.bids);
                    assert(self@.asks =~= want.asks);
                }
            },
            OrderEvent::IdResolved { client_order_id, exchange_id } => {
                self.record_id_mapping(client_order_id, exchange_id);
            },
            OrderEvent::Fill { client_order_id, filled_size: _ } => {
                self.apply_fill(client_order_id, remaining, now);
            },
        }
    }

    /// A fill of ours: the slot shrinks to what remains, or is freed at once.
    fn apply_fill(&mut self, client_order_id: i64, remaining: Option<Num>, now: u64)
        requires
            old(self).wf(),
        ensures
            final(self).wf(),
            final(self)@ == match holder(old(self)@, client_order_id, 0) {
                Some(cell) => with_slot(
                    old(self)@,
                    cell_side(cell),
                    cell / 2,
                    filled_slot(
                        cell_slot(old(self)@, cell),
                        old(self)@.amount_tick,
                        remaining,
                        now,
                    ),
                ),
                None => old(self)@,
            },
    {
        if let Some((side, level)) = self.find_holder(client_order_id) {
            let slot: OrderSlot = self.slot(side, level);
            let tolerance: Num = self.amount_tick.max(Num::epsilon());
            let next: OrderSlot = match (slot.size, remaining) {
                (Some(_), Some(left)) => if tolerance.lt(left) {
                    OrderSlot { size: Some(left), updated_at: now, miss: 0, ..slot }
                } else {
                    idle(now)
                },
                _ => idle(now),
            };
            self.set_slot(side, level, next);
        }
    }

    /// Records the exchange ids that a snapshot shows.
    pub fn update_id_mapping_from_orders(&mut self, remote: &Vec<RemoteOrder>)
        requires
            old(self).wf(),
        ensures
            final(self).wf(),
            final(self)@ == (Orders {
                ids: mapped(old(self)@, remote@, remote@.len()),
                ..old(self)@
            }),
    {
        let ghost start = self@;
        let mut i: usize = 0;
        while i < remote.len()
            invariant
                self.wf(),
                i <= remote@.len(),
                self@ == (Orders { ids: mapped(start, remote@, i as nat), ..start }),
            decreases remote@.len() - i,
        {
            let o: &RemoteOrder = &remote[i];
            if let (Some(c), Some(e)) = (o.client_order_index, o.order_index) {
                self.record_id_mapping(c, e);
            }
            i = i + 1;
        }
    }

    /// Settles every slot with a snapshot of the exchange's orders: an order that stays missing
    /// frees its slot, and what the snapshot says of the others is taken over. Whether any slot
    /// changed.
    pub fn process_reconcile(&mut self, remote: &Vec<RemoteOrder>, now: u64) -> (r: bool)
        requires
            old(self).wf(),
        ensures
            final(self).wf(),
            final(self)@ == reconciled(old(self)@, remote@, now),
            r == (final(self)@.bids != old(self)@.bids || final(self)@.asks != old(self)@.asks),
    {
        self.update_id_mapping_from_orders(remote);
        let ghost start = self@;
        let mut changed: bool = false;
        let mut level: usize = 0;
        while level < self.num_levels
            invariant
                self.wf(),
                changed ==> exists|i: int| 0 <= i < level && differ_at(self@, start, i),
                !changed ==> forall|i: int| 0 <= i < level ==> !differ_at(self@, start, i),
                level <= self.num_levels == start.bids.len(),
                start.asks.len() == start.bids.len(),
                self@.bids.len() == start.bids.len(),
                self@.asks.len() == start.asks.len(),
                self@.ids == start.ids,
                self@.last_id == start.last_id,
                self@.amount_tick == start.amount_tick,
                forall|i: int|
                    #![trigger self@.bids[i]]
                    0 <= i < start.bids.len() ==> self@.bids[i] == if i < level {
                        settled(start.bids[i], Side::Buy, remote@, now)
                    } else {
                        start.bids[i]
                    },
                forall|i: int|
                    #![trigger self@.asks[i]]
                    0 <= i < start.asks.len() ==> self@.asks[i] == if i < level {
                        settled(start.asks[i], Side::Sell, remote@, now)
                    } else {
                        start.asks[i]
                    },
            decreases self.num_levels - level,
        {
            let bid: OrderSlot = settle(self.bids[level], Side::Buy, remote, now);
            let ask: OrderSlot = settle(self.asks[level], Side::Sell, remote, now);
            let here: bool = bid != self.bids[level] || ask != self.asks[level];
            let ghost before = self@;
            self.bids.set(level, bid);
            self.asks.set(level, ask);
            proof {
                assert forall|i: int| 0 <= i < level implies differ_at(self@, start, i)
                    == differ_at(before, start, i) by {
                    assert(self@.bids[i] == before.bids[i]);
                    assert(self@.asks[i] == before.asks[i]);
                }
                assert(before.bids[level as int] == start.bids[level as int]);
                assert(before.asks[level as int] == start.asks[level as int]);
                assert(differ_at(self@, start, level as int) == here);
                if changed {
                    let i = choose|i: int| 0 <= i < level && differ_at(before, start, i);
                    assert(differ_at(self@, start, i));
                }
            }
            changed = changed || here;
            level = level + 1;
            proof {
                if !changed {
                    assert forall|i: int| 0 <= i < level implies !differ_at(self@, start, i) by {
                        if i < level - 1 {
                            assert(!differ_at(before, start, i));
                        }
                    }
                }
            }
        }
        proof {
            let want = reconciled(old(self)@, remote@, now);
            assert(self@.bids =~= want.bids);
            assert(self@.asks =~= want.asks);
            if !changed {
                assert forall|i: int| 0 <= i < start.bids.len() implies self@.bids[i]
                    == start.bids[i] && self@.asks[i] == start.asks[i] by {
                    assert(!differ_at(self@, start, i));
                }
                assert(self@.bids =~= start.bids);
                assert(self@.asks =~= start.asks);
            }
        }
        changed
    }

    /// The operations that take every resting order with a known exchange id off the book. A
    /// slot that is already being cancelled gets no second cancel.
    pub fn collect_cancel_ops(&self) -> (r: Vec<BatchOp>)
        requires
            self.wf(),
        ensures
            r@ == cancels(self@, 2 * self@.bids.len()),
    {
        let mut ops: Vec<BatchOp> = Vec::new();
        let mut level: usize = 0;
        while level < self.num_levels
            invariant
                self.wf(),
                level <= self.num_levels,
                ops@ == cancels(self@, (2 * level) as nat),
            decreases self.num_levels - level,
        {
            let bid: Option<BatchOp> = self.cancel_cell(Side::Buy, level);
            if let Some(op) = bid {
                ops.push(op);
            }
            proof {
                assert(cell_slot(self@, (2 * level) as int) == slot_at(self@, Side::Buy, level as int));
                assert(ops@ == cancels(self@, (2 * level + 1) as nat));
            }
            let ask: Option<BatchOp> = self.cancel_cell(Side::Sell, level);
            if let Some(op) = ask {
                ops.push(op);
            }
            proof {
                assert(cell_slot(self@, 2 * level + 1) == slot_at(self@, Side::Sell, level as int));
                assert(ops@ == cancels(self@, (2 * level + 2) as nat));
            }
            level = level + 1;
        }
        ops
    }

    /// The operation that takes the order of one slot off the book.
    fn cancel_cell(&self, side: Side, level: usize) -> (r: Option<BatchOp>)
        requires
            self.wf(),
            level < self@.bids.len(),
        ensures
            r == ({
                let slot = slot_at(self@, side, level as int);
                match slot.order_id {
                    Some(cid) => if slot.status != SideStatus::Canceling
                        && self@.ids.contains_key(cid) {
                        Some(cancel_op(side, level as int, cid, self@.ids[cid]))
                    } else {
                        None
                    },
                    None => None,
                }
            }),
    {
        let slot: OrderSlot = self.slot(side, level);
        if slot.status == SideStatus::Canceling {
            return None;
        }
        match slot.order_id {
            Some(cid) => match self.resolve_exchange_id(cid) {
                Some(eid) => Some(cancel(side, level, cid, eid)),
                None => None,
            },
            None => None,
        }
    }

    /// Client ids of all tracked orders: the bids', then the asks'.
    pub fn tracked_client_ids(&self) -> (r: Vec<i64>)
        requires
            self.wf(),
        ensures
            r@ == tracked_ids(self@),
    {
        let mut ids: Vec<i64> = Vec::new();
        push_ids(&self.bids, &mut ids);
        push_ids(&self.asks, &mut ids);
        proof {
            assert(ids@ =~= tracked_ids(self@));
        }
        ids
    }

    /// Whether the tracked ids are the ones given.
    pub fn tracked_ids_equal(&self, prev: &Vec<i64>) -> (r: bool)
        requires
            self.wf(),
        ensures
            r == (tracked_ids(self@) == prev@),
    {
        match match_ids(&self.bids, prev, 0) {
            None => {
                proof {
                    lemma_prefix_concat(slot_ids(self@.bids), slot_ids(self@.asks), prev@);
                }
                false
            },
            Some(mid) => match match_ids(&self.asks, prev, mid) {
                None => {
                    proof {
                        lemma_prefix_split(slot_ids(self@.bids), slot_ids(self@.asks), prev@);
                    }
                    false
                },
                Some(end) => {
                    proof {
                        let all = tracked_ids(self@);
                        assert(prev@.subrange(0, end as int) =~= all);
                        if end == prev@.len() {
                            assert(prev@.subrange(0, end as int) =~= prev@);
                        }
                    }
                    end == prev.len()
                },
            },
        }
    }

    /// The status of a slot.
    pub fn slot_status(&self, side: Side, level: usize) -> (r: SideStatus)
        requires
            self.wf(),
            level < self@.bids.len(),
        ensures
            r == slot_at(self@, side, level as int).status,
    {
        self.slot(side, level).status
    }

    /// Nanoseconds since a slot was last updated.
    pub fn slot_age(&self, side: Side, level: usize, now: u64) -> (r: u64)
        requires
            self.wf(),
            level < self@.bids.len(),
        ensures
            r == ({
                let at = slot_at(self@, side, level as int).updated_at;
                if now >= at {
                    now - at
                } else {
                    0
                }
            }),
    {
        let at: u64 = self.slot(side, level).updated_at;
        if now >= at {
            now - at
        } else {
            0
        }
    }
}

/// A slot without an order.
fn idle(now: u64) -> (r: OrderSlot)
    ensures
        r == idle_slot(now),
{
    OrderSlot {
        status: SideStatus::Idle,
        order_id: None,
        price: None,
        size: None,
        updated_at: now,
        miss: 0,
    }
}

/// A slot whose order rests on the exchange.
fn bound(id: i64, price: Num, size: Num, now: u64) -> (r: OrderSlot)
    ensures
        r == bound_slot(id, price, size, now),
{
    OrderSlot {
        status: SideStatus::Live,
        order_id: Some(id),
        price: Some(price),
        size: Some(size),
        updated_at: now,
        miss: 0,
    }
}

/// The operation that cancels an order.
fn cancel(side: Side, level: usize, cid: i64, eid: i64) -> (r: BatchOp)
    ensures
        r == cancel_op(side, level as int, cid, eid),
{
    BatchOp {
        side,
        level,
        action: OrderAction::Cancel,
        price: Num::zero(),
        size: Num::zero(),
        client_order_id: cid,
        exchange_id: Some(eid),
        reduce_only: false,
    }
}

/// A row of empty slots.
fn idle_row(n: usize, now: u64) -> (r: Vec<OrderSlot>)
    ensures
        r@.len() == n,
        forall|i: int| 0 <= i < n ==> #[trigger] r@[i] == idle_slot(now),
{
    let mut row: Vec<OrderSlot> = Vec::new();
    while row.len() < n
        invariant
            row@.len() <= n,
            forall|i: int| 0 <= i < row@.len() ==> #[trigger] row@[i] == idle_slot(now),
        decreases n - row@.len(),
    {
        row.push(idle(now));
    }
    row
}

/// Appends the client ids of a row of slots.
fn push_ids(slots: &Vec<OrderSlot>, ids: &mut Vec<i64>)
    ensures
        final(ids)@ == old(ids)@ + slot_ids(slots@),
{
    let ghost start = ids@;
    let mut i: usize = 0;
    proof {
        assert(slots@.take(0) =~= Seq::empty());
        assert(ids@ =~= start + slot_ids(slots@.take(0)));
    }
    while i < slots.len()
        invariant
            i <= slots@.len(),
            ids@ == start + slot_ids(slots@.take(i as int)),
        decreases slots@.len() - i,
    {
        proof {
            assert(slots@.take(i + 1).drop_last() =~= slots@.take(i as int));
        }
        if let Some(id) = slots[i].order_id {
            ids.push(id);
        }
        i = i + 1;
        proof {
            assert(ids@ =~= start + slot_ids(slots@.take(i as int)));
        }
    }
    proof {
        assert(slots@.take(slots@.len() as int) =~= slots@);
    }
}

proof fn lemma_slot_ids_prefix(slots: Seq<OrderSlot>, n: int)
    requires
        0 <= n <= slots.len(),
    ensures
        slot_ids(slots.take(n)).len() <= slot_ids(slots).len(),
        slot_ids(slots.take(n)) == slot_ids(slots).take(slot_ids(slots.take(n)).len() as int),
    decreases slots.len() - n,
{
    if n < slots.len() {
        lemma_slot_ids_prefix(slots, n + 1);
        assert(slots.take(n + 1).drop_last() =~= slots.take(n));
        assert(slot_ids(slots.take(n)) =~= slot_ids(slots).take(
            slot_ids(slots.take(n)).len() as int,
        ));
    } else {
        assert(slots.take(n) =~= slots);
        assert(slot_ids(slots) =~= slot_ids(slots).take(slot_ids(slots).len() as int));
    }
}

/// Whether the client ids of a row of slots stand in `prev` from index `from` on; the index
/// behind them if so.
fn match_ids(slots: &Vec<OrderSlot>, prev: &Vec<i64>, from: usize) -> (r: Option<usize>)
    requires
        from <= prev@.len(),
    ensures
        match r {
            Some(end) => end <= prev@.len() && end == from + slot_ids(slots@).len()
                && prev@.subrange(from as int, end as int) == slot_ids(slots@),
            None => !slot_ids(slots@).is_prefix_of(prev@.subrange(from as int, prev@.len() as int)),
        },
{
    let mut i: usize = 0;
    let mut at: usize = from;
    proof {
        assert(slots@.take(0) =~= Seq::empty());
        assert(prev@.subrange(from as int, from as int) =~= Seq::empty());
    }
    while i < slots.len()
        invariant
            i <= slots@.len(),
            from <= at <= prev@.len(),
            at == from + slot_ids(slots@.take(i as int)).len(),
            prev@.subrange(from as int, at as int) == slot_ids(slots@.take(i as int)),
        decreases slots@.len() - i,
    {
        let ghost done = slot_ids(slots@.take(i as int));
        proof {
            assert(slots@.take(i + 1).drop_last() =~= slots@.take(i as int));
            lemma_slot_ids_prefix(slots@, i + 1);
        }
        if let Some(id) = slots[i].order_id {
            proof {
                assert(slot_ids(slots@.take(i + 1)) == done.push(id));
                let upto = slot_ids(slots@.take(i + 1));
                assert(upto[done.len() as int] == id);
                assert(slot_ids(slots@).take(upto.len() as int)[done.len() as int] == id);
            }
            if at >= prev.len() || prev[at] != id {
                proof {
                    let rest = prev@.subrange(from as int, prev@.len() as int);
                    if slot_ids(slots@).is_prefix_of(rest) {
                        assert(rest[done.len() as int] == id);
                        assert(rest[done.len() as int] == prev@[at as int]);
                        assert(false);
                    }
                }
                return None;
            }
            proof {
                assert(prev@.subrange(from as int, at + 1) =~= prev@.subrange(
                    from as int,
                    at as int,
                ).push(id));
            }
            at = at + 1;
        }
        i = i + 1;
    }
    proof {
        assert(slots@.take(slots@.len() as int) =~= slots@);
    }
    Some(at)
}

proof fn lemma_prefix_concat(a: Seq<i64>, b: Seq<i64>, p: Seq<i64>)
    requires
        !a.is_prefix_of(p.subrange(0, p.len() as int)),
    ensures
        a + b != p,
{
    if a + b == p {
        assert(p.subrange(0, p.len() as int) =~= p);
        assert(a =~= p.subrange(0, a.len() as int));
    }
}

proof fn lemma_prefix_split(a: Seq<i64>, b: Seq<i64>, p: Seq<i64>)
    requires
        a.len() <= p.len(),
        !b.is_prefix_of(p.subrange(a.len() as int, p.len() as int)),
    ensures
        a + b != p,
{
    if a + b == p {
        assert(b =~= p.subrange(a.len() as int, p.len() as int).subrange(0, b.len() as int));
    }
}

/// Whether a snapshot shows the order as resting.
fn shows_live(remote: &Vec<RemoteOrder>, cid: i64) -> (r: bool)
    ensures
        r == seen_live(remote@, cid),
{
    let mut i: usize = 0;
    while i < remote.len()
        invariant
            i <= remote@.len(),
            forall|j: int|
                0 <= j < i ==> !(#[trigger] remote@[j].live() && remote@[j].client_order_index
                    == Some(cid)),
        decreases remote@.len() - i,
    {
        let o: &RemoteOrder = &remote[i];
        if o.is_live() && o.client_order_index == Some(cid) {
            return true;
        }
        i = i + 1;
    }
    false
}

/// The last order of a snapshot with the given client id.
fn find_last<'a>(remote: &'a Vec<RemoteOrder>, cid: i64) -> (r: Option<&'a RemoteOrder>)
    ensures
        match r {
            Some(o) => last_with(remote@, cid) == Some(*o),
            None => last_with(remote@, cid) is None,
        },
{
    let mut i: usize = remote.len();
    proof {
        assert(remote@.take(remote@.len() as int) =~= remote@);
    }
    while i > 0
        invariant
            i <= remote@.len(),
            last_with(remote@, cid) == last_with(remote@.take(i as int), cid),
        decreases i,
    {
        proof {
            assert(remote@.take(i as int).drop_last() =~= remote@.take(i - 1));
        }
        if remote[i - 1].client_order_index == Some(cid) {
            return Some(&remote[i - 1]);
        }
        i = i - 1;
    }
    None
}

/// What a snapshot makes of a slot.
fn settle(slot: OrderSlot, side: Side, remote: &Vec<RemoteOrder>, now: u64) -> (r: OrderSlot)
    ensures
        r == settled(slot, side, remote@, now),
{
    let cid: i64 = match slot.order_id {
        None => {
            return slot;
        },
        Some(cid) => cid,
    };
    let checked: OrderSlot = if shows_live(remote, cid) {
        OrderSlot { miss: 0, ..slot }
    } else {
        let miss: u32 = slot.miss.saturating_add(1);
        let aged: bool = now >= slot.updated_at && now - slot.updated_at >= RECONCILE_GRACE_NS;
        if miss >= MISSING_RECONCILE_DEBOUNCE && aged {
            return idle(now);
        }
        OrderSlot { miss, ..slot }
    };
    match find_last(remote, cid) {
        None => checked,
        Some(o) => {
            let mismatch: bool = match side {
                Side::Buy => o.is_ask == Some(true),
                Side::Sell => o.is_ask == Some(false),
            };
            if mismatch || !o.is_live() {
                return checked;
            }
            let price: Option<Num> = if o.price.is_some() { o.price } else { checked.price };
            let size: Option<Num> = if o.remaining_base_amount.is_some() {
                o.remaining_base_amount
            } else {
                checked.size
            };
            match (price, size) {
                (Some(p), Some(s)) => bound(cid, p, s, now),
                _ => OrderSlot { status: SideStatus::Live, updated_at: now, ..checked },
            }
        },
    }
}

} // verus!
