//! Laws of order tracking: what holds over several steps of the tracker.
use vstd::prelude::*;
use crate::exec::id_map::{newer, pruned, recorded, ID_MAP_CAP, ID_MAP_RECENT};
use crate::exec::order_manager::{
    after_event, cancels, cell_cancel, cell_op, cell_quote, cell_side, cell_slot, event_fits,
    filled_slot, holder, idle_slot, last_with, next_id, other_side, pending_slot, planned, reconciled,
    seen_live, settled, slot_at, slot_ids, tracked_ids, with_slot, Cycle, OrderSlot, Orders,
    SideQuote, MAX_CLIENT_ORDER_INDEX, RECONCILE_GRACE_NS,
};
use crate::lighter::messages::RemoteOrder;
use crate::num::{larger, spec_epsilon, Num};
use crate::types::{BatchOp, OrderAction, OrderEvent, Side, SideStatus};

verus! {

/// A client order id lies in its 48-bit range and is never the wildcard 0. It lies above the id
/// handed out just before, or is 1 where that was the last of the range.
pub proof fn client_ids_are_fresh(last: int, now_ns: int)
    requires
        0 <= last <= MAX_CLIENT_ORDER_INDEX,
    ensures
        1 <= next_id(last, now_ns) <= MAX_CLIENT_ORDER_INDEX,
        last < MAX_CLIENT_ORDER_INDEX ==> last < next_id(last, now_ns),
        last == MAX_CLIENT_ORDER_INDEX ==> next_id(last, now_ns) == 1,
{
    if last < MAX_CLIENT_ORDER_INDEX {
        assert((last + 1) % (MAX_CLIENT_ORDER_INDEX + 1) == last + 1);
    }
}

/// The cell of an operation.
pub open spec fn op_cell(op: BatchOp) -> int {
    2 * op.level + if op.side == Side::Buy { 0int } else { 1int }
}

/// What every planned operation has to do with its slot: a create is for an empty slot, and a
/// modify or a cancel names the slot's own order by the exchange id recorded for it.
pub open spec fn op_fits(s: Orders, op: BatchOp) -> bool {
    let slot = slot_at(s, op.side, op.level as int);
    match op.action {
        OrderAction::Create => slot.order_id is None && op.exchange_id is None,
        _ => slot.order_id == Some(op.client_order_id) && s.ids.contains_key(op.client_order_id)
            && op.exchange_id == Some(s.ids[op.client_order_id]),
    }
}

/// Every planned operation fits its slot, belongs to one of the visited cells, and is the only
/// one for its cell.
pub proof fn operations_fit_their_slots(
    s: Orders,
    quotes: Seq<(Option<SideQuote>, Option<SideQuote>)>,
    c: Cycle,
    cells: nat,
)
    requires
        cells <= 2 * quotes.len(),
        quotes.len() <= usize::MAX,
    ensures
        ({
            let ops = planned(s, quotes, c, cells).0;
            &&& forall|i: int|
                0 <= i < ops.len() ==> op_fits(s, #[trigger] ops[i]) && 0 <= op_cell(ops[i])
                    < cells
            &&& forall|i: int, j: int|
                0 <= i < j < ops.len() ==> op_cell(#[trigger] ops[i]) < op_cell(#[trigger] ops[j])
        }),
    decreases cells,
{
    if cells > 0 {
        operations_fit_their_slots(s, quotes, c, (cells - 1) as nat);
        let cell = cells - 1;
        let last = planned(s, quotes, c, cell as nat).1;
        let found = cell_op(
            cell_slot(s, cell),
            s.ids,
            s.amount_tick,
            last,
            cell_side(cell),
            cell / 2,
            cell_quote(quotes, cell),
            c,
        );
        if let Some(op) = found {
            assert(op.level == cell / 2 && op.side == cell_side(cell));
            assert(op_cell(op) == cell);
            assert(op_fits(s, op));
        }
    }
}

/// While mutations are held, every planned operation is a create.
pub proof fn held_cycle_only_creates(
    s: Orders,
    quotes: Seq<(Option<SideQuote>, Option<SideQuote>)>,
    c: Cycle,
    cells: nat,
)
    requires
        c.hold,
    ensures
        forall|i: int|
            0 <= i < planned(s, quotes, c, cells).0.len() ==> (#[trigger] planned(
                s,
                quotes,
                c,
                cells,
            ).0[i]).action == OrderAction::Create,
    decreases cells,
{
    if cells > 0 {
        held_cycle_only_creates(s, quotes, c, (cells - 1) as nat);
    }
}

/// Holding mutations takes nothing from the creates: a quote for an empty slot gives the same
/// operation with and without the hold.
pub proof fn hold_spares_creates(
    slot: OrderSlot,
    ids: Map<i64, i64>,
    tick: Num,
    last: int,
    side: Side,
    level: int,
    quote: Option<SideQuote>,
    c: Cycle,
)
    requires
        slot.order_id is None,
    ensures
        cell_op(slot, ids, tick, last, side, level, quote, c) == cell_op(
            slot,
            ids,
            tick,
            last,
            side,
            level,
            quote,
            (Cycle { hold: !c.hold, ..c }),
        ),
{
}

/// The state once every operation of a batch was marked pending.
pub open spec fn all_pending(s: Orders, ops: Seq<BatchOp>, now: u64) -> Orders
    decreases ops.len(),
{
    if ops.len() == 0 {
        s
    } else {
        let t = all_pending(s, ops.drop_last(), now);
        let op = ops.last();
        with_slot(
            t,
            op.side,
            op.level as int,
            pending_slot(slot_at(t, op.side, op.level as int), op, now),
        )
    }
}

/// Whether every operation names an existing slot.
pub open spec fn ops_in_range(s: Orders, ops: Seq<BatchOp>) -> bool {
    forall|i: int| 0 <= i < ops.len() ==> (#[trigger] ops[i]).level < s.bids.len()
}

/// Marking a batch pending frees no slot, and takes the slot of each of its creates.
pub proof fn pending_keeps_slots_taken(s: Orders, ops: Seq<BatchOp>, now: u64)
    requires
        s.bids.len() == s.asks.len(),
        ops_in_range(s, ops),
    ensures
        ({
            let t = all_pending(s, ops, now);
            &&& t.bids.len() == s.bids.len()
            &&& t.asks.len() == s.asks.len()
            &&& t.ids == s.ids
            &&& forall|side: Side, level: int|
                0 <= level < s.bids.len() && (#[trigger] slot_at(s, side, level)).order_id is Some
                    ==> slot_at(t, side, level).order_id is Some
            &&& forall|i: int|
                0 <= i < ops.len() && (#[trigger] ops[i]).action == OrderAction::Create ==> slot_at(
                    t,
                    ops[i].side,
                    ops[i].level as int,
                ).order_id is Some
        }),
    decreases ops.len(),
{
    if ops.len() > 0 {
        let before = ops.drop_last();
        assert(ops_in_range(s, before)) by {
            assert forall|i: int| 0 <= i < before.len() implies (#[trigger] before[i]).level
                < s.bids.len() by {
                assert(before[i] == ops[i]);
            }
        }
        pending_keeps_slots_taken(s, before, now);
        let t = all_pending(s, before, now);
        let u = all_pending(s, ops, now);
        let op = ops.last();
        assert(op == ops[ops.len() - 1]);
        assert forall|side: Side, level: int|
            0 <= level < s.bids.len() && (#[trigger] slot_at(t, side, level)).order_id is Some implies slot_at(
            u,
            side,
            level,
        ).order_id is Some by {}
        assert forall|i: int|
            0 <= i < ops.len() && (#[trigger] ops[i]).action == OrderAction::Create implies slot_at(
            u,
            ops[i].side,
            ops[i].level as int,
        ).order_id is Some by {
            if i < ops.len() - 1 {
                assert(before[i] == ops[i]);
                assert(slot_at(t, ops[i].side, ops[i].level as int).order_id is Some);
            }
        }
        assert forall|side: Side, level: int|
            0 <= level < s.bids.len() && (#[trigger] slot_at(s, side, level)).order_id is Some implies slot_at(
            u,
            side,
            level,
        ).order_id is Some by {
            assert(slot_at(t, side, level).order_id is Some);
        }
    }
}

/// No order is ever placed twice: once the operations of a cycle were marked pending, no later
/// cycle, whatever its quotes, creates an order in a slot that one of them was for.
pub proof fn no_second_create(
    s: Orders,
    quotes: Seq<(Option<SideQuote>, Option<SideQuote>)>,
    c: Cycle,
    now: u64,
    later: Seq<(Option<SideQuote>, Option<SideQuote>)>,
    d: Cycle,
    i: int,
    j: int,
)
    requires
        s.bids.len() == s.asks.len(),
        s.bids.len() <= usize::MAX,
        quotes.len() <= s.bids.len(),
        later.len() <= s.bids.len(),
        ({
            let ops = planned(s, quotes, c, 2 * quotes.len()).0;
            let again = planned(all_pending(s, ops, now), later, d, 2 * later.len()).0;
            &&& 0 <= i < ops.len()
            &&& 0 <= j < again.len()
            &&& again[j].side == ops[i].side
            &&& again[j].level == ops[i].level
        }),
    ensures
        ({
            let ops = planned(s, quotes, c, 2 * quotes.len()).0;
            planned(all_pending(s, ops, now), later, d, 2 * later.len()).0[j].action
                != OrderAction::Create
        }),
{
    let ops = planned(s, quotes, c, 2 * quotes.len()).0;
    operations_fit_their_slots(s, quotes, c, 2 * quotes.len());
    assert(ops_in_range(s, ops)) by {
        assert forall|k: int| 0 <= k < ops.len() implies (#[trigger] ops[k]).level
            < s.bids.len() by {
            assert(op_cell(ops[k]) < 2 * quotes.len());
        }
    }
    pending_keeps_slots_taken(s, ops, now);
    let t = all_pending(s, ops, now);
    operations_fit_their_slots(t, later, d, 2 * later.len());
    let again = planned(t, later, d, 2 * later.len()).0;
    let op = ops[i];
    assert(op_fits(s, op));
    assert(slot_at(t, op.side, op.level as int).order_id is Some) by {
        if op.action != OrderAction::Create {
            assert(slot_at(s, op.side, op.level as int).order_id is Some);
        }
    }
    assert(op_fits(t, again[j]));
}

/// How many of the operations are creates.
pub open spec fn create_count(ops: Seq<BatchOp>) -> nat
    decreases ops.len(),
{
    if ops.len() == 0 {
        0
    } else {
        create_count(ops.drop_last()) + if ops.last().action == OrderAction::Create {
            1nat
        } else {
            0nat
        }
    }
}

/// The id of the `k`-th create of a cycle, counted from 1, after the id `last`: the ids ascend
/// from the one drawn from the clock, or from `last` where that is no lower, to the end of the
/// range; then comes 1, and then they ascend from the one drawn again.
spec fn nth_id(last: int, now_ns: int, k: int) -> int {
    let drawn = now_ns % (MAX_CLIENT_ORDER_INDEX as int);
    let base = if last < drawn {
        drawn - 1
    } else {
        last
    };
    let past = base + k - MAX_CLIENT_ORDER_INDEX;
    if k == 0 {
        last
    } else if past <= 0 {
        base + k
    } else if past == 1 || drawn <= 1 {
        past
    } else {
        drawn + past - 2
    }
}

/// As many creates as give different ids in one cycle: those from the id drawn from the clock to
/// the end of the range and one more, where that is no more than the range holds.
pub open spec fn distinct_room(now_ns: int) -> int {
    let drawn = now_ns % (MAX_CLIENT_ORDER_INDEX as int);
    if drawn <= 2 {
        MAX_CLIENT_ORDER_INDEX as int
    } else {
        MAX_CLIENT_ORDER_INDEX - drawn + 2
    }
}

/// The id after the `k`-th is the one that [`next_id`] gives.
proof fn lemma_nth_id_steps(last: int, now_ns: int, k: int)
    requires
        0 <= last <= MAX_CLIENT_ORDER_INDEX,
        0 <= k < distinct_room(now_ns),
    ensures
        0 <= nth_id(last, now_ns, k) <= MAX_CLIENT_ORDER_INDEX,
        nth_id(last, now_ns, k + 1) == next_id(nth_id(last, now_ns, k), now_ns),
{
    let at = nth_id(last, now_ns, k);
    let drawn = now_ns % (MAX_CLIENT_ORDER_INDEX as int);
    assert(0 <= drawn < MAX_CLIENT_ORDER_INDEX);
    if at < MAX_CLIENT_ORDER_INDEX {
        assert((at + 1) % (MAX_CLIENT_ORDER_INDEX + 1) == at + 1);
    } else {
        assert((at + 1) % (MAX_CLIENT_ORDER_INDEX + 1) == 0);
    }
}

/// Each create has the id of its place among the creates.
proof fn lemma_create_ids(
    s: Orders,
    quotes: Seq<(Option<SideQuote>, Option<SideQuote>)>,
    c: Cycle,
    cells: nat,
)
    requires
        0 <= s.last_id <= MAX_CLIENT_ORDER_INDEX,
        create_count(planned(s, quotes, c, cells).0) <= distinct_room(c.now_ns),
    ensures
        ({
            let (ops, last) = planned(s, quotes, c, cells);
            &&& last == nth_id(s.last_id, c.now_ns, create_count(ops) as int)
            &&& forall|i: int|
                0 <= i < ops.len() && (#[trigger] ops[i]).action == OrderAction::Create ==> {
                    let k = create_count(ops.take(i + 1));
                    &&& 1 <= k <= create_count(ops)
                    &&& ops[i].client_order_id == nth_id(s.last_id, c.now_ns, k as int)
                }
        }),
    decreases cells,
{
    if cells > 0 {
        let (before, at) = planned(s, quotes, c, (cells - 1) as nat);
        let (ops, last) = planned(s, quotes, c, cells);
        if ops.len() > before.len() {
            assert(ops.drop_last() =~= before);
        }
        lemma_create_ids(s, quotes, c, (cells - 1) as nat);
        assert forall|i: int|
            0 <= i < before.len() implies #[trigger] ops.take(i + 1) == before.take(i + 1) by {
            assert(ops.take(i + 1) =~= before.take(i + 1));
        }
        if ops.len() > before.len() && ops.last().action == OrderAction::Create {
            let k = create_count(before) as int;
            assert(ops.take(ops.len() as int) =~= ops);
            lemma_nth_id_steps(s.last_id, c.now_ns, k);
            client_ids_are_fresh(at, c.now_ns);
        }
        assert forall|i: int|
            0 <= i < ops.len() && (#[trigger] ops[i]).action == OrderAction::Create implies {
            let k = create_count(ops.take(i + 1));
            &&& 1 <= k <= create_count(ops)
            &&& ops[i].client_order_id == nth_id(s.last_id, c.now_ns, k as int)
        } by {
            if i < before.len() {
                assert(ops[i] == before[i]);
                assert(ops.take(i + 1) == before.take(i + 1));
            }
        }
    }
}

/// Of two creates, the later one has the higher place.
proof fn lemma_places_ascend(ops: Seq<BatchOp>, i: int, j: int)
    requires
        0 <= i < j < ops.len(),
        ops[j].action == OrderAction::Create,
    ensures
        create_count(ops.take(i + 1)) < create_count(ops.take(j + 1)),
{
    assert(ops.take(j + 1).drop_last() =~= ops.take(j));
    lemma_count_grows(ops, i + 1, j);
}

proof fn lemma_count_grows(ops: Seq<BatchOp>, a: int, b: int)
    requires
        0 <= a <= b <= ops.len(),
    ensures
        create_count(ops.take(a)) <= create_count(ops.take(b)),
    decreases b,
{
    if a < b {
        assert(ops.take(b).drop_last() =~= ops.take(b - 1));
        lemma_count_grows(ops, a, b - 1);
    }
}

/// A cycle has one create for a cell at most.
pub proof fn creates_fit_the_cells(
    s: Orders,
    quotes: Seq<(Option<SideQuote>, Option<SideQuote>)>,
    c: Cycle,
    cells: nat,
)
    ensures
        create_count(planned(s, quotes, c, cells).0) <= cells,
    decreases cells,
{
    if cells > 0 {
        creates_fit_the_cells(s, quotes, c, (cells - 1) as nat);
        let before = planned(s, quotes, c, (cells - 1) as nat).0;
        let ops = planned(s, quotes, c, cells).0;
        if ops.len() > before.len() {
            assert(ops.drop_last() =~= before);
        }
    }
}

/// The client ids of the creates of one cycle ascend from the last id handed out, as long as they
/// do not pass the end of the id range: while there is room for the creates above that last id,
/// and from the id drawn from the clock on.
pub proof fn create_ids_ascend(
    s: Orders,
    quotes: Seq<(Option<SideQuote>, Option<SideQuote>)>,
    c: Cycle,
    cells: nat,
)
    requires
        0 <= s.last_id,
        s.last_id + create_count(planned(s, quotes, c, cells).0) <= MAX_CLIENT_ORDER_INDEX,
        c.now_ns % (MAX_CLIENT_ORDER_INDEX as int) + create_count(planned(s, quotes, c, cells).0)
            <= MAX_CLIENT_ORDER_INDEX + 1,
    ensures
        ({
            let (ops, last) = planned(s, quotes, c, cells);
            &&& s.last_id <= last <= MAX_CLIENT_ORDER_INDEX
            &&& forall|i: int|
                0 <= i < ops.len() && (#[trigger] ops[i]).action == OrderAction::Create
                    ==> s.last_id < ops[i].client_order_id <= last
            &&& forall|i: int, j: int|
                0 <= i < j < ops.len() && (#[trigger] ops[i]).action == OrderAction::Create && (
                #[trigger] ops[j]).action == OrderAction::Create ==> ops[i].client_order_id
                    < ops[j].client_order_id
        }),
{
    let ops = planned(s, quotes, c, cells).0;
    lemma_create_ids(s, quotes, c, cells);
    assert forall|i: int, j: int|
        0 <= i < j < ops.len() && (#[trigger] ops[i]).action == OrderAction::Create && (
        #[trigger] ops[j]).action == OrderAction::Create implies ops[i].client_order_id
        < ops[j].client_order_id by {
        lemma_places_ascend(ops, i, j);
    }
}

/// The client ids of the creates of one cycle are in range, never 0, and no two of them are the
/// same, for as many creates as there are ids to draw from. The last id handed out before may be
/// anything: past the end of the range the ids start over, and do not catch up with those before
/// the end.
pub proof fn create_ids_differ(
    s: Orders,
    quotes: Seq<(Option<SideQuote>, Option<SideQuote>)>,
    c: Cycle,
    cells: nat,
)
    requires
        0 <= s.last_id <= MAX_CLIENT_ORDER_INDEX,
        create_count(planned(s, quotes, c, cells).0) <= distinct_room(c.now_ns),
    ensures
        ({
            let ops = planned(s, quotes, c, cells).0;
            &&& forall|i: int|
                0 <= i < ops.len() && (#[trigger] ops[i]).action == OrderAction::Create ==> 1
                    <= ops[i].client_order_id <= MAX_CLIENT_ORDER_INDEX
            &&& forall|i: int, j: int|
                0 <= i < j < ops.len() && (#[trigger] ops[i]).action == OrderAction::Create && (
                #[trigger] ops[j]).action == OrderAction::Create ==> ops[i].client_order_id
                    != ops[j].client_order_id
        }),
{
    let ops = planned(s, quotes, c, cells).0;
    lemma_create_ids(s, quotes, c, cells);
    assert forall|i: int, j: int|
        0 <= i < j < ops.len() && (#[trigger] ops[i]).action == OrderAction::Create && (
        #[trigger] ops[j]).action == OrderAction::Create implies ops[i].client_order_id
        != ops[j].client_order_id by {
        lemma_places_ascend(ops, i, j);
    }
}

proof fn lemma_slot_ids_len(slots: Seq<OrderSlot>)
    ensures
        slot_ids(slots).len() <= slots.len(),
    decreases slots.len(),
{
    if slots.len() > 0 {
        lemma_slot_ids_len(slots.drop_last());
    }
}

proof fn lemma_holder_in_range(s: Orders, cid: i64, cell: int)
    requires
        0 <= cell,
    ensures
        holder(s, cid, cell) matches Some(c) ==> cell <= c < 2 * s.bids.len(),
    decreases 2 * s.bids.len() - cell,
{
    if cell < 2 * s.bids.len() && cell_slot(s, cell).order_id != Some(cid) {
        lemma_holder_in_range(s, cid, cell + 1);
    }
}

/// Never more orders are tracked than the ladder has slots, and neither an event nor a snapshot
/// adds a slot.
pub proof fn orders_fit_the_ladder(
    s: Orders,
    evt: OrderEvent,
    remaining: Option<Num>,
    remote: Seq<RemoteOrder>,
    now: u64,
)
    requires
        s.bids.len() == s.asks.len(),
        event_fits(s, evt),
    ensures
        tracked_ids(s).len() <= 2 * s.bids.len(),
        tracked_ids(after_event(s, evt, remaining, now)).len() <= 2 * s.bids.len(),
        tracked_ids(reconciled(s, remote, now)).len() <= 2 * s.bids.len(),
{
    lemma_slot_ids_len(s.bids);
    lemma_slot_ids_len(s.asks);
    let t = after_event(s, evt, remaining, now);
    if let OrderEvent::Fill { client_order_id, .. } = evt {
        lemma_holder_in_range(s, client_order_id, 0);
    }
    lemma_slot_ids_len(t.bids);
    lemma_slot_ids_len(t.asks);
    let u = reconciled(s, remote, now);
    lemma_slot_ids_len(u.bids);
    lemma_slot_ids_len(u.asks);
}

/// A late report that an order left the book does not touch a newer order in the same slot.
pub proof fn late_clear_spares_newer_order(
    s: Orders,
    side: Side,
    level: usize,
    gone: i64,
    remaining: Option<Num>,
    now: u64,
)
    requires
        gone != 0,
        slot_at(s, side, level as int).order_id != Some(gone),
    ensures
        after_event(
            s,
            (OrderEvent::ClearLive { side, level, client_order_id: gone }),
            remaining,
            now,
        ) == s,
{
}

/// Learning an exchange id changes no slot.
pub proof fn id_resolution_touches_no_slot(
    s: Orders,
    cid: i64,
    eid: i64,
    remaining: Option<Num>,
    now: u64,
)
    ensures
        ({
            let t = after_event(
                s,
                (OrderEvent::IdResolved { client_order_id: cid, exchange_id: eid }),
                remaining,
                now,
            );
            t.bids == s.bids && t.asks == s.asks && t.last_id == s.last_id
        }),
{
}

/// One snapshot without it never frees the slot of an order that the previous snapshot, or an
/// event since then, has shown: only repeated absence does.
pub proof fn one_missing_snapshot_frees_nothing(
    slot: OrderSlot,
    side: Side,
    remote: Seq<RemoteOrder>,
    now: u64,
)
    requires
        slot.order_id is Some,
        slot.miss == 0,
    ensures
        settled(slot, side, remote, now).order_id == slot.order_id,
{
}

/// A slot that was updated within the grace period is not freed by any snapshot.
pub proof fn fresh_slots_survive_snapshots(
    slot: OrderSlot,
    side: Side,
    remote: Seq<RemoteOrder>,
    now: u64,
)
    requires
        slot.order_id is Some,
        now < slot.updated_at + RECONCILE_GRACE_NS,
    ensures
        settled(slot, side, remote, now).order_id == slot.order_id,
{
}

/// An order that a snapshot shows as resting keeps its slot, and its absence count restarts.
pub proof fn resting_orders_keep_their_slots(
    slot: OrderSlot,
    side: Side,
    remote: Seq<RemoteOrder>,
    now: u64,
    cid: i64,
)
    requires
        slot.order_id == Some(cid),
        seen_live(remote, cid),
    ensures
        settled(slot, side, remote, now).order_id == Some(cid),
        settled(slot, side, remote, now).miss == 0,
{
}

/// Two snapshots in a row that do not show the order as resting free its slot once the grace period
/// is over, whether they leave it out or report it as filled, cancelled or expired.
pub proof fn absence_frees_the_slot(
    slot: OrderSlot,
    side: Side,
    first: Seq<RemoteOrder>,
    second: Seq<RemoteOrder>,
    t0: u64,
    t1: u64,
    cid: i64,
)
    requires
        slot.order_id == Some(cid),
        !seen_live(first, cid),
        !seen_live(second, cid),
        slot.updated_at + RECONCILE_GRACE_NS <= t1,
    ensures
        settled(settled(slot, side, first, t0), side, second, t1).order_id is None,
{
    lemma_unseen(first, cid);
    lemma_unseen(second, cid);
}

proof fn lemma_unseen(remote: Seq<RemoteOrder>, cid: i64)
    requires
        !seen_live(remote, cid),
    ensures
        last_with(remote, cid) matches Some(o) ==> !o.live(),
    decreases remote.len(),
{
    if remote.len() > 0 {
        let rest = remote.drop_last();
        assert(remote.last() == remote[remote.len() - 1]);
        if seen_live(rest, cid) {
            let i = choose|i: int|
                0 <= i < rest.len() && #[trigger] rest[i].live() && rest[i].client_order_index
                    == Some(cid);
            assert(remote[i].live());
        }
        lemma_unseen(rest, cid);
    }
}

/// Whether a snapshot shows an order at most once, and not on the other side.
pub open spec fn shown_once(remote: Seq<RemoteOrder>, side: Side, cid: i64) -> bool {
    &&& forall|i: int, j: int|
        0 <= i < j < remote.len() && (#[trigger] remote[i]).client_order_index == Some(cid)
            ==> (#[trigger] remote[j]).client_order_index != Some(cid)
    &&& forall|i: int|
        0 <= i < remote.len() && (#[trigger] remote[i]).client_order_index == Some(cid)
            ==> !other_side(side, remote[i])
}

proof fn lemma_shown(remote: Seq<RemoteOrder>, side: Side, cid: i64)
    requires
        shown_once(remote, side, cid),
        seen_live(remote, cid),
    ensures
        last_with(remote, cid) matches Some(o) && o.live() && !other_side(side, o),
    decreases remote.len(),
{
    let k = choose|k: int|
        0 <= k < remote.len() && #[trigger] remote[k].live() && remote[k].client_order_index
            == Some(cid);
    let rest = remote.drop_last();
    assert(remote.last() == remote[remote.len() - 1]);
    if remote.last().client_order_index != Some(cid) {
        assert(rest[k] == remote[k]);
        assert(rest[k].live());
        assert forall|i: int, j: int|
            0 <= i < j < rest.len() && (#[trigger] rest[i]).client_order_index == Some(
                cid,
            ) implies (#[trigger] rest[j]).client_order_index != Some(cid) by {
            assert(remote[i] == rest[i] && remote[j] == rest[j]);
        }
        assert forall|i: int|
            0 <= i < rest.len() && (#[trigger] rest[i]).client_order_index == Some(
                cid,
            ) implies !other_side(side, rest[i]) by {
            assert(remote[i] == rest[i]);
        }
        lemma_shown(rest, side, cid);
    } else {
        assert(k == remote.len() - 1) by {
            if k < remote.len() - 1 {
                assert(remote[k].client_order_index == Some(cid));
                assert(remote[remote.len() - 1].client_order_index == Some(cid));
            }
        }
    }
}

/// No order stays in between: after two snapshots, the second one past the grace period, a slot
/// that was being placed, moved or cancelled holds an order that rests, or is free.
pub proof fn two_snapshots_settle_a_slot(
    slot: OrderSlot,
    side: Side,
    first: Seq<RemoteOrder>,
    second: Seq<RemoteOrder>,
    t0: u64,
    t1: u64,
    cid: i64,
)
    requires
        slot.order_id == Some(cid),
        shown_once(first, side, cid),
        shown_once(second, side, cid),
        slot.updated_at + RECONCILE_GRACE_NS <= t1,
    ensures
        ({
            let end = settled(settled(slot, side, first, t0), side, second, t1);
            end.status == SideStatus::Live || end.status == SideStatus::Idle
        }),
{
    if seen_live(first, cid) {
        lemma_shown(first, side, cid);
    } else {
        lemma_unseen(first, cid);
    }
    if seen_live(second, cid) {
        lemma_shown(second, side, cid);
    } else {
        lemma_unseen(second, cid);
    }
}

/// A fill frees the slot when no more than a tick remains, and otherwise keeps the order in it
/// with the remaining size.
pub proof fn fills_shrink_or_free(slot: OrderSlot, tick: Num, left: Num, now: u64)
    requires
        slot.size is Some,
    ensures
        larger(tick, spec_epsilon()).below(left) ==> filled_slot(slot, tick, Some(left), now)
            == (OrderSlot { size: Some(left), updated_at: now, miss: 0, ..slot }),
        !larger(tick, spec_epsilon()).below(left) ==> filled_slot(slot, tick, Some(left), now)
            == idle_slot(now),
{
}

/// Repeating the sweep emits nothing: once its cancels were marked pending, a second sweep
/// finds no order to cancel.
pub proof fn sweep_is_not_repeated(s: Orders, now: u64)
    requires
        s.bids.len() == s.asks.len(),
        s.bids.len() <= usize::MAX,
    ensures
        cancels(
            all_pending(s, cancels(s, 2 * s.bids.len()), now),
            2 * s.bids.len(),
        ) == Seq::<BatchOp>::empty(),
{
    let n = 2 * s.bids.len();
    lemma_sweep(s, n, now);
    lemma_nothing_left(all_pending(s, cancels(s, n), now), n);
}

proof fn lemma_sweep(s: Orders, cells: nat, now: u64)
    requires
        s.bids.len() == s.asks.len(),
        s.bids.len() <= usize::MAX,
        cells <= 2 * s.bids.len(),
    ensures
        ({
            let t = all_pending(s, cancels(s, cells), now);
            &&& t.bids.len() == s.bids.len()
            &&& t.asks.len() == s.asks.len()
            &&& t.ids == s.ids
            &&& forall|cell: int|
                0 <= cell < cells ==> cell_cancel(t, cell) is None
            &&& forall|cell: int|
                cells <= cell < 2 * s.bids.len() ==> cell_slot(t, cell) == cell_slot(s, cell)
        }),
    decreases cells,
{
    if cells > 0 {
        let k = (cells - 1) as nat;
        lemma_sweep(s, k, now);
        let ops = cancels(s, k);
        let t = all_pending(s, ops, now);
        match cell_cancel(s, k as int) {
            Some(op) => {
                let all = cancels(s, cells);
                assert(all.drop_last() =~= ops);
                let u = all_pending(s, all, now);
                assert(op.level == k / 2 && op.side == cell_side(k as int));
                assert(u == with_slot(
                    t,
                    op.side,
                    op.level as int,
                    pending_slot(slot_at(t, op.side, op.level as int), op, now),
                ));
                assert forall|cell: int| 0 <= cell < cells implies cell_cancel(u, cell) is None by {
                    if cell < k {
                        assert(cell_cancel(t, cell) is None);
                        assert(cell / 2 != k / 2 || cell_side(cell) != cell_side(k as int));
                        assert(cell_slot(u, cell) == cell_slot(t, cell));
                    } else {
                        assert(cell_slot(u, cell).status == SideStatus::Canceling);
                    }
                }
                assert forall|cell: int| cells <= cell < 2 * s.bids.len() implies cell_slot(u, cell)
                    == cell_slot(s, cell) by {
                    assert(cell / 2 != k / 2 || cell_side(cell) != cell_side(k as int));
                    assert(cell_slot(t, cell) == cell_slot(s, cell));
                }
            },
            None => {
                assert(cell_slot(t, k as int) == cell_slot(s, k as int));
                assert(cell_cancel(t, k as int) is None);
            },
        }
    }
}

proof fn lemma_nothing_left(s: Orders, cells: nat)
    requires
        forall|cell: int| 0 <= cell < cells ==> cell_cancel(s, cell) is None,
    ensures
        cancels(s, cells) == Seq::<BatchOp>::empty(),
    decreases cells,
{
    if cells > 0 {
        lemma_nothing_left(s, (cells - 1) as nat);
    }
}

/// Recording an id never forgets the exchange id of a tracked order, unless it is the one
/// being recorded anew.
pub proof fn tracked_ids_stay_known(m: Map<i64, i64>, live: Set<i64>, k: i64, v: i64, id: i64)
    requires
        live.contains(id),
        m.contains_key(id),
    ensures
        recorded(m, live, k, v).contains_key(id),
        id != k ==> recorded(m, live, k, v)[id] == m[id],
{
}

/// The id map stays bounded: past its cap it holds the tracked ids and at most
/// [`ID_MAP_RECENT`] others.
pub proof fn id_map_is_bounded(m: Map<i64, i64>, live: Set<i64>, k: i64, v: i64)
    requires
        m.dom().finite(),
        live.finite(),
    ensures
        ({
            let n = recorded(m, live, k, v).dom().len();
            n <= ID_MAP_CAP || n <= live.len() + ID_MAP_RECENT
        }),
{
    let grown = m.insert(k, v);
    if grown.dom().len() > ID_MAP_CAP {
        let kept = pruned(grown, live).dom();
        let idle = kept.filter(|j: i64| !live.contains(j));
        assert(kept =~= grown.dom().intersect(kept));
        let both = live.union(idle);
        assert(kept.subset_of(both));
        vstd::set_lib::lemma_len_subset(kept, both);
        vstd::set_lib::lemma_set_disjoint_lens(live, idle);
        lemma_few_idle(grown, live, idle);
    }
}

/// A set of idle ids, each with fewer than the allowed number of newer idle ids, is small.
proof fn lemma_few_idle(m: Map<i64, i64>, live: Set<i64>, idle: Set<i64>)
    requires
        m.dom().finite(),
        idle.finite(),
        forall|j: i64|
            #[trigger] idle.contains(j) ==> m.contains_key(j) && !live.contains(j) && newer(
                m,
                live,
                j,
            ).len() < ID_MAP_RECENT,
    ensures
        idle.len() <= ID_MAP_RECENT,
{
    if idle.len() > 0 {
        let least = lemma_least(idle);
        let others = idle.remove(least);
        assert(others.subset_of(newer(m, live, least))) by {
            assert forall|j: i64| others.contains(j) implies newer(m, live, least).contains(j) by {
                assert(idle.contains(j));
            }
        }
        vstd::set_lib::lemma_len_subset(others, newer(m, live, least));
    }
}

/// A non-empty finite set of ids has a least one.
proof fn lemma_least(s: Set<i64>) -> (r: i64)
    requires
        s.finite(),
        s.len() > 0,
    ensures
        s.contains(r),
        forall|j: i64| s.contains(j) ==> r <= j,
    decreases s.len(),
{
    let a = s.choose();
    let rest = s.remove(a);
    if rest.len() == 0 {
        assert forall|j: i64| s.contains(j) implies a <= j by {
            if j != a {
                assert(rest.contains(j));
            }
        }
        a
    } else {
        let b = lemma_least(rest);
        if a <= b {
            assert forall|j: i64| s.contains(j) implies a <= j by {
                if j != a {
                    assert(rest.contains(j));
                }
            }
            a
        } else {
            assert forall|j: i64| s.contains(j) implies b <= j by {
                if j != a {
                    assert(rest.contains(j));
                }
            }
            b
        }
    }
}

/// Client ids are drawn from the clock, modulo the largest 48-bit id: the draw is taken where it lies
/// above the last id, and else the id after the last one; the last one of the range is followed by 1.
pub proof fn client_ids_come_from_the_clock(last: int, now_ns: int)
    requires
        0 <= last <= 281_474_976_710_655,
    ensures
        now_ns % 281_474_976_710_655 > last ==> next_id(last, now_ns) == now_ns
            % 281_474_976_710_655,
        now_ns % 281_474_976_710_655 <= last && last < 281_474_976_710_655 ==> next_id(last, now_ns)
            == last + 1,
        last == 281_474_976_710_655 ==> next_id(last, now_ns) == 1,
{
    if last < 281_474_976_710_655 {
        assert((last + 1) % 281_474_976_710_656 == last + 1);
    }
}

} // verus!
