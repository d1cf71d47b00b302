//! Laws of the plan of a quoting cycle: which operations it holds, what each of them asks for, and
//! what taking their slots and sweeping the book does.
use vstd::prelude::*;
use crate::exec::order_laws::{all_pending, ops_in_range};
use crate::exec::order_manager::{
    cancels, cell_cancel, cell_op, cell_quote, cell_side, cell_slot, pending_slot, planned, slot_at,
    slot_ids, tracked_ids, with_slot, Cycle, OrderSlot, Orders, SideQuote,
};
use crate::num::{spec_epsilon, spec_zero, Num};
use crate::types::{BatchOp, OrderAction, Side, SideStatus};

verus! {

/// The slot that the tracker holds for a (side, level).
pub open spec fn held_at(s: Orders, side: Side, level: int) -> OrderSlot {
    if side == Side::Buy {
        s.bids[level]
    } else {
        s.asks[level]
    }
}

/// The quote that is wanted for a (side, level).
pub open spec fn wanted_at(
    quotes: Seq<(Option<SideQuote>, Option<SideQuote>)>,
    side: Side,
    level: int,
) -> Option<SideQuote> {
    if side == Side::Buy {
        quotes[level].0
    } else {
        quotes[level].1
    }
}

/// Whether a batch does this to a (side, level).
pub open spec fn does(ops: Seq<BatchOp>, side: Side, level: int, action: OrderAction) -> bool {
    exists|i: int|
        0 <= i < ops.len() && (#[trigger] ops[i]).side == side && ops[i].level == level
            && ops[i].action == action
}

proof fn lemma_plan_source(
    s: Orders,
    quotes: Seq<(Option<SideQuote>, Option<SideQuote>)>,
    c: Cycle,
    cells: nat,
    i: int,
)
    requires
        cells <= 2 * quotes.len(),
        quotes.len() <= usize::MAX,
        0 <= i < planned(s, quotes, c, cells).0.len(),
    ensures
        ({
            let op = planned(s, quotes, c, cells).0[i];
            let cell = cell_of(op);
            &&& 0 <= cell < cells
            &&& exists|last: int|
                #[trigger] cell_op(
                    cell_slot(s, cell),
                    s.ids,
                    s.amount_tick,
                    last,
                    cell_side(cell),
                    cell / 2,
                    cell_quote(quotes, cell),
                    c,
                ) == Some(op)
        }),
    decreases cells,
{
    let cell = cells - 1;
    let (before, last) = planned(s, quotes, c, cell as nat);
    if i < before.len() {
        lemma_plan_source(s, quotes, c, cell as nat, i);
        assert(planned(s, quotes, c, cells).0[i] == before[i]);
    } else {
        let op = planned(s, quotes, c, cells).0[i];
        assert(cell_op(
            cell_slot(s, cell),
            s.ids,
            s.amount_tick,
            last,
            cell_side(cell),
            cell / 2,
            cell_quote(quotes, cell),
            c,
        ) == Some(op));
        assert(op.level == cell / 2 && op.side == cell_side(cell));
        assert(cell_of(op) == cell);
    }
}

proof fn lemma_plan_covers(
    s: Orders,
    quotes: Seq<(Option<SideQuote>, Option<SideQuote>)>,
    c: Cycle,
    cells: nat,
    cell: int,
    last: int,
)
    requires
        cells <= 2 * quotes.len(),
        quotes.len() <= usize::MAX,
        0 <= cell < cells,
    ensures
        cell_op(
            cell_slot(s, cell),
            s.ids,
            s.amount_tick,
            last,
            cell_side(cell),
            cell / 2,
            cell_quote(quotes, cell),
            c,
        ) matches Some(op) ==> does(
            planned(s, quotes, c, cells).0,
            cell_side(cell),
            cell / 2,
            op.action,
        ),
    decreases cells,
{
    let at = cells - 1;
    let before = planned(s, quotes, c, at as nat).0;
    let ops = planned(s, quotes, c, cells).0;
    if cell < at {
        lemma_plan_covers(s, quotes, c, at as nat, cell, last);
        if let Some(op) = cell_op(
            cell_slot(s, cell),
            s.ids,
            s.amount_tick,
            last,
            cell_side(cell),
            cell / 2,
            cell_quote(quotes, cell),
            c,
        ) {
            let i = choose|i: int|
                0 <= i < before.len() && (#[trigger] before[i]).side == cell_side(cell)
                    && before[i].level == cell / 2 && before[i].action == op.action;
            assert(ops[i] == before[i]);
        }
    } else if ops.len() > before.len() {
        assert(ops[before.len() as int].level == cell / 2);
    }
}

/// What every operation of a cycle asks for. A create and a modify carry the price of the quote
/// that is wanted for their side and level, and the size of the cycle; they only reduce exactly
/// where they bring a position closer to zero: a sale out of a long one, a purchase out of a
/// short one. A cancel is for a slot for which nothing is wanted, and carries neither. A create
/// names no order of the exchange; the others name the order in the slot under both its ids.
pub proof fn operations_carry_the_wanted_quotes(
    s: Orders,
    quotes: Seq<(Option<SideQuote>, Option<SideQuote>)>,
    c: Cycle,
    cells: nat,
    i: int,
)
    requires
        cells <= 2 * quotes.len(),
        quotes.len() <= usize::MAX,
        0 <= i < planned(s, quotes, c, cells).0.len(),
    ensures
        ({
            let op = planned(s, quotes, c, cells).0[i];
            let want = wanted_at(quotes, op.side, op.level as int);
            let slot = held_at(s, op.side, op.level as int);
            &&& op.level < quotes.len()
            &&& op.action == OrderAction::Cancel ==> {
                &&& want is None
                &&& op.price.bits == 0 && op.size.bits == 0 && !op.reduce_only
            }
            &&& op.action != OrderAction::Cancel ==> {
                &&& want is Some
                &&& op.price == want->0.price
                &&& op.size == c.base_amount
                &&& op.reduce_only == (op.side == Side::Sell && spec_epsilon().below(c.position)
                    || op.side == Side::Buy && c.position.below(spec_epsilon().negated()))
            }
            &&& op.action == OrderAction::Create ==> op.exchange_id is None
            &&& op.action != OrderAction::Create ==> {
                &&& slot.order_id == Some(op.client_order_id)
                &&& s.ids.contains_key(op.client_order_id)
                &&& op.exchange_id == Some(s.ids[op.client_order_id])
            }
        }),
{
    lemma_plan_source(s, quotes, c, cells, i);
}

/// Which operations a cycle holds. A slot without an order gets a create exactly where a quote is
/// wanted for it, at a price and a size above zero. An order whose exchange id is known is, unless
/// mutations are held, cancelled exactly where nothing is wanted, and moved exactly where something
/// is, at a price and a size above zero, and the order is out of place: its price or size is not
/// known, the price lies further off than the threshold, or the size is a tick off, and not by next
/// to nothing.
pub proof fn operations_are_those_called_for(
    s: Orders,
    quotes: Seq<(Option<SideQuote>, Option<SideQuote>)>,
    c: Cycle,
    side: Side,
    level: int,
)
    requires
        0 <= level < quotes.len(),
        quotes.len() <= usize::MAX,
    ensures
        ({
            let ops = planned(s, quotes, c, 2 * quotes.len()).0;
            let want = wanted_at(quotes, side, level);
            let slot = held_at(s, side, level);
            let quotable = want is Some && !c.base_amount.at_most(spec_zero())
                && !want->0.price.at_most(spec_zero());
            let reachable = slot.order_id is Some && s.ids.contains_key(slot.order_id->0) && !c.hold;
            let resized = spec_epsilon().at_most(want->0.size_change) && (spec_zero().below(
                s.amount_tick,
            ) ==> s.amount_tick.at_most(want->0.size_change));
            &&& does(ops, side, level, OrderAction::Create) <==> quotable && slot.order_id is None
            &&& does(ops, side, level, OrderAction::Cancel) <==> reachable && want is None
            &&& does(ops, side, level, OrderAction::Modify) <==> reachable && quotable && (
            slot.price is None || slot.size is None || c.threshold_bps.below(want->0.change_bps)
                || resized)
        }),
{
    let cells = 2 * quotes.len();
    let ops = planned(s, quotes, c, cells).0;
    let cell = 2 * level + if side == Side::Buy {
        0int
    } else {
        1int
    };
    assert(cell / 2 == level && cell_side(cell) == side);
    lemma_plan_covers(s, quotes, c, cells, cell, 0);
    assert forall|i: int|
        0 <= i < ops.len() && (#[trigger] ops[i]).side == side && ops[i].level == level implies exists|
        last: int,
    |
        #[trigger] cell_op(
            cell_slot(s, cell),
            s.ids,
            s.amount_tick,
            last,
            cell_side(cell),
            cell / 2,
            cell_quote(quotes, cell),
            c,
        ) == Some(ops[i]) by {
        lemma_plan_source(s, quotes, c, cells, i);
    }
}

/// Whether a slot shows that an operation for it is under way: a create put its own id, price and
/// size in it, a modify left the order and put the new price and size, a cancel left all three; each
/// says so in the status, and counts as an update.
pub open spec fn shows(before: OrderSlot, slot: OrderSlot, op: BatchOp, now: u64) -> bool {
    &&& slot.updated_at == now && slot.miss == 0
    &&& op.action == OrderAction::Create ==> slot.status == SideStatus::Placing && slot.order_id
        == Some(op.client_order_id) && slot.price == Some(op.price) && slot.size == Some(op.size)
    &&& op.action == OrderAction::Modify ==> slot.status == SideStatus::Modifying && slot.order_id
        == before.order_id && slot.price == Some(op.price) && slot.size == Some(op.size)
    &&& op.action == OrderAction::Cancel ==> slot.status == SideStatus::Canceling && slot.order_id
        == before.order_id && slot.price == before.price && slot.size == before.size
}

/// Whether no operation of a batch is for a (side, level).
pub open spec fn spares(ops: Seq<BatchOp>, side: Side, level: int) -> bool {
    forall|i: int|
        0 <= i < ops.len() ==> (#[trigger] ops[i]).side != side || ops[i].level != level
}

/// Whether no two operations of a batch are for the same slot.
pub open spec fn apart(ops: Seq<BatchOp>) -> bool {
    forall|i: int, j: int|
        0 <= i < j < ops.len() ==> (#[trigger] ops[i]).side != (#[trigger] ops[j]).side
            || ops[i].level != ops[j].level
}

proof fn lemma_apart_rest(s: Orders, ops: Seq<BatchOp>)
    requires
        ops.len() > 0,
        ops_in_range(s, ops),
        apart(ops),
    ensures
        ops_in_range(s, ops.drop_last()),
        apart(ops.drop_last()),
        spares(ops.drop_last(), ops.last().side, ops.last().level as int),
        ops.last().level < s.bids.len(),
{
    let before = ops.drop_last();
    let op = ops.last();
    assert(op == ops[ops.len() - 1]);
    assert forall|i: int| 0 <= i < before.len() implies (#[trigger] before[i]).level
        < s.bids.len() by {
        assert(ops[i] == before[i]);
    }
    assert forall|i: int| 0 <= i < before.len() implies (#[trigger] before[i]).side != op.side
        || before[i].level != op.level by {
        assert(ops[i] == before[i]);
    }
    assert forall|i: int, j: int| 0 <= i < j < before.len() implies (#[trigger] before[i]).side != (
    #[trigger] before[j]).side || before[i].level != before[j].level by {
        assert(ops[i] == before[i] && ops[j] == before[j]);
    }
}

proof fn lemma_one_pending(t: Orders, op: BatchOp, now: u64)
    requires
        t.bids.len() == t.asks.len(),
        op.level < t.bids.len(),
    ensures
        ({
            let slot = slot_at(t, op.side, op.level as int);
            let u = with_slot(t, op.side, op.level as int, pending_slot(slot, op, now));
            &&& u.bids.len() == t.bids.len() && u.asks.len() == t.asks.len()
            &&& u.ids == t.ids && u.last_id == t.last_id && u.amount_tick == t.amount_tick
            &&& shows(
                held_at(t, op.side, op.level as int),
                held_at(u, op.side, op.level as int),
                op,
                now,
            )
            &&& forall|side: Side, level: int|
                0 <= level < t.bids.len() && (side != op.side || level != op.level)
                    ==> #[trigger] held_at(u, side, level) == held_at(t, side, level)
        }),
{
}

/// Taking the slots of a batch whose operations are for different slots: each slot shows its
/// operation, no other slot changes, and no id is learned or forgotten.
pub proof fn pending_slots_show_their_operations(s: Orders, ops: Seq<BatchOp>, now: u64)
    requires
        s.bids.len() == s.asks.len(),
        ops_in_range(s, ops),
        apart(ops),
    ensures
        ({
            let t = all_pending(s, ops, now);
            &&& t.bids.len() == s.bids.len() && t.asks.len() == s.asks.len()
            &&& t.ids == s.ids && t.last_id == s.last_id && t.amount_tick == s.amount_tick
            &&& forall|i: int|
                0 <= i < ops.len() ==> shows(
                    held_at(s, (#[trigger] ops[i]).side, ops[i].level as int),
                    held_at(t, ops[i].side, ops[i].level as int),
                    ops[i],
                    now,
                )
            &&& forall|side: Side, level: int|
                0 <= level < s.bids.len() && spares(ops, side, level) ==> #[trigger] held_at(
                    t,
                    side,
                    level,
                ) == held_at(s, side, level)
        }),
    decreases ops.len(),
{
    if ops.len() > 0 {
        let before = ops.drop_last();
        lemma_apart_rest(s, ops);
        pending_slots_show_their_operations(s, before, now);
        let t = all_pending(s, before, now);
        let u = all_pending(s, ops, now);
        let op = ops.last();
        lemma_one_pending(t, op, now);
        assert(held_at(t, op.side, op.level as int) == held_at(s, op.side, op.level as int));
        assert forall|side: Side, level: int|
            0 <= level < s.bids.len() && spares(ops, side, level) implies #[trigger] held_at(
            u,
            side,
            level,
        ) == held_at(s, side, level) by {
            assert(op == ops[ops.len() - 1]);
            assert(spares(before, side, level)) by {
                assert forall|i: int| 0 <= i < before.len() implies (#[trigger] before[i]).side
                    != side || before[i].level != level by {
                    assert(ops[i] == before[i]);
                }
            }
            assert(held_at(t, side, level) == held_at(s, side, level));
        }
        assert forall|i: int| 0 <= i < ops.len() implies shows(
            held_at(s, (#[trigger] ops[i]).side, ops[i].level as int),
            held_at(u, ops[i].side, ops[i].level as int),
            ops[i],
            now,
        ) by {
            if i < before.len() {
                assert(before[i] == ops[i]);
                assert(before[i].side != op.side || before[i].level != op.level);
                assert(ops[i].level < s.bids.len());
                assert(held_at(u, ops[i].side, ops[i].level as int) == held_at(
                    t,
                    ops[i].side,
                    ops[i].level as int,
                ));
            }
        }
    }
}

/// What a sweep takes off the book: exactly the orders whose exchange id is known and that are not
/// being cancelled already, each under both its ids, the slots in order, the bid of a level before
/// its ask.
pub proof fn sweeps_cancel_every_known_order(s: Orders)
    requires
        s.bids.len() == s.asks.len(),
        s.bids.len() <= usize::MAX,
    ensures
        ({
            let ops = cancels(s, 2 * s.bids.len());
            &&& forall|i: int|
                0 <= i < ops.len() ==> {
                    let op = #[trigger] ops[i];
                    &&& op.level < s.bids.len() && op.action == OrderAction::Cancel
                    &&& held_at(s, op.side, op.level as int).order_id == Some(op.client_order_id)
                    &&& s.ids.contains_key(op.client_order_id)
                    &&& op.exchange_id == Some(s.ids[op.client_order_id])
                }
            &&& forall|side: Side, level: int|
                0 <= level < s.bids.len() ==> {
                    let slot = #[trigger] held_at(s, side, level);
                    does(ops, side, level, OrderAction::Cancel) <==> slot.order_id is Some
                        && s.ids.contains_key(slot.order_id->0) && slot.status
                        != SideStatus::Canceling
                }
            &&& forall|i: int, j: int|
                0 <= i < j < ops.len() ==> (#[trigger] ops[i]).level < (#[trigger] ops[j]).level
                    || ops[i].level == ops[j].level && ops[i].side == Side::Buy && ops[j].side
                    == Side::Sell
        }),
{
    let n = 2 * s.bids.len();
    let ops = cancels(s, n);
    lemma_sweep_plan(s, n);
    assert forall|side: Side, level: int| 0 <= level < s.bids.len() implies {
        let slot = #[trigger] held_at(s, side, level);
        does(ops, side, level, OrderAction::Cancel) <==> slot.order_id is Some
            && s.ids.contains_key(slot.order_id->0) && slot.status != SideStatus::Canceling
    } by {
        let cell = 2 * level + if side == Side::Buy {
            0int
        } else {
            1int
        };
        assert(cell / 2 == level && cell_side(cell) == side);
        assert(cell_slot(s, cell) == held_at(s, side, level));
        if cell_cancel(s, cell) is Some {
            assert(ops.contains(cell_cancel(s, cell)->0));
            let i = choose|i: int| 0 <= i < ops.len() && ops[i] == cell_cancel(s, cell)->0;
            assert(ops[i].side == side && ops[i].level == level);
        }
        if does(ops, side, level, OrderAction::Cancel) {
            let i = choose|i: int|
                0 <= i < ops.len() && (#[trigger] ops[i]).side == side && ops[i].level == level
                    && ops[i].action == OrderAction::Cancel;
            assert(cell_of(ops[i]) == cell);
            assert(cell_cancel(s, cell_of(ops[i])) == Some(ops[i]));
        }
    }
    assert forall|i: int, j: int| 0 <= i < j < ops.len() implies (#[trigger] ops[i]).level < (
    #[trigger] ops[j]).level || ops[i].level == ops[j].level && ops[i].side == Side::Buy
        && ops[j].side == Side::Sell by {
        assert(cell_of(ops[i]) < cell_of(ops[j]));
    }
    assert forall|i: int| 0 <= i < ops.len() implies {
        let op = #[trigger] ops[i];
        &&& op.level < s.bids.len() && op.action == OrderAction::Cancel
        &&& held_at(s, op.side, op.level as int).order_id == Some(op.client_order_id)
        &&& s.ids.contains_key(op.client_order_id)
        &&& op.exchange_id == Some(s.ids[op.client_order_id])
    } by {
        assert(cell_cancel(s, cell_of(ops[i])) == Some(ops[i]));
        assert(cell_slot(s, cell_of(ops[i])) == held_at(s, ops[i].side, ops[i].level as int));
    }
}

spec fn cell_of(op: BatchOp) -> int {
    2 * op.level + if op.side == Side::Buy {
        0int
    } else {
        1int
    }
}

proof fn lemma_sweep_plan(s: Orders, cells: nat)
    requires
        cells <= 2 * s.bids.len(),
        s.bids.len() <= usize::MAX,
    ensures
        ({
            let ops = cancels(s, cells);
            &&& forall|i: int|
                0 <= i < ops.len() ==> 0 <= cell_of(#[trigger] ops[i]) < cells && cell_cancel(
                    s,
                    cell_of(ops[i]),
                ) == Some(ops[i])
            &&& forall|i: int, j: int|
                0 <= i < j < ops.len() ==> cell_of(#[trigger] ops[i]) < cell_of(#[trigger] ops[j])
            &&& forall|cell: int|
                0 <= cell < cells && (#[trigger] cell_cancel(s, cell)) is Some ==> ops.contains(
                    cell_cancel(s, cell)->0,
                )
        }),
    decreases cells,
{
    if cells > 0 {
        let k = (cells - 1) as nat;
        lemma_sweep_plan(s, k);
        let before = cancels(s, k);
        let ops = cancels(s, cells);
        if let Some(op) = cell_cancel(s, k as int) {
            assert(op.level == k / 2 && op.side == cell_side(k as int));
            assert(cell_of(op) == k);
            assert(ops[before.len() as int] == op);
        }
        assert forall|cell: int|
            0 <= cell < cells && (#[trigger] cell_cancel(s, cell)) is Some implies ops.contains(
            cell_cancel(s, cell)->0,
        ) by {
            if cell < k {
                let i = choose|i: int|
                    0 <= i < before.len() && before[i] == cell_cancel(s, cell)->0;
                assert(ops[i] == before[i]);
            }
        }
    }
}

/// An id is tracked exactly where some slot holds it.
pub proof fn tracked_ids_are_those_in_the_slots(s: Orders, id: i64)
    requires
        s.bids.len() == s.asks.len(),
    ensures
        tracked_ids(s).contains(id) <==> exists|side: Side, level: int|
            0 <= level < s.bids.len() && (#[trigger] held_at(s, side, level)).order_id == Some(id),
{
    lemma_row_ids(s.bids, id);
    lemma_row_ids(s.asks, id);
    let b = slot_ids(s.bids);
    let a = slot_ids(s.asks);
    let all = tracked_ids(s);
    if b.contains(id) {
        let k = choose|k: int| 0 <= k < b.len() && b[k] == id;
        assert(all[k] == id);
        let i = choose|i: int| 0 <= i < s.bids.len() && (#[trigger] s.bids[i]).order_id == Some(id);
        assert(held_at(s, Side::Buy, i).order_id == Some(id));
    }
    if a.contains(id) {
        let k = choose|k: int| 0 <= k < a.len() && a[k] == id;
        assert(all[b.len() + k] == id);
        let i = choose|i: int| 0 <= i < s.asks.len() && (#[trigger] s.asks[i]).order_id == Some(id);
        assert(held_at(s, Side::Sell, i).order_id == Some(id));
    }
    if all.contains(id) {
        let k = choose|k: int| 0 <= k < all.len() && all[k] == id;
        if k < b.len() {
            assert(b[k] == id);
        } else {
            assert(a[k - b.len()] == id);
        }
    }
    if exists|side: Side, level: int|
        0 <= level < s.bids.len() && (#[trigger] held_at(s, side, level)).order_id == Some(id) {
        let (side, level) = choose|side: Side, level: int|
            0 <= level < s.bids.len() && (#[trigger] held_at(s, side, level)).order_id == Some(id);
        if side == Side::Buy {
            assert(s.bids[level].order_id == Some(id));
        } else {
            assert(s.asks[level].order_id == Some(id));
        }
    }
}

proof fn lemma_row_ids(slots: Seq<OrderSlot>, id: i64)
    ensures
        slot_ids(slots).contains(id) <==> exists|i: int|
            0 <= i < slots.len() && (#[trigger] slots[i]).order_id == Some(id),
    decreases slots.len(),
{
    if slots.len() > 0 {
        let rest = slots.drop_last();
        lemma_row_ids(rest, id);
        let before = slot_ids(rest);
        let all = slot_ids(slots);
        assert(slots.last() == slots[slots.len() - 1]);
        if before.contains(id) {
            let k = choose|k: int| 0 <= k < before.len() && before[k] == id;
            assert(all[k] == id);
            let i = choose|i: int| 0 <= i < rest.len() && (#[trigger] rest[i]).order_id == Some(id);
            assert(slots[i] == rest[i]);
        }
        if slots.last().order_id == Some(id) {
            assert(all[before.len() as int] == id);
        }
        if all.contains(id) && !before.contains(id) {
            let k = choose|k: int| 0 <= k < all.len() && all[k] == id;
            if k < before.len() {
                assert(before[k] == id);
            }
            assert(slots[slots.len() - 1].order_id == Some(id));
        }
        if exists|i: int| 0 <= i < slots.len() && (#[trigger] slots[i]).order_id == Some(id) {
            let i = choose|i: int|
                0 <= i < slots.len() && (#[trigger] slots[i]).order_id == Some(id);
            if i < slots.len() - 1 {
                assert(rest[i] == slots[i]);
            }
        }
    }
}

} // verus!
