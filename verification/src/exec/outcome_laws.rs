//! Laws of outcomes: what the settlement of a batch says, and what its events make of the slots.
use vstd::prelude::*;
use crate::exec::event_laws::{
    ids_are_recorded, is_free, reported_departures_free_the_slot, reported_orders_fill_their_slot,
    same_elsewhere,
};
use crate::exec::order_laws::ops_in_range;
use crate::exec::order_manager::{after_event, tracked_ids, Orders};
use crate::exec::paced_send::{
    accepted_event, created_ids, freed_creates, limits_after, nonces_after, risk_after,
    settlement_of, ResyncReason, Settlement,
};
use crate::exec::plan_laws::{apart, held_at, spares, tracked_ids_are_those_in_the_slots};
use crate::exec::rate_limit::{Limits, RejectKind};
use crate::lighter::nonce::Nonces;
use crate::orchestrator::hot::{all_simulated, simulated};
use crate::risk::Risk;
use crate::types::{BatchOp, OrderAction, OrderEvent, SideStatus, TxSendResult, TxSendStatus};

verus! {

/// The state after the first `n` of some events.
pub open spec fn after_events(s: Orders, events: Seq<OrderEvent>, n: nat, now: u64) -> Orders
    decreases n,
{
    if n == 0 {
        s
    } else {
        after_event(after_events(s, events, (n - 1) as nat, now), events[n - 1], None, now)
    }
}

/// Whether an operation is carried out: the slot of a cancel is free, that of any other holds its
/// order, live, at the operation's price and of its size.
pub open spec fn carried_out(t: Orders, op: BatchOp, now: u64) -> bool {
    let slot = held_at(t, op.side, op.level as int);
    &&& op.action == OrderAction::Cancel ==> is_free(slot, now)
    &&& op.action != OrderAction::Cancel ==> slot.status == SideStatus::Live && slot.order_id
        == Some(op.client_order_id) && slot.price == Some(op.price) && slot.size == Some(op.size)
        && slot.updated_at == now && slot.miss == 0
}

/// Whether each operation of a batch has its own slot and its own client id, and the slot holds the
/// order: so it is once the batch is under way.
pub open spec fn under_way(s: Orders, ops: Seq<BatchOp>) -> bool {
    &&& s.bids.len() == s.asks.len() && s.ids.dom().finite()
    &&& ops_in_range(s, ops) && apart(ops)
    &&& forall|i: int|
        0 <= i < ops.len() ==> held_at(s, (#[trigger] ops[i]).side, ops[i].level as int).order_id
            == Some(ops[i].client_order_id)
    &&& forall|i: int, j: int|
        0 <= i < j < ops.len() ==> (#[trigger] ops[i]).client_order_id != (
        #[trigger] ops[j]).client_order_id
}

/// What holds once the first `n` operations of a batch are carried out, under the given exchange
/// ids.
spec fn progress(
    s: Orders,
    t: Orders,
    ops: Seq<BatchOp>,
    eids: Seq<Option<i64>>,
    n: int,
    now: u64,
) -> bool {
    &&& t.bids.len() == s.bids.len() && t.asks.len() == s.asks.len()
    &&& t.last_id == s.last_id && t.amount_tick == s.amount_tick && t.ids.dom().finite()
    &&& forall|i: int| 0 <= i < n ==> carried_out(t, #[trigger] ops[i], now)
    &&& forall|i: int|
        n <= i < ops.len() ==> held_at(t, (#[trigger] ops[i]).side, ops[i].level as int) == held_at(
            s,
            ops[i].side,
            ops[i].level as int,
        )
    &&& forall|side, level: int|
        0 <= level < s.bids.len() && spares(ops, side, level) ==> #[trigger] held_at(
            t,
            side,
            level,
        ) == held_at(s, side, level)
    &&& forall|i: int|
        0 <= i < n && (#[trigger] ops[i]).action != OrderAction::Cancel && eids[i] is Some
            ==> t.ids.contains_key(ops[i].client_order_id) && t.ids[ops[i].client_order_id]
            == eids[i]->0
}

proof fn lemma_step(
    s: Orders,
    t: Orders,
    ops: Seq<BatchOp>,
    eids: Seq<Option<i64>>,
    n: int,
    now: u64,
    evt: OrderEvent,
)
    requires
        under_way(s, ops),
        0 <= n < ops.len(),
        eids.len() == ops.len(),
        progress(s, t, ops, eids, n, now),
        ops[n].action == OrderAction::Cancel ==> evt == (OrderEvent::ClearLive {
            side: ops[n].side,
            level: ops[n].level,
            client_order_id: ops[n].client_order_id,
        }),
        ops[n].action != OrderAction::Cancel ==> evt == (OrderEvent::BindLive {
            side: ops[n].side,
            level: ops[n].level,
            client_order_id: ops[n].client_order_id,
            exchange_id: eids[n],
            price: ops[n].price,
            size: ops[n].size,
        }),
    ensures
        progress(s, after_event(t, evt, None, now), ops, eids, n + 1, now),
{
    let op = ops[n];
    let u = after_event(t, evt, None, now);
    assert(op.level < s.bids.len());
    assert(held_at(t, op.side, op.level as int).order_id == Some(op.client_order_id));
    if op.action == OrderAction::Cancel {
        reported_departures_free_the_slot(t, op.side, op.level, op.client_order_id, None, now);
    } else {
        reported_orders_fill_their_slot(
            t,
            op.side,
            op.level,
            op.client_order_id,
            eids[n],
            op.price,
            op.size,
            None,
            now,
        );
        tracked_ids_are_those_in_the_slots(t, op.client_order_id);
        assert(tracked_ids(t).contains(op.client_order_id));
        if let Some(e) = eids[n] {
            ids_are_recorded(t.ids, tracked_ids(t).to_set(), op.client_order_id, e, 0);
        }
    }
    assert(same_elsewhere(t, u, op.side, op.level as int));
    assert(u.ids.dom().finite());
    assert(carried_out(u, op, now));
    assert forall|i: int| 0 <= i < n + 1 implies carried_out(u, #[trigger] ops[i], now) by {
        if i < n {
            assert(ops[i].side != ops[n].side || ops[i].level != ops[n].level);
            assert(ops[i].level < s.bids.len());
            assert(carried_out(t, ops[i], now));
            assert(held_at(u, ops[i].side, ops[i].level as int) == held_at(
                t,
                ops[i].side,
                ops[i].level as int,
            ));
        }
    }
    assert forall|i: int| n + 1 <= i < ops.len() implies held_at(
        u,
        (#[trigger] ops[i]).side,
        ops[i].level as int,
    ) == held_at(s, ops[i].side, ops[i].level as int) by {
        assert(ops[n].side != ops[i].side || ops[n].level != ops[i].level);
        assert(ops[i].level < s.bids.len());
    }
    assert forall|side, level: int| 0 <= level < s.bids.len() && spares(ops, side, level) implies
        #[trigger] held_at(u, side, level) == held_at(s, side, level) by {
        assert(ops[n].side != side || ops[n].level != level);
        assert(held_at(t, side, level) == held_at(s, side, level));
    }
    assert forall|i: int|
        0 <= i < n + 1 && (#[trigger] ops[i]).action != OrderAction::Cancel && eids[i]
            is Some implies u.ids.contains_key(ops[i].client_order_id)
        && u.ids[ops[i].client_order_id] == eids[i]->0 by {
        if i < n && op.action != OrderAction::Cancel {
            assert(ops[i].client_order_id != ops[n].client_order_id);
            assert(ops[i].level < s.bids.len());
            assert(carried_out(t, ops[i], now));
            assert(held_at(t, ops[i].side, ops[i].level as int).order_id == Some(
                ops[i].client_order_id,
            ));
            tracked_ids_are_those_in_the_slots(t, ops[i].client_order_id);
            assert(tracked_ids(t).contains(ops[i].client_order_id));
            assert(u.ids.contains_key(ops[i].client_order_id));
        }
    }
}

/// Once the events of an accepted batch have reached the tracker, every operation is carried out:
/// the slot of each create and of each modify holds its order, live, under the operation's own client
/// id, at its price and of its size, and its exchange id is known where the operation names one; the
/// slots of the cancels, and only those, are free. The other slots stay as they were.
pub proof fn accepted_batches_are_carried_out(
    s: Orders,
    ops: Seq<BatchOp>,
    r: Settlement,
    result: TxSendResult,
    now: u64,
)
    requires
        settlement_of(r, ops, result),
        result.status == TxSendStatus::Accepted,
        under_way(s, ops),
    ensures
        ({
            let t = after_events(s, r.events@, r.events@.len(), now);
            &&& r.events@.len() == ops.len()
            &&& t.bids.len() == s.bids.len() && t.asks.len() == s.asks.len()
            &&& forall|i: int| 0 <= i < ops.len() ==> carried_out(t, #[trigger] ops[i], now)
            &&& forall|i: int|
                0 <= i < ops.len() && (#[trigger] ops[i]).action != OrderAction::Cancel
                    && ops[i].exchange_id is Some ==> t.ids.contains_key(ops[i].client_order_id)
                    && t.ids[ops[i].client_order_id] == ops[i].exchange_id->0
            &&& forall|side, level: int|
                0 <= level < s.bids.len() && spares(ops, side, level) ==> #[trigger] held_at(
                    t,
                    side,
                    level,
                ) == held_at(s, side, level)
        }),
{
    let eids = Seq::new(ops.len(), |i: int| ops[i].exchange_id);
    lemma_accepted(s, ops, eids, r.events@, ops.len(), now);
}

proof fn lemma_accepted(
    s: Orders,
    ops: Seq<BatchOp>,
    eids: Seq<Option<i64>>,
    events: Seq<OrderEvent>,
    n: nat,
    now: u64,
)
    requires
        under_way(s, ops),
        n <= ops.len(),
        events == ops.map_values(|op: BatchOp| accepted_event(op)),
        eids == Seq::new(ops.len(), |i: int| ops[i].exchange_id),
    ensures
        progress(s, after_events(s, events, n, now), ops, eids, n as int, now),
    decreases n,
{
    if n > 0 {
        lemma_accepted(s, ops, eids, events, (n - 1) as nat, now);
        lemma_step(
            s,
            after_events(s, events, (n - 1) as nat, now),
            ops,
            eids,
            n - 1,
            now,
            events[n - 1],
        );
    }
}

/// A dry run carries every operation of a batch out in the same way; an order whose exchange id is
/// not known goes by its client id.
pub proof fn dry_runs_carry_batches_out(s: Orders, ops: Seq<BatchOp>, now: u64)
    requires
        under_way(s, ops),
    ensures
        ({
            let t = all_simulated(s, ops, ops.len(), now);
            &&& t.bids.len() == s.bids.len() && t.asks.len() == s.asks.len()
            &&& forall|i: int| 0 <= i < ops.len() ==> carried_out(t, #[trigger] ops[i], now)
            &&& forall|i: int|
                0 <= i < ops.len() && (#[trigger] ops[i]).action != OrderAction::Cancel
                    ==> t.ids.contains_key(ops[i].client_order_id)
                    && t.ids[ops[i].client_order_id] == match ops[i].exchange_id {
                    Some(e) => e,
                    None => ops[i].client_order_id,
                }
            &&& forall|side, level: int|
                0 <= level < s.bids.len() && spares(ops, side, level) ==> #[trigger] held_at(
                    t,
                    side,
                    level,
                ) == held_at(s, side, level)
        }),
{
    let eids = Seq::new(
        ops.len(),
        |i: int|
            Some(
                match ops[i].exchange_id {
                    Some(e) => e,
                    None => ops[i].client_order_id,
                },
            ),
    );
    lemma_simulated(s, ops, eids, ops.len(), now);
}

proof fn lemma_simulated(
    s: Orders,
    ops: Seq<BatchOp>,
    eids: Seq<Option<i64>>,
    n: nat,
    now: u64,
)
    requires
        under_way(s, ops),
        n <= ops.len(),
        eids == Seq::new(
            ops.len(),
            |i: int|
                Some(
                    match ops[i].exchange_id {
                        Some(e) => e,
                        None => ops[i].client_order_id,
                    },
                ),
        ),
    ensures
        progress(s, all_simulated(s, ops, n, now), ops, eids, n as int, now),
    decreases n,
{
    if n > 0 {
        lemma_simulated(s, ops, eids, (n - 1) as nat, now);
        lemma_step(
            s,
            all_simulated(s, ops, (n - 1) as nat, now),
            ops,
            eids,
            n - 1,
            now,
            simulated(ops[n - 1]),
        );
    }
}

/// Whether a batch was undone: the slots of its creates are free, every other slot is as it was, and
/// no id was forgotten.
pub open spec fn undone(s: Orders, t: Orders, ops: Seq<BatchOp>, now: u64) -> bool {
    &&& t.bids.len() == s.bids.len() && t.asks.len() == s.asks.len() && t.ids == s.ids
    &&& forall|i: int|
        0 <= i < ops.len() && (#[trigger] ops[i]).action == OrderAction::Create ==> is_free(
            held_at(t, ops[i].side, ops[i].level as int),
            now,
        )
    &&& forall|i: int|
        0 <= i < ops.len() && (#[trigger] ops[i]).action != OrderAction::Create ==> held_at(
            t,
            ops[i].side,
            ops[i].level as int,
        ) == held_at(s, ops[i].side, ops[i].level as int)
    &&& forall|side, level: int|
        0 <= level < s.bids.len() && spares(ops, side, level) ==> #[trigger] held_at(
            t,
            side,
            level,
        ) == held_at(s, side, level)
}

proof fn lemma_under_way_rest(s: Orders, ops: Seq<BatchOp>)
    requires
        ops.len() > 0,
        under_way(s, ops),
    ensures
        under_way(s, ops.drop_last()),
        spares(ops.drop_last(), ops.last().side, ops.last().level as int),
        ops.last().level < s.bids.len(),
        held_at(s, ops.last().side, ops.last().level as int).order_id == Some(
            ops.last().client_order_id,
        ),
{
    let before = ops.drop_last();
    let op = ops.last();
    assert(op == ops[ops.len() - 1]);
    assert forall|i: int| 0 <= i < before.len() implies #[trigger] before[i] == ops[i] by {}
    assert forall|i: int, j: int| 0 <= i < j < before.len() implies (#[trigger] before[i]).side != (
    #[trigger] before[j]).side || before[i].level != before[j].level by {
        assert(ops[i] == before[i] && ops[j] == before[j]);
    }
    assert forall|i: int, j: int| 0 <= i < j < before.len() implies (
    #[trigger] before[i]).client_order_id != (#[trigger] before[j]).client_order_id by {
        assert(ops[i] == before[i] && ops[j] == before[j]);
    }
    assert forall|i: int| 0 <= i < before.len() implies (#[trigger] before[i]).side != op.side
        || before[i].level != op.level by {
        assert(ops[i] == before[i]);
    }
}

proof fn lemma_undone_step(s: Orders, t: Orders, u: Orders, ops: Seq<BatchOp>, now: u64)
    requires
        ops.len() > 0,
        under_way(s, ops),
        undone(s, t, ops.drop_last(), now),
        same_elsewhere(t, u, ops.last().side, ops.last().level as int),
        u.ids == t.ids,
        ops.last().action == OrderAction::Create ==> is_free(
            held_at(u, ops.last().side, ops.last().level as int),
            now,
        ),
        ops.last().action != OrderAction::Create ==> u == t,
    ensures
        undone(s, u, ops, now),
{
    lemma_under_way_rest(s, ops);
    let before = ops.drop_last();
    let op = ops.last();
    assert(op == ops[ops.len() - 1]);
    assert(held_at(t, op.side, op.level as int) == held_at(s, op.side, op.level as int));
    assert forall|i: int| 0 <= i < before.len() implies held_at(
        u,
        (#[trigger] ops[i]).side,
        ops[i].level as int,
    ) == held_at(t, before[i].side, before[i].level as int) && before[i] == ops[i] by {
        assert(before[i] == ops[i]);
        assert(ops[i].level < s.bids.len());
        assert(before[i].side != op.side || before[i].level != op.level);
    }
    assert forall|side, level: int| 0 <= level < s.bids.len() && spares(ops, side, level) implies
        #[trigger] held_at(u, side, level) == held_at(s, side, level) by {
        assert(ops[ops.len() - 1].side != side || ops[ops.len() - 1].level != level);
        assert(spares(before, side, level)) by {
            assert forall|i: int| 0 <= i < before.len() implies (#[trigger] before[i]).side != side
                || before[i].level != level by {
                assert(ops[i] == before[i]);
            }
        }
        assert(held_at(t, side, level) == held_at(s, side, level));
    }
}

/// Once the events of a batch that did not go out have reached the tracker, the slots of its creates
/// are free, to be tried again; every other slot, and so that of each modify and of each cancel, is
/// as it was, and no id is forgotten.
pub proof fn failed_batches_free_their_creates(s: Orders, ops: Seq<BatchOp>, now: u64)
    requires
        under_way(s, ops),
    ensures
        undone(s, after_events(s, freed_creates(ops), freed_creates(ops).len(), now), ops, now),
    decreases ops.len(),
{
    if ops.len() > 0 {
        let before = ops.drop_last();
        let op = ops.last();
        lemma_under_way_rest(s, ops);
        failed_batches_free_their_creates(s, before, now);
        let some = freed_creates(before);
        let events = freed_creates(ops);
        let t = after_events(s, some, some.len(), now);
        let u = after_events(s, events, events.len(), now);
        assert(held_at(t, op.side, op.level as int) == held_at(s, op.side, op.level as int));
        if op.action == OrderAction::Create {
            lemma_prefix(s, some, events, some.len(), now);
            reported_departures_free_the_slot(t, op.side, op.level, op.client_order_id, None, now);
            assert(u == after_event(t, events[some.len() as int], None, now));
        }
        lemma_undone_step(s, t, u, ops, now);
    }
}

proof fn lemma_prefix(
    s: Orders,
    some: Seq<OrderEvent>,
    events: Seq<OrderEvent>,
    n: nat,
    now: u64,
)
    requires
        n <= some.len() <= events.len(),
        forall|i: int| 0 <= i < some.len() ==> #[trigger] events[i] == some[i],
    ensures
        after_events(s, events, n, now) == after_events(s, some, n, now),
    decreases n,
{
    if n > 0 {
        lemma_prefix(s, some, events, (n - 1) as nat, now);
    }
}

/// How many of some operations are creates.
pub open spec fn creates_among(ops: Seq<BatchOp>) -> nat
    decreases ops.len(),
{
    if ops.len() == 0 {
        0
    } else {
        creates_among(ops.drop_last()) + if ops.last().action == OrderAction::Create {
            1nat
        } else {
            0nat
        }
    }
}

/// The orders that count as accepted are the creates of the batch: as many as there are, each
/// under its client id, and no other.
pub proof fn accepted_orders_are_the_creates(ops: Seq<BatchOp>, id: i64)
    ensures
        created_ids(ops).len() == creates_among(ops),
        created_ids(ops).contains(id) <==> exists|i: int|
            0 <= i < ops.len() && (#[trigger] ops[i]).action == OrderAction::Create
                && ops[i].client_order_id == id,
    decreases ops.len(),
{
    if ops.len() > 0 {
        let before = ops.drop_last();
        let op = ops.last();
        assert(op == ops[ops.len() - 1]);
        accepted_orders_are_the_creates(before, id);
        let some = created_ids(before);
        let all = created_ids(ops);
        if some.contains(id) {
            let k = choose|k: int| 0 <= k < some.len() && some[k] == id;
            assert(all[k] == id);
            let i = choose|i: int|
                0 <= i < before.len() && (#[trigger] before[i]).action == OrderAction::Create
                    && before[i].client_order_id == id;
            assert(ops[i] == before[i]);
        }
        if op.action == OrderAction::Create && op.client_order_id == id {
            assert(all[some.len() as int] == id);
        }
        if all.contains(id) && !some.contains(id) {
            let k = choose|k: int| 0 <= k < all.len() && all[k] == id;
            if k < some.len() {
                assert(some[k] == id);
            }
            assert(ops[ops.len() - 1].client_order_id == id);
        }
        if exists|i: int|
            0 <= i < ops.len() && (#[trigger] ops[i]).action == OrderAction::Create
                && ops[i].client_order_id == id {
            let i = choose|i: int|
                0 <= i < ops.len() && (#[trigger] ops[i]).action == OrderAction::Create
                    && ops[i].client_order_id == id;
            if i < before.len() {
                assert(before[i] == ops[i]);
            }
        }
    }
}

/// What a settlement asks for. An accepted batch needs no fresh nonce, counts its creates and hands
/// the reported quota on. A rejected one tells its kind; none of its orders count; all kinds but too
/// many requests call for a fresh nonce, each for a reason of its own, and a used-up quota is
/// published as zero. A batch that was not sent asks for nothing but its creates to be freed; one
/// whose outcome is unknown frees nothing, and calls for a fresh nonce.
pub proof fn settlements_follow_the_outcome(
    r: Settlement,
    ops: Seq<BatchOp>,
    result: TxSendResult,
)
    requires
        settlement_of(r, ops, result),
    ensures
        r.reject is Some <==> result.status == TxSendStatus::Rejected,
        result.status != TxSendStatus::Accepted ==> r.accepted@.len() == 0,
        result.status == TxSendStatus::Accepted ==> r.resync is None && r.quota
            == result.quota_remaining && r.accepted@.len() == creates_among(ops),
        result.status == TxSendStatus::NotSent ==> r.resync is None && r.quota is None,
        result.status == TxSendStatus::Unknown ==> r.resync == Some(ResyncReason::TxUnknown)
            && r.quota is None && r.events@.len() == 0,
        result.status == TxSendStatus::NotSent || result.status == TxSendStatus::Rejected
            ==> r.events@ == freed_creates(ops),
        result.status == TxSendStatus::Rejected ==> {
            &&& r.reject->0 == RejectKind::RateLimit <==> r.resync is None
            &&& r.reject->0 == RejectKind::Quota <==> r.resync == Some(ResyncReason::RejectQuota)
            &&& r.reject->0 == RejectKind::Nonce <==> r.resync == Some(ResyncReason::RejectNonce)
            &&& r.reject->0 == RejectKind::MakerOnly || r.reject->0 == RejectKind::Other
                <==> r.resync == Some(ResyncReason::RejectOther)
            &&& r.reject->0 == RejectKind::Quota ==> r.quota == Some(0i64)
            &&& r.reject->0 != RejectKind::Quota ==> r.quota is None
        },
{
    accepted_orders_are_the_creates(ops, 0);
}

/// What an outcome does to the nonces: those of a batch that was surely not carried out are given
/// back, one for each operation; where the exchange took it, may have taken it, or calls the nonces
/// wrong, the counter stays.
pub proof fn outcomes_settle_the_nonces(
    r: Settlement,
    s: Nonces,
    ops: Seq<BatchOp>,
    result: TxSendResult,
)
    requires
        settlement_of(r, ops, result),
    ensures
        ({
            let t = nonces_after(s, ops.len(), result);
            let back = result.status == TxSendStatus::NotSent || result.status
                == TxSendStatus::Rejected && r.reject != Some(RejectKind::Nonce);
            &&& back ==> t.last == s.last - ops.len()
            &&& !back ==> t.last == s.last
            &&& t.account_index == s.account_index && t.api_key_index == s.api_key_index
        }),
{
}

/// What an outcome does to the pacing. An accepted batch counts its operations, as of now, on top of
/// those that count already, and is the last send; it takes the quota over where one is reported. Too
/// many requests start a backoff, a used-up quota is noted, and nothing else changes anything.
pub proof fn outcomes_settle_the_pacing(
    r: Settlement,
    s: Limits,
    ops: Seq<BatchOp>,
    result: TxSendResult,
    now: u64,
)
    requires
        settlement_of(r, ops, result),
        s.backoff_level < u32::MAX,
        now <= 0x7FFF_FFFF_FFFF_FFFF,
    ensures
        ({
            let t = limits_after(s, ops.len(), result, now);
            &&& t.threshold == s.threshold && t.min_interval == s.min_interval
            &&& result.status == TxSendStatus::Accepted ==> {
                &&& t.window.len() == s.window.len() + ops.len()
                &&& forall|i: int| 0 <= i < s.window.len() ==> #[trigger] t.window[i] == s.window[i]
                &&& forall|i: int|
                    s.window.len() <= i < t.window.len() ==> #[trigger] t.window[i] == now
                &&& t.last_send == Some(now)
                &&& result.quota_remaining is Some ==> t.quota == result.quota_remaining
                &&& result.quota_remaining is None ==> t.quota == s.quota
                &&& t.backoff_until == s.backoff_until && t.backoff_trigger == s.backoff_trigger
            }
            &&& result.status != TxSendStatus::Accepted ==> t.window == s.window && t.last_send
                == s.last_send
            &&& r.reject == Some(RejectKind::RateLimit) ==> {
                &&& t.backoff_level == s.backoff_level + 1 && t.successes == 0
                &&& t.backoff_trigger == Some(now)
                &&& t.backoff_until is Some
                &&& now + 15_000_000_000 <= t.backoff_until->0 <= now + 120_000_000_000
                &&& s.backoff_level == 0 ==> t.backoff_until->0 == now + 15_000_000_000
                &&& t.quota == s.quota
            }
            &&& r.reject == Some(RejectKind::Quota) ==> t == (Limits { quota: Some(0i64), ..s })
            &&& result.status != TxSendStatus::Accepted && r.reject != Some(RejectKind::RateLimit)
                && r.reject != Some(RejectKind::Quota) ==> t == s
        }),
{
    if r.reject == Some(RejectKind::RateLimit) {
        crate::exec::rate_limit::backoff_grows_to_its_cap((s.backoff_level + 1) as nat);
        vstd::arithmetic::power2::lemma2_to64();
    }
}

/// What an outcome does to the circuit breaker: an acceptance forgets the rejections and nothing
/// else, a rejection is one more, and any other outcome changes nothing.
pub proof fn outcomes_reach_the_breaker(s: Risk, result: TxSendResult, now: u64)
    ensures
        ({
            let t = risk_after(s, result, now);
            &&& result.status == TxSendStatus::Accepted ==> t == (Risk { rejections: 0, ..s })
            &&& result.status == TxSendStatus::Rejected && s.rejections < u32::MAX ==> t.rejections
                == s.rejections + 1
            &&& result.status == TxSendStatus::Rejected && 0 < s.max_rejections <= s.rejections + 1
                ==> t.paused_until is Some
            &&& result.status == TxSendStatus::Rejected && (s.max_rejections == 0 || s.rejections
                + 1 < s.max_rejections) ==> t.paused_until == s.paused_until
            &&& result.status == TxSendStatus::NotSent || result.status == TxSendStatus::Unknown
                ==> t == s
        }),
{
}

} // verus!
