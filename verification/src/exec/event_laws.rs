//! Laws of what the tracker learns: what each event and each snapshot of the exchange makes of the
//! slots and of the ids.
use vstd::prelude::*;
use crate::exec::id_map::{newer, recorded, ID_MAP_CAP, ID_MAP_RECENT};
use crate::exec::order_manager::{
    after_event, cell_side, cell_slot, holder, last_with, mapped, reconciled, seen_live, settled,
    slot_at, tracked_ids, OrderSlot, Orders, RECONCILE_GRACE_NS,
};
use crate::exec::plan_laws::held_at;
use crate::lighter::messages::RemoteOrder;
use crate::num::{spec_epsilon, Num};
use crate::types::{OrderEvent, Side, SideStatus};

verus! {

/// Whether a slot holds no order, since the given time.
pub open spec fn is_free(slot: OrderSlot, now: u64) -> bool {
    &&& slot.status == SideStatus::Idle
    &&& slot.order_id is None && slot.price is None && slot.size is None
    &&& slot.updated_at == now && slot.miss == 0
}

/// Whether two states differ in one slot at most.
pub open spec fn same_elsewhere(s: Orders, t: Orders, side: Side, level: int) -> bool {
    &&& t.bids.len() == s.bids.len() && t.asks.len() == s.asks.len()
    &&& t.last_id == s.last_id && t.amount_tick == s.amount_tick
    &&& forall|other: Side, l: int|
        0 <= l < s.bids.len() && (other != side || l != level) ==> #[trigger] held_at(t, other, l)
            == held_at(s, other, l)
}

/// An order that is reported as resting fills its slot: live, under its id, at the price and of the
/// size that the report gives. No other slot changes. An exchange id that comes with the report is
/// known from then on, where the order was tracked or few ids are known; without one the known ids
/// stay as they are.
pub proof fn reported_orders_fill_their_slot(
    s: Orders,
    side: Side,
    level: usize,
    cid: i64,
    eid: Option<i64>,
    price: Num,
    size: Num,
    remaining: Option<Num>,
    now: u64,
)
    requires
        s.bids.len() == s.asks.len(),
        level < s.bids.len(),
        s.ids.dom().finite(),
    ensures
        ({
            let t = after_event(
                s,
                (OrderEvent::BindLive {
                    side,
                    level,
                    client_order_id: cid,
                    exchange_id: eid,
                    price,
                    size,
                }),
                remaining,
                now,
            );
            let slot = held_at(t, side, level as int);
            &&& slot.status == SideStatus::Live
            &&& slot.order_id == Some(cid)
            &&& slot.price == Some(price)
            &&& slot.size == Some(size)
            &&& slot.updated_at == now && slot.miss == 0
            &&& same_elsewhere(s, t, side, level as int)
            &&& eid is None ==> t.ids == s.ids
            &&& eid is Some && (tracked_ids(s).contains(cid) || s.ids.dom().len() < ID_MAP_CAP)
                ==> t.ids.contains_key(cid) && t.ids[cid] == eid->0
            &&& forall|id: i64|
                id != cid && tracked_ids(s).contains(id) && s.ids.contains_key(id)
                    ==> #[trigger] t.ids.contains_key(id) && t.ids[id] == s.ids[id]
        }),
{
    if let Some(e) = eid {
        ids_are_recorded(s.ids, tracked_ids(s).to_set(), cid, e, cid);
        assert forall|id: i64|
            id != cid && tracked_ids(s).contains(id) && s.ids.contains_key(
                id,
            ) implies #[trigger] recorded(s.ids, tracked_ids(s).to_set(), cid, e).contains_key(id)
            && recorded(s.ids, tracked_ids(s).to_set(), cid, e)[id] == s.ids[id] by {
            ids_are_recorded(s.ids, tracked_ids(s).to_set(), cid, e, id);
        }
    }
}

/// An order that is reported as gone frees its slot, where the slot holds that order or the report
/// is of any order; otherwise nothing changes. No other slot changes, and no id is forgotten.
pub proof fn reported_departures_free_the_slot(
    s: Orders,
    side: Side,
    level: usize,
    cid: i64,
    remaining: Option<Num>,
    now: u64,
)
    requires
        s.bids.len() == s.asks.len(),
        level < s.bids.len(),
    ensures
        ({
            let t = after_event(
                s,
                (OrderEvent::ClearLive { side, level, client_order_id: cid }),
                remaining,
                now,
            );
            let held = held_at(s, side, level as int).order_id;
            &&& cid == 0 || held == Some(cid) ==> is_free(held_at(t, side, level as int), now)
            &&& cid != 0 && held != Some(cid) ==> t == s
            &&& same_elsewhere(s, t, side, level as int)
            &&& t.ids == s.ids
        }),
{
}

/// Once every order is reported as gone, every slot is free. No id is forgotten.
pub proof fn clearing_all_frees_every_slot(s: Orders, remaining: Option<Num>, now: u64)
    requires
        s.bids.len() == s.asks.len(),
    ensures
        ({
            let t = after_event(s, OrderEvent::ClearAll, remaining, now);
            &&& t.bids.len() == s.bids.len() && t.asks.len() == s.asks.len()
            &&& forall|side: Side, level: int|
                0 <= level < s.bids.len() ==> is_free(#[trigger] held_at(t, side, level), now)
            &&& t.ids == s.ids && t.last_id == s.last_id && t.amount_tick == s.amount_tick
        }),
{
}

/// An exchange id that becomes known is known from then on, where the order is tracked or few ids
/// are known, and the ids of the other tracked orders stay known.
pub proof fn resolved_ids_are_known(
    s: Orders,
    cid: i64,
    eid: i64,
    remaining: Option<Num>,
    now: u64,
    id: i64,
)
    requires
        s.ids.dom().finite(),
    ensures
        ({
            let t = after_event(
                s,
                (OrderEvent::IdResolved { client_order_id: cid, exchange_id: eid }),
                remaining,
                now,
            );
            &&& t.bids == s.bids && t.asks == s.asks
            &&& tracked_ids(s).contains(cid) || s.ids.dom().len() < ID_MAP_CAP
                ==> t.ids.contains_key(cid) && t.ids[cid] == eid
            &&& id != cid && tracked_ids(s).contains(id) && s.ids.contains_key(id)
                ==> t.ids.contains_key(id) && t.ids[id] == s.ids[id]
        }),
{
    ids_are_recorded(s.ids, tracked_ids(s).to_set(), cid, eid, cid);
    ids_are_recorded(s.ids, tracked_ids(s).to_set(), cid, eid, id);
}

/// What recording a pair of ids leaves. No exchange id is changed but that of the pair. While the
/// map has room nothing is forgotten; beyond that an id is forgotten only where it is not live and
/// as many ids above it as are kept are not live either, and then it is.
pub proof fn ids_are_recorded(m: Map<i64, i64>, live: Set<i64>, k: i64, v: i64, id: i64)
    requires
        m.dom().finite(),
    ensures
        ({
            let r = recorded(m, live, k, v);
            let known = id == k || m.contains_key(id);
            &&& r.dom().finite()
            &&& r.contains_key(id) ==> known && r[id] == if id == k {
                v
            } else {
                m[id]
            }
            &&& known && live.contains(id) ==> r.contains_key(id)
            &&& known && (m.dom().len() < ID_MAP_CAP || m.dom().len() == ID_MAP_CAP
                && m.contains_key(k)) ==> r.contains_key(id)
            &&& known && m.insert(k, v).dom().len() > ID_MAP_CAP && !live.contains(id) ==> (
            r.contains_key(id) <==> m.insert(k, v).dom().filter(
                |j: i64| !live.contains(j) && j > id,
            ).len() < ID_MAP_RECENT)
        }),
{
    let grown = m.insert(k, v);
    assert(grown.dom() =~= m.dom().insert(k));
    let kept = recorded(m, live, k, v).dom();
    assert(kept =~= grown.dom().intersect(kept));
    assert(newer(grown, live, id) =~= grown.dom().filter(|j: i64| !live.contains(j) && j > id));
}

proof fn lemma_sole_holder(s: Orders, cid: i64, at: int, cell: int)
    requires
        0 <= at <= cell < 2 * s.bids.len(),
        cell_slot(s, cell).order_id == Some(cid),
        forall|k: int|
            0 <= k < 2 * s.bids.len() && k != cell ==> (#[trigger] cell_slot(s, k)).order_id != Some(
                cid,
            ),
    ensures
        holder(s, cid, at) == Some(cell),
    decreases cell - at,
{
    if at < cell {
        assert(cell_slot(s, at).order_id != Some(cid));
        lemma_sole_holder(s, cid, at + 1, cell);
    }
}

proof fn lemma_no_holder(s: Orders, cid: i64, at: int)
    requires
        0 <= at,
        forall|k: int|
            0 <= k < 2 * s.bids.len() ==> (#[trigger] cell_slot(s, k)).order_id != Some(cid),
    ensures
        holder(s, cid, at) is None,
    decreases 2 * s.bids.len() - at,
{
    if at < 2 * s.bids.len() {
        assert(cell_slot(s, at).order_id != Some(cid));
        lemma_no_holder(s, cid, at + 1);
    }
}

/// A fill of an order that one slot holds: where more remains than a tick, and than next to nothing,
/// the order stays in its slot with that size; otherwise, and where the tracked size is not known,
/// the slot is free. No other slot changes, and no id is forgotten.
pub proof fn fills_reach_their_order(
    s: Orders,
    side: Side,
    level: int,
    cid: i64,
    filled: Num,
    remaining: Option<Num>,
    now: u64,
)
    requires
        s.bids.len() == s.asks.len(),
        0 <= level < s.bids.len(),
        held_at(s, side, level).order_id == Some(cid),
        forall|other: Side, l: int|
            0 <= l < s.bids.len() && (other != side || l != level) ==> (#[trigger] held_at(
                s,
                other,
                l,
            )).order_id != Some(cid),
    ensures
        ({
            let t = after_event(
                s,
                (OrderEvent::Fill { client_order_id: cid, filled_size: filled }),
                remaining,
                now,
            );
            let before = held_at(s, side, level);
            let after = held_at(t, side, level);
            let stays = before.size is Some && remaining is Some && spec_epsilon().below(
                remaining->0,
            ) && (s.amount_tick.nan() || s.amount_tick.below(remaining->0));
            &&& stays ==> after.order_id == Some(cid) && after.size == remaining && after.price
                == before.price && after.status == before.status && after.updated_at == now
                && after.miss == 0
            &&& !stays ==> is_free(after, now)
            &&& same_elsewhere(s, t, side, level)
            &&& t.ids == s.ids
        }),
{
    let cell = 2 * level + if side == Side::Buy {
        0int
    } else {
        1int
    };
    assert(cell / 2 == level && cell_side(cell) == side);
    assert(cell_slot(s, cell) == held_at(s, side, level));
    assert forall|k: int| 0 <= k < 2 * s.bids.len() && k != cell implies (#[trigger] cell_slot(
        s,
        k,
    )).order_id != Some(cid) by {
        assert(cell_slot(s, k) == held_at(s, cell_side(k), k / 2));
        assert(cell_side(k) != side || k / 2 != level);
    }
    lemma_sole_holder(s, cid, 0, cell);
}

/// A fill of an order that no slot holds changes nothing.
pub proof fn foreign_fills_change_nothing(
    s: Orders,
    cid: i64,
    filled: Num,
    remaining: Option<Num>,
    now: u64,
)
    requires
        s.bids.len() == s.asks.len(),
        forall|side: Side, l: int|
            0 <= l < s.bids.len() ==> (#[trigger] held_at(s, side, l)).order_id != Some(cid),
    ensures
        after_event(
            s,
            (OrderEvent::Fill { client_order_id: cid, filled_size: filled }),
            remaining,
            now,
        ) == s,
{
    assert forall|k: int| 0 <= k < 2 * s.bids.len() implies (#[trigger] cell_slot(s, k)).order_id
        != Some(cid) by {
        assert(cell_slot(s, k) == held_at(s, cell_side(k), k / 2));
    }
    lemma_no_holder(s, cid, 0);
}

/// Whether the `i`-th order of a snapshot is the last one with this client id.
pub open spec fn last_shown(remote: Seq<RemoteOrder>, i: int, cid: i64) -> bool {
    &&& 0 <= i < remote.len() && remote[i].client_order_index == Some(cid)
    &&& forall|j: int| i < j < remote.len() ==> (#[trigger] remote[j]).client_order_index != Some(cid)
}

proof fn lemma_last_shown(remote: Seq<RemoteOrder>, i: int, cid: i64)
    requires
        last_shown(remote, i, cid),
    ensures
        last_with(remote, cid) == Some(remote[i]),
    decreases remote.len(),
{
    assert(remote.last() == remote[remote.len() - 1]);
    if i < remote.len() - 1 {
        let rest = remote.drop_last();
        assert(rest[i] == remote[i]);
        assert forall|j: int| i < j < rest.len() implies (#[trigger] rest[j]).client_order_index
            != Some(cid) by {
            assert(rest[j] == remote[j]);
        }
        lemma_last_shown(rest, i, cid);
    }
}

proof fn lemma_not_shown(remote: Seq<RemoteOrder>, cid: i64)
    requires
        forall|j: int|
            0 <= j < remote.len() ==> (#[trigger] remote[j]).client_order_index != Some(cid),
    ensures
        last_with(remote, cid) is None,
    decreases remote.len(),
{
    if remote.len() > 0 {
        let rest = remote.drop_last();
        assert(remote.last() == remote[remote.len() - 1]);
        assert forall|j: int| 0 <= j < rest.len() implies (#[trigger] rest[j]).client_order_index
            != Some(cid) by {
            assert(rest[j] == remote[j]);
        }
        lemma_not_shown(rest, cid);
    }
}

/// An order that a snapshot shows as resting, and not on the other side, is live in its slot, as of
/// now, and misses no snapshot. It has the price and the size that the snapshot reports, whatever
/// was tracked before; what the snapshot leaves out stays as it was tracked. Where a price or a size
/// is then still not known, both stay as they were.
pub proof fn resting_orders_are_taken_over(
    slot: OrderSlot,
    side: Side,
    remote: Seq<RemoteOrder>,
    now: u64,
    cid: i64,
    i: int,
)
    requires
        slot.order_id == Some(cid),
        last_shown(remote, i, cid),
        remote[i].live(),
        side == Side::Buy ==> remote[i].is_ask != Some(true),
        side == Side::Sell ==> remote[i].is_ask != Some(false),
    ensures
        ({
            let o = remote[i];
            let r = settled(slot, side, remote, now);
            &&& r.order_id == Some(cid)
            &&& r.status == SideStatus::Live
            &&& r.updated_at == now && r.miss == 0
            &&& o.price is Some && o.remaining_base_amount is Some ==> r.price == o.price && r.size
                == o.remaining_base_amount
            &&& o.price is Some && o.remaining_base_amount is None && slot.size is Some ==> r.price
                == o.price && r.size == slot.size
            &&& o.price is None && slot.price is Some && o.remaining_base_amount is Some ==> r.price
                == slot.price && r.size == o.remaining_base_amount
            &&& o.price is None && o.remaining_base_amount is None || o.price is None && slot.price
                is None || o.remaining_base_amount is None && slot.size is None ==> r.price
                == slot.price && r.size == slot.size
        }),
{
    lemma_last_shown(remote, i, cid);
    assert(seen_live(remote, cid));
}

/// An order that a snapshot shows as resting, but on the other side or, under the same id, as gone
/// later in the list, keeps its slot as it is and misses no snapshot.
pub proof fn doubtful_orders_are_left_alone(
    slot: OrderSlot,
    side: Side,
    remote: Seq<RemoteOrder>,
    now: u64,
    cid: i64,
    i: int,
    k: int,
)
    requires
        slot.order_id == Some(cid),
        0 <= k < remote.len() && remote[k].client_order_index == Some(cid) && remote[k].live(),
        last_shown(remote, i, cid),
        !remote[i].live() || side == Side::Buy && remote[i].is_ask == Some(true) || side
            == Side::Sell && remote[i].is_ask == Some(false),
    ensures
        settled(slot, side, remote, now) == (OrderSlot { miss: 0, ..slot }),
{
    lemma_last_shown(remote, i, cid);
    assert(remote[k].live());
    assert(seen_live(remote, cid));
}

/// An order that a snapshot does not show as resting misses it. Its slot is free exactly where it
/// missed the one before too and was not updated within the grace period; otherwise all but the
/// count of misses stays as it was. A slot without an order is not changed by any snapshot.
pub proof fn missing_orders_are_counted(
    slot: OrderSlot,
    side: Side,
    remote: Seq<RemoteOrder>,
    now: u64,
)
    requires
        forall|j: int|
            0 <= j < remote.len() && slot.order_id is Some && (
            #[trigger] remote[j]).client_order_index == slot.order_id ==> !remote[j].live(),
    ensures
        ({
            let r = settled(slot, side, remote, now);
            &&& slot.order_id is None ==> r == slot
            &&& slot.order_id is Some ==> {
                let freed = slot.miss >= 1 && now >= slot.updated_at + 5_000_000_000;
                &&& freed ==> is_free(r, now)
                &&& !freed ==> r.order_id == slot.order_id && r.status == slot.status && r.price
                    == slot.price && r.size == slot.size && r.updated_at == slot.updated_at
                &&& !freed && slot.miss < u32::MAX ==> r.miss == slot.miss + 1
            }
        }),
{
    if let Some(cid) = slot.order_id {
        if seen_live(remote, cid) {
            let j = choose|j: int|
                0 <= j < remote.len() && #[trigger] remote[j].live() && remote[j].client_order_index
                    == Some(cid);
            assert(!remote[j].live());
        }
        lemma_last_gone(remote, cid);
    }
}

proof fn lemma_last_gone(remote: Seq<RemoteOrder>, cid: i64)
    requires
        !seen_live(remote, cid),
    ensures
        last_with(remote, cid) matches Some(o) ==> !o.live(),
    decreases remote.len(),
{
    if remote.len() > 0 {
        let rest = remote.drop_last();
        assert(remote.last() == remote[remote.len() - 1]);
        if seen_live(rest, cid) {
            let i = choose|i: int|
                0 <= i < rest.len() && #[trigger] rest[i].live() && rest[i].client_order_index
                    == Some(cid);
            assert(remote[i].live());
        }
        lemma_last_gone(rest, cid);
    }
}

/// A snapshot reaches every slot of both sides, each by its own side, and adds or drops none.
pub proof fn snapshots_reach_every_slot(s: Orders, remote: Seq<RemoteOrder>, now: u64)
    requires
        s.bids.len() == s.asks.len(),
    ensures
        ({
            let t = reconciled(s, remote, now);
            &&& t.bids.len() == s.bids.len() && t.asks.len() == s.asks.len()
            &&& forall|side: Side, level: int|
                0 <= level < s.bids.len() ==> #[trigger] held_at(t, side, level) == settled(
                    held_at(s, side, level),
                    side,
                    remote,
                    now,
                )
            &&& t.last_id == s.last_id && t.amount_tick == s.amount_tick
        }),
{
}

/// A snapshot teaches the exchange ids that it shows: that of a tracked order is known from then on
/// as the last one with its client id that the snapshot shows; a tracked order of which it shows
/// none keeps the one it had.
pub proof fn snapshots_teach_ids(s: Orders, remote: Seq<RemoteOrder>, now: u64, cid: i64)
    requires
        tracked_ids(s).contains(cid),
        s.ids.dom().finite(),
    ensures
        ({
            let ids = reconciled(s, remote, now).ids;
            &&& forall|i: int|
                0 <= i < remote.len() && (#[trigger] remote[i]).client_order_index == Some(cid)
                    && remote[i].order_index is Some && (forall|j: int|
                    i < j < remote.len() && (#[trigger] remote[j]).client_order_index == Some(cid)
                        ==> remote[j].order_index is None) ==> ids.contains_key(cid) && ids[cid]
                    == remote[i].order_index->0
            &&& (forall|j: int|
                0 <= j < remote.len() && (#[trigger] remote[j]).client_order_index == Some(cid)
                    ==> remote[j].order_index is None) ==> (ids.contains_key(cid)
                <==> s.ids.contains_key(cid)) && (ids.contains_key(cid) ==> ids[cid] == s.ids[cid])
        }),
{
    let n = remote.len();
    assert forall|i: int|
        0 <= i < n && (#[trigger] remote[i]).client_order_index == Some(cid)
            && remote[i].order_index is Some && (forall|j: int|
            i < j < n && (#[trigger] remote[j]).client_order_index == Some(cid)
                ==> remote[j].order_index is None) implies mapped(s, remote, n).contains_key(cid)
        && mapped(s, remote, n)[cid] == remote[i].order_index->0 by {
        lemma_mapped_at(s, remote, n, cid, i);
    }
    if forall|j: int|
        0 <= j < n && (#[trigger] remote[j]).client_order_index == Some(cid)
            ==> remote[j].order_index is None {
        lemma_mapped_kept(s, remote, n, cid);
    }
}

proof fn lemma_mapped_finite(s: Orders, remote: Seq<RemoteOrder>, n: nat)
    requires
        s.ids.dom().finite(),
    ensures
        mapped(s, remote, n).dom().finite(),
    decreases n,
{
    if n > 0 {
        lemma_mapped_finite(s, remote, (n - 1) as nat);
        let o = remote[n - 1];
        if let (Some(c), Some(e)) = (o.client_order_index, o.order_index) {
            ids_are_recorded(mapped(s, remote, (n - 1) as nat), tracked_ids(s).to_set(), c, e, c);
        }
    }
}

proof fn lemma_mapped_kept(s: Orders, remote: Seq<RemoteOrder>, n: nat, cid: i64)
    requires
        n <= remote.len(),
        tracked_ids(s).contains(cid),
        s.ids.dom().finite(),
        forall|j: int|
            0 <= j < n && (#[trigger] remote[j]).client_order_index == Some(cid)
                ==> remote[j].order_index is None,
    ensures
        mapped(s, remote, n).contains_key(cid) <==> s.ids.contains_key(cid),
        s.ids.contains_key(cid) ==> mapped(s, remote, n)[cid] == s.ids[cid],
    decreases n,
{
    if n > 0 {
        lemma_mapped_kept(s, remote, (n - 1) as nat, cid);
        lemma_mapped_finite(s, remote, (n - 1) as nat);
        let o = remote[n - 1];
        if let (Some(c), Some(e)) = (o.client_order_index, o.order_index) {
            ids_are_recorded(
                mapped(s, remote, (n - 1) as nat),
                tracked_ids(s).to_set(),
                c,
                e,
                cid,
            );
        }
    }
}

proof fn lemma_mapped_at(s: Orders, remote: Seq<RemoteOrder>, n: nat, cid: i64, i: int)
    requires
        0 <= i < n <= remote.len(),
        tracked_ids(s).contains(cid),
        s.ids.dom().finite(),
        remote[i].client_order_index == Some(cid),
        remote[i].order_index is Some,
        forall|j: int|
            i < j < n && (#[trigger] remote[j]).client_order_index == Some(cid)
                ==> remote[j].order_index is None,
    ensures
        mapped(s, remote, n).contains_key(cid),
        mapped(s, remote, n)[cid] == remote[i].order_index->0,
    decreases n,
{
    lemma_mapped_finite(s, remote, (n - 1) as nat);
    let o = remote[n - 1];
    if i < n - 1 {
        lemma_mapped_at(s, remote, (n - 1) as nat, cid, i);
    }
    if let (Some(c), Some(e)) = (o.client_order_index, o.order_index) {
        ids_are_recorded(mapped(s, remote, (n - 1) as nat), tracked_ids(s).to_set(), c, e, cid);
    }
}

} // verus!
