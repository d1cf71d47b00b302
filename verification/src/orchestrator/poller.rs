//! The reconcile poller: what a poll of the exchange's orders means for trading, and which orders
//! it takes off the book.
//!
//! Times of the risk controller are nanoseconds of its clock, ages are milliseconds.
use vstd::prelude::*;
use vstd::string::StringExecFns;
use crate::lighter::messages::RemoteOrder;
use crate::lighter::rest::{code_ok, is_success_code};
use crate::risk::{after_pause, after_reconcile, paused, recovery, Risk, RiskController};
use crate::text::{decimal, decimal_text};

verus! {

/// What a pause gives as its reason where reconciliations keep failing.
pub open spec fn streak_reason(reason: Seq<char>, streak: u32) -> Seq<char> {
    "reconcile mismatch ("@ + reason + ") streak="@ + decimal(streak as nat)
}

/// The number, but one at least.
pub open spec fn one_or_more(n: u32) -> u32 {
    if n == 0 {
        1
    } else {
        n
    }
}

/// The controller after a poll that failed: it pauses where so many failed in a row.
pub open spec fn after_failed_poll(
    s: Risk,
    reason: Seq<char>,
    debounce: u32,
    now: u64,
) -> Risk {
    let t = after_reconcile(s, false, reason, now);
    if t.mismatch_streak >= one_or_more(debounce) {
        after_pause(t, streak_reason(reason, t.mismatch_streak), now)
    } else {
        t
    }
}

/// Whether market data are so old that nothing may rest on the book. Data that never came are
/// not old.
pub open spec fn data_dead(md_age: u64, limit: u64) -> bool {
    md_age != u64::MAX && md_age > limit
}

/// What a pause gives as its reason where market data are old.
pub open spec fn stale_reason(md_age: u64) -> Seq<char> {
    "market data stale "@ + decimal(md_age as nat) + "ms"@
}

/// The controller after a look at the age of the market data, and whether every order is to be
/// cancelled: that happens once for each pause.
pub open spec fn after_deadman(s: Risk, md_age: u64, limit: u64, now: u64) -> (Risk, bool) {
    if data_dead(md_age, limit) {
        let t = after_reconcile(s, false, "md_stale"@, now);
        let u = if paused(t, now) {
            t
        } else {
            after_pause(t, stale_reason(md_age), now)
        };
        (Risk { pause_cancel_done: true, ..u }, !u.pause_cancel_done)
    } else {
        (s, false)
    }
}

/// The client ids of the first `n` orders that are not tracked.
pub open spec fn orphans_of(orders: Seq<RemoteOrder>, known: Seq<i64>, n: nat) -> Seq<i64>
    decreases n,
{
    if n == 0 {
        Seq::empty()
    } else {
        let rest = orphans_of(orders, known, (n - 1) as nat);
        match orders[n - 1].client_order_index {
            Some(c) => if known.contains(c) {
                rest
            } else {
                rest.push(c)
            },
            None => rest,
        }
    }
}

/// Those of the first `n` orders that are to be cancelled: not tracked now, an orphan of the poll
/// before, and with an id of the exchange.
pub open spec fn doomed(
    orders: Seq<RemoteOrder>,
    known: Seq<i64>,
    before: Seq<i64>,
    n: nat,
) -> Seq<(i64, i64)>
    decreases n,
{
    if n == 0 {
        Seq::empty()
    } else {
        let rest = doomed(orders, known, before, (n - 1) as nat);
        match (orders[n - 1].client_order_index, orders[n - 1].order_index) {
            (Some(c), Some(e)) => if !known.contains(c) && before.contains(c) {
                rest.push((c, e))
            } else {
                rest
            },
            _ => rest,
        }
    }
}

/// What a pause gives as its reason where the exchange has too many orders.
pub open spec fn crowd_reason(count: nat, max: nat) -> Seq<char> {
    "exchange has "@ + decimal(count) + " live orders (> "@ + decimal(max) + ")"@
}

/// The controller after a poll that gave the orders.
pub open spec fn after_orders(
    s: Risk,
    orders: Seq<RemoteOrder>,
    known: Seq<i64>,
    max_live: nat,
    debounce: u32,
    now: u64,
) -> Risk {
    if orders.len() > max_live {
        after_pause(
            after_reconcile(s, false, "too_many_orders"@, now),
            crowd_reason(orders.len(), max_live),
            now,
        )
    } else if orphans_of(orders, known, orders.len()).len() == 0 {
        after_reconcile(s, true, "poll_ok"@, now)
    } else {
        after_failed_poll(s, "orphans_present"@, debounce, now)
    }
}

/// What is to be done with the orders of a poll.
#[derive(Debug)]
pub struct PollPlan {
    /// The position is read over the fallback way.
    pub fetch_position: bool,
    /// Every order is cancelled.
    pub cancel_all: bool,
    /// The nonce is brought in step before anything is signed.
    pub refresh_nonce: bool,
    /// The orders to be cancelled one by one: client id and the exchange's.
    pub cancels: Vec<(i64, i64)>,
}

/// What becomes of the nonce of a transaction.
#[derive(Clone, Copy, Debug, PartialEq, Eq, Structural)]
pub enum NonceStep {
    /// It was used.
    Used,
    /// It was not used, and is given back.
    GiveBack,
    /// Whether it was used is unknown: the nonce is read anew.
    Refresh,
}

/// What becomes of the nonce of a cancel: `signed` says whether it could be signed, and the code
/// is that of the reply, where one came.
pub fn cancel_nonce_step(signed: bool, reply_code: Option<i64>) -> (r: NonceStep)
    ensures
        r == if !signed {
            NonceStep::GiveBack
        } else if reply_code is Some && code_ok(reply_code->0) {
            NonceStep::Used
        } else {
            NonceStep::Refresh
        },
{
    if !signed {
        return NonceStep::GiveBack;
    }
    match reply_code {
        Some(code) => if is_success_code(code) {
            NonceStep::Used
        } else {
            NonceStep::Refresh
        },
        None => NonceStep::Refresh,
    }
}

fn has_id(ids: &Vec<i64>, id: i64) -> (r: bool)
    ensures
        r == ids@.contains(id),
{
    let mut i: usize = 0;
    while i < ids.len()
        invariant
            i <= ids@.len(),
            forall|k: int| 0 <= k < i ==> #[trigger] ids@[k] != id,
        decreases ids@.len() - i,
    {
        if ids[i] == id {
            return true;
        }
        i = i + 1;
    }
    false
}

/// The client ids of the orders that are not tracked.
pub fn orphan_ids(orders: &Vec<RemoteOrder>, known: &Vec<i64>) -> (r: Vec<i64>)
    ensures
        r@ == orphans_of(orders@, known@, orders@.len()),
{
    let mut r: Vec<i64> = Vec::new();
    let mut i: usize = 0;
    while i < orders.len()
        invariant
            i <= orders@.len(),
            r@ == orphans_of(orders@, known@, i as nat),
        decreases orders@.len() - i,
    {
        if let Some(c) = orders[i].client_order_index {
            if !has_id(known, c) {
                r.push(c);
            }
        }
        i = i + 1;
    }
    r
}

/// The orders that are to be cancelled one by one.
pub fn doomed_orders(orders: &Vec<RemoteOrder>, known: &Vec<i64>, before: &Vec<i64>) -> (r: Vec<
    (i64, i64),
>)
    ensures
        r@ == doomed(orders@, known@, before@, orders@.len()),
{
    let mut r: Vec<(i64, i64)> = Vec::new();
    let mut i: usize = 0;
    while i < orders.len()
        invariant
            i <= orders@.len(),
            r@ == doomed(orders@, known@, before@, i as nat),
        decreases orders@.len() - i,
    {
        if let (Some(c), Some(e)) = (orders[i].client_order_index, orders[i].order_index) {
            if !has_id(known, c) && has_id(before, c) {
                r.push((c, e));
            }
        }
        i = i + 1;
    }
    r
}

/// Settings of the poller, and the orphans of its last poll.
#[derive(Clone, Debug)]
pub struct Poller {
    /// Most orders that may rest; at least one may.
    pub max_live: usize,
    /// So many failed polls in a row pause trading; at least one does.
    pub debounce: u32,
    /// Market data older than this are dead.
    pub deadman_ms: u64,
    /// A position older than this is read over the fallback way.
    pub position_fallback_ms: u64,
    pub prev_orphans: Vec<i64>,
}

impl Poller {
    /// Most orders that may rest.
    pub open spec fn spec_max_live(&self) -> nat {
        if self.max_live == 0 {
            1
        } else {
            self.max_live as nat
        }
    }

    /// Looks at the age of the market data before a poll: whether every order is to be cancelled.
    pub fn deadman(&self, risk: &mut RiskController, md_age: u64, now: u64) -> (r: bool)
        ensures
            (final(risk)@, r) == after_deadman(old(risk)@, md_age, self.deadman_ms, now),
    {
        if md_age == u64::MAX || md_age <= self.deadman_ms {
            return false;
        }
        risk.mark_reconcile(false, "md_stale", now);
        if !risk.is_paused(now) {
            let age: String = decimal_text(md_age);
            let reason: String = "market data stale ".to_owned().concat(age.as_str()).concat("ms");
            risk.trigger_pause(reason.as_str(), now);
        }
        let need: bool = !risk.pause_cancel_done();
        if need {
            risk.set_pause_cancel_done(true);
        }
        need
    }

    /// A poll failed: reasons are `auth_token` and `rest_active_orders`, and `orphans_present`
    /// where orders were found that are not tracked.
    pub fn poll_failed(&self, risk: &mut RiskController, reason: &str, now: u64)
        ensures
            final(risk)@ == after_failed_poll(old(risk)@, reason@, self.debounce, now),
    {
        risk.mark_reconcile(false, reason, now);
        let streak: u32 = risk.mismatch_streak();
        let limit: u32 = if self.debounce == 0 { 1 } else { self.debounce };
        if streak >= limit {
            let count: String = decimal_text(streak as u64);
            let msg: String = "reconcile mismatch (".to_owned().concat(reason).concat(
                ") streak=",
            ).concat(count.as_str());
            risk.trigger_pause(msg.as_str(), now);
        }
    }

    /// A poll gave the orders: health is recorded at once, and what is to be done is decided.
    pub fn on_orders(
        &mut self,
        risk: &mut RiskController,
        orders: &Vec<RemoteOrder>,
        known: &Vec<i64>,
        position_age: u64,
        nonce_ok: bool,
        now: u64,
    ) -> (r: PollPlan)
        ensures
            final(risk)@ == after_orders(
                old(risk)@,
                orders@,
                known@,
                old(self).spec_max_live(),
                old(self).debounce,
                now,
            ),
            r.fetch_position == (position_age == u64::MAX || position_age
                > old(self).position_fallback_ms),
            r.cancel_all == (orders@.len() > old(self).spec_max_live()),
            r.refresh_nonce == (!nonce_ok && !r.cancel_all),
            r.cancels@ == if r.cancel_all {
                Seq::empty()
            } else {
                doomed(orders@, known@, old(self).prev_orphans@, orders@.len())
            },
            final(self).prev_orphans@ == if r.cancel_all {
                Seq::empty()
            } else {
                orphans_of(orders@, known@, orders@.len())
            },
            final(self).max_live == old(self).max_live,
            final(self).debounce == old(self).debounce,
            final(self).deadman_ms == old(self).deadman_ms,
            final(self).position_fallback_ms == old(self).position_fallback_ms,
    {
        let max: usize = if self.max_live == 0 { 1 } else { self.max_live };
        let count: usize = orders.len();
        let fetch_position: bool = position_age == u64::MAX || position_age
            > self.position_fallback_ms;
        let orphans: Vec<i64> = orphan_ids(orders, known);
        if count > max {
            risk.mark_reconcile(false, "too_many_orders", now);
            let have: String = decimal_text(count as u64);
            let most: String = decimal_text(max as u64);
            let reason: String = "exchange has ".to_owned().concat(have.as_str()).concat(
                " live orders (> ",
            ).concat(most.as_str()).concat(")");
            risk.trigger_pause(reason.as_str(), now);
            self.prev_orphans = Vec::new();
            return PollPlan {
                fetch_position,
                cancel_all: true,
                refresh_nonce: false,
                cancels: Vec::new(),
            };
        }
        if orphans.len() == 0 {
            risk.mark_reconcile(true, "poll_ok", now);
        } else {
            self.poll_failed(risk, "orphans_present", now);
        }
        let cancels: Vec<(i64, i64)> = doomed_orders(orders, known, &self.prev_orphans);
        self.prev_orphans = orphans;
        PollPlan { fetch_position, cancel_all: false, refresh_nonce: !nonce_ok, cancels }
    }
}

proof fn lemma_orphans(orders: Seq<RemoteOrder>, known: Seq<i64>, n: nat, id: i64)
    requires
        n <= orders.len(),
        orphans_of(orders, known, n).contains(id),
    ensures
        !known.contains(id),
        exists|i: int| 0 <= i < n && (#[trigger] orders[i]).client_order_index == Some(id),
    decreases n,
{
    if n > 0 {
        let rest = orphans_of(orders, known, (n - 1) as nat);
        let all = orphans_of(orders, known, n);
        let k = choose|k: int| 0 <= k < all.len() && all[k] == id;
        if k < rest.len() {
            assert(rest[k] == id);
            lemma_orphans(orders, known, (n - 1) as nat, id);
        } else {
            assert(orders[n - 1].client_order_index == Some(id));
        }
    }
}

/// An order is cancelled as an orphan only where two polls in a row found it and neither found it
/// tracked.
pub proof fn orphans_are_cancelled_on_second_sight(
    orders: Seq<RemoteOrder>,
    known: Seq<i64>,
    prior: Seq<RemoteOrder>,
    prior_known: Seq<i64>,
    n: nat,
    i: int,
)
    requires
        n <= orders.len(),
        0 <= i < doomed(
            orders,
            known,
            orphans_of(prior, prior_known, prior.len()),
            n,
        ).len(),
    ensures
        ({
            let id = doomed(
                orders,
                known,
                orphans_of(prior, prior_known, prior.len()),
                n,
            )[i].0;
            &&& !known.contains(id)
            &&& !prior_known.contains(id)
            &&& exists|k: int|
                0 <= k < prior.len() && (#[trigger] prior[k]).client_order_index == Some(id)
        }),
    decreases n,
{
    let before = orphans_of(prior, prior_known, prior.len());
    if n > 0 {
        let rest = doomed(orders, known, before, (n - 1) as nat);
        if i < rest.len() {
            orphans_are_cancelled_on_second_sight(
                orders,
                known,
                prior,
                prior_known,
                (n - 1) as nat,
                i,
            );
        } else {
            lemma_orphans(
                prior,
                prior_known,
                prior.len(),
                doomed(orders, known, before, n)[i].0,
            );
        }
    }
}

/// Old market data cancel the orders once for each pause: a second look during the same pause
/// cancels nothing.
pub proof fn deadman_cancels_once(s: Risk, age: u64, age2: u64, limit: u64, now: u64, later: u64)
    requires
        data_dead(age, limit),
        paused(after_deadman(s, age, limit, now).0, later),
    ensures
        !after_deadman(after_deadman(s, age, limit, now).0, age2, limit, later).1,
{
}

/// While market data are old no pause ends.
pub proof fn dead_data_block_recovery(s: Risk, age: u64, limit: u64, now: u64, later: u64)
    requires
        data_dead(age, limit),
    ensures
        !recovery(after_deadman(s, age, limit, now).0, true, later).0,
{
}

/// A poll that found too many orders, or one that is not tracked, blocks the end of a pause until
/// a later poll finds all in order.
pub proof fn unclean_polls_block_recovery(
    s: Risk,
    orders: Seq<RemoteOrder>,
    known: Seq<i64>,
    max_live: nat,
    debounce: u32,
    now: u64,
)
    ensures
        after_orders(s, orders, known, max_live, debounce, now).reconcile_ok == (orders.len()
            <= max_live && orphans_of(orders, known, orders.len()).len() == 0),
{
}

/// A poll that failed counts as a failed reconciliation under its reason, and pauses trading for the
/// whole cooldown exactly where as many failed in a row as the setting says, and one at least; the
/// reason of the pause then names both. Otherwise nothing is paused.
pub proof fn failed_polls_pause_when_they_persist(
    s: Risk,
    reason: Seq<char>,
    debounce: u32,
    now: u64,
    t: u64,
)
    requires
        s.mismatch_streak < u32::MAX,
    ensures
        ({
            let r = after_failed_poll(s, reason, debounce, now);
            let trips = s.mismatch_streak + 1 >= debounce;
            &&& !r.reconcile_ok && r.reconcile_reason == reason && r.reconcile_time == Some(now)
            &&& r.mismatch_streak == s.mismatch_streak + 1
            &&& r.rejections == s.rejections
            &&& !trips ==> r.paused_until == s.paused_until && r.pause_reason == s.pause_reason
                && r.pause_cancel_done == s.pause_cancel_done
            &&& trips && now <= t < now + s.cooldown && t < u64::MAX ==> paused(r, t)
            &&& trips && t >= now + s.cooldown && !paused(s, t) ==> !paused(r, t)
            &&& trips ==> !r.pause_cancel_done && r.pause_reason == "reconcile mismatch ("@ + reason
                + ") streak="@ + decimal((s.mismatch_streak + 1) as nat)
        }),
{
}

/// Market data that came, but longer ago than allowed, count as a failed reconciliation and pause
/// trading: a pause that is on stays as it is, otherwise one of the whole cooldown begins. The orders
/// are to be cancelled where that was not done for this pause yet, and count as cancelled then. Data
/// that are young enough, or never came, change nothing.
pub proof fn dead_data_pause_trading(s: Risk, md_age: u64, limit: u64, now: u64, t: u64)
    ensures
        ({
            let (r, cancel) = after_deadman(s, md_age, limit, now);
            let dead = limit < md_age < u64::MAX;
            let was = s.paused_until is Some && now < s.paused_until->0;
            &&& !dead ==> r == s && !cancel
            &&& dead ==> {
                &&& !r.reconcile_ok && r.reconcile_reason == "md_stale"@ && r.reconcile_time == Some(
                    now,
                )
                &&& s.mismatch_streak < u32::MAX ==> r.mismatch_streak == s.mismatch_streak + 1
                &&& r.pause_cancel_done
                &&& cancel <==> !was || !s.pause_cancel_done
                &&& was ==> r.paused_until == s.paused_until && r.pause_reason == s.pause_reason
                &&& !was && now <= t < now + s.cooldown && t < u64::MAX ==> paused(r, t)
                &&& !was && t >= now + s.cooldown && !paused(s, t) ==> !paused(r, t)
                &&& !was ==> r.pause_reason == "market data stale "@ + decimal(md_age as nat)
                    + "ms"@
                &&& r.rejections == s.rejections
            }
        }),
{
}

/// What a poll that gave the orders does to the controller. More orders than may rest count as a
/// failed reconciliation and pause trading for the whole cooldown. Otherwise the reconciliation
/// succeeded where every order with a client id is tracked, and nothing is paused or resumed by it;
/// one that is not makes the poll one that failed.
pub proof fn polls_are_judged(
    s: Risk,
    orders: Seq<RemoteOrder>,
    known: Seq<i64>,
    max_live: nat,
    debounce: u32,
    now: u64,
    t: u64,
)
    ensures
        ({
            let r = after_orders(s, orders, known, max_live, debounce, now);
            let crowd = orders.len() > max_live;
            let orphan = exists|i: int|
                0 <= i < orders.len() && (#[trigger] orders[i]).client_order_index is Some
                    && !known.contains(orders[i].client_order_index->0);
            &&& crowd ==> {
                &&& !r.reconcile_ok && r.reconcile_reason == "too_many_orders"@
                &&& now <= t < now + s.cooldown && t < u64::MAX ==> paused(r, t)
                &&& t >= now + s.cooldown && !paused(s, t) ==> !paused(r, t)
                &&& r.pause_reason == "exchange has "@ + decimal(orders.len()) + " live orders (> "@
                    + decimal(max_live) + ")"@
                &&& !r.pause_cancel_done
            }
            &&& !crowd && !orphan ==> {
                &&& r.reconcile_ok && r.reconcile_reason == "poll_ok"@ && r.mismatch_streak == 0
                &&& r.paused_until == s.paused_until && r.pause_reason == s.pause_reason
                    && r.pause_cancel_done == s.pause_cancel_done && r.rejections == s.rejections
            }
            &&& !crowd && orphan ==> r == after_failed_poll(s, "orphans_present"@, debounce, now)
            &&& r.reconcile_time == Some(now)
        }),
{
    let ids = orphans_of(orders, known, orders.len());
    if ids.len() > 0 {
        lemma_orphans(orders, known, orders.len(), ids[0]);
        assert(ids.contains(ids[0]));
    }
    if exists|i: int|
        0 <= i < orders.len() && (#[trigger] orders[i]).client_order_index is Some
            && !known.contains(orders[i].client_order_index->0) {
        let i = choose|i: int|
            0 <= i < orders.len() && (#[trigger] orders[i]).client_order_index is Some
                && !known.contains(orders[i].client_order_index->0);
        orphans_are_the_untracked(orders, known, orders.len(), orders[i].client_order_index->0);
    }
}

/// An order is an orphan exactly where a poll shows it with a client id that is not tracked.
pub proof fn orphans_are_the_untracked(
    orders: Seq<RemoteOrder>,
    known: Seq<i64>,
    n: nat,
    id: i64,
)
    requires
        n <= orders.len(),
    ensures
        orphans_of(orders, known, n).contains(id) <==> !known.contains(id) && exists|i: int|
            0 <= i < n && (#[trigger] orders[i]).client_order_index == Some(id),
    decreases n,
{
    if orphans_of(orders, known, n).contains(id) {
        lemma_orphans(orders, known, n, id);
    }
    if n > 0 {
        orphans_are_the_untracked(orders, known, (n - 1) as nat, id);
        let rest = orphans_of(orders, known, (n - 1) as nat);
        let all = orphans_of(orders, known, n);
        if rest.contains(id) {
            let k = choose|k: int| 0 <= k < rest.len() && rest[k] == id;
            assert(all[k] == id);
        }
        if !known.contains(id) && orders[n - 1].client_order_index == Some(id) {
            assert(all[rest.len() as int] == id);
        }
    }
}

/// The orders that a poll cancels one by one are exactly those with both ids that are not tracked
/// and were orphans of the poll before, each under both its ids.
pub proof fn doomed_are_the_lasting_orphans(
    orders: Seq<RemoteOrder>,
    known: Seq<i64>,
    before: Seq<i64>,
    n: nat,
    c: i64,
    e: i64,
)
    requires
        n <= orders.len(),
    ensures
        doomed(orders, known, before, n).contains((c, e)) <==> !known.contains(c)
            && before.contains(c) && exists|i: int|
            0 <= i < n && (#[trigger] orders[i]).client_order_index == Some(c)
                && orders[i].order_index == Some(e),
    decreases n,
{
    if n > 0 {
        doomed_are_the_lasting_orphans(orders, known, before, (n - 1) as nat, c, e);
        let rest = doomed(orders, known, before, (n - 1) as nat);
        let all = doomed(orders, known, before, n);
        let last = orders[n - 1];
        if rest.contains((c, e)) {
            let k = choose|k: int| 0 <= k < rest.len() && rest[k] == (c, e);
            assert(all[k] == (c, e));
        }
        if all.contains((c, e)) {
            let k = choose|k: int| 0 <= k < all.len() && all[k] == (c, e);
            if k < rest.len() {
                assert(rest[k] == (c, e));
            } else {
                assert(last.client_order_index == Some(c) && last.order_index == Some(e));
            }
        }
        if !known.contains(c) && before.contains(c) && last.client_order_index == Some(c)
            && last.order_index == Some(e) {
            assert(all[rest.len() as int] == (c, e));
        }
    }
}

/// As many orders may rest as the setting says, and one at least.
pub proof fn one_order_may_always_rest(p: Poller)
    ensures
        p.spec_max_live() >= 1,
        p.max_live >= 1 ==> p.spec_max_live() == p.max_live,
{
}

} // verus!
