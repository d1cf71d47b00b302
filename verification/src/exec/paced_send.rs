//! The sender's decisions: whether a batch may go out, how, and what its outcome means for the
//! order slots, the nonce, the pacing and the circuit breaker.
//!
//! [`on_wake`] says whether a batch may be sent. It is paced, signed, sent by the transport of
//! [`choose_transport`], and its outcome is settled by [`settle_send`]. Where that calls for it the
//! nonce is fetched anew, each try reported to [`NonceResync`]; then [`conclude_send`] says what
//! remains to be done. The order of these steps is kept by
//! [`SendFlow`](crate::exec::send_flow::SendFlow).
use vstd::prelude::*;
use vstd::string::StringExecFns;
use crate::exec::rate_limit::{
    after_success, backoff_ns, classify_reject, reject_kind, Limits, RateLimiter, RejectKind,
    MAX_CLOCK_NS,
};
use crate::lighter::nonce::{in_step, rolled_back, NonceManager, Nonces};
use crate::risk::{
    after_pause, after_reconcile, after_rejection, paused, recovery, Risk, RiskController,
};
use crate::text::{lowercased, signed_decimal, signed_text, trim, trimmed};
use crate::types::{BatchOp, OrderAction, OrderEvent, TxSendResult, TxSendStatus};

verus! {

/// Market data older than this do not count as alive.
pub const MD_HEALTH_MS: u64 = 10_000;

/// Tries to fetch the nonce where a correct one is needed.
pub const NONCE_RESYNC_ATTEMPTS: u32 = 3;

/// Whether a batch holds cancels alone.
pub open spec fn only_cancels(ops: Seq<BatchOp>) -> bool {
    forall|i: int| 0 <= i < ops.len() ==> (#[trigger] ops[i]).action == OrderAction::Cancel
}

/// Whether a batch holds cancels alone.
pub fn cancel_only(ops: &Vec<BatchOp>) -> (r: bool)
    ensures
        r == only_cancels(ops@),
{
    let mut i: usize = 0;
    while i < ops.len()
        invariant
            i <= ops@.len(),
            forall|k: int| 0 <= k < i ==> (#[trigger] ops@[k]).action == OrderAction::Cancel,
        decreases ops@.len() - i,
    {
        if ops[i].action != OrderAction::Cancel {
            return false;
        }
        i = i + 1;
    }
    true
}

/// The event that frees the slot of an operation.
pub open spec fn clear_event(op: BatchOp) -> OrderEvent {
    OrderEvent::ClearLive {
        side: op.side,
        level: op.level,
        client_order_id: op.client_order_id,
    }
}

/// The events that free the slots of the creates of a batch.
pub open spec fn freed_creates(ops: Seq<BatchOp>) -> Seq<OrderEvent>
    decreases ops.len(),
{
    if ops.len() == 0 {
        Seq::empty()
    } else {
        let rest = freed_creates(ops.drop_last());
        if ops.last().action == OrderAction::Create {
            rest.push(clear_event(ops.last()))
        } else {
            rest
        }
    }
}

/// The event that frees the slot of an operation.
fn clear(op: &BatchOp) -> (r: OrderEvent)
    ensures
        r == clear_event(*op),
{
    OrderEvent::ClearLive {
        side: op.side,
        level: op.level,
        client_order_id: op.client_order_id,
    }
}

/// The events that free the slots of the creates of a batch that did not go out, so that they
/// are tried again. Modifies and cancels are left to the reconciliation.
pub fn clear_failed_creates(ops: &Vec<BatchOp>) -> (r: Vec<OrderEvent>)
    ensures
        r@ == freed_creates(ops@),
{
    let mut events: Vec<OrderEvent> = Vec::new();
    let mut i: usize = 0;
    proof {
        assert(ops@.take(0) =~= Seq::empty());
    }
    while i < ops.len()
        invariant
            i <= ops@.len(),
            events@ == freed_creates(ops@.take(i as int)),
        decreases ops@.len() - i,
    {
        proof {
            assert(ops@.take(i + 1).drop_last() =~= ops@.take(i as int));
        }
        if ops[i].action == OrderAction::Create {
            events.push(clear(&ops[i]));
        }
        i = i + 1;
    }
    proof {
        assert(ops@.take(ops@.len() as int) =~= ops@);
    }
    events
}

/// What to do after waking up.
#[derive(Clone, Debug)]
pub enum WakeStep {
    /// Nothing.
    Idle,
    /// Drop the batch, and hand these events on.
    Drop(Vec<OrderEvent>),
    /// Send the batch.
    Send,
}

/// Whether new orders may be placed.
pub open spec fn may_trade(s: Risk, md_age_ms: u64, nonce_ok: bool, now: u64) -> bool {
    recovery(s, md_age_ms < MD_HEALTH_MS, now).0 && nonce_ok
}

/// What to do after waking up, with a batch or without one. Every wake is a try to end a pause.
/// While trading is not allowed only cancels go out; during shutdown nothing does.
pub fn on_wake(
    risk: &mut RiskController,
    md_age_ms: u64,
    nonce_ok: bool,
    ops: Option<&Vec<BatchOp>>,
    halted: bool,
    now: u64,
) -> (r: WakeStep)
    ensures
        final(risk)@ == recovery(old(risk)@, md_age_ms < MD_HEALTH_MS, now).1,
        match ops {
            None => r is Idle,
            Some(batch) => if batch@.len() == 0 || halted {
                r is Idle
            } else if may_trade(old(risk)@, md_age_ms, nonce_ok, now) || only_cancels(batch@) {
                r is Send
            } else {
                r matches WakeStep::Drop(events) && events@ == freed_creates(batch@)
            },
        },
{
    let recovered: bool = risk.maybe_recover(md_age_ms < MD_HEALTH_MS, now);
    let can_trade: bool = recovered && nonce_ok;
    match ops {
        None => WakeStep::Idle,
        Some(batch) => {
            if batch.len() == 0 || halted {
                return WakeStep::Idle;
            }
            if !can_trade && !cancel_only(batch) {
                return WakeStep::Drop(clear_failed_creates(batch));
            }
            WakeStep::Send
        },
    }
}

/// How a signed batch goes out.
#[derive(Clone, Copy, Debug, PartialEq, Eq, Structural)]
pub enum Transport {
    /// Alone, over REST: the free transaction.
    Rest,
    /// As a batch, over the transaction socket.
    Socket,
}

/// How a signed batch goes out.
pub open spec fn transport_of(quota: Option<i64>, signed: usize) -> Transport {
    if quota is Some && quota->0 <= 0 && signed == 1 {
        Transport::Rest
    } else {
        Transport::Socket
    }
}

/// How a signed batch goes out: a single operation goes over REST once the quota is used up.
pub fn choose_transport(quota: Option<i64>, signed: usize) -> (r: Transport)
    ensures
        r == if quota is Some && quota->0 <= 0 && signed == 1 {
            Transport::Rest
        } else {
            Transport::Socket
        },
        r == transport_of(quota, signed),
{
    match quota {
        Some(q) => if q <= 0 && signed == 1 {
            Transport::Rest
        } else {
            Transport::Socket
        },
        None => Transport::Socket,
    }
}

/// Why the nonce must be fetched anew.
#[derive(Clone, Copy, Debug, PartialEq, Eq, Structural)]
pub enum ResyncReason {
    RejectQuota,
    RejectNonce,
    RejectOther,
    TxUnknown,
}

/// What the outcome of a batch asks of the caller.
#[derive(Clone, Debug)]
pub struct Settlement {
    /// Events for the order tracker.
    pub events: Vec<OrderEvent>,
    /// Client ids of the orders that the exchange took, for the profit account.
    pub accepted: Vec<i64>,
    /// A new value of the volume quota, to be published.
    pub quota: Option<i64>,
    /// Why the nonce must be fetched before anything else, where it must.
    pub resync: Option<ResyncReason>,
    /// The kind of a rejection.
    pub reject: Option<RejectKind>,
}

/// The event that an accepted operation brings about.
pub open spec fn accepted_event(op: BatchOp) -> OrderEvent {
    match op.action {
        OrderAction::Cancel => clear_event(op),
        _ => OrderEvent::BindLive {
            side: op.side,
            level: op.level,
            client_order_id: op.client_order_id,
            exchange_id: op.exchange_id,
            price: op.price,
            size: op.size,
        },
    }
}

/// Client ids of the creates of a batch.
pub open spec fn created_ids(ops: Seq<BatchOp>) -> Seq<i64>
    decreases ops.len(),
{
    if ops.len() == 0 {
        Seq::empty()
    } else {
        let rest = created_ids(ops.drop_last());
        if ops.last().action == OrderAction::Create {
            rest.push(ops.last().client_order_id)
        } else {
            rest
        }
    }
}

/// The text by which a rejection is classified: its message, or its code where the message is
/// blank.
pub open spec fn rejection_text(code: i64, message: Seq<char>) -> Seq<char> {
    if trimmed(message).len() == 0 {
        "code="@ + signed_decimal(code as int)
    } else {
        message
    }
}

/// The limiter after a batch of `op_count` operations was accepted.
pub open spec fn limits_after_accept(
    s: Limits,
    op_count: nat,
    quota: Option<i64>,
    now: u64,
) -> Limits {
    let sent = Limits {
        window: s.window + Seq::new(op_count, |i: int| now),
        last_send: Some(now),
        ..s
    };
    let known = if quota is Some {
        Limits { quota, ..sent }
    } else {
        sent
    };
    after_success(known, now as int)
}

/// The limiter after a rejection.
pub open spec fn limits_after_reject(s: Limits, kind: RejectKind, now: u64) -> Limits {
    match kind {
        RejectKind::Quota => Limits { quota: Some(0), ..s },
        RejectKind::RateLimit => {
            let level = (s.backoff_level + 1) as u32;
            Limits {
                backoff_level: level,
                successes: 0,
                backoff_trigger: Some(now),
                backoff_until: Some((now + backoff_ns(level as nat)) as u64),
                ..s
            }
        },
        _ => s,
    }
}

/// The nonce counter after a rejection of a batch that had reserved `n` nonces: given back,
/// except where the counter is known to be out of step.
pub open spec fn nonces_after_reject(s: Nonces, kind: RejectKind, n: int) -> Nonces {
    if kind == RejectKind::Nonce {
        s
    } else {
        rolled_back(s, n)
    }
}

/// Why a rejection calls for a fresh nonce: all but too many requests do, since fetching would
/// only make it worse and the nonces were surely not used.
pub open spec fn reject_resync(kind: RejectKind) -> Option<ResyncReason> {
    match kind {
        RejectKind::Quota => Some(ResyncReason::RejectQuota),
        RejectKind::RateLimit => None,
        RejectKind::Nonce => Some(ResyncReason::RejectNonce),
        RejectKind::MakerOnly => Some(ResyncReason::RejectOther),
        RejectKind::Other => Some(ResyncReason::RejectOther),
    }
}

/// The quota that a rejection tells.
pub open spec fn reject_quota(kind: RejectKind) -> Option<i64> {
    if kind == RejectKind::Quota {
        Some(0)
    } else {
        None
    }
}

/// The text by which a rejection is classified.
fn reject_text(result: &TxSendResult) -> (r: String)
    ensures
        r@ == rejection_text(result.code, result.message@),
{
    if trim(result.message.as_str()).is_empty() {
        let code: String = signed_text(result.code);
        "code=".to_owned().concat(code.as_str())
    } else {
        result.message.clone()
    }
}

/// What a rejection of the given kind means.
pub fn settle_reject(
    kind: RejectKind,
    ops: &Vec<BatchOp>,
    rate: &mut RateLimiter,
    nonce: &mut NonceManager,
    now: u64,
) -> (r: Settlement)
    requires
        old(rate).wf(),
        old(rate)@.backoff_level < u32::MAX,
        now <= MAX_CLOCK_NS,
        old(nonce)@.last - ops@.len() >= i64::MIN,
    ensures
        final(rate).wf(),
        final(rate)@ == limits_after_reject(old(rate)@, kind, now),
        final(nonce)@ == nonces_after_reject(old(nonce)@, kind, ops@.len() as int),
        r.events@ == freed_creates(ops@),
        r.accepted@ == Seq::<i64>::empty(),
        r.quota == reject_quota(kind),
        r.resync == reject_resync(kind),
        r.reject == Some(kind),
{
    let (quota, resync): (Option<i64>, Option<ResyncReason>) = match kind {
        RejectKind::Quota => {
            rate.set_quota(Some(0));
            nonce.rollback(ops.len());
            (Some(0), Some(ResyncReason::RejectQuota))
        },
        RejectKind::RateLimit => {
            let _ = rate.trigger_global_backoff_at(now);
            nonce.rollback(ops.len());
            (None, None)
        },
        RejectKind::Nonce => (None, Some(ResyncReason::RejectNonce)),
        RejectKind::MakerOnly => {
            nonce.rollback(ops.len());
            (None, Some(ResyncReason::RejectOther))
        },
        RejectKind::Other => {
            nonce.rollback(ops.len());
            (None, Some(ResyncReason::RejectOther))
        },
    };
    Settlement {
        events: clear_failed_creates(ops),
        accepted: Vec::new(),
        quota,
        resync,
        reject: Some(kind),
    }
}

/// The events of an accepted batch.
fn accepted_events(ops: &Vec<BatchOp>) -> (r: (Vec<OrderEvent>, Vec<i64>))
    ensures
        r.0@ == ops@.map_values(|op: BatchOp| accepted_event(op)),
        r.1@ == created_ids(ops@),
{
    let mut events: Vec<OrderEvent> = Vec::new();
    let mut ids: Vec<i64> = Vec::new();
    let mut i: usize = 0;
    proof {
        assert(ops@.take(0) =~= Seq::empty());
    }
    while i < ops.len()
        invariant
            i <= ops@.len(),
            events@.len() == i,
            forall|k: int| 0 <= k < i ==> #[trigger] events@[k] == accepted_event(ops@[k]),
            ids@ == created_ids(ops@.take(i as int)),
        decreases ops@.len() - i,
    {
        let op: BatchOp = ops[i];
        proof {
            assert(ops@.take(i + 1).drop_last() =~= ops@.take(i as int));
        }
        match op.action {
            OrderAction::Cancel => {
                events.push(clear(&op));
            },
            _ => {
                events.push(
                    OrderEvent::BindLive {
                        side: op.side,
                        level: op.level,
                        client_order_id: op.client_order_id,
                        exchange_id: op.exchange_id,
                        price: op.price,
                        size: op.size,
                    },
                );
            },
        }
        if op.action == OrderAction::Create {
            ids.push(op.client_order_id);
        }
        i = i + 1;
    }
    proof {
        assert(ops@.take(ops@.len() as int) =~= ops@);
        assert(events@ =~= ops@.map_values(|op: BatchOp| accepted_event(op)));
    }
    (events, ids)
}

/// The settlement of an outcome, field by field.
pub open spec fn settlement_of(r: Settlement, ops: Seq<BatchOp>, result: TxSendResult) -> bool {
    match result.status {
        TxSendStatus::Accepted => {
            &&& r.events@ == ops.map_values(|op: BatchOp| accepted_event(op))
            &&& r.accepted@ == created_ids(ops)
            &&& r.quota == result.quota_remaining
            &&& r.resync is None
            &&& r.reject is None
        },
        TxSendStatus::Rejected => {
            let kind = reject_kind(lowercased(rejection_text(result.code, result.message@)));
            &&& r.events@ == freed_creates(ops)
            &&& r.accepted@ == Seq::<i64>::empty()
            &&& r.quota == reject_quota(kind)
            &&& r.resync == reject_resync(kind)
            &&& r.reject == Some(kind)
        },
        TxSendStatus::NotSent => {
            &&& r.events@ == freed_creates(ops)
            &&& r.accepted@ == Seq::<i64>::empty()
            &&& r.quota is None
            &&& r.resync is None
            &&& r.reject is None
        },
        TxSendStatus::Unknown => {
            &&& r.events@ == Seq::<OrderEvent>::empty()
            &&& r.accepted@ == Seq::<i64>::empty()
            &&& r.quota is None
            &&& r.resync == Some(ResyncReason::TxUnknown)
            &&& r.reject is None
        },
    }
}

/// The limiter after an outcome.
pub open spec fn limits_after(s: Limits, ops: nat, result: TxSendResult, now: u64) -> Limits {
    match result.status {
        TxSendStatus::Accepted => limits_after_accept(s, ops, result.quota_remaining, now),
        TxSendStatus::Rejected => limits_after_reject(
            s,
            reject_kind(lowercased(rejection_text(result.code, result.message@))),
            now,
        ),
        _ => s,
    }
}

/// The controller after an outcome.
pub open spec fn risk_after(s: Risk, result: TxSendResult, now: u64) -> Risk {
    match result.status {
        TxSendStatus::Accepted => Risk { rejections: 0, ..s },
        TxSendStatus::Rejected => after_rejection(
            s,
            rejection_text(result.code, result.message@),
            now,
        ),
        _ => s,
    }
}

/// The nonce counter after an outcome.
pub open spec fn nonces_after(s: Nonces, ops: nat, result: TxSendResult) -> Nonces {
    match result.status {
        TxSendStatus::Rejected => nonces_after_reject(
            s,
            reject_kind(lowercased(rejection_text(result.code, result.message@))),
            ops as int,
        ),
        TxSendStatus::NotSent => rolled_back(s, ops as int),
        _ => s,
    }
}

/// What the outcome of a batch means. `ops` are the signed operations, one reserved nonce each.
///
/// Accepted: the operations count for the window, the quota is taken over, the rejections are
/// forgotten, creates and modifies are bound and cancelled slots freed. Rejected: the rejection
/// is counted, the nonce corrected by its kind, and the creates freed. Not sent: the nonces are
/// given back and the creates freed. Unknown: nothing is given back or freed, and the nonce must
/// be fetched.
pub fn settle_send(
    result: &TxSendResult,
    ops: &Vec<BatchOp>,
    rate: &mut RateLimiter,
    risk: &mut RiskController,
    nonce: &mut NonceManager,
    now: u64,
) -> (r: Settlement)
    requires
        old(rate).wf(),
        old(rate)@.backoff_level < u32::MAX,
        now <= MAX_CLOCK_NS,
        old(nonce)@.last - ops@.len() >= i64::MIN,
    ensures
        final(rate).wf(),
        settlement_of(r, ops@, *result),
        final(rate)@ == limits_after(old(rate)@, ops@.len(), *result, now),
        final(risk)@ == risk_after(old(risk)@, *result, now),
        final(nonce)@ == nonces_after(old(nonce)@, ops@.len(), *result),
{
    match result.status {
        TxSendStatus::Accepted => {
            rate.record_ops_sent_at(ops.len(), now);
            if let Some(q) = result.quota_remaining {
                rate.set_quota(Some(q));
            }
            risk.record_success();
            rate.reset_global_backoff_at(now);
            let (events, accepted): (Vec<OrderEvent>, Vec<i64>) = accepted_events(ops);
            Settlement {
                events,
                accepted,
                quota: result.quota_remaining,
                resync: None,
                reject: None,
            }
        },
        TxSendStatus::Rejected => {
            let text: String = reject_text(result);
            risk.record_rejection(text.as_str(), now);
            let kind: RejectKind = classify_reject(text.as_str());
            settle_reject(kind, ops, rate, nonce, now)
        },
        TxSendStatus::NotSent => {
            nonce.rollback(ops.len());
            Settlement {
                events: clear_failed_creates(ops),
                accepted: Vec::new(),
                quota: None,
                resync: None,
                reject: None,
            }
        },
        TxSendStatus::Unknown => Settlement {
            events: Vec::new(),
            accepted: Vec::new(),
            quota: None,
            resync: Some(ResyncReason::TxUnknown),
            reject: None,
        },
    }
}

/// What a try to fetch the nonce led to.
#[derive(Clone, Copy, Debug, PartialEq, Eq, Structural)]
pub enum ResyncStep {
    /// The counter is in step.
    Done,
    /// Try again.
    Retry,
    /// Given up: the counter is not to be trusted, and trading is paused.
    Exhausted,
}

/// The controller once fetching the nonce was given up.
pub open spec fn after_lost_nonce(s: Risk, now: u64) -> Risk {
    after_pause(
        after_reconcile(s, false, "nonce_resync_failed"@, now),
        "nonce_resync_failed"@,
        now,
    )
}

/// What comes of a try to fetch the nonce, after so many failures.
pub open spec fn resync_step(failures: u32, fetched: Option<i64>) -> ResyncStep {
    if fetched is Some {
        ResyncStep::Done
    } else if failures + 1 >= NONCE_RESYNC_ATTEMPTS {
        ResyncStep::Exhausted
    } else {
        ResyncStep::Retry
    }
}

/// Tries to fetch the nonce.
#[derive(Clone, Copy, Debug, PartialEq, Eq, Structural)]
pub struct NonceResync {
    pub failures: u32,
}

impl NonceResync {
    /// No try was made yet.
    pub fn new() -> (r: NonceResync)
        ensures
            r.failures == 0,
    {
        NonceResync { failures: 0 }
    }

    /// Takes the result of a try: the nonce that the exchange expects, or `None` where it could
    /// not be fetched. After [`NONCE_RESYNC_ATTEMPTS`] failures the counter is marked as not to
    /// be trusted and trading is paused, since every batch would be rejected.
    pub fn on_refresh(
        &mut self,
        fetched: Option<i64>,
        nonce: &mut NonceManager,
        nonce_ok: &mut bool,
        risk: &mut RiskController,
        now: u64,
    ) -> (r: ResyncStep)
        requires
            old(self).failures < NONCE_RESYNC_ATTEMPTS,
            fetched is Some ==> fetched->0 > i64::MIN,
        ensures
            r == resync_step(old(self).failures, fetched),
            match fetched {
                Some(n) => {
                    &&& r == ResyncStep::Done
                    &&& final(nonce)@ == in_step(old(nonce)@, n)
                    &&& *final(nonce_ok)
                    &&& final(risk)@ == old(risk)@
                    &&& final(self).failures == old(self).failures
                },
                None => {
                    &&& final(self).failures == old(self).failures + 1
                    &&& final(nonce)@ == old(nonce)@
                    &&& if final(self).failures >= NONCE_RESYNC_ATTEMPTS {
                        &&& r == ResyncStep::Exhausted
                        &&& !*final(nonce_ok)
                        &&& final(risk)@ == after_lost_nonce(old(risk)@, now)
                    } else {
                        &&& r == ResyncStep::Retry
                        &&& *final(nonce_ok) == *old(nonce_ok)
                        &&& final(risk)@ == old(risk)@
                    }
                },
            },
    {
        match fetched {
            Some(n) => {
                nonce.hard_refresh(n);
                *nonce_ok = true;
                ResyncStep::Done
            },
            None => {
                self.failures = self.failures + 1;
                if self.failures >= NONCE_RESYNC_ATTEMPTS {
                    *nonce_ok = false;
                    risk.mark_reconcile(false, "nonce_resync_failed", now);
                    risk.trigger_pause("nonce_resync_failed", now);
                    ResyncStep::Exhausted
                } else {
                    ResyncStep::Retry
                }
            },
        }
    }
}

/// What remains to be done once the nonce is settled.
#[derive(Clone, Copy, Debug, PartialEq, Eq, Structural)]
pub struct Conclusion {
    /// Cancel every order and verify that none is left.
    pub cancel_all: bool,
    /// Ask for an immediate reconciliation.
    pub notify_reconcile: bool,
}

/// The controller after a batch whose outcome is unknown.
pub open spec fn after_unknown(s: Risk, now: u64) -> Risk {
    after_pause(
        after_reconcile(s, false, "tx_unknown_outcome"@, now),
        "unknown_tx_outcome"@,
        now,
    )
}

/// Whether a rejection is one of the business rejections, which call for a look at the orders.
pub open spec fn business(kind: RejectKind) -> bool {
    kind == RejectKind::MakerOnly || kind == RejectKind::Other
}

/// What is owed once a batch has its outcome: whether every order is taken off the book, and whether
/// the orders are reconciled at once.
pub open spec fn owed_after(
    status: TxSendStatus,
    reject: Option<RejectKind>,
    s: Risk,
    now: u64,
) -> (bool, bool) {
    match status {
        TxSendStatus::Rejected => (paused(s, now), reject is Some && business(reject->0)),
        TxSendStatus::Unknown => (true, true),
        _ => (false, false),
    }
}

/// What remains to be done once the nonce is settled: after a rejection that paused trading
/// every order is taken off the book, and after a business rejection the orders are reconciled
/// at once; after an unknown outcome trading is paused, every order taken off the book and the
/// orders reconciled.
pub fn conclude_send(
    status: TxSendStatus,
    reject: Option<RejectKind>,
    risk: &mut RiskController,
    now: u64,
) -> (r: Conclusion)
    ensures
        (r.cancel_all, r.notify_reconcile) == owed_after(status, reject, old(risk)@, now),
        match status {
            TxSendStatus::Rejected => {
                &&& final(risk)@ == old(risk)@
                &&& r.cancel_all == paused(old(risk)@, now)
                &&& r.notify_reconcile == (reject is Some && business(reject->0))
            },
            TxSendStatus::Unknown => {
                &&& final(risk)@ == after_unknown(old(risk)@, now)
                &&& r.cancel_all
                &&& r.notify_reconcile
            },
            _ => {
                &&& final(risk)@ == old(risk)@
                &&& !r.cancel_all
                &&& !r.notify_reconcile
            },
        },
{
    match status {
        TxSendStatus::Rejected => {
            let business: bool = match reject {
                Some(RejectKind::MakerOnly) => true,
                Some(RejectKind::Other) => true,
                _ => false,
            };
            Conclusion { cancel_all: risk.is_paused(now), notify_reconcile: business }
        },
        TxSendStatus::Unknown => {
            risk.mark_reconcile(false, "tx_unknown_outcome", now);
            risk.trigger_pause("unknown_tx_outcome", now);
            Conclusion { cancel_all: true, notify_reconcile: true }
        },
        _ => Conclusion { cancel_all: false, notify_reconcile: false },
    }
}

/// After an unknown outcome no new order is placed, however much time passes, until a
/// reconciliation has succeeded.
pub proof fn unknown_outcome_blocks_trading(
    s: Risk,
    now: u64,
    later: u64,
    md_age_ms: u64,
    nonce_ok: bool,
)
    ensures
        !may_trade(after_unknown(s, now), md_age_ms, nonce_ok, later),
{
}

/// While the nonce is not to be trusted no new order is placed, whatever the controller says.
pub proof fn lost_nonce_blocks_trading(s: Risk, md_age_ms: u64, now: u64)
    ensures
        !may_trade(s, md_age_ms, false, now),
{
}

/// A batch that was certainly not carried out leaves the counter where it was before the batch
/// was signed, unless the counter is out of step anyway.
pub proof fn failed_batches_return_their_nonces(s: Nonces, kind: RejectKind, n: nat)
    requires
        kind != RejectKind::Nonce,
    ensures
        nonces_after_reject(Nonces { last: s.last + n, ..s }, kind, n as int) == s,
        rolled_back(Nonces { last: s.last + n, ..s }, n as int) == s,
{
}

/// Every create of a batch that did not go out is freed, under its own id.
pub proof fn failed_creates_are_freed(ops: Seq<BatchOp>, i: int)
    requires
        0 <= i < ops.len(),
        ops[i].action == OrderAction::Create,
    ensures
        freed_creates(ops).contains(clear_event(ops[i])),
    decreases ops.len(),
{
    let rest = ops.drop_last();
    if i < ops.len() - 1 {
        failed_creates_are_freed(rest, i);
        let events = freed_creates(rest);
        let k = choose|k: int| 0 <= k < events.len() && events[k] == clear_event(ops[i]);
        assert(freed_creates(ops)[k] == clear_event(ops[i]));
    } else {
        assert(freed_creates(ops).last() == clear_event(ops[i]));
    }
}

/// New orders may be placed exactly where the nonce is to be trusted and no pause is on: none was
/// called for, or its deadline has passed, the last reconciliation succeeded, and market data came
/// within ten seconds.
pub proof fn trading_needs_health(s: Risk, md_age_ms: u64, nonce_ok: bool, now: u64)
    ensures
        may_trade(s, md_age_ms, nonce_ok, now) <==> nonce_ok && (s.paused_until is None
            || s.paused_until->0 <= now && s.reconcile_ok && md_age_ms < 10_000),
{
}

/// What a lost nonce and an unknown outcome do to the controller: both count as a failed
/// reconciliation and pause trading for the whole cooldown, each under its own reason; no rejection
/// is counted.
pub proof fn doubt_pauses_trading(s: Risk, now: u64, t: u64)
    ensures
        ({
            let a = after_lost_nonce(s, now);
            let b = after_unknown(s, now);
            &&& !a.reconcile_ok && !b.reconcile_ok
            &&& a.reconcile_reason == "nonce_resync_failed"@ && a.pause_reason
                == "nonce_resync_failed"@
            &&& b.reconcile_reason == "tx_unknown_outcome"@ && b.pause_reason
                == "unknown_tx_outcome"@
            &&& a.reconcile_time == Some(now) && b.reconcile_time == Some(now)
            &&& now <= t < now + s.cooldown && t < u64::MAX ==> paused(a, t) && paused(b, t)
            &&& t >= now + s.cooldown && !paused(s, t) ==> !paused(a, t) && !paused(b, t)
            &&& s.mismatch_streak < u32::MAX ==> a.mismatch_streak == s.mismatch_streak + 1
                && b.mismatch_streak == s.mismatch_streak + 1
            &&& a.rejections == s.rejections && b.rejections == s.rejections
            &&& !a.pause_cancel_done && !b.pause_cancel_done
        }),
{
}

/// A rejection is classified by its message, or, where that is blank, by its code.
pub proof fn blank_rejections_go_by_their_code(code: i64, message: Seq<char>)
    ensures
        trimmed(message).len() > 0 ==> rejection_text(code, message) == message,
        trimmed(message).len() == 0 ==> rejection_text(code, message) == "code="@ + signed_decimal(
            code as int,
        ),
{
}

/// What frees the creates of a batch that did not go out: an event for each, under its side, level
/// and client id, and for nothing else.
pub proof fn only_creates_are_freed(ops: Seq<BatchOp>, k: int)
    requires
        0 <= k < freed_creates(ops).len(),
    ensures
        exists|i: int|
            0 <= i < ops.len() && (#[trigger] ops[i]).action == OrderAction::Create
                && freed_creates(ops)[k] == (OrderEvent::ClearLive {
                side: ops[i].side,
                level: ops[i].level,
                client_order_id: ops[i].client_order_id,
            }),
    decreases ops.len(),
{
    let rest = ops.drop_last();
    let some = freed_creates(rest);
    if k < some.len() {
        only_creates_are_freed(rest, k);
        let i = choose|i: int|
            0 <= i < rest.len() && (#[trigger] rest[i]).action == OrderAction::Create && some[k] == (
            OrderEvent::ClearLive {
                side: rest[i].side,
                level: rest[i].level,
                client_order_id: rest[i].client_order_id,
            });
        assert(ops[i] == rest[i]);
    } else {
        assert(ops[ops.len() - 1].action == OrderAction::Create);
    }
}

/// A batch holds cancels alone exactly where no operation of it creates or moves an order, and the
/// business rejections are those of a key that may only make and those without a label.
pub proof fn batches_of_cancels_hold_nothing_else(ops: Seq<BatchOp>, kind: RejectKind)
    ensures
        only_cancels(ops) <==> !(exists|i: int|
            0 <= i < ops.len() && ((#[trigger] ops[i]).action == OrderAction::Create
                || ops[i].action == OrderAction::Modify)),
        business(kind) <==> kind != RejectKind::Quota && kind != RejectKind::RateLimit && kind
            != RejectKind::Nonce,
{
}

/// Batches go over the socket, but for a single operation where no quota is left.
pub proof fn spent_quotas_leave_one_way(q: i64, signed: usize)
    ensures
        transport_of(None, signed) == Transport::Socket,
        q > 0 ==> transport_of(Some(q), signed) == Transport::Socket,
        signed != 1 ==> transport_of(Some(q), signed) == Transport::Socket,
        q <= 0 ==> transport_of(Some(q), 1) == Transport::Rest,
{
}

/// After an unknown outcome every order is taken off the book and reconciled. After a rejection the
/// orders come off exactly where trading is paused, and are reconciled where the rejection was about
/// the order itself: a maker order that would have taken, or anything else that has no kind of its
/// own. Nothing is owed after a batch that was taken or not sent.
pub proof fn outcomes_owe_what_they_leave_open(kind: RejectKind, s: Risk, now: u64)
    ensures
        owed_after(TxSendStatus::Unknown, None, s, now) == (true, true),
        owed_after(TxSendStatus::Accepted, None, s, now) == (false, false),
        owed_after(TxSendStatus::NotSent, None, s, now) == (false, false),
        owed_after(TxSendStatus::Rejected, Some(kind), s, now).0 <==> s.paused_until is Some && now
            < s.paused_until->0,
        owed_after(TxSendStatus::Rejected, Some(kind), s, now).1 <==> kind
            == RejectKind::MakerOnly || kind == RejectKind::Other,
        !owed_after(TxSendStatus::Rejected, None, s, now).1,
{
}

/// The nonce is fetched three times at most: a nonce ends the tries, and so does the third failure.
pub proof fn nonces_are_fetched_three_times(failures: u32, n: i64)
    ensures
        resync_step(failures, Some(n)) == ResyncStep::Done,
        failures < 2 ==> resync_step(failures, None) == ResyncStep::Retry,
        failures >= 2 ==> resync_step(failures, None) == ResyncStep::Exhausted,
{
}

/// An operation that the exchange took tells of its order: a create and a modify of one that rests, as
/// the operation wanted it, and a cancel of one that left the book.
pub proof fn taken_operations_tell_of_their_order(op: BatchOp)
    ensures
        op.action == OrderAction::Create || op.action == OrderAction::Modify ==> ({
            &&& accepted_event(op) matches OrderEvent::BindLive {
                side,
                level,
                client_order_id,
                exchange_id,
                price,
                size,
            }
            &&& side == op.side && level == op.level
            &&& client_order_id == op.client_order_id && exchange_id == op.exchange_id
            &&& price == op.price && size == op.size
        }),
        op.action == OrderAction::Cancel ==> ({
            &&& accepted_event(op) matches OrderEvent::ClearLive { side, level, client_order_id }
            &&& side == op.side && level == op.level && client_order_id == op.client_order_id
        }),
{
}

} // verus!
