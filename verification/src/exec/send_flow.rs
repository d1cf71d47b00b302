//! The way of one batch from the mailbox to its outcome.
//!
//! The caller owns the clock, the lock, the signer and the sockets. It performs what each step
//! says and reports back; the stage of the batch decides what may come next. A batch is handed to
//! a transport once at most, whatever its outcome, and every batch comes to an end.
use vstd::prelude::*;
use crate::exec::paced_send::{
    after_lost_nonce, after_unknown, business, cancel_only, choose_transport,
    clear_failed_creates, conclude_send, freed_creates, limits_after, nonces_after, only_cancels,
    risk_after, settle_send, settlement_of, Conclusion, NonceResync, ResyncStep, Settlement,
    Transport, NONCE_RESYNC_ATTEMPTS,
};
use crate::exec::rate_limit::{
    pruned_window, slot_step, Limits, RateLimiter, RejectKind, SlotStep, WritePhase, MAX_CLOCK_NS,
};
use crate::lighter::nonce::{in_step, NonceManager};
use crate::risk::{paused, RiskController};
use crate::types::{BatchOp, OrderEvent, TxSendResult, TxSendStatus};

verus! {

/// Where a batch stands.
#[derive(Clone, Copy, Debug, PartialEq, Eq, Structural)]
pub enum SendStage {
    /// It waits for its turn, at a stage of the write pacing.
    Pacing(WritePhase),
    /// It waits for the lock under which batches are signed and sent.
    Locking,
    /// It is being signed.
    Signing,
    /// It was handed to a transport.
    Sending,
    /// It has an outcome, and the nonce is being fetched after so many failures.
    Resyncing(u32),
    /// It has an outcome, and the nonce is settled.
    Concluding,
    /// Nothing is left to do.
    Done,
}

/// The stage of the pacing that comes after another.
pub open spec fn phase_after(p: WritePhase) -> Option<WritePhase> {
    match p {
        WritePhase::Backoff => Some(WritePhase::Window),
        WritePhase::Window => Some(WritePhase::Interval),
        WritePhase::Interval => Some(WritePhase::Quota),
        WritePhase::Quota => None,
    }
}

/// Whether a batch can go from one stage to another in one step.
pub open spec fn follows(a: SendStage, b: SendStage) -> bool {
    match a {
        SendStage::Pacing(p) => {
            ||| b == SendStage::Done
            ||| b == SendStage::Locking
            ||| (b matches SendStage::Pacing(q) && phase_after(p) == Some(q))
        },
        SendStage::Locking => b == SendStage::Signing || b == SendStage::Done,
        SendStage::Signing => b == SendStage::Sending || b == SendStage::Done,
        SendStage::Sending => b == SendStage::Resyncing(0) || b == SendStage::Concluding,
        SendStage::Resyncing(k) => {
            ||| b == SendStage::Concluding
            ||| (b matches SendStage::Resyncing(l) && l == k + 1 && l < NONCE_RESYNC_ATTEMPTS)
        },
        SendStage::Concluding => b == SendStage::Done,
        SendStage::Done => false,
    }
}

/// What the caller does next with a batch that has no outcome yet.
#[derive(Clone, Debug)]
pub enum SendAction {
    /// Wait so many nanoseconds and ask for its turn again.
    Wait(u64),
    /// Wait so many nanoseconds and take the lock.
    Lock(u64),
    /// Sign it.
    Sign,
    /// Hand it to a transport.
    Transmit(Transport),
    /// Give it up, and tell the order tracker.
    Drop(Vec<OrderEvent>),
}

/// A batch on its way.
pub struct Flow {
    pub ops: Seq<BatchOp>,
    pub stage: SendStage,
    /// How the send went, once it did.
    pub status: TxSendStatus,
    pub reject: Option<RejectKind>,
}

/// A batch on its way.
#[derive(Debug)]
pub struct SendFlow {
    ops: Vec<BatchOp>,
    stage: SendStage,
    status: TxSendStatus,
    reject: Option<RejectKind>,
}

impl View for SendFlow {
    type V = Flow;

    closed spec fn view(&self) -> Flow {
        Flow { ops: self.ops@, stage: self.stage, status: self.status, reject: self.reject }
    }
}

impl SendFlow {
    /// A batch that nothing was done with yet.
    pub fn begin(ops: Vec<BatchOp>) -> (r: SendFlow)
        ensures
            r.wf(),
            r@.ops == ops@,
            r@.stage == SendStage::Pacing(WritePhase::Backoff),
    {
        SendFlow {
            ops,
            stage: SendStage::Pacing(WritePhase::Backoff),
            status: TxSendStatus::NotSent,
            reject: None,
        }
    }

    /// Fewer tries to fetch the nonce have failed than are made.
    pub closed spec fn wf(self) -> bool {
        self.stage matches SendStage::Resyncing(k) ==> k < NONCE_RESYNC_ATTEMPTS
    }

    /// The stage of the batch.
    pub fn stage(&self) -> (r: SendStage)
        ensures
            r == self@.stage,
    {
        self.stage
    }

    /// The operations of the batch.
    pub fn ops(&self) -> (r: &Vec<BatchOp>)
        ensures
            r@ == self@.ops,
    {
        &self.ops
    }

    /// Asks the pacing for the turn of the batch. A batch that is skipped is given up, its creates
    /// freed.
    pub fn pace(&mut self, rate: &mut RateLimiter, now: u64) -> (r: SendAction)
        requires
            old(self).wf(),
            old(self)@.stage is Pacing,
            old(rate).wf(),
        ensures
            final(self).wf(),
            final(rate).wf(),
            follows(old(self)@.stage, final(self)@.stage),
            final(self)@.ops == old(self)@.ops,
            ({
                let phase = old(self)@.stage->Pacing_0;
                let ops = old(self)@.ops;
                &&& final(rate)@ == match phase {
                    WritePhase::Window => Limits {
                        window: pruned_window(old(rate)@.window, now as int),
                        ..old(rate)@
                    },
                    _ => old(rate)@,
                }
                &&& match slot_step(
                    old(rate)@,
                    phase,
                    ops.len() as int,
                    only_cancels(ops),
                    now as int,
                ) {
                    SlotStep::Skip => {
                        &&& final(self)@.stage == SendStage::Done
                        &&& r matches SendAction::Drop(events) && events@ == freed_creates(ops)
                    },
                    SlotStep::Wait { ns, next: Some(q) } => {
                        &&& final(self)@.stage == SendStage::Pacing(q)
                        &&& r == SendAction::Wait(ns)
                    },
                    SlotStep::Wait { ns, next: None } => {
                        &&& final(self)@.stage == SendStage::Locking
                        &&& r == SendAction::Lock(ns)
                    },
                }
            }),
    {
        let phase: WritePhase = match self.stage {
            SendStage::Pacing(p) => p,
            _ => WritePhase::Backoff,
        };
        let cancels: bool = cancel_only(&self.ops);
        match rate.write_slot(phase, self.ops.len(), cancels, now) {
            SlotStep::Skip => {
                self.stage = SendStage::Done;
                SendAction::Drop(clear_failed_creates(&self.ops))
            },
            SlotStep::Wait { ns, next } => match next {
                Some(q) => {
                    self.stage = SendStage::Pacing(q);
                    SendAction::Wait(ns)
                },
                None => {
                    self.stage = SendStage::Locking;
                    SendAction::Lock(ns)
                },
            },
        }
    }

    /// The lock is held. Shutdown may have come while the batch waited: it is then given up, its
    /// creates freed.
    pub fn on_lock(&mut self, halted: bool) -> (r: SendAction)
        requires
            old(self).wf(),
            old(self)@.stage == SendStage::Locking,
        ensures
            final(self).wf(),
            follows(old(self)@.stage, final(self)@.stage),
            final(self)@.ops == old(self)@.ops,
            if halted {
                &&& final(self)@.stage == SendStage::Done
                &&& r matches SendAction::Drop(events) && events@ == freed_creates(
                    old(self)@.ops,
                )
            } else {
                &&& final(self)@.stage == SendStage::Signing
                &&& r == SendAction::Sign
            },
    {
        if halted {
            self.stage = SendStage::Done;
            return SendAction::Drop(clear_failed_creates(&self.ops));
        }
        self.stage = SendStage::Signing;
        SendAction::Sign
    }

    /// Whether the batch was signed, and the volume quota of this moment. A batch that was not
    /// signed is given up, its creates freed.
    pub fn on_signed(&mut self, signed: bool, quota: Option<i64>) -> (r: SendAction)
        requires
            old(self).wf(),
            old(self)@.stage == SendStage::Signing,
        ensures
            final(self).wf(),
            follows(old(self)@.stage, final(self)@.stage),
            final(self)@.ops == old(self)@.ops,
            if signed {
                &&& final(self)@.stage == SendStage::Sending
                &&& r == SendAction::Transmit(
                    if quota is Some && quota->0 <= 0 && old(self)@.ops.len() == 1 {
                        Transport::Rest
                    } else {
                        Transport::Socket
                    },
                )
            } else {
                &&& final(self)@.stage == SendStage::Done
                &&& r matches SendAction::Drop(events) && events@ == freed_creates(
                    old(self)@.ops,
                )
            },
    {
        if !signed {
            self.stage = SendStage::Done;
            return SendAction::Drop(clear_failed_creates(&self.ops));
        }
        self.stage = SendStage::Sending;
        SendAction::Transmit(choose_transport(quota, self.ops.len()))
    }

    /// The outcome of the batch. Where the settlement says so, the nonce is to be fetched next.
    pub fn on_reply(
        &mut self,
        result: &TxSendResult,
        rate: &mut RateLimiter,
        risk: &mut RiskController,
        nonce: &mut NonceManager,
        now: u64,
    ) -> (r: Settlement)
        requires
            old(self).wf(),
            old(self)@.stage == SendStage::Sending,
            old(rate).wf(),
            old(rate)@.backoff_level < u32::MAX,
            now <= MAX_CLOCK_NS,
            old(nonce)@.last - old(self)@.ops.len() >= i64::MIN,
        ensures
            final(self).wf(),
            final(rate).wf(),
            follows(old(self)@.stage, final(self)@.stage),
            final(self)@ == (Flow {
                ops: old(self)@.ops,
                stage: if r.resync is Some {
                    SendStage::Resyncing(0)
                } else {
                    SendStage::Concluding
                },
                status: result.status,
                reject: r.reject,
            }),
            settlement_of(r, old(self)@.ops, *result),
            final(rate)@ == limits_after(old(rate)@, old(self)@.ops.len(), *result, now),
            final(risk)@ == risk_after(old(risk)@, *result, now),
            final(nonce)@ == nonces_after(old(nonce)@, old(self)@.ops.len(), *result),
    {
        let settled: Settlement = settle_send(result, &self.ops, rate, risk, nonce, now);
        self.status = result.status;
        self.reject = settled.reject;
        self.stage = if settled.resync.is_some() {
            SendStage::Resyncing(0)
        } else {
            SendStage::Concluding
        };
        settled
    }

    /// The result of a try to fetch the nonce.
    pub fn on_nonce(
        &mut self,
        fetched: Option<i64>,
        nonce: &mut NonceManager,
        nonce_ok: &mut bool,
        risk: &mut RiskController,
        now: u64,
    ) -> (r: ResyncStep)
        requires
            old(self).wf(),
            old(self)@.stage is Resyncing,
            fetched is Some ==> fetched->0 > i64::MIN,
        ensures
            final(self).wf(),
            follows(old(self)@.stage, final(self)@.stage),
            final(self)@ == (Flow { stage: final(self)@.stage, ..old(self)@ }),
            ({
                let failed = old(self)@.stage->Resyncing_0 + 1;
                match fetched {
                    Some(n) => {
                        &&& r == ResyncStep::Done
                        &&& final(self)@.stage == SendStage::Concluding
                        &&& final(nonce)@ == in_step(old(nonce)@, n)
                        &&& *final(nonce_ok)
                        &&& final(risk)@ == old(risk)@
                    },
                    None => if failed >= NONCE_RESYNC_ATTEMPTS {
                        &&& r == ResyncStep::Exhausted
                        &&& final(self)@.stage == SendStage::Concluding
                        &&& final(nonce)@ == old(nonce)@
                        &&& !*final(nonce_ok)
                        &&& final(risk)@ == after_lost_nonce(old(risk)@, now)
                    } else {
                        &&& r == ResyncStep::Retry
                        &&& final(self)@.stage == SendStage::Resyncing(failed as u32)
                        &&& final(nonce)@ == old(nonce)@
                        &&& *final(nonce_ok) == *old(nonce_ok)
                        &&& final(risk)@ == old(risk)@
                    },
                }
            }),
    {
        let failures: u32 = match self.stage {
            SendStage::Resyncing(k) => k,
            _ => 0,
        };
        let mut tries: NonceResync = NonceResync { failures };
        let step: ResyncStep = tries.on_refresh(fetched, nonce, nonce_ok, risk, now);
        self.stage = match step {
            ResyncStep::Retry => SendStage::Resyncing(tries.failures),
            _ => SendStage::Concluding,
        };
        step
    }

    /// What remains to be done. After it nothing does.
    pub fn conclude(&mut self, risk: &mut RiskController, now: u64) -> (r: Conclusion)
        requires
            old(self).wf(),
            old(self)@.stage == SendStage::Concluding,
        ensures
            final(self).wf(),
            follows(old(self)@.stage, final(self)@.stage),
            final(self)@ == (Flow { stage: SendStage::Done, ..old(self)@ }),
            match old(self)@.status {
                TxSendStatus::Rejected => {
                    &&& final(risk)@ == old(risk)@
                    &&& r.cancel_all == paused(old(risk)@, now)
                    &&& r.notify_reconcile == (old(self)@.reject is Some && business(
                        old(self)@.reject->0,
                    ))
                },
                TxSendStatus::Unknown => {
                    &&& final(risk)@ == after_unknown(old(risk)@, now)
                    &&& r.cancel_all
                    &&& r.notify_reconcile
                },
                _ => {
                    &&& final(risk)@ == old(risk)@
                    &&& !r.cancel_all
                    &&& !r.notify_reconcile
                },
            },
    {
        self.stage = SendStage::Done;
        conclude_send(self.status, self.reject, risk, now)
    }
}

/// How many steps a batch can still take.
pub open spec fn steps_left(s: SendStage) -> int {
    match s {
        SendStage::Pacing(WritePhase::Backoff) => 11,
        SendStage::Pacing(WritePhase::Window) => 10,
        SendStage::Pacing(WritePhase::Interval) => 9,
        SendStage::Pacing(WritePhase::Quota) => 8,
        SendStage::Locking => 7,
        SendStage::Signing => 6,
        SendStage::Sending => 5,
        SendStage::Resyncing(k) => 4 - k,
        SendStage::Concluding => 1,
        SendStage::Done => 0,
    }
}

/// Whether a batch can go through the given stages, one after the other.
pub open spec fn is_way(path: Seq<SendStage>) -> bool {
    &&& forall|i: int| 0 <= i < path.len() - 1 ==> follows(#[trigger] path[i], path[i + 1])
    &&& forall|i: int|
        0 <= i < path.len() ==> (#[trigger] path[i] matches SendStage::Resyncing(k) ==> k
            < NONCE_RESYNC_ATTEMPTS)
}

/// A batch that was handed to a transport is never handed to one again, whatever became of it.
pub proof fn batches_go_out_once(path: Seq<SendStage>, i: int, j: int)
    requires
        is_way(path),
        0 <= i < j < path.len(),
        path[i] == SendStage::Sending,
    ensures
        path[j] != SendStage::Sending,
{
    lemma_steps_run_out(path, i, j);
}

/// Every batch comes to an end: it takes eleven steps at most.
pub proof fn batches_come_to_an_end(path: Seq<SendStage>)
    requires
        is_way(path),
        path.len() > 0,
    ensures
        path.len() <= 12,
{
    if path.len() > 1 {
        lemma_steps_run_out(path, 0, path.len() - 1);
    }
}

/// Each step leaves fewer to take.
proof fn lemma_steps_run_out(path: Seq<SendStage>, i: int, j: int)
    requires
        is_way(path),
        0 <= i < j < path.len(),
    ensures
        0 <= steps_left(path[j]) <= steps_left(path[i]) - (j - i),
    decreases j - i,
{
    assert(follows(path[j - 1], path[j]));
    if i < j - 1 {
        lemma_steps_run_out(path, i, j - 1);
    }
}

/// A batch is handed to a transport only when it was signed, is signed only under the lock, and takes
/// the lock only out of the pacing, whose stages come in their order. After
/// it was sent there is an outcome: no way leads from there to an end but through its conclusion, with
/// three tries at most to fetch the nonce between.
pub proof fn batches_are_signed_before_they_go(a: SendStage, b: SendStage)
    requires
        follows(a, b),
    ensures
        b == SendStage::Sending ==> a == SendStage::Signing,
        b == SendStage::Signing ==> a == SendStage::Locking,
        b == SendStage::Locking ==> a is Pacing,
        b == SendStage::Pacing(WritePhase::Window) ==> a == SendStage::Pacing(WritePhase::Backoff),
        b == SendStage::Pacing(WritePhase::Interval) ==> a == SendStage::Pacing(
            WritePhase::Window,
        ),
        b == SendStage::Pacing(WritePhase::Quota) ==> a == SendStage::Pacing(
            WritePhase::Interval,
        ),
        b != SendStage::Pacing(WritePhase::Backoff),
        b == SendStage::Concluding ==> a == SendStage::Sending || a is Resyncing,
        b matches SendStage::Resyncing(k) ==> k < 3 && (a == SendStage::Sending && k == 0 || a
            is Resyncing && k == a->Resyncing_0 + 1),
        b == SendStage::Done ==> a is Pacing || a == SendStage::Locking || a == SendStage::Signing
            || a == SendStage::Concluding,
        a != SendStage::Done,
{
}

/// Each of the four stages of the pacing leads on to the next, and the last to none.
pub proof fn pacing_has_four_stages()
    ensures
        phase_after(WritePhase::Backoff) == Some(WritePhase::Window),
        phase_after(WritePhase::Window) == Some(WritePhase::Interval),
        phase_after(WritePhase::Interval) == Some(WritePhase::Quota),
        phase_after(WritePhase::Quota) is None,
{
}

} // verus!
