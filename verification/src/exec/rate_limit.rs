//! Adaptive rate limiter: a sliding window of operations, pacing by the remaining volume quota,
//! and a global backoff after the exchange complained of too many requests.
//!
//! Times are nanoseconds of one monotonic clock.
use std::collections::VecDeque;
use vstd::prelude::*;
use vstd::arithmetic::power2::{lemma2_to64, lemma_pow2_strictly_increases, pow2};
use crate::num::Num;
use crate::text::{
    contains_text, integer_value, lowercase, lowercased, occurs, parse_i64, same_text, trim,
    trimmed,
};

verus! {

/// Latest time that the limiter is asked about: far enough below the end of the clock that
/// every delay still fits behind it.
pub const MAX_CLOCK_NS: u64 = 0x7FFF_FFFF_FFFF_FFFF;

/// Operations allowed per window.
pub const RL_OPS_PER_WINDOW: usize = 40;

/// Length of the window.
pub const RL_WINDOW_NS: u64 = 60_000_000_000;

/// Least time between a send and a batch of cancels alone.
pub const RL_CANCEL_MIN_INTERVAL_NS: u64 = 500_000_000;

/// Longest configurable time between two sends.
pub const RL_MAX_SEND_INTERVAL_NS: u64 = 0xFFF_FFFF_FFFF_FFFF;

/// Quota from which on no pacing applies.
pub const RL_QUOTA_HIGH: i64 = 500;

/// Quota from which on the mild pacing applies.
pub const RL_QUOTA_MEDIUM: i64 = 50;

/// Quota below which only the free slot is used.
pub const RL_QUOTA_LOW: i64 = 10;

/// The exchange gives one free transaction in this time.
pub const RL_FREE_SLOT_INTERVAL_NS: u64 = 15_000_000_000;

/// First global backoff.
pub const RL_BACKOFF_BASE_NS: u64 = 15_000_000_000;

/// Longest global backoff.
pub const RL_BACKOFF_MAX_NS: u64 = 120_000_000_000;

/// Successes in a row that end the escalation.
pub const RL_BACKOFF_RESET_AFTER: u32 = 2;

/// Time without a complaint after which the escalation ends by itself.
pub const BACKOFF_DECAY_NS: u64 = 300_000_000_000;

/// A backoff that ends within this time is slept out.
pub const BACKOFF_SLEEP_THRESHOLD_NS: u64 = 2_000_000_000;

/// A window that needs longer than this to free up makes the cycle skip.
pub const WINDOW_SKIP_THRESHOLD_NS: u64 = 30_000_000_000;

/// Why the exchange rejected a batch. Each kind calls for another correction of the nonce.
#[derive(Clone, Copy, Debug, PartialEq, Eq, Structural)]
pub enum RejectKind {
    /// The volume quota is exhausted.
    Quota,
    /// Too many requests.
    RateLimit,
    /// The nonce is out of step.
    Nonce,
    /// The key may only make; a business rejection with a label of its own.
    MakerOnly,
    /// Any other business rejection.
    Other,
}

/// Whether a message in lower case says that the volume quota is used up.
pub open spec fn says_quota(m: Seq<char>) -> bool {
    ||| occurs(m, "not enough"@) && occurs(m, "quota"@)
    ||| occurs(m, "quota"@) && occurs(m, "exhausted"@)
}

/// The kind of a rejection by its message in lower case.
pub open spec fn reject_kind(m: Seq<char>) -> RejectKind {
    if occurs(m, "quota"@) && !occurs(m, "remained"@) && !occurs(m, "didn't use"@) {
        RejectKind::Quota
    } else if occurs(m, "429"@) || occurs(m, "too many"@) {
        RejectKind::RateLimit
    } else if occurs(m, "nonce"@) {
        RejectKind::Nonce
    } else if occurs(m, "maker-only api key"@) || occurs(m, "maker only api key"@) || occurs(
        m,
        "0ms delay transactions"@,
    ) {
        RejectKind::MakerOnly
    } else {
        RejectKind::Other
    }
}

/// Whether a message in lower case tells of a passing trouble.
pub open spec fn says_transient(m: Seq<char>) -> bool {
    ||| occurs(m, "429"@)
    ||| occurs(m, "too many"@)
    ||| says_quota(m)
    ||| occurs(m, "invalid nonce"@)
}

/// [`is_quota_error`] of a message that is already in lower case.
pub fn lowered_is_quota_error(m: &str) -> (r: bool)
    ensures
        r == says_quota(m@),
{
    (contains_text(m, "not enough") && contains_text(m, "quota")) || (contains_text(m, "quota")
        && contains_text(m, "exhausted"))
}

/// Whether an error says that the volume quota is used up. Case does not matter.
pub fn is_quota_error(msg: &str) -> (r: bool)
    ensures
        r == says_quota(lowercased(msg@)),
{
    let m: String = lowercase(msg);
    lowered_is_quota_error(m.as_str())
}

/// [`classify_reject`] of a message that is already in lower case.
pub fn classify_lowered(m: &str) -> (r: RejectKind)
    ensures
        r == reject_kind(m@),
{
    if contains_text(m, "quota") && !contains_text(m, "remained") && !contains_text(
        m,
        "didn't use",
    ) {
        RejectKind::Quota
    } else if contains_text(m, "429") || contains_text(m, "too many") {
        RejectKind::RateLimit
    } else if contains_text(m, "nonce") {
        RejectKind::Nonce
    } else if contains_text(m, "maker-only api key") || contains_text(m, "maker only api key")
        || contains_text(m, "0ms delay transactions") {
        RejectKind::MakerOnly
    } else {
        RejectKind::Other
    }
}

/// The kind of a rejection. A message that merely reports the quota ("remained", "didn't use")
/// is no quota rejection; otherwise quota goes before rate, rate before nonce.
pub fn classify_reject(msg: &str) -> (r: RejectKind)
    ensures
        r == reject_kind(lowercased(msg@)),
{
    let m: String = lowercase(msg);
    classify_lowered(m.as_str())
}

/// [`is_transient_error`] of a message that is already in lower case.
pub fn lowered_is_transient_error(m: &str) -> (r: bool)
    ensures
        r == says_transient(m@),
{
    contains_text(m, "429") || contains_text(m, "too many") || lowered_is_quota_error(m)
        || contains_text(m, "invalid nonce")
}

/// Whether an error is a passing one (too many requests, an invalid nonce, a used-up quota), to be
/// backed off from rather than counted against the circuit breaker.
pub fn is_transient_error(msg: &str) -> (r: bool)
    ensures
        r == says_transient(lowercased(msg@)),
{
    let m: String = lowercase(msg);
    lowered_is_transient_error(m.as_str())
}

/// How much wider the quote-update threshold is at a given quota, in halves: the threshold is
/// the base times this number, divided by two.
pub open spec fn threshold_halves(quota: Option<i64>) -> nat {
    match quota {
        None => 2,
        Some(q) => if q >= RL_QUOTA_HIGH {
            2
        } else if q >= RL_QUOTA_MEDIUM {
            4
        } else if q >= RL_QUOTA_LOW {
            7
        } else {
            10
        },
    }
}

/// How much longer the send interval is at a given quota, in halves; `None` where only the
/// free slot is used.
pub open spec fn pace_halves(quota: Option<i64>) -> Option<nat> {
    match quota {
        None => Some(2),
        Some(q) => if q >= RL_QUOTA_HIGH {
            Some(2)
        } else if q >= RL_QUOTA_MEDIUM {
            Some(3)
        } else if q >= RL_QUOTA_LOW {
            Some(6)
        } else {
            None
        },
    }
}

/// The quote-update threshold at a given quota, as two factors: the base, and its widening in
/// halves.
pub fn quota_adaptive_threshold_bps(base: Num, quota: Option<i64>) -> (r: (Num, u32))
    ensures
        r.0 == base,
        r.1 == threshold_halves(quota),
{
    let halves: u32 = match quota {
        None => 2,
        Some(q) => if q >= RL_QUOTA_HIGH {
            2
        } else if q >= RL_QUOTA_MEDIUM {
            4
        } else if q >= RL_QUOTA_LOW {
            7
        } else {
            10
        },
    };
    (base, halves)
}

/// What the limiter knows.
pub struct Limits {
    /// Times of the recorded operations, in the order of recording.
    pub window: Seq<u64>,
    pub last_send: Option<u64>,
    pub backoff_until: Option<u64>,
    pub backoff_level: u32,
    pub successes: u32,
    pub backoff_trigger: Option<u64>,
    pub quota: Option<i64>,
    pub threshold: Num,
    pub min_interval: u64,
}

/// The window without the operations at its front that are too old to count.
pub open spec fn pruned_window(w: Seq<u64>, now: int) -> Seq<u64>
    decreases w.len(),
{
    if w.len() > 0 && w[0] + RL_WINDOW_NS < now {
        pruned_window(w.drop_first(), now)
    } else {
        w
    }
}

/// Operations that may be sent besides those in the window.
pub open spec fn room(w: Seq<u64>) -> int {
    if w.len() >= RL_OPS_PER_WINDOW {
        0
    } else {
        RL_OPS_PER_WINDOW - w.len()
    }
}

/// Time until `n` operations may be sent, for a window that was pruned at `now`: until the last of
/// the operations that must leave the window does.
pub open spec fn time_until_free(w: Seq<u64>, n: int, now: int) -> int {
    if w.len() == 0 || w.len() + n <= RL_OPS_PER_WINDOW {
        0
    } else {
        let at = if n >= RL_OPS_PER_WINDOW {
            w.len() - 1
        } else {
            w.len() - (RL_OPS_PER_WINDOW - n) - 1
        };
        let expires = w[at] + RL_WINDOW_NS;
        if expires <= now {
            0
        } else {
            expires - now
        }
    }
}

/// Time since the last send; `None` where nothing was sent yet.
pub open spec fn since_last_send(s: Limits, now: int) -> Option<int> {
    match s.last_send {
        Some(t) => Some(
            if now >= t {
                now - t
            } else {
                0
            },
        ),
        None => None,
    }
}

/// How long to wait so that `interval` has passed since the last send.
pub open spec fn wait_for(s: Limits, interval: int, now: int) -> int {
    match since_last_send(s, now) {
        Some(e) => if e < interval {
            interval - e
        } else {
            0
        },
        None => 0,
    }
}

/// Length of the backoff at an escalation level.
pub open spec fn backoff_ns(level: nat) -> int
    recommends
        level > 0,
{
    let grown = RL_BACKOFF_BASE_NS * pow2((level - 1) as nat);
    if grown <= RL_BACKOFF_MAX_NS {
        grown
    } else {
        RL_BACKOFF_MAX_NS as int
    }
}

/// The stages of the write pacing, in their order.
#[derive(Clone, Copy, Debug, PartialEq, Eq, Structural)]
pub enum WritePhase {
    /// Global backoff.
    Backoff,
    /// Room in the window.
    Window,
    /// Least time between two sends.
    Interval,
    /// Pacing by quota.
    Quota,
}

/// What the write pacing says at one stage.
#[derive(Clone, Copy, Debug, PartialEq, Eq, Structural)]
pub enum SlotStep {
    /// Skip this cycle.
    Skip,
    /// Wait so many nanoseconds (0: do not wait), and go on at the given stage; without one the
    /// batch may be sent.
    Wait { ns: u64, next: Option<WritePhase> },
}

/// What the write pacing says at a stage.
pub open spec fn slot_step(
    s: Limits,
    phase: WritePhase,
    op_count: int,
    cancel_only: bool,
    now: int,
) -> SlotStep {
    let floor = if cancel_only {
        RL_CANCEL_MIN_INTERVAL_NS as int
    } else {
        s.min_interval as int
    };
    match phase {
        WritePhase::Backoff => {
            let left = match s.backoff_until {
                Some(until) => if now < until {
                    until - now
                } else {
                    0
                },
                None => 0,
            };
            if left > BACKOFF_SLEEP_THRESHOLD_NS {
                SlotStep::Skip
            } else {
                SlotStep::Wait { ns: left as u64, next: Some(WritePhase::Window) }
            }
        },
        WritePhase::Window => {
            let w = pruned_window(s.window, now);
            let wait = if room(w) < op_count {
                time_until_free(w, op_count, now)
            } else {
                0
            };
            if wait > WINDOW_SKIP_THRESHOLD_NS {
                SlotStep::Skip
            } else {
                SlotStep::Wait { ns: wait as u64, next: Some(WritePhase::Interval) }
            }
        },
        WritePhase::Interval => SlotStep::Wait {
            ns: wait_for(s, floor, now) as u64,
            next: if cancel_only {
                None
            } else {
                Some(WritePhase::Quota)
            },
        },
        WritePhase::Quota => SlotStep::Wait {
            ns: match pace_halves(s.quota) {
                None => wait_for(s, RL_FREE_SLOT_INTERVAL_NS as int, now),
                Some(h) => if h > 2 {
                    wait_for(s, floor * h / 2, now)
                } else {
                    0
                },
            } as u64,
            next: None,
        },
    }
}

/// Adaptive rate limiter.
#[derive(Debug)]
pub struct RateLimiter {
    window: VecDeque<u64>,
    last_send: Option<u64>,
    global_backoff_until: Option<u64>,
    backoff_level: u32,
    consecutive_successes: u32,
    last_backoff_trigger: Option<u64>,
    quota: Option<i64>,
    default_quote_update_threshold_bps: Num,
    min_send_interval: u64,
}

impl View for RateLimiter {
    type V = Limits;

    closed spec fn view(&self) -> Limits {
        Limits {
            window: self.window@,
            last_send: self.last_send,
            backoff_until: self.global_backoff_until,
            backoff_level: self.backoff_level,
            successes: self.consecutive_successes,
            backoff_trigger: self.last_backoff_trigger,
            quota: self.quota,
            threshold: self.default_quote_update_threshold_bps,
            min_interval: self.min_send_interval,
        }
    }
}

impl RateLimiter {
    /// Recorded times and the configured interval leave room for arithmetic.
    pub closed spec fn wf(&self) -> bool {
        &&& forall|i: int| 0 <= i < self.window@.len() ==> #[trigger] self.window@[i] <= MAX_CLOCK_NS
        &&& self.min_send_interval <= RL_MAX_SEND_INTERVAL_NS
    }

    /// A limiter with a base quote-update threshold and a least time between two sends.
    pub fn new(
        default_quote_update_threshold_bps: Num,
        rate_limit_send_interval: u64,
    ) -> (r: RateLimiter)
        requires
            rate_limit_send_interval <= RL_MAX_SEND_INTERVAL_NS,
        ensures
            r.wf(),
            r@ == (Limits {
                window: Seq::empty(),
                last_send: None,
                backoff_until: None,
                backoff_level: 0,
                successes: 0,
                backoff_trigger: None,
                quota: None,
                threshold: default_quote_update_threshold_bps,
                min_interval: rate_limit_send_interval,
            }),
    {
        RateLimiter {
            window: VecDeque::new(),
            last_send: None,
            global_backoff_until: None,
            backoff_level: 0,
            consecutive_successes: 0,
            last_backoff_trigger: None,
            quota: None,
            default_quote_update_threshold_bps,
            min_send_interval: rate_limit_send_interval,
        }
    }

    /// The remaining volume quota, where it is known.
    pub fn quota(&self) -> (r: Option<i64>)
        ensures
            r == self@.quota,
    {
        self.quota
    }

    /// Sets the remaining volume quota.
    pub fn set_quota(&mut self, value: Option<i64>)
        requires
            old(self).wf(),
        ensures
            final(self).wf(),
            final(self)@ == (Limits { quota: value, ..old(self)@ }),
    {
        self.quota = value;
    }

    /// Takes over a quota that the exchange reported as text: nothing, `?` or what is no integer
    /// leaves the quota as it is.
    pub fn update_volume_quota(&mut self, raw: Option<&str>)
        requires
            old(self).wf(),
        ensures
            final(self).wf(),
            final(self)@ == (Limits {
                quota: match raw {
                    None => old(self)@.quota,
                    Some(s) => match integer_value(trimmed(s@)) {
                        Some(v) => if s@ != "?"@ && i64::MIN <= v <= i64::MAX {
                            Some(v as i64)
                        } else {
                            old(self)@.quota
                        },
                        None => old(self)@.quota,
                    },
                },
                ..old(self)@
            }),
    {
        if let Some(s) = raw {
            if !same_text(s, "?") {
                if let Some(v) = parse_i64(trim(s)) {
                    self.quota = Some(v);
                }
            }
        }
    }

    /// Takes over a quota that the exchange reported as a number.
    pub fn update_volume_quota_i64(&mut self, value: i64)
        requires
            old(self).wf(),
        ensures
            final(self).wf(),
            final(self)@ == (Limits { quota: Some(value), ..old(self)@ }),
    {
        self.quota = Some(value);
    }

    /// Drops the operations that are too old to count; the number of those that stay.
    pub fn prune_op_window_at(&mut self, now: u64) -> (r: usize)
        requires
            old(self).wf(),
        ensures
            final(self).wf(),
            final(self)@ == (Limits {
                window: pruned_window(old(self)@.window, now as int),
                ..old(self)@
            }),
            r == final(self)@.window.len(),
    {
        let ghost start = self@;
        loop
            invariant
                self.wf(),
                pruned_window(self@.window, now as int) == pruned_window(start.window, now as int),
                self@ == (Limits { window: self@.window, ..start }),
            ensures
                self.wf(),
                self@ == (Limits { window: pruned_window(start.window, now as int), ..start }),
            decreases self@.window.len(),
        {
            if self.window.len() == 0 {
                break;
            }
            let front: u64 = self.window[0];
            if now > front && now - front > RL_WINDOW_NS {
                let ghost before = self.window@;
                let _ = self.window.pop_front();
                proof {
                    assert(self.window@ =~= before.drop_first());
                }
            } else {
                break;
            }
        }
        self.window.len()
    }

    /// Operations that may be sent now.
    pub fn ops_available_at(&mut self, now: u64) -> (r: usize)
        requires
            old(self).wf(),
        ensures
            final(self).wf(),
            final(self)@ == (Limits {
                window: pruned_window(old(self)@.window, now as int),
                ..old(self)@
            }),
            r == room(final(self)@.window),
    {
        let used: usize = self.prune_op_window_at(now);
        RL_OPS_PER_WINDOW.saturating_sub(used)
    }

    /// Nanoseconds until `n` operations may be sent; 0 where they may be sent now.
    pub fn time_until_ops_free_at(&mut self, n: usize, now: u64) -> (r: u64)
        requires
            old(self).wf(),
        ensures
            final(self).wf(),
            final(self)@ == (Limits {
                window: pruned_window(old(self)@.window, now as int),
                ..old(self)@
            }),
            r == time_until_free(final(self)@.window, n as int, now as int),
    {
        let len: usize = self.prune_op_window_at(now);
        if len == 0 || (n <= RL_OPS_PER_WINDOW && len <= RL_OPS_PER_WINDOW - n) {
            return 0;
        }
        let at: usize = if n >= RL_OPS_PER_WINDOW {
            len - 1
        } else {
            len - (RL_OPS_PER_WINDOW - n) - 1
        };
        let expires: u64 = self.window[at] + RL_WINDOW_NS;
        if expires <= now {
            0
        } else {
            expires - now
        }
    }

    /// Records operations that were just sent.
    pub fn record_ops_sent_at(&mut self, count: usize, now: u64)
        requires
            old(self).wf(),
            now <= MAX_CLOCK_NS,
        ensures
            final(self).wf(),
            final(self)@ == (Limits {
                window: old(self)@.window + Seq::new(count as nat, |i: int| now),
                last_send: Some(now),
                ..old(self)@
            }),
    {
        let ghost start = self@;
        let mut i: usize = 0;
        proof {
            assert(self@.window =~= start.window + Seq::new(0, |i: int| now));
        }
        while i < count
            invariant
                self.wf(),
                now <= MAX_CLOCK_NS,
                i <= count,
                self@ == (Limits {
                    window: start.window + Seq::new(i as nat, |i: int| now),
                    ..start
                }),
            decreases count - i,
        {
            self.window.push_back(now);
            i = i + 1;
            proof {
                assert(self.window@ =~= start.window + Seq::new(i as nat, |i: int| now));
            }
        }
        self.last_send = Some(now);
    }

    /// How much longer the send interval is at the known quota, in halves: 2 is full speed, 3 and
    /// 6 are slower, and `None` waits for the free slot. An unknown quota means full speed.
    pub fn quota_pace_multiplier(&self) -> (r: Option<u32>)
        ensures
            match pace_halves(self@.quota) {
                Some(h) => r == Some(h as u32),
                None => r is None,
            },
    {
        match self.quota {
            None => Some(2),
            Some(q) => if q >= RL_QUOTA_HIGH {
                Some(2)
            } else if q >= RL_QUOTA_MEDIUM {
                Some(3)
            } else if q >= RL_QUOTA_LOW {
                Some(6)
            } else {
                None
            },
        }
    }

    /// The quote-update threshold at the known quota, as two factors: the base, and its widening
    /// in halves.
    pub fn adaptive_threshold_bps(&self) -> (r: (Num, u32))
        ensures
            r.0 == self@.threshold,
            r.1 == threshold_halves(self@.quota),
    {
        quota_adaptive_threshold_bps(self.default_quote_update_threshold_bps, self.quota)
    }

    /// Starts or escalates the global backoff; its length.
    pub fn trigger_global_backoff_at(&mut self, now: u64) -> (r: u64)
        requires
            old(self).wf(),
            now <= MAX_CLOCK_NS,
            old(self)@.backoff_level < u32::MAX,
        ensures
            final(self).wf(),
            r == backoff_ns((old(self)@.backoff_level + 1) as nat),
            final(self)@ == (Limits {
                backoff_level: (old(self)@.backoff_level + 1) as u32,
                successes: 0,
                backoff_trigger: Some(now),
                backoff_until: Some((now + r) as u64),
                ..old(self)@
            }),
    {
        self.backoff_level = self.backoff_level + 1;
        self.consecutive_successes = 0;
        self.last_backoff_trigger = Some(now);
        let level: u32 = self.backoff_level;
        proof {
            lemma_backoff(level as nat);
        }
        let duration: u64 = if level == 1 {
            RL_BACKOFF_BASE_NS
        } else if level == 2 {
            2 * RL_BACKOFF_BASE_NS
        } else if level == 3 {
            4 * RL_BACKOFF_BASE_NS
        } else {
            RL_BACKOFF_MAX_NS
        };
        self.global_backoff_until = Some(now + duration);
        duration
    }

    /// Records a write that succeeded: after enough of them in a row, or long after the last
    /// complaint, the escalation ends.
    pub fn reset_global_backoff_at(&mut self, now: u64)
        requires
            old(self).wf(),
        ensures
            final(self).wf(),
            final(self)@ == after_success(old(self)@, now as int),
    {
        self.consecutive_successes = self.consecutive_successes.saturating_add(1);
        if self.backoff_level > 0 {
            if let Some(trigger) = self.last_backoff_trigger {
                if now > trigger && now - trigger > BACKOFF_DECAY_NS {
                    self.backoff_level = 0;
                    self.consecutive_successes = 0;
                    return;
                }
            }
            if self.consecutive_successes >= RL_BACKOFF_RESET_AFTER {
                self.backoff_level = 0;
                self.consecutive_successes = 0;
            }
        }
    }

    /// The escalation level.
    pub fn backoff_level(&self) -> (r: u32)
        ensures
            r == self@.backoff_level,
    {
        self.backoff_level
    }

    /// Whether a global backoff is on.
    pub fn in_global_backoff_at(&self, now: u64) -> (r: bool)
        ensures
            r == (self@.backoff_until is Some && now < self@.backoff_until->0),
    {
        match self.global_backoff_until {
            Some(until) => now < until,
            None => false,
        }
    }

    /// How long to wait so that `interval` has passed since the last send.
    fn wait_since_send(&self, interval: u64, now: u64) -> (r: u64)
        ensures
            r == wait_for(self@, interval as int, now as int),
    {
        match self.last_send {
            Some(t) => {
                let elapsed: u64 = now.saturating_sub(t);
                if elapsed < interval {
                    interval - elapsed
                } else {
                    0
                }
            },
            None => 0,
        }
    }

    /// One stage of the write pacing. A batch starts at [`WritePhase::Backoff`]; the caller waits as
    /// told and comes back with the stage it was given, until the pacing says to skip or to send:
    /// a global backoff that lasts is skipped, so is a window that stays full for long; then the
    /// least time between sends passes, and for other than cancels the pacing by quota.
    pub fn write_slot(
        &mut self,
        phase: WritePhase,
        op_count: usize,
        cancel_only: bool,
        now: u64,
    ) -> (r: SlotStep)
        requires
            old(self).wf(),
        ensures
            final(self).wf(),
            r == slot_step(old(self)@, phase, op_count as int, cancel_only, now as int),
            final(self)@ == match phase {
                WritePhase::Window => Limits {
                    window: pruned_window(old(self)@.window, now as int),
                    ..old(self)@
                },
                _ => old(self)@,
            },
    {
        let floor: u64 = if cancel_only {
            RL_CANCEL_MIN_INTERVAL_NS
        } else {
            self.min_send_interval
        };
        match phase {
            WritePhase::Backoff => {
                let left: u64 = match self.global_backoff_until {
                    Some(until) => until.saturating_sub(now),
                    None => 0,
                };
                if left > BACKOFF_SLEEP_THRESHOLD_NS {
                    SlotStep::Skip
                } else {
                    SlotStep::Wait { ns: left, next: Some(WritePhase::Window) }
                }
            },
            WritePhase::Window => {
                let available: usize = self.ops_available_at(now);
                proof {
                    lemma_prune_twice(old(self)@.window, now as int);
                }
                let wait: u64 = if available < op_count {
                    self.time_until_ops_free_at(op_count, now)
                } else {
                    0
                };
                if wait > WINDOW_SKIP_THRESHOLD_NS {
                    SlotStep::Skip
                } else {
                    SlotStep::Wait { ns: wait, next: Some(WritePhase::Interval) }
                }
            },
            WritePhase::Interval => SlotStep::Wait {
                ns: self.wait_since_send(floor, now),
                next: if cancel_only {
                    None
                } else {
                    Some(WritePhase::Quota)
                },
            },
            WritePhase::Quota => {
                let wait: u64 = match self.quota_pace_multiplier() {
                    None => self.wait_since_send(RL_FREE_SLOT_INTERVAL_NS, now),
                    Some(h) => if h > 2 {
                        proof {
                            assert(floor * h <= RL_MAX_SEND_INTERVAL_NS * 6) by (nonlinear_arith)
                                requires
                                    floor <= RL_MAX_SEND_INTERVAL_NS,
                                    h <= 6,
                            ;
                        }
                        self.wait_since_send(floor * (h as u64) / 2, now)
                    } else {
                        0
                    },
                };
                SlotStep::Wait { ns: wait, next: None }
            },
        }
    }
}

/// The limiter after a write that succeeded.
pub open spec fn after_success(s: Limits, now: int) -> Limits {
    let successes = if s.successes == u32::MAX {
        s.successes
    } else {
        (s.successes + 1) as u32
    };
    let decayed = s.backoff_trigger is Some && now - s.backoff_trigger->0 > BACKOFF_DECAY_NS;
    if s.backoff_level > 0 && (decayed || successes >= RL_BACKOFF_RESET_AFTER) {
        Limits { backoff_level: 0, successes: 0, ..s }
    } else {
        Limits { successes, ..s }
    }
}

proof fn lemma_prune_twice(w: Seq<u64>, now: int)
    ensures
        pruned_window(pruned_window(w, now), now) == pruned_window(w, now),
    decreases w.len(),
{
    if w.len() > 0 && w[0] + RL_WINDOW_NS < now {
        lemma_prune_twice(w.drop_first(), now);
    }
}

proof fn lemma_backoff(level: nat)
    requires
        level > 0,
    ensures
        backoff_ns(level) == if level == 1 {
            RL_BACKOFF_BASE_NS as int
        } else if level == 2 {
            2 * RL_BACKOFF_BASE_NS
        } else if level == 3 {
            4 * RL_BACKOFF_BASE_NS
        } else {
            RL_BACKOFF_MAX_NS as int
        },
{
    lemma2_to64();
    if level > 3 {
        let grown = pow2((level - 1) as nat);
        if level > 4 {
            lemma_pow2_strictly_increases(3, (level - 1) as nat);
        }
        assert(grown >= 8);
        assert(RL_BACKOFF_BASE_NS * grown >= 120_000_000_000) by (nonlinear_arith)
            requires
                RL_BACKOFF_BASE_NS == 15_000_000_000,
                grown >= 8,
        ;
    }
}

/// The backoff never shrinks from one escalation to the next, and never exceeds its cap.
pub proof fn backoff_grows_to_its_cap(level: nat)
    requires
        level > 0,
    ensures
        RL_BACKOFF_BASE_NS <= backoff_ns(level) <= backoff_ns(level + 1) <= RL_BACKOFF_MAX_NS,
{
    lemma_backoff(level);
    lemma_backoff(level + 1);
}

/// Whether the times in a window do not go back.
pub open spec fn in_order(w: Seq<u64>) -> bool {
    forall|i: int, j: int| 0 <= i <= j < w.len() ==> w[i] <= w[j]
}

/// A pruned window is a tail of the window, and where the clock never went back it holds
/// exactly the operations of the last window length.
pub proof fn pruning_keeps_the_recent(w: Seq<u64>, now: int)
    ensures
        ({
            let p = pruned_window(w, now);
            let cut = w.len() - p.len();
            &&& 0 <= cut
            &&& p == w.subrange(cut, w.len() as int)
            &&& forall|i: int| 0 <= i < cut ==> #[trigger] w[i] + RL_WINDOW_NS < now
            &&& in_order(w) ==> forall|i: int|
                cut <= i < w.len() ==> #[trigger] w[i] + RL_WINDOW_NS >= now
        }),
    decreases w.len(),
{
    if w.len() > 0 && w[0] + RL_WINDOW_NS < now {
        let rest = w.drop_first();
        pruning_keeps_the_recent(rest, now);
        let p = pruned_window(w, now);
        let cut = w.len() - p.len();
        assert(p =~= w.subrange(cut, w.len() as int));
        assert forall|i: int| 0 <= i < cut implies #[trigger] w[i] + RL_WINDOW_NS < now by {
            if i > 0 {
                assert(rest[i - 1] == w[i]);
            }
        }
        if in_order(w) {
            assert(in_order(rest));
            assert forall|i: int| cut <= i < w.len() implies #[trigger] w[i] + RL_WINDOW_NS
                >= now by {
                assert(rest[i - 1] == w[i]);
            }
        }
    } else {
        assert(w =~= w.subrange(0, w.len() as int));
        if in_order(w) && w.len() > 0 {
            assert forall|i: int| 0 <= i < w.len() implies #[trigger] w[i] + RL_WINDOW_NS
                >= now by {
                assert(w[0] <= w[i]);
            }
        }
    }
}

/// Waiting for longer than the limiter says makes room: any time after the stated wait, `n`
/// more operations fit in the window.
pub proof fn waiting_makes_room(w: Seq<u64>, n: int, now: int, later: int)
    requires
        in_order(w),
        0 <= n <= RL_OPS_PER_WINDOW,
        later > now + time_until_free(pruned_window(w, now), n, now),
    ensures
        pruned_window(w, later).len() + n <= RL_OPS_PER_WINDOW,
{
    pruning_keeps_the_recent(w, now);
    pruning_keeps_the_recent(w, later);
    let p = pruned_window(w, now);
    let q = pruned_window(w, later);
    let cut = w.len() - p.len();
    let cut_later = w.len() - q.len();
    if cut_later < cut {
        assert(w[cut_later] + RL_WINDOW_NS < now);
        assert(w[cut_later] + RL_WINDOW_NS >= later);
        assert(time_until_free(p, n, now) >= 0);
        assert(false);
    }
    if p.len() > 0 && p.len() + n > RL_OPS_PER_WINDOW {
        let at = p.len() - (RL_OPS_PER_WINDOW - n) - 1;
        assert(p[at] == w[cut + at]);
        assert(p[at] + RL_WINDOW_NS < later);
        if cut_later <= cut + at {
            assert(w[cut + at] + RL_WINDOW_NS >= later);
            assert(false);
        }
    }
}

/// The limiter asks for no longer a wait than it takes: as long as the stated wait is not over,
/// `n` more operations do not fit in the window.
pub proof fn waiting_is_needed(w: Seq<u64>, n: int, now: int, earlier: int)
    requires
        in_order(w),
        0 <= n,
        now <= earlier < now + time_until_free(pruned_window(w, now), n, now),
    ensures
        pruned_window(w, earlier).len() + n > RL_OPS_PER_WINDOW,
{
    pruning_keeps_the_recent(w, now);
    pruning_keeps_the_recent(w, earlier);
    let p = pruned_window(w, now);
    let q = pruned_window(w, earlier);
    let cut = w.len() - p.len();
    let cut_earlier = w.len() - q.len();
    let at = if n >= RL_OPS_PER_WINDOW {
        p.len() - 1
    } else {
        p.len() - (RL_OPS_PER_WINDOW - n) - 1
    };
    assert(p[at] == w[cut + at]);
    assert(w[cut + at] + RL_WINDOW_NS > earlier);
    if cut_earlier > cut + at {
        assert(w[cut + at] + RL_WINDOW_NS < earlier);
        assert(false);
    }
}

/// A used-up quota counts as a passing trouble.
pub proof fn quota_errors_are_transient(m: Seq<char>)
    requires
        says_quota(m),
    ensures
        says_transient(m),
{
}

/// A batch that the window stage lets through without a wait fits in the window.
pub proof fn unhindered_batches_fit(
    s: Limits,
    op_count: int,
    cancel_only: bool,
    now: int,
)
    requires
        room(pruned_window(s.window, now)) >= op_count,
        op_count >= 0,
    ensures
        pruned_window(s.window, now).len() + op_count <= RL_OPS_PER_WINDOW
            || op_count == 0,
        slot_step(s, WritePhase::Window, op_count, cancel_only, now) == (SlotStep::Wait {
            ns: 0,
            next: Some(WritePhase::Interval),
        }),
{
}

/// With the quota all but gone, other than cancels go out only in the free slot: the pacing waits
/// until its interval has passed since the last send.
pub proof fn low_quota_waits_for_the_free_slot(
    s: Limits,
    op_count: int,
    now: int,
    q: i64,
    last: u64,
)
    requires
        s.quota == Some(q),
        q < RL_QUOTA_LOW,
        s.last_send == Some(last),
        last <= now,
    ensures
        slot_step(s, WritePhase::Quota, op_count, false, now) matches SlotStep::Wait { ns, next }
            && next is None && now + ns >= last + RL_FREE_SLOT_INTERVAL_NS,
{
}

/// Cancels are never slowed by the quota: their pacing ends after the interval stage.
pub proof fn cancels_ignore_the_quota(s: Limits, op_count: int, now: int)
    ensures
        slot_step(s, WritePhase::Interval, op_count, true, now) matches SlotStep::Wait {
            ns,
            next,
        } && next is None && ns <= RL_CANCEL_MIN_INTERVAL_NS,
{
}

/// A smaller quota never widens the pace or narrows the threshold.
pub proof fn pacing_follows_the_quota(a: i64, b: i64)
    requires
        a <= b,
    ensures
        threshold_halves(Some(a)) >= threshold_halves(Some(b)),
        pace_halves(Some(a)) is Some ==> pace_halves(Some(b)) is Some && pace_halves(Some(a))->0
            >= pace_halves(Some(b))->0,
{
}

/// Two successes in a row end an escalation.
pub proof fn two_successes_end_the_escalation(s: Limits, t0: int, t1: int)
    ensures
        after_success(after_success(s, t0), t1).backoff_level == 0,
{
}

/// The kind of a rejection by the words in it, each kind for what the ones before it leave: a quota
/// that is not merely reported; too many requests; the nonce; a key that may only make; the rest.
pub proof fn words_tell_the_kind(m: Seq<char>)
    ensures
        ({
            let k = reject_kind(m);
            let quota = occurs(m, "quota"@) && !(occurs(m, "remained"@) || occurs(m, "didn't use"@));
            let rate = occurs(m, "429"@) || occurs(m, "too many"@);
            let maker = occurs(m, "maker-only api key"@) || occurs(m, "maker only api key"@)
                || occurs(m, "0ms delay transactions"@);
            &&& k == RejectKind::Quota <==> quota
            &&& k == RejectKind::RateLimit <==> !quota && rate
            &&& k == RejectKind::Nonce <==> !quota && !rate && occurs(m, "nonce"@)
            &&& k == RejectKind::MakerOnly <==> !quota && !rate && !occurs(m, "nonce"@) && maker
            &&& k == RejectKind::Other <==> !quota && !rate && !occurs(m, "nonce"@) && !maker
            &&& says_quota(m) <==> occurs(m, "quota"@) && (occurs(m, "not enough"@) || occurs(
                m,
                "exhausted"@,
            ))
            &&& says_transient(m) <==> rate || says_quota(m) || occurs(m, "invalid nonce"@)
        }),
{
}

/// How quota tells the pace: full speed while it is not known or is 500 at least; from 50 on half as
/// long again between sends, and twice the threshold; from 10 on three times as long, and three and
/// a half times the threshold; below that only the free slot, and five times the threshold.
pub proof fn quota_sets_the_pace(quota: Option<i64>)
    ensures
        ({
            let full = quota is None || quota->0 >= 500;
            let mild = quota is Some && 50 <= quota->0 < 500;
            let slow = quota is Some && 10 <= quota->0 < 50;
            &&& full ==> pace_halves(quota) == Some(2nat) && threshold_halves(quota) == 2
            &&& mild ==> pace_halves(quota) == Some(3nat) && threshold_halves(quota) == 4
            &&& slow ==> pace_halves(quota) == Some(6nat) && threshold_halves(quota) == 7
            &&& !full && !mild && !slow ==> pace_halves(quota) is None && threshold_halves(quota)
                == 10
        }),
{
}

/// A global backoff that is over within two seconds is waited out to its very end, a longer one
/// makes the batch skip, and without one there is no wait; the window comes next.
pub proof fn backoffs_are_waited_out(s: Limits, op_count: int, cancel_only: bool, now: u64)
    ensures
        ({
            let r = slot_step(s, WritePhase::Backoff, op_count, cancel_only, now as int);
            let on = s.backoff_until is Some && now < s.backoff_until->0;
            &&& r == SlotStep::Skip <==> on && s.backoff_until->0 - now > 2_000_000_000
            &&& r matches SlotStep::Wait { ns, next } ==> {
                &&& next == Some(WritePhase::Window)
                &&& on ==> now + ns == s.backoff_until->0
                &&& !on ==> ns == 0
            }
        }),
{
}

/// A batch that does not fit in the window waits until it does, or skips where that takes longer
/// than half a minute; one that fits does not wait; the interval comes next. A send leaves room for
/// as many operations as there are to a window, less those that count.
pub proof fn full_windows_are_waited_out(s: Limits, op_count: int, cancel_only: bool, now: u64)
    requires
        0 <= op_count,
        s.window.len() <= 0x7FFF_FFFF,
        forall|i: int| 0 <= i < s.window.len() ==> #[trigger] s.window[i] <= MAX_CLOCK_NS,
    ensures
        ({
            let w = pruned_window(s.window, now as int);
            let r = slot_step(s, WritePhase::Window, op_count, cancel_only, now as int);
            let free = time_until_free(w, op_count, now as int);
            let fits = op_count == 0 || w.len() + op_count <= 40;
            &&& room(w) == if w.len() <= 40 {
                40 - w.len()
            } else {
                0
            }
            &&& r == SlotStep::Skip <==> !fits && free > 30_000_000_000
            &&& r matches SlotStep::Wait { ns, next } ==> {
                &&& next == Some(WritePhase::Interval)
                &&& fits ==> ns == 0
                &&& !fits ==> ns == free
            }
        }),
{
    pruning_keeps_the_recent(s.window, now as int);
}

/// Between two sends lies the least time: half a second before cancels alone, the configured time
/// otherwise. A batch waits exactly until that is over, and not at all where it is or where nothing
/// was sent; cancels then go out, and the rest are paced by the quota.
pub proof fn sends_keep_their_distance(
    s: Limits,
    op_count: int,
    cancel_only: bool,
    now: u64,
    last: u64,
)
    requires
        last <= now,
        last + s.min_interval <= u64::MAX && last + 500_000_000 <= u64::MAX,
    ensures
        ({
            let r = slot_step(s, WritePhase::Interval, op_count, cancel_only, now as int);
            let floor = if cancel_only {
                500_000_000
            } else {
                s.min_interval as int
            };
            &&& r matches SlotStep::Wait { ns, next }
            &&& next == if cancel_only {
                None
            } else {
                Some(WritePhase::Quota)
            }
            &&& s.last_send is None ==> ns == 0
            &&& s.last_send == Some(last) && now < last + floor ==> now + ns == last + floor
            &&& s.last_send == Some(last) && now >= last + floor ==> ns == 0
        }),
{
}

/// The pacing by quota waits until its interval has passed since the last send, and not at all where
/// it has or nothing was sent; then the batch may go out. The interval is none at full speed, half as
/// long again as the configured time from 50 on, three times it from 10 on, and fifteen seconds below
/// that.
pub proof fn quota_pacing_waits_its_interval(s: Limits, op_count: int, now: u64, last: u64)
    requires
        last <= now,
        s.min_interval <= RL_MAX_SEND_INTERVAL_NS,
    ensures
        ({
            let r = slot_step(s, WritePhase::Quota, op_count, false, now as int);
            let interval = if s.quota is None || s.quota->0 >= 500 {
                0
            } else if s.quota->0 >= 50 {
                s.min_interval * 3 / 2
            } else if s.quota->0 >= 10 {
                s.min_interval * 3
            } else {
                15_000_000_000
            };
            &&& r matches SlotStep::Wait { ns, next }
            &&& next is None
            &&& s.last_send is None ==> ns == 0
            &&& s.last_send == Some(last) && now < last + interval ==> now + ns == last + interval
            &&& s.last_send == Some(last) && now >= last + interval ==> ns == 0
        }),
{
    assert(s.min_interval * 6 / 2 == s.min_interval * 3);
}

/// The first backoff lasts fifteen seconds, and each further one twice as long as the one before,
/// two minutes at most.
pub proof fn backoffs_double(level: nat)
    requires
        level > 0,
    ensures
        backoff_ns(1) == 15_000_000_000,
        backoff_ns(level + 1) == if 2 * backoff_ns(level) <= 120_000_000_000 {
            2 * backoff_ns(level)
        } else {
            120_000_000_000
        },
{
    lemma_backoff(1);
    lemma_backoff(level);
    lemma_backoff(level + 1);
}

/// A success counts. It ends an escalation exactly where it is the second in a row, or the last
/// complaint lies more than five minutes back; counting then begins anew. It changes nothing else.
pub proof fn successes_end_an_escalation(s: Limits, now: int)
    requires
        s.successes < u32::MAX,
    ensures
        ({
            let t = after_success(s, now);
            let ends = s.backoff_level > 0 && (s.successes >= 1 || s.backoff_trigger is Some && now
                - s.backoff_trigger->0 > 300_000_000_000);
            &&& ends ==> t.backoff_level == 0 && t.successes == 0
            &&& !ends ==> t.backoff_level == s.backoff_level && t.successes == s.successes + 1
            &&& t.window == s.window && t.last_send == s.last_send && t.quota == s.quota
            &&& t.backoff_until == s.backoff_until && t.backoff_trigger == s.backoff_trigger
            &&& t.threshold == s.threshold && t.min_interval == s.min_interval
        }),
{
}

} // verus!
