//! Circuit breaker and health of the reconciliation with the exchange.
//!
//! Times are nanoseconds of one monotonic clock.
use vstd::prelude::*;
use vstd::string::StringExecFns;
use crate::text::{decimal, decimal_text};

verus! {

/// What the controller knows.
pub struct Risk {
    pub max_rejections: u32,
    pub cooldown: u64,
    /// Rejections since the last success.
    pub rejections: u32,
    /// Deadline of the pause; `None` where no pause was armed.
    pub paused_until: Option<u64>,
    pub pause_reason: Seq<char>,
    pub reconcile_ok: bool,
    pub reconcile_reason: Seq<char>,
    pub reconcile_time: Option<u64>,
    /// Failed reconciliations since the last one that succeeded.
    pub mismatch_streak: u32,
    /// Whether the orders were already cancelled on account of the current pause.
    pub pause_cancel_done: bool,
}

/// Whether trading is paused.
pub open spec fn paused(s: Risk, now: u64) -> bool {
    s.paused_until is Some && now < s.paused_until->0
}

/// A counter, one higher where that fits.
pub open spec fn bumped(n: u32) -> u32 {
    if n == u32::MAX {
        n
    } else {
        (n + 1) as u32
    }
}

/// The deadline of a pause of this length from now on.
pub open spec fn deadline(now: u64, cooldown: u64) -> u64 {
    if now + cooldown <= u64::MAX {
        (now + cooldown) as u64
    } else {
        u64::MAX
    }
}

/// The controller after a pause was called for: the deadline is only ever moved to a later time,
/// never to an earlier one.
pub open spec fn after_pause(s: Risk, reason: Seq<char>, now: u64) -> Risk {
    let until = deadline(now, s.cooldown);
    Risk {
        paused_until: match s.paused_until {
            Some(prev) => if until <= prev {
                Some(prev)
            } else {
                Some(until)
            },
            None => Some(until),
        },
        pause_reason: reason,
        pause_cancel_done: false,
        ..s
    }
}

/// What a tripped circuit breaker gives as its reason.
pub open spec fn breaker_reason(count: u32, reason: Seq<char>) -> Seq<char> {
    "circuit_breaker: "@ + decimal(count as nat) + " consecutive rejections ("@ + reason + ")"@
}

/// The controller after a rejection.
pub open spec fn after_rejection(s: Risk, reason: Seq<char>, now: u64) -> Risk {
    let t = Risk { rejections: bumped(s.rejections), ..s };
    if s.max_rejections > 0 && t.rejections >= s.max_rejections {
        after_pause(t, breaker_reason(t.rejections, reason), now)
    } else {
        t
    }
}

/// Whether trading may go on, and the controller after asking.
pub open spec fn recovery(s: Risk, healthy: bool, now: u64) -> (bool, Risk) {
    if paused(s, now) {
        (false, s)
    } else if s.paused_until is None {
        (true, s)
    } else if !s.reconcile_ok || !healthy {
        (false, s)
    } else {
        (
            true,
            Risk {
                paused_until: None,
                pause_reason: Seq::empty(),
                rejections: 0,
                pause_cancel_done: false,
                ..s
            },
        )
    }
}

/// The controller after a reconciliation.
pub open spec fn after_reconcile(s: Risk, ok: bool, reason: Seq<char>, now: u64) -> Risk {
    Risk {
        reconcile_ok: ok,
        reconcile_reason: reason,
        reconcile_time: Some(now),
        mismatch_streak: if ok {
            0
        } else {
            bumped(s.mismatch_streak)
        },
        ..s
    }
}

/// Circuit breaker and reconciliation health.
#[derive(Clone, Debug)]
pub struct RiskController {
    max_consecutive_order_rejections: u32,
    circuit_breaker_cooldown: u64,
    consecutive_rejections: u32,
    paused_until: Option<u64>,
    pause_reason: String,
    last_reconcile_ok: bool,
    last_reconcile_reason: String,
    last_reconcile_time: Option<u64>,
    mismatch_streak: u32,
    pause_cancel_done: bool,
}

impl View for RiskController {
    type V = Risk;

    closed spec fn view(&self) -> Risk {
        Risk {
            max_rejections: self.max_consecutive_order_rejections,
            cooldown: self.circuit_breaker_cooldown,
            rejections: self.consecutive_rejections,
            paused_until: self.paused_until,
            pause_reason: self.pause_reason@,
            reconcile_ok: self.last_reconcile_ok,
            reconcile_reason: self.last_reconcile_reason@,
            reconcile_time: self.last_reconcile_time,
            mismatch_streak: self.mismatch_streak,
            pause_cancel_done: self.pause_cancel_done,
        }
    }
}

impl RiskController {
    /// A controller that pauses for `circuit_breaker_cooldown` nanoseconds after so many
    /// rejections in a row; with 0 of them no rejection ever pauses.
    pub fn new(max_consecutive_order_rejections: u32, circuit_breaker_cooldown: u64) -> (r:
        RiskController)
        ensures
            r@ == (Risk {
                max_rejections: max_consecutive_order_rejections,
                cooldown: circuit_breaker_cooldown,
                rejections: 0,
                paused_until: None,
                pause_reason: Seq::empty(),
                reconcile_ok: true,
                reconcile_reason: Seq::empty(),
                reconcile_time: None,
                mismatch_streak: 0,
                pause_cancel_done: false,
            }),
    {
        RiskController {
            max_consecutive_order_rejections,
            circuit_breaker_cooldown,
            consecutive_rejections: 0,
            paused_until: None,
            pause_reason: String::new(),
            last_reconcile_ok: true,
            last_reconcile_reason: String::new(),
            last_reconcile_time: None,
            mismatch_streak: 0,
            pause_cancel_done: false,
        }
    }

    /// Sets the length of the pauses called for from now on.
    pub fn set_cooldown(&mut self, circuit_breaker_cooldown: u64)
        ensures
            final(self)@ == (Risk { cooldown: circuit_breaker_cooldown, ..old(self)@ }),
    {
        self.circuit_breaker_cooldown = circuit_breaker_cooldown;
    }

    /// Forgets the rejections.
    pub fn record_success(&mut self)
        ensures
            final(self)@ == (Risk { rejections: 0, ..old(self)@ }),
    {
        self.consecutive_rejections = 0;
    }

    /// Counts a rejection, and pauses when there were too many in a row.
    pub fn record_rejection(&mut self, reason: &str, now: u64)
        ensures
            final(self)@ == after_rejection(old(self)@, reason@, now),
    {
        self.consecutive_rejections = self.consecutive_rejections.saturating_add(1);
        let threshold: u32 = self.max_consecutive_order_rejections;
        if threshold > 0 && self.consecutive_rejections >= threshold {
            let count: String = decimal_text(self.consecutive_rejections as u64);
            let msg: String = "circuit_breaker: ".to_owned().concat(count.as_str()).concat(
                " consecutive rejections (",
            ).concat(reason).concat(")");
            self.trigger_pause(msg.as_str(), now);
        }
    }

    /// Pauses trading, or extends the pause.
    pub fn trigger_pause(&mut self, reason: &str, now: u64)
        ensures
            final(self)@ == after_pause(old(self)@, reason@, now),
    {
        let until: u64 = now.saturating_add(self.circuit_breaker_cooldown);
        match self.paused_until {
            Some(prev) => {
                if until > prev {
                    self.paused_until = Some(until);
                }
            },
            None => {
                self.paused_until = Some(until);
            },
        }
        self.pause_reason = reason.to_owned();
        self.pause_cancel_done = false;
    }

    /// Whether trading is paused.
    pub fn is_paused(&self, now: u64) -> (r: bool)
        ensures
            r == paused(self@, now),
    {
        match self.paused_until {
            Some(until) => now < until,
            None => false,
        }
    }

    /// Ends a pause whose deadline has passed, provided that the last reconciliation succeeded
    /// and the market data are alive. Whether trading may go on.
    pub fn maybe_recover(&mut self, websocket_healthy: bool, now: u64) -> (r: bool)
        ensures
            (r, final(self)@) == recovery(old(self)@, websocket_healthy, now),
    {
        if self.is_paused(now) {
            return false;
        }
        if self.paused_until.is_none() {
            return true;
        }
        if !self.last_reconcile_ok || !websocket_healthy {
            return false;
        }
        self.paused_until = None;
        self.pause_reason = String::new();
        self.consecutive_rejections = 0;
        self.pause_cancel_done = false;
        true
    }

    /// Records how a reconciliation went.
    pub fn mark_reconcile(&mut self, ok: bool, reason: &str, now: u64)
        ensures
            final(self)@ == after_reconcile(old(self)@, ok, reason@, now),
    {
        self.last_reconcile_ok = ok;
        self.last_reconcile_reason = reason.to_owned();
        self.last_reconcile_time = Some(now);
        self.mismatch_streak = if ok { 0 } else { self.mismatch_streak.saturating_add(1) };
    }

    /// Failed reconciliations since the last one that succeeded.
    pub fn mismatch_streak(&self) -> (r: u32)
        ensures
            r == self@.mismatch_streak,
    {
        self.mismatch_streak
    }

    /// Reason of the current pause; empty where there is none.
    pub fn pause_reason(&self) -> (r: &str)
        ensures
            r@ == self@.pause_reason,
    {
        self.pause_reason.as_str()
    }

    /// Deadline of the pause.
    pub fn paused_until(&self) -> (r: Option<u64>)
        ensures
            r == self@.paused_until,
    {
        self.paused_until
    }

    /// Rejections since the last success.
    pub fn consecutive_rejections(&self) -> (r: u32)
        ensures
            r == self@.rejections,
    {
        self.consecutive_rejections
    }

    /// Whether the last reconciliation succeeded.
    pub fn last_reconcile_ok(&self) -> (r: bool)
        ensures
            r == self@.reconcile_ok,
    {
        self.last_reconcile_ok
    }

    /// What the last reconciliation gave as its reason.
    pub fn last_reconcile_reason(&self) -> (r: &str)
        ensures
            r@ == self@.reconcile_reason,
    {
        self.last_reconcile_reason.as_str()
    }

    /// When the last reconciliation was.
    pub fn last_reconcile_time(&self) -> (r: Option<u64>)
        ensures
            r == self@.reconcile_time,
    {
        self.last_reconcile_time
    }

    /// Whether the orders were already cancelled on account of the current pause.
    pub fn pause_cancel_done(&self) -> (r: bool)
        ensures
            r == self@.pause_cancel_done,
    {
        self.pause_cancel_done
    }

    /// Notes whether the orders were cancelled on account of the current pause.
    pub fn set_pause_cancel_done(&mut self, value: bool)
        ensures
            final(self)@ == (Risk { pause_cancel_done: value, ..old(self)@ }),
    {
        self.pause_cancel_done = value;
    }
}

/// A pause is only ever extended: calling for one never ends or shortens it.
pub proof fn pauses_only_extend(s: Risk, reason: Seq<char>, now: u64, t: u64)
    requires
        paused(s, t),
    ensures
        paused(after_pause(s, reason, now), t),
{
}

/// Calling for a pause pauses at once, unless the cooldown is zero or the clock at its end.
pub proof fn pausing_takes_effect(s: Risk, reason: Seq<char>, now: u64)
    requires
        s.cooldown > 0,
        now < u64::MAX,
    ensures
        paused(after_pause(s, reason, now), now),
{
}

/// With a threshold of zero no rejection ever pauses.
pub proof fn zero_threshold_never_pauses(s: Risk, reason: Seq<char>, now: u64)
    requires
        s.max_rejections == 0,
    ensures
        after_rejection(s, reason, now).paused_until == s.paused_until,
{
}

/// The controller after `n` rejections in a row.
pub open spec fn after_rejections(s: Risk, reason: Seq<char>, now: u64, n: nat) -> Risk
    decreases n,
{
    if n == 0 {
        s
    } else {
        after_rejection(after_rejections(s, reason, now, (n - 1) as nat), reason, now)
    }
}

/// So many rejections after a success as the threshold allows trip the breaker, and no fewer do.
pub proof fn breaker_trips_at_its_threshold(s: Risk, reason: Seq<char>, now: u64, n: nat)
    requires
        s.rejections == 0,
        s.paused_until is None,
        0 < s.max_rejections,
        n <= s.max_rejections,
    ensures
        after_rejections(s, reason, now, n).rejections == n,
        after_rejections(s, reason, now, n).max_rejections == s.max_rejections,
        after_rejections(s, reason, now, n).paused_until is Some <==> n == s.max_rejections,
    decreases n,
{
    if n > 0 {
        breaker_trips_at_its_threshold(s, reason, now, (n - 1) as nat);
    }
}

/// Trading goes on after a pause only when its deadline has passed, the last reconciliation
/// succeeded and the market data are alive; asking again then still says yes.
pub proof fn recovery_needs_health(s: Risk, healthy: bool, now: u64)
    requires
        s.paused_until is Some,
    ensures
        recovery(s, healthy, now).0 <==> s.paused_until->0 <= now && s.reconcile_ok && healthy,
        recovery(s, healthy, now).0 ==> recovery(recovery(s, healthy, now).1, false, now).0,
        !recovery(s, healthy, now).0 ==> recovery(s, healthy, now).1 == s,
{
}

/// A pause lasts: from the moment it is called for trading is paused for the whole cooldown, as far
/// as the clock goes, and where no earlier pause lasts longer, no longer than that. Its reason is the
/// one given, the orders are yet to be cancelled on its account, and nothing else changes.
pub proof fn pauses_last_their_cooldown(s: Risk, reason: Seq<char>, now: u64, t: u64)
    ensures
        ({
            let p = after_pause(s, reason, now);
            &&& now <= t < now + s.cooldown && t < u64::MAX ==> paused(p, t)
            &&& t >= now + s.cooldown && !paused(s, t) ==> !paused(p, t)
            &&& p.paused_until is Some
            &&& p.pause_reason == reason
            &&& !p.pause_cancel_done
            &&& p.rejections == s.rejections && p.max_rejections == s.max_rejections && p.cooldown
                == s.cooldown
            &&& p.reconcile_ok == s.reconcile_ok && p.reconcile_reason == s.reconcile_reason
                && p.reconcile_time == s.reconcile_time && p.mismatch_streak == s.mismatch_streak
        }),
{
}

/// A rejection is counted, and pauses trading for the whole cooldown exactly where it is the last
/// one that the threshold allows, or one beyond it; the reason then names the count and what the
/// rejection said. Below the threshold only the count changes.
pub proof fn rejections_are_counted(s: Risk, reason: Seq<char>, now: u64, t: u64)
    requires
        s.rejections < u32::MAX,
    ensures
        ({
            let r = after_rejection(s, reason, now);
            let trips = 0 < s.max_rejections <= s.rejections + 1;
            &&& r.rejections == s.rejections + 1
            &&& !trips ==> r == (Risk { rejections: (s.rejections + 1) as u32, ..s })
            &&& trips && now <= t < now + s.cooldown && t < u64::MAX ==> paused(r, t)
            &&& trips && t >= now + s.cooldown && !paused(s, t) ==> !paused(r, t)
            &&& trips ==> !r.pause_cancel_done && r.pause_reason == "circuit_breaker: "@ + decimal(
                (s.rejections + 1) as nat,
            ) + " consecutive rejections ("@ + reason + ")"@
            &&& r.max_rejections == s.max_rejections && r.cooldown == s.cooldown
            &&& r.reconcile_ok == s.reconcile_ok && r.mismatch_streak == s.mismatch_streak
        }),
{
}

/// What asking to go on does: with no pause armed the answer is yes and nothing changes; while the
/// deadline is ahead, or health is lacking, it is no and nothing changes; otherwise the pause is
/// over, its reason and the rejections are forgotten, and the next pause cancels orders anew.
pub proof fn asking_ends_only_a_pause_that_is_over(s: Risk, healthy: bool, now: u64)
    ensures
        ({
            let (go, r) = recovery(s, healthy, now);
            let over = s.paused_until is Some && s.paused_until->0 <= now && s.reconcile_ok
                && healthy;
            &&& go <==> s.paused_until is None || over
            &&& !over ==> r == s
            &&& over ==> {
                &&& r.paused_until is None && r.pause_reason.len() == 0
                &&& r.rejections == 0 && !r.pause_cancel_done
                &&& r.max_rejections == s.max_rejections && r.cooldown == s.cooldown
                &&& r.reconcile_ok == s.reconcile_ok && r.reconcile_reason == s.reconcile_reason
                    && r.reconcile_time == s.reconcile_time && r.mismatch_streak
                    == s.mismatch_streak
                &&& forall|t: u64| !paused(r, t)
            }
        }),
{
}

/// A reconciliation is noted as it went, with its reason and its time; one that succeeded ends the
/// row of failures, one that failed makes it longer. Nothing is paused or resumed by it.
pub proof fn reconciliations_are_noted(s: Risk, ok: bool, reason: Seq<char>, now: u64)
    ensures
        ({
            let r = after_reconcile(s, ok, reason, now);
            &&& r.reconcile_ok == ok && r.reconcile_reason == reason && r.reconcile_time == Some(now)
            &&& ok ==> r.mismatch_streak == 0
            &&& !ok && s.mismatch_streak < u32::MAX ==> r.mismatch_streak == s.mismatch_streak + 1
            &&& !ok && s.mismatch_streak == u32::MAX ==> r.mismatch_streak == u32::MAX
            &&& r.paused_until == s.paused_until && r.pause_reason == s.pause_reason
                && r.pause_cancel_done == s.pause_cancel_done
            &&& r.rejections == s.rejections && r.max_rejections == s.max_rejections && r.cooldown
                == s.cooldown
        }),
{
}

} // verus!
