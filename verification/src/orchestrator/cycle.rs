//! The start of a quoting cycle: whether one is due, and what it does.
//!
//! The prices of the ladder are worked out by the caller, between the start of a cycle and
//! [`quote_cycle`](crate::orchestrator::hot::quote_cycle).
use vstd::prelude::*;
use crate::exec::order_laws::all_pending;
use crate::exec::order_manager::{cancels, OrderManager};
use crate::num::{spec_epsilon, spec_zero, Num};
use crate::orchestrator::hot::{
    after_look, effective_position, feeds_ready, in_wallclock_warmup, is_due, plan_of,
    plan_quotes, pull_ladder, quoted_position, warming, HoldStep, Mode, PositionHold, QuoteClock,
    QuotePlan,
};
use crate::types::BatchOp;

verus! {

/// What a cycle knows of the account and the signal.
#[derive(Clone, Copy, Debug, PartialEq, Eq, Structural)]
pub struct CycleInput {
    pub capital: Num,
    pub position: Num,
    /// The worth of the position.
    pub value: Num,
    /// How far the position is from the last one. Not read for the first.
    pub distance: Num,
    /// Age of the position in milliseconds, the greatest integer where none was seen.
    pub position_age: u64,
    /// Whether the signal is warm.
    pub warmed_up: bool,
}

/// What a cycle does.
#[derive(Debug)]
pub enum CycleStep {
    /// It is not due.
    NotDue,
    /// It takes the ladder off the book.
    Pull(Vec<BatchOp>),
    /// It quotes nothing, and what is unsent is dropped.
    Nothing(HoldStep),
    /// It quotes an exit from the position alone.
    Exit(Num, HoldStep),
    /// It quotes the ladder, for the position.
    Ladder(Num, HoldStep),
}

/// What is kept from cycle to cycle.
#[derive(Clone, Copy, Debug, PartialEq, Eq, Structural)]
pub struct CycleState {
    pub clock: QuoteClock,
    pub hold: PositionHold,
    /// When quoting started.
    pub start: Option<u64>,
    /// How long after the start only exits are quoted.
    pub warmup: u64,
    /// A position worth less than this counts as none.
    pub dust: Num,
}

/// What a cycle that is due does.
pub open spec fn cycle_plan(s: CycleState, x: CycleInput, now: u64) -> QuotePlan {
    plan_of(
        s.hold.mode,
        x.capital,
        x.position_age,
        x.warmed_up,
        warming(s.hold.mode, s.start, s.warmup, now),
        quoted_position(x.position, x.value, s.dust),
    )
}

impl CycleState {
    /// Starts a cycle. The raw position is what the hold after a change goes by, so that every
    /// real change counts; a ladder that is pulled is not a look at the position.
    pub fn begin(&mut self, om: &mut OrderManager, x: CycleInput, now: u64) -> (r: CycleStep)
        requires
            old(om).wf(),
            now + old(self).hold.hold <= u64::MAX,
        ensures
            final(om).wf(),
            if !is_due(old(self).clock, now) {
                &&& r is NotDue
                &&& *final(self) == *old(self)
                &&& final(om)@ == old(om)@
            } else {
                let looked = after_look(old(self).hold, x.position, x.distance, now);
                let position = quoted_position(x.position, x.value, old(self).dust);
                let plan = cycle_plan(*old(self), x, now);
                &&& final(self).clock == (QuoteClock { last_quote: Some(now), ..old(self).clock })
                &&& final(self).start == old(self).start
                &&& final(self).warmup == old(self).warmup
                &&& final(self).dust == old(self).dust
                &&& if plan == QuotePlan::PullLadder {
                    &&& final(self).hold == old(self).hold
                    &&& r matches CycleStep::Pull(ops) && ops@ == cancels(
                        old(om)@,
                        2 * old(om)@.bids.len(),
                    ) && final(om)@ == all_pending(old(om)@, ops@, now)
                } else {
                    &&& final(self).hold == looked.0
                    &&& final(om)@ == old(om)@
                    &&& r == match plan {
                        QuotePlan::Full => CycleStep::Ladder(position, looked.1),
                        QuotePlan::ExitOnly => CycleStep::Exit(position, looked.1),
                        _ => CycleStep::Nothing(looked.1),
                    }
                }
            },
    {
        if !self.clock.due(now) {
            return CycleStep::NotDue;
        }
        let mode: Mode = self.hold.mode;
        let position: Num = effective_position(x.position, x.value, self.dust);
        let warming_up: bool = in_wallclock_warmup(mode, self.start, self.warmup, now);
        let plan: QuotePlan = plan_quotes(
            mode,
            x.capital,
            x.position_age,
            x.warmed_up,
            warming_up,
            position,
        );
        if plan == QuotePlan::PullLadder {
            return CycleStep::Pull(pull_ladder(om, now));
        }
        let step: HoldStep = self.hold.hold_quotes_for_position_reconcile(
            x.position,
            x.distance,
            now,
        );
        match plan {
            QuotePlan::Full => CycleStep::Ladder(position, step),
            QuotePlan::ExitOnly => CycleStep::Exit(position, step),
            _ => CycleStep::Nothing(step),
        }
    }
}

/// Live trading quotes nothing before capital and a position have arrived: whatever else is
/// known, the ladder is taken off the book.
pub proof fn nothing_is_quoted_without_feeds(s: CycleState, x: CycleInput, now: u64)
    requires
        s.hold.mode == Mode::Live,
        !feeds_ready(Mode::Live, x.capital, x.position_age),
    ensures
        cycle_plan(s, x, now) == QuotePlan::PullLadder,
{
}

/// Within its first time, and while the signal is cold, live trading quotes nothing but exits.
pub proof fn warmup_quotes_only_exits(s: CycleState, x: CycleInput, now: u64)
    requires
        s.hold.mode == Mode::Live,
        warming(Mode::Live, s.start, s.warmup, now) || !x.warmed_up,
    ensures
        cycle_plan(s, x, now) != QuotePlan::Full,
{
}

/// Two cycles lie an interval apart at least.
pub proof fn cycles_keep_their_distance(c: QuoteClock, at: u64, later: u64)
    requires
        is_due(c, at),
        at <= later,
        is_due((QuoteClock { last_quote: Some(at), ..c }), later),
    ensures
        later - at >= c.min_interval,
{
}

/// What a cycle does, by what is known. In live trading without capital, or before a position was
/// seen, it pulls the ladder. Otherwise it quotes the whole ladder exactly where the signal is warm
/// and, in live trading, the warmup has passed since the start; failing that it exits a position that
/// is large enough and worth its while, and without one quotes nothing.
pub proof fn cycles_follow_what_is_known(s: CycleState, x: CycleInput, now: u64)
    requires
        s.start is Some ==> s.start->0 <= now,
    ensures
        ({
            let r = cycle_plan(s, x, now);
            let live = s.hold.mode == Mode::Live;
            let pull = live && (x.capital.at_most(spec_zero()) || x.position_age == u64::MAX);
            let full = x.warmed_up && !(live && (s.start is None || now < s.start->0 + s.warmup));
            let holds = !x.value.below(s.dust) && spec_epsilon().at_most(x.position.absolute());
            &&& r == QuotePlan::PullLadder <==> pull
            &&& r == QuotePlan::Full <==> !pull && full
            &&& r == QuotePlan::ExitOnly <==> !pull && !full && holds
            &&& r == QuotePlan::NoQuotes <==> !pull && !full && !holds
        }),
{
}

} // verus!
