//! Signal engine: volatility of the mid price and imbalance of the book.
//!
//! The engine keeps the two windows, counts samples until it is warm, and chooses between its own
//! alpha and one from outside. The arithmetic on a sample is done by whoever feeds it.
use vstd::prelude::*;
use crate::num::{spec_zero, Num};
use crate::strategy::rolling::{no_moments, pushed, Moments, RollingStats};

verus! {

/// What one book update brings, worked out from the engine's windows.
#[derive(Clone, Copy, Debug, PartialEq, Eq, Structural)]
pub struct SignalSample {
    pub mid: Num,
    /// Change of the mid price since the last update. Not read for the first update.
    pub change: Num,
    /// Moments of the change window with this change in it. Not read for the first update.
    pub change_moments: Moments,
    pub imbalance: Num,
    /// Moments of the imbalance window with this imbalance in it.
    pub imbalance_moments: Moments,
    /// Volatility that follows from the change window.
    pub volatility: Num,
    /// Score of the imbalance in its window.
    pub local_alpha: Num,
}

/// What the engine knows.
pub struct Signal {
    pub changes: Seq<Num>,
    pub change_moments: Moments,
    pub imbalances: Seq<Num>,
    pub imbalance_moments: Moments,
    pub window_steps: nat,
    pub prev_mid: Option<Num>,
    pub volatility: Num,
    pub alpha: Num,
    pub local_alpha: Num,
    pub alpha_override: Option<Num>,
    pub warmed_up: bool,
    pub total_samples: int,
    pub min_warmup_samples: i64,
    pub max_position_dollar: Num,
}

/// The engine after a book update.
pub open spec fn after_update(s: Signal, x: SignalSample) -> Signal {
    let total = if s.prev_mid is Some {
        s.total_samples + 1
    } else {
        s.total_samples
    };
    let fed = Signal {
        changes: if s.prev_mid is Some {
            pushed(s.changes, s.window_steps, x.change)
        } else {
            s.changes
        },
        change_moments: if s.prev_mid is Some {
            x.change_moments
        } else {
            s.change_moments
        },
        imbalances: pushed(s.imbalances, s.window_steps, x.imbalance),
        imbalance_moments: x.imbalance_moments,
        prev_mid: Some(x.mid),
        total_samples: total,
        ..s
    };
    if total >= s.min_warmup_samples {
        Signal {
            warmed_up: true,
            volatility: x.volatility,
            local_alpha: x.local_alpha,
            alpha: match s.alpha_override {
                Some(a) => a,
                None => x.local_alpha,
            },
            ..fed
        }
    } else {
        fed
    }
}

/// The engine after an alpha from outside was given, or taken away.
pub open spec fn after_override(s: Signal, alpha: Option<Num>) -> Signal {
    Signal {
        alpha_override: alpha,
        alpha: if s.warmed_up {
            match alpha {
                Some(a) => a,
                None => s.local_alpha,
            }
        } else {
            s.alpha
        },
        ..s
    }
}

/// What a bid and an ask come to: nothing before the engine is warm, nor where they cross.
pub open spec fn shown_quote(warm: bool, bid: Num, ask: Num) -> Option<(Num, Num)> {
    if !warm || ask.at_most(bid) {
        None
    } else {
        Some((bid, ask))
    }
}

/// A limit on the position: none below zero.
pub open spec fn allowed_position(value: Num) -> Num {
    if spec_zero().below(value) {
        value
    } else {
        spec_zero()
    }
}

/// The engine with nothing learnt.
pub open spec fn cold(s: Signal) -> Signal {
    Signal {
        changes: Seq::empty(),
        change_moments: no_moments(),
        imbalances: Seq::empty(),
        imbalance_moments: no_moments(),
        prev_mid: None,
        volatility: spec_zero(),
        alpha: spec_zero(),
        local_alpha: spec_zero(),
        alpha_override: None,
        warmed_up: false,
        total_samples: 0,
        ..s
    }
}

/// Signal engine.
#[derive(Debug)]
pub struct VolObiCalculator {
    mid_stats: RollingStats,
    imb_stats: RollingStats,
    window_steps: usize,
    prev_mid: Option<Num>,
    volatility: Num,
    alpha: Num,
    local_alpha: Num,
    alpha_override: Option<Num>,
    warmed_up: bool,
    total_samples: i64,
    min_warmup_samples: i64,
    max_position_dollar: Num,
}

impl View for VolObiCalculator {
    type V = Signal;

    closed spec fn view(&self) -> Signal {
        Signal {
            changes: self.mid_stats.window(),
            change_moments: self.mid_stats.spec_moments(),
            imbalances: self.imb_stats.window(),
            imbalance_moments: self.imb_stats.spec_moments(),
            window_steps: self.window_steps as nat,
            prev_mid: self.prev_mid,
            volatility: self.volatility,
            alpha: self.alpha,
            local_alpha: self.local_alpha,
            alpha_override: self.alpha_override,
            warmed_up: self.warmed_up,
            total_samples: self.total_samples as int,
            min_warmup_samples: self.min_warmup_samples,
            max_position_dollar: self.max_position_dollar,
        }
    }
}

impl VolObiCalculator {
    /// Both windows are well-formed and of one size.
    pub closed spec fn wf(&self) -> bool {
        &&& self.mid_stats.wf()
        &&& self.imb_stats.wf()
        &&& self.mid_stats.spec_capacity() == self.window_steps
        &&& self.imb_stats.spec_capacity() == self.window_steps
        &&& 0 <= self.total_samples
    }

    /// A cold engine.
    pub fn new(window_steps: usize, min_warmup_samples: i64, max_position_dollar: Num) -> (r:
        VolObiCalculator)
        requires
            window_steps > 0,
        ensures
            r.wf(),
            r@ == cold(r@),
            r@.window_steps == window_steps,
            r@.min_warmup_samples == min_warmup_samples,
            r@.max_position_dollar == max_position_dollar,
    {
        VolObiCalculator {
            mid_stats: RollingStats::new(window_steps),
            imb_stats: RollingStats::new(window_steps),
            window_steps,
            prev_mid: None,
            volatility: Num::zero(),
            alpha: Num::zero(),
            local_alpha: Num::zero(),
            alpha_override: None,
            warmed_up: false,
            total_samples: 0,
            min_warmup_samples,
            max_position_dollar,
        }
    }

    /// The mid price of the last update.
    pub fn prev_mid(&self) -> (r: Option<Num>)
        ensures
            r == self@.prev_mid,
    {
        self.prev_mid
    }

    /// What the next change is worked into: the moments of the change window, how many changes
    /// are in it, and the change that leaves it.
    pub fn change_window(&self) -> (r: (Moments, usize, Option<Num>))
        requires
            self.wf(),
        ensures
            r.0 == self@.change_moments,
            r.1 == self@.changes.len(),
            r.2 == if self@.changes.len() < self@.window_steps {
                None
            } else {
                Some(self@.changes[0])
            },
    {
        (self.mid_stats.moments(), self.mid_stats.count(), self.mid_stats.leaving())
    }

    /// What the next imbalance is worked into.
    pub fn imbalance_window(&self) -> (r: (Moments, usize, Option<Num>))
        requires
            self.wf(),
        ensures
            r.0 == self@.imbalance_moments,
            r.1 == self@.imbalances.len(),
            r.2 == if self@.imbalances.len() < self@.window_steps {
                None
            } else {
                Some(self@.imbalances[0])
            },
    {
        (self.imb_stats.moments(), self.imb_stats.count(), self.imb_stats.leaving())
    }

    /// Takes a book update.
    pub fn on_book_update(&mut self, x: SignalSample)
        requires
            old(self).wf(),
            old(self)@.total_samples < i64::MAX,
        ensures
            final(self).wf(),
            final(self)@ == after_update(old(self)@, x),
    {
        if self.prev_mid.is_some() {
            self.mid_stats.push(x.change, x.change_moments);
            self.total_samples = self.total_samples + 1;
        }
        self.prev_mid = Some(x.mid);
        self.imb_stats.push(x.imbalance, x.imbalance_moments);
        if self.total_samples >= self.min_warmup_samples {
            self.warmed_up = true;
            self.volatility = x.volatility;
            self.local_alpha = x.local_alpha;
            self.alpha = match self.alpha_override {
                Some(a) => a,
                None => x.local_alpha,
            };
        }
    }

    /// The quote made of a bid and an ask on the tick grid: none while the engine is cold, nor
    /// where the two would cross.
    pub fn quote(&self, bid: Num, ask: Num) -> (r: Option<(Num, Num)>)
        ensures
            r == if !self@.warmed_up || ask.at_most(bid) {
                None
            } else {
                Some((bid, ask))
            },
            r == shown_quote(self@.warmed_up, bid, ask),
    {
        if !self.warmed_up || ask.le(bid) {
            None
        } else {
            Some((bid, ask))
        }
    }

    /// Takes an alpha from outside; without one the engine goes back to its own.
    pub fn set_alpha_override(&mut self, alpha: Option<Num>)
        requires
            old(self).wf(),
        ensures
            final(self).wf(),
            final(self)@ == after_override(old(self)@, alpha),
    {
        self.alpha_override = alpha;
        if self.warmed_up {
            self.alpha = match alpha {
                Some(a) => a,
                None => self.local_alpha,
            };
        }
    }

    /// Sets the position limit; what is not positive counts as zero.
    pub fn set_max_position_dollar(&mut self, value: Num)
        requires
            old(self).wf(),
        ensures
            final(self).wf(),
            final(self)@ == (Signal {
                max_position_dollar: if spec_zero().below(value) {
                    value
                } else {
                    spec_zero()
                },
                ..old(self)@
            }),
            final(self)@.max_position_dollar == allowed_position(value),
    {
        self.max_position_dollar = if value.is_positive() { value } else { Num::zero() };
    }

    /// Forgets everything learnt.
    pub fn reset(&mut self)
        requires
            old(self).wf(),
        ensures
            final(self).wf(),
            final(self)@ == cold(old(self)@),
    {
        self.mid_stats.clear();
        self.imb_stats.clear();
        self.prev_mid = None;
        self.volatility = Num::zero();
        self.alpha = Num::zero();
        self.local_alpha = Num::zero();
        self.alpha_override = None;
        self.warmed_up = false;
        self.total_samples = 0;
    }

    /// Whether enough samples came in.
    pub fn warmed_up(&self) -> (r: bool)
        ensures
            r == self@.warmed_up,
    {
        self.warmed_up
    }

    /// The volatility.
    pub fn volatility(&self) -> (r: Num)
        ensures
            r == self@.volatility,
    {
        self.volatility
    }

    /// The alpha in use.
    pub fn alpha(&self) -> (r: Num)
        ensures
            r == self@.alpha,
    {
        self.alpha
    }

    /// The position limit in use.
    pub fn max_position_dollar(&self) -> (r: Num)
        ensures
            r == self@.max_position_dollar,
    {
        self.max_position_dollar
    }

    /// Changes taken since the last reset.
    pub fn total_samples(&self) -> (r: i64)
        ensures
            r == self@.total_samples,
    {
        self.total_samples
    }
}

/// Taking an outside alpha away brings the engine's own back.
pub proof fn override_is_undone(s: Signal, a: Num)
    requires
        s.warmed_up,
        s.alpha == s.local_alpha,
        s.alpha_override is None,
    ensures
        after_override(s, Some(a)).alpha == a,
        after_override(after_override(s, Some(a)), None) == s,
{
}

/// The engine after all of `xs` came in.
pub open spec fn after_updates(s: Signal, xs: Seq<SignalSample>) -> Signal
    decreases xs.len(),
{
    if xs.len() == 0 {
        s
    } else {
        after_update(after_updates(s, xs.drop_last()), xs.last())
    }
}

/// A cold engine is warm after one update more than it needs samples, and not before.
pub proof fn warmup_takes_its_samples(s: Signal, xs: Seq<SignalSample>)
    requires
        s == cold(s),
        s.min_warmup_samples > 0,
    ensures
        after_updates(s, xs).warmed_up <==> xs.len() > s.min_warmup_samples,
        after_updates(s, xs).min_warmup_samples == s.min_warmup_samples,
        after_updates(s, xs).prev_mid is Some <==> xs.len() > 0,
        after_updates(s, xs).total_samples == if xs.len() == 0 {
            0
        } else {
            xs.len() - 1
        },
    decreases xs.len(),
{
    if xs.len() > 0 {
        warmup_takes_its_samples(s, xs.drop_last());
    }
}

/// What a book update does. Its mid price and its imbalance are remembered; a change of the mid, and
/// the sample, count only from the second update on. Once as many samples came as it takes, the
/// engine is warm, takes the volatility and its own alpha from the update, and uses the alpha from
/// outside where there is one, its own otherwise; before that, none of these change.
pub proof fn updates_feed_the_engine(s: Signal, x: SignalSample)
    ensures
        ({
            let r = after_update(s, x);
            let first = s.prev_mid is None;
            let total = s.total_samples + if first {
                0int
            } else {
                1int
            };
            &&& r.prev_mid == Some(x.mid)
            &&& r.total_samples == total
            &&& first ==> r.changes == s.changes && r.change_moments == s.change_moments
            &&& !first ==> r.change_moments == x.change_moments
            &&& !first && s.changes.len() < s.window_steps ==> r.changes == s.changes.push(x.change)
            &&& !first && s.changes.len() >= s.window_steps ==> r.changes == s.changes.drop_first().push(
                x.change,
            )
            &&& r.imbalance_moments == x.imbalance_moments
            &&& s.imbalances.len() < s.window_steps ==> r.imbalances == s.imbalances.push(
                x.imbalance,
            )
            &&& s.imbalances.len() >= s.window_steps ==> r.imbalances
                == s.imbalances.drop_first().push(x.imbalance)
            &&& total >= s.min_warmup_samples ==> {
                &&& r.warmed_up && r.volatility == x.volatility && r.local_alpha == x.local_alpha
                &&& s.alpha_override is Some ==> r.alpha == s.alpha_override->0
                &&& s.alpha_override is None ==> r.alpha == x.local_alpha
            }
            &&& total < s.min_warmup_samples ==> r.warmed_up == s.warmed_up && r.volatility
                == s.volatility && r.local_alpha == s.local_alpha && r.alpha == s.alpha
            &&& r.alpha_override == s.alpha_override && r.window_steps == s.window_steps
                && r.min_warmup_samples == s.min_warmup_samples && r.max_position_dollar
                == s.max_position_dollar
        }),
{
}

/// An alpha from outside is used at once by a warm engine, and its own again once it is taken away; a
/// cold engine only remembers it. A reset forgets all that was learnt, and keeps the settings.
pub proof fn outside_alphas_and_resets(s: Signal, alpha: Option<Num>)
    ensures
        ({
            let r = after_override(s, alpha);
            let c = cold(s);
            &&& r.alpha_override == alpha && r.local_alpha == s.local_alpha && r.volatility
                == s.volatility && r.warmed_up == s.warmed_up && r.total_samples == s.total_samples
            &&& s.warmed_up && alpha is Some ==> r.alpha == alpha->0
            &&& s.warmed_up && alpha is None ==> r.alpha == s.local_alpha
            &&& !s.warmed_up ==> r.alpha == s.alpha
            &&& c.changes.len() == 0 && c.imbalances.len() == 0 && c.prev_mid is None
            &&& c.volatility.bits == 0 && c.alpha.bits == 0 && c.local_alpha.bits == 0
                && c.alpha_override is None && !c.warmed_up && c.total_samples == 0
            &&& c.window_steps == s.window_steps && c.min_warmup_samples == s.min_warmup_samples
                && c.max_position_dollar == s.max_position_dollar
        }),
{
}

/// A cold engine quotes nothing, and a warm one exactly the bid and the ask that it is given, unless
/// they cross; a limit on the position is never below zero.
pub proof fn cold_engines_quote_nothing(bid: Num, ask: Num, value: Num)
    ensures
        shown_quote(false, bid, ask) is None,
        bid.below(ask) ==> shown_quote(true, bid, ask) == Some((bid, ask)),
        ask.at_most(bid) ==> shown_quote(true, bid, ask) is None,
        !allowed_position(value).below(spec_zero()),
        spec_zero().below(value) ==> allowed_position(value) == value,
        !spec_zero().below(value) ==> allowed_position(value) == spec_zero(),
{
}

} // verus!
