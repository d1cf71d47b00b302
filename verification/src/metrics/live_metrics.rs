//! Quality of the live fills: what the price did after them, and how far quotes are to widen and
//! shrink on that account.
use std::collections::VecDeque;
use vstd::prelude::*;
use crate::num::{larger, smaller, spec_zero, Num};
use crate::types::Side;
use crate::util::{clamp, clamped};

verus! {

/// Most fills that wait for a horizon.
pub const PENDING_CAP: usize = 2_000;

/// Most samples of a horizon.
pub const MARKOUT_CAP: usize = 10_000;

/// Fewest samples of a horizon on which quotes are adjusted.
pub const MIN_SAMPLE_COUNT: usize = 4;

/// One.
pub open spec fn spec_one() -> Num {
    Num { bits: 0x3FF0_0000_0000_0000 }
}

/// Smallest size multiplier that can be set: a twentieth.
pub open spec fn spec_twentieth() -> Num {
    Num { bits: 0x3FA9_9999_9999_999A }
}

/// The distance between one and the next number: horizons no further apart are the same.
pub open spec fn spec_ulp() -> Num {
    Num { bits: 0x3CB0_0000_0000_0000 }
}

/// A fill that waits for some of its horizons.
#[derive(Debug)]
pub struct PendingFill {
    pub recorded_at_ms: u64,
    pub side: Side,
    pub price: Num,
    pub size: Num,
    pub mid_at_fill: Option<Num>,
    /// For each horizon whether the fill was measured at it.
    pub settled: Vec<bool>,
}

/// A fill that waits for some of its horizons.
#[verifier::ext_equal]
pub struct Fill {
    pub at: u64,
    pub side: Side,
    pub price: Num,
    pub size: Num,
    pub mid: Option<Num>,
    pub settled: Seq<bool>,
}

impl View for PendingFill {
    type V = Fill;

    open spec fn view(&self) -> Fill {
        Fill {
            at: self.recorded_at_ms,
            side: self.side,
            price: self.price,
            size: self.size,
            mid: self.mid_at_fill,
            settled: self.settled@,
        }
    }
}

/// How the price moved after a fill, for and against it, in basis points.
#[derive(Clone, Copy, Debug, PartialEq, Eq, Structural)]
pub struct Mark {
    pub markout_bps: Num,
    pub adverse_bps: Num,
}

/// A measured fill.
#[derive(Clone, Copy, Debug, PartialEq, Eq, Structural)]
pub struct Sample {
    pub ts_ms: u64,
    pub mark: Mark,
}

/// A fill as it was measured at a horizon.
#[derive(Clone, Copy, Debug, PartialEq, Eq, Structural)]
pub struct Settlement {
    pub side: Side,
    pub price: Num,
    pub size: Num,
    pub mid_at_fill: Option<Num>,
    /// Index of the horizon.
    pub horizon: usize,
    pub mark: Mark,
}

/// How quotes are adjusted.
#[derive(Clone, Copy, Debug)]
pub struct QualityAdjustment {
    /// Multiplier of the half spread.
    pub spread_multiplier: Num,
    /// Multiplier of the order size.
    pub size_multiplier: Num,
    /// The mean move against the fills that was decided on.
    pub adverse_bps: Num,
    /// Number of samples that were decided on.
    pub sample_count: usize,
    pub reason: &'static str,
}

/// Whether an adjustment leaves quotes as they are.
pub open spec fn is_neutral(a: QualityAdjustment) -> bool {
    a.spread_multiplier == spec_one() && a.size_multiplier == spec_one()
}

impl QualityAdjustment {
    /// An adjustment that leaves quotes as they are.
    fn neutral(adverse_bps: Num, sample_count: usize, reason: &'static str) -> (r:
        QualityAdjustment)
        ensures
            is_neutral(r),
            r.adverse_bps == adverse_bps,
            r.sample_count == sample_count,
            r.reason@ == reason@,
    {
        QualityAdjustment {
            spread_multiplier: Num::new(0x3FF0_0000_0000_0000),
            size_multiplier: Num::new(0x3FF0_0000_0000_0000),
            adverse_bps,
            sample_count,
            reason,
        }
    }
}

impl Default for QualityAdjustment {
    fn default() -> (r: QualityAdjustment)
        ensures
            is_neutral(r),
            r.adverse_bps == spec_zero(),
            r.sample_count == 0,
            r.reason@ == "neutral"@,
    {
        QualityAdjustment::neutral(Num::zero(), 0, "neutral")
    }
}

/// A window with one more sample, and without its first one where it was full.
pub open spec fn pushed(window: Seq<Sample>, s: Sample) -> Seq<Sample> {
    if window.len() >= MARKOUT_CAP {
        window.drop_first().push(s)
    } else {
        window.push(s)
    }
}

/// Time from one moment to another; none where the second is earlier.
pub open spec fn since(now: u64, then: u64) -> int {
    if now >= then {
        now - then
    } else {
        0
    }
}

/// What a fill leaves behind once its first horizons were looked at.
#[verifier::ext_equal]
pub struct Settling {
    pub settled: Seq<bool>,
    pub windows: Seq<Seq<Sample>>,
    pub done: Seq<Settlement>,
}

/// Whether a fill is measured at a horizon now.
pub open spec fn due(fill: Fill, settled: bool, horizon_ms: u64, now: u64) -> bool {
    !settled && since(now, fill.at) >= horizon_ms
}

/// What a fill leaves behind once its first `n` horizons were looked at.
pub open spec fn settle_fill(
    fill: Fill,
    mark: Mark,
    horizons: Seq<u64>,
    now: u64,
    windows: Seq<Seq<Sample>>,
    n: nat,
) -> Settling
    decreases n,
{
    if n == 0 {
        Settling { settled: fill.settled, windows, done: Seq::empty() }
    } else {
        let s = settle_fill(fill, mark, horizons, now, windows, (n - 1) as nat);
        let h = n - 1;
        if due(fill, s.settled[h], horizons[h], now) {
            Settling {
                settled: s.settled.update(h, true),
                windows: s.windows.update(h, pushed(s.windows[h], Sample { ts_ms: now, mark })),
                done: s.done.push(
                    Settlement {
                        side: fill.side,
                        price: fill.price,
                        size: fill.size,
                        mid_at_fill: fill.mid,
                        horizon: h as usize,
                        mark,
                    },
                ),
            }
        } else {
            s
        }
    }
}

/// The fills, the windows and what was measured.
#[verifier::ext_equal]
pub struct Settled {
    pub fills: Seq<Fill>,
    pub windows: Seq<Seq<Sample>>,
    pub done: Seq<Settlement>,
}

/// The fills that wait on, the windows and what was measured, after the first `n` fills.
pub open spec fn settle_fills(
    fills: Seq<Fill>,
    marks: Seq<Mark>,
    horizons: Seq<u64>,
    now: u64,
    windows: Seq<Seq<Sample>>,
    n: nat,
) -> Settled
    decreases n,
{
    if n == 0 {
        Settled { fills: Seq::empty(), windows, done: Seq::empty() }
    } else {
        let s = settle_fills(fills, marks, horizons, now, windows, (n - 1) as nat);
        let one = settle_fill(
            fills[n - 1],
            marks[n - 1],
            horizons,
            now,
            s.windows,
            horizons.len(),
        );
        Settled {
            fills: if one.settled.contains(false) {
                s.fills.push(Fill { settled: one.settled, ..fills[n - 1] })
            } else {
                s.fills
            },
            windows: one.windows,
            done: s.done + one.done,
        }
    }
}

/// A window without the samples at its front that are older than the cutoff.
pub open spec fn pruned(window: Seq<Sample>, cutoff: u64) -> Seq<Sample>
    decreases window.len(),
{
    if window.len() > 0 && window[0].ts_ms < cutoff {
        pruned(window.drop_first(), cutoff)
    } else {
        window
    }
}

/// Windows without the samples at their fronts that are older than the cutoff.
pub open spec fn all_pruned(windows: Seq<Seq<Sample>>, cutoff: u64) -> Seq<Seq<Sample>> {
    Seq::new(windows.len(), |i: int| pruned(windows[i], cutoff))
}

/// Index of the first of the least of the first `n` distances.
pub open spec fn nearest(distances: Seq<Num>, n: nat) -> nat
    decreases n,
{
    if n <= 1 {
        0
    } else {
        let best = nearest(distances, (n - 1) as nat);
        if distances[n - 1].below(distances[best as int]) {
            (n - 1) as nat
        } else {
            best
        }
    }
}

/// How the tracker is set up.
#[derive(Clone, Copy, Debug)]
pub struct QualitySettings {
    pub window_ms: u64,
    pub adaptive_enabled: bool,
    pub adaptive_horizon: Num,
    pub adverse_threshold_bps: Num,
    pub spread_widen_per_bps: Num,
    pub max_spread_multiplier: Num,
    pub size_reduce_per_bps: Num,
    pub min_size_multiplier: Num,
}

/// The fills that wait after one more: one without a positive price and size is passed over, and the
/// first gives way where too many wait.
pub open spec fn with_fill(
    fills: Seq<Fill>,
    side: Side,
    price: Num,
    size: Num,
    mid: Option<Num>,
    now: u64,
    horizons: nat,
) -> Seq<Fill> {
    if spec_zero().below(price) && spec_zero().below(size) {
        let rest = if fills.len() >= PENDING_CAP {
            fills.drop_first()
        } else {
            fills
        };
        rest.push(
            Fill {
                at: now,
                side,
                price,
                size,
                mid: match mid {
                    Some(m) => if m.finite() {
                        Some(m)
                    } else {
                        None
                    },
                    None => None,
                },
                settled: Seq::new(horizons, |i: int| false),
            },
        )
    } else {
        fills
    }
}

/// Whether the bounds of the multipliers lie on their sides of one; a lower bound that is no number
/// bounds nothing.
pub open spec fn in_range(s: QualitySettings) -> bool {
    &&& spec_one().at_most(s.max_spread_multiplier)
    &&& s.min_size_multiplier.nan() || (spec_twentieth().at_most(s.min_size_multiplier)
        && s.min_size_multiplier.at_most(spec_one()))
}

/// What an adjustment is decided on.
#[derive(Clone, Copy, Debug, PartialEq, Eq, Structural)]
pub enum Basis {
    /// Quotes are never adjusted.
    Disabled,
    /// There are too few samples: this many.
    Insufficient(usize),
    /// The samples of a horizon, and those of the longest one where it counts.
    Samples { index: usize, count: usize, long: Option<usize> },
}

/// The horizon nearest to a target by the given distances; none where there is no sample at all.
pub open spec fn nearest_index(windows: Seq<Seq<Sample>>, distances: Seq<Num>) -> Option<nat> {
    if exists|i: int| 0 <= i < windows.len() && (#[trigger] windows[i]).len() > 0 {
        Some(nearest(distances, distances.len()))
    } else {
        None
    }
}

/// What an adjustment is decided on.
pub open spec fn basis_of(
    enabled: bool,
    windows: Seq<Seq<Sample>>,
    distances: Seq<Num>,
    long_gap: Num,
    long_distances: Seq<Num>,
) -> Basis {
    if !enabled {
        Basis::Disabled
    } else {
        match nearest_index(windows, distances) {
            None => Basis::Insufficient(0),
            Some(i) => if windows[i as int].len() < MIN_SAMPLE_COUNT {
                Basis::Insufficient(windows[i as int].len() as usize)
            } else {
                let l = nearest(long_distances, long_distances.len());
                Basis::Samples {
                    index: i as usize,
                    count: windows[i as int].len() as usize,
                    long: if spec_ulp().below(long_gap) && windows[l as int].len() >= MIN_SAMPLE_COUNT {
                        Some(l as usize)
                    } else {
                        None
                    },
                }
            },
        }
    }
}

/// The sums behind an adjustment.
#[derive(Clone, Copy, Debug, PartialEq, Eq, Structural)]
pub struct AdjustmentNumbers {
    /// The mean move against the fills; see `adverse_mean`.
    pub adverse: Num,
    /// One plus the excess of that mean over the threshold, times the widening.
    pub spread: Num,
    /// One less that excess times the reduction.
    pub size: Num,
}

/// The mean move against the fills that is decided on: that of the horizon, or the weighted one
/// of the longest horizon where that is larger.
pub fn adverse_mean(mean: Num, weighted_long: Option<Num>) -> (r: Num)
    ensures
        r == match weighted_long {
            Some(l) => larger(mean, l),
            None => mean,
        },
{
    match weighted_long {
        Some(l) => mean.max(l),
        None => mean,
    }
}

/// Whether an adjustment is the one that is owed.
pub open spec fn adjusted(
    basis: Basis,
    settings: QualitySettings,
    n: AdjustmentNumbers,
    a: QualityAdjustment,
) -> bool {
    match basis {
        Basis::Disabled => is_neutral(a) && a.adverse_bps == spec_zero() && a.sample_count == 0
            && a.reason@ == "disabled"@,
        Basis::Insufficient(count) => is_neutral(a) && a.adverse_bps == spec_zero()
            && a.sample_count == count && a.reason@ == "insufficient_markouts"@,
        Basis::Samples { count, .. } => {
            &&& a.adverse_bps == n.adverse
            &&& a.sample_count == count
            &&& if settings.adverse_threshold_bps.below(n.adverse) {
                &&& a.spread_multiplier == smaller(
                    larger(n.spread, spec_one()),
                    settings.max_spread_multiplier,
                )
                &&& a.size_multiplier == larger(
                    smaller(n.size, spec_one()),
                    settings.min_size_multiplier,
                )
                &&& a.reason@ == "adverse_markout"@
            } else {
                is_neutral(a) && a.reason@ == "healthy"@
            }
        },
    }
}

/// A time after a fill at which the price is looked at: in seconds, and in whole milliseconds.
#[derive(Clone, Copy, Debug, PartialEq, Eq, Structural)]
pub struct Horizon {
    pub sec: Num,
    pub ms: u64,
}

/// Whether horizons are in ascending order, each longer than the one before it.
pub open spec fn strictly_ascending(s: Seq<Horizon>) -> bool {
    forall|i: int, j: int|
        0 <= i < j < s.len() ==> (#[trigger] s[i]).sec.below((#[trigger] s[j]).sec)
}

/// Whether a horizon is one at all.
pub open spec fn is_span(h: Horizon) -> bool {
    spec_zero().below(h.sec)
}

/// Whether a horizon of the list has this length.
pub open spec fn has_length(s: Seq<Horizon>, sec: Num) -> bool {
    exists|k: int| 0 <= k < s.len() && (#[trigger] s[k]).sec.same(sec)
}

/// Whether the `i`-th of some horizons is positive and the first of its length.
pub open spec fn counts_at(raw: Seq<Horizon>, i: int) -> bool {
    &&& is_span(raw[i])
    &&& !has_length(raw.take(i), raw[i].sec)
}

/// Whether a horizon is one of those that count.
pub open spec fn comes_from(raw: Seq<Horizon>, h: Horizon) -> bool {
    exists|i: int| 0 <= i < raw.len() && #[trigger] counts_at(raw, i) && raw[i] == h
}

/// Whether a list holds exactly the positive ones of some horizons, one of each length, the first
/// of those of that length, in ascending order.
pub open spec fn horizons_of(raw: Seq<Horizon>, r: Seq<Horizon>) -> bool {
    &&& strictly_ascending(r)
    &&& forall|k: int| 0 <= k < r.len() ==> comes_from(raw, #[trigger] r[k])
    &&& forall|i: int|
        0 <= i < raw.len() && is_span(#[trigger] raw[i]) ==> has_length(r, raw[i].sec)
}

/// The positive ones of some horizons, in ascending order, one of each length.
pub fn sorted_horizons(raw: &Vec<Horizon>) -> (r: Vec<Horizon>)
    ensures
        horizons_of(raw@, r@),
{
    let mut out: Vec<Horizon> = Vec::new();
    let mut i: usize = 0;
    while i < raw.len()
        invariant
            i <= raw@.len(),
            strictly_ascending(out@),
            forall|k: int| 0 <= k < out@.len() ==> comes_from(raw@, #[trigger] out@[k]),
            forall|j: int|
                0 <= j < i && is_span(#[trigger] raw@[j]) ==> has_length(out@, raw@[j].sec),
        decreases raw@.len() - i,
    {
        let h: Horizon = raw[i];
        if h.sec.is_positive() {
            let mut at: usize = 0;
            while at < out.len() && out[at].sec.lt(h.sec)
                invariant
                    at <= out@.len(),
                    forall|k: int| 0 <= k < at ==> (#[trigger] out@[k]).sec.below(h.sec),
                decreases out@.len() - at,
            {
                at = at + 1;
            }
            let ghost before = out@;
            if at < out.len() && out[at].sec.equals(h.sec) {
                assert(before[at as int].sec.same(h.sec));
            } else {
                out.insert(at, h);
                proof {
                    let earlier = raw@.take(i as int);
                    if has_length(earlier, h.sec) {
                        let j = choose|j: int|
                            0 <= j < earlier.len() && (#[trigger] earlier[j]).sec.same(h.sec);
                        assert(raw@[j] == earlier[j]);
                        let k = choose|k: int|
                            0 <= k < before.len() && (#[trigger] before[k]).sec.same(raw@[j].sec);
                        if k > at {
                            assert(before[at as int].sec.below(before[k].sec));
                        }
                        assert(false);
                    }
                    assert(counts_at(raw@, i as int));
                    assert(out@[at as int] == h);
                    assert forall|a: int, b: int| 0 <= a < b < out@.len() implies (
                    #[trigger] out@[a]).sec.below((#[trigger] out@[b]).sec) by {
                        if a < at {
                            assert(out@[a] == before[a]);
                        } else if a > at {
                            assert(out@[a] == before[a - 1]);
                        }
                        if b < at {
                            assert(out@[b] == before[b]);
                        } else if b > at {
                            assert(out@[b] == before[b - 1]);
                        }
                        if a == at && at < b - 1 {
                            assert(before[at as int].sec.below(before[b - 1].sec));
                        }
                    }
                    assert forall|k: int| 0 <= k < out@.len() implies comes_from(
                        raw@,
                        #[trigger] out@[k],
                    ) by {
                        if k < at {
                            assert(out@[k] == before[k]);
                        } else if k > at {
                            assert(out@[k] == before[k - 1]);
                        }
                    }
                    assert forall|j: int|
                        0 <= j < i && is_span(#[trigger] raw@[j]) implies has_length(
                        out@,
                        raw@[j].sec,
                    ) by {
                        let k = choose|k: int|
                            0 <= k < before.len() && (#[trigger] before[k]).sec.same(raw@[j].sec);
                        if k < at {
                            assert(out@[k] == before[k]);
                        } else {
                            assert(out@[k + 1] == before[k]);
                        }
                    }
                }
            }
        }
        i = i + 1;
    }
    out
}

/// The milliseconds of horizons.
pub open spec fn spans_of(grid: Seq<Horizon>) -> Seq<u64> {
    Seq::new(grid.len(), |i: int| grid[i].ms)
}

/// A window in milliseconds that is no shorter than a second and than any of the first `n`
/// horizons.
pub open spec fn raised(window_ms: u64, grid: Seq<Horizon>, n: nat) -> u64
    decreases n,
{
    if n == 0 {
        if window_ms < 1000 {
            1000
        } else {
            window_ms
        }
    } else {
        let w = raised(window_ms, grid, (n - 1) as nat);
        if w < grid[n - 1].ms {
            grid[n - 1].ms
        } else {
            w
        }
    }
}

/// Tracks what the price did after fills.
#[derive(Debug)]
pub struct LiveMetricsTracker {
    horizons: Vec<Horizon>,
    settings: QualitySettings,
    pending: VecDeque<PendingFill>,
    markouts: Vec<VecDeque<Sample>>,
    last_adjustment: QualityAdjustment,
}

impl LiveMetricsTracker {
    /// The horizons.
    pub closed spec fn grid(&self) -> Seq<Horizon> {
        self.horizons@
    }

    /// The horizons, in milliseconds.
    pub open spec fn spans(&self) -> Seq<u64> {
        spans_of(self.grid())
    }

    /// How the tracker is set up.
    pub closed spec fn set_up(&self) -> QualitySettings {
        self.settings
    }

    /// The fills that wait.
    pub closed spec fn fills(&self) -> Seq<Fill> {
        Seq::new(self.pending@.len(), |i: int| self.pending@[i]@)
    }

    /// The samples of each horizon.
    pub closed spec fn windows(&self) -> Seq<Seq<Sample>> {
        Seq::new(self.markouts@.len(), |i: int| self.markouts@[i]@)
    }

    /// The last adjustment.
    pub closed spec fn last(&self) -> QualityAdjustment {
        self.last_adjustment
    }

    /// The horizons are positive and in ascending order, each once, and samples are kept for a
    /// second at least and for every horizon; there is a window for each horizon and none is too
    /// long; not too many fills wait, and each knows of every horizon; and the settings are in
    /// their range.
    pub open spec fn wf(&self) -> bool {
        &&& strictly_ascending(self.grid())
        &&& forall|i: int| 0 <= i < self.grid().len() ==> is_span(#[trigger] self.grid()[i])
        &&& 1000 <= self.set_up().window_ms
        &&& forall|i: int|
            0 <= i < self.grid().len() ==> (#[trigger] self.grid()[i]).ms
                <= self.set_up().window_ms
        &&& self.windows().len() == self.spans().len()
        &&& forall|i: int|
            0 <= i < self.windows().len() ==> (#[trigger] self.windows()[i]).len() <= MARKOUT_CAP
        &&& in_range(self.set_up())
        &&& self.fills().len() <= PENDING_CAP
        &&& forall|i: int|
            0 <= i < self.fills().len() ==> (#[trigger] self.fills()[i]).settled.len()
                == self.spans().len()
    }

    /// A tracker of the given horizons: the positive ones, in ascending order, each once. Settings
    /// out of their range are brought into it, and the window is raised to the longest horizon,
    /// and to a second.
    pub fn new(horizons: &Vec<Horizon>, settings: QualitySettings) -> (r: LiveMetricsTracker)
        ensures
            r.wf(),
            horizons_of(horizons@, r.grid()),
            r.fills().len() == 0,
            forall|i: int| 0 <= i < r.windows().len() ==> (#[trigger] r.windows()[i]).len() == 0,
            r.set_up() == (QualitySettings {
                window_ms: raised(settings.window_ms, r.grid(), r.grid().len()),
                spread_widen_per_bps: larger(settings.spread_widen_per_bps, spec_zero()),
                max_spread_multiplier: larger(settings.max_spread_multiplier, spec_one()),
                size_reduce_per_bps: larger(settings.size_reduce_per_bps, spec_zero()),
                min_size_multiplier: clamped(
                    settings.min_size_multiplier,
                    spec_twentieth(),
                    spec_one(),
                ),
                ..settings
            }),
            is_neutral(r.last()),
            r.last().adverse_bps == spec_zero(),
            r.last().sample_count == 0,
            r.last().reason@ == "neutral"@,
    {
        let grid: Vec<Horizon> = sorted_horizons(horizons);
        let mut markouts: Vec<VecDeque<Sample>> = Vec::new();
        let mut window_ms: u64 = if settings.window_ms < 1000 {
            1000
        } else {
            settings.window_ms
        };
        let n: usize = grid.len();
        let mut i: usize = 0;
        while i < n
            invariant
                i <= n == grid@.len(),
                window_ms == raised(settings.window_ms, grid@, i as nat),
                1000 <= window_ms,
                forall|k: int| 0 <= k < i ==> (#[trigger] grid@[k]).ms <= window_ms,
                markouts@.len() == i,
                forall|k: int| 0 <= k < i ==> (#[trigger] markouts@[k])@.len() == 0,
            decreases n - i,
        {
            if window_ms < grid[i].ms {
                window_ms = grid[i].ms;
            }
            markouts.push(VecDeque::new());
            i = i + 1;
        }
        let one: Num = Num::new(0x3FF0_0000_0000_0000);
        LiveMetricsTracker {
            horizons: grid,
            settings: QualitySettings {
                window_ms,
                adaptive_enabled: settings.adaptive_enabled,
                adaptive_horizon: settings.adaptive_horizon,
                adverse_threshold_bps: settings.adverse_threshold_bps,
                spread_widen_per_bps: settings.spread_widen_per_bps.max(Num::zero()),
                max_spread_multiplier: settings.max_spread_multiplier.max(one),
                size_reduce_per_bps: settings.size_reduce_per_bps.max(Num::zero()),
                min_size_multiplier: clamp(
                    settings.min_size_multiplier,
                    Num::new(0x3FA9_9999_9999_999A),
                    one,
                ),
            },
            pending: VecDeque::new(),
            markouts,
            last_adjustment: QualityAdjustment::default(),
        }
    }
}


proof fn lemma_settle_fill(
    fill: Fill,
    mark: Mark,
    horizons: Seq<u64>,
    now: u64,
    windows: Seq<Seq<Sample>>,
    n: nat,
)
    requires
        n <= horizons.len(),
        fill.settled.len() == horizons.len(),
        windows.len() == horizons.len(),
        forall|i: int| 0 <= i < windows.len() ==> (#[trigger] windows[i]).len() <= MARKOUT_CAP,
    ensures
        ({
            let s = settle_fill(fill, mark, horizons, now, windows, n);
            &&& s.settled.len() == horizons.len()
            &&& s.windows.len() == horizons.len()
            &&& forall|i: int|
                0 <= i < s.windows.len() ==> (#[trigger] s.windows[i]).len() <= MARKOUT_CAP
        }),
    decreases n,
{
    if n > 0 {
        lemma_settle_fill(fill, mark, horizons, now, windows, (n - 1) as nat);
    }
}

proof fn lemma_settle_fills(
    fills: Seq<Fill>,
    marks: Seq<Mark>,
    horizons: Seq<u64>,
    now: u64,
    windows: Seq<Seq<Sample>>,
    n: nat,
)
    requires
        n <= fills.len(),
        windows.len() == horizons.len(),
        forall|i: int| 0 <= i < windows.len() ==> (#[trigger] windows[i]).len() <= MARKOUT_CAP,
        forall|i: int|
            0 <= i < fills.len() ==> (#[trigger] fills[i]).settled.len() == horizons.len(),
    ensures
        ({
            let s = settle_fills(fills, marks, horizons, now, windows, n);
            &&& s.fills.len() <= n
            &&& s.windows.len() == horizons.len()
            &&& forall|i: int|
                0 <= i < s.windows.len() ==> (#[trigger] s.windows[i]).len() <= MARKOUT_CAP
            &&& forall|i: int|
                0 <= i < s.fills.len() ==> (#[trigger] s.fills[i]).settled.len()
                    == horizons.len()
        }),
    decreases n,
{
    if n > 0 {
        lemma_settle_fills(fills, marks, horizons, now, windows, (n - 1) as nat);
        let s = settle_fills(fills, marks, horizons, now, windows, (n - 1) as nat);
        lemma_settle_fill(fills[n - 1], marks[n - 1], horizons, now, s.windows, horizons.len());
    }
}

proof fn lemma_pruned_len(window: Seq<Sample>, cutoff: u64)
    ensures
        pruned(window, cutoff).len() <= window.len(),
    decreases window.len(),
{
    if window.len() > 0 && window[0].ts_ms < cutoff {
        lemma_pruned_len(window.drop_first(), cutoff);
    }
}

/// The samples of each horizon.
spec fn windows_of(v: Seq<VecDeque<Sample>>) -> Seq<Seq<Sample>> {
    Seq::new(v.len(), |i: int| v[i]@)
}

/// Puts a sample in a window.
fn push_sample(window: &mut VecDeque<Sample>, s: Sample)
    requires
        old(window)@.len() <= MARKOUT_CAP,
    ensures
        final(window)@ == pushed(old(window)@, s),
{
    let ghost before = window@;
    if window.len() >= MARKOUT_CAP {
        let _ = window.pop_front();
        proof {
            assert(window@ =~= before.drop_first());
        }
    }
    window.push_back(s);
}

/// Drops the samples at the front of a window that are older than the cutoff.
fn prune_window(window: &mut VecDeque<Sample>, cutoff: u64)
    ensures
        final(window)@ == pruned(old(window)@, cutoff),
{
    while window.len() > 0 && window[0].ts_ms < cutoff
        invariant
            pruned(window@, cutoff) == pruned(old(window)@, cutoff),
        decreases window@.len(),
    {
        let ghost before = window@;
        let _ = window.pop_front();
        proof {
            assert(window@ =~= before.drop_first());
        }
    }
}

impl LiveMetricsTracker {
    /// Records a fill. One without a positive price and size is passed over; the first one that
    /// waits gives way where too many do.
    pub fn record_fill(
        &mut self,
        side: Side,
        price: Num,
        size: Num,
        mid_at_fill: Option<Num>,
        now_ms: u64,
    )
        requires
            old(self).wf(),
        ensures
            final(self).wf(),
            final(self).grid() == old(self).grid(),
            final(self).set_up() == old(self).set_up(),
            final(self).windows() == old(self).windows(),
            final(self).last() == old(self).last(),
            final(self).fills() == if spec_zero().below(price) && spec_zero().below(size) {
                let rest = if old(self).fills().len() >= PENDING_CAP {
                    old(self).fills().drop_first()
                } else {
                    old(self).fills()
                };
                rest.push(
                    Fill {
                        at: now_ms,
                        side,
                        price,
                        size,
                        mid: match mid_at_fill {
                            Some(m) => if m.finite() {
                                Some(m)
                            } else {
                                None
                            },
                            None => None,
                        },
                        settled: Seq::new(old(self).spans().len(), |i: int| false),
                    },
                )
            } else {
                old(self).fills()
            },
            final(self).fills() == with_fill(
                old(self).fills(),
                side,
                price,
                size,
                mid_at_fill,
                now_ms,
                old(self).spans().len(),
            ),
    {
        if !price.is_positive() || !size.is_positive() {
            return ;
        }
        let ghost all = self.fills();
        if self.pending.len() >= PENDING_CAP {
            let _ = self.pending.pop_front();
            proof {
                assert(self.fills() =~= all.drop_first());
            }
        }
        let ghost rest = self.fills();
        let n: usize = self.horizons.len();
        let mut settled: Vec<bool> = Vec::new();
        while settled.len() < n
            invariant
                settled@.len() <= n,
                forall|k: int| 0 <= k < settled@.len() ==> !(#[trigger] settled@[k]),
            decreases n - settled@.len(),
        {
            settled.push(false);
        }
        let mid: Option<Num> = match mid_at_fill {
            Some(m) => if m.is_finite() {
                Some(m)
            } else {
                None
            },
            None => None,
        };
        let fill: PendingFill = PendingFill {
            recorded_at_ms: now_ms,
            side,
            price,
            size,
            mid_at_fill: mid,
            settled,
        };
        let ghost added = fill@;
        self.pending.push_back(fill);
        proof {
            assert(added.settled =~= Seq::new(self.spans().len(), |i: int| false));
            assert(self.fills() =~= rest.push(added));
            assert forall|i: int| 0 <= i < self.fills().len() implies (
            #[trigger] self.fills()[i]).settled.len() == self.spans().len() by {
                if i < rest.len() {
                    if all.len() >= PENDING_CAP {
                        assert(self.fills()[i] == all[i + 1]);
                    } else {
                        assert(self.fills()[i] == all[i]);
                    }
                }
            }
            assert(self.windows() =~= old(self).windows());
        }
    }

    /// Measures the fills whose horizons have passed, with the given marks, one for each fill
    /// that waits.
    fn settle_markouts(&mut self, now_ms: u64, marks: &Vec<Mark>) -> (r: Vec<Settlement>)
        requires
            old(self).wf(),
            marks@.len() == old(self).fills().len(),
        ensures
            final(self).wf(),
            final(self).grid() == old(self).grid(),
            final(self).set_up() == old(self).set_up(),
            final(self).last() == old(self).last(),
            ({
                let s = settle_fills(
                    old(self).fills(),
                    marks@,
                    old(self).spans(),
                    now_ms,
                    old(self).windows(),
                    old(self).fills().len(),
                );
                &&& final(self).fills() == s.fills
                &&& final(self).windows() == s.windows
                &&& r@ == s.done
            }),
    {
        let ghost fills = self.fills();
        let ghost windows = self.windows();
        let ghost grid = self.grid();
        let ghost spans = self.spans();
        let mut waiting: VecDeque<PendingFill> = VecDeque::new();
        std::mem::swap(&mut waiting, &mut self.pending);
        let n: usize = waiting.len();
        let h: usize = self.horizons.len();
        let mut done: Vec<Settlement> = Vec::new();
        let mut i: usize = 0;
        proof {
            assert(self.fills() =~= Seq::empty());
            assert(self.windows() =~= windows);
            assert(waiting@.skip(0) =~= waiting@);
        }
        while i < n
            invariant
                i <= n == fills.len() == marks@.len(),
                h == spans.len(),
                spans == spans_of(grid),
                self.horizons@ == grid,
                waiting@.len() == n - i,
                forall|k: int| 0 <= k < waiting@.len() ==> (#[trigger] waiting@[k])@ == fills[i + k],
                windows.len() == spans.len(),
                forall|k: int|
                    0 <= k < windows.len() ==> (#[trigger] windows[k]).len() <= MARKOUT_CAP,
                forall|k: int|
                    0 <= k < fills.len() ==> (#[trigger] fills[k]).settled.len() == spans.len(),
                self.settings == old(self).settings,
                self.last_adjustment == old(self).last_adjustment,
                ({
                    let s = settle_fills(fills, marks@, spans, now_ms, windows, i as nat);
                    &&& self.fills() == s.fills
                    &&& windows_of(self.markouts@) == s.windows
                    &&& done@ == s.done
                }),
            decreases n - i,
        {
            proof {
                lemma_settle_fills(fills, marks@, spans, now_ms, windows, i as nat);
            }
            let ghost start = settle_fills(fills, marks@, spans, now_ms, windows, i as nat);
            let ghost fill = fills[i as int];
            let mark: Mark = marks[i];
            let ghost before = waiting@;
            let mut obs: PendingFill = match waiting.pop_front() {
                Some(o) => o,
                None => {
                    return done;
                },
            };
            proof {
                assert(obs@ == fill);
                assert forall|k: int| 0 <= k < waiting@.len() implies (
                #[trigger] waiting@[k])@ == fills[i + 1 + k] by {
                    assert(waiting@[k] == before[k + 1]);
                }
            }
            let ghost done_before = done@;
            let age: u64 = if now_ms >= obs.recorded_at_ms {
                now_ms - obs.recorded_at_ms
            } else {
                0
            };
            let mut j: usize = 0;
            proof {
                assert(done_before + Seq::<Settlement>::empty() =~= done_before);
            }
            while j < h
                invariant
                    j <= h == spans.len(),
                    spans == spans_of(grid),
                    self.horizons@ == grid,
                    self.settings == old(self).settings,
                    self.last_adjustment == old(self).last_adjustment,
                    self.fills() == start.fills,
                    start.windows.len() == spans.len(),
                    forall|k: int|
                        0 <= k < start.windows.len() ==> (#[trigger] start.windows[k]).len()
                            <= MARKOUT_CAP,
                    fill.settled.len() == spans.len(),
                    age == since(now_ms, fill.at),
                    obs@ == (Fill { settled: obs.settled@, ..fill }),
                    ({
                        let s = settle_fill(
                            fill,
                            mark,
                            spans,
                            now_ms,
                            start.windows,
                            j as nat,
                        );
                        &&& obs.settled@ == s.settled
                        &&& windows_of(self.markouts@) == s.windows
                        &&& done@ == done_before + s.done
                    }),
                decreases h - j,
            {
                let ghost s = settle_fill(fill, mark, spans, now_ms, start.windows, j as nat);
                proof {
                    lemma_settle_fill(fill, mark, spans, now_ms, start.windows, j as nat);
                    assert(windows_of(self.markouts@).len() == self.markouts@.len());
                    assert(windows_of(self.markouts@)[j as int] == self.markouts@[j as int]@);
                }
                if !obs.settled[j] && age >= self.horizons[j].ms {
                    let settlement: Settlement = Settlement {
                        side: obs.side,
                        price: obs.price,
                        size: obs.size,
                        mid_at_fill: obs.mid_at_fill,
                        horizon: j,
                        mark,
                    };
                    obs.settled.set(j, true);
                    push_sample(&mut self.markouts[j], Sample { ts_ms: now_ms, mark });
                    done.push(settlement);
                    proof {
                        assert(windows_of(self.markouts@) =~= s.windows.update(
                            j as int,
                            pushed(s.windows[j as int], Sample { ts_ms: now_ms, mark }),
                        ));
                        assert(done@ =~= done_before + s.done.push(settlement));
                        assert(self.fills() =~= start.fills);
                    }
                }
                j = j + 1;
            }
            let mut open: bool = false;
            let mut k: usize = 0;
            while k < obs.settled.len()
                invariant
                    k <= obs.settled@.len(),
                    open == obs.settled@.take(k as int).contains(false),
                decreases obs.settled@.len() - k,
            {
                proof {
                    let a = obs.settled@.take(k as int);
                    let b = obs.settled@.take(k + 1);
                    assert(b =~= a.push(obs.settled@[k as int]));
                    if a.contains(false) {
                        let m = choose|m: int| 0 <= m < a.len() && a[m] == false;
                        assert(b[m] == false);
                    }
                    if !obs.settled@[k as int] {
                        assert(b[k as int] == false);
                    }
                    if b.contains(false) {
                        let m = choose|m: int| 0 <= m < b.len() && b[m] == false;
                        if m < k {
                            assert(a[m] == false);
                        }
                    }
                }
                if !obs.settled[k] {
                    open = true;
                }
                k = k + 1;
            }
            proof {
                assert(obs.settled@.take(k as int) =~= obs.settled@);
            }
            if open {
                let ghost added = obs@;
                self.pending.push_back(obs);
                proof {
                    assert(self.fills() =~= start.fills.push(added));
                }
            }
            i = i + 1;
        }
        proof {
            lemma_settle_fills(fills, marks@, spans, now_ms, windows, n as nat);
            assert(self.windows() =~= windows_of(self.markouts@));
        }
        done
    }

    /// Drops the samples that are older than the window.
    fn prune(&mut self, now_ms: u64)
        requires
            old(self).wf(),
        ensures
            final(self).wf(),
            final(self).grid() == old(self).grid(),
            final(self).set_up() == old(self).set_up(),
            final(self).last() == old(self).last(),
            final(self).fills() == old(self).fills(),
            final(self).windows() == all_pruned(
                old(self).windows(),
                since(now_ms, old(self).set_up().window_ms) as u64,
            ),
    {
        let cutoff: u64 = if now_ms >= self.settings.window_ms {
            now_ms - self.settings.window_ms
        } else {
            0
        };
        let ghost windows = self.windows();
        let n: usize = self.markouts.len();
        let mut i: usize = 0;
        while i < n
            invariant
                i <= n == windows.len() == self.markouts@.len(),
                self.horizons == old(self).horizons,
                self.settings == old(self).settings,
                self.pending == old(self).pending,
                self.last_adjustment == old(self).last_adjustment,
                forall|k: int|
                    0 <= k < i ==> (#[trigger] self.markouts@[k])@ == pruned(windows[k], cutoff),
                forall|k: int| i <= k < n ==> (#[trigger] self.markouts@[k])@ == windows[k],
            decreases n - i,
        {
            prune_window(&mut self.markouts[i], cutoff);
            i = i + 1;
        }
        proof {
            assert(self.windows() =~= all_pruned(windows, cutoff));
            assert(self.fills() =~= old(self).fills());
            assert forall|k: int| 0 <= k < self.windows().len() implies (
            #[trigger] self.windows()[k]).len() <= MARKOUT_CAP by {
                lemma_pruned_len(windows[k], cutoff);
            }
        }
    }

    /// Moves on in time: with a valid price, fills whose horizons have passed are measured; then
    /// samples that are too old are dropped.
    pub fn update(&mut self, now_ms: u64, mid: Num, marks: &Vec<Mark>) -> (r: Vec<Settlement>)
        requires
            old(self).wf(),
            marks@.len() == old(self).fills().len(),
        ensures
            final(self).wf(),
            final(self).grid() == old(self).grid(),
            final(self).set_up() == old(self).set_up(),
            final(self).last() == old(self).last(),
            ({
                let s = if mid.finite() && spec_zero().below(mid) {
                    settle_fills(
                        old(self).fills(),
                        marks@,
                        old(self).spans(),
                        now_ms,
                        old(self).windows(),
                        old(self).fills().len(),
                    )
                } else {
                    Settled {
                        fills: old(self).fills(),
                        windows: old(self).windows(),
                        done: Seq::empty(),
                    }
                };
                &&& final(self).fills() == s.fills
                &&& final(self).windows() == all_pruned(
                    s.windows,
                    since(now_ms, old(self).set_up().window_ms) as u64,
                )
                &&& r@ == s.done
            }),
    {
        let done: Vec<Settlement> = if mid.is_finite() && mid.is_positive() {
            self.settle_markouts(now_ms, marks)
        } else {
            Vec::new()
        };
        self.prune(now_ms);
        done
    }

    /// Side and price of each fill that waits.
    pub fn waiting(&self) -> (r: Vec<(Side, Num)>)
        ensures
            r@.len() == self.fills().len(),
            forall|i: int|
                0 <= i < r@.len() ==> #[trigger] r@[i] == (
                    self.fills()[i].side,
                    self.fills()[i].price,
                ),
    {
        let mut r: Vec<(Side, Num)> = Vec::new();
        let mut i: usize = 0;
        while i < self.pending.len()
            invariant
                i <= self.pending@.len(),
                r@.len() == i,
                forall|k: int|
                    0 <= k < i ==> #[trigger] r@[k] == (self.fills()[k].side, self.fills()[k].price),
            decreases self.pending@.len() - i,
        {
            r.push((self.pending[i].side, self.pending[i].price));
            i = i + 1;
        }
        r
    }

    /// The moves against the fills that were measured at a horizon.
    pub fn adverse_samples(&self, index: usize) -> (r: Vec<Num>)
        requires
            index < self.windows().len(),
        ensures
            r@.len() == self.windows()[index as int].len(),
            forall|i: int|
                0 <= i < r@.len() ==> #[trigger] r@[i]
                    == self.windows()[index as int][i].mark.adverse_bps,
    {
        let window: &VecDeque<Sample> = &self.markouts[index];
        let mut r: Vec<Num> = Vec::new();
        let mut i: usize = 0;
        while i < window.len()
            invariant
                i <= window@.len(),
                r@.len() == i,
                forall|k: int| 0 <= k < i ==> #[trigger] r@[k] == window@[k].mark.adverse_bps,
            decreases window@.len() - i,
        {
            r.push(window[i].mark.adverse_bps);
            i = i + 1;
        }
        r
    }

    /// The horizon nearest to a target by the given distances; none where there is no sample.
    pub fn nearest_horizon_idx(&self, distances: &Vec<Num>) -> (r: Option<usize>)
        requires
            self.wf(),
            distances@.len() == self.spans().len(),
        ensures
            match (r, nearest_index(self.windows(), distances@)) {
                (Some(i), Some(k)) => i == k && i < self.windows().len(),
                (None, None) => true,
                _ => false,
            },
    {
        let mut any: bool = false;
        let mut i: usize = 0;
        while i < self.markouts.len()
            invariant
                i <= self.markouts@.len(),
                any == exists|k: int| 0 <= k < i && (#[trigger] self.windows()[k]).len() > 0,
            decreases self.markouts@.len() - i,
        {
            proof {
                assert(self.windows()[i as int] == self.markouts@[i as int]@);
            }
            if self.markouts[i].len() > 0 {
                any = true;
            }
            i = i + 1;
        }
        if !any {
            return None;
        }
        let mut best: usize = 0;
        let mut j: usize = 1;
        while j < distances.len()
            invariant
                1 <= j <= distances@.len(),
                best < j,
                best == nearest(distances@, j as nat),
            decreases distances@.len() - j,
        {
            if distances[j].lt(distances[best]) {
                best = j;
            }
            j = j + 1;
        }
        Some(best)
    }

    /// What an adjustment is decided on: `distances` are those of the horizons from the adaptive
    /// one, `long_distances` those from the longest, and `long_gap` is the distance between these
    /// two.
    pub fn basis(&self, distances: &Vec<Num>, long_gap: Num, long_distances: &Vec<Num>) -> (r:
        Basis)
        requires
            self.wf(),
            distances@.len() == self.spans().len(),
            long_distances@.len() == self.spans().len(),
        ensures
            r == basis_of(
                self.set_up().adaptive_enabled,
                self.windows(),
                distances@,
                long_gap,
                long_distances@,
            ),
            r matches Basis::Samples { index, long, .. } ==> index < self.windows().len() && (
            long matches Some(l) ==> l < self.windows().len()),
    {
        if !self.settings.adaptive_enabled {
            return Basis::Disabled;
        }
        let index: usize = match self.nearest_horizon_idx(distances) {
            Some(i) => i,
            None => {
                return Basis::Insufficient(0);
            },
        };
        proof {
            assert(self.windows()[index as int] == self.markouts@[index as int]@);
        }
        let count: usize = self.markouts[index].len();
        if count < MIN_SAMPLE_COUNT {
            return Basis::Insufficient(count);
        }
        let mut long: Option<usize> = None;
        if Num::new(0x3CB0_0000_0000_0000).lt(long_gap) {
            match self.nearest_horizon_idx(long_distances) {
                Some(l) => {
                    proof {
                        assert(self.windows()[l as int] == self.markouts@[l as int]@);
                    }
                    if self.markouts[l].len() >= MIN_SAMPLE_COUNT {
                        long = Some(l);
                    }
                },
                None => {},
            }
        }
        Basis::Samples { index, count, long }
    }

    /// Settles the adjustment.
    pub fn adjust(&mut self, basis: Basis, n: AdjustmentNumbers)
        requires
            old(self).wf(),
        ensures
            final(self).wf(),
            final(self).grid() == old(self).grid(),
            final(self).set_up() == old(self).set_up(),
            final(self).fills() == old(self).fills(),
            final(self).windows() == old(self).windows(),
            adjusted(basis, old(self).set_up(), n, final(self).last()),
    {
        let adjustment: QualityAdjustment = match basis {
            Basis::Disabled => QualityAdjustment::neutral(Num::zero(), 0, "disabled"),
            Basis::Insufficient(count) => QualityAdjustment::neutral(
                Num::zero(),
                count,
                "insufficient_markouts",
            ),
            Basis::Samples { count, .. } => if self.settings.adverse_threshold_bps.lt(n.adverse) {
                let one: Num = Num::new(0x3FF0_0000_0000_0000);
                QualityAdjustment {
                    spread_multiplier: n.spread.max(one).min(self.settings.max_spread_multiplier),
                    size_multiplier: n.size.min(one).max(self.settings.min_size_multiplier),
                    adverse_bps: n.adverse,
                    sample_count: count,
                    reason: "adverse_markout",
                }
            } else {
                QualityAdjustment::neutral(n.adverse, count, "healthy")
            },
        };
        self.last_adjustment = adjustment;
        proof {
            assert(self.fills() =~= old(self).fills());
            assert(self.windows() =~= old(self).windows());
        }
    }

    /// The last adjustment.
    pub fn current_adjustment(&self) -> (r: QualityAdjustment)
        ensures
            r == self.last(),
    {
        self.last_adjustment
    }

    /// The horizons.
    pub fn horizons(&self) -> (r: &Vec<Horizon>)
        ensures
            r@ == self.grid(),
    {
        &self.horizons
    }

    /// How the tracker is set up.
    pub fn settings(&self) -> (r: QualitySettings)
        ensures
            r == self.set_up(),
    {
        self.settings
    }
}

/// A fill is measured at a horizon once: not at one that it was measured at before, and at no
/// horizon twice.
pub proof fn fills_are_measured_once(
    fill: Fill,
    mark: Mark,
    horizons: Seq<u64>,
    now: u64,
    windows: Seq<Seq<Sample>>,
    n: nat,
)
    requires
        n <= horizons.len() <= usize::MAX,
        fill.settled.len() == horizons.len(),
    ensures
        ({
            let s = settle_fill(fill, mark, horizons, now, windows, n);
            &&& s.settled.len() == fill.settled.len()
            &&& forall|k: int|
                0 <= k < s.done.len() ==> {
                    &&& (#[trigger] s.done[k]).horizon < n
                    &&& !fill.settled[s.done[k].horizon as int]
                    &&& s.settled[s.done[k].horizon as int]
                }
            &&& forall|k: int, l: int|
                0 <= k < l < s.done.len() ==> (#[trigger] s.done[k]).horizon < (
                #[trigger] s.done[l]).horizon
            &&& forall|h: int| 0 <= h < n && fill.settled[h] ==> #[trigger] s.settled[h]
            &&& forall|h: int| n <= h < s.settled.len() ==> #[trigger] s.settled[h]
                == fill.settled[h]
        }),
    decreases n,
{
    if n > 0 {
        fills_are_measured_once(fill, mark, horizons, now, windows, (n - 1) as nat);
    }
}

/// Whether samples are in the order of their times.
pub open spec fn in_time_order(window: Seq<Sample>) -> bool {
    forall|i: int, j: int|
        0 <= i < j < window.len() ==> (#[trigger] window[i]).ts_ms <= (#[trigger] window[j]).ts_ms
}

/// Of samples that came in order, those that stay are the recent ones.
pub proof fn pruning_leaves_the_recent(window: Seq<Sample>, cutoff: u64)
    requires
        in_time_order(window),
    ensures
        forall|i: int|
            0 <= i < pruned(window, cutoff).len() ==> (#[trigger] pruned(window, cutoff)[i]).ts_ms
                >= cutoff,
        forall|i: int|
            0 <= i < window.len() && (#[trigger] window[i]).ts_ms >= cutoff ==> pruned(
                window,
                cutoff,
            ).contains(window[i]),
    decreases window.len(),
{
    if window.len() > 0 && window[0].ts_ms < cutoff {
        let rest = window.drop_first();
        assert(in_time_order(rest)) by {
            assert forall|i: int, j: int| 0 <= i < j < rest.len() implies (
            #[trigger] rest[i]).ts_ms <= (#[trigger] rest[j]).ts_ms by {
                assert(window[i + 1].ts_ms <= window[j + 1].ts_ms);
            }
        }
        pruning_leaves_the_recent(rest, cutoff);
        assert(pruned(window, cutoff) == pruned(rest, cutoff));
        assert forall|i: int|
            0 <= i < window.len() && (#[trigger] window[i]).ts_ms >= cutoff implies pruned(
            window,
            cutoff,
        ).contains(window[i]) by {
            assert(rest[i - 1] == window[i]);
        }
    } else {
        assert(pruned(window, cutoff) == window);
        assert forall|i: int| 0 <= i < window.len() implies (#[trigger] window[i]).ts_ms
            >= cutoff by {
            if i > 0 {
                assert(window[0].ts_ms <= window[i].ts_ms);
            }
        }
    }
}

/// Quotes are only ever widened and shrunk, and never beyond the settings: whatever the samples
/// and the sums, the spread multiplier lies between one and its cap, and the size multiplier
/// between its floor and one. Both are exactly one unless the fills were met by adverse moves,
/// which is so exactly where the adjustment is enabled, the nearest horizon has enough samples, and
/// the mean adverse move lies above the threshold.
pub proof fn adjustments_only_defend(
    settings: QualitySettings,
    windows: Seq<Seq<Sample>>,
    distances: Seq<Num>,
    long_gap: Num,
    long_distances: Seq<Num>,
    n: AdjustmentNumbers,
    a: QualityAdjustment,
)
    requires
        in_range(settings),
        adjusted(
            basis_of(settings.adaptive_enabled, windows, distances, long_gap, long_distances),
            settings,
            n,
            a,
        ),
    ensures
        spec_one().at_most(a.spread_multiplier),
        a.spread_multiplier.at_most(settings.max_spread_multiplier),
        a.size_multiplier.at_most(spec_one()),
        !settings.min_size_multiplier.nan() ==> settings.min_size_multiplier.at_most(
            a.size_multiplier,
        ),
        a.reason@ != "adverse_markout"@ ==> is_neutral(a),
        a.reason@ == "adverse_markout"@ <==> {
            &&& settings.adaptive_enabled
            &&& nearest_index(windows, distances) is Some
            &&& windows[nearest_index(windows, distances)->0 as int].len() >= MIN_SAMPLE_COUNT
            &&& settings.adverse_threshold_bps.below(a.adverse_bps)
        },
{
    reveal_strlit("disabled");
    reveal_strlit("insufficient_markouts");
    reveal_strlit("healthy");
    reveal_strlit("adverse_markout");
    assert("disabled"@.len() == 8);
    assert("insufficient_markouts"@.len() == 21);
    assert("healthy"@.len() == 7);
    assert("adverse_markout"@.len() == 15);
}

/// Whether a fill has waited for a horizon: the clock has moved on by so much since it.
pub open spec fn waited(at: u64, horizon_ms: u64, now: u64) -> bool {
    now >= at + horizon_ms || horizon_ms == 0
}

/// At each horizon whose time has passed a fill is measured, and at no other: it then counts as
/// settled, its mark is the last sample of the horizon's window, at the current time, and the first
/// of 10,000 gives way to it. Windows of other horizons stay as they are.
pub proof fn fills_are_measured_when_due(
    fill: Fill,
    mark: Mark,
    horizons: Seq<u64>,
    now: u64,
    windows: Seq<Seq<Sample>>,
    n: nat,
    h: int,
)
    requires
        n <= horizons.len() <= usize::MAX,
        fill.settled.len() == horizons.len() == windows.len(),
        0 <= h < horizons.len(),
    ensures
        ({
            let s = settle_fill(fill, mark, horizons, now, windows, n);
            let now_due = h < n && !fill.settled[h] && waited(fill.at, horizons[h], now);
            &&& s.settled.len() == horizons.len() && s.windows.len() == windows.len()
            &&& s.settled[h] <==> fill.settled[h] || now_due
            &&& !now_due ==> s.windows[h] == windows[h]
            &&& now_due ==> s.windows[h].len() > 0 && s.windows[h].last().ts_ms == now
                && s.windows[h].last().mark == mark
            &&& now_due && windows[h].len() < 10_000 ==> s.windows[h].drop_last() == windows[h]
            &&& now_due && windows[h].len() >= 10_000 ==> s.windows[h].drop_last()
                == windows[h].drop_first()
        }),
    decreases n,
{
    if n > 0 {
        let m = (n - 1) as nat;
        fills_are_measured_when_due(fill, mark, horizons, now, windows, m, h);
        fills_are_measured_when_due(fill, mark, horizons, now, windows, m, n - 1);
        let s = settle_fill(fill, mark, horizons, now, windows, m);
        let sample = Sample { ts_ms: now, mark };
        assert(s.windows[n - 1].push(sample).drop_last() =~= s.windows[n - 1]);
        assert(s.windows[n - 1].drop_first().push(sample).drop_last()
            =~= s.windows[n - 1].drop_first());
    }
}

/// What is told of a fill that was measured is the fill itself, with its mark, at a horizon that had
/// passed.
pub proof fn settlements_tell_of_their_fill(
    fill: Fill,
    mark: Mark,
    horizons: Seq<u64>,
    now: u64,
    windows: Seq<Seq<Sample>>,
    n: nat,
)
    requires
        n <= horizons.len() <= usize::MAX,
        fill.settled.len() == horizons.len() == windows.len(),
    ensures
        ({
            let done = settle_fill(fill, mark, horizons, now, windows, n).done;
            &&& forall|k: int|
                0 <= k < done.len() ==> {
                    let d = #[trigger] done[k];
                    &&& d.side == fill.side && d.price == fill.price && d.size == fill.size
                    &&& d.mid_at_fill == fill.mid && d.mark == mark
                    &&& d.horizon < n && waited(fill.at, horizons[d.horizon as int], now)
                }
            &&& forall|h: int|
                0 <= h < n && !(#[trigger] fill.settled[h]) && waited(fill.at, horizons[h], now)
                    ==> exists|k: int| 0 <= k < done.len() && #[trigger] done[k].horizon == h
        }),
    decreases n,
{
    if n > 0 {
        let m = (n - 1) as nat;
        settlements_tell_of_their_fill(fill, mark, horizons, now, windows, m);
        fills_are_measured_when_due(fill, mark, horizons, now, windows, m, n - 1);
        let before = settle_fill(fill, mark, horizons, now, windows, m).done;
        let done = settle_fill(fill, mark, horizons, now, windows, n).done;
        assert forall|k: int| 0 <= k < done.len() implies {
            let d = #[trigger] done[k];
            &&& d.side == fill.side && d.price == fill.price && d.size == fill.size
            &&& d.mid_at_fill == fill.mid && d.mark == mark
            &&& d.horizon < n && waited(fill.at, horizons[d.horizon as int], now)
        } by {
            if k < before.len() {
                assert(done[k] == before[k]);
            }
        }
        assert forall|h: int|
            0 <= h < n && !(#[trigger] fill.settled[h]) && waited(
                fill.at,
                horizons[h],
                now,
            ) implies exists|k: int| 0 <= k < done.len() && #[trigger] done[k].horizon == h by {
            if h < m {
                let k = choose|k: int| 0 <= k < before.len() && #[trigger] before[k].horizon == h;
                assert(done[k] == before[k]);
            } else {
                assert(done[before.len() as int].horizon == h);
            }
        }
    }
}

/// Whether a fill is one of the first `n`, measured at every horizon that has passed and still to be
/// measured at one that has not.
pub open spec fn waits_on(
    f: Fill,
    fills: Seq<Fill>,
    horizons: Seq<u64>,
    now: u64,
    k: int,
) -> bool {
    let g = fills[k];
    &&& f.at == g.at && f.side == g.side && f.price == g.price && f.size == g.size && f.mid == g.mid
    &&& f.settled.len() == g.settled.len()
    &&& forall|h: int|
        0 <= h < horizons.len() ==> (#[trigger] f.settled[h] <==> g.settled[h] || waited(
            g.at,
            horizons[h],
            now,
        ))
    &&& f.settled.contains(false)
}

/// Whether a fill is one of the first `n`, and waits on.
pub open spec fn comes_of(
    f: Fill,
    fills: Seq<Fill>,
    horizons: Seq<u64>,
    now: u64,
    n: int,
) -> bool {
    exists|k: int| 0 <= k < n && #[trigger] waits_on(f, fills, horizons, now, k)
}

/// Whether the `k`-th fill is among those that are kept.
pub open spec fn is_kept(
    kept: Seq<Fill>,
    fills: Seq<Fill>,
    horizons: Seq<u64>,
    now: u64,
    k: int,
) -> bool {
    exists|j: int| 0 <= j < kept.len() && waits_on(#[trigger] kept[j], fills, horizons, now, k)
}

/// The fills that wait on are those with a horizon that has not passed, and all of them: each is the
/// fill that it was, settled at the horizons that have passed.
pub proof fn fills_wait_for_their_last_horizon(
    fills: Seq<Fill>,
    marks: Seq<Mark>,
    horizons: Seq<u64>,
    now: u64,
    windows: Seq<Seq<Sample>>,
    n: nat,
)
    requires
        n <= fills.len() == marks.len(),
        horizons.len() == windows.len(),
        horizons.len() <= usize::MAX,
        forall|k: int| 0 <= k < fills.len() ==> (#[trigger] fills[k]).settled.len()
            == horizons.len(),
    ensures
        ({
            let s = settle_fills(fills, marks, horizons, now, windows, n);
            &&& s.windows.len() == windows.len()
            &&& forall|j: int|
                0 <= j < s.fills.len() ==> comes_of(
                    #[trigger] s.fills[j],
                    fills,
                    horizons,
                    now,
                    n as int,
                )
            &&& forall|k: int, h: int|
                0 <= k < n && 0 <= h < horizons.len() && !(#[trigger] fills[k].settled[h])
                    && !waited(fills[k].at, horizons[h], now) ==> is_kept(
                    s.fills,
                    fills,
                    horizons,
                    now,
                    k,
                )
        }),
    decreases n,
{
    if n > 0 {
        let m = (n - 1) as nat;
        fills_wait_for_their_last_horizon(fills, marks, horizons, now, windows, m);
        let s = settle_fills(fills, marks, horizons, now, windows, m);
        let g = fills[n - 1];
        let one = settle_fill(g, marks[n - 1], horizons, now, s.windows, horizons.len());
        let t = settle_fills(fills, marks, horizons, now, windows, n);
        if horizons.len() == 0 {
            lemma_nothing_to_settle(g, marks[n - 1], horizons, now, s.windows);
        } else {
            fills_are_measured_when_due(
                g,
                marks[n - 1],
                horizons,
                now,
                s.windows,
                horizons.len(),
                0,
            );
        }
        assert forall|h: int| 0 <= h < horizons.len() implies (#[trigger] one.settled[h]
            <==> g.settled[h] || waited(g.at, horizons[h], now)) by {
            fills_are_measured_when_due(
                g,
                marks[n - 1],
                horizons,
                now,
                s.windows,
                horizons.len(),
                h,
            );
        }
        let f = Fill { settled: one.settled, ..g };
        if one.settled.contains(false) {
            assert(waits_on(f, fills, horizons, now, n - 1));
        }
        assert forall|j: int| 0 <= j < t.fills.len() implies comes_of(
            #[trigger] t.fills[j],
            fills,
            horizons,
            now,
            n as int,
        ) by {
            if j < s.fills.len() {
                assert(t.fills[j] == s.fills[j]);
                assert(comes_of(s.fills[j], fills, horizons, now, m as int));
                let k = choose|k: int|
                    0 <= k < m && #[trigger] waits_on(s.fills[j], fills, horizons, now, k);
                assert(waits_on(t.fills[j], fills, horizons, now, k));
            } else {
                assert(waits_on(t.fills[j], fills, horizons, now, n - 1));
            }
        }
        assert forall|k: int, h: int|
            0 <= k < n && 0 <= h < horizons.len() && !(#[trigger] fills[k].settled[h]) && !waited(
                fills[k].at,
                horizons[h],
                now,
            ) implies is_kept(t.fills, fills, horizons, now, k) by {
            if k < m {
                assert(is_kept(s.fills, fills, horizons, now, k));
                let j = choose|j: int|
                    0 <= j < s.fills.len() && waits_on(
                        #[trigger] s.fills[j],
                        fills,
                        horizons,
                        now,
                        k,
                    );
                assert(t.fills[j] == s.fills[j]);
                assert(waits_on(t.fills[j], fills, horizons, now, k));
            } else {
                assert(!one.settled[h]);
                assert(one.settled.contains(false));
                assert(waits_on(t.fills[s.fills.len() as int], fills, horizons, now, k));
            }
        }
    }
}

proof fn lemma_nothing_to_settle(
    fill: Fill,
    mark: Mark,
    horizons: Seq<u64>,
    now: u64,
    windows: Seq<Seq<Sample>>,
)
    requires
        horizons.len() == 0,
        windows.len() == 0,
        fill.settled.len() == 0,
    ensures
        settle_fill(fill, mark, horizons, now, windows, 0).settled.len() == 0,
        settle_fill(fill, mark, horizons, now, windows, 0).windows.len() == 0,
{
}

/// Pruning drops samples from the front alone, each of them older than the cutoff, and stops at the
/// first that is not.
pub proof fn pruning_drops_the_front(window: Seq<Sample>, cutoff: u64)
    ensures
        ({
            let r = pruned(window, cutoff);
            let gone = window.len() - r.len();
            &&& 0 <= gone
            &&& r == window.skip(gone)
            &&& forall|i: int| 0 <= i < gone ==> (#[trigger] window[i]).ts_ms < cutoff
            &&& r.len() > 0 ==> r[0].ts_ms >= cutoff
        }),
    decreases window.len(),
{
    if window.len() > 0 && window[0].ts_ms < cutoff {
        let rest = window.drop_first();
        pruning_drops_the_front(rest, cutoff);
        let r = pruned(window, cutoff);
        let gone = window.len() - r.len();
        assert(rest.skip(gone - 1) =~= window.skip(gone));
        assert forall|i: int| 0 <= i < gone implies (#[trigger] window[i]).ts_ms < cutoff by {
            if i > 0 {
                assert(rest[i - 1] == window[i]);
            }
        }
    } else {
        assert(window.skip(0) =~= window);
    }
}

/// The nearest horizon is one of them, none is nearer, and of several that are equally near it is the
/// first.
pub proof fn nearest_is_the_first_of_the_least(distances: Seq<Num>, n: nat)
    requires
        0 < n <= distances.len(),
        forall|i: int| 0 <= i < distances.len() ==> !(#[trigger] distances[i]).nan(),
    ensures
        nearest(distances, n) < n,
        forall|i: int|
            0 <= i < n ==> !(#[trigger] distances[i]).below(distances[nearest(distances, n) as int]),
        forall|i: int|
            0 <= i < nearest(distances, n) ==> distances[nearest(distances, n) as int].below(
                #[trigger] distances[i],
            ),
    decreases n,
{
    if n > 1 {
        nearest_is_the_first_of_the_least(distances, (n - 1) as nat);
    }
}

/// What an adjustment is decided on. Nothing where adjusting is off; too few samples where the nearest
/// horizon has under four, or none has any; else the samples of that horizon, with those of the
/// longest where that is another one and has four or more.
pub proof fn four_samples_decide(
    enabled: bool,
    windows: Seq<Seq<Sample>>,
    distances: Seq<Num>,
    long_gap: Num,
    long_distances: Seq<Num>,
    near: int,
    long: int,
)
    requires
        near == nearest(distances, distances.len()),
        long == nearest(long_distances, long_distances.len()),
        0 <= near < windows.len(),
        windows[near].len() <= usize::MAX,
        0 <= long < windows.len() <= usize::MAX,
    ensures
        ({
            let b = basis_of(enabled, windows, distances, long_gap, long_distances);
            let any = exists|i: int| 0 <= i < windows.len() && (#[trigger] windows[i]).len() > 0;
            &&& !enabled ==> b == Basis::Disabled
            &&& enabled && !any ==> b == Basis::Insufficient(0)
            &&& enabled && any && windows[near].len() < 4 ==> b == Basis::Insufficient(
                windows[near].len() as usize,
            )
            &&& enabled && any && windows[near].len() >= 4 ==> {
                &&& b matches Basis::Samples { index, count, long: l }
                &&& index == near && count == windows[near].len()
                &&& l is Some <==> spec_ulp().below(long_gap) && windows[long].len() >= 4
                &&& l is Some ==> l->0 == long
            }
        }),
{
}

/// How quotes are adjusted. Without samples enough they are left as they are, and so they are while
/// the mean move against the fills does not pass the threshold; where it does, the multipliers are
/// the ones worked out, where those lie within their bounds. Each adjustment tells its reason.
pub proof fn adjustments_follow_their_basis(
    basis: Basis,
    settings: QualitySettings,
    n: AdjustmentNumbers,
    a: QualityAdjustment,
)
    requires
        adjusted(basis, settings, n, a),
    ensures
        ({
            let untouched = a.spread_multiplier.bits == 0x3FF0_0000_0000_0000
                && a.size_multiplier.bits == 0x3FF0_0000_0000_0000;
            &&& basis is Disabled ==> untouched && a.sample_count == 0 && a.adverse_bps
                == spec_zero() && a.reason@ == "disabled"@
            &&& basis matches Basis::Insufficient(count) ==> untouched && a.sample_count == count
                && a.adverse_bps == spec_zero() && a.reason@ == "insufficient_markouts"@
            &&& basis matches Basis::Samples { count, .. } ==> {
                &&& a.sample_count == count && a.adverse_bps == n.adverse
                &&& !settings.adverse_threshold_bps.below(n.adverse) ==> untouched && a.reason@
                    == "healthy"@
                &&& settings.adverse_threshold_bps.below(n.adverse) ==> {
                    &&& a.reason@ == "adverse_markout"@
                    &&& spec_one().below(n.spread) && n.spread.below(
                        settings.max_spread_multiplier,
                    ) ==> a.spread_multiplier == n.spread
                    &&& n.size.below(spec_one()) && settings.min_size_multiplier.below(n.size)
                        ==> a.size_multiplier == n.size
                    &&& !n.spread.nan() && settings.max_spread_multiplier.below(n.spread)
                        && spec_one().below(n.spread) ==> a.spread_multiplier
                        == settings.max_spread_multiplier
                    &&& n.size.below(settings.min_size_multiplier) && n.size.below(spec_one())
                        ==> a.size_multiplier == settings.min_size_multiplier
                }
            }
        }),
{
}

/// The window is raised no further than it has to be: to a second, to the longest horizon, or not at
/// all.
pub proof fn windows_are_raised_to_the_longest(window_ms: u64, grid: Seq<Horizon>, n: nat)
    requires
        n <= grid.len(),
    ensures
        ({
            let w = raised(window_ms, grid, n);
            &&& w >= 1_000 && w >= window_ms
            &&& forall|i: int| 0 <= i < n ==> w >= (#[trigger] grid[i]).ms
            &&& w == 1_000 || w == window_ms || exists|i: int|
                0 <= i < n && (#[trigger] grid[i]).ms == w
        }),
    decreases n,
{
    if n > 0 {
        windows_are_raised_to_the_longest(window_ms, grid, (n - 1) as nat);
        let before = raised(window_ms, grid, (n - 1) as nat);
        if before < grid[n - 1].ms {
            assert(grid[n - 1].ms == raised(window_ms, grid, n));
        }
    }
}

/// The horizons of a tracker: the positive ones that it was given, every length once, the shorter
/// first. Each is measured in its own milliseconds.
pub proof fn horizons_are_sorted_out(raw: Seq<Horizon>, r: Seq<Horizon>, i: int, k: int)
    requires
        horizons_of(raw, r),
        0 <= i < raw.len(),
        0 <= k < r.len(),
    ensures
        spec_zero().below(r[k].sec),
        raw.contains(r[k]),
        spec_zero().below(raw[i].sec) ==> exists|j: int|
            0 <= j < r.len() && (#[trigger] r[j]).sec.same(raw[i].sec),
        k + 1 < r.len() ==> r[k].sec.below(r[k + 1].sec),
        spans_of(r).len() == r.len() && spans_of(r)[k] == r[k].ms,
        spec_one().bits == 0x3FF0_0000_0000_0000,
        spec_twentieth().bits == 0x3FA9_9999_9999_999A,
        spec_ulp().bits == 0x3CB0_0000_0000_0000,
{
    let j = choose|j: int| 0 <= j < raw.len() && #[trigger] counts_at(raw, j) && raw[j] == r[k];
    assert(comes_from(raw, r[k]));
    assert(raw[j] == r[k]);
    if spec_zero().below(raw[i].sec) {
        assert(is_span(raw[i]));
        assert(has_length(r, raw[i].sec));
    }
}

/// A fill with a positive price and size waits last, as it was reported and at the time given, for
/// every horizon; a mid price that is no finite number is left out. Those that waited wait on, but for
/// the first where 2,000 did. Any other fill is passed over.
pub proof fn recorded_fills_wait_last(
    fills: Seq<Fill>,
    side: Side,
    price: Num,
    size: Num,
    mid: Option<Num>,
    now: u64,
    horizons: nat,
)
    ensures
        ({
            let r = with_fill(fills, side, price, size, mid, now, horizons);
            let sound = spec_zero().below(price) && spec_zero().below(size);
            &&& !sound ==> r == fills
            &&& sound ==> {
                let f = r.last();
                &&& r.len() > 0
                &&& f.at == now && f.side == side && f.price == price && f.size == size
                &&& f.mid is Some <==> mid is Some && mid->0.finite()
                &&& f.mid is Some ==> f.mid == mid
                &&& f.settled.len() == horizons
                &&& forall|i: int| 0 <= i < horizons ==> !(#[trigger] f.settled[i])
            }
            &&& sound && fills.len() < 2_000 ==> r.drop_last() == fills
            &&& sound && fills.len() >= 2_000 ==> r.drop_last() == fills.drop_first()
        }),
{
    let r = with_fill(fills, side, price, size, mid, now, horizons);
    if spec_zero().below(price) && spec_zero().below(size) {
        if fills.len() >= PENDING_CAP {
            assert(r.drop_last() =~= fills.drop_first());
        } else {
            assert(r.drop_last() =~= fills);
        }
    }
}

/// A nearest horizon is there exactly where some horizon has a sample.
pub proof fn samples_make_a_horizon_nearest(windows: Seq<Seq<Sample>>, distances: Seq<Num>)
    ensures
        (forall|i: int| 0 <= i < windows.len() ==> (#[trigger] windows[i]).len() == 0)
            <==> nearest_index(windows, distances) is None,
        nearest_index(windows, distances) is Some ==> nearest_index(windows, distances) == Some(
            nearest(distances, distances.len()),
        ),
{
}

} // verus!
