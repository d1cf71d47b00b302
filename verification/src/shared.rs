//! State shared between the market-data task and the background tasks.
//!
//! Times are milliseconds since the Unix epoch; 0 stands for "never".
use vstd::prelude::*;
use crate::num::{spec_zero, Num};

verus! {

/// `SystemTime::now` against the Unix epoch, in milliseconds; `None` for a clock before it. It
/// reads the clock, so nothing is claimed of the result.
#[verifier::external_body]
pub(crate) fn epoch_millis() -> (r: Option<u128>) {
    std::time::SystemTime::now().duration_since(std::time::UNIX_EPOCH).ok().map(
        |d| d.as_millis(),
    )
}

/// A reading of the clock as 64 bits.
pub open spec fn clocked(reading: Option<u128>) -> u64 {
    match reading {
        Some(m) => (m % 0x1_0000_0000_0000_0000) as u64,
        None => 0,
    }
}

/// A reading of the clock as 64 bits: zero before the epoch, the low bits past their range.
pub fn clock_ms(reading: Option<u128>) -> (r: u64)
    ensures
        r == match reading {
            Some(m) => (m % 0x1_0000_0000_0000_0000) as u64,
            None => 0,
        },
        r == clocked(reading),
{
    match reading {
        Some(m) => (m % 0x1_0000_0000_0000_0000) as u64,
        None => 0,
    }
}

/// Milliseconds since the Unix epoch.
pub fn now_ms() -> (r: u64) {
    clock_ms(epoch_millis())
}

/// Age of something last updated at `last`, the largest number where it never was.
pub open spec fn age_at(last: u64, now: u64) -> u64 {
    if last == 0 {
        u64::MAX
    } else if now >= last {
        (now - last) as u64
    } else {
        0
    }
}

/// Whether something last updated at `last` is older than the threshold.
pub open spec fn stale_at(last: u64, now: u64, threshold_ms: u64) -> bool {
    last == 0 || age_at(last, now) > threshold_ms
}

/// Age of something last updated at `last`.
fn age(last: u64, now: u64) -> (r: u64)
    ensures
        r == age_at(last, now),
{
    if last == 0 {
        0xFFFF_FFFF_FFFF_FFFF
    } else {
        now.saturating_sub(last)
    }
}

/// The alpha of the reference exchange: written by its depth task, read when quoting.
#[derive(Clone, Debug)]
pub struct SharedAlpha {
    alpha: Num,
    sample_count: u64,
    last_update_ms: u64,
    min_samples: u64,
}

/// What is known of the alpha.
pub struct AlphaState {
    pub alpha: Num,
    pub samples: u64,
    pub last: u64,
    pub min_samples: u64,
}

impl View for SharedAlpha {
    type V = AlphaState;

    closed spec fn view(&self) -> AlphaState {
        AlphaState {
            alpha: self.alpha,
            samples: self.sample_count,
            last: self.last_update_ms,
            min_samples: self.min_samples,
        }
    }
}

/// A counter that goes round at the end of its range.
pub open spec fn counted(n: u64) -> u64 {
    if n == u64::MAX {
        0
    } else {
        (n + 1) as u64
    }
}

impl SharedAlpha {
    /// No alpha yet; so many samples make it warm.
    pub fn new(min_samples: usize) -> (r: SharedAlpha)
        ensures
            r@ == (AlphaState {
                alpha: spec_zero(),
                samples: 0,
                last: 0,
                min_samples: min_samples as u64,
            }),
    {
        SharedAlpha {
            alpha: Num::zero(),
            sample_count: 0,
            last_update_ms: 0,
            min_samples: min_samples as u64,
        }
    }

    /// Stores an alpha as of the given time.
    pub fn update_at(&mut self, alpha: Num, now: u64)
        ensures
            final(self)@ == alpha_updated(old(self)@, alpha, now),
    {
        self.alpha = alpha;
        self.last_update_ms = now;
        self.sample_count = self.sample_count.wrapping_add(1);
    }

    /// Stores a fresh alpha.
    pub fn update(&mut self, alpha: Num)
        ensures
            final(self)@ == alpha_updated(old(self)@, alpha, final(self)@.last),
    {
        self.update_at(alpha, now_ms());
    }

    /// The stored alpha.
    pub fn alpha(&self) -> (r: Num)
        ensures
            r == self@.alpha,
    {
        self.alpha
    }

    /// Samples since the last reset.
    pub fn sample_count(&self) -> (r: u64)
        ensures
            r == self@.samples,
    {
        self.sample_count
    }

    /// Age of the alpha at the given time.
    pub fn age_ms_at(&self, now: u64) -> (r: u64)
        ensures
            r == age_at(self@.last, now),
    {
        age(self.last_update_ms, now)
    }

    /// Age of the alpha now.
    pub fn age_ms(&self) -> (r: u64)
        ensures
            self@.last == 0 ==> r == u64::MAX,
            self@.last != 0 ==> exists|now: u64| r == age_at(self@.last, now),
    {
        let now: u64 = now_ms();
        let r: u64 = self.age_ms_at(now);
        assert(r == age_at(self@.last, now));
        r
    }

    /// Whether enough samples came in.
    pub fn warmed_up(&self) -> (r: bool)
        ensures
            r == (self@.samples >= self@.min_samples),
    {
        self.sample_count >= self.min_samples
    }

    /// Whether the alpha is too old at the given time.
    pub fn is_stale_at(&self, threshold_ms: u64, now: u64) -> (r: bool)
        ensures
            r == stale_at(self@.last, now, threshold_ms),
    {
        self.last_update_ms == 0 || now.saturating_sub(self.last_update_ms) > threshold_ms
    }

    /// Whether the alpha is too old now.
    pub fn is_stale(&self, threshold_ms: u64) -> (r: bool)
        ensures
            self@.last == 0 ==> r,
            exists|now: u64| r == stale_at(self@.last, now, threshold_ms),
    {
        let now: u64 = now_ms();
        let r: bool = self.is_stale_at(threshold_ms, now);
        assert(r == stale_at(self@.last, now, threshold_ms));
        r
    }

    /// Forgets everything, so that the alpha counts as cold and stale until the feed warms up
    /// again.
    pub fn reset(&mut self)
        ensures
            final(self)@ == alpha_reset(old(self)@),
    {
        self.alpha = Num::zero();
        self.last_update_ms = 0;
        self.sample_count = 0;
    }

    /// The alpha to quote with at the given time, where it is warm and fresh.
    pub fn usable_alpha_at(&self, stale_ms: u64, now: u64) -> (r: Option<Num>)
        ensures
            r == usable(self@, stale_ms, now),
    {
        if self.warmed_up() && !self.is_stale_at(stale_ms, now) {
            Some(self.alpha)
        } else {
            None
        }
    }

    /// The alpha to quote with now.
    pub fn usable_alpha(&self, stale_ms: u64) -> (r: Option<Num>)
        ensures
            exists|now: u64| r == usable(self@, stale_ms, now),
    {
        let now: u64 = now_ms();
        let r: Option<Num> = self.usable_alpha_at(stale_ms, now);
        assert(r == usable(self@, stale_ms, now));
        r
    }
}

/// The alpha to quote with.
pub open spec fn usable(s: AlphaState, stale_ms: u64, now: u64) -> Option<Num> {
    if s.samples >= s.min_samples && !stale_at(s.last, now, stale_ms) {
        Some(s.alpha)
    } else {
        None
    }
}

/// Best bid and offer of the reference exchange.
#[derive(Clone, Debug)]
pub struct SharedBbo {
    best_bid: Num,
    best_ask: Num,
    bid_qty: Num,
    ask_qty: Num,
    sample_count: u64,
    last_update_ms: u64,
    min_samples: u64,
}

/// What is known of the best bid and offer.
pub struct BboState {
    pub bid: Num,
    pub ask: Num,
    pub bid_qty: Num,
    pub ask_qty: Num,
    pub samples: u64,
    pub last: u64,
    pub min_samples: u64,
}

impl View for SharedBbo {
    type V = BboState;

    closed spec fn view(&self) -> BboState {
        BboState {
            bid: self.best_bid,
            ask: self.best_ask,
            bid_qty: self.bid_qty,
            ask_qty: self.ask_qty,
            samples: self.sample_count,
            last: self.last_update_ms,
            min_samples: self.min_samples,
        }
    }
}

impl SharedBbo {
    /// Nothing yet; so many samples make it warm.
    pub fn new(min_samples: usize) -> (r: SharedBbo)
        ensures
            r@ == (BboState {
                bid: spec_zero(),
                ask: spec_zero(),
                bid_qty: spec_zero(),
                ask_qty: spec_zero(),
                samples: 0,
                last: 0,
                min_samples: min_samples as u64,
            }),
    {
        SharedBbo {
            best_bid: Num::zero(),
            best_ask: Num::zero(),
            bid_qty: Num::zero(),
            ask_qty: Num::zero(),
            sample_count: 0,
            last_update_ms: 0,
            min_samples: min_samples as u64,
        }
    }

    /// Stores a best bid and offer as of the given time.
    pub fn update_at(&mut self, bid: Num, ask: Num, bid_qty: Num, ask_qty: Num, now: u64)
        ensures
            final(self)@ == bbo_updated(old(self)@, bid, ask, bid_qty, ask_qty, now),
    {
        self.best_bid = bid;
        self.best_ask = ask;
        self.bid_qty = bid_qty;
        self.ask_qty = ask_qty;
        self.last_update_ms = now;
        self.sample_count = self.sample_count.wrapping_add(1);
    }

    /// Stores a fresh best bid and offer.
    pub fn update(&mut self, bid: Num, ask: Num, bid_qty: Num, ask_qty: Num)
        ensures
            final(self)@ == bbo_updated(
                old(self)@,
                bid,
                ask,
                bid_qty,
                ask_qty,
                final(self)@.last,
            ),
    {
        self.update_at(bid, ask, bid_qty, ask_qty, now_ms());
    }

    /// The best bid.
    pub fn best_bid(&self) -> (r: Num)
        ensures
            r == self@.bid,
    {
        self.best_bid
    }

    /// The best ask.
    pub fn best_ask(&self) -> (r: Num)
        ensures
            r == self@.ask,
    {
        self.best_ask
    }

    /// Whether enough samples came in.
    pub fn warmed_up(&self) -> (r: bool)
        ensures
            r == (self@.samples >= self@.min_samples),
    {
        self.sample_count >= self.min_samples
    }

    /// Samples since the last reset.
    pub fn sample_count(&self) -> (r: u64)
        ensures
            r == self@.samples,
    {
        self.sample_count
    }

    /// Age at the given time.
    pub fn age_ms_at(&self, now: u64) -> (r: u64)
        ensures
            r == age_at(self@.last, now),
    {
        age(self.last_update_ms, now)
    }

    /// Age now.
    pub fn age_ms(&self) -> (r: u64)
        ensures
            self@.last == 0 ==> r == u64::MAX,
            self@.last != 0 ==> exists|now: u64| r == age_at(self@.last, now),
    {
        let now: u64 = now_ms();
        let r: u64 = self.age_ms_at(now);
        assert(r == age_at(self@.last, now));
        r
    }

    /// Whether it is too old at the given time.
    pub fn is_stale_at(&self, threshold_ms: u64, now: u64) -> (r: bool)
        ensures
            r == stale_at(self@.last, now, threshold_ms),
    {
        self.last_update_ms == 0 || now.saturating_sub(self.last_update_ms) > threshold_ms
    }

    /// Whether it is too old now.
    pub fn is_stale(&self, threshold_ms: u64) -> (r: bool)
        ensures
            self@.last == 0 ==> r,
            exists|now: u64| r == stale_at(self@.last, now, threshold_ms),
    {
        let now: u64 = now_ms();
        let r: bool = self.is_stale_at(threshold_ms, now);
        assert(r == stale_at(self@.last, now, threshold_ms));
        r
    }

    /// Forgets everything until the feed warms up again.
    pub fn reset(&mut self)
        ensures
            final(self)@ == bbo_reset(old(self)@),
    {
        self.best_bid = Num::zero();
        self.best_ask = Num::zero();
        self.bid_qty = Num::zero();
        self.ask_qty = Num::zero();
        self.last_update_ms = 0;
        self.sample_count = 0;
    }
}

/// Position in base units, negative when short.
#[derive(Clone, Debug)]
pub struct SharedPosition {
    position: Num,
    last_update_ms: u64,
}

/// What is known of the position.
pub struct PositionState {
    pub position: Num,
    pub last: u64,
}

impl View for SharedPosition {
    type V = PositionState;

    closed spec fn view(&self) -> PositionState {
        PositionState { position: self.position, last: self.last_update_ms }
    }
}

impl SharedPosition {
    /// Flat, and never updated.
    pub fn new() -> (r: SharedPosition)
        ensures
            r@ == (PositionState { position: spec_zero(), last: 0 }),
    {
        SharedPosition { position: Num::zero(), last_update_ms: 0 }
    }

    /// Stores a position as of the given time.
    pub fn set_at(&mut self, pos: Num, now: u64)
        ensures
            final(self)@ == (PositionState { position: pos, last: now }),
    {
        self.position = pos;
        self.last_update_ms = now;
    }

    /// Stores a fresh position.
    pub fn set(&mut self, pos: Num)
        ensures
            final(self)@.position == pos,
    {
        self.set_at(pos, now_ms());
    }

    /// The position.
    pub fn get(&self) -> (r: Num)
        ensures
            r == self@.position,
    {
        self.position
    }

    /// Age at the given time.
    pub fn age_ms_at(&self, now: u64) -> (r: u64)
        ensures
            r == age_at(self@.last, now),
    {
        age(self.last_update_ms, now)
    }

    /// Age now.
    pub fn age_ms(&self) -> (r: u64)
        ensures
            self@.last == 0 ==> r == u64::MAX,
            self@.last != 0 ==> exists|now: u64| r == age_at(self@.last, now),
    {
        let now: u64 = now_ms();
        let r: u64 = self.age_ms_at(now);
        assert(r == age_at(self@.last, now));
        r
    }
}

/// A pattern of 64 bits read with a sign.
pub open spec fn signed64(v: u64) -> int {
    if v <= i64::MAX {
        v as int
    } else {
        v - 0x1_0000_0000_0000_0000
    }
}

/// Parameters derived from the capital, the quota, and when market data last came in.
#[derive(Clone, Debug)]
pub struct Derived {
    base_amount: Num,
    max_pos_usd: Num,
    available_capital: Num,
    /// The quota's 64 bits; all ones where it is unknown.
    quota_remaining: u64,
    last_md_ms: u64,
    mid: Num,
}

/// What is known of the derived parameters.
pub struct DerivedState {
    pub base_amount: Num,
    pub max_pos_usd: Num,
    pub capital: Num,
    pub quota: Option<i64>,
    pub last_md: u64,
    pub mid: Num,
}

impl View for Derived {
    type V = DerivedState;

    closed spec fn view(&self) -> DerivedState {
        DerivedState {
            base_amount: self.base_amount,
            max_pos_usd: self.max_pos_usd,
            capital: self.available_capital,
            quota: if self.quota_remaining == u64::MAX {
                None
            } else {
                Some(signed64(self.quota_remaining) as i64)
            },
            last_md: self.last_md_ms,
            mid: self.mid,
        }
    }
}

/// The quota that is read back of one that was stored: minus one and "unknown" share a pattern.
pub open spec fn kept_quota(q: Option<i64>) -> Option<i64> {
    if q == Some((-1) as i64) {
        None
    } else {
        q
    }
}

impl Derived {
    /// Zeros, an unknown quota, and no market data yet.
    pub fn new() -> (r: Derived)
        ensures
            r@ == (DerivedState {
                base_amount: spec_zero(),
                max_pos_usd: spec_zero(),
                capital: spec_zero(),
                quota: None,
                last_md: 0,
                mid: spec_zero(),
            }),
    {
        Derived {
            base_amount: Num::zero(),
            max_pos_usd: Num::zero(),
            available_capital: Num::zero(),
            quota_remaining: 0xFFFF_FFFF_FFFF_FFFF,
            last_md_ms: 0,
            mid: Num::zero(),
        }
    }

    /// Notes that market data came in at the given time.
    pub fn set_md_at(&mut self, now: u64)
        ensures
            final(self)@ == (DerivedState { last_md: now, ..old(self)@ }),
    {
        self.last_md_ms = now;
    }

    /// Notes that market data came in now.
    pub fn set_md_now(&mut self)
        ensures
            final(self)@ == (DerivedState { last_md: final(self)@.last_md, ..old(self)@ }),
    {
        self.set_md_at(now_ms());
    }

    /// Publishes the mid price.
    pub fn set_mid(&mut self, mid: Num)
        ensures
            final(self)@ == (DerivedState { mid, ..old(self)@ }),
    {
        self.mid = mid;
    }

    /// The mid price; zero until the first book.
    pub fn mid(&self) -> (r: Num)
        ensures
            r == self@.mid,
    {
        self.mid
    }

    /// Age of the market data at the given time.
    pub fn md_age_ms_at(&self, now: u64) -> (r: u64)
        ensures
            r == age_at(self@.last_md, now),
    {
        age(self.last_md_ms, now)
    }

    /// Age of the market data now.
    pub fn md_age_ms(&self) -> (r: u64)
        ensures
            self@.last_md == 0 ==> r == u64::MAX,
            self@.last_md != 0 ==> exists|now: u64| r == age_at(self@.last_md, now),
    {
        let now: u64 = now_ms();
        let r: u64 = self.md_age_ms_at(now);
        assert(r == age_at(self@.last_md, now));
        r
    }

    /// Stores the order size.
    pub fn set_base_amount(&mut self, v: Num)
        ensures
            final(self)@ == (DerivedState { base_amount: v, ..old(self)@ }),
    {
        self.base_amount = v;
    }

    /// Stores the position limit.
    pub fn set_max_pos_usd(&mut self, v: Num)
        ensures
            final(self)@ == (DerivedState { max_pos_usd: v, ..old(self)@ }),
    {
        self.max_pos_usd = v;
    }

    /// Stores the available capital.
    pub fn set_capital(&mut self, v: Num)
        ensures
            final(self)@ == (DerivedState { capital: v, ..old(self)@ }),
    {
        self.available_capital = v;
    }

    /// The order size.
    pub fn base_amount(&self) -> (r: Num)
        ensures
            r == self@.base_amount,
    {
        self.base_amount
    }

    /// The position limit.
    pub fn max_pos_usd(&self) -> (r: Num)
        ensures
            r == self@.max_pos_usd,
    {
        self.max_pos_usd
    }

    /// The available capital.
    pub fn capital(&self) -> (r: Num)
        ensures
            r == self@.capital,
    {
        self.available_capital
    }

    /// Stores the volume quota.
    pub fn set_quota(&mut self, q: Option<i64>)
        ensures
            final(self)@ == (DerivedState { quota: kept_quota(q), ..old(self)@ }),
    {
        self.quota_remaining = match q {
            Some(x) => if x >= 0 {
                x as u64
            } else {
                ((x as i128) + 0x1_0000_0000_0000_0000) as u64
            },
            None => 0xFFFF_FFFF_FFFF_FFFF,
        };
    }

    /// The volume quota, where it is known.
    pub fn quota(&self) -> (r: Option<i64>)
        ensures
            r == self@.quota,
    {
        let v: u64 = self.quota_remaining;
        if v == 0xFFFF_FFFF_FFFF_FFFF {
            None
        } else if v <= 0x7FFF_FFFF_FFFF_FFFF {
            Some(v as i64)
        } else {
            Some(((v as i128) - 0x1_0000_0000_0000_0000) as i64)
        }
    }
}

/// An alpha that was reset.
pub open spec fn alpha_reset(s: AlphaState) -> AlphaState {
    AlphaState { alpha: spec_zero(), samples: 0, last: 0, ..s }
}

/// An alpha with one more sample.
pub open spec fn alpha_updated(s: AlphaState, alpha: Num, now: u64) -> AlphaState {
    AlphaState { alpha, samples: counted(s.samples), last: now, ..s }
}

/// An alpha after a number of samples; sample `i` is `feed[i]`, at `times[i]`.
pub open spec fn alpha_fed(
    s: AlphaState,
    feed: Seq<Num>,
    times: Seq<u64>,
    n: nat,
) -> AlphaState
    decreases n,
{
    if n == 0 {
        s
    } else {
        alpha_updated(alpha_fed(s, feed, times, (n - 1) as nat), feed[n - 1], times[n - 1])
    }
}

/// A feed that was reset has no alpha, counts as stale at any time, keeps the number of samples
/// that make it warm, and is warm again exactly after that many: until then nothing is used of
/// it, and from then on the last alpha that came in, while it is fresh. A second reset changes
/// nothing.
pub proof fn reset_feeds_start_over(
    s: AlphaState,
    now: u64,
    stale_ms: u64,
    feed: Seq<Num>,
    times: Seq<u64>,
    n: nat,
)
    requires
        n <= u64::MAX,
    ensures
        ({
            let t = alpha_reset(s);
            let u = alpha_fed(t, feed, times, n);
            &&& t.alpha == spec_zero()
            &&& t.samples == 0
            &&& age_at(t.last, now) == u64::MAX
            &&& stale_at(t.last, now, stale_ms)
            &&& usable(t, stale_ms, now) is None
            &&& alpha_reset(t) == t
            &&& u.samples == n
            &&& u.min_samples == s.min_samples
            &&& n < s.min_samples ==> usable(u, stale_ms, now) is None
            &&& 0 < n && n >= s.min_samples ==> usable(u, stale_ms, now) == if stale_at(
                times[n - 1],
                now,
                stale_ms,
            ) {
                None
            } else {
                Some(feed[n - 1])
            }
        }),
    decreases n,
{
    if n > 0 {
        reset_feeds_start_over(s, now, stale_ms, feed, times, (n - 1) as nat);
    }
}

/// A best bid and offer that was reset.
pub open spec fn bbo_reset(s: BboState) -> BboState {
    BboState {
        bid: spec_zero(),
        ask: spec_zero(),
        bid_qty: spec_zero(),
        ask_qty: spec_zero(),
        samples: 0,
        last: 0,
        ..s
    }
}

/// A best bid and offer with one more sample.
pub open spec fn bbo_updated(
    s: BboState,
    bid: Num,
    ask: Num,
    bid_qty: Num,
    ask_qty: Num,
    now: u64,
) -> BboState {
    BboState { bid, ask, bid_qty, ask_qty, samples: counted(s.samples), last: now, ..s }
}

/// A best bid and offer after a number of samples; sample `i` is `feed[i]`, at `times[i]`.
pub open spec fn bbo_fed(
    s: BboState,
    feed: Seq<(Num, Num, Num, Num)>,
    times: Seq<u64>,
    n: nat,
) -> BboState
    decreases n,
{
    if n == 0 {
        s
    } else {
        let q = feed[n - 1];
        bbo_updated(bbo_fed(s, feed, times, (n - 1) as nat), q.0, q.1, q.2, q.3, times[n - 1])
    }
}

/// A feed that was reset has no prices, counts as stale at any time, keeps the number of samples
/// that make it warm, and is warm again exactly after that many. A second reset changes nothing.
pub proof fn reset_quotes_start_over(
    s: BboState,
    now: u64,
    threshold_ms: u64,
    feed: Seq<(Num, Num, Num, Num)>,
    times: Seq<u64>,
    n: nat,
)
    requires
        n <= u64::MAX,
    ensures
        ({
            let t = bbo_reset(s);
            &&& t.bid == spec_zero() && t.ask == spec_zero()
            &&& t.samples == 0
            &&& age_at(t.last, now) == u64::MAX
            &&& stale_at(t.last, now, threshold_ms)
            &&& t.min_samples == s.min_samples
            &&& bbo_fed(t, feed, times, n).samples == n
            &&& bbo_fed(t, feed, times, n).min_samples == s.min_samples
            &&& bbo_reset(t) == t
        }),
    decreases n,
{
    if n > 0 {
        reset_quotes_start_over(s, now, threshold_ms, feed, times, (n - 1) as nat);
    }
}

/// A stored alpha is used exactly while the feed is warm and the alpha no older than allowed.
pub proof fn fresh_alpha_is_used(s: AlphaState, alpha: Num, at: u64, stale_ms: u64, now: u64)
    requires
        0 < at <= now,
        s.samples < u64::MAX,
    ensures
        ({
            let t = alpha_updated(s, alpha, at);
            usable(t, stale_ms, now) == if s.samples + 1 >= s.min_samples && now - at <= stale_ms {
                Some(alpha)
            } else {
                None
            }
        }),
{
}

/// A quota that was stored is read back, unless it is minus one.
pub proof fn quota_reads_back(q: Option<i64>)
    requires
        q != Some((-1) as i64),
    ensures
        kept_quota(q) == q,
{
}

/// Age is the time since the last update: none where that lies ahead, and without end where there was
/// none. Something is stale exactly where it was never updated, or longer ago than allowed.
pub proof fn age_runs_from_the_last_update(last: u64, now: u64, threshold_ms: u64)
    ensures
        0 < last <= now ==> age_at(last, now) == now - last,
        now < last ==> age_at(last, now) == 0,
        last == 0 ==> age_at(last, now) == u64::MAX && stale_at(last, now, threshold_ms),
        last > 0 ==> (stale_at(last, now, threshold_ms) <==> now > last + threshold_ms),
{
}

/// What was stored is what is there: a sample counts once, with its values and its time, and the
/// number of samples that make it warm stays.
pub proof fn samples_are_stored(
    s: AlphaState,
    q: BboState,
    alpha: Num,
    bid: Num,
    ask: Num,
    bid_qty: Num,
    ask_qty: Num,
    now: u64,
)
    requires
        s.samples < u64::MAX,
        q.samples < u64::MAX,
    ensures
        ({
            let t = alpha_updated(s, alpha, now);
            &&& t.alpha == alpha && t.last == now && t.samples == s.samples + 1 && t.min_samples
                == s.min_samples
        }),
        ({
            let u = bbo_updated(q, bid, ask, bid_qty, ask_qty, now);
            &&& u.bid == bid && u.ask == ask && u.bid_qty == bid_qty && u.ask_qty == ask_qty
            &&& u.last == now && u.samples == q.samples + 1 && u.min_samples == q.min_samples
        }),
        ({
            let v = bbo_reset(q);
            &&& v.bid == spec_zero() && v.ask == spec_zero() && v.bid_qty == spec_zero()
                && v.ask_qty == spec_zero()
            &&& v.last == 0 && v.samples == 0 && v.min_samples == q.min_samples
        }),
        counted(u64::MAX) == 0,
        kept_quota(Some((-1) as i64)) is None,
        kept_quota(None) is None,
{
}

/// A reading of the clock is its milliseconds while they fit in 64 bits; a clock before the epoch
/// reads zero.
pub proof fn readings_are_milliseconds(m: u128)
    ensures
        m <= u64::MAX ==> clocked(Some(m)) == m,
        clocked(None) == 0,
{
}

} // verus!
