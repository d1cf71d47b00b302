//! Book of the reference exchange and the window of its imbalances.
use vstd::prelude::*;
use crate::book::local_book::{arranged, changed, priced, LocalBook};
use crate::lighter::messages::PriceLevel;
use crate::num::{spec_zero, Num};
use crate::shared::{counted, AlphaState, SharedAlpha};
use crate::strategy::rolling::{no_moments, pushed, Moments, RollingStats};

verus! {

/// What is known of the reference book.
pub struct Depth {
    pub bids: Seq<PriceLevel>,
    pub asks: Seq<PriceLevel>,
    pub imbalances: Seq<Num>,
    pub moments: Moments,
    pub window: nat,
    pub last_update_id: i64,
    pub prev_u: i64,
}

/// The book after a snapshot.
pub open spec fn with_snapshot(
    s: Depth,
    bids: Seq<PriceLevel>,
    asks: Seq<PriceLevel>,
    id: i64,
) -> Depth {
    Depth { bids: arranged(bids), asks: arranged(asks), last_update_id: id, prev_u: 0, ..s }
}

/// The book after a change.
pub open spec fn with_diff(s: Depth, bids: Seq<PriceLevel>, asks: Seq<PriceLevel>, u: i64) -> Depth {
    Depth {
        bids: changed(s.bids, bids, bids.len()),
        asks: changed(s.asks, asks, asks.len()),
        prev_u: u,
        ..s
    }
}

/// Nothing known.
pub open spec fn blank(s: Depth) -> Depth {
    Depth {
        bids: Seq::empty(),
        asks: Seq::empty(),
        imbalances: Seq::empty(),
        moments: no_moments(),
        last_update_id: 0,
        prev_u: 0,
        ..s
    }
}

/// Whether the book is fit for an alpha: two-sided, not crossed, with a positive finite mid.
pub open spec fn fit(s: Depth, mid: Num) -> bool {
    &&& s.bids.len() > 0
    &&& s.asks.len() > 0
    &&& mid.finite()
    &&& !mid.at_most(spec_zero())
    &&& !s.asks[0].price.at_most(s.bids.last().price)
}

/// Book of the reference exchange.
#[derive(Debug)]
pub struct BinanceObi {
    book: LocalBook,
    imb_stats: RollingStats,
    window: usize,
    last_update_id: i64,
    prev_u: i64,
}

impl View for BinanceObi {
    type V = Depth;

    closed spec fn view(&self) -> Depth {
        Depth {
            bids: self.book.bids@,
            asks: self.book.asks@,
            imbalances: self.imb_stats.window(),
            moments: self.imb_stats.spec_moments(),
            window: self.window as nat,
            last_update_id: self.last_update_id,
            prev_u: self.prev_u,
        }
    }
}

impl BinanceObi {
    /// Book and window are well-formed.
    pub closed spec fn wf(&self) -> bool {
        &&& self.book.wf()
        &&& self.imb_stats.wf()
        &&& self.imb_stats.spec_capacity() == self.window
    }

    /// An empty book, with a window of so many imbalances.
    pub fn new(window: usize) -> (r: BinanceObi)
        requires
            window > 0,
        ensures
            r.wf(),
            r@ == blank(r@),
            r@.window == window,
    {
        let r: BinanceObi = BinanceObi {
            book: LocalBook::new(),
            imb_stats: RollingStats::new(window),
            window,
            last_update_id: 0,
            prev_u: 0,
        };
        proof {
            assert(r@.bids =~= Seq::empty());
            assert(r@.asks =~= Seq::empty());
        }
        r
    }

    /// Forgets the book, the window and the published alpha.
    pub fn reset(&mut self, shared: &mut SharedAlpha)
        requires
            old(self).wf(),
        ensures
            final(self).wf(),
            final(self)@ == blank(old(self)@),
            final(shared)@ == (AlphaState {
                alpha: spec_zero(),
                samples: 0,
                last: 0,
                ..old(shared)@
            }),
    {
        self.book.reset();
        self.imb_stats.clear();
        self.last_update_id = 0;
        self.prev_u = 0;
        shared.reset();
        proof {
            assert(self@.bids =~= Seq::empty());
            assert(self@.asks =~= Seq::empty());
        }
    }

    /// The update id of the last snapshot.
    pub fn last_update_id(&self) -> (r: i64)
        ensures
            r == self@.last_update_id,
    {
        self.last_update_id
    }

    /// The last id of the last change.
    pub fn prev_u(&self) -> (r: i64)
        ensures
            r == self@.prev_u,
    {
        self.prev_u
    }

    /// Best bid and ask.
    pub fn touch(&self) -> (r: Option<(Num, Num)>)
        ensures
            r == if self@.bids.len() > 0 && self@.asks.len() > 0 {
                Some((self@.bids.last().price, self@.asks[0].price))
            } else {
                None
            },
    {
        self.book.touch()
    }

    /// The book.
    pub fn book(&self) -> (r: &LocalBook)
        requires
            self.wf(),
        ensures
            r.wf(),
            r.bids@ == self@.bids,
            r.asks@ == self@.asks,
    {
        &self.book
    }

    /// What the next imbalance is worked into: the moments of the window, how many imbalances are
    /// in it, and the one that leaves it.
    pub fn imbalance_window(&self) -> (r: (Moments, usize, Option<Num>))
        requires
            self.wf(),
        ensures
            r.0 == self@.moments,
            r.1 == self@.imbalances.len(),
            r.2 == if self@.imbalances.len() < self@.window {
                None
            } else {
                Some(self@.imbalances[0])
            },
    {
        (self.imb_stats.moments(), self.imb_stats.count(), self.imb_stats.leaving())
    }

    /// Takes a snapshot.
    pub fn apply_snapshot(
        &mut self,
        bids: &Vec<PriceLevel>,
        asks: &Vec<PriceLevel>,
        last_update_id: i64,
    )
        requires
            old(self).wf(),
            priced(bids@),
            priced(asks@),
        ensures
            final(self).wf(),
            final(self)@ == with_snapshot(old(self)@, bids@, asks@, last_update_id),
    {
        self.book.apply_snapshot(bids, asks);
        self.last_update_id = last_update_id;
        self.prev_u = 0;
    }

    /// Takes a change, whose last id is `u`.
    pub fn apply_diff(&mut self, bids: &Vec<PriceLevel>, asks: &Vec<PriceLevel>, u: i64)
        requires
            old(self).wf(),
            priced(bids@),
            priced(asks@),
        ensures
            final(self).wf(),
            final(self)@ == with_diff(old(self)@, bids@, asks@, u),
    {
        self.book.apply_delta(bids, asks);
        self.prev_u = u;
    }

    /// Pushes an imbalance and publishes its score, where the book is fit for it. Whether it was.
    pub fn update_alpha(
        &mut self,
        shared: &mut SharedAlpha,
        mid: Num,
        imbalance: Num,
        moments: Moments,
        alpha: Num,
        now_ms: u64,
    ) -> (r: bool)
        requires
            old(self).wf(),
        ensures
            final(self).wf(),
            r == fit(old(self)@, mid),
            final(self)@ == if r {
                Depth {
                    imbalances: pushed(old(self)@.imbalances, old(self)@.window, imbalance),
                    moments,
                    ..old(self)@
                }
            } else {
                old(self)@
            },
            final(shared)@ == if r {
                AlphaState {
                    alpha,
                    samples: counted(old(shared)@.samples),
                    last: now_ms,
                    ..old(shared)@
                }
            } else {
                old(shared)@
            },
    {
        let (bid, ask): (Num, Num) = match self.book.touch() {
            Some(t) => t,
            None => {
                return false;
            },
        };
        if !mid.is_finite() || mid.le(Num::zero()) || ask.le(bid) {
            return false;
        }
        self.imb_stats.push(imbalance, moments);
        shared.update_at(alpha, now_ms);
        true
    }
}

/// A snapshot replaces both sides by its own and brings its update id, with no change after it yet;
/// a change is made on both sides, each by its own levels, and is the last one from then on. Neither
/// touches the window of imbalances. What is blank holds nothing, and keeps the size of its window.
pub proof fn books_follow_snapshots_and_changes(
    s: Depth,
    bids: Seq<PriceLevel>,
    asks: Seq<PriceLevel>,
    id: i64,
)
    ensures
        ({
            let a = with_snapshot(s, bids, asks, id);
            let b = with_diff(s, bids, asks, id);
            let c = blank(s);
            &&& a.bids == arranged(bids) && a.asks == arranged(asks) && a.last_update_id == id
                && a.prev_u == 0
            &&& b.bids == changed(s.bids, bids, bids.len()) && b.asks == changed(
                s.asks,
                asks,
                asks.len(),
            ) && b.last_update_id == s.last_update_id && b.prev_u == id
            &&& a.imbalances == s.imbalances && a.moments == s.moments && a.window == s.window
            &&& b.imbalances == s.imbalances && b.moments == s.moments && b.window == s.window
            &&& c.bids.len() == 0 && c.asks.len() == 0 && c.imbalances.len() == 0
                && c.last_update_id == 0 && c.prev_u == 0 && c.window == s.window
            &&& c.moments.sum.bits == 0 && c.moments.m2.bits == 0 && c.moments.mean.bits == 0
                && c.moments.std_dev.bits == 0
        }),
{
}

/// A book is fit for an alpha exactly where both sides quote, its best ask lies above its best bid,
/// and the mid price is a finite number above zero.
pub proof fn fit_books_are_two_sided(s: Depth, mid: Num)
    requires
        priced(s.bids),
        priced(s.asks),
    ensures
        fit(s, mid) <==> s.bids.len() > 0 && s.asks.len() > 0 && s.bids[s.bids.len() - 1].price.rank()
            < s.asks[0].price.rank() && mid.finite() && mid.rank() > 0,
{
    if s.bids.len() > 0 && s.asks.len() > 0 {
        assert(!s.bids[s.bids.len() - 1].price.nan());
        assert(!s.asks[0].price.nan());
    }
}

} // verus!
