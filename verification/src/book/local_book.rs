//! Local order book: the levels of each side in ascending order of price.
//!
//! The best bid is the last level of its side, the best ask the first of its own.
use vstd::prelude::*;
use crate::lighter::messages::PriceLevel;
use crate::num::Num;

verus! {

/// Whether every price is a number, so that the levels can be ordered.
pub open spec fn priced(levels: Seq<PriceLevel>) -> bool {
    forall|i: int| 0 <= i < levels.len() ==> !(#[trigger] levels[i]).price.nan()
}

/// Whether prices never fall along the levels.
pub open spec fn sorted(levels: Seq<PriceLevel>) -> bool {
    forall|i: int, j: int|
        0 <= i <= j < levels.len() ==> (#[trigger] levels[i]).price.rank() <= (
        #[trigger] levels[j]).price.rank()
}

/// How many levels at the front are below a price.
pub open spec fn below_count(levels: Seq<PriceLevel>, price: Num) -> nat
    decreases levels.len(),
{
    if levels.len() > 0 && levels[0].price.below(price) {
        1 + below_count(levels.drop_first(), price)
    } else {
        0
    }
}

/// How many levels at the front are at a price or below it.
pub open spec fn up_to_count(levels: Seq<PriceLevel>, price: Num) -> nat
    decreases levels.len(),
{
    if levels.len() > 0 && levels[0].price.at_most(price) {
        1 + up_to_count(levels.drop_first(), price)
    } else {
        0
    }
}

/// The levels after one of them was set: a size of zero takes the level at that price away, any
/// other size replaces the level's or makes a new level.
pub open spec fn upserted(levels: Seq<PriceLevel>, price: Num, size: Num) -> Seq<PriceLevel> {
    let at = below_count(levels, price) as int;
    if at < levels.len() && levels[at].price.same(price) {
        if size.rank() == 0 {
            levels.remove(at)
        } else {
            levels.update(at, PriceLevel { price: levels[at].price, size })
        }
    } else if size.rank() != 0 {
        levels.insert(at, PriceLevel { price, size })
    } else {
        levels
    }
}

/// The levels after the first `n` changes were made in turn.
pub open spec fn changed(
    levels: Seq<PriceLevel>,
    changes: Seq<PriceLevel>,
    n: nat,
) -> Seq<PriceLevel>
    decreases n,
{
    if n == 0 {
        levels
    } else {
        upserted(
            changed(levels, changes, (n - 1) as nat),
            changes[n - 1].price,
            changes[n - 1].size,
        )
    }
}

/// The levels of a snapshot in order of price, without those of size zero. Levels of one price
/// stay in the order in which they came.
pub open spec fn arranged(levels: Seq<PriceLevel>) -> Seq<PriceLevel>
    decreases levels.len(),
{
    if levels.len() == 0 {
        Seq::empty()
    } else {
        let rest = arranged(levels.drop_last());
        let last = levels.last();
        if last.size.rank() == 0 {
            rest
        } else {
            rest.insert(up_to_count(rest, last.price) as int, last)
        }
    }
}

proof fn lemma_below_count(levels: Seq<PriceLevel>, price: Num)
    requires
        sorted(levels),
        priced(levels),
        !price.nan(),
    ensures
        below_count(levels, price) <= levels.len(),
        forall|i: int|
            0 <= i < levels.len() ==> ((#[trigger] levels[i]).price.below(price) <==> i
                < below_count(levels, price)),
    decreases levels.len(),
{
    if levels.len() > 0 && levels[0].price.below(price) {
        let rest = levels.drop_first();
        assert(sorted(rest)) by {
            assert forall|i: int, j: int| 0 <= i <= j < rest.len() implies (
            #[trigger] rest[i]).price.rank() <= (#[trigger] rest[j]).price.rank() by {
                assert(rest[i] == levels[i + 1] && rest[j] == levels[j + 1]);
            }
        }
        assert(priced(rest)) by {
            assert forall|i: int| 0 <= i < rest.len() implies !(#[trigger] rest[i]).price.nan() by {
                assert(rest[i] == levels[i + 1]);
            }
        }
        lemma_below_count(rest, price);
        assert forall|i: int| 0 <= i < levels.len() implies ((#[trigger] levels[i]).price.below(
            price,
        ) <==> i < below_count(levels, price)) by {
            if i > 0 {
                assert(levels[i] == rest[i - 1]);
            }
        }
    } else if levels.len() > 0 {
        assert forall|i: int| 0 <= i < levels.len() implies !(#[trigger] levels[i]).price.below(
            price,
        ) by {
            assert(levels[0].price.rank() <= levels[i].price.rank());
        }
    }
}

proof fn lemma_up_to_count(levels: Seq<PriceLevel>, price: Num)
    requires
        sorted(levels),
        priced(levels),
        !price.nan(),
    ensures
        up_to_count(levels, price) <= levels.len(),
        forall|i: int|
            0 <= i < levels.len() ==> ((#[trigger] levels[i]).price.at_most(price) <==> i
                < up_to_count(levels, price)),
    decreases levels.len(),
{
    if levels.len() > 0 && levels[0].price.at_most(price) {
        let rest = levels.drop_first();
        assert(sorted(rest)) by {
            assert forall|i: int, j: int| 0 <= i <= j < rest.len() implies (
            #[trigger] rest[i]).price.rank() <= (#[trigger] rest[j]).price.rank() by {
                assert(rest[i] == levels[i + 1] && rest[j] == levels[j + 1]);
            }
        }
        assert(priced(rest)) by {
            assert forall|i: int| 0 <= i < rest.len() implies !(#[trigger] rest[i]).price.nan() by {
                assert(rest[i] == levels[i + 1]);
            }
        }
        lemma_up_to_count(rest, price);
        assert forall|i: int| 0 <= i < levels.len() implies ((#[trigger] levels[i]).price.at_most(
            price,
        ) <==> i < up_to_count(levels, price)) by {
            if i > 0 {
                assert(levels[i] == rest[i - 1]);
            }
        }
    } else if levels.len() > 0 {
        assert forall|i: int| 0 <= i < levels.len() implies !(#[trigger] levels[i]).price.at_most(
            price,
        ) by {
            assert(levels[0].price.rank() <= levels[i].price.rank());
        }
    }
}

/// One side of a book.
#[derive(Debug)]
pub struct BookSide {
    levels: Vec<PriceLevel>,
}

impl View for BookSide {
    type V = Seq<PriceLevel>;

    closed spec fn view(&self) -> Seq<PriceLevel> {
        self.levels@
    }
}

impl BookSide {
    /// Every price is a number, prices ascend, and no level is empty.
    pub open spec fn wf(&self) -> bool {
        &&& priced(self@)
        &&& sorted(self@)
        &&& forall|i: int| 0 <= i < self@.len() ==> (#[trigger] self@[i]).size.rank() != 0
    }

    /// An empty side.
    pub fn new() -> (r: BookSide)
        ensures
            r.wf(),
            r@ == Seq::<PriceLevel>::empty(),
    {
        BookSide { levels: Vec::new() }
    }

    /// Number of levels.
    pub fn len(&self) -> (r: usize)
        ensures
            r == self@.len(),
    {
        self.levels.len()
    }

    /// Whether there is no level.
    pub fn is_empty(&self) -> (r: bool)
        ensures
            r == (self@.len() == 0),
    {
        self.levels.len() == 0
    }

    /// Takes every level away.
    pub fn clear(&mut self)
        ensures
            final(self).wf(),
            final(self)@ == Seq::<PriceLevel>::empty(),
    {
        self.levels.clear();
    }

    /// The level at an index.
    pub fn level(&self, i: usize) -> (r: PriceLevel)
        requires
            i < self@.len(),
        ensures
            r == self@[i as int],
    {
        self.levels[i]
    }

    /// Index of the first level at a price or above it.
    pub fn bisect_left(&self, price: Num) -> (r: usize)
        requires
            self.wf(),
            !price.nan(),
        ensures
            r == below_count(self@, price),
            r <= self@.len(),
    {
        proof {
            lemma_below_count(self@, price);
        }
        let ghost count = below_count(self@, price);
        let mut lo: usize = 0;
        let mut hi: usize = self.levels.len();
        while lo < hi
            invariant
                lo <= count <= hi <= self@.len(),
                forall|i: int|
                    0 <= i < self@.len() ==> ((#[trigger] self@[i]).price.below(price) <==> i
                        < count),
            decreases hi - lo,
        {
            let mid: usize = lo + (hi - lo) / 2;
            assert(self@[mid as int] == self.levels@[mid as int]);
            if self.levels[mid].price.lt(price) {
                lo = mid + 1;
            } else {
                hi = mid;
            }
        }
        lo
    }

    /// Index of the first level above a price.
    pub fn bisect_right(&self, price: Num) -> (r: usize)
        requires
            self.wf(),
            !price.nan(),
        ensures
            r == up_to_count(self@, price),
            r <= self@.len(),
    {
        proof {
            lemma_up_to_count(self@, price);
        }
        let ghost count = up_to_count(self@, price);
        let mut lo: usize = 0;
        let mut hi: usize = self.levels.len();
        while lo < hi
            invariant
                lo <= count <= hi <= self@.len(),
                forall|i: int|
                    0 <= i < self@.len() ==> ((#[trigger] self@[i]).price.at_most(price) <==> i
                        < count),
            decreases hi - lo,
        {
            let mid: usize = lo + (hi - lo) / 2;
            assert(self@[mid as int] == self.levels@[mid as int]);
            if self.levels[mid].price.le(price) {
                lo = mid + 1;
            } else {
                hi = mid;
            }
        }
        lo
    }

    /// Sets the level at a price, or takes it away where the size is zero.
    pub fn upsert(&mut self, price: Num, size: Num)
        requires
            old(self).wf(),
            !price.nan(),
        ensures
            final(self).wf(),
            final(self)@ == upserted(old(self)@, price, size),
    {
        let at: usize = self.bisect_left(price);
        proof {
            upsert_keeps_order(self@, price, size);
        }
        if at < self.levels.len() && self.levels[at].price.equals(price) {
            if size.is_zero() {
                let _ = self.levels.remove(at);
            } else {
                let kept: Num = self.levels[at].price;
                self.levels.set(at, PriceLevel { price: kept, size });
            }
        } else if !size.is_zero() {
            self.levels.insert(at, PriceLevel { price, size });
        }
    }

    /// The level with the lowest price.
    pub fn lowest(&self) -> (r: Option<PriceLevel>)
        ensures
            r == if self@.len() == 0 {
                None
            } else {
                Some(self@[0])
            },
    {
        if self.levels.len() == 0 {
            None
        } else {
            Some(self.levels[0])
        }
    }

    /// The level with the highest price.
    pub fn highest(&self) -> (r: Option<PriceLevel>)
        ensures
            r == if self@.len() == 0 {
                None
            } else {
                Some(self@.last())
            },
    {
        let n: usize = self.levels.len();
        if n == 0 {
            None
        } else {
            Some(self.levels[n - 1])
        }
    }

    /// Sizes of the levels at a price or above it, in order of price.
    pub fn sizes_from(&self, min_price: Num) -> (r: Vec<Num>)
        requires
            self.wf(),
            !min_price.nan(),
        ensures
            r@ == self@.skip(below_count(self@, min_price) as int).map_values(
                |l: PriceLevel| l.size,
            ),
    {
        let start: usize = self.bisect_left(min_price);
        let r: Vec<Num> = self.sizes_between(start, self.levels.len());
        proof {
            assert(r@ =~= self@.skip(start as int).map_values(|l: PriceLevel| l.size));
        }
        r
    }

    /// Sizes of the levels at a price or below it, in order of price.
    pub fn sizes_to(&self, max_price: Num) -> (r: Vec<Num>)
        requires
            self.wf(),
            !max_price.nan(),
        ensures
            r@ == self@.take(up_to_count(self@, max_price) as int).map_values(
                |l: PriceLevel| l.size,
            ),
    {
        let end: usize = self.bisect_right(max_price);
        let r: Vec<Num> = self.sizes_between(0, end);
        proof {
            assert(r@ =~= self@.take(end as int).map_values(|l: PriceLevel| l.size));
        }
        r
    }

    /// Sizes of the levels from one index to another.
    fn sizes_between(&self, start: usize, end: usize) -> (r: Vec<Num>)
        requires
            start <= end <= self@.len(),
        ensures
            r@.len() == end - start,
            forall|i: int| 0 <= i < r@.len() ==> #[trigger] r@[i] == self@[start + i].size,
    {
        let mut out: Vec<Num> = Vec::new();
        let mut i: usize = start;
        while i < end
            invariant
                start <= i <= end <= self@.len(),
                out@.len() == i - start,
                forall|k: int| 0 <= k < out@.len() ==> #[trigger] out@[k] == self@[start + k].size,
            decreases end - i,
        {
            out.push(self.levels[i].size);
            i = i + 1;
        }
        out
    }

    /// Replaces the side by a snapshot: levels of size zero are dropped, the others put in order.
    pub fn apply_snapshot(&mut self, levels: &Vec<PriceLevel>)
        requires
            priced(levels@),
        ensures
            final(self).wf(),
            final(self)@ == arranged(levels@),
    {
        self.levels.clear();
        let mut i: usize = 0;
        proof {
            assert(levels@.take(0) =~= Seq::empty());
        }
        while i < levels.len()
            invariant
                self.wf(),
                priced(levels@),
                i <= levels@.len(),
                self@ == arranged(levels@.take(i as int)),
            decreases levels@.len() - i,
        {
            let l: PriceLevel = levels[i];
            proof {
                assert(levels@.take(i + 1).drop_last() =~= levels@.take(i as int));
                assert(!levels@[i as int].price.nan());
            }
            if !l.size.is_zero() {
                let at: usize = self.bisect_right(l.price);
                proof {
                    lemma_insert_sorted(self@, l);
                }
                self.levels.insert(at, l);
            }
            i = i + 1;
        }
        proof {
            assert(levels@.take(levels@.len() as int) =~= levels@);
        }
    }
}

proof fn lemma_insert_sorted(levels: Seq<PriceLevel>, l: PriceLevel)
    requires
        sorted(levels),
        priced(levels),
        !l.price.nan(),
    ensures
        up_to_count(levels, l.price) <= levels.len(),
        sorted(levels.insert(up_to_count(levels, l.price) as int, l)),
        priced(levels.insert(up_to_count(levels, l.price) as int, l)),
        l.size.rank() != 0 && (forall|i: int|
            0 <= i < levels.len() ==> (#[trigger] levels[i]).size.rank() != 0) ==> forall|i: int|
            0 <= i < levels.len() + 1 ==> (#[trigger] levels.insert(
                up_to_count(levels, l.price) as int,
                l,
            )[i]).size.rank() != 0,
{
    lemma_up_to_count(levels, l.price);
    let at = up_to_count(levels, l.price) as int;
    lemma_insert_at(levels, l, at);
}

proof fn lemma_insert_at(levels: Seq<PriceLevel>, l: PriceLevel, at: int)
    requires
        sorted(levels),
        priced(levels),
        !l.price.nan(),
        0 <= at <= levels.len(),
        forall|i: int| 0 <= i < at ==> (#[trigger] levels[i]).price.rank() <= l.price.rank(),
        forall|i: int|
            at <= i < levels.len() ==> l.price.rank() <= (#[trigger] levels[i]).price.rank(),
    ensures
        sorted(levels.insert(at, l)),
        priced(levels.insert(at, l)),
        forall|i: int|
            0 <= i < levels.len() + 1 ==> #[trigger] levels.insert(at, l)[i] == if i < at {
                levels[i]
            } else if i == at {
                l
            } else {
                levels[i - 1]
            },
{
    let t = levels.insert(at, l);
    assert forall|i: int, j: int| 0 <= i <= j < t.len() implies (#[trigger] t[i]).price.rank() <= (
    #[trigger] t[j]).price.rank() by {
        let a = if i < at {
            levels[i]
        } else if i == at {
            l
        } else {
            levels[i - 1]
        };
        let b = if j < at {
            levels[j]
        } else if j == at {
            l
        } else {
            levels[j - 1]
        };
        assert(t[i] == a && t[j] == b);
    }
}

/// Setting a level keeps the side in order and free of empty levels.
pub proof fn upsert_keeps_order(levels: Seq<PriceLevel>, price: Num, size: Num)
    requires
        sorted(levels),
        priced(levels),
        !price.nan(),
        forall|i: int| 0 <= i < levels.len() ==> (#[trigger] levels[i]).size.rank() != 0,
    ensures
        below_count(levels, price) <= levels.len(),
        sorted(upserted(levels, price, size)),
        priced(upserted(levels, price, size)),
        forall|i: int|
            0 <= i < upserted(levels, price, size).len() ==> (#[trigger] upserted(
                levels,
                price,
                size,
            )[i]).size.rank() != 0,
{
    lemma_below_count(levels, price);
    let at = below_count(levels, price) as int;
    let t = upserted(levels, price, size);
    if at < levels.len() && levels[at].price.same(price) {
        if size.rank() == 0 {
            assert forall|i: int, j: int| 0 <= i <= j < t.len() implies (
            #[trigger] t[i]).price.rank() <= (#[trigger] t[j]).price.rank() by {
                assert(t[i] == levels[if i < at { i } else { i + 1 }]);
                assert(t[j] == levels[if j < at { j } else { j + 1 }]);
            }
            assert forall|i: int| 0 <= i < t.len() implies !(#[trigger] t[i]).price.nan()
                && t[i].size.rank() != 0 by {
                assert(t[i] == levels[if i < at { i } else { i + 1 }]);
            }
        } else {
            assert forall|i: int, j: int| 0 <= i <= j < t.len() implies (
            #[trigger] t[i]).price.rank() <= (#[trigger] t[j]).price.rank() by {
                assert(t[i].price == levels[i].price);
                assert(t[j].price == levels[j].price);
            }
            assert forall|i: int| 0 <= i < t.len() implies !(#[trigger] t[i]).price.nan()
                && t[i].size.rank() != 0 by {
                assert(t[i].price == levels[i].price);
            }
        }
    } else if size.rank() != 0 {
        lemma_insert_at(levels, PriceLevel { price, size }, at);
    }
}

/// Two-sided book with the sequence numbers of its last update.
#[derive(Debug)]
pub struct LocalBook {
    pub bids: BookSide,
    pub asks: BookSide,
    pub initialized: bool,
    pub last_offset: Option<u64>,
    pub last_nonce: Option<i64>,
}

impl LocalBook {
    /// Both sides are in order.
    pub open spec fn wf(&self) -> bool {
        self.bids.wf() && self.asks.wf()
    }

    /// Whether nothing was ever applied.
    pub open spec fn blank(&self) -> bool {
        &&& self.bids@.len() == 0
        &&& self.asks@.len() == 0
        &&& !self.initialized
        &&& self.last_offset is None
        &&& self.last_nonce is None
    }

    /// An empty book.
    pub fn new() -> (r: LocalBook)
        ensures
            r.wf(),
            r.blank(),
    {
        LocalBook {
            bids: BookSide::new(),
            asks: BookSide::new(),
            initialized: false,
            last_offset: None,
            last_nonce: None,
        }
    }

    /// Forgets everything.
    pub fn reset(&mut self)
        ensures
            final(self).wf(),
            final(self).blank(),
    {
        self.bids.clear();
        self.asks.clear();
        self.initialized = false;
        self.last_offset = None;
        self.last_nonce = None;
    }

    /// The highest bid.
    pub open spec fn spec_best_bid(&self) -> Option<Num> {
        if self.bids@.len() == 0 {
            None
        } else {
            Some(self.bids@.last().price)
        }
    }

    /// The lowest ask.
    pub open spec fn spec_best_ask(&self) -> Option<Num> {
        if self.asks@.len() == 0 {
            None
        } else {
            Some(self.asks@[0].price)
        }
    }

    /// The highest bid.
    pub fn best_bid(&self) -> (r: Option<Num>)
        ensures
            r == self.spec_best_bid(),
    {
        match self.bids.highest() {
            Some(l) => Some(l.price),
            None => None,
        }
    }

    /// The lowest ask.
    pub fn best_ask(&self) -> (r: Option<Num>)
        ensures
            r == self.spec_best_ask(),
    {
        match self.asks.lowest() {
            Some(l) => Some(l.price),
            None => None,
        }
    }

    /// Best bid and ask, whose mean is the mid price; `None` where the book is one-sided.
    pub fn touch(&self) -> (r: Option<(Num, Num)>)
        ensures
            r == match (self.spec_best_bid(), self.spec_best_ask()) {
                (Some(b), Some(a)) => Some((b, a)),
                _ => None,
            },
    {
        match (self.best_bid(), self.best_ask()) {
            (Some(b), Some(a)) => Some((b, a)),
            _ => None,
        }
    }

    /// Replaces both sides by a snapshot.
    pub fn apply_snapshot(&mut self, bids: &Vec<PriceLevel>, asks: &Vec<PriceLevel>)
        requires
            priced(bids@),
            priced(asks@),
        ensures
            final(self).wf(),
            final(self).bids@ == arranged(bids@),
            final(self).asks@ == arranged(asks@),
            final(self).initialized,
            final(self).last_offset == old(self).last_offset,
            final(self).last_nonce == old(self).last_nonce,
    {
        self.bids.apply_snapshot(bids);
        self.asks.apply_snapshot(asks);
        self.initialized = true;
    }

    /// Sets the given levels, in turn.
    pub fn apply_delta(&mut self, bids: &Vec<PriceLevel>, asks: &Vec<PriceLevel>)
        requires
            old(self).wf(),
            priced(bids@),
            priced(asks@),
        ensures
            final(self).wf(),
            final(self).bids@ == changed(old(self).bids@, bids@, bids@.len()),
            final(self).asks@ == changed(old(self).asks@, asks@, asks@.len()),
            final(self).initialized == old(self).initialized,
            final(self).last_offset == old(self).last_offset,
            final(self).last_nonce == old(self).last_nonce,
    {
        set_levels(&mut self.bids, bids);
        set_levels(&mut self.asks, asks);
    }
}

/// Sets the given levels of a side, in turn.
fn set_levels(side: &mut BookSide, changes: &Vec<PriceLevel>)
    requires
        old(side).wf(),
        priced(changes@),
    ensures
        final(side).wf(),
        final(side)@ == changed(old(side)@, changes@, changes@.len()),
{
    let ghost start = side@;
    let mut i: usize = 0;
    while i < changes.len()
        invariant
            side.wf(),
            priced(changes@),
            i <= changes@.len(),
            side@ == changed(start, changes@, i as nat),
        decreases changes@.len() - i,
    {
        let l: PriceLevel = changes[i];
        assert(!changes@[i as int].price.nan());
        side.upsert(l.price, l.size);
        i = i + 1;
    }
}

/// The size at a price: that of the first level there.
pub open spec fn size_at(levels: Seq<PriceLevel>, price: Num) -> Option<Num> {
    let at = below_count(levels, price) as int;
    if at < levels.len() && levels[at].price.same(price) {
        Some(levels[at].size)
    } else {
        None
    }
}

/// Whether no two levels have one price.
pub open spec fn distinct(levels: Seq<PriceLevel>) -> bool {
    forall|i: int, j: int|
        0 <= i < j < levels.len() ==> (#[trigger] levels[i]).price.rank() < (
        #[trigger] levels[j]).price.rank()
}

/// What a side gives back of a change: the size that was set, and nothing where the size was
/// zero, as long as no two levels share a price.
pub proof fn upsert_then_read(levels: Seq<PriceLevel>, price: Num, size: Num)
    requires
        distinct(levels),
        priced(levels),
        !price.nan(),
    ensures
        size_at(upserted(levels, price, size), price) == if size.rank() == 0 {
            None
        } else {
            Some(size)
        },
        distinct(upserted(levels, price, size)),
{
    assert(sorted(levels)) by {
        assert forall|i: int, j: int| 0 <= i <= j < levels.len() implies (
        #[trigger] levels[i]).price.rank() <= (#[trigger] levels[j]).price.rank() by {}
    }
    lemma_below_count(levels, price);
    let at = below_count(levels, price) as int;
    let t = upserted(levels, price, size);
    if at < levels.len() && levels[at].price.same(price) {
        if size.rank() == 0 {
            assert forall|i: int| 0 <= i < t.len() implies #[trigger] t[i] == levels[if i < at {
                i
            } else {
                i + 1
            }] by {}
        } else {
            assert forall|i: int| 0 <= i < t.len() implies (#[trigger] t[i]).price
                == levels[i].price by {}
        }
    } else if size.rank() != 0 {
        lemma_insert_at(levels, PriceLevel { price, size }, at);
    }
    assert(distinct(t));
    assert(sorted(t));
    assert(priced(t));
    lemma_below_count(t, price);
    if below_count(t, price) != at {
        if below_count(t, price) > at {
            assert(t[at].price.below(price));
        } else {
            assert(t[at - 1].price == levels[at - 1].price);
            assert(levels[at - 1].price.below(price));
        }
        assert(false);
    }
}

/// Setting a level leaves every other price alone.
pub proof fn upsert_spares_other_prices(
    levels: Seq<PriceLevel>,
    price: Num,
    size: Num,
    other: PriceLevel,
)
    requires
        sorted(levels),
        priced(levels),
        !price.nan(),
        !other.price.same(price),
    ensures
        levels.contains(other) <==> upserted(levels, price, size).contains(other),
{
    lemma_below_count(levels, price);
    let at = below_count(levels, price) as int;
    let t = upserted(levels, price, size);
    if levels.contains(other) {
        let i = choose|i: int| 0 <= i < levels.len() && levels[i] == other;
        if at < levels.len() && levels[at].price.same(price) {
            assert(i != at);
            if size.rank() == 0 {
                assert(t[if i < at { i } else { i - 1 }] == other);
            } else {
                assert(t[i] == other);
            }
        } else if size.rank() != 0 {
            assert(t[if i < at { i } else { i + 1 }] == other);
        }
    }
    if t.contains(other) {
        let i = choose|i: int| 0 <= i < t.len() && t[i] == other;
        if at < levels.len() && levels[at].price.same(price) {
            if size.rank() == 0 {
                assert(levels[if i < at { i } else { i + 1 }] == other);
            } else {
                if i == at {
                    assert(false);
                }
                assert(levels[i] == other);
            }
        } else if size.rank() != 0 {
            if i == at {
                assert(other.price == price);
                assert(false);
            }
            assert(levels[if i < at { i } else { i - 1 }] == other);
        }
    }
}

/// The best bid is no lower than any bid, and the best ask no higher than any ask.
pub proof fn touch_is_extreme(book: LocalBook, i: int)
    requires
        book.wf(),
    ensures
        0 <= i < book.bids@.len() ==> book.bids@[i].price.at_most(book.spec_best_bid()->0),
        0 <= i < book.asks@.len() ==> book.spec_best_ask()->0.at_most(book.asks@[i].price),
{
    if 0 <= i < book.bids@.len() {
        assert(book.bids@[i].price.rank() <= book.bids@[book.bids@.len() - 1].price.rank());
    }
}

/// A snapshot loses no level but the empty ones: what is kept are exactly the other levels, in
/// order of price.
pub proof fn snapshot_keeps_the_levels(levels: Seq<PriceLevel>)
    requires
        priced(levels),
    ensures
        sorted(arranged(levels)),
        priced(arranged(levels)),
        arranged(levels).to_multiset() == levels.filter(
            |l: PriceLevel| l.size.rank() != 0,
        ).to_multiset(),
    decreases levels.len(),
{
    let keep = |l: PriceLevel| l.size.rank() != 0;
    if levels.len() > 0 {
        let rest = levels.drop_last();
        assert(priced(rest)) by {
            assert forall|i: int| 0 <= i < rest.len() implies !(#[trigger] rest[i]).price.nan() by {
                assert(rest[i] == levels[i]);
            }
        }
        snapshot_keeps_the_levels(rest);
        assert(!levels[levels.len() - 1].price.nan());
        reveal(Seq::filter);
        broadcast use vstd::seq_lib::group_to_multiset_ensures;
        if levels.last().size.rank() != 0 {
            let a = arranged(rest);
            lemma_insert_sorted(a, levels.last());
            let at = up_to_count(a, levels.last().price) as int;
            vstd::seq_lib::to_multiset_insert(a, at, levels.last());
            assert(levels.filter(keep) == rest.filter(keep).push(levels.last()));
        } else {
            assert(levels.filter(keep) == rest.filter(keep));
        }
    } else {
        reveal(Seq::filter);
        assert(levels.filter(keep) =~= arranged(levels));
    }
}

/// Whether a level of this price and size is there.
pub open spec fn offers(levels: Seq<PriceLevel>, price: Num, size: Num) -> bool {
    exists|i: int|
        0 <= i < levels.len() && (#[trigger] levels[i]).price.same(price) && levels[i].size == size
}

/// Whether a level of this price is there.
pub open spec fn quotes_at(levels: Seq<PriceLevel>, price: Num) -> bool {
    exists|i: int| 0 <= i < levels.len() && (#[trigger] levels[i]).price.same(price)
}

/// Setting a level of a side without two levels of one price: with a size other than zero the price
/// is there with that size alone, with a size of zero it is not there. Prices still ascend without
/// two of one price.
pub proof fn set_levels_hold_their_size(levels: Seq<PriceLevel>, price: Num, size: Num)
    requires
        distinct(levels),
        priced(levels),
        !price.nan(),
    ensures
        ({
            let t = upserted(levels, price, size);
            &&& distinct(t) && priced(t)
            &&& size.rank() != 0 ==> offers(t, price, size) && forall|i: int|
                0 <= i < t.len() && (#[trigger] t[i]).price.same(price) ==> t[i].size == size
            &&& size.rank() == 0 ==> !quotes_at(t, price)
        }),
{
    assert(sorted(levels)) by {
        assert forall|i: int, j: int| 0 <= i <= j < levels.len() implies (
        #[trigger] levels[i]).price.rank() <= (#[trigger] levels[j]).price.rank() by {}
    }
    lemma_below_count(levels, price);
    upsert_then_read(levels, price, size);
    let at = below_count(levels, price) as int;
    let t = upserted(levels, price, size);
    let found = at < levels.len() && levels[at].price.same(price);
    assert forall|i: int| 0 <= i < t.len() implies !(#[trigger] t[i]).price.nan() by {
        if found && size.rank() == 0 {
            assert(t[i] == levels[if i < at { i } else { i + 1 }]);
        } else if found {
            assert(t[i].price == levels[i].price);
        } else if size.rank() != 0 && i != at {
            assert(t[i] == levels[if i < at { i } else { i - 1 }]);
        } else if size.rank() == 0 {
            assert(t[i] == levels[i]);
        }
    }
    if size.rank() != 0 {
        assert(t[at].price.same(price) && t[at].size == size);
        assert forall|i: int| 0 <= i < t.len() && (#[trigger] t[i]).price.same(
            price,
        ) implies t[i].size == size by {
            if i < at {
                assert(t[i].price.rank() < t[at].price.rank());
            } else if i > at {
                assert(t[at].price.rank() < t[i].price.rank());
            }
        }
    } else {
        if quotes_at(t, price) {
            let i = choose|i: int| 0 <= i < t.len() && (#[trigger] t[i]).price.same(price);
            if at < levels.len() && levels[at].price.same(price) {
                let k = if i < at {
                    i
                } else {
                    i + 1
                };
                assert(t[i] == levels[k]);
                if k < at {
                    assert(levels[k].price.rank() < levels[at].price.rank());
                } else {
                    assert(levels[at].price.rank() < levels[k].price.rank());
                }
            } else {
                assert(t[i] == levels[i]);
                if i < at {
                    assert(levels[i].price.below(price));
                } else {
                    assert(!levels[i].price.below(price));
                    if i > at {
                        assert(levels[at].price.rank() < levels[i].price.rank());
                        assert(!levels[at].price.below(price));
                    }
                }
            }
            assert(false);
        }
    }
}

/// A side after a row of changes holds, of each price, what the last change of that price set: its
/// size, or nothing where that is zero. A price that no change is for is as it was.
pub proof fn the_last_change_of_a_price_counts(
    levels: Seq<PriceLevel>,
    changes: Seq<PriceLevel>,
    n: nat,
    price: Num,
    k: int,
)
    requires
        distinct(levels),
        priced(levels),
        priced(changes),
        n <= changes.len(),
        !price.nan(),
        -1 <= k < n,
        k >= 0 ==> changes[k].price.same(price),
        forall|j: int| k < j < n ==> !(#[trigger] changes[j]).price.same(price),
    ensures
        ({
            let t = changed(levels, changes, n);
            &&& distinct(t) && priced(t)
            &&& k >= 0 && changes[k].size.rank() != 0 ==> offers(t, price, changes[k].size)
            &&& k >= 0 && changes[k].size.rank() == 0 ==> !quotes_at(t, price)
            &&& k < 0 ==> (quotes_at(t, price) <==> quotes_at(levels, price))
            &&& k < 0 ==> forall|l: PriceLevel|
                l.price.same(price) ==> (t.contains(l) <==> levels.contains(l))
        }),
    decreases n,
{
    if n > 0 {
        let m = (n - 1) as nat;
        let c = changes[n - 1];
        let before = changed(levels, changes, m);
        let t = changed(levels, changes, n);
        assert(!changes[n - 1].price.nan());
        if k < n - 1 {
            the_last_change_of_a_price_counts(levels, changes, m, price, k);
        } else {
            lemma_changed_distinct(levels, changes, m);
        }
        set_levels_hold_their_size(before, c.price, c.size);
        assert(sorted(before)) by {
            assert forall|i: int, j: int| 0 <= i <= j < before.len() implies (
            #[trigger] before[i]).price.rank() <= (#[trigger] before[j]).price.rank() by {}
        }
        if k == n - 1 {
            if c.size.rank() != 0 {
                let i = choose|i: int|
                    0 <= i < t.len() && (#[trigger] t[i]).price.same(c.price) && t[i].size
                        == c.size;
                assert(t[i].price.same(price));
            } else if quotes_at(t, price) {
                let i = choose|i: int| 0 <= i < t.len() && (#[trigger] t[i]).price.same(price);
                assert(t[i].price.same(c.price));
            }
        } else {
            assert(!changes[n - 1].price.same(price));
            assert forall|l: PriceLevel| l.price.same(price) implies (t.contains(l)
                <==> before.contains(l)) by {
                assert(!l.price.same(c.price));
                upsert_spares_other_prices(before, c.price, c.size, l);
            }
            lemma_same_offers(before, t, price);
            if k >= 0 {
                lemma_same_offer(before, t, price, changes[k].size);
            }
        }
    }
}

proof fn lemma_changed_distinct(levels: Seq<PriceLevel>, changes: Seq<PriceLevel>, n: nat)
    requires
        distinct(levels),
        priced(levels),
        priced(changes),
        n <= changes.len(),
    ensures
        distinct(changed(levels, changes, n)),
        priced(changed(levels, changes, n)),
    decreases n,
{
    if n > 0 {
        lemma_changed_distinct(levels, changes, (n - 1) as nat);
        assert(!changes[n - 1].price.nan());
        set_levels_hold_their_size(
            changed(levels, changes, (n - 1) as nat),
            changes[n - 1].price,
            changes[n - 1].size,
        );
    }
}

proof fn lemma_same_offers(a: Seq<PriceLevel>, b: Seq<PriceLevel>, price: Num)
    requires
        forall|l: PriceLevel| l.price.same(price) ==> (b.contains(l) <==> a.contains(l)),
    ensures
        quotes_at(b, price) <==> quotes_at(a, price),
{
    if quotes_at(a, price) {
        let i = choose|i: int| 0 <= i < a.len() && (#[trigger] a[i]).price.same(price);
        assert(a.contains(a[i]));
        assert(b.contains(a[i]));
        let j = choose|j: int| 0 <= j < b.len() && b[j] == a[i];
        assert(b[j].price.same(price));
    }
    if quotes_at(b, price) {
        let i = choose|i: int| 0 <= i < b.len() && (#[trigger] b[i]).price.same(price);
        assert(b.contains(b[i]));
        assert(a.contains(b[i]));
        let j = choose|j: int| 0 <= j < a.len() && a[j] == b[i];
        assert(a[j].price.same(price));
    }
}

proof fn lemma_same_offer(a: Seq<PriceLevel>, b: Seq<PriceLevel>, price: Num, size: Num)
    requires
        forall|l: PriceLevel| l.price.same(price) ==> (b.contains(l) <==> a.contains(l)),
    ensures
        offers(a, price, size) ==> offers(b, price, size),
{
    if offers(a, price, size) {
        let i = choose|i: int|
            0 <= i < a.len() && (#[trigger] a[i]).price.same(price) && a[i].size == size;
        assert(a.contains(a[i]));
        assert(b.contains(a[i]));
        let j = choose|j: int| 0 <= j < b.len() && b[j] == a[i];
        assert(b[j].price.same(price) && b[j].size == size);
    }
}

/// The best bid and the best ask are prices of levels that are there, and there is one exactly where
/// its side is not empty.
pub proof fn touch_is_on_the_book(book: LocalBook)
    ensures
        book.spec_best_bid() is Some <==> book.bids@.len() > 0,
        book.spec_best_ask() is Some <==> book.asks@.len() > 0,
        book.bids@.len() > 0 ==> exists|i: int|
            0 <= i < book.bids@.len() && Some((#[trigger] book.bids@[i]).price)
                == book.spec_best_bid(),
        book.asks@.len() > 0 ==> exists|i: int|
            0 <= i < book.asks@.len() && Some((#[trigger] book.asks@[i]).price)
                == book.spec_best_ask(),
{
    if book.bids@.len() > 0 {
        assert(Some(book.bids@[book.bids@.len() - 1].price) == book.spec_best_bid());
    }
    if book.asks@.len() > 0 {
        assert(Some(book.asks@[0].price) == book.spec_best_ask());
    }
}

/// How a side is cut at a price: the levels before the first index are below it and those from it
/// on are not; the levels before the second are at it or below, and those from it on above.
pub proof fn prices_cut_a_side(levels: Seq<PriceLevel>, price: Num, i: int)
    requires
        sorted(levels),
        priced(levels),
        !price.nan(),
        0 <= i < levels.len(),
    ensures
        i < below_count(levels, price) <==> levels[i].price.rank() < price.rank(),
        i < up_to_count(levels, price) <==> levels[i].price.rank() <= price.rank(),
{
    lemma_below_count(levels, price);
    lemma_up_to_count(levels, price);
}

} // verus!
