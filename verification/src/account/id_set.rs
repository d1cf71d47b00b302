//! Set of ids that forgets its oldest members.
use std::collections::{HashSet, VecDeque};
use vstd::prelude::*;

verus! {

broadcast use vstd::std_specs::hash::group_hash_axioms;

/// Most ids that a set remembers.
pub const ID_SET_CAP: usize = 10_000;

/// The ids after one more was met: a known one changes nothing, a new one goes to the end and may
/// drive out the first.
pub open spec fn remembered(ids: Seq<i64>, id: i64) -> Seq<i64> {
    if ids.contains(id) {
        ids
    } else if ids.len() >= ID_SET_CAP {
        ids.push(id).drop_first()
    } else {
        ids.push(id)
    }
}

/// Set of ids in the order in which they were met.
#[derive(Debug)]
pub struct IdSet {
    ids: HashSet<i64>,
    order: VecDeque<i64>,
}

impl View for IdSet {
    type V = Seq<i64>;

    closed spec fn view(&self) -> Seq<i64> {
        self.order@
    }
}

impl IdSet {
    /// Both halves hold the same ids, none twice, and no more than fit.
    pub closed spec fn wf(&self) -> bool {
        &&& self.order@.no_duplicates()
        &&& self.order@.len() <= ID_SET_CAP
        &&& forall|id: i64| #[trigger] self.ids@.contains(id) <==> self.order@.contains(id)
    }

    /// The empty set.
    pub fn new() -> (r: IdSet)
        ensures
            r.wf(),
            r@ == Seq::<i64>::empty(),
    {
        IdSet { ids: HashSet::new(), order: VecDeque::new() }
    }

    /// Whether an id is remembered.
    pub fn contains(&self, id: i64) -> (r: bool)
        requires
            self.wf(),
        ensures
            r == self@.contains(id),
    {
        self.ids.contains(&id)
    }

    /// Ids remembered.
    pub fn len(&self) -> (r: usize)
        ensures
            r == self@.len(),
    {
        self.order.len()
    }

    /// Remembers an id. Whether it was new.
    pub fn insert(&mut self, id: i64) -> (r: bool)
        requires
            old(self).wf(),
        ensures
            final(self).wf(),
            final(self)@ == remembered(old(self)@, id),
            r == !old(self)@.contains(id),
    {
        if self.ids.contains(&id) {
            return false;
        }
        let ghost before = self.order@;
        let _ = self.ids.insert(id);
        self.order.push_back(id);
        let ghost grown = self.order@;
        proof {
            assert(grown =~= before.push(id));
            assert forall|x: i64| #[trigger] self.ids@.contains(x) <==> grown.contains(x) by {
                if before.contains(x) {
                    let i = choose|i: int| 0 <= i < before.len() && before[i] == x;
                    assert(grown[i] == x);
                }
                if x == id {
                    assert(grown[before.len() as int] == x);
                }
            }
            assert(grown.no_duplicates());
        }
        if self.order.len() > ID_SET_CAP {
            let first: Option<i64> = self.order.pop_front();
            if let Some(oldest) = first {
                let _ = self.ids.remove(&oldest);
                proof {
                    let rest = self.order@;
                    assert(rest =~= grown.drop_first());
                    assert forall|x: i64| #[trigger] self.ids@.contains(x) <==> rest.contains(x) by {
                        if grown.contains(x) && x != oldest {
                            let i = choose|i: int| 0 <= i < grown.len() && grown[i] == x;
                            assert(rest[i - 1] == x);
                        }
                        if rest.contains(x) {
                            let i = choose|i: int| 0 <= i < rest.len() && rest[i] == x;
                            assert(grown[i + 1] == x);
                            assert(grown[0] == oldest);
                        }
                    }
                }
            }
        }
        true
    }
}

/// An id is remembered the moment it was met, and the set stays within its bound and free of
/// duplicates.
pub proof fn met_ids_are_remembered(ids: Seq<i64>, id: i64)
    requires
        ids.len() <= ID_SET_CAP,
        ids.no_duplicates(),
    ensures
        remembered(ids, id).contains(id),
        remembered(ids, id).len() <= ID_SET_CAP,
        remembered(ids, id).no_duplicates(),
{
    let t = remembered(ids, id);
    if !ids.contains(id) {
        assert(t.last() == id);
        assert(t[t.len() - 1] == id);
    }
}

/// The ids after all of `more` were met in turn.
pub open spec fn all_remembered(ids: Seq<i64>, more: Seq<i64>) -> Seq<i64>
    decreases more.len(),
{
    if more.len() == 0 {
        ids
    } else {
        remembered(all_remembered(ids, more.drop_last()), more.last())
    }
}

/// Whether an id stands among the last `n + 1` ids.
pub open spec fn recent(ids: Seq<i64>, id: i64, n: int) -> bool {
    exists|j: int| 0 <= j < ids.len() && ids.len() - 1 - j <= n && #[trigger] ids[j] == id
}

proof fn lemma_recent(ids: Seq<i64>, more: Seq<i64>, id: i64)
    requires
        ids.len() <= ID_SET_CAP,
        recent(ids, id, 0),
        more.len() < ID_SET_CAP,
    ensures
        all_remembered(ids, more).len() <= ID_SET_CAP,
        recent(all_remembered(ids, more), id, more.len() as int),
    decreases more.len(),
{
    if more.len() > 0 {
        let rest = more.drop_last();
        lemma_recent(ids, rest, id);
        let s = all_remembered(ids, rest);
        let t = all_remembered(ids, more);
        let j = choose|j: int|
            0 <= j < s.len() && s.len() - 1 - j <= rest.len() && #[trigger] s[j] == id;
        if s.contains(more.last()) {
            assert(t[j] == id);
        } else if s.len() >= ID_SET_CAP {
            assert(j >= 1);
            assert(t[j - 1] == id);
        } else {
            assert(t[j] == id);
        }
    }
}

/// An id that was met stays remembered for as long as fewer further ids were met than the set
/// holds.
pub proof fn memory_reaches_back(ids: Seq<i64>, id: i64, more: Seq<i64>)
    requires
        ids.len() <= ID_SET_CAP,
        !ids.contains(id),
        more.len() < ID_SET_CAP,
    ensures
        all_remembered(remembered(ids, id), more).contains(id),
{
    let t = remembered(ids, id);
    assert(t[t.len() - 1] == id);
    assert(recent(t, id, 0));
    lemma_recent(t, more, id);
    let u = all_remembered(t, more);
    let j = choose|j: int|
        0 <= j < u.len() && u.len() - 1 - j <= more.len() && #[trigger] u[j] == id;
    assert(u[j] == id);
}

/// Meeting an id again changes nothing. A new one goes to the end; where ten thousand are remembered,
/// the oldest goes, and nothing else moves.
pub proof fn the_oldest_id_goes(ids: Seq<i64>, id: i64)
    requires
        ids.len() <= 10_000,
    ensures
        ids.contains(id) ==> remembered(ids, id) == ids,
        !ids.contains(id) && ids.len() < 10_000 ==> {
            &&& remembered(ids, id).len() == ids.len() + 1
            &&& remembered(ids, id)[ids.len() as int] == id
            &&& forall|i: int| 0 <= i < ids.len() ==> #[trigger] remembered(ids, id)[i] == ids[i]
        },
        !ids.contains(id) && ids.len() == 10_000 ==> {
            &&& remembered(ids, id).len() == 10_000
            &&& remembered(ids, id)[9_999] == id
            &&& forall|i: int| 0 <= i < 9_999 ==> #[trigger] remembered(ids, id)[i] == ids[i + 1]
        },
{
}

} // verus!
