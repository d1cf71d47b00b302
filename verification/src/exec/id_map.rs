//! Bounded map from client order ids to exchange order ids.
use std::collections::HashMap;
use vstd::prelude::*;
use vstd::std_specs::hash::spec_keys_iter;
use vstd::std_specs::iter::IteratorSpec;

verus! {

/// Number of entries above which old ids are dropped.
pub const ID_MAP_CAP: usize = 200;

/// How many ids of orders that no slot tracks survive a pruning.
pub const ID_MAP_RECENT: usize = 100;

/// Map from client order id to exchange order id.
#[derive(Clone, Debug)]
pub struct IdMap {
    entries: HashMap<i64, i64>,
}

/// The mapped ids above `k` that are not live.
pub open spec fn newer(m: Map<i64, i64>, live: Set<i64>, k: i64) -> Set<i64> {
    m.dom().filter(|j: i64| !live.contains(j) && j > k)
}

/// The map without its old ids: live ids stay, and so do the greatest ids among the others.
pub open spec fn pruned(m: Map<i64, i64>, live: Set<i64>) -> Map<i64, i64> {
    m.restrict(
        m.dom().filter(|k: i64| live.contains(k) || newer(m, live, k).len() < ID_MAP_RECENT),
    )
}

/// The map after one more pair was recorded.
pub open spec fn recorded(m: Map<i64, i64>, live: Set<i64>, k: i64, v: i64) -> Map<i64, i64> {
    let grown = m.insert(k, v);
    if grown.dom().len() > ID_MAP_CAP {
        pruned(grown, live)
    } else {
        grown
    }
}

impl View for IdMap {
    type V = Map<i64, i64>;

    closed spec fn view(&self) -> Map<i64, i64> {
        self.entries@
    }
}

/// The ids of a map, each once, in no particular order.
fn ids_of(m: &HashMap<i64, i64>) -> (r: Vec<i64>)
    ensures
        r@.no_duplicates(),
        r@.to_set() == m@.dom(),
{
    let mut r: Vec<i64> = Vec::new();
    for k in it: m.keys()
        invariant
            it.seq() == spec_keys_iter(m).remaining(),
            r@.len() == it.index(),
            forall|i: int| 0 <= i < r@.len() ==> r@[i] == *it.seq()[i],
    {
        r.push(*k);
    }
    proof {
        let all = spec_keys_iter(m).remaining();
        assert(r@ =~= all.unref());
        assert forall|i: int, j: int| 0 <= i < j < r@.len() implies r@[i] != r@[j] by {
            assert(all[i] != all[j]);
        }
    }
    r
}

/// How many of the ids are above `k` and not live.
fn count_newer(ids: &Vec<i64>, live: &Vec<i64>, k: i64) -> (r: usize)
    requires
        ids@.no_duplicates(),
    ensures
        r == ids@.to_set().filter(|j: i64| !live@.to_set().contains(j) && j > k).len(),
{
    let ghost wanted = |j: i64| !live@.to_set().contains(j) && j > k;
    let mut n: usize = 0;
    let mut i: usize = 0;
    proof {
        assert(ids@.take(0).to_set().filter(wanted) =~= Set::empty());
    }
    while i < ids.len()
        invariant
            ids@.no_duplicates(),
            wanted == (|j: i64| !live@.to_set().contains(j) && j > k),
            n <= i <= ids@.len(),
            ids@.take(i as int).to_set().filter(wanted).finite(),
            n == ids@.take(i as int).to_set().filter(wanted).len(),
        decreases ids@.len() - i,
    {
        let id: i64 = ids[i];
        let ghost head = ids@.take(i as int);
        let ghost grown = ids@.take(i + 1);
        let ghost before = head.to_set().filter(wanted);
        let ghost after = grown.to_set().filter(wanted);
        proof {
            assert(grown =~= head.push(id));
            assert forall|j: i64| #[trigger] grown.to_set().contains(j) <==> (
            head.to_set().contains(j) || j == id) by {
                if grown.contains(j) && j != id {
                    let x = choose|x: int| 0 <= x < grown.len() && grown[x] == j;
                    assert(head[x] == j);
                }
                if head.contains(j) {
                    let x = choose|x: int| 0 <= x < head.len() && head[x] == j;
                    assert(grown[x] == j);
                }
                assert(grown[i as int] == id);
            }
            if head.contains(id) {
                let x = choose|x: int| 0 <= x < head.len() && head[x] == id;
                assert(ids@[x] == ids@[i as int]);
            }
        }
        if id > k && !contains_id(live, id) {
            n = n + 1;
            proof {
                assert(after =~= before.insert(id));
            }
        } else {
            proof {
                assert(after =~= before);
            }
        }
        i = i + 1;
    }
    proof {
        assert(ids@.take(i as int) =~= ids@);
    }
    n
}

impl IdMap {
    /// The empty map.
    pub fn new() -> (r: IdMap)
        ensures
            r@ == Map::<i64, i64>::empty(),
    {
        IdMap { entries: HashMap::new() }
    }

    /// The exchange id recorded for a client id.
    pub fn get(&self, k: i64) -> (r: Option<i64>)
        ensures
            r == if self@.contains_key(k) { Some(self@[k]) } else { None },
    {
        match self.entries.get(&k) {
            Some(v) => Some(*v),
            None => None,
        }
    }

    /// Number of ids in the map.
    pub fn len(&self) -> (r: usize)
        ensures
            r == self@.dom().len(),
    {
        self.entries.len()
    }

    /// Drops old ids: those in `live` stay, and the greatest [`ID_MAP_RECENT`] of the others.
    fn prune(&mut self, live: &Vec<i64>)
        ensures
            final(self)@ == pruned(old(self)@, live@.to_set()),
    {
        let ghost m = self@;
        let ghost alive = live@.to_set();
        let ghost want = pruned(m, alive);
        let ids: Vec<i64> = ids_of(&self.entries);
        let mut kept: HashMap<i64, i64> = HashMap::new();
        let mut i: usize = 0;
        while i < ids.len()
            invariant
                i <= ids@.len(),
                m == self@,
                alive == live@.to_set(),
                want == pruned(m, alive),
                ids@.no_duplicates(),
                ids@.to_set() == m.dom(),
                forall|k: i64| #[trigger] kept@.contains_key(k) ==> want.contains_key(k) && kept@[k]
                    == want[k],
                forall|x: int|
                    0 <= x < i && want.contains_key(#[trigger] ids@[x]) ==> kept@.contains_key(
                        ids@[x],
                    ),
            decreases ids@.len() - i,
        {
            let id: i64 = ids[i];
            proof {
                assert(ids@.contains(id));
                assert(m.contains_key(id));
                assert(ids@.to_set().filter(|j: i64| !alive.contains(j) && j > id) =~= newer(
                    m,
                    alive,
                    id,
                ));
            }
            if contains_id(live, id) || count_newer(&ids, live, id) < ID_MAP_RECENT {
                if let Some(v) = self.get(id) {
                    let _ = kept.insert(id, v);
                }
            }
            i = i + 1;
        }
        proof {
            assert forall|k: i64| #[trigger] want.contains_key(k) implies kept@.contains_key(k) by {
                assert(ids@.to_set().contains(k));
                let x = choose|x: int| 0 <= x < ids@.len() && ids@[x] == k;
                assert(want.contains_key(ids@[x]));
            }
            assert(kept@ =~= want);
        }
        self.entries = kept;
    }

    /// Maps `k` to `v`, and prunes the map when it has grown past [`ID_MAP_CAP`].
    pub fn record(&mut self, k: i64, v: i64, live: &Vec<i64>)
        ensures
            final(self)@ == recorded(old(self)@, live@.to_set(), k, v),
    {
        let _ = self.entries.insert(k, v);
        if self.len() > ID_MAP_CAP {
            self.prune(live);
        }
    }
}

/// Whether `id` occurs in `ids`.
pub fn contains_id(ids: &Vec<i64>, id: i64) -> (r: bool)
    ensures
        r == ids@.contains(id),
        r == ids@.to_set().contains(id),
{
    let mut i: usize = 0;
    while i < ids.len()
        invariant
            i <= ids@.len(),
            forall|j: int| 0 <= j < i ==> ids@[j] != id,
        decreases ids@.len() - i,
    {
        if ids[i] == id {
            proof {
                assert(ids@[i as int] == id);
            }
            return true;
        }
        i = i + 1;
    }
    false
}

/// Recording a pair maps the one id to the other. Up to 200 ids all others stay as they are; beyond,
/// an id stays exactly where it is live, or under a hundred greater ones that are not live are mapped,
/// and what stays is mapped as before.
pub proof fn recent_and_live_ids_stay(
    m: Map<i64, i64>,
    live: Set<i64>,
    k: i64,
    v: i64,
    j: i64,
)
    ensures
        ({
            let grown = m.insert(k, v);
            let r = recorded(m, live, k, v);
            let above = grown.dom().filter(|i: i64| !live.contains(i) && i > j);
            &&& grown.dom().len() <= 200 ==> r == grown
            &&& grown.dom().len() > 200 ==> (r.contains_key(j) <==> (j == k || m.contains_key(j))
                && (live.contains(j) || above.len() < 100))
            &&& r.contains_key(j) && j != k ==> r[j] == m[j]
            &&& r.contains_key(k) ==> r[k] == v
        }),
{
    let grown = m.insert(k, v);
    assert(newer(grown, live, j) =~= grown.dom().filter(|i: i64| !live.contains(i) && i > j));
}

} // verus!
