//! Keeping the reference book in step with its feed of changes.
//!
//! A snapshot is fetched while the feed is already buffered. Of the changes, those that end before
//! the snapshot are dropped; the first one applied must bracket it; every further one must follow
//! its predecessor without a gap. A missed bracket or a gap calls for a new snapshot, and too many
//! of those in a row for a new connection.
use vstd::prelude::*;
use vstd::string::StringExecFns;
use crate::binance::obi::{blank, fit, with_diff, with_snapshot, BinanceObi, Depth};
use crate::book::local_book::{arranged, changed, priced};
use crate::json::{integer_of, member, parse_json, parsed, text_of, Document, Json};
use crate::lighter::messages::PriceLevel;
use crate::num::{spec_zero, Num};
use crate::shared::{counted, AlphaState, SharedAlpha};
use crate::strategy::rolling::{pushed, Moments};
use crate::text::{lowercase, lowercased};

verus! {

/// Snapshots in a row without getting in step before the connection is given up.
pub const MAX_RESYNC_ATTEMPTS: u32 = 5;

/// What to do with a change.
#[derive(Clone, Copy, Debug, PartialEq, Eq, Structural)]
pub enum EventAction {
    /// It ends before the snapshot: drop it.
    Drop,
    /// It brackets the snapshot: apply it, and be in step.
    ApplyFirst,
    /// It follows its predecessor: apply it.
    Apply,
    /// Something is missing before it: fetch a new snapshot.
    Resync,
}

/// What to do with a change that covers the ids from `big_u` to `u` and follows `pu`.
pub open spec fn action_for(
    synced: bool,
    last_update_id: i64,
    prev_u: i64,
    big_u: i64,
    u: i64,
    pu: i64,
) -> EventAction {
    if synced {
        if pu == prev_u {
            EventAction::Apply
        } else {
            EventAction::Resync
        }
    } else if u < last_update_id {
        EventAction::Drop
    } else if big_u <= last_update_id {
        EventAction::ApplyFirst
    } else {
        EventAction::Resync
    }
}

/// What to do with a change that covers the ids from `big_u` to `u` and follows `pu`.
pub fn classify_event(
    synced: bool,
    last_update_id: i64,
    prev_u: i64,
    big_u: i64,
    u: i64,
    pu: i64,
) -> (r: EventAction)
    ensures
        r == action_for(synced, last_update_id, prev_u, big_u, u, pu),
{
    if !synced {
        if u < last_update_id {
            return EventAction::Drop;
        }
        if big_u <= last_update_id {
            return EventAction::ApplyFirst;
        }
        EventAction::Resync
    } else if pu == prev_u {
        EventAction::Apply
    } else {
        EventAction::Resync
    }
}

/// A change of the reference book.
#[derive(Clone, Debug)]
pub struct DepthEvent {
    pub big_u: i64,
    pub u: i64,
    pub pu: i64,
    pub bids: Vec<PriceLevel>,
    pub asks: Vec<PriceLevel>,
}

/// A snapshot of the reference book.
#[derive(Clone, Debug)]
pub struct DepthSnapshot {
    pub last_update_id: i64,
    pub bids: Vec<PriceLevel>,
    pub asks: Vec<PriceLevel>,
}

impl DepthEvent {
    /// Every price is a number.
    pub open spec fn ok(self) -> bool {
        priced(self.bids@) && priced(self.asks@)
    }
}

/// Whether every price of every change is a number.
pub open spec fn all_ok(events: Seq<DepthEvent>) -> bool {
    forall|i: int| 0 <= i < events.len() ==> (#[trigger] events[i]).ok()
}

/// What to do with a change, given the book.
pub open spec fn step_for(s: Depth, synced: bool, e: DepthEvent) -> EventAction {
    action_for(synced, s.last_update_id, s.prev_u, e.big_u, e.u, e.pu)
}

/// The book after a change.
pub open spec fn after_event(s: Depth, e: DepthEvent) -> Depth {
    with_diff(s, e.bids@, e.asks@, e.u)
}

/// Book and step after the first `n` buffered changes. The last component says whether all went
/// well; where it did not, book and step are as they were when the gap was met.
pub open spec fn drained(s: Depth, events: Seq<DepthEvent>, n: nat) -> (Depth, bool, bool)
    decreases n,
{
    if n == 0 {
        (s, false, true)
    } else {
        let (book, synced, fine) = drained(s, events, (n - 1) as nat);
        let e = events[n - 1];
        if !fine {
            (book, synced, false)
        } else {
            match step_for(book, synced, e) {
                EventAction::Drop => (book, synced, true),
                EventAction::ApplyFirst => (after_event(book, e), true, true),
                EventAction::Apply => (after_event(book, e), synced, true),
                EventAction::Resync => (book, synced, false),
            }
        }
    }
}

/// The member's integer, zero where it is none.
pub open spec fn id_of(d: Document, key: Seq<char>) -> i64 {
    match member(d, key) {
        Some(x) => match integer_of(x) {
            Some(n) => n,
            None => 0,
        },
        None => 0,
    }
}

/// The member's integer, zero where it is none.
fn read_id(v: &Json, key: &str) -> (r: i64)
    ensures
        r == id_of(v@, key@),
{
    match v.get(key) {
        Some(x) => match x.as_i64() {
            Some(n) => n,
            None => 0,
        },
        None => 0,
    }
}

/// Price and size of a level as texts, where the level is a list that starts with two texts.
pub open spec fn level_text(d: Document) -> Option<(Seq<char>, Seq<char>)> {
    match d {
        Document::List(items) => if items.len() >= 2 {
            match (text_of(items[0]), text_of(items[1])) {
                (Some(p), Some(q)) => Some((p, q)),
                _ => None,
            }
        } else {
            None
        },
        _ => None,
    }
}

/// The levels among the first `n` items of a list.
pub open spec fn level_texts(items: Seq<Document>, n: nat) -> Seq<(Seq<char>, Seq<char>)>
    decreases n,
{
    if n == 0 {
        Seq::empty()
    } else {
        let rest = level_texts(items, (n - 1) as nat);
        match level_text(items[n - 1]) {
            Some(l) => rest.push(l),
            None => rest,
        }
    }
}

/// The levels that a member lists.
pub open spec fn listed_levels(d: Option<Document>) -> Seq<(Seq<char>, Seq<char>)> {
    match d {
        Some(Document::List(items)) => level_texts(items, items.len()),
        _ => Seq::empty(),
    }
}

/// Pairs of texts.
pub open spec fn text_pairs(v: Seq<(String, String)>) -> Seq<(Seq<char>, Seq<char>)> {
    Seq::new(v.len(), |i: int| (v[i].0@, v[i].1@))
}

/// The levels that a member lists, price and size still as texts. What is no level is passed over.
pub fn parse_levels(v: Option<&Json>) -> (r: Vec<(String, String)>)
    ensures
        text_pairs(r@) == listed_levels(
            match v {
                Some(j) => Some(j@),
                None => None,
            },
        ),
{
    let mut out: Vec<(String, String)> = Vec::new();
    proof {
        assert(text_pairs(out@) =~= Seq::empty());
    }
    let list: &Vec<Json> = match v {
        Some(j) => match j.as_list() {
            Some(l) => l,
            None => {
                return out;
            },
        },
        None => {
            return out;
        },
    };
    let ghost items = v->0@->List_0;
    let mut i: usize = 0;
    while i < list.len()
        invariant
            i <= list@.len() == items.len(),
            forall|k: int| 0 <= k < list@.len() ==> #[trigger] items[k] == list@[k]@,
            text_pairs(out@) == level_texts(items, i as nat),
        decreases list@.len() - i,
    {
        let ghost before = out@;
        proof {
            assert(items[i as int] == list@[i as int]@);
        }
        if let Some(pair) = list[i].as_list() {
            if pair.len() >= 2 {
                if let (Some(p), Some(q)) = (pair[0].as_str(), pair[1].as_str()) {
                    out.push((p.to_owned(), q.to_owned()));
                    proof {
                        assert(text_pairs(out@) =~= text_pairs(before).push((p@, q@)));
                    }
                }
            }
        }
        i = i + 1;
    }
    out
}

/// A change as the feed sends it, prices and sizes still as texts.
#[derive(Debug)]
pub struct RawDepthEvent {
    pub big_u: i64,
    pub u: i64,
    pub pu: i64,
    pub bids: Vec<(String, String)>,
    pub asks: Vec<(String, String)>,
}

/// Whether a document is a change: both ids that bound it are there.
pub open spec fn is_change(d: Document) -> bool {
    member(d, "U"@) is Some && member(d, "u"@) is Some
}

/// Whether a raw change says what a document says.
pub open spec fn reads_change(d: Document, e: RawDepthEvent) -> bool {
    &&& e.big_u == id_of(d, "U"@)
    &&& e.u == id_of(d, "u"@)
    &&& e.pu == id_of(d, "pu"@)
    &&& text_pairs(e.bids@) == listed_levels(member(d, "b"@))
    &&& text_pairs(e.asks@) == listed_levels(member(d, "a"@))
}

/// The change that a document is.
pub fn read_event(v: &Json) -> (r: Option<RawDepthEvent>)
    ensures
        match r {
            Some(e) => is_change(v@) && reads_change(v@, e),
            None => !is_change(v@),
        },
{
    if v.get("U").is_none() || v.get("u").is_none() {
        return None;
    }
    Some(
        RawDepthEvent {
            big_u: read_id(v, "U"),
            u: read_id(v, "u"),
            pu: read_id(v, "pu"),
            bids: parse_levels(v.get("b")),
            asks: parse_levels(v.get("a")),
        },
    )
}

/// The change that a text of the feed is; `None` where it is none.
pub fn parse_event(text: &str) -> (r: Option<RawDepthEvent>)
    ensures
        match parsed(text@) {
            Some(d) => match r {
                Some(e) => is_change(d) && reads_change(d, e),
                None => !is_change(d),
            },
            None => r is None,
        },
{
    match parse_json(text) {
        Some(v) => read_event(&v),
        None => None,
    }
}

/// A snapshot as it is fetched: its update id, and the levels of both sides as texts.
pub fn read_snapshot(v: &Json) -> (r: (i64, Vec<(String, String)>, Vec<(String, String)>))
    ensures
        r.0 == id_of(v@, "lastUpdateId"@),
        text_pairs(r.1@) == listed_levels(member(v@, "bids"@)),
        text_pairs(r.2@) == listed_levels(member(v@, "asks"@)),
{
    (read_id(v, "lastUpdateId"), parse_levels(v.get("bids")), parse_levels(v.get("asks")))
}

/// What to do after a snapshot and its buffered changes.
#[derive(Clone, Copy, Debug, PartialEq, Eq, Structural)]
pub enum SnapshotStep {
    /// Read the feed on; in step, or waiting for the change that brackets the snapshot.
    Live { synced: bool },
    /// Fetch another snapshot after a pause.
    Retry,
    /// Give the connection up.
    GiveUp,
}

/// What to do after a change from the feed.
#[derive(Clone, Copy, Debug, PartialEq, Eq, Structural)]
pub enum LiveStep {
    /// Nothing.
    Skip,
    /// It was applied: work out a new alpha.
    Applied,
    /// Fetch another snapshot after a pause.
    Retry,
    /// Give the connection up.
    GiveUp,
}

/// What is known of the feed.
pub struct Feed {
    pub book: Depth,
    pub synced: bool,
    pub attempts: u32,
}

/// Attempts after one more that failed.
pub open spec fn one_more_attempt(n: u32) -> u32 {
    if n == u32::MAX {
        n
    } else {
        (n + 1) as u32
    }
}

/// The feed after a snapshot and its buffered changes, and what to do.
pub open spec fn after_snapshot(
    s: Feed,
    snapshot: DepthSnapshot,
    buffer: Seq<DepthEvent>,
) -> (Feed, SnapshotStep) {
    let start = with_snapshot(
        s.book,
        snapshot.bids@,
        snapshot.asks@,
        snapshot.last_update_id,
    );
    let (book, synced, fine) = drained(start, buffer, buffer.len());
    if fine {
        (
            Feed {
                book,
                synced,
                attempts: if synced {
                    0
                } else {
                    s.attempts
                },
            },
            SnapshotStep::Live { synced },
        )
    } else {
        let attempts = one_more_attempt(s.attempts);
        (
            Feed { book, synced, attempts },
            if attempts >= MAX_RESYNC_ATTEMPTS {
                SnapshotStep::GiveUp
            } else {
                SnapshotStep::Retry
            },
        )
    }
}

/// The feed after a change, and what to do.
pub open spec fn after_live(s: Feed, e: DepthEvent) -> (Feed, LiveStep) {
    match step_for(s.book, s.synced, e) {
        EventAction::Drop => (s, LiveStep::Skip),
        EventAction::ApplyFirst => (
            Feed { book: after_event(s.book, e), synced: true, attempts: 0 },
            LiveStep::Applied,
        ),
        EventAction::Apply => (
            Feed { book: after_event(s.book, e), ..s },
            LiveStep::Applied,
        ),
        EventAction::Resync => {
            let attempts = one_more_attempt(s.attempts);
            (
                Feed { attempts, ..s },
                if attempts >= MAX_RESYNC_ATTEMPTS {
                    LiveStep::GiveUp
                } else {
                    LiveStep::Retry
                },
            )
        },
    }
}

/// Keeper of the reference book.
#[derive(Debug)]
pub struct BinanceDepthClient {
    symbol: String,
    snapshot_limit: usize,
    obi: BinanceObi,
    synced: bool,
    resync_attempts: u32,
}

impl View for BinanceDepthClient {
    type V = Feed;

    closed spec fn view(&self) -> Feed {
        Feed { book: self.obi@, synced: self.synced, attempts: self.resync_attempts }
    }
}

impl BinanceDepthClient {
    /// The book is well-formed.
    pub closed spec fn wf(&self) -> bool {
        self.obi.wf()
    }

    /// The market that the feed is of, in lower case.
    pub closed spec fn market(&self) -> Seq<char> {
        self.symbol@
    }

    /// Levels asked for in a snapshot.
    pub closed spec fn limit(&self) -> usize {
        self.snapshot_limit
    }

    /// A keeper for a market, with an empty book.
    pub fn new(symbol_usdt: &str, snapshot_limit: usize, window: usize) -> (r: BinanceDepthClient)
        requires
            window > 0,
        ensures
            r.wf(),
            r.market() == lowercased(symbol_usdt@),
            r.limit() == snapshot_limit,
            r@ == (Feed { book: blank(r@.book), synced: false, attempts: 0 }),
            r@.book.window == window,
    {
        BinanceDepthClient {
            symbol: lowercase(symbol_usdt),
            snapshot_limit,
            obi: BinanceObi::new(window),
            synced: false,
            resync_attempts: 0,
        }
    }

    /// The market that the feed is of, in lower case.
    pub fn symbol(&self) -> (r: &str)
        ensures
            r@ == self.market(),
    {
        self.symbol.as_str()
    }

    /// Levels asked for in a snapshot.
    pub fn snapshot_limit(&self) -> (r: usize)
        ensures
            r == self.limit(),
    {
        self.snapshot_limit
    }

    /// The address of the feed, under the given base.
    pub fn ws_url(&self, base: &str) -> (r: String)
        ensures
            r@ == base@ + "/"@ + self.market() + "@depth@100ms"@,
    {
        base.to_owned().concat("/").concat(self.symbol.as_str()).concat("@depth@100ms")
    }

    /// The book.
    pub fn obi(&self) -> (r: &BinanceObi)
        requires
            self.wf(),
        ensures
            r.wf(),
            r@ == self@.book,
    {
        &self.obi
    }

    /// Pushes an imbalance and publishes its score, where the book is fit for it. Whether it was.
    pub fn update_alpha(
        &mut self,
        shared: &mut SharedAlpha,
        mid: Num,
        imbalance: Num,
        moments: Moments,
        alpha: Num,
        now_ms: u64,
    ) -> (r: bool)
        requires
            old(self).wf(),
        ensures
            final(self).wf(),
            final(self).market() == old(self).market(),
            final(self).limit() == old(self).limit(),
            r == fit(old(self)@.book, mid),
            final(self)@ == if r {
                Feed {
                    book: Depth {
                        imbalances: pushed(
                            old(self)@.book.imbalances,
                            old(self)@.book.window,
                            imbalance,
                        ),
                        moments,
                        ..old(self)@.book
                    },
                    ..old(self)@
                }
            } else {
                old(self)@
            },
            final(shared)@ == if r {
                AlphaState {
                    alpha,
                    samples: counted(old(shared)@.samples),
                    last: now_ms,
                    ..old(shared)@
                }
            } else {
                old(shared)@
            },
    {
        self.obi.update_alpha(shared, mid, imbalance, moments, alpha, now_ms)
    }

    /// A new connection: nothing is known, and no attempt was made.
    pub fn begin_session(&mut self, shared: &mut SharedAlpha)
        requires
            old(self).wf(),
        ensures
            final(self).wf(),
            final(self).market() == old(self).market(),
            final(self).limit() == old(self).limit(),
            final(self)@ == (Feed {
                book: blank(old(self)@.book),
                synced: false,
                attempts: 0,
            }),
            final(shared)@ == (AlphaState {
                alpha: spec_zero(),
                samples: 0,
                last: 0,
                ..old(shared)@
            }),
    {
        self.obi.reset(shared);
        self.synced = false;
        self.resync_attempts = 0;
    }

    /// Another snapshot is about to be fetched: book and published alpha are dropped.
    pub fn begin_resync(&mut self, shared: &mut SharedAlpha)
        requires
            old(self).wf(),
        ensures
            final(self).wf(),
            final(self).market() == old(self).market(),
            final(self).limit() == old(self).limit(),
            final(self)@ == (Feed { book: blank(old(self)@.book), synced: false, ..old(self)@ }),
            final(shared)@ == (AlphaState {
                alpha: spec_zero(),
                samples: 0,
                last: 0,
                ..old(shared)@
            }),
    {
        self.obi.reset(shared);
        self.synced = false;
    }

    /// What to do with a change.
    pub fn step(&self, synced: bool, event: &DepthEvent) -> (r: EventAction)
        ensures
            r == step_for(self@.book, synced, *event),
    {
        classify_event(
            synced,
            self.obi.last_update_id(),
            self.obi.prev_u(),
            event.big_u,
            event.u,
            event.pu,
        )
    }

    /// Takes a snapshot and the changes buffered while it was fetched. Whether the book is in
    /// step, or `None` where a change is missing. A buffer without a change that brackets the
    /// snapshot is no error.
    pub fn apply_snapshot_and_drain(
        &mut self,
        snapshot: &DepthSnapshot,
        buffer: &Vec<DepthEvent>,
    ) -> (r: Option<bool>)
        requires
            old(self).wf(),
            priced(snapshot.bids@),
            priced(snapshot.asks@),
            all_ok(buffer@),
        ensures
            final(self).wf(),
            final(self).market() == old(self).market(),
            final(self).limit() == old(self).limit(),
            ({
                let start = with_snapshot(
                    old(self)@.book,
                    snapshot.bids@,
                    snapshot.asks@,
                    snapshot.last_update_id,
                );
                let (book, synced, fine) = drained(start, buffer@, buffer@.len());
                &&& r == if fine {
                    Some(synced)
                } else {
                    None
                }
                &&& final(self)@ == (Feed { book, synced, ..old(self)@ })
            }),
    {
        self.obi.apply_snapshot(&snapshot.bids, &snapshot.asks, snapshot.last_update_id);
        let ghost start = self.obi@;
        let ghost all = buffer@;
        self.synced = false;
        let mut i: usize = 0;
        while i < buffer.len()
            invariant
                self.wf(),
                all == buffer@,
                all_ok(all),
                start == with_snapshot(
                    old(self)@.book,
                    snapshot.bids@,
                    snapshot.asks@,
                    snapshot.last_update_id,
                ),
                i <= all.len(),
                self.symbol@ == old(self).symbol@,
                self.snapshot_limit == old(self).snapshot_limit,
                self.resync_attempts == old(self).resync_attempts,
                drained(start, all, i as nat) == (self.obi@, self.synced, true),
            decreases all.len() - i,
        {
            let event: &DepthEvent = &buffer[i];
            assert(all[i as int].ok());
            match self.step(self.synced, event) {
                EventAction::Drop => {},
                EventAction::ApplyFirst => {
                    self.obi.apply_diff(&event.bids, &event.asks, event.u);
                    self.synced = true;
                },
                EventAction::Apply => {
                    self.obi.apply_diff(&event.bids, &event.asks, event.u);
                },
                EventAction::Resync => {
                    proof {
                        lemma_stuck(start, all, (i + 1) as nat, all.len());
                    }
                    return None;
                },
            }
            i = i + 1;
        }
        Some(self.synced)
    }

    /// Takes a snapshot and the changes buffered while it was fetched.
    pub fn on_snapshot(&mut self, snapshot: &DepthSnapshot, buffer: &Vec<DepthEvent>) -> (r:
        SnapshotStep)
        requires
            old(self).wf(),
            priced(snapshot.bids@),
            priced(snapshot.asks@),
            all_ok(buffer@),
        ensures
            final(self).wf(),
            final(self).market() == old(self).market(),
            final(self).limit() == old(self).limit(),
            (final(self)@, r) == after_snapshot(old(self)@, *snapshot, buffer@),
    {
        match self.apply_snapshot_and_drain(snapshot, buffer) {
            Some(synced) => {
                if synced {
                    self.resync_attempts = 0;
                }
                SnapshotStep::Live { synced }
            },
            None => {
                self.resync_attempts = self.resync_attempts.saturating_add(1);
                if self.resync_attempts >= MAX_RESYNC_ATTEMPTS {
                    SnapshotStep::GiveUp
                } else {
                    SnapshotStep::Retry
                }
            },
        }
    }

    /// Takes a change from the feed.
    pub fn on_live(&mut self, event: &DepthEvent) -> (r: LiveStep)
        requires
            old(self).wf(),
            event.ok(),
        ensures
            final(self).wf(),
            final(self).market() == old(self).market(),
            final(self).limit() == old(self).limit(),
            (final(self)@, r) == after_live(old(self)@, *event),
    {
        match self.step(self.synced, event) {
            EventAction::Drop => LiveStep::Skip,
            EventAction::ApplyFirst => {
                self.obi.apply_diff(&event.bids, &event.asks, event.u);
                self.synced = true;
                self.resync_attempts = 0;
                LiveStep::Applied
            },
            EventAction::Apply => {
                self.obi.apply_diff(&event.bids, &event.asks, event.u);
                LiveStep::Applied
            },
            EventAction::Resync => {
                self.resync_attempts = self.resync_attempts.saturating_add(1);
                if self.resync_attempts >= MAX_RESYNC_ATTEMPTS {
                    LiveStep::GiveUp
                } else {
                    LiveStep::Retry
                }
            },
        }
    }
}

proof fn lemma_stuck(s: Depth, events: Seq<DepthEvent>, i: nat, n: nat)
    requires
        i <= n,
        !drained(s, events, i).2,
    ensures
        drained(s, events, n) == drained(s, events, i),
    decreases n - i,
{
    if i < n {
        lemma_stuck(s, events, i, (n - 1) as nat);
    }
}

/// A change is applied to the book only where nothing is missing before it: it brackets the
/// snapshot, or it follows the change applied last.
pub proof fn applied_changes_leave_no_gap(s: Feed, e: DepthEvent)
    requires
        after_live(s, e).1 == LiveStep::Applied,
    ensures
        s.synced ==> e.pu == s.book.prev_u,
        !s.synced ==> e.big_u <= s.book.last_update_id <= e.u,
        after_live(s, e).0.synced,
        after_live(s, e).0.book.prev_u == e.u,
{
}

/// A change that is not applied leaves the book alone.
pub proof fn other_changes_leave_the_book(s: Feed, e: DepthEvent)
    requires
        after_live(s, e).1 != LiveStep::Applied,
    ensures
        after_live(s, e).0.book == s.book,
        after_live(s, e).0.synced == s.synced,
{
}

/// A buffer of changes that all end before the snapshot leaves the book waiting, and is no error.
pub proof fn stale_buffers_are_no_error(s: Depth, events: Seq<DepthEvent>, n: nat)
    requires
        n <= events.len(),
        forall|i: int| 0 <= i < n ==> (#[trigger] events[i]).u < s.last_update_id,
    ensures
        drained(s, events, n) == (s, false, true),
    decreases n,
{
    if n > 0 {
        stale_buffers_are_no_error(s, events, (n - 1) as nat);
    }
}

/// What to do with a change. In step, one that follows the change before is applied and any other
/// reveals a gap. Waiting, one that ends before the snapshot is dropped, one that begins no later
/// than the snapshot and ends no earlier brackets it, and one that begins after it reveals a gap.
pub proof fn changes_are_sorted_out(s: Depth, synced: bool, e: DepthEvent)
    ensures
        ({
            let r = step_for(s, synced, e);
            &&& r == EventAction::Apply <==> synced && e.pu == s.prev_u
            &&& r == EventAction::Drop <==> !synced && e.u < s.last_update_id
            &&& r == EventAction::ApplyFirst <==> !synced && e.big_u <= s.last_update_id <= e.u
            &&& r == EventAction::Resync <==> synced && e.pu != s.prev_u || !synced
                && s.last_update_id <= e.u && s.last_update_id < e.big_u
        }),
{
}

/// What a change from the feed does. One that is applied changes both sides of the book by its own
/// levels and is the last one from then on; where it brackets the snapshot the feed is in step and
/// the failures are forgotten. One that ends before the snapshot changes nothing. One that reveals a
/// gap is one more failure; the fifth in a row gives the connection up.
pub proof fn feeds_follow_their_changes(s: Feed, e: DepthEvent)
    ensures
        ({
            let (r, step) = after_live(s, e);
            let follows = s.synced && e.pu == s.book.prev_u;
            let brackets = !s.synced && e.big_u <= s.book.last_update_id <= e.u;
            let old_one = !s.synced && e.u < s.book.last_update_id;
            &&& step == LiveStep::Applied <==> follows || brackets
            &&& step == LiveStep::Skip <==> old_one
            &&& old_one ==> r == s
            &&& follows || brackets ==> {
                &&& r.synced
                &&& r.book.bids == changed(s.book.bids, e.bids@, e.bids@.len())
                &&& r.book.asks == changed(s.book.asks, e.asks@, e.asks@.len())
                &&& r.book.prev_u == e.u && r.book.last_update_id == s.book.last_update_id
                &&& r.book.imbalances == s.book.imbalances
            }
            &&& follows ==> r.attempts == s.attempts
            &&& brackets ==> r.attempts == 0
            &&& !follows && !brackets && !old_one ==> {
                &&& r.book == s.book && r.synced == s.synced
                &&& s.attempts < u32::MAX ==> r.attempts == s.attempts + 1
                &&& step == LiveStep::GiveUp <==> s.attempts >= 4
                &&& step == LiveStep::Retry <==> s.attempts < 4
            }
        }),
{
}

/// What a snapshot and its buffer do. Without a gap the feed is read on, in step where a change of
/// the buffer brackets the snapshot, and the failures are then forgotten. With one it is one more
/// failure; the fifth in a row gives the connection up.
pub proof fn snapshots_are_judged(s: Feed, snapshot: DepthSnapshot, buffer: Seq<DepthEvent>)
    ensures
        ({
            let start = Depth {
                bids: arranged(snapshot.bids@),
                asks: arranged(snapshot.asks@),
                last_update_id: snapshot.last_update_id,
                prev_u: 0,
                ..s.book
            };
            let (book, synced, fine) = drained(start, buffer, buffer.len());
            let (r, step) = after_snapshot(s, snapshot, buffer);
            &&& r.book == book && r.synced == synced
            &&& fine ==> step == (SnapshotStep::Live { synced })
            &&& fine && synced ==> r.attempts == 0
            &&& fine && !synced ==> r.attempts == s.attempts
            &&& !fine && s.attempts < u32::MAX ==> r.attempts == s.attempts + 1
            &&& !fine ==> (step == SnapshotStep::GiveUp <==> s.attempts >= 4) && (step
                == SnapshotStep::Retry <==> s.attempts < 4)
        }),
{
}

/// A buffer is drained like the feed is read: change by change, as long as there is no gap, and no
/// further. A book in step stands at the last change of the buffer.
pub proof fn buffers_are_read_like_the_feed(s: Depth, events: Seq<DepthEvent>, n: nat)
    requires
        0 < n <= events.len(),
        drained(s, events, (n - 1) as nat).2,
    ensures
        ({
            let (book, synced, fine) = drained(s, events, (n - 1) as nat);
            let f = Feed { book, synced, attempts: 0 };
            let (after, step) = after_live(f, events[n - 1]);
            let r = drained(s, events, n);
            &&& r.0 == after.book && r.1 == after.synced
            &&& r.2 <==> step == LiveStep::Applied || step == LiveStep::Skip
            &&& r.2 && r.1 ==> r.0.prev_u == events[n - 1].u
        }),
{
}

/// Until there is a change a buffer leaves the book of the snapshot as it is, waiting.
pub proof fn empty_buffers_wait(s: Depth, events: Seq<DepthEvent>)
    ensures
        drained(s, events, 0) == (s, false, true),
{
}

/// What a document says of a change: its ids under `U`, `u` and `pu`, where these are integers, and
/// the levels of its bids under `b` and of its asks under `a`. A level is a list of two texts at
/// least, price and size; nothing else is one.
pub proof fn changes_are_read_from_their_members(
    d: Document,
    e: RawDepthEvent,
    n: i64,
    items: Seq<Document>,
    p: Seq<char>,
    q: Seq<char>,
)
    requires
        reads_change(d, e),
    ensures
        member(d, "U"@) == Some(Document::Signed(n)) ==> e.big_u == n,
        member(d, "u"@) == Some(Document::Signed(n)) ==> e.u == n,
        member(d, "pu"@) == Some(Document::Signed(n)) ==> e.pu == n,
        n >= 0 && member(d, "U"@) == Some(Document::Unsigned(n as u64)) ==> e.big_u == n,
        n >= 0 && member(d, "u"@) == Some(Document::Unsigned(n as u64)) ==> e.u == n,
        n >= 0 && member(d, "pu"@) == Some(Document::Unsigned(n as u64)) ==> e.pu == n,
        member(d, "pu"@) is None ==> e.pu == 0,
        member(d, "b"@) == Some(Document::List(items)) ==> (text_pairs(e.bids@).contains((p, q))
            <==> names_level(items, p, q)),
        member(d, "a"@) == Some(Document::List(items)) ==> (text_pairs(e.asks@).contains((p, q))
            <==> names_level(items, p, q)),
        member(d, "b"@) is None ==> text_pairs(e.bids@).len() == 0,
        member(d, "a"@) is None ==> text_pairs(e.asks@).len() == 0,
{
    lemma_named_levels(items, items.len(), p, q);
}

/// Whether one of some items is a level of this price and size.
pub open spec fn names_level(items: Seq<Document>, p: Seq<char>, q: Seq<char>) -> bool {
    exists|i: int|
        0 <= i < items.len() && (#[trigger] items[i] matches Document::List(pair) && pair.len() >= 2
            && pair[0] == Document::Text(p) && pair[1] == Document::Text(q))
}

proof fn lemma_named_levels(items: Seq<Document>, n: nat, p: Seq<char>, q: Seq<char>)
    requires
        n <= items.len(),
    ensures
        level_texts(items, n).contains((p, q)) <==> exists|i: int|
            0 <= i < n && (#[trigger] items[i] matches Document::List(pair) && pair.len() >= 2
                && pair[0] == Document::Text(p) && pair[1] == Document::Text(q)),
    decreases n,
{
    if n > 0 {
        lemma_named_levels(items, (n - 1) as nat, p, q);
        let rest = level_texts(items, (n - 1) as nat);
        let all = level_texts(items, n);
        let last = items[n - 1];
        if rest.contains((p, q)) {
            let k = choose|k: int| 0 <= k < rest.len() && rest[k] == (p, q);
            assert(all[k] == (p, q));
        }
        if all.contains((p, q)) {
            let k = choose|k: int| 0 <= k < all.len() && all[k] == (p, q);
            if k < rest.len() {
                assert(rest[k] == (p, q));
            } else {
                assert(level_text(last) == Some((p, q)));
            }
        }
        if level_text(last) == Some((p, q)) {
            assert(all[rest.len() as int] == (p, q));
        }
    }
}

/// Levels as texts are their prices and sizes, one pair for each, in order.
pub proof fn texts_pair_price_and_size(v: Seq<(String, String)>, i: int)
    requires
        0 <= i < v.len(),
    ensures
        text_pairs(v).len() == v.len(),
        text_pairs(v)[i].0 == v[i].0@,
        text_pairs(v)[i].1 == v[i].1@,
{
}

} // verus!
