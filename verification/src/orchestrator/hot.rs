//! The market-data task: which book messages are applied, when quotes are made, and what becomes
//! of the operations of a cycle.
//!
//! Times are nanoseconds of one monotonic clock.
use vstd::prelude::*;
use crate::book::local_book::{arranged, changed, priced, LocalBook};
use crate::exec::order_laws::{all_pending, op_cell, operations_fit_their_slots, ops_in_range};
use crate::exec::order_manager::{
    after_event, cancels, cell_cancel, planned, tracked_ids, Cycle, OrderManager, Orders,
    SideQuote,
};
use crate::lighter::messages::{first_of, OrderBookMsg, PriceLevel, TickerMsg};
use crate::num::{spec_epsilon, spec_zero, Num};
use crate::strategy::vol_obi::{cold, VolObiCalculator};
use crate::text::{contains_text, occurs};
use crate::types::{BatchOp, OrderAction, OrderEvent};

verus! {

/// What a message of the market-data feed is about.
#[derive(Clone, Copy, Debug, PartialEq, Eq, Structural)]
pub enum MarketMessage {
    Book,
    Ticker,
    Other,
}

/// What a message of the market-data feed is about, told from its type.
pub fn market_message(kind: &str) -> (r: MarketMessage)
    ensures
        r == if occurs(kind@, "order_book"@) {
            MarketMessage::Book
        } else if occurs(kind@, "ticker"@) {
            MarketMessage::Ticker
        } else {
            MarketMessage::Other
        },
{
    if contains_text(kind, "order_book") {
        MarketMessage::Book
    } else if contains_text(kind, "ticker") {
        MarketMessage::Ticker
    } else {
        MarketMessage::Other
    }
}

/// A ticker no older than this, in nanoseconds, counts for the check of the book.
pub const SANITY_TICKER_FRESH: u64 = 5_000_000_000;

/// So many diverged updates in a row call for a fresh snapshot.
pub const SANITY_STREAK_TRIP: u32 = 10;

/// How the program runs.
#[derive(Clone, Copy, Debug, PartialEq, Eq, Structural)]
pub enum Mode {
    /// Everything but the sending of orders.
    DryRun,
    /// Orders are sent.
    Live,
}

/// Best bid and ask of the market's ticker, and when they came.
#[derive(Clone, Copy, Debug, PartialEq, Eq, Structural)]
pub struct TickerBbo {
    pub bid: Num,
    pub ask: Num,
    pub at: u64,
}

/// Whether the book is to be trusted.
#[derive(Clone, Copy, Debug, PartialEq, Eq, Structural)]
pub struct BookGuard {
    /// A fresh snapshot is awaited; nothing else is applied until it comes.
    pub awaiting_resnapshot: bool,
    /// Diverged updates in a row.
    pub sanity_streak: u32,
    pub ticker_bbo: Option<TickerBbo>,
}

/// What becomes of a book message.
#[derive(Clone, Copy, Debug, PartialEq, Eq, Structural)]
pub enum BookStep {
    /// It is ignored until a snapshot comes.
    Awaiting,
    /// It is older than the book.
    Stale,
    /// Updates before it were missed: a fresh snapshot is called for.
    Gap,
    /// It is applied.
    Applied,
}

/// What a book shows.
pub struct Shown {
    pub bids: Seq<PriceLevel>,
    pub asks: Seq<PriceLevel>,
    pub initialized: bool,
    pub offset: Option<u64>,
    pub nonce: Option<i64>,
}

/// What a book shows.
pub open spec fn shown(b: LocalBook) -> Shown {
    Shown {
        bids: b.bids@,
        asks: b.asks@,
        initialized: b.initialized,
        offset: b.last_offset,
        nonce: b.last_nonce,
    }
}

/// A book as it is after a reconnect, or as it was.
pub open spec fn opened(b: Shown, reset: bool) -> Shown {
    if reset {
        Shown {
            bids: Seq::empty(),
            asks: Seq::empty(),
            initialized: false,
            offset: None,
            nonce: None,
        }
    } else {
        b
    }
}

/// What becomes of a message. A snapshot is always applied. A delta is ignored while a snapshot
/// is awaited, is stale where its offset is not newer than the book's, and reveals a gap where
/// the first nonce that it covers is not the book's.
pub open spec fn book_step(b: Shown, awaiting: bool, msg: OrderBookMsg) -> BookStep {
    if msg.snapshot() {
        BookStep::Applied
    } else if awaiting {
        BookStep::Awaiting
    } else if b.initialized && msg.spec_offset() is Some && b.offset is Some
        && msg.spec_offset()->0 <= b.offset->0 {
        BookStep::Stale
    } else if b.initialized && msg.spec_begin_nonce() is Some && b.nonce is Some
        && msg.spec_begin_nonce()->0 != b.nonce->0 {
        BookStep::Gap
    } else {
        BookStep::Applied
    }
}

/// The book once a message was applied.
pub open spec fn applied(b: Shown, msg: OrderBookMsg) -> Shown {
    let whole = msg.snapshot() || !b.initialized;
    Shown {
        bids: if whole {
            arranged(msg.order_book.bids@)
        } else {
            changed(b.bids, msg.order_book.bids@, msg.order_book.bids@.len())
        },
        asks: if whole {
            arranged(msg.order_book.asks@)
        } else {
            changed(b.asks, msg.order_book.asks@, msg.order_book.asks@.len())
        },
        initialized: true,
        offset: first_of(msg.spec_offset(), b.offset),
        nonce: first_of(msg.spec_nonce(), b.nonce),
    }
}

/// The guard once a fresh snapshot was called for.
pub open spec fn called(g: BookGuard) -> BookGuard {
    BookGuard { awaiting_resnapshot: true, sanity_streak: 0, ..g }
}

/// The guard after a reconnect, or as it was.
pub open spec fn guard_opened(g: BookGuard, reset: bool) -> BookGuard {
    if reset {
        BookGuard { awaiting_resnapshot: false, sanity_streak: 0, ..g }
    } else {
        g
    }
}

/// The guard after a message.
pub open spec fn guard_after(g: BookGuard, reset: bool, msg: OrderBookMsg, step: BookStep) -> BookGuard {
    let o = guard_opened(g, reset);
    if msg.snapshot() {
        BookGuard { awaiting_resnapshot: false, ..o }
    } else if step == BookStep::Gap {
        called(o)
    } else {
        o
    }
}

/// Whether a book has diverged for so long that a snapshot is called for.
pub open spec fn trips(
    g: BookGuard,
    threshold_bps: Num,
    ticker_mid: Num,
    distance_bps: Num,
    now: u64,
) -> bool {
    let counts = divergence_counts(g, threshold_bps, ticker_mid, now);
    let exceeds = threshold_bps.below(distance_bps);
    counts && exceeds && streak_after(g, counts, exceeds) >= SANITY_STREAK_TRIP
}

/// A guard that was told of a ticker: one that is crossed, or without a positive bid, is passed over.
pub open spec fn told_ticker(g: BookGuard, msg: TickerMsg, now: u64) -> BookGuard {
    let b = first_of(msg.best_bid, msg.bid);
    let a = first_of(msg.best_ask, msg.ask);
    if b is Some && a is Some && spec_zero().below(b->0) && b->0.below(a->0) {
        BookGuard { ticker_bbo: Some(TickerBbo { bid: b->0, ask: a->0, at: now }), ..g }
    } else {
        g
    }
}

/// Whether the book is held against its ticker at all.
pub open spec fn divergence_counts(
    g: BookGuard,
    threshold_bps: Num,
    ticker_mid: Num,
    now: u64,
) -> bool {
    &&& !threshold_bps.at_most(spec_zero())
    &&& g.ticker_bbo is Some
    &&& elapsed(now, g.ticker_bbo->0.at) <= SANITY_TICKER_FRESH
    &&& !ticker_mid.at_most(spec_zero())
}

/// The diverged updates in a row after one more update.
pub open spec fn streak_after(g: BookGuard, counts: bool, exceeds: bool) -> u32 {
    if !counts {
        g.sanity_streak
    } else if exceeds {
        (g.sanity_streak + 1) as u32
    } else {
        0
    }
}

impl BookGuard {
    /// Fewer updates in a row diverged than call for a snapshot.
    pub open spec fn wf(&self) -> bool {
        self.sanity_streak < SANITY_STREAK_TRIP
    }

    /// A guard of a book that was never seen.
    pub fn new() -> (r: BookGuard)
        ensures
            r.wf(),
            !r.awaiting_resnapshot,
            r.sanity_streak == 0,
            r.ticker_bbo is None,
    {
        BookGuard { awaiting_resnapshot: false, sanity_streak: 0, ticker_bbo: None }
    }

    /// The book is no longer to be trusted: nothing is applied until a snapshot comes.
    pub fn request_resnapshot(&mut self)
        ensures
            *final(self) == called(*old(self)),
            final(self).wf(),
    {
        self.awaiting_resnapshot = true;
        self.sanity_streak = 0;
    }

    /// Takes a ticker, where it has a positive bid below its ask.
    pub fn on_ticker(&mut self, msg: &TickerMsg, now: u64)
        ensures
            ({
                let b = first_of(msg.best_bid, msg.bid);
                let a = first_of(msg.best_ask, msg.ask);
                *final(self) == if b is Some && a is Some && spec_zero().below(b->0) && b->0.below(
                    a->0,
                ) {
                    BookGuard {
                        ticker_bbo: Some(TickerBbo { bid: b->0, ask: a->0, at: now }),
                        ..*old(self)
                    }
                } else {
                    *old(self)
                }
            }),
            *final(self) == told_ticker(*old(self), *msg, now),
    {
        match (msg.best_bid(), msg.best_ask()) {
            (Some(b), Some(a)) => {
                if b.is_positive() && b.lt(a) {
                    self.ticker_bbo = Some(TickerBbo { bid: b, ask: a, at: now });
                }
            },
            _ => {},
        }
    }

    /// Whether the book has diverged from its ticker for so long that a snapshot is called for:
    /// `ticker_mid` is the mean of the ticker's bid and ask, and `distance_bps` how far the book's
    /// mid price lies from it, in basis points of it. A threshold that is not positive disables
    /// the check.
    pub fn book_sanity_diverged(
        &mut self,
        threshold_bps: Num,
        ticker_mid: Num,
        distance_bps: Num,
        now: u64,
    ) -> (r: bool)
        requires
            old(self).wf(),
        ensures
            ({
                let counts = divergence_counts(*old(self), threshold_bps, ticker_mid, now);
                let exceeds = threshold_bps.below(distance_bps);
                let streak = streak_after(*old(self), counts, exceeds);
                &&& r == (counts && exceeds && streak >= SANITY_STREAK_TRIP)
                &&& r == trips(*old(self), threshold_bps, ticker_mid, distance_bps, now)
                &&& *final(self) == (BookGuard { sanity_streak: streak, ..*old(self) })
                &&& !r ==> final(self).wf()
            }),
    {
        if threshold_bps.le(Num::zero()) {
            return false;
        }
        let at: u64 = match self.ticker_bbo {
            Some(t) => t.at,
            None => {
                return false;
            },
        };
        if time_since(now, at) > SANITY_TICKER_FRESH {
            return false;
        }
        if ticker_mid.le(Num::zero()) {
            return false;
        }
        if threshold_bps.lt(distance_bps) {
            self.sanity_streak = self.sanity_streak + 1;
            return self.sanity_streak >= SANITY_STREAK_TRIP;
        }
        self.sanity_streak = 0;
        false
    }

    /// Takes a book message; `reset` says that the feed reconnected since the last one.
    pub fn on_orderbook(
        &mut self,
        book: &mut LocalBook,
        calc: &mut VolObiCalculator,
        msg: &OrderBookMsg,
        reset: bool,
    ) -> (r: BookStep)
        requires
            old(self).wf(),
            old(book).wf(),
            old(calc).wf(),
            priced(msg.order_book.bids@),
            priced(msg.order_book.asks@),
        ensures
            final(self).wf(),
            final(book).wf(),
            final(calc).wf(),
            ({
                let start = opened(shown(*old(book)), reset);
                &&& r == book_step(start, guard_opened(*old(self), reset).awaiting_resnapshot, *msg)
                &&& *final(self) == guard_after(*old(self), reset, *msg, r)
                &&& shown(*final(book)) == if r == BookStep::Applied {
                    applied(start, *msg)
                } else {
                    start
                }
                &&& final(calc)@ == if reset || r == BookStep::Applied && !start.initialized {
                    cold(old(calc)@)
                } else {
                    old(calc)@
                }
            }),
    {
        let ghost signal = calc@;
        if reset {
            book.reset();
            calc.reset();
            self.awaiting_resnapshot = false;
            self.sanity_streak = 0;
        }
        let ghost start = opened(shown(*old(book)), reset);
        proof {
            assert(shown(*book).bids =~= start.bids);
            assert(shown(*book).asks =~= start.asks);
            assert(cold(cold(signal)) == cold(signal));
        }
        let offset: Option<u64> = msg.effective_offset();
        let snapshot: bool = msg.is_snapshot();
        if snapshot {
            self.awaiting_resnapshot = false;
        } else {
            if self.awaiting_resnapshot {
                return BookStep::Awaiting;
            }
            if book.initialized {
                if let (Some(off), Some(last)) = (offset, book.last_offset) {
                    if off <= last {
                        return BookStep::Stale;
                    }
                }
                if let (Some(bn), Some(last)) = (msg.effective_begin_nonce(), book.last_nonce) {
                    if bn != last {
                        self.request_resnapshot();
                        return BookStep::Gap;
                    }
                }
            }
        }
        if snapshot || !book.initialized {
            let was_initialized: bool = book.initialized;
            book.apply_snapshot(&msg.order_book.bids, &msg.order_book.asks);
            if !was_initialized {
                calc.reset();
            }
        } else {
            book.apply_delta(&msg.order_book.bids, &msg.order_book.asks);
        }
        if offset.is_some() {
            book.last_offset = offset;
        }
        let nonce: Option<i64> = msg.effective_nonce();
        if nonce.is_some() {
            book.last_nonce = nonce;
        }
        BookStep::Applied
    }
}

/// Time from one moment to another; none where the second is not later.
pub open spec fn elapsed(now: u64, then: u64) -> int {
    if now >= then {
        now - then
    } else {
        0
    }
}

/// Time from one moment to another; none where the second is not later.
fn time_since(now: u64, then: u64) -> (r: u64)
    ensures
        r == elapsed(now, then),
{
    if now >= then {
        now - then
    } else {
        0
    }
}

/// How quotes are spaced in time.
#[derive(Clone, Copy, Debug, PartialEq, Eq, Structural)]
pub struct QuoteClock {
    pub min_interval: u64,
    pub last_quote: Option<u64>,
}

/// Whether quotes are due: an interval has passed since the last ones.
pub open spec fn is_due(c: QuoteClock, now: u64) -> bool {
    !(c.last_quote is Some && elapsed(now, c.last_quote->0) < c.min_interval)
}

impl QuoteClock {
    /// Whether quotes are due; if so, the next ones are due an interval from now.
    pub fn due(&mut self, now: u64) -> (r: bool)
        ensures
            r == is_due(*old(self), now),
            *final(self) == (QuoteClock {
                last_quote: if r {
                    Some(now)
                } else {
                    old(self).last_quote
                },
                ..*old(self)
            }),
    {
        if let Some(t) = self.last_quote {
            if time_since(now, t) < self.min_interval {
                return false;
            }
        }
        self.last_quote = Some(now);
        true
    }
}

/// The time after a change of the position in which resting orders are left alone.
#[derive(Clone, Copy, Debug, PartialEq, Eq, Structural)]
pub struct PositionHold {
    pub mode: Mode,
    /// Length of that time.
    pub hold: u64,
    pub last_seen_position: Option<Num>,
    pub hold_until: Option<u64>,
}

/// What a look at the position calls for.
#[derive(Clone, Copy, Debug, PartialEq, Eq, Structural)]
pub struct HoldStep {
    /// Resting orders are left alone.
    pub hold: bool,
    /// The reconcile poller is woken.
    pub notify: bool,
}

/// Whether the position changed, given how far it is from the last one.
pub open spec fn position_changed(s: PositionHold, distance: Num) -> bool {
    s.last_seen_position is Some && spec_epsilon().at_most(distance)
}

/// The deadline of the hold, if any, after a look at the position.
pub open spec fn hold_deadline(s: PositionHold, distance: Num, now: u64) -> Option<u64> {
    if position_changed(s, distance) {
        Some((now + s.hold) as u64)
    } else {
        s.hold_until
    }
}

/// What a look at the position leads to, and what it calls for. Outside live trading nothing is
/// ever held.
pub open spec fn after_look(s: PositionHold, position: Num, distance: Num, now: u64) -> (
    PositionHold,
    HoldStep,
) {
    if s.mode != Mode::Live {
        (s, HoldStep { hold: false, notify: false })
    } else {
        let until = hold_deadline(s, distance, now);
        let hold = until is Some && now < until->0;
        (
            PositionHold {
                last_seen_position: Some(position),
                hold_until: if hold {
                    until
                } else {
                    None
                },
                ..s
            },
            HoldStep { hold, notify: position_changed(s, distance) },
        )
    }
}

impl PositionHold {
    /// Nothing was seen yet.
    pub fn new(mode: Mode, hold: u64) -> (r: PositionHold)
        ensures
            r == (PositionHold { mode, hold, last_seen_position: None, hold_until: None }),
    {
        PositionHold { mode, hold, last_seen_position: None, hold_until: None }
    }

    /// Looks at the position: `distance` is how far it is from the last one, and is not read for
    /// the first. Outside live trading nothing is ever held.
    pub fn hold_quotes_for_position_reconcile(
        &mut self,
        position: Num,
        distance: Num,
        now: u64,
    ) -> (r: HoldStep)
        requires
            now + old(self).hold <= u64::MAX,
        ensures
            (*final(self), r) == after_look(*old(self), position, distance, now),
    {
        if self.mode != Mode::Live {
            return HoldStep { hold: false, notify: false };
        }
        let mut notify: bool = false;
        if self.last_seen_position.is_some() {
            if Num::epsilon().le(distance) {
                self.hold_until = Some(now + self.hold);
                notify = true;
            }
        }
        self.last_seen_position = Some(position);
        if let Some(until) = self.hold_until {
            if now < until {
                return HoldStep { hold: true, notify };
            }
            self.hold_until = None;
        }
        HoldStep { hold: false, notify }
    }
}

/// What a quoting cycle does.
#[derive(Clone, Copy, Debug, PartialEq, Eq, Structural)]
pub enum QuotePlan {
    /// The feeds are not there: every resting order is taken off the book.
    PullLadder,
    /// There is nothing to quote.
    NoQuotes,
    /// Only an order that reduces the position is quoted.
    ExitOnly,
    /// The whole ladder is quoted.
    Full,
}

/// Whether live quoting has what it needs: some capital, and a position that was ever seen.
pub open spec fn feeds_ready(mode: Mode, capital: Num, position_age: u64) -> bool {
    mode != Mode::Live || !capital.at_most(spec_zero()) && position_age != u64::MAX
}

/// Whether live quoting is still within its first time. Without a start it is.
pub open spec fn warming(mode: Mode, start: Option<u64>, warmup: u64, now: u64) -> bool {
    mode == Mode::Live && (start is None || elapsed(now, start->0) < warmup)
}

/// The position that quoting goes by: one that is worth less than the threshold counts as none.
pub open spec fn quoted_position(position: Num, value: Num, dust: Num) -> Num {
    if value.below(dust) {
        spec_zero()
    } else {
        position
    }
}

/// The position that quoting goes by: one that is worth less than the threshold counts as none.
pub fn effective_position(position: Num, value: Num, dust: Num) -> (r: Num)
    ensures
        r == quoted_position(position, value, dust),
{
    if value.lt(dust) {
        Num::zero()
    } else {
        position
    }
}

/// Whether live quoting is still within its first time.
pub fn in_wallclock_warmup(mode: Mode, start: Option<u64>, warmup: u64, now: u64) -> (r: bool)
    ensures
        r == warming(mode, start, warmup, now),
{
    if mode != Mode::Live {
        return false;
    }
    match start {
        Some(s) => time_since(now, s) < warmup,
        None => true,
    }
}

/// What a quoting cycle does, given what is known.
pub open spec fn plan_of(
    mode: Mode,
    capital: Num,
    position_age: u64,
    warmed_up: bool,
    in_warmup: bool,
    position: Num,
) -> QuotePlan {
    if !feeds_ready(mode, capital, position_age) {
        QuotePlan::PullLadder
    } else if warmed_up && !in_warmup {
        QuotePlan::Full
    } else if spec_epsilon().at_most(position.absolute()) {
        QuotePlan::ExitOnly
    } else {
        QuotePlan::NoQuotes
    }
}

/// What a quoting cycle does, given what is known.
pub fn plan_quotes(
    mode: Mode,
    capital: Num,
    position_age: u64,
    warmed_up: bool,
    in_warmup: bool,
    position: Num,
) -> (r: QuotePlan)
    ensures
        r == plan_of(mode, capital, position_age, warmed_up, in_warmup, position),
{
    if mode == Mode::Live && (capital.le(Num::zero()) || position_age == u64::MAX) {
        return QuotePlan::PullLadder;
    }
    if warmed_up && !in_warmup {
        QuotePlan::Full
    } else if Num::epsilon().le(position.abs()) {
        QuotePlan::ExitOnly
    } else {
        QuotePlan::NoQuotes
    }
}

proof fn lemma_pending_len(s: Orders, ops: Seq<BatchOp>, now: u64)
    requires
        ops_in_range(s, ops),
    ensures
        all_pending(s, ops, now).bids.len() == s.bids.len(),
    decreases ops.len(),
{
    if ops.len() > 0 {
        assert(ops[ops.len() - 1].level < s.bids.len());
        assert forall|i: int| 0 <= i < ops.drop_last().len() implies (
        #[trigger] ops.drop_last()[i]).level < s.bids.len() by {
            assert(ops.drop_last()[i] == ops[i]);
        }
        lemma_pending_len(s, ops.drop_last(), now);
    }
}

/// Takes the slot of every operation, in turn, before any of them is sent.
pub fn occupy(om: &mut OrderManager, ops: &Vec<BatchOp>, now: u64)
    requires
        old(om).wf(),
        ops_in_range(old(om)@, ops@),
    ensures
        final(om).wf(),
        final(om)@ == all_pending(old(om)@, ops@, now),
{
    let ghost start = om@;
    let mut i: usize = 0;
    proof {
        assert(ops@.take(0) =~= Seq::empty());
    }
    while i < ops.len()
        invariant
            om.wf(),
            i <= ops@.len(),
            ops_in_range(start, ops@),
            om@ == all_pending(start, ops@.take(i as int), now),
        decreases ops@.len() - i,
    {
        proof {
            assert forall|k: int| 0 <= k < i implies (#[trigger] ops@.take(i as int)[k]).level
                < start.bids.len() by {
                assert(ops@.take(i as int)[k] == ops@[k]);
            }
            lemma_pending_len(start, ops@.take(i as int), now);
            assert(ops@.take(i + 1).drop_last() =~= ops@.take(i as int));
        }
        om.mark_pending(&ops[i], now);
        i = i + 1;
    }
    proof {
        assert(ops@.take(i as int) =~= ops@);
    }
}

/// What a dry run takes for granted of an operation: it went through, under the client id where
/// the exchange's is not known.
pub open spec fn simulated(op: BatchOp) -> OrderEvent {
    match op.action {
        OrderAction::Cancel => OrderEvent::ClearLive {
            side: op.side,
            level: op.level,
            client_order_id: op.client_order_id,
        },
        _ => OrderEvent::BindLive {
            side: op.side,
            level: op.level,
            client_order_id: op.client_order_id,
            exchange_id: Some(
                match op.exchange_id {
                    Some(e) => e,
                    None => op.client_order_id,
                },
            ),
            price: op.price,
            size: op.size,
        },
    }
}

/// The state after the first `n` operations went through in a dry run.
pub open spec fn all_simulated(s: Orders, ops: Seq<BatchOp>, n: nat, now: u64) -> Orders
    decreases n,
{
    if n == 0 {
        s
    } else {
        after_event(all_simulated(s, ops, (n - 1) as nat, now), simulated(ops[n - 1]), None, now)
    }
}

proof fn lemma_simulated_len(s: Orders, ops: Seq<BatchOp>, n: nat, now: u64)
    requires
        n <= ops.len(),
        ops_in_range(s, ops),
    ensures
        all_simulated(s, ops, n, now).bids.len() == s.bids.len(),
    decreases n,
{
    if n > 0 {
        assert(ops[n - 1].level < s.bids.len());
        lemma_simulated_len(s, ops, (n - 1) as nat, now);
    }
}

/// Lets every operation go through, as a dry run does.
pub fn simulate(om: &mut OrderManager, ops: &Vec<BatchOp>, now: u64)
    requires
        old(om).wf(),
        ops_in_range(old(om)@, ops@),
    ensures
        final(om).wf(),
        final(om)@ == all_simulated(old(om)@, ops@, ops@.len(), now),
{
    let ghost start = om@;
    let mut i: usize = 0;
    while i < ops.len()
        invariant
            om.wf(),
            i <= ops@.len(),
            ops_in_range(start, ops@),
            om@ == all_simulated(start, ops@, i as nat, now),
        decreases ops@.len() - i,
    {
        proof {
            lemma_simulated_len(start, ops@, i as nat, now);
        }
        let op: BatchOp = ops[i];
        let evt: OrderEvent = match op.action {
            OrderAction::Cancel => OrderEvent::ClearLive {
                side: op.side,
                level: op.level,
                client_order_id: op.client_order_id,
            },
            _ => OrderEvent::BindLive {
                side: op.side,
                level: op.level,
                client_order_id: op.client_order_id,
                exchange_id: Some(
                    match op.exchange_id {
                        Some(e) => e,
                        None => op.client_order_id,
                    },
                ),
                price: op.price,
                size: op.size,
            },
        };
        om.apply_event(evt, None, now);
        i = i + 1;
    }
}

/// What leaves a quoting cycle.
#[derive(Debug)]
pub struct CycleOutput {
    /// The operations of the cycle.
    pub ops: Vec<BatchOp>,
    /// Whether they are handed to the sender.
    pub send: bool,
    /// The tracked client ids, where they changed.
    pub publish: Option<Vec<i64>>,
}

/// Brings the resting orders to the wanted quotes: collects the operations, takes their slots,
/// tells which tracked ids to publish, and in a dry run lets the operations go through.
pub fn quote_cycle(
    om: &mut OrderManager,
    levels: &Vec<(Option<SideQuote>, Option<SideQuote>)>,
    size: Num,
    position: Num,
    threshold_bps: Num,
    now_ns: i64,
    hold: bool,
    last_tracked: &Vec<i64>,
    mode: Mode,
    now: u64,
) -> (r: CycleOutput)
    requires
        old(om).wf(),
        levels@.len() <= old(om)@.bids.len(),
    ensures
        final(om).wf(),
        ({
            let c = Cycle {
                base_amount: size,
                position,
                threshold_bps,
                now_ns: now_ns as int,
                hold,
            };
            let plan = planned(old(om)@, levels@, c, 2 * levels@.len());
            let taken = all_pending(Orders { last_id: plan.1, ..old(om)@ }, plan.0, now);
            &&& r.ops@ == plan.0
            &&& r.send == (mode == Mode::Live && plan.0.len() > 0)
            &&& match r.publish {
                Some(ids) => ids@ == tracked_ids(taken) && ids@ != last_tracked@,
                None => tracked_ids(taken) == last_tracked@,
            }
            &&& final(om)@ == if mode == Mode::DryRun {
                all_simulated(taken, plan.0, plan.0.len(), now)
            } else {
                taken
            }
        }),
{
    let ghost start = om@;
    let count: usize = levels.len();
    let ops: Vec<BatchOp> = om.collect_order_operations(
        levels,
        size,
        position,
        threshold_bps,
        now_ns,
        hold,
    );
    proof {
        assert(levels@.len() == count);
        let c = Cycle { base_amount: size, position, threshold_bps, now_ns: now_ns as int, hold };
        operations_fit_their_slots(start, levels@, c, 2 * levels@.len());
        assert forall|k: int| 0 <= k < ops@.len() implies (#[trigger] ops@[k]).level
            < start.bids.len() by {
            assert(op_cell(ops@[k]) < 2 * levels@.len());
        }
        lemma_pending_len(om@, ops@, now);
    }
    occupy(om, &ops, now);
    let publish: Option<Vec<i64>> = if om.tracked_ids_equal(last_tracked) {
        None
    } else {
        Some(om.tracked_client_ids())
    };
    let send: bool = match mode {
        Mode::DryRun => {
            simulate(om, &ops, now);
            false
        },
        Mode::Live => ops.len() > 0,
    };
    CycleOutput { ops, send, publish }
}

proof fn lemma_cancels_in_range(s: Orders, cells: nat)
    requires
        cells <= 2 * s.bids.len(),
        s.bids.len() <= usize::MAX,
    ensures
        ops_in_range(s, cancels(s, cells)),
    decreases cells,
{
    if cells > 0 {
        lemma_cancels_in_range(s, (cells - 1) as nat);
        if let Some(op) = cell_cancel(s, cells - 1) {
            assert(op.level == (cells - 1) / 2);
        }
    }
}

/// Takes every resting order with a known exchange id off the book: its slot is taken by the
/// cancel at once.
pub fn pull_ladder(om: &mut OrderManager, now: u64) -> (r: Vec<BatchOp>)
    requires
        old(om).wf(),
    ensures
        final(om).wf(),
        r@ == cancels(old(om)@, 2 * old(om)@.bids.len()),
        final(om)@ == all_pending(old(om)@, r@, now),
{
    let ghost start = om@;
    let count: usize = om.num_levels();
    let ops: Vec<BatchOp> = om.collect_cancel_ops();
    proof {
        assert(start.bids.len() == count);
        lemma_cancels_in_range(start, 2 * start.bids.len());
    }
    occupy(om, &ops, now);
    ops
}

/// A book that was given up is not changed by any delta: only a snapshot, or a reconnect, is
/// looked at.
pub proof fn distrusted_book_waits(b: Shown, msg: OrderBookMsg)
    requires
        !msg.snapshot(),
    ensures
        book_step(b, true, msg) == BookStep::Awaiting,
{
}

/// A gap is noticed exactly when the first nonce of a delta is not the last one of the book, and
/// from then on the book waits for a snapshot.
pub proof fn gaps_are_noticed(b: Shown, g: BookGuard, msg: OrderBookMsg)
    requires
        !msg.snapshot(),
        !g.awaiting_resnapshot,
        b.initialized,
        msg.spec_offset() is None || b.offset is None || msg.spec_offset()->0 > b.offset->0,
        msg.spec_begin_nonce() is Some,
        b.nonce is Some,
    ensures
        (book_step(b, false, msg) == BookStep::Gap) == (msg.spec_begin_nonce()->0 != b.nonce->0),
        book_step(b, false, msg) == BookStep::Gap ==> guard_after(
            g,
            false,
            msg,
            BookStep::Gap,
        ).awaiting_resnapshot,
{
}

/// A delta whose nonces follow on the book's leaves the book at its own nonce, so that the next
/// one in sequence is no gap.
pub proof fn contiguous_deltas_are_applied(b: Shown, msg: OrderBookMsg, next: OrderBookMsg)
    requires
        !msg.snapshot(),
        !next.snapshot(),
        b.initialized,
        book_step(b, false, msg) == BookStep::Applied,
        msg.spec_nonce() is Some,
        next.spec_begin_nonce() == msg.spec_nonce(),
    ensures
        applied(b, msg).nonce == msg.spec_nonce(),
        book_step(applied(b, msg), false, next) != BookStep::Gap,
{
}

/// Right after a change of the position resting orders are held for the whole time of the hold,
/// and no longer unless it changes again.
pub proof fn holds_last_their_time(s: PositionHold, distance: Num, now: u64, t: u64)
    requires
        s.mode == Mode::Live,
        now + s.hold <= u64::MAX,
        position_changed(s, distance),
    ensures
        hold_deadline(s, distance, now) is Some,
        (t < hold_deadline(s, distance, now)->0) == (t < now + s.hold),
{
}

/// What becomes of a book message. One whose type says that a subscription began is applied. Any
/// other is left alone while a snapshot is awaited. On a book that holds something it is stale where
/// its offset is no later than the book's, and where it is not, reveals a gap where the nonce that it
/// begins at is not the book's; what is missing on either side reveals nothing. Everything else is
/// applied.
pub proof fn messages_are_applied_in_sequence(b: Shown, awaiting: bool, msg: OrderBookMsg)
    ensures
        ({
            let r = book_step(b, awaiting, msg);
            let whole = occurs(msg.msg_type@, "subscribed"@);
            let offset = if msg.offset is Some {
                msg.offset
            } else {
                msg.order_book.offset
            };
            let begin = if msg.begin_nonce is Some {
                msg.begin_nonce
            } else {
                msg.order_book.begin_nonce
            };
            let late = b.initialized && offset is Some && b.offset is Some && offset->0
                <= b.offset->0;
            let gap = b.initialized && begin is Some && b.nonce is Some && begin->0 != b.nonce->0;
            &&& r == BookStep::Awaiting <==> !whole && awaiting
            &&& r == BookStep::Stale <==> !whole && !awaiting && late
            &&& r == BookStep::Gap <==> !whole && !awaiting && !late && gap
            &&& r == BookStep::Applied <==> whole || !awaiting && !late && !gap
        }),
{
}

/// Where an applied message leaves the book: it holds something, its offset and its nonce are the
/// message's, or as they were where the message has none, and its sides are the message's own where
/// the message begins a subscription or the book held nothing, and otherwise what the message changes
/// of them.
pub proof fn applied_messages_move_the_book(b: Shown, msg: OrderBookMsg)
    ensures
        ({
            let r = applied(b, msg);
            let whole = occurs(msg.msg_type@, "subscribed"@) || !b.initialized;
            &&& r.initialized
            &&& msg.offset is Some ==> r.offset == msg.offset
            &&& msg.offset is None && msg.order_book.offset is Some ==> r.offset
                == msg.order_book.offset
            &&& msg.offset is None && msg.order_book.offset is None ==> r.offset == b.offset
            &&& msg.nonce is Some ==> r.nonce == msg.nonce
            &&& msg.nonce is None && msg.order_book.nonce is Some ==> r.nonce
                == msg.order_book.nonce
            &&& msg.nonce is None && msg.order_book.nonce is None ==> r.nonce == b.nonce
            &&& whole ==> r.bids == arranged(msg.order_book.bids@) && r.asks == arranged(
                msg.order_book.asks@,
            )
            &&& !whole ==> r.bids == changed(
                b.bids,
                msg.order_book.bids@,
                msg.order_book.bids@.len(),
            ) && r.asks == changed(b.asks, msg.order_book.asks@, msg.order_book.asks@.len())
        }),
{
}

/// A reconnect leaves nothing of the book, and nothing awaited; without one both stay as they are.
pub proof fn reconnects_start_over(b: Shown, g: BookGuard)
    ensures
        ({
            let o = opened(b, true);
            let h = guard_opened(g, true);
            &&& o.bids.len() == 0 && o.asks.len() == 0 && !o.initialized && o.offset is None
                && o.nonce is None
            &&& !h.awaiting_resnapshot && h.sanity_streak == 0 && h.ticker_bbo == g.ticker_bbo
            &&& opened(b, false) == b && guard_opened(g, false) == g
        }),
{
}

/// A snapshot ends the wait for one, a gap begins it and forgets the divergences, and no other
/// message changes the guard.
pub proof fn guards_wait_for_snapshots(g: BookGuard, msg: OrderBookMsg, step: BookStep)
    ensures
        ({
            let r = guard_after(g, false, msg, step);
            let whole = occurs(msg.msg_type@, "subscribed"@);
            &&& r.ticker_bbo == g.ticker_bbo
            &&& whole ==> !r.awaiting_resnapshot && r.sanity_streak == g.sanity_streak
            &&& !whole && step == BookStep::Gap ==> r.awaiting_resnapshot && r.sanity_streak == 0
            &&& !whole && step != BookStep::Gap ==> r == g
        }),
{
}

/// When the book is held against its ticker: where the check is on, a ticker came within five
/// seconds, and its mean is above zero. An update that diverged then makes the row longer by one, one
/// that did not ends it, and an update that is not held against the ticker leaves the row as it is.
pub proof fn divergences_are_counted(
    g: BookGuard,
    threshold_bps: Num,
    ticker_mid: Num,
    distance_bps: Num,
    now: u64,
)
    requires
        g.wf(),
    ensures
        ({
            let counts = divergence_counts(g, threshold_bps, ticker_mid, now);
            let exceeds = threshold_bps.below(distance_bps);
            let r = streak_after(g, counts, exceeds);
            &&& counts <==> !threshold_bps.at_most(spec_zero()) && !ticker_mid.at_most(spec_zero())
                && g.ticker_bbo is Some && now <= g.ticker_bbo->0.at + 5_000_000_000
            &&& counts && exceeds ==> r == g.sanity_streak + 1
            &&& counts && !exceeds ==> r == 0
            &&& !counts ==> r == g.sanity_streak
            &&& r <= 10
        }),
{
}

/// Quotes are due exactly where none were made yet, or the last ones lie an interval back at least.
pub proof fn quotes_are_due_after_their_interval(c: QuoteClock, now: u64)
    ensures
        c.last_quote is None ==> is_due(c, now),
        c.last_quote is Some && c.last_quote->0 <= now ==> (is_due(c, now) <==> now
            - c.last_quote->0 >= c.min_interval),
        c.last_quote is Some && now < c.last_quote->0 ==> (is_due(c, now) <==> c.min_interval == 0),
{
}

/// What a look at the position does in live trading: a position that moved by more than next to
/// nothing since the last look wakes the poller, and resting orders are left alone from then on for
/// the whole time of the hold, and no longer; a look that finds it unmoved leaves that time as it is.
/// The position is remembered. Outside live trading nothing is held or woken.
pub proof fn moved_positions_hold_orders(
    s: PositionHold,
    position: Num,
    distance: Num,
    now: u64,
)
    requires
        now + s.hold <= u64::MAX,
    ensures
        ({
            let (r, step) = after_look(s, position, distance, now);
            let moved = s.last_seen_position is Some && spec_epsilon().at_most(distance);
            &&& r.mode == s.mode && r.hold == s.hold
            &&& s.mode != Mode::Live ==> r == s && !step.hold && !step.notify
            &&& s.mode == Mode::Live ==> {
                &&& r.last_seen_position == Some(position)
                &&& step.notify <==> moved
                &&& moved ==> (step.hold <==> s.hold > 0)
                &&& moved && s.hold > 0 ==> r.hold_until == Some((now + s.hold) as u64)
                &&& !moved ==> (step.hold <==> s.hold_until is Some && now < s.hold_until->0)
                &&& !moved && step.hold ==> r.hold_until == s.hold_until
                &&& !step.hold ==> r.hold_until is None
            }
        }),
{
}

/// What a quoting cycle does. In live trading without capital, or before a position was seen, the
/// ladder is pulled. Otherwise the whole ladder is quoted exactly where the signal is warm and the
/// first time is over; failing that, a position that counts is exited, and without one nothing is
/// quoted.
pub proof fn plans_follow_what_is_known(
    mode: Mode,
    capital: Num,
    position_age: u64,
    warmed_up: bool,
    in_warmup: bool,
    position: Num,
)
    ensures
        ({
            let r = plan_of(mode, capital, position_age, warmed_up, in_warmup, position);
            let pull = mode == Mode::Live && (capital.at_most(spec_zero()) || position_age
                == u64::MAX);
            let full = warmed_up && !in_warmup;
            let holds = spec_epsilon().at_most(position.absolute());
            &&& r == QuotePlan::PullLadder <==> pull
            &&& r == QuotePlan::Full <==> !pull && full
            &&& r == QuotePlan::ExitOnly <==> !pull && !full && holds
            &&& r == QuotePlan::NoQuotes <==> !pull && !full && !holds
        }),
{
}

/// Live quoting is within its first time exactly until the warmup has passed since its start, and
/// while it has none; outside live trading it never is. A position counts for what it is, unless it
/// is worth less than the threshold.
pub proof fn first_times_end_and_dust_counts_as_none(
    mode: Mode,
    start: Option<u64>,
    warmup: u64,
    now: u64,
    position: Num,
    value: Num,
    dust: Num,
)
    ensures
        mode != Mode::Live ==> !warming(mode, start, warmup, now),
        mode == Mode::Live && start is None ==> warming(mode, start, warmup, now),
        mode == Mode::Live && start is Some && start->0 <= now ==> (warming(
            mode,
            start,
            warmup,
            now,
        ) <==> now < start->0 + warmup),
        value.below(dust) ==> quoted_position(position, value, dust).rank() == 0,
        !value.below(dust) ==> quoted_position(position, value, dust) == position,
{
}

/// A ticker's best bid and ask, or else its bid and ask, are remembered with their time where the bid
/// is positive and below the ask; any other ticker changes nothing, and none changes anything else.
pub proof fn sound_tickers_are_remembered(
    g: BookGuard,
    msg: TickerMsg,
    now: u64,
    bid: Num,
    ask: Num,
)
    requires
        msg.best_bid == Some(bid) || msg.best_bid is None && msg.bid == Some(bid),
        msg.best_ask == Some(ask) || msg.best_ask is None && msg.ask == Some(ask),
    ensures
        ({
            let r = told_ticker(g, msg, now);
            &&& spec_zero().below(bid) && bid.below(ask) ==> {
                &&& r.ticker_bbo matches Some(t)
                &&& t.bid == bid && t.ask == ask && t.at == now
            }
            &&& !spec_zero().below(bid) || !bid.below(ask) ==> r == g
            &&& r == (BookGuard { ticker_bbo: r.ticker_bbo, ..g })
        }),
{
}

/// What is known of a book is what stands in it, side by side, and how far it has come.
pub proof fn books_show_what_they_hold(b: LocalBook)
    ensures
        shown(b).bids == b.bids@,
        shown(b).asks == b.asks@,
        shown(b).initialized == b.initialized,
        shown(b).offset == b.last_offset,
        shown(b).nonce == b.last_nonce,
{
}

/// A snapshot is called for by the tenth divergence in a row beyond the threshold, each met while a
/// ticker of the last five seconds and its price were at hand; a threshold of zero or less calls for
/// none.
pub proof fn ten_divergences_call_for_a_snapshot(
    g: BookGuard,
    threshold: Num,
    ticker_mid: Num,
    distance: Num,
    now: u64,
)
    requires
        g.sanity_streak < 10,
        !threshold.nan(),
        !ticker_mid.nan(),
    ensures
        trips(g, threshold, ticker_mid, distance, now) <==> {
            &&& g.sanity_streak == 9
            &&& spec_zero().below(threshold) && threshold.below(distance)
            &&& spec_zero().below(ticker_mid)
            &&& g.ticker_bbo is Some && now <= g.ticker_bbo->0.at + 5_000_000_000
        },
{
}

} // verus!
