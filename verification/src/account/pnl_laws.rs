//! What the profit account makes of trades, positions and prices.
use vstd::prelude::*;
use crate::account::fill_accounting::up;
use crate::account::persistence::LiveState;
use crate::account::pnl_actor::{
    after_register, after_trades, all_posted, booking_stamp, decision, delta_of, exposure,
    fill_view, id_text, marked, opening_ledger, opening_money, processed, processed_all,
    registered, reported_unrealized, restorable, retried, retried_all, snapshot_cells, snapshot_header, source_text,
    survives, synced_ledger, synced_money, takes_over, with_capital, Amounts, Booking, Exposure,
    Ledger, Money, PnlActor, PnlSummary, PositionSnapshot, SkipReason, SummaryTexts,
    TradeDecision,
};
use crate::lighter::messages::TradePayload;
use crate::num::{spec_epsilon, spec_zero, Num};
use crate::text::{decimal, signed_decimal};
use crate::timestamps::rfc3339_of_ms;
use crate::types::Side;

verus! {

/// The account sold where it is the ask and bought where it is the bid, the ask first where it is
/// both; the fill has the trade's price, size and value, and the ids and the profit of that side.
/// There is none exactly where the account is on neither side or price or size are missing.
pub proof fn fills_show_the_side_of_the_account(t: TradePayload, account: i64)
    ensures
        ({
            let r = fill_view(t, account);
            &&& r is Some <==> t.price is Some && t.size is Some && (t.ask_account_id == Some(
                account,
            ) || t.bid_account_id == Some(account))
            &&& r matches Some(f) ==> {
                &&& Some(f.price) == t.price && Some(f.size) == t.size
                &&& f.notional_usd == t.usd_amount
                &&& t.ask_account_id == Some(account) ==> f.side == Side::Sell
                    && f.client_order_id == t.ask_client_id && f.exchange_order_id == t.ask_id
                    && f.exchange_pnl == t.ask_account_pnl
                &&& t.ask_account_id != Some(account) ==> f.side == Side::Buy
                    && f.client_order_id == t.bid_client_id && f.exchange_order_id == t.bid_id
                    && f.exchange_pnl == t.bid_account_pnl
            }
        }),
{
}

/// What becomes of a trade, case by case. One without an id is passed over, one that was booked is a
/// duplicate, one without the account, a price or a size is passed over, and so is one with a price
/// or a size that is not positive. One with a client id that is not known to be ours waits for it, unless
/// everything counts. Any other is booked: as known where its client id is ours, as the strategy's
/// where it is known or everything counts, and as superseded where it came before the generation.
pub proof fn trades_are_decided(s: Ledger, t: TradePayload, generation: u64, client: Option<i64>)
    requires
        client == if t.ask_account_id == Some(s.account_index) {
            t.ask_client_id
        } else {
            t.bid_client_id
        },
    ensures
        ({
            let d = decision(s, t, generation);
            let ours = t.ask_account_id == Some(s.account_index) || t.bid_account_id == Some(
                s.account_index,
            );
            let fresh = t.trade_id is Some && !s.seen.contains(t.trade_id->0);
            let whole = fresh && ours && t.price is Some && t.size is Some;
            let sound = whole && !t.price->0.at_most(spec_zero()) && !t.size->0.at_most(
                spec_zero(),
            );
            let known = client is Some && s.clients.contains(client->0);
            &&& t.trade_id is None ==> d == TradeDecision::Skipped(SkipReason::MissingTradeId)
            &&& t.trade_id is Some && s.seen.contains(t.trade_id->0) ==> d
                == TradeDecision::Duplicate
            &&& fresh && !(ours && t.price is Some && t.size is Some) ==> d
                == TradeDecision::Skipped(SkipReason::AccountNotInTrade)
            &&& whole && !sound ==> d == TradeDecision::Skipped(SkipReason::InvalidPriceOrSize)
            &&& sound && client is Some && !known && !s.include_all ==> d
                == TradeDecision::PendingClientId(client->0)
            &&& sound && (client is None || known || s.include_all) ==> {
                &&& d matches TradeDecision::Booked(b)
                &&& Some(b.trade_id) == t.trade_id
                &&& b.fill.client_order_id == client
                &&& b.known == known
                &&& b.attributed == (known || s.include_all)
                &&& b.superseded == (generation < s.generation)
                &&& t.transaction_time is Some ==> b.reported_time == t.transaction_time
                &&& t.transaction_time is None ==> b.reported_time == t.timestamp
            }
        }),
{
}

/// A trade that comes in and is passed over counts as unattributed and does nothing else; one that
/// waits already does nothing at all. One that has to wait joins the end of those that wait, with
/// the generation at which it came; where 2,000 wait, the first of them gives way and counts as
/// unattributed.
pub proof fn trades_wait_in_line(s: Ledger, t: TradePayload, id: i64, client: i64)
    ensures
        ({
            let (u, bookings) = processed(s, t);
            let missed = Ledger { unattributed: up(s.unattributed), ..s };
            let same_but_waiting = u == (Ledger {
                pending: u.pending,
                unattributed: u.unattributed,
                ..s
            });
            let waits = t.trade_id == Some(id) && exists|i: int|
                0 <= i < s.pending.len() && (#[trigger] s.pending[i]).0.trade_id == Some(id);
            let came = t.trade_id == Some(id) && !s.seen.contains(id) && !waits;
            &&& t.trade_id is None ==> u == missed && bookings.len() == 0
            &&& waits && !s.seen.contains(id) ==> u == s && bookings.len() == 0
            &&& came && decision(s, t, s.generation) is Skipped ==> u == missed && bookings.len()
                == 0
            &&& came && decision(s, t, s.generation) == TradeDecision::PendingClientId(client)
                && s.pending.len() < 2_000 ==> {
                &&& bookings.len() == 0 && same_but_waiting && u.unattributed == s.unattributed
                &&& u.pending.len() == s.pending.len() + 1
                &&& u.pending.last() == (t, s.generation)
                &&& forall|i: int|
                    0 <= i < s.pending.len() ==> #[trigger] u.pending[i] == s.pending[i]
            }
            &&& came && decision(s, t, s.generation) == TradeDecision::PendingClientId(client)
                && s.pending.len() == 2_000 ==> {
                &&& bookings.len() == 0 && same_but_waiting && u.unattributed == up(
                    s.unattributed,
                )
                &&& u.pending.len() == 2_000
                &&& u.pending.last() == (t, s.generation)
                &&& forall|i: int|
                    0 <= i < 1_999 ==> #[trigger] u.pending[i] == s.pending[i + 1]
            }
        }),
{
}

/// Trying the waiting trades again leaves waiting only such as came from a client id that is still
/// not ours, each with the generation at which it came.
pub proof fn no_known_trade_waits_on(s: Ledger, n: nat, j: int)
    requires
        n <= s.pending.len(),
        0 <= j < retried(s, s.pending, n).0.pending.len(),
    ensures
        ({
            let t = retried(s, s.pending, n).0;
            let (trade, generation) = t.pending[j];
            let client = if trade.ask_account_id == Some(s.account_index) {
                trade.ask_client_id
            } else {
                trade.bid_client_id
            };
            &&& t.clients == s.clients && t.account_index == s.account_index && t.include_all
                == s.include_all
            &&& client is Some && !s.clients.contains(client->0) && !s.include_all
            &&& exists|i: int| 0 <= i < n && #[trigger] s.pending[i] == (trade, generation)
        }),
    decreases n,
{
    if n > 0 {
        let m = (n - 1) as nat;
        let before = retried(s, s.pending, m).0;
        lemma_retries_keep_names(s, m);
        if j < before.pending.len() {
            no_known_trade_waits_on(s, m, j);
        } else {
            assert(s.pending[n - 1] == retried(s, s.pending, n).0.pending[j]);
        }
    }
}

proof fn lemma_retries_keep_names(s: Ledger, n: nat)
    ensures
        ({
            let t = retried(s, s.pending, n).0;
            t.clients == s.clients && t.account_index == s.account_index && t.include_all
                == s.include_all && t.generation == s.generation
        }),
    decreases n,
{
    if n > 0 {
        lemma_retries_keep_names(s, (n - 1) as nat);
    }
}

/// Registering client ids makes the positive ones ours and no others, and tries every waiting trade
/// with them: what waits on afterwards is of a client id that is not ours even so.
pub proof fn registering_frees_the_waiting(s: Ledger, ids: Seq<i64>, j: int)
    requires
        s.clients.len() + ids.len() <= 10_000,
        0 <= j < after_register(s, ids).0.pending.len(),
    ensures
        ({
            let (trade, generation) = after_register(s, ids).0.pending[j];
            let client = if trade.ask_account_id == Some(s.account_index) {
                trade.ask_client_id
            } else {
                trade.bid_client_id
            };
            &&& client is Some && !s.clients.contains(client->0) && !s.include_all
            &&& client->0 > 0 ==> !ids.contains(client->0)
        }),
{
    let r = Ledger { clients: registered(s.clients, ids, ids.len()), ..s };
    no_known_trade_waits_on(r, r.pending.len(), j);
    let (trade, generation) = after_register(s, ids).0.pending[j];
    let client = if trade.ask_account_id == Some(s.account_index) {
        trade.ask_client_id
    } else {
        trade.bid_client_id
    };
    positive_ids_are_registered(s.clients, ids, ids.len(), client->0);
    if ids.contains(client->0) {
        let i = choose|i: int| 0 <= i < ids.len() && ids[i] == client->0;
        assert(ids[i] == client->0);
    }
}

/// The client ids of ours after some were registered: those before and the positive ones among them,
/// while they fit.
pub proof fn positive_ids_are_registered(clients: Seq<i64>, ids: Seq<i64>, n: nat, id: i64)
    requires
        n <= ids.len(),
        clients.len() + n <= 10_000,
    ensures
        registered(clients, ids, n).len() <= clients.len() + n,
        registered(clients, ids, n).contains(id) <==> clients.contains(id) || id > 0 && exists|i:
            int|
            0 <= i < n && #[trigger] ids[i] == id,
    decreases n,
{
    if n > 0 {
        let m = (n - 1) as nat;
        positive_ids_are_registered(clients, ids, m, id);
        let rest = registered(clients, ids, m);
        let all = registered(clients, ids, n);
        let last = ids[n - 1];
        if last > 0 && !rest.contains(last) {
            assert(all =~= rest.push(last));
            if rest.contains(id) {
                let k = choose|k: int| 0 <= k < rest.len() && rest[k] == id;
                assert(all[k] == id);
            }
            if id == last {
                assert(all[rest.len() as int] == id);
            }
            if all.contains(id) {
                let k = choose|k: int| 0 <= k < all.len() && all[k] == id;
                if k < rest.len() {
                    assert(rest[k] == id);
                }
            }
        }
        if exists|i: int| 0 <= i < n && #[trigger] ids[i] == id {
            let i = choose|i: int| 0 <= i < n && #[trigger] ids[i] == id;
            if i < m {
                assert(ids[i] == id);
            }
        }
        if exists|i: int| 0 <= i < m && #[trigger] ids[i] == id {
            let i = choose|i: int| 0 <= i < m && #[trigger] ids[i] == id;
            assert(0 <= i < n && ids[i] == id);
        }
    }
}

/// The trades of a message are taken before those that waited, each in order: with nothing waiting,
/// one new trade that is accepted is all that is booked, and one that is not accepted books nothing.
pub proof fn one_trade_is_one_booking(s: Ledger, t: TradePayload, id: i64, b: Booking)
    requires
        s.pending.len() == 0,
        t.trade_id == Some(id),
        !s.seen.contains(id),
    ensures
        decision(s, t, s.generation) == TradeDecision::Booked(b) ==> after_trades(s, seq![t]).1
            == seq![b] && after_trades(s, seq![t]).0.pending.len() == 0,
        decision(s, t, s.generation) is Skipped ==> after_trades(s, seq![t]).1.len() == 0,
        decision(s, t, s.generation) is PendingClientId ==> after_trades(s, seq![t]).1.len() == 0
            && after_trades(s, seq![t]).0.pending == seq![(t, s.generation)],
{
    let trades = seq![t];
    assert(trades[0] == t);
    assert(!(exists|i: int|
        0 <= i < s.pending.len() && (#[trigger] s.pending[i]).0.trade_id == Some(id)));
    reveal_with_fuel(processed_all, 2);
    reveal_with_fuel(retried, 2);
    let first = processed_all(s, trades, 1);
    assert(first.1 =~= processed(s, t).1);
    let u = first.0;
    if decision(s, t, s.generation) is PendingClientId {
        assert(u.pending =~= seq![(t, s.generation)]);
        let d = decision(Ledger { pending: Seq::empty(), ..u }, t, s.generation);
        assert(d == decision(s, t, s.generation));
        assert(retried(u, u.pending, 1).0.pending =~= seq![(t, s.generation)]);
    } else {
        assert(u.pending.len() == 0);
    }
    assert(after_trades(s, trades).1 =~= first.1 + retried_all(u).1);
    if decision(s, t, s.generation) == TradeDecision::Booked(b) {
        assert(after_trades(s, trades).1 =~= seq![b]);
    }
}

/// Where several bookings are posted, traded value is what the last one made it, and each profit what
/// the last booking of its kind made it.
pub proof fn the_last_posting_stands(
    m: Money,
    bookings: Seq<Booking>,
    amounts: Seq<Amounts>,
    n: nat,
)
    ensures
        n == 0 ==> all_posted(m, bookings, amounts, n) == m,
        n > 0 ==> ({
            let r = all_posted(m, bookings, amounts, n);
            let before = all_posted(m, bookings, amounts, (n - 1) as nat);
            let last = bookings[n - 1];
            &&& r.notional == amounts[n - 1].notional
            &&& last.attributed ==> r.strategy_realized == amounts[n - 1].realized
                && r.unattributed_realized == before.unattributed_realized
            &&& !last.attributed ==> r.unattributed_realized == amounts[n - 1].realized
                && r.strategy_realized == before.strategy_realized
            &&& last.superseded ==> r.accounting == before.accounting
            &&& !last.superseded ==> r.accounting.realized == amounts[n - 1].fill.realized
                && r.accounting.fill_count == up(before.accounting.fill_count)
            &&& r.position == m.position && r.available_capital == m.available_capital
                && r.portfolio_value == m.portfolio_value && r.last_mid == m.last_mid
                && r.mid_stale == m.mid_stale && r.last_unrealized == m.last_unrealized
        }),
    decreases n,
{
    if n > 0 {
        the_last_posting_stands(m, bookings, amounts, (n - 1) as nat);
    }
}

/// A reported position is taken over exactly where it is flat or comes with its entry price: the
/// local account then holds it, at that price or none, with no fills and no traded value of its own
/// and the strategy's profit, and a new generation begins. Otherwise only the report is kept.
pub proof fn reported_positions_are_taken_over(
    s: Ledger,
    m: Money,
    fee_rate: Num,
    p: PositionSnapshot,
)
    ensures
        ({
            let over = p.signed_position.absolute().below(spec_epsilon()) || p.entry_vwap is Some;
            let u = synced_ledger(s, p);
            let r = synced_money(m, fee_rate, p);
            &&& takes_over(p) == over
            &&& r.position == Some(p)
            &&& u == (Ledger { generation: u.generation, ..s })
            &&& r == (Money { position: r.position, accounting: r.accounting, ..m })
            &&& over && s.generation < u64::MAX ==> u.generation == s.generation + 1
            &&& over ==> {
                &&& r.accounting.position == p.signed_position
                &&& p.entry_vwap is Some ==> Some(r.accounting.entry_vwap) == p.entry_vwap
                &&& p.entry_vwap is None ==> r.accounting.entry_vwap == spec_zero()
                &&& r.accounting.realized == m.strategy_realized
                &&& r.accounting.maker_fee_rate == fee_rate
                &&& r.accounting.fill_count == 0 && r.accounting.volume == spec_zero()
            }
            &&& !over ==> u == s && r.accounting == m.accounting
        }),
{
}

/// The profit of a booking and its label. The exchange's figure counts where there is one; else the
/// local one, or nothing for a superseded booking. The label tells a booking that is not known to be
/// ours from one that is, and of those one that came late.
pub proof fn bookings_are_priced_and_labelled(b: Booking, local: Num)
    ensures
        b.fill.exchange_pnl is Some ==> Some(delta_of(b, local)) == b.fill.exchange_pnl,
        b.fill.exchange_pnl is None && b.superseded ==> delta_of(b, local) == spec_zero(),
        b.fill.exchange_pnl is None && !b.superseded ==> delta_of(b, local) == local,
        !b.known ==> source_text(b) == "account_all_unattributed"@,
        b.known && b.superseded ==> source_text(b) == "account_all_late_attributed"@,
        b.known && !b.superseded ==> source_text(b) == "account_all"@,
{
}

/// An open position is exposed exactly where there is a positive price, a positive entry price and a
/// position beyond the tolerance, on the side that the position has.
pub proof fn exposure_follows_the_position(position: Num, entry: Num, mid: Option<Num>)
    ensures
        ({
            let priced = mid is Some && spec_zero().below(mid->0) && spec_zero().below(entry);
            let r = exposure(position, entry, mid);
            &&& r == Exposure::Long <==> priced && spec_epsilon().below(position)
            &&& r == Exposure::Short <==> priced && position.below(spec_epsilon().negated())
                && !spec_epsilon().below(position)
            &&& !priced ==> r == Exposure::Nothing
        }),
{
}

/// The price that is marked with: the own one where it is positive and no older than ten seconds,
/// else the reference's under the same terms, else the last one, which is then stale. Nothing else
/// changes.
pub proof fn fresh_prices_are_marked(
    m: Money,
    own_mid: Num,
    own_age: u64,
    reference_mid: Num,
    reference_age: u64,
)
    ensures
        ({
            let r = marked(m, own_mid, own_age, reference_mid, reference_age);
            let own = spec_zero().below(own_mid) && own_age <= 10_000;
            let reference = spec_zero().below(reference_mid) && reference_age <= 10_000;
            &&& r == (Money { last_mid: r.last_mid, mid_stale: r.mid_stale, ..m })
            &&& own ==> r.last_mid == Some(own_mid) && !r.mid_stale
            &&& !own && reference ==> r.last_mid == Some(reference_mid) && !r.mid_stale
            &&& !own && !reference ==> r.last_mid == m.last_mid
            &&& !own && !reference && m.last_mid is Some ==> r.mid_stale
            &&& !own && !reference && m.last_mid is None ==> r.mid_stale == m.mid_stale
        }),
{
}

/// A new session knows no ids, no trades, no position of the exchange, no capital and no price, has
/// counted nothing but the fills that it goes on from, and goes on from a saved state exactly where
/// that is stamped and of the same account and market.
pub proof fn sessions_open_empty(
    account_index: i64,
    market_id: u32,
    include_all: bool,
    rate: Num,
    state: LiveState,
)
    ensures
        restorable(state, account_index, market_id) <==> state.account_index == account_index
            && state.market_id == market_id && state.updated_at@.len() > 0,
        ({
            let l = opening_ledger(account_index, market_id, include_all, state);
            let m = opening_money(account_index, market_id, rate, state);
            &&& l.account_index == account_index && l.include_all == include_all
            &&& l.clients.len() == 0 && l.seen.len() == 0 && l.pending.len() == 0
            &&& l.generation == 0 && l.buys == 0 && l.sells == 0 && l.duplicates == 0
                && l.unattributed == 0
            &&& m.accounting.maker_fee_rate == rate
            &&& m.accounting.fill_count == 0 && m.accounting.volume == spec_zero()
            &&& m.unattributed_realized == spec_zero() && m.last_unrealized == spec_zero()
            &&& m.position is None && m.available_capital is None && m.portfolio_value is None
            &&& m.last_mid is None && !m.mid_stale
        }),
{
}

/// What survives a session says what the exchange reported last: its position and entry price, the
/// portfolio's value and the capital, each nothing where it was never reported. It is not stamped.
pub proof fn survivors_keep_the_reports(r: LiveState, l: Ledger, m: Money, market_id: u32)
    requires
        survives(r, l, m, market_id),
    ensures
        r.account_index == l.account_index && r.market_id == market_id,
        r.position_size_est == m.accounting.position && r.entry_vwap == m.accounting.entry_vwap,
        r.realized_pnl_cumulative == m.strategy_realized,
        r.fill_count == l.fills && r.volume_usd == m.notional,
        m.position matches Some(p) ==> r.exchange_position_size == p.signed_position
            && r.exchange_entry_vwap == p.entry_vwap,
        m.position is None ==> r.exchange_position_size == spec_zero() && r.exchange_entry_vwap
            is None,
        m.portfolio_value is Some ==> Some(r.portfolio_value) == m.portfolio_value,
        m.portfolio_value is None ==> r.portfolio_value == spec_zero(),
        m.available_capital is Some ==> Some(r.available_capital) == m.available_capital,
        m.available_capital is None ==> r.available_capital == spec_zero(),
        r.symbol@.len() == 0 && r.updated_at@.len() == 0,
{
}

/// A snapshot has a cell for each column, and each cell is what its column is named after.
pub proof fn snapshot_cells_stand_under_their_columns(s: PnlSummary, t: SummaryTexts)
    ensures
        ({
            let h = snapshot_header();
            let c = snapshot_cells(s, t);
            &&& h.len() == 18 && c.len() == 18
            &&& h[0] == "timestamp"@ && c[0] == s.updated_at@
            &&& h[1] == "session_id"@ && c[1] == s.session_id@
            &&& h[2] == "symbol"@ && c[2] == s.symbol@
            &&& h[3] == "market_id"@ && c[3] == decimal(s.market_id as nat)
            &&& h[4] == "account_index"@ && c[4] == signed_decimal(s.account_index as int)
            &&& h[5] == "strategy_realized_pnl_usdc"@ && c[5] == t.realized@
            &&& h[6] == "strategy_unrealized_pnl_usdc"@ && c[6] == t.unrealized@
            &&& h[7] == "strategy_mtm_pnl_usdc"@ && c[7] == t.mtm@
            &&& h[8] == "open_position_base"@ && c[8] == t.open_position@
            &&& h[9] == "entry_vwap"@ && c[9] == t.entry_vwap@
            &&& h[10] == "last_mid"@
            &&& s.last_mid is Some ==> c[10] == t.last_mid@
            &&& s.last_mid is None ==> c[10].len() == 0
            &&& h[11] == "fill_count"@ && c[11] == decimal(s.fill_count as nat)
            &&& h[12] == "buy_count"@ && c[12] == decimal(s.buy_count as nat)
            &&& h[13] == "sell_count"@ && c[13] == decimal(s.sell_count as nat)
            &&& h[14] == "notional_usdc"@ && c[14] == t.notional@
            &&& h[15] == "duplicate_fill_count"@ && c[15] == decimal(
                s.duplicate_fill_count as nat,
            )
            &&& h[16] == "unattributed_fill_count"@ && c[16] == decimal(
                s.unattributed_fill_count as nat,
            )
            &&& h[17] == "pending_unattributed_fill_count"@ && c[17] == decimal(
                s.pending_unattributed_fill_count as nat,
            )
        }),
{
}

/// A booked trade is stamped with the moment at which it was reported, whatever unit that came in,
/// and not at all where none was; an id is printed in decimal where there is one.
pub proof fn bookings_are_stamped_with_their_moment(
    b: Booking,
    second: int,
    ms: int,
    id: i64,
    text: Option<String>,
)
    requires
        10_000_000 < second < 10_000_000_000,
        0 <= ms < 1_000,
    ensures
        b.reported_time is None ==> booking_stamp(b) is None,
        b.reported_time == Some(second as i64) ==> booking_stamp(b) == rfc3339_of_ms(
            (second * 1_000) as i64,
        ),
        b.reported_time == Some((second * 1_000 + ms) as i64) ==> booking_stamp(b)
            == rfc3339_of_ms((second * 1_000 + ms) as i64),
        id_text(None, text) <==> text is None,
        id_text(Some(id), text) <==> text is Some && text->0@ == signed_decimal(id as int),
{
}

/// The open position and its entry price are the exchange's where it gave them, and the local
/// account's otherwise.
pub proof fn figures_of_the_exchange_come_first(a: PnlActor, p: PositionSnapshot, v: Num)
    ensures
        a.money().position == Some(p) ==> a.spec_open_position() == p.signed_position,
        a.money().position is None ==> a.spec_open_position() == a.money().accounting.position,
        a.money().position == Some(p) && p.entry_vwap == Some(v) ==> a.spec_entry_vwap() == v,
        a.money().position is None ==> a.spec_entry_vwap() == a.money().accounting.entry_vwap,
        a.money().position == Some(p) && p.entry_vwap is None ==> a.spec_entry_vwap()
            == a.money().accounting.entry_vwap,
{
}

/// Capital and value are the last that were reported, each for itself, and nothing else changes. While
/// the price is stale the unrealized profit is the last one that was not.
pub proof fn the_last_reports_stand(
    m: Money,
    capital: Option<Num>,
    value: Option<Num>,
    computed: Num,
)
    ensures
        ({
            let r = with_capital(m, capital, value);
            &&& capital is Some ==> r.available_capital == capital
            &&& capital is None ==> r.available_capital == m.available_capital
            &&& value is Some ==> r.portfolio_value == value
            &&& value is None ==> r.portfolio_value == m.portfolio_value
            &&& r == (Money {
                available_capital: r.available_capital,
                portfolio_value: r.portfolio_value,
                ..m
            })
        }),
        m.mid_stale ==> reported_unrealized(m, computed) == m.last_unrealized,
        !m.mid_stale ==> reported_unrealized(m, computed) == computed,
{
}

} // verus!
