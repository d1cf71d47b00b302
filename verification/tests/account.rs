//! Fills, profit, saved state, the trade log and the quality of fills.
use lighter_mm::account::fill_accounting::{
    signed_fill, ClosingLeg, FillAccounting, FillKind, FillNumbers,
};
use lighter_mm::account::id_set::{IdSet, ID_SET_CAP};
use lighter_mm::account::persistence::{join_path, LiveState, LiveStateStore};
use lighter_mm::account::pnl_actor::{
    ensure_snapshot_header, fill_source, realized_delta, session_name, snapshot_line, Amounts,
    Booking, Exposure, PnlActor, PnlSummary, PositionSnapshot, RowNumbers, SummaryTexts,
};
use lighter_mm::lighter::messages::TradePayload;
use lighter_mm::metrics::live_metrics::{
    adverse_mean, sorted_horizons, AdjustmentNumbers, Basis, Horizon, LiveMetricsTracker, Mark,
    QualityAdjustment, QualitySettings, MIN_SAMPLE_COUNT, PENDING_CAP,
};
use lighter_mm::metrics::trade_log::{
    choose_notation, ensure_header, format_row, general_text, header_row, notional, strip_fixed,
    strip_sci, HeaderPlan, Notation, RowTexts, TradeLogger, TradeRow,
};
use lighter_mm::num::Num;
use lighter_mm::types::Side;

fn n(x: f64) -> Num {
    Num::new(x.to_bits())
}

fn f(x: Num) -> f64 {
    f64::from_bits(x.bits)
}

const TOL: f64 = 1e-12;

fn approx(a: f64, b: f64) {
    assert!((a - b).abs() < TOL, "expected {b}, got {a}");
}

// --- fills ---

struct FillOutcome {
    position_after: f64,
    realized_delta: f64,
    realized_cumulative: f64,
    entry_vwap_after: f64,
    fee_usd: f64,
}

fn numbers(acc: &FillAccounting, side: Side, price: f64, size: f64) -> (FillNumbers, f64, f64) {
    let signed = f(signed_fill(side, n(size)));
    let fee = (price * size * f(acc.maker_fee_rate())).abs();
    let pos = f(acc.position_size());
    let vwap = f(acc.entry_vwap());
    let candidate = pos + signed;
    let mut numbers = FillNumbers {
        fill_product: n(pos * signed),
        candidate: n(candidate),
        candidate_product: n(pos * candidate),
        blended: n((pos.abs() * vwap + signed.abs() * price) / (pos.abs() + signed.abs())),
        realized: n(0.0),
        volume: n(f(acc.volume_usd()) + (price * size).abs()),
    };
    let kind = acc.classify(&numbers);
    let closing = pos.abs().min(signed.abs());
    let delta = -fee
        + match acc.closing_leg(side, kind) {
            ClosingLeg::Nothing => 0.0,
            ClosingLeg::Long => (price - vwap) * closing,
            ClosingLeg::Short => (vwap - price) * closing,
        };
    numbers.realized = n(f(acc.realized_pnl_cumulative()) + delta);
    (numbers, delta, fee)
}

fn apply(acc: &mut FillAccounting, side: Side, price: f64, size: f64) -> FillOutcome {
    let (numbers, delta, fee) = numbers(acc, side, price, size);
    let _ = acc.apply(side, n(price), n(size), numbers);
    FillOutcome {
        position_after: f(acc.position_size()),
        realized_delta: delta,
        realized_cumulative: f(acc.realized_pnl_cumulative()),
        entry_vwap_after: f(acc.entry_vwap()),
        fee_usd: fee,
    }
}

#[test]
fn open_long_zero_fee() {
    let mut acc = FillAccounting::new(n(0.0));
    let r = apply(&mut acc, Side::Buy, 100.0, 2.0);
    approx(r.position_after, 2.0);
    approx(r.realized_delta, 0.0);
    approx(r.realized_cumulative, 0.0);
    approx(r.entry_vwap_after, 100.0);
    approx(r.fee_usd, 0.0);
    approx(f(acc.volume_usd()), 200.0);
    assert_eq!(acc.fill_count(), 1);
}

#[test]
fn open_long_with_fee() {
    let mut acc = FillAccounting::new(n(0.00004));
    let r = apply(&mut acc, Side::Buy, 100.0, 2.0);
    approx(r.fee_usd, 0.008);
    approx(r.realized_delta, -0.008);
    approx(r.realized_cumulative, -0.008);
    approx(r.position_after, 2.0);
    approx(r.entry_vwap_after, 100.0);
}

#[test]
fn add_long_weighted_vwap() {
    let mut acc = FillAccounting::new(n(0.0));
    apply(&mut acc, Side::Buy, 100.0, 2.0);
    let r = apply(&mut acc, Side::Buy, 110.0, 2.0);
    approx(r.position_after, 4.0);
    approx(r.entry_vwap_after, 105.0);
    approx(r.realized_delta, 0.0);
    approx(r.realized_cumulative, 0.0);
    let r2 = apply(&mut acc, Side::Buy, 120.0, 6.0);
    approx(r2.position_after, 10.0);
    approx(r2.entry_vwap_after, 114.0);
}

#[test]
fn partial_close_long_profit_sign() {
    let mut acc = FillAccounting::new(n(0.0));
    apply(&mut acc, Side::Buy, 100.0, 4.0);
    let r = apply(&mut acc, Side::Sell, 110.0, 1.0);
    approx(r.realized_delta, 10.0);
    approx(r.realized_cumulative, 10.0);
    approx(r.position_after, 3.0);
    approx(r.entry_vwap_after, 100.0);
}

#[test]
fn partial_close_long_loss_sign() {
    let mut acc = FillAccounting::new(n(0.0));
    apply(&mut acc, Side::Buy, 100.0, 4.0);
    let r = apply(&mut acc, Side::Sell, 90.0, 2.0);
    approx(r.realized_delta, -20.0);
    approx(r.realized_cumulative, -20.0);
    approx(r.position_after, 2.0);
    approx(r.entry_vwap_after, 100.0);
}

#[test]
fn full_close_long_to_flat() {
    let mut acc = FillAccounting::new(n(0.0));
    apply(&mut acc, Side::Buy, 100.0, 3.0);
    let r = apply(&mut acc, Side::Sell, 105.0, 3.0);
    approx(r.realized_delta, 15.0);
    approx(r.realized_cumulative, 15.0);
    approx(r.position_after, 0.0);
    approx(r.entry_vwap_after, 0.0);
    assert!(f(acc.position_size()).abs() < 1e-9);
}

#[test]
fn flip_long_to_short() {
    let mut acc = FillAccounting::new(n(0.0));
    apply(&mut acc, Side::Buy, 100.0, 2.0);
    let r = apply(&mut acc, Side::Sell, 110.0, 5.0);
    approx(r.realized_delta, 20.0);
    approx(r.realized_cumulative, 20.0);
    approx(r.position_after, -3.0);
    approx(r.entry_vwap_after, 110.0);
}

#[test]
fn short_exit_profit_sign() {
    let mut acc = FillAccounting::new(n(0.0));
    apply(&mut acc, Side::Sell, 100.0, 3.0);
    approx(f(acc.entry_vwap()), 100.0);
    approx(f(acc.position_size()), -3.0);
    let r = apply(&mut acc, Side::Buy, 90.0, 1.0);
    approx(r.realized_delta, 10.0);
    approx(r.position_after, -2.0);
    approx(r.entry_vwap_after, 100.0);
}

#[test]
fn flip_short_to_long() {
    let mut acc = FillAccounting::new(n(0.0));
    apply(&mut acc, Side::Sell, 100.0, 2.0);
    let r = apply(&mut acc, Side::Buy, 90.0, 5.0);
    approx(r.realized_delta, 20.0);
    approx(r.position_after, 3.0);
    approx(r.entry_vwap_after, 90.0);
}

#[test]
fn from_snapshot_and_snapshot_roundtrip() {
    let acc = FillAccounting::from_snapshot(n(0.00004), n(-5.0), n(250.0), n(12.5));
    approx(f(acc.position_size()), -5.0);
    approx(f(acc.entry_vwap()), 250.0);
    approx(f(acc.realized_pnl_cumulative()), 12.5);
    approx(f(acc.maker_fee_rate()), 0.00004);
    let snap = acc.snapshot();
    approx(f(snap.position_size), -5.0);
    approx(f(snap.entry_vwap), 250.0);
    approx(f(snap.realized_pnl_cumulative), 12.5);
}

#[test]
fn close_with_fee_combines_realization_and_fee() {
    let mut acc = FillAccounting::new(n(0.00004));
    apply(&mut acc, Side::Buy, 100.0, 4.0);
    let cum_after_open = f(acc.realized_pnl_cumulative());
    approx(cum_after_open, -(100.0 * 4.0 * 0.00004));
    let r = apply(&mut acc, Side::Sell, 110.0, 2.0);
    approx(r.fee_usd, 0.0088);
    approx(r.realized_delta, 20.0 - 0.0088);
    approx(r.realized_cumulative, cum_after_open + (20.0 - 0.0088));
}

#[test]
fn sales_open_short_positions() {
    let mut acc = FillAccounting::new(n(0.0));
    let _ = apply(&mut acc, Side::Sell, 100.0, 2.0);
    assert_eq!(f(acc.position_size()), -2.0);
    assert_eq!(f(acc.entry_vwap()), 100.0);
    assert_eq!(f(signed_fill(Side::Buy, n(2.0))), 2.0);
}

#[test]
fn fills_are_told_apart() {
    let acc = FillAccounting::from_snapshot(n(0.0), n(2.0), n(100.0), n(0.0));
    for (side, size, kind, leg) in [
        (Side::Buy, 1.0, FillKind::Add, ClosingLeg::Nothing),
        (Side::Sell, 1.0, FillKind::Reduce, ClosingLeg::Long),
        (Side::Sell, 2.0, FillKind::Flatten, ClosingLeg::Long),
        (Side::Sell, 3.0, FillKind::Flip, ClosingLeg::Long),
    ] {
        let (numbers, _, _) = numbers(&acc, side, 100.0, size);
        assert_eq!(acc.classify(&numbers), kind);
        assert_eq!(acc.closing_leg(side, kind), leg);
    }
}

// --- ids ---

#[test]
fn ids_are_forgotten_first_in_first_out() {
    let mut ids = IdSet::new();
    for i in 0..ID_SET_CAP as i64 {
        assert!(ids.insert(i));
    }
    assert!(!ids.insert(0));
    assert!(ids.contains(0));
    assert!(ids.insert(-1));
    assert!(!ids.contains(0));
    assert!(ids.contains(1) && ids.contains(-1));
}

// --- profit ---

fn new_actor(restored: &LiveState) -> PnlActor {
    PnlActor::new(7, 1, n(0.0), false, restored)
}

fn actor() -> PnlActor {
    new_actor(&LiveState::default())
}

/// Posts bookings the way the running program does.
fn post(a: &mut PnlActor, bookings: Vec<Booking>) {
    for b in bookings {
        let (fill, local, _fee) =
            numbers(&a.accounting(), b.fill.side, f(b.fill.price), f(b.fill.size));
        let delta = f(realized_delta(&b, n(local)));
        let notional = b
            .fill
            .notional_usd
            .map(f)
            .unwrap_or(f(b.fill.price) * f(b.fill.size));
        let base = if b.attributed { f(a.strategy_realized()) } else { f(a.unattributed_realized()) };
        let sum = f(a.notional()) + notional;
        a.post(&b, Amounts { fill, realized: n(base + delta), notional: n(sum) });
    }
}

fn register(a: &mut PnlActor, ids: Vec<i64>) {
    let b = a.on_register(&ids);
    post(a, b);
}

fn account_all(a: &mut PnlActor, position: Option<(f64, Option<f64>)>, trades: Vec<TradePayload>) {
    let position =
        position.map(|(p, v)| PositionSnapshot { signed_position: n(p), entry_vwap: v.map(n) });
    let b = a.on_account(&trades, position);
    post(a, b);
    a.finish_message();
}

fn summary(a: &PnlActor) -> PnlSummary {
    a.summary("s", "BTC", "t0", "t1", n(0.0), a.strategy_realized())
}

fn blank_trade() -> TradePayload {
    TradePayload {
        trade_id: None,
        price: None,
        size: None,
        usd_amount: None,
        is_maker_ask: None,
        ask_id: None,
        bid_id: None,
        ask_client_id: None,
        bid_client_id: None,
        ask_account_id: None,
        bid_account_id: None,
        ask_account_pnl: None,
        bid_account_pnl: None,
        timestamp: None,
        transaction_time: None,
    }
}

fn trade(id: i64, client_id: i64, side: Side, pnl: Option<f64>) -> TradePayload {
    match side {
        Side::Buy => TradePayload {
            trade_id: Some(id),
            price: Some(n(100.0)),
            size: Some(n(0.5)),
            usd_amount: Some(n(50.0)),
            bid_account_id: Some(7),
            bid_client_id: Some(client_id),
            bid_id: Some(99),
            bid_account_pnl: pnl.map(n),
            ..blank_trade()
        },
        Side::Sell => TradePayload {
            trade_id: Some(id),
            price: Some(n(101.0)),
            size: Some(n(0.5)),
            usd_amount: Some(n(50.5)),
            ask_account_id: Some(7),
            ask_client_id: Some(client_id),
            ask_id: Some(100),
            ask_account_pnl: pnl.map(n),
            ..blank_trade()
        },
    }
}

#[test]
fn infers_side_and_uses_exchange_pnl_for_known_client() {
    let mut a = actor();
    register(&mut a, vec![42]);
    account_all(&mut a, Some((0.0, None)), vec![trade(1, 42, Side::Sell, Some(1.25))]);
    let s = summary(&a);
    assert_eq!(s.fill_count, 1);
    assert_eq!(s.sell_count, 1);
    assert!((f(s.strategy_realized_pnl_usdc) - 1.25).abs() < 1e-12);
}

#[test]
fn queues_then_accepts_trade_when_client_id_is_registered() {
    let mut a = actor();
    account_all(&mut a, None, vec![trade(1, 42, Side::Buy, None)]);
    assert_eq!(summary(&a).fill_count, 0);
    assert_eq!(summary(&a).pending_unattributed_fill_count, 1);
    register(&mut a, vec![42]);
    assert_eq!(summary(&a).fill_count, 1);
    assert_eq!(summary(&a).pending_unattributed_fill_count, 0);
}

#[test]
fn duplicate_trade_is_ignored() {
    let mut a = actor();
    register(&mut a, vec![42]);
    let t = trade(1, 42, Side::Buy, Some(0.5));
    account_all(&mut a, None, vec![t, t]);
    assert_eq!(summary(&a).fill_count, 1);
    assert_eq!(summary(&a).duplicate_fill_count, 1);
}

#[test]
fn books_account_fill_without_client_id_as_unattributed() {
    let mut a = actor();
    let mut t = trade(1, 42, Side::Buy, Some(0.75));
    t.bid_client_id = None;
    account_all(&mut a, None, vec![t]);
    let s = summary(&a);
    assert_eq!(s.fill_count, 1);
    assert_eq!(s.unattributed_fill_count, 1);
    assert!((f(s.unattributed_realized_pnl_usdc) - 0.75).abs() < 1e-12);
    assert!(f(s.strategy_realized_pnl_usdc).abs() < 1e-12);
    assert!((f(a.accounting().position_size()) - 0.5).abs() < 1e-12);
}

#[test]
fn pending_fill_superseded_by_snapshot_does_not_double_apply() {
    let mut a = actor();
    account_all(&mut a, Some((0.5, Some(100.0))), vec![trade(1, 42, Side::Buy, None)]);
    assert_eq!(summary(&a).pending_unattributed_fill_count, 1);
    assert!((f(a.accounting().position_size()) - 0.5).abs() < 1e-12);
    register(&mut a, vec![42]);
    assert_eq!(summary(&a).fill_count, 1);
    assert_eq!(summary(&a).pending_unattributed_fill_count, 0);
    assert!((f(a.accounting().position_size()) - 0.5).abs() < 1e-12);
}

#[test]
fn restores_live_state_across_restarts() {
    let store = LiveStateStore::new("logs", "BTC");
    let mut a = actor();
    register(&mut a, vec![42]);
    account_all(&mut a, None, vec![trade(1, 42, Side::Sell, Some(1.25))]);
    let saved = store.save(&a.live_state());
    let b = new_actor(&store.load(Some(saved)));
    assert_eq!(summary(&b).fill_count, 1);
    assert!((f(b.strategy_realized()) - 1.25).abs() < 1e-12);
}

#[test]
fn saved_state_goes_on_in_the_next_session() {
    let store = LiveStateStore::new("logs", "BTC");
    let mut a = actor();
    register(&mut a, vec![42]);
    account_all(&mut a, None, vec![trade(1, 42, Side::Sell, Some(1.25))]);
    let saved = store.save(&a.live_state());
    assert!(saved.updated_at.len() == 24 && saved.updated_at.ends_with('Z'));
    let b = new_actor(&store.load(Some(saved)));
    assert_eq!(b.accounting().position_size(), a.accounting().position_size());
    assert_eq!(b.accounting().entry_vwap(), a.accounting().entry_vwap());
    assert_eq!(b.notional(), a.notional());
    assert_eq!(b.strategy_realized(), a.strategy_realized());
    assert_eq!(b.accounting().realized_pnl_cumulative(), a.strategy_realized());
}

#[test]
fn accepted_trades_count_once() {
    let mut a = actor();
    register(&mut a, vec![42]);
    let sale = trade(1, 42, Side::Sell, Some(1.25));
    account_all(&mut a, None, vec![sale, sale, trade(2, 42, Side::Buy, None)]);
    let s = summary(&a);
    assert_eq!((s.fill_count, s.buy_count, s.sell_count), (2, 1, 1));
    assert_eq!((s.duplicate_fill_count, s.unattributed_fill_count), (1, 0));
    assert_eq!(f(s.unattributed_realized_pnl_usdc), 0.0);
}

#[test]
fn other_accounts_state_is_not_restored() {
    let store = LiveStateStore::new("logs", "BTC");
    let mut a = actor();
    register(&mut a, vec![42]);
    account_all(&mut a, None, vec![trade(1, 42, Side::Sell, Some(1.25))]);
    let mut saved = store.save(&a.live_state());
    saved.market_id = 2;
    assert_eq!(summary(&new_actor(&saved)).fill_count, 0);
    let mut unsaved = a.live_state();
    assert_eq!(summary(&new_actor(&unsaved)).fill_count, 0);
    unsaved.updated_at = "2026-01-01T00:00:00.000Z".to_string();
    assert_eq!(summary(&new_actor(&unsaved)).fill_count, 1);
}

#[test]
fn applies_trade_before_syncing_same_message_position_snapshot() {
    let mut a = actor();
    register(&mut a, vec![42]);
    account_all(&mut a, Some((0.5, Some(90.0))), vec![]);
    account_all(&mut a, Some((1.0, Some(95.0))), vec![trade(1, 42, Side::Buy, None)]);
    assert_eq!(summary(&a).fill_count, 1);
    assert!((f(a.accounting().position_size()) - 1.0).abs() < 1e-12);
    assert!((f(a.accounting().entry_vwap()) - 95.0).abs() < 1e-12);
    assert!((f(a.open_position()) - 1.0).abs() < 1e-12);
}

#[test]
fn a_position_waits_for_the_bookings_of_its_message() {
    let mut a = actor();
    register(&mut a, vec![42]);
    let position = PositionSnapshot { signed_position: n(3.0), entry_vwap: Some(n(95.0)) };
    let trades = vec![trade(1, 42, Side::Buy, None), trade(2, 42, Side::Buy, None)];
    let bookings = a.on_account(&trades, Some(position));
    assert_eq!(bookings.iter().map(|b| b.trade_id).collect::<Vec<_>>(), vec![1, 2]);
    assert!(bookings.iter().all(|b| !b.superseded));
    assert_eq!(f(a.accounting().position_size()), 0.0);
    post(&mut a, bookings);
    assert!((f(a.accounting().position_size()) - 1.0).abs() < 1e-12);
    a.finish_message();
    assert!((f(a.accounting().position_size()) - 3.0).abs() < 1e-12);
    assert!((f(a.accounting().entry_vwap()) - 95.0).abs() < 1e-12);
    assert_eq!(summary(&a).fill_count, 2);
    assert!((f(a.notional()) - 100.0).abs() < 1e-12);
}

#[test]
fn a_waiting_trade_is_booked_once_when_its_id_is_ours() {
    let mut a = actor();
    account_all(&mut a, Some((0.5, Some(100.0))), vec![trade(1, 42, Side::Sell, Some(1.5))]);
    assert_eq!(summary(&a).fill_count, 0);
    let bookings = a.on_register(&vec![42]);
    assert!(bookings.len() == 1 && bookings[0].superseded && bookings[0].attributed);
    post(&mut a, bookings);
    let s = summary(&a);
    assert_eq!((s.fill_count, s.buy_count, s.sell_count), (1, 0, 1));
    assert_eq!(f(a.strategy_realized()), 1.5);
    assert!((f(a.accounting().position_size()) - 0.5).abs() < 1e-12);
    account_all(&mut a, None, vec![trade(1, 42, Side::Sell, Some(1.5))]);
    let s = summary(&a);
    assert_eq!((s.fill_count, s.duplicate_fill_count), (1, 1));
    assert_eq!(f(a.strategy_realized()), 1.5);
}

#[test]
fn trades_that_cannot_be_booked_are_counted() {
    let mut a = actor();
    let mut foreign = trade(2, 42, Side::Buy, None);
    foreign.bid_account_id = Some(8);
    let mut worthless = trade(3, 42, Side::Buy, None);
    worthless.price = Some(n(0.0));
    account_all(&mut a, None, vec![blank_trade(), foreign, worthless]);
    let s = summary(&a);
    assert_eq!((s.fill_count, s.unattributed_fill_count), (0, 3));
}

#[test]
fn only_so_many_trades_wait() {
    let mut a = actor();
    let trades: Vec<TradePayload> = (0..2_001).map(|i| trade(i, 42, Side::Buy, None)).collect();
    account_all(&mut a, None, trades);
    let s = summary(&a);
    assert_eq!(s.pending_unattributed_fill_count, 2_000);
    assert_eq!(s.unattributed_fill_count, 1);
}

#[test]
fn bookings_are_labelled() {
    let mut a = actor();
    register(&mut a, vec![42]);
    let b = a.on_account(&vec![trade(1, 42, Side::Buy, None)], None);
    assert_eq!(fill_source(&b[0]), "account_all");
    let mut late = b[0];
    late.superseded = true;
    assert_eq!(fill_source(&late), "account_all_late_attributed");
    late.known = false;
    assert_eq!(fill_source(&late), "account_all_unattributed");
    assert_eq!(f(realized_delta(&late, n(3.0))), 0.0);
    assert_eq!(f(realized_delta(&b[0], n(3.0))), 3.0);
}

#[test]
fn trade_rows_carry_the_time_of_the_trade() {
    let mut a = actor();
    register(&mut a, vec![42]);
    let mut t = trade(1, 42, Side::Sell, Some(1.25));
    t.timestamp = Some(1_700_000_000);
    let b = a.on_account(&vec![t], None);
    post(&mut a, b.clone());
    a.on_capital(Some(n(1_000.0)), None);
    a.refresh_mid(n(100.5), 5, n(99.0), 5);
    let row = a.trade_row(
        &b[0],
        RowNumbers {
            realized_delta: n(1.25),
            fee_usd: n(0.0),
            notional_usd: n(50.5),
            spread_capture_bps: Some(n(49.7)),
            inventory_after_usd: Some(n(-50.25)),
        },
    );
    assert_eq!(row.timestamp.as_deref(), Some("2023-11-14T22:13:20.000Z"));
    assert_eq!(row.side, "sell");
    assert_eq!(row.level, -1);
    assert_eq!(row.client_order_index.as_deref(), Some("42"));
    assert_eq!(row.exchange_order_index.as_deref(), Some("100"));
    assert_eq!(row.fill_source, "account_all");
    assert_eq!(f(row.available_capital), 1_000.0);
    assert_eq!(f(row.portfolio_value), 0.0);
    assert_eq!(row.mid_at_fill, Some(n(100.5)));
    assert_eq!(f(row.position_after), -0.5);
}

#[test]
fn the_own_price_is_preferred_and_goes_stale() {
    let mut a = actor();
    a.refresh_mid(n(0.0), u64::MAX, n(0.0), u64::MAX);
    assert_eq!(a.mid(), (None, false));
    a.refresh_mid(n(100.0), 10_000, n(99.0), 0);
    assert_eq!(a.mid(), (Some(n(100.0)), false));
    a.refresh_mid(n(100.0), 10_001, n(99.0), 0);
    assert_eq!(a.mid(), (Some(n(99.0)), false));
    assert_eq!(f(a.unrealized_pnl(n(4.0))), 4.0);
    a.refresh_mid(n(100.0), 10_001, n(99.0), 10_001);
    assert_eq!(a.mid(), (Some(n(99.0)), true));
    assert_eq!(f(a.unrealized_pnl(n(9.0))), 4.0);
}

#[test]
fn exposure_follows_the_position() {
    let mut a = actor();
    a.refresh_mid(n(100.0), 0, n(99.0), 0);
    assert_eq!(a.exposure(), Exposure::Nothing);
    account_all(&mut a, Some((1.0, Some(90.0))), vec![]);
    assert_eq!(a.exposure(), Exposure::Long);
    account_all(&mut a, Some((-1.0, Some(90.0))), vec![]);
    assert_eq!(a.exposure(), Exposure::Short);
    assert_eq!(f(a.entry_vwap()), 90.0);
}

#[test]
fn snapshots_have_a_cell_for_each_column() {
    let head = String::from_utf8(ensure_snapshot_header(0).expect("header")).unwrap();
    assert!(head.starts_with("timestamp,session_id,symbol,market_id,account_index,"));
    assert!(ensure_snapshot_header(5).is_none());
    let mut a = actor();
    register(&mut a, vec![42]);
    account_all(&mut a, None, vec![trade(1, 42, Side::Sell, Some(1.25))]);
    let texts = SummaryTexts {
        realized: "1.250000".to_string(),
        unrealized: "0.000000".to_string(),
        mtm: "1.250000".to_string(),
        open_position: "-0.50000000".to_string(),
        entry_vwap: "101.0000".to_string(),
        last_mid: "unread".to_string(),
        notional: "50.500000".to_string(),
    };
    let line = String::from_utf8(snapshot_line(&summary(&a), &texts)).unwrap();
    assert_eq!(
        line,
        "t1,s,BTC,1,7,1.250000,0.000000,1.250000,-0.50000000,101.0000,,1,0,1,50.500000,0,0,0\n"
    );
    assert_eq!(line.matches(',').count(), head.matches(',').count());
    assert_eq!(session_name("BTC", 1, "20260101T000000Z"), "BTC-1-20260101T000000Z");
}

// --- saved state ---

#[test]
fn save_load_roundtrip() {
    let store = LiveStateStore::new("/tmp/somewhere", "ETH");
    let state = LiveState {
        account_index: 42,
        market_id: 1,
        position_size_est: n(1.25),
        entry_vwap: n(3200.5),
        realized_pnl_cumulative: n(-12.3456),
        fill_count: 7,
        volume_usd: n(98765.43),
        exchange_position_size: n(1.2),
        exchange_entry_vwap: Some(n(3201.0)),
        portfolio_value: n(100000.0),
        available_capital: n(50000.0),
        symbol: String::new(),
        updated_at: String::new(),
    };
    let loaded = store.load(Some(store.save(&state)));
    assert_eq!(loaded.account_index, 42);
    assert_eq!(loaded.market_id, 1);
    assert_eq!(f(loaded.position_size_est), 1.25);
    assert_eq!(f(loaded.entry_vwap), 3200.5);
    assert_eq!(f(loaded.realized_pnl_cumulative), -12.3456);
    assert_eq!(loaded.fill_count, 7);
    assert_eq!(f(loaded.volume_usd), 98765.43);
    assert_eq!(f(loaded.exchange_position_size), 1.2);
    assert_eq!(loaded.exchange_entry_vwap, Some(n(3201.0)));
    assert_eq!(f(loaded.portfolio_value), 100000.0);
    assert_eq!(f(loaded.available_capital), 50000.0);
    assert_eq!(loaded.symbol, "ETH");
    assert!(loaded.updated_at.ends_with('Z'));
    assert!(loaded.updated_at.contains('T'));
    assert!(store.path().ends_with("live_state_ETH.json"));
    assert_eq!(store.path(), "/tmp/somewhere/live_state_ETH.json");
    assert_eq!(store.symbol(), "ETH");
}

#[test]
fn missing_file_yields_defaults() {
    let store = LiveStateStore::new("logs", "BTC");
    let loaded = store.load(None);
    assert_eq!(f(loaded.realized_pnl_cumulative), 0.0);
    assert_eq!(loaded.fill_count, 0);
    assert_eq!(f(loaded.volume_usd), 0.0);
    assert_eq!(loaded.exchange_entry_vwap, None);
    assert!(loaded.symbol.is_empty() && loaded.updated_at.is_empty());
}

#[test]
fn saved_states_are_stamped_with_the_given_time() {
    let store = LiveStateStore::new("logs", "BTC");
    let s = store.save_at(&LiveState::default(), "2026-01-01T00:00:00.000Z");
    assert_eq!((s.symbol.as_str(), s.updated_at.as_str()), ("BTC", "2026-01-01T00:00:00.000Z"));
}

#[test]
fn paths_are_joined_with_one_slash() {
    assert_eq!(join_path("logs", "a.csv"), "logs/a.csv");
    assert_eq!(join_path("logs/", "a.csv"), "logs/a.csv");
    assert_eq!(join_path("", "a.csv"), "a.csv");
}

// --- the trade log ---

fn fmt_g(x: f64, prec: u32) -> String {
    let exp = if x == 0.0 || !x.is_finite() { 0 } else { x.abs().log10().floor() as i64 };
    let notation = choose_notation(n(x), prec, exp);
    let printed = match notation {
        Notation::Zero => String::new(),
        Notation::NotFinite => format!("{x}"),
        Notation::Fixed(d) => format!("{:.*}", d as usize, x),
        Notation::Scientific(d) => format!("{:.*e}", d as usize, x),
    };
    general_text(notation, &printed)
}

#[test]
fn fmt_g_matches_python() {
    assert_eq!(fmt_g(100.0, 10), "100");
    assert_eq!(fmt_g(100.25, 10), "100.25");
    assert_eq!(fmt_g(0.0, 10), "0");
    assert_eq!(fmt_g(1234.5678, 10), "1234.5678");
    assert_eq!(fmt_g(0.0001, 10), "0.0001");
    assert_eq!(fmt_g(3.14159265358979, 10), "3.141592654");
    assert_eq!(fmt_g(0.00001234, 10), "1.234e-05");
    assert_eq!(fmt_g(1.0e12, 10), "1e+12");
    assert_eq!(fmt_g(123456789012.0, 10), "1.23456789e+11");
    assert_eq!(fmt_g(-0.5, 10), "-0.5");
}

#[test]
fn notation_takes_any_number_of_digits() {
    assert_eq!(choose_notation(n(0.5), u32::MAX - 3, -4), Notation::Fixed(u32::MAX));
    assert_eq!(choose_notation(n(5.0), 2_000, 0), Notation::Fixed(1_999));
}

#[test]
fn fmt_g_of_what_is_not_finite() {
    assert_eq!(fmt_g(f64::INFINITY, 10), "inf");
    assert_eq!(fmt_g(f64::NAN, 10), "NaN");
    assert_eq!(fmt_g(-0.0, 10), "0");
}

#[test]
fn fixed_specifiers_match_python() {
    assert_eq!(format!("{:.6}", 1.5f64), "1.500000");
    assert_eq!(format!("{:.4}", -12.3f64), "-12.3000");
    assert_eq!(format!("{:.2}", 1000.0f64), "1000.00");
    assert_eq!(format!("{:.8}", 0.0001f64), "0.00010000");
}

#[test]
fn stripping_leaves_whole_numbers_alone() {
    assert_eq!(strip_fixed("1200"), "1200");
    assert_eq!(strip_fixed("1200.500"), "1200.5");
    assert_eq!(strip_fixed("1200.000"), "1200");
    assert_eq!(strip_sci("1.500e7"), "1.5e+07");
    assert_eq!(strip_sci("1e-123"), "1e-123");
    assert_eq!(strip_sci("2e+3"), "2e+03");
    assert_eq!(strip_sci("inf"), "inf");
}

fn texts(row: &TradeRow) -> RowTexts {
    let g = |v: Option<Num>| v.map(|v| fmt_g(f(v), 10)).unwrap_or_default();
    let d = |v: Option<Num>, p: usize| v.map(|v| format!("{:.*}", p, f(v))).unwrap_or_default();
    RowTexts {
        price: g(Some(row.price)),
        size: d(Some(row.size), 6),
        position_after: d(Some(row.position_after), 6),
        realized_pnl: d(Some(row.realized_pnl), 4),
        available_capital: d(Some(row.available_capital), 2),
        portfolio_value: d(Some(row.portfolio_value), 2),
        notional_usd: d(Some(notional(row, n(f(row.price) * f(row.size)))), 6),
        fee_usd: d(row.fee_usd, 8),
        entry_vwap_after: g(row.entry_vwap_after),
        realized_pnl_cumulative: d(row.realized_pnl_cumulative, 6),
        mid_at_fill: g(row.mid_at_fill),
        spread_capture_bps: d(row.spread_capture_bps, 4),
        inventory_after_usd: d(row.inventory_after_usd, 6),
    }
}

fn plain_row(side: &str, price: f64, size: f64) -> TradeRow {
    TradeRow {
        timestamp: None,
        side: side.to_string(),
        price: n(price),
        size: n(size),
        level: 0,
        position_after: n(0.0),
        realized_pnl: n(0.0),
        available_capital: n(0.0),
        portfolio_value: n(0.0),
        simulated: false,
        notional_usd: None,
        fee_usd: None,
        entry_vwap_after: None,
        realized_pnl_cumulative: None,
        mid_at_fill: None,
        spread_capture_bps: None,
        inventory_after_usd: None,
        client_order_index: None,
        exchange_order_index: None,
        fill_source: String::new(),
    }
}

fn log(logger: &mut TradeLogger, row: TradeRow) {
    let t = texts(&row);
    logger.log_fill(&row, &t);
}

/// A log file in memory.
struct Disk {
    bytes: Vec<u8>,
}

impl Disk {
    fn open(&mut self) {
        match ensure_header(&self.bytes) {
            HeaderPlan::Keep => {}
            HeaderPlan::Replace(b) => self.bytes = b,
            other => panic!("{other:?}"),
        }
    }

    fn flush(&mut self, logger: &mut TradeLogger) {
        if let Some((_, b)) = logger.flush() {
            self.bytes.extend_from_slice(&b);
        }
    }

    fn rows(&self) -> Vec<Vec<String>> {
        let mut reader = csv::ReaderBuilder::new().has_headers(false).from_reader(&self.bytes[..]);
        reader
            .records()
            .map(|r| r.unwrap().iter().map(|s| s.to_string()).collect())
            .collect()
    }
}

fn disk() -> Disk {
    let mut d = Disk { bytes: Vec::new() };
    d.open();
    d
}

#[test]
fn header_written_on_new_file() {
    let logger = TradeLogger::new("/tmp/x", "BTC");
    assert!(logger.path().ends_with("trades_BTC.csv"));
    let rows = disk().rows();
    assert_eq!(rows.len(), 1);
    assert_eq!(rows[0], header_row());
}

#[test]
fn log_then_flush_roundtrip() {
    let mut d = disk();
    let mut logger = TradeLogger::new("/tmp/x", "ETH");
    log(
        &mut logger,
        TradeRow {
            position_after: n(0.5),
            available_capital: n(1000.0),
            portfolio_value: n(1000.0),
            simulated: true,
            fee_usd: Some(n(0.012345)),
            entry_vwap_after: Some(n(100.25)),
            realized_pnl_cumulative: Some(n(0.0)),
            mid_at_fill: Some(n(100.3)),
            spread_capture_bps: Some(n(2.5)),
            inventory_after_usd: Some(n(50.125)),
            client_order_index: Some("c-1".to_string()),
            fill_source: "ws".to_string(),
            ..plain_row("buy", 100.25, 0.5)
        },
    );
    log(
        &mut logger,
        TradeRow {
            level: 1,
            position_after: n(0.25),
            realized_pnl: n(1.2345),
            available_capital: n(1001.0),
            portfolio_value: n(1001.5),
            ..plain_row("sell", 101.0, 0.25)
        },
    );
    assert_eq!(logger.buffered_len(), 2);
    d.flush(&mut logger);
    assert_eq!(logger.buffered_len(), 0);
    d.flush(&mut logger);

    let rows = d.rows();
    assert_eq!(rows.len(), 3);
    assert_eq!(rows[0], header_row());
    assert_eq!(rows[0].len(), 21);

    let r1 = &rows[1];
    assert_eq!(r1.len(), 21);
    assert_eq!(r1[1], "ETH");
    assert_eq!(r1[2], "buy");
    assert_eq!(r1[3], "100.25");
    assert_eq!(r1[4], "0.500000");
    assert_eq!(r1[5], "0");
    assert_eq!(r1[8], "1000.00");
    assert_eq!(r1[10], "true");
    assert_eq!(r1[11], "50.125000");
    assert_eq!(r1[12], "0.01234500");
    assert_eq!(r1[18], "c-1");
    assert_eq!(r1[19], "");
    assert_eq!(r1[20], "ws");
    assert!(r1[0].ends_with('Z'), "ts={}", r1[0]);
    assert!(r1[0].contains('.'), "ts={}", r1[0]);

    let r2 = &rows[2];
    assert_eq!(r2[2], "sell");
    assert_eq!(r2[10], "false");
    assert_eq!(r2[12], "");
    assert_eq!(r2[13], "");
    assert_eq!(r2[18], "");
    assert_eq!(r2[20], "");
    assert_eq!(r2[11], "25.250000");
}

#[test]
fn flush_appends_without_duplicating_header() {
    let mut d = disk();
    let mut logger = TradeLogger::new("/tmp/x", "SOL");
    log(&mut logger, plain_row("buy", 1.0, 1.0));
    d.flush(&mut logger);
    log(&mut logger, plain_row("sell", 2.0, 1.0));
    d.flush(&mut logger);
    let rows = d.rows();
    assert_eq!(rows.len(), 3);
    assert_eq!(rows[0], header_row());
}

#[test]
fn reopen_existing_file_keeps_header_once() {
    let mut d = disk();
    {
        let mut logger = TradeLogger::new("/tmp/x", "XRP");
        log(&mut logger, plain_row("buy", 1.0, 1.0));
        d.flush(&mut logger);
    }
    d.open();
    let mut logger = TradeLogger::new("/tmp/x", "XRP");
    log(&mut logger, plain_row("sell", 2.0, 1.0));
    d.flush(&mut logger);
    let rows = d.rows();
    assert_eq!(rows.len(), 3);
    assert_eq!(rows[0], header_row());
}

#[test]
fn clear_resets_to_header_only() {
    let mut d = disk();
    let mut logger = TradeLogger::new("/tmp/x", "DOGE");
    log(&mut logger, plain_row("buy", 1.0, 1.0));
    d.flush(&mut logger);
    log(&mut logger, plain_row("buy", 1.0, 1.0));
    d.bytes = logger.clear();
    let rows = d.rows();
    assert_eq!(rows.len(), 1);
    assert_eq!(rows[0], header_row());
    assert_eq!(logger.buffered_len(), 0);
}

#[test]
fn failed_flush_keeps_rows_in_order() {
    let mut d = disk();
    let mut logger = TradeLogger::new("/tmp/x", "BTC");
    log(&mut logger, plain_row("buy", 1.0, 1.0));
    log(&mut logger, plain_row("buy", 2.0, 1.0));
    let (rows, _) = logger.flush().expect("rows");
    log(&mut logger, plain_row("buy", 3.0, 1.0));
    logger.put_back(rows);
    assert_eq!(logger.buffered_len(), 3);
    d.flush(&mut logger);
    let prices: Vec<String> = d.rows().iter().skip(1).map(|r| r[3].clone()).collect();
    assert_eq!(prices, vec!["1", "2", "3"]);
}

#[test]
fn old_logs_get_the_columns() {
    let mut d = Disk { bytes: b"time,what\nt1,buy\n".to_vec() };
    d.open();
    let rows = d.rows();
    assert_eq!(rows[0], header_row());
    assert_eq!(rows[1].len(), 21);
    assert_eq!((rows[1][0].as_str(), rows[1][1].as_str(), rows[1][2].as_str()), ("t1", "buy", ""));
    assert!(matches!(ensure_header(&b"\n\n".to_vec()), HeaderPlan::Replace(_)));
    let wide = format!("a\n{}\n", vec!["x"; 22].join(","));
    assert!(matches!(ensure_header(&wide.into_bytes()), HeaderPlan::TooWide));
    assert!(matches!(ensure_header(&vec![b'a', 0xFF, b'\n']), HeaderPlan::Unreadable));
}

#[test]
fn awkward_cells_survive_the_log() {
    let mut d = disk();
    let mut logger = TradeLogger::new("/tmp/x", "B\"T,C");
    log(
        &mut logger,
        TradeRow { fill_source: "two\nlines".to_string(), ..plain_row("buy", 1.0, 1.0) },
    );
    d.flush(&mut logger);
    let rows = d.rows();
    assert_eq!(rows[1][1], "B\"T,C");
    assert_eq!(rows[1][20], "two\nlines");
    d.open();
    assert_eq!(d.rows(), rows);
}

#[test]
fn rows_keep_their_own_time() {
    let row = TradeRow { timestamp: Some("t".to_string()), ..plain_row("buy", 1.0, 1.0) };
    assert_eq!(format_row("BTC", &row, &texts(&row), "now")[0], "t");
    let row = plain_row("buy", 1.0, 1.0);
    assert_eq!(format_row("BTC", &row, &texts(&row), "now")[0], "now");
}

// --- quality ---

struct Quality {
    t: LiveMetricsTracker,
    horizons: Vec<f64>,
}

fn settings() -> QualitySettings {
    QualitySettings {
        window_ms: 3_600_000,
        adaptive_enabled: true,
        adaptive_horizon: n(30.0),
        adverse_threshold_bps: n(2.0),
        spread_widen_per_bps: n(0.05),
        max_spread_multiplier: n(1.5),
        size_reduce_per_bps: n(0.06),
        min_size_multiplier: n(0.55),
    }
}

fn horizon(sec: f64) -> Horizon {
    Horizon { sec: n(sec), ms: (sec * 1000.0) as u64 }
}

fn horizons(secs: &[f64]) -> Vec<Horizon> {
    secs.iter().map(|h| horizon(*h)).collect()
}

fn quality(settings: QualitySettings) -> Quality {
    let t = LiveMetricsTracker::new(&horizons(&[60.0, -1.0, 5.0, 30.0]), settings);
    let horizons = t.horizons().iter().map(|h| f(h.sec)).collect();
    Quality { t, horizons }
}

#[test]
fn horizons_are_positive_ascending_and_different() {
    let raw = horizons(&[60.0, 5.0, -1.0, 0.0, f64::NAN, 5.0, 30.0, 60.0, 0.5]);
    assert_eq!(sorted_horizons(&raw), horizons(&[0.5, 5.0, 30.0, 60.0]));
    assert_eq!(sorted_horizons(&horizons(&[-1.0, 0.0])), vec![]);
    let t = LiveMetricsTracker::new(&raw, settings());
    assert_eq!(*t.horizons(), horizons(&[0.5, 5.0, 30.0, 60.0]));
    assert!(t.adverse_samples(3).is_empty());
}

#[test]
fn the_window_covers_every_horizon_and_a_second() {
    let window = |secs: &[f64], window_ms: u64| {
        LiveMetricsTracker::new(&horizons(secs), QualitySettings { window_ms, ..settings() })
            .settings()
            .window_ms
    };
    assert_eq!(window(&[5.0, 60.0, 30.0], 10_000), 60_000);
    assert_eq!(window(&[5.0, 60.0, 30.0], 90_000), 90_000);
    assert_eq!(window(&[0.5], 0), 1_000);
    assert_eq!(window(&[], 0), 1_000);
}

#[test]
fn a_horizon_given_twice_is_measured_once() {
    let mut t = LiveMetricsTracker::new(&horizons(&[5.0, 5.0]), settings());
    t.record_fill(Side::Buy, n(100.0), n(1.0), None, 1_000);
    let marks = vec![Mark { markout_bps: n(-1.0), adverse_bps: n(1.0) }];
    let done = t.update(6_000, n(99.0), &marks);
    assert_eq!(done.len(), 1);
    assert!(t.waiting().is_empty());
}

impl Quality {
    fn record_fill(&mut self, side: Side, price: f64, size: f64, mid: Option<f64>, now: u64) {
        self.t.record_fill(side, n(price), n(size), mid.map(n), now);
    }

    fn mean(&self, index: usize) -> f64 {
        let s = self.t.adverse_samples(index);
        s.iter().map(|x| f(*x)).sum::<f64>() / s.len() as f64
    }

    fn update(&mut self, now: u64, mid: f64) {
        let marks: Vec<Mark> = self
            .t
            .waiting()
            .into_iter()
            .map(|(side, price)| {
                let price = f(price);
                let m = match side {
                    Side::Buy => (mid - price) / price * 10_000.0,
                    Side::Sell => (price - mid) / price * 10_000.0,
                };
                Mark { markout_bps: n(m), adverse_bps: n((-m).max(0.0)) }
            })
            .collect();
        let _ = self.t.update(now, n(mid), &marks);
        let s = self.t.settings();
        let target = f(s.adaptive_horizon);
        let longest = self.horizons.iter().copied().fold(target, f64::max);
        let near = |t: f64| self.horizons.iter().map(|h| n((h - t).abs())).collect::<Vec<Num>>();
        let basis =
            self.t.basis(&near(target), n((longest - target).abs()), &near(longest));
        let mut numbers =
            AdjustmentNumbers { adverse: n(0.0), spread: n(1.0), size: n(1.0) };
        if let Basis::Samples { index, long, .. } = basis {
            let long = long.map(|l| n(self.mean(l) * 0.75));
            let adverse = f(adverse_mean(n(self.mean(index)), long));
            let excess = (adverse - f(s.adverse_threshold_bps)).max(0.0);
            numbers = AdjustmentNumbers {
                adverse: n(adverse),
                spread: n(1.0 + excess * f(s.spread_widen_per_bps)),
                size: n(1.0 - excess * f(s.size_reduce_per_bps)),
            };
        }
        self.t.adjust(basis, numbers);
    }

    fn adj(&self) -> QualityAdjustment {
        self.t.current_adjustment()
    }
}

#[test]
fn buy_fills_adverse_widen_and_shrink() {
    let mut t = quality(settings());
    let t0 = 1_000_000u64;
    for i in 0..6 {
        t.record_fill(Side::Buy, 100.0, 1.0, Some(100.0), t0 + i);
    }
    t.update(t0 + 31_000, 99.0);
    let adj = t.adj();
    assert_eq!(adj.reason, "adverse_markout");
    assert!(adj.sample_count >= MIN_SAMPLE_COUNT);
    assert!(f(adj.adverse_bps) > 2.0);
    assert!(f(adj.spread_multiplier) > 1.0);
    assert!(f(adj.size_multiplier) < 1.0);
    assert!((f(adj.spread_multiplier) - 1.5).abs() < 1e-9);
    assert!((f(adj.size_multiplier) - 0.55).abs() < 1e-9);
}

#[test]
fn healthy_fills_neutral() {
    let mut t = quality(settings());
    let t0 = 2_000_000u64;
    for i in 0..6 {
        t.record_fill(Side::Buy, 100.0, 1.0, Some(100.0), t0 + i);
    }
    t.update(t0 + 31_000, 101.0);
    let adj = t.adj();
    assert_eq!(adj.reason, "healthy");
    assert!((f(adj.spread_multiplier) - 1.0).abs() < 1e-12);
    assert!((f(adj.size_multiplier) - 1.0).abs() < 1e-12);
    assert!(f(adj.adverse_bps).abs() < 1e-12);
}

#[test]
fn insufficient_samples_neutral() {
    let mut t = quality(settings());
    let t0 = 3_000_000u64;
    t.record_fill(Side::Buy, 100.0, 1.0, Some(100.0), t0);
    t.record_fill(Side::Buy, 100.0, 1.0, Some(100.0), t0 + 1);
    t.update(t0 + 31_000, 99.0);
    let adj = t.adj();
    assert_eq!(adj.reason, "insufficient_markouts");
    assert_eq!(adj.sample_count, 2);
    assert!((f(adj.spread_multiplier) - 1.0).abs() < 1e-12);
    assert!((f(adj.size_multiplier) - 1.0).abs() < 1e-12);
}

#[test]
fn no_samples_neutral() {
    let mut t = quality(settings());
    t.update(5_000, 100.0);
    assert_eq!(t.adj().reason, "insufficient_markouts");
    assert_eq!(t.adj().sample_count, 0);
}

#[test]
fn sell_markout_formula() {
    let mut t = quality(settings());
    let t0 = 4_000_000u64;
    for i in 0..5 {
        t.record_fill(Side::Sell, 200.0, 1.0, Some(200.0), t0 + i);
    }
    t.update(t0 + 31_000, 199.0);
    assert_eq!(t.adj().reason, "healthy");
    assert!(f(t.adj().adverse_bps).abs() < 1e-12);

    let mut t2 = quality(settings());
    for i in 0..5 {
        t2.record_fill(Side::Sell, 200.0, 1.0, Some(200.0), t0 + i);
    }
    t2.update(t0 + 31_000, 201.0);
    assert_eq!(t2.adj().reason, "adverse_markout");
    assert!((f(t2.adj().adverse_bps) - 50.0).abs() < 1e-9);
}

#[test]
fn modest_excess_intermediate_multipliers() {
    let mut t = quality(settings());
    let t0 = 6_000_000u64;
    for i in 0..6 {
        t.record_fill(Side::Buy, 10_000.0, 1.0, Some(10_000.0), t0 + i);
    }
    t.update(t0 + 31_000, 9_995.0);
    let adj = t.adj();
    assert_eq!(adj.reason, "adverse_markout");
    assert!((f(adj.adverse_bps) - 5.0).abs() < 1e-9);
    assert!((f(adj.spread_multiplier) - 1.15).abs() < 1e-9);
    assert!((f(adj.size_multiplier) - 0.82).abs() < 1e-9);
}

#[test]
fn disabled_is_neutral() {
    let mut t = quality(QualitySettings { adaptive_enabled: false, ..settings() });
    let t0 = 7_000_000u64;
    for i in 0..6 {
        t.record_fill(Side::Buy, 100.0, 1.0, Some(100.0), t0 + i);
    }
    t.update(t0 + 31_000, 99.0);
    let adj = t.adj();
    assert_eq!(adj.reason, "disabled");
    assert!((f(adj.spread_multiplier) - 1.0).abs() < 1e-12);
    assert!((f(adj.size_multiplier) - 1.0).abs() < 1e-12);
}

#[test]
fn invalid_fills_rejected() {
    let mut t = quality(settings());
    let t0 = 8_000_000u64;
    t.record_fill(Side::Buy, 0.0, 1.0, Some(100.0), t0);
    t.record_fill(Side::Buy, 100.0, 0.0, Some(100.0), t0);
    t.record_fill(Side::Buy, -5.0, 1.0, Some(100.0), t0);
    t.update(t0 + 31_000, 99.0);
    assert_eq!(t.adj().sample_count, 0);
    assert_eq!(t.adj().reason, "insufficient_markouts");
}

#[test]
fn unsettled_before_horizon() {
    let mut t = quality(settings());
    let t0 = 9_000_000u64;
    for i in 0..6 {
        t.record_fill(Side::Buy, 100.0, 1.0, Some(100.0), t0 + i);
    }
    t.update(t0 + 4_000, 99.0);
    assert_eq!(t.adj().sample_count, 0);
}

#[test]
fn fills_are_measured_once_at_each_horizon() {
    let mut t = quality(settings());
    t.record_fill(Side::Buy, 100.0, 1.0, None, 0);
    t.update(6_000, 99.0);
    t.update(7_000, 99.0);
    assert_eq!(t.t.adverse_samples(0).len(), 1);
    assert_eq!(t.t.adverse_samples(1).len(), 0);
    t.update(60_000, 99.0);
    assert_eq!(t.t.adverse_samples(2).len(), 1);
    assert!(t.t.waiting().is_empty());
}

#[test]
fn old_samples_leave_the_window() {
    let mut t = quality(settings());
    for i in 0..4 {
        t.record_fill(Side::Buy, 100.0, 1.0, None, i);
    }
    t.update(60_100, 99.0);
    assert_eq!(t.t.adverse_samples(1).len(), 4);
    t.update(60_100 + 3_600_000, 99.0);
    assert_eq!(t.t.adverse_samples(1).len(), 4);
    t.update(60_101 + 3_600_000, 99.0);
    assert_eq!(t.t.adverse_samples(1).len(), 0);
}

#[test]
fn too_many_fills_give_way() {
    let mut t = quality(settings());
    for i in 0..(PENDING_CAP as u64 + 5) {
        t.record_fill(Side::Buy, 100.0 + i as f64, 1.0, None, i);
    }
    let waiting = t.t.waiting();
    assert_eq!(waiting.len(), PENDING_CAP);
    assert_eq!(f(waiting[0].1), 105.0);
}

#[test]
fn multipliers_stay_on_their_side_of_one() {
    let mut t = quality(settings());
    for i in 0..6 {
        t.record_fill(Side::Buy, 100.0, 1.0, None, i);
    }
    t.update(31_000, 99.0);
    let near: Vec<Num> = t.horizons.iter().map(|h| n((h - 30.0).abs())).collect();
    let basis = t.t.basis(&near, n(0.0), &near);
    let limit = f(t.t.settings().adverse_threshold_bps);
    for (adverse, spread, size, want) in [
        (limit + 1.0, 0.5, 2.0, (1.0, 1.0, "adverse_markout")),
        (limit + 1.0, 9.0, 0.0, (1.5, 0.55, "adverse_markout")),
        (limit + 1.0, f64::NAN, f64::NAN, (1.0, 1.0, "adverse_markout")),
        (limit, 9.0, 0.0, (1.0, 1.0, "healthy")),
    ] {
        t.t.adjust(
            basis,
            AdjustmentNumbers { adverse: n(adverse), spread: n(spread), size: n(size) },
        );
        let a = t.adj();
        assert_eq!((f(a.spread_multiplier), f(a.size_multiplier), a.reason), want);
    }
}

#[test]
fn settings_are_brought_into_range() {
    assert_eq!(quality(settings()).adj().reason, "neutral");
    assert_eq!(f(quality(settings()).adj().adverse_bps), 0.0);
    let t = quality(QualitySettings {
        spread_widen_per_bps: n(-1.0),
        max_spread_multiplier: n(0.5),
        size_reduce_per_bps: n(-1.0),
        min_size_multiplier: n(0.0),
        ..settings()
    });
    let s = t.t.settings();
    assert_eq!(f(s.spread_widen_per_bps), 0.0);
    assert_eq!(f(s.max_spread_multiplier), 1.0);
    assert_eq!(f(s.size_reduce_per_bps), 0.0);
    assert_eq!(f(s.min_size_multiplier), 0.05);
    assert_eq!(t.horizons, vec![5.0, 30.0, 60.0]);
    assert_eq!(QualityAdjustment::default().reason, "neutral");
}
