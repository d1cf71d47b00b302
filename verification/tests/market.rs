//! Books, feeds, rolling windows, the signal and the quote ladder.
use lighter_mm::binance::book_ticker::{accepts_bbo, parse_ticker, ticker_url};
use lighter_mm::binance::depth_client::{
    classify_event, parse_event, parse_levels, read_snapshot, BinanceDepthClient, DepthEvent,
    DepthSnapshot, EventAction, LiveStep, SnapshotStep,
};
use lighter_mm::binance::obi::BinanceObi;
use lighter_mm::book::local_book::{BookSide, LocalBook};
use lighter_mm::json::parse_json;
use lighter_mm::lighter::messages::PriceLevel;
use lighter_mm::num::Num;
use lighter_mm::shared::SharedAlpha;
use lighter_mm::strategy::quotes::{
    build_quote_levels, exit_bias_applies, exit_bias_tightens, fallback_reduce_only, keep_passive,
    plan_ladder, quality_widens, reducing_side, LadderPlan,
};
use lighter_mm::strategy::rolling::{Moments, RollingStats};
use lighter_mm::strategy::vol_obi::{SignalSample, VolObiCalculator};
use lighter_mm::types::Side;

fn n(x: f64) -> Num {
    Num::new(x.to_bits())
}

fn f(x: Num) -> f64 {
    f64::from_bits(x.bits)
}

fn levels(l: &[(f64, f64)]) -> Vec<PriceLevel> {
    l.iter().map(|&(p, s)| PriceLevel { price: n(p), size: n(s) }).collect()
}

fn sum(sizes: Vec<Num>) -> f64 {
    sizes.into_iter().map(f).sum()
}

// --- the book ---

#[test]
fn best_and_mid() {
    let mut b = LocalBook::new();
    b.apply_snapshot(
        &levels(&[(100.0, 1.0), (99.0, 2.0), (101.0, 0.5)]),
        &levels(&[(102.0, 1.0), (103.0, 2.0)]),
    );
    assert_eq!(b.best_bid().map(f), Some(101.0));
    assert_eq!(b.best_ask().map(f), Some(102.0));
    let (bid, ask) = b.touch().expect("two sides");
    assert_eq!((f(bid) + f(ask)) * 0.5, 101.5);
}

#[test]
fn delta_upsert_remove() {
    let mut b = LocalBook::new();
    b.apply_snapshot(&levels(&[(100.0, 1.0)]), &levels(&[(102.0, 1.0)]));
    b.apply_delta(&levels(&[(100.5, 3.0)]), &levels(&[(102.0, 0.0)]));
    assert_eq!(b.best_bid().map(f), Some(100.5));
    assert_eq!(b.best_ask(), None);
}

#[test]
fn obi_range_sums() {
    let mut book = LocalBook::new();
    book.apply_snapshot(
        &levels(&[(99.0, 1.0), (100.0, 2.0), (101.0, 3.0)]),
        &levels(&[(102.0, 4.0), (103.0, 5.0), (104.0, 6.0)]),
    );
    let mid = 101.5;
    let depth = 0.025;
    let lower = mid * (1.0 - depth);
    let upper = mid * (1.0 + depth);
    let bid_sum = sum(book.bids.sizes_from(n(lower)));
    let ask_sum = sum(book.asks.sizes_to(n(upper)));
    assert!((bid_sum - 6.0).abs() < 1e-9);
    assert!((ask_sum - 15.0).abs() < 1e-9);
    assert!((bid_sum - ask_sum - (-9.0)).abs() < 1e-9);
}

#[test]
fn a_level_is_read_back_as_it_was_set() {
    let mut side = BookSide::new();
    side.upsert(n(100.0), n(1.0));
    side.upsert(n(99.0), n(2.0));
    side.upsert(n(100.0), n(5.0));
    assert_eq!(side.len(), 2);
    assert_eq!((f(side.level(0).price), f(side.level(0).size)), (99.0, 2.0));
    assert_eq!((f(side.level(1).price), f(side.level(1).size)), (100.0, 5.0));
    side.upsert(n(99.0), n(0.0));
    assert_eq!(side.len(), 1);
    side.upsert(n(42.0), n(0.0));
    assert_eq!(side.len(), 1);
    side.clear();
    assert!(side.is_empty());
}

#[test]
fn reset_forgets_the_book() {
    let mut b = LocalBook::new();
    b.apply_snapshot(&levels(&[(100.0, 1.0)]), &levels(&[(102.0, 1.0)]));
    b.last_offset = Some(7);
    b.last_nonce = Some(8);
    b.reset();
    assert!(!b.initialized);
    assert_eq!((b.last_offset, b.last_nonce, b.touch()), (None, None, None));
}

// --- the reference feed ---

#[test]
fn unsynced_pre_snapshot_events_drop() {
    assert_eq!(classify_event(false, 100, 0, 90, 99, 0), EventAction::Drop);
    assert_ne!(classify_event(false, 100, 0, 95, 100, 0), EventAction::Drop);
}

#[test]
fn unsynced_bracketing_event_applies_first() {
    assert_eq!(classify_event(false, 100, 0, 95, 105, 0), EventAction::ApplyFirst);
    assert_eq!(classify_event(false, 100, 0, 100, 100, 0), EventAction::ApplyFirst);
}

#[test]
fn unsynced_event_past_snapshot_resyncs() {
    assert_eq!(classify_event(false, 100, 0, 101, 110, 0), EventAction::Resync);
}

#[test]
fn synced_continuity() {
    assert_eq!(classify_event(true, 100, 105, 106, 110, 105), EventAction::Apply);
    assert_eq!(classify_event(true, 100, 105, 108, 112, 107), EventAction::Resync);
}

fn ev(big_u: i64, u: i64, pu: i64) -> DepthEvent {
    DepthEvent { big_u, u, pu, bids: Vec::new(), asks: Vec::new() }
}

fn snap(last_update_id: i64) -> DepthSnapshot {
    DepthSnapshot {
        last_update_id,
        bids: levels(&[(100.0, 1.0)]),
        asks: levels(&[(101.0, 1.0)]),
    }
}

fn client() -> BinanceDepthClient {
    BinanceDepthClient::new("btcusdt", 1000, 100)
}

#[test]
fn drain_empty_buffer_is_not_an_error() {
    let mut c = client();
    assert_eq!(c.apply_snapshot_and_drain(&snap(100), &Vec::new()), Some(false));
    let stale = vec![ev(80, 90, 79), ev(90, 99, 90)];
    assert_eq!(c.apply_snapshot_and_drain(&snap(100), &stale), Some(false));
}

#[test]
fn drain_bracketing_buffer_syncs_and_tracks_prev_u() {
    let mut c = client();
    let buf = vec![ev(80, 95, 70), ev(95, 105, 94), ev(106, 110, 105)];
    assert_eq!(c.apply_snapshot_and_drain(&snap(100), &buf), Some(true));
    assert_eq!(c.obi().prev_u(), 110);
    assert_eq!(c.step(true, &ev(111, 115, 110)), EventAction::Apply);
    assert_eq!(c.step(true, &ev(120, 125, 119)), EventAction::Resync);
}

#[test]
fn drain_gapped_buffer_requests_resync() {
    let mut c = client();
    let buf = vec![ev(101, 110, 100)];
    assert_eq!(c.apply_snapshot_and_drain(&snap(100), &buf), None);
}

#[test]
fn live_first_event_validated_when_buffer_was_empty() {
    let mut c = client();
    assert_eq!(c.apply_snapshot_and_drain(&snap(100), &Vec::new()), Some(false));
    assert_eq!(c.step(false, &ev(90, 99, 89)), EventAction::Drop);
    assert_eq!(c.step(false, &ev(98, 104, 97)), EventAction::ApplyFirst);
    assert_eq!(c.step(false, &ev(101, 108, 100)), EventAction::Resync);
}

#[test]
fn live_feed_applies_then_asks_for_a_snapshot() {
    let mut c = client();
    assert_eq!(c.on_snapshot(&snap(100), &Vec::new()), SnapshotStep::Live { synced: false });
    assert_eq!(c.on_live(&ev(98, 104, 97)), LiveStep::Applied);
    assert_eq!(c.on_live(&ev(105, 110, 104)), LiveStep::Applied);
    assert_eq!(c.on_live(&ev(120, 125, 119)), LiveStep::Retry);
}

#[test]
fn feed_addresses_are_in_lower_case() {
    let c = BinanceDepthClient::new("BTCUSDT", 500, 10);
    assert_eq!(c.symbol(), "btcusdt");
    assert_eq!(c.snapshot_limit(), 500);
    assert_eq!(c.ws_url("wss://host/ws"), "wss://host/ws/btcusdt@depth@100ms");
    assert!(ticker_url("wss://host/ws", "BTCUSDT").contains("btcusdt"));
}

#[test]
fn changes_are_read_from_their_text() {
    let text = "{\"e\":\"depthUpdate\",\"U\":5,\"u\":9,\"pu\":4,\"b\":[[\"100.5\",\"2\"],[\"bad\"]],\"a\":[]}";
    let e = parse_event(text).expect("a change");
    assert_eq!((e.big_u, e.u, e.pu), (5, 9, 4));
    assert_eq!(e.bids, vec![("100.5".to_string(), "2".to_string())]);
    assert!(e.asks.is_empty());
    assert!(parse_event("{\"result\":null}").is_none());
    assert!(parse_event("not json").is_none());
}

#[test]
fn snapshots_are_read_from_their_text() {
    let v = parse_json("{\"lastUpdateId\":77,\"bids\":[[\"1\",\"2\"]],\"asks\":[[\"3\",\"4\"],[\"5\",\"6\"]]}")
        .expect("json");
    let (id, bids, asks) = read_snapshot(&v);
    assert_eq!(id, 77);
    assert_eq!(bids, vec![("1".to_string(), "2".to_string())]);
    assert_eq!(asks.len(), 2);
    assert!(parse_levels(None).is_empty());
}

#[test]
fn tickers_need_two_sides() {
    let t = parse_ticker("{\"b\":\"100.0\",\"B\":\"1\",\"a\":\"100.5\",\"A\":\"2\"}").expect("ticker");
    assert_eq!((t.bid.as_deref(), t.ask.as_deref()), (Some("100.0"), Some("100.5")));
    assert!(accepts_bbo(n(100.0), n(100.5)));
    assert!(!accepts_bbo(n(100.0), n(f64::INFINITY)));
    assert!(!accepts_bbo(n(f64::NAN), n(100.5)));
    assert!(!accepts_bbo(n(101.0), n(100.5)));
}

// --- moments, as they are worked into the windows ---

fn moved(m: Moments, count: usize, leaving: Option<Num>, value: f64) -> Moments {
    let (mut sum, mut m2, mut mean, mut k) = (f(m.sum), f(m.m2), f(m.mean), count);
    if let Some(old) = leaving {
        let old = f(old);
        let next = if k > 1 { mean + (mean - old) / (k as f64 - 1.0) } else { 0.0 };
        m2 -= (old - mean) * (old - next);
        if m2 < 0.0 {
            m2 = 0.0;
        }
        sum -= old;
        k -= 1;
        mean = next;
    }
    sum += value;
    k += 1;
    let next = sum / k as f64;
    m2 += (value - mean) * (value - next);
    if m2 < 0.0 {
        m2 = 0.0;
    }
    let std_dev = if k >= 2 { (m2 / k as f64).sqrt() } else { 0.0 };
    Moments { sum: n(sum), m2: n(m2), mean: n(next), std_dev: n(std_dev) }
}

fn push(s: &mut RollingStats, v: f64) {
    let m = moved(s.moments(), s.count(), s.leaving(), v);
    s.push(n(v), m);
}

fn zscore(s: &RollingStats, v: f64) -> f64 {
    if s.is_flat() {
        0.0
    } else {
        (v - f(s.mean())) / f(s.std_dev())
    }
}

#[test]
fn mean_std_population() {
    let mut s = RollingStats::new(5);
    for v in [1.0, 2.0, 3.0, 4.0, 5.0] {
        push(&mut s, v);
    }
    assert!((f(s.mean()) - 3.0).abs() < 1e-9);
    assert!((f(s.std_dev()) - 2.0_f64.sqrt()).abs() < 1e-9);
    assert!(zscore(&s, 3.0).abs() < 1e-9);
    assert!((zscore(&s, 5.0) - 2.0_f64.sqrt()).abs() < 1e-9);
}

#[test]
fn eviction_matches_window() {
    let mut s = RollingStats::new(3);
    for v in [1.0, 2.0, 3.0] {
        push(&mut s, v);
    }
    assert!((f(s.mean()) - 2.0).abs() < 1e-9);
    push(&mut s, 4.0);
    assert!((f(s.mean()) - 3.0).abs() < 1e-9);
    push(&mut s, 5.0);
    assert!((f(s.mean()) - 4.0).abs() < 1e-9);
    assert!((f(s.std_dev()) - (2.0_f64 / 3.0).sqrt()).abs() < 1e-9);
}

#[test]
fn nan_inf_still_pushed_like_pyx() {
    let mut s = RollingStats::new(4);
    push(&mut s, 1.0);
    push(&mut s, 2.0);
    assert!((f(s.mean()) - 1.5).abs() < 1e-9);
}

#[test]
fn warmup_zero_std() {
    let mut s = RollingStats::new(10);
    push(&mut s, 42.0);
    assert_eq!(f(s.std_dev()), 0.0);
    assert_eq!(zscore(&s, 99.0), 0.0);
}

#[test]
fn window_keeps_the_latest() {
    let mut s = RollingStats::new(2);
    assert_eq!(s.leaving(), None);
    push(&mut s, 1.0);
    push(&mut s, 2.0);
    assert!(s.is_full());
    assert_eq!(s.leaving().map(f), Some(1.0));
    push(&mut s, 3.0);
    assert_eq!(s.leaving().map(f), Some(2.0));
    assert_eq!(s.count(), 2);
    s.clear();
    assert_eq!((s.count(), s.is_full()), (0, false));
}

#[test]
fn publishes_alpha_after_warmup() {
    let mut shared = SharedAlpha::new(3);
    let mut obi = BinanceObi::new(100);
    obi.apply_snapshot(
        &levels(&[(99.0, 1.0), (100.0, 2.0)]),
        &levels(&[(101.0, 1.0), (102.0, 2.0)]),
        10,
    );
    for i in 0..5 {
        obi.apply_diff(&levels(&[(100.0, 2.0 + i as f64)]), &levels(&[(101.0, 1.0)]), 11 + i);
        let (b, a) = obi.touch().expect("two sides");
        let mid = (f(b) + f(a)) * 0.5;
        let imbalance = sum(obi.book().bids.sizes_from(n(mid * 0.975)))
            - sum(obi.book().asks.sizes_to(n(mid * 1.025)));
        let (m, count, leaving) = obi.imbalance_window();
        let next = moved(m, count, leaving, imbalance);
        let sd = f(next.std_dev);
        let alpha = if sd < 1e-10 { 0.0 } else { (imbalance - f(next.mean)) / sd };
        assert!(obi.update_alpha(&mut shared, n(mid), n(imbalance), next, n(alpha), 1_000 + i as u64));
    }
    assert!(shared.warmed_up());
    assert!(f(shared.alpha()).is_finite());
    assert!(f(shared.alpha()) > 0.0);
    assert_eq!((obi.last_update_id(), obi.prev_u()), (10, 15));
}

// --- the signal ---

fn feed(c: &mut VolObiCalculator, mid: f64, book: &LocalBook, looking_depth: f64, vol_scale: f64) {
    let change = c.prev_mid().map(|p| mid - f(p)).unwrap_or(0.0);
    let (cm, ck, cl) = c.change_window();
    let change_moments = moved(cm, ck, cl, change);
    let imbalance = sum(book.bids.sizes_from(n(mid * (1.0 - looking_depth))))
        - sum(book.asks.sizes_to(n(mid * (1.0 + looking_depth))));
    let (im, ik, il) = c.imbalance_window();
    let imbalance_moments = moved(im, ik, il, imbalance);
    let sd = f(imbalance_moments.std_dev);
    let volatility = if c.prev_mid().is_some() {
        f(change_moments.std_dev) * vol_scale
    } else {
        f(cm.std_dev) * vol_scale
    };
    c.on_book_update(SignalSample {
        mid: n(mid),
        change: n(change),
        change_moments,
        imbalance: n(imbalance),
        imbalance_moments,
        volatility: n(volatility),
        local_alpha: n(if sd < 1e-10 { 0.0 } else { (imbalance - f(imbalance_moments.mean)) / sd }),
    });
}

#[test]
fn not_warmed_returns_none() {
    let c = VolObiCalculator::new(6000, 100, n(1000.0));
    assert_eq!(c.quote(n(99.0), n(101.0)), None);
}

#[test]
fn warms_up_and_quotes() {
    let mut c = VolObiCalculator::new(100, 5, n(1_000_000.0));
    let mut book = LocalBook::new();
    book.apply_snapshot(
        &levels(&[(99.0, 1.0), (100.0, 1.0)]),
        &levels(&[(101.0, 1.0), (102.0, 1.0)]),
    );
    for i in 0..10 {
        let mid = 100.5 + (i as f64) * 0.1;
        feed(&mut c, mid, &book, 0.025, 10.0_f64.sqrt());
    }
    assert!(c.warmed_up());
    assert!(f(c.volatility()) > 0.0);
    let half = f(c.volatility());
    let bid = ((101.0 - half) / 0.1).floor() * 0.1;
    let ask = ((101.0 + half) / 0.1).ceil() * 0.1;
    let q = c.quote(n(bid), n(ask));
    assert!(q.is_some());
    let (bid, ask) = q.unwrap();
    assert!(f(bid) < f(ask));
    assert_eq!(c.quote(n(100.0), n(100.0)), None);
}

#[test]
fn alpha_override_roundtrip() {
    let mut c = VolObiCalculator::new(50, 2, n(1000.0));
    let mut book = LocalBook::new();
    book.apply_snapshot(&levels(&[(99.0, 1.0)]), &levels(&[(101.0, 1.0)]));
    for _ in 0..5 {
        feed(&mut c, 100.0, &book, 0.025, 10.0_f64.sqrt());
    }
    c.set_alpha_override(Some(n(2.5)));
    assert!((f(c.alpha()) - 2.5).abs() < 1e-12);
    c.set_alpha_override(None);
    assert!(f(c.alpha()).abs() < 1e-12);
}

#[test]
fn reset_makes_the_signal_cold() {
    let mut c = VolObiCalculator::new(50, 2, n(1000.0));
    let mut book = LocalBook::new();
    book.apply_snapshot(&levels(&[(99.0, 1.0)]), &levels(&[(101.0, 1.0)]));
    for i in 0..5 {
        feed(&mut c, 100.0 + i as f64, &book, 0.025, 1.0);
    }
    assert!(c.warmed_up());
    assert_eq!(c.total_samples(), 4);
    c.set_max_position_dollar(n(-3.0));
    assert_eq!(f(c.max_position_dollar()), 0.0);
    c.reset();
    assert!(!c.warmed_up());
    assert_eq!((c.total_samples(), c.prev_mid()), (0, None));
    assert_eq!(f(c.volatility()), 0.0);
}

// --- the ladder ---

fn floor_tick(p: f64, tick: f64) -> f64 {
    (p / tick).floor() * tick
}

fn ceil_tick(p: f64, tick: f64) -> f64 {
    (p / tick).ceil() * tick
}

type Level = (Option<f64>, Option<f64>);

fn ladder(
    l0: Option<(f64, f64)>,
    mid: f64,
    position: f64,
    max_pos_usd: f64,
    tick: f64,
    factors: &[f64],
    fallback_bps: f64,
) -> Vec<Level> {
    let mut rungs = Vec::new();
    if let Some((b, a)) = l0 {
        for factor in &factors[1..] {
            rungs.push((
                n(floor_tick(mid - (mid - b) * factor, tick)),
                n(ceil_tick(mid + (a - mid) * factor, tick)),
            ));
        }
    }
    let depth = (mid * fallback_bps.max(1.0) / 10_000.0).max(tick);
    let fallback = match reducing_side(n(position), n(mid)) {
        Some(Side::Sell) => keep_passive(Side::Sell, n(ceil_tick(mid + depth, tick)), n(mid), n(mid + tick)),
        _ => keep_passive(Side::Buy, n(floor_tick(mid - depth, tick)), n(mid), n(mid - tick)),
    };
    build_quote_levels(
        l0.map(|(b, a)| (n(b), n(a))),
        &rungs,
        n(mid),
        n(position),
        n(max_pos_usd),
        n(position.abs() * mid),
        fallback,
        factors.len(),
    )
    .into_iter()
    .map(|(b, a)| (b.map(f), a.map(f)))
    .collect()
}

#[test]
fn ladder_widens_by_factor() {
    let out = ladder(Some((99.0, 101.0)), 100.0, 0.0, 1e9, 0.1, &[1.0, 2.0], 4.0);
    assert_eq!(out[0], (Some(99.0), Some(101.0)));
    assert_eq!(out[1], (Some(98.0), Some(102.0)));
}

#[test]
fn position_limit_suppresses_add_side_long() {
    let out = ladder(Some((99.0, 101.0)), 100.0, 1.0, 50.0, 0.1, &[1.0, 2.0], 4.0);
    assert_eq!(out[0].0, None);
    assert!(out[0].1.is_some());
}

#[test]
fn position_at_its_limit_is_not_added_to() {
    let below = ladder(Some((99.0, 101.0)), 100.0, 0.5, 50.1, 0.1, &[1.0, 2.0], 4.0);
    assert!(below.iter().all(|l| l.0.is_some() && l.1.is_some()));
    let reached = ladder(Some((99.0, 101.0)), 100.0, 0.5, 50.0, 0.1, &[1.0, 2.0], 4.0);
    assert!(reached.iter().all(|l| l.0.is_none() && l.1.is_some()));
    assert_eq!(reached.len(), 2);
}

#[test]
fn position_limit_suppresses_add_side_short() {
    let out = ladder(Some((99.0, 101.0)), 100.0, -1.0, 50.0, 0.1, &[1.0, 2.0], 4.0);
    assert!(out.iter().all(|l| l.1.is_none()));
    assert!(out.iter().all(|l| l.0.is_some()));
}

#[test]
fn not_warmed_with_inventory_falls_back() {
    let out = ladder(None, 100.0, 0.5, 1e9, 0.1, &[1.0, 2.0], 4.0);
    assert_eq!(out[0].0, None);
    assert!(out[0].1.unwrap() > 100.0);
}

#[test]
fn nothing_is_quoted_flat_and_cold() {
    assert_eq!(ladder(None, 100.0, 0.0, 1e9, 0.1, &[1.0, 2.0], 4.0), vec![(None, None); 2]);
    assert_eq!(plan_ladder(true, n(0.0), n(0.0), n(0.0)), LadderPlan::Nothing);
    assert_eq!(plan_ladder(true, n(0.5), n(0.0), n(50.0)), LadderPlan::ReduceOnly);
    assert_eq!(fallback_reduce_only(n(0.0), n(1.0), n(1.0), 1), vec![(None, None)]);
    assert_eq!(fallback_reduce_only(n(100.0), n(-1.0), n(99.5), 1), vec![(Some(n(99.5)), None)]);
}

#[test]
fn quality_multiplier_widens() {
    let (mid, multiplier, tick) = (100.0, 1.5, 0.1);
    assert!(quality_widens(n(multiplier), n(mid)));
    let bid = floor_tick(mid - (mid - 99.0f64).max(0.0) * multiplier, tick);
    let ask = ceil_tick(mid + (101.0f64 - mid).max(0.0) * multiplier, tick);
    assert!((bid - 98.5).abs() < 1e-9);
    assert!((ask - 101.5).abs() < 1e-9);
    assert!(!quality_widens(n(1.0001), n(mid)));
    assert!(quality_widens(n(1.0002), n(mid)));
    assert!(!quality_widens(n(1.5), n(0.0)));
}

#[test]
fn inventory_bias_tightens_exit_long() {
    let (mid, position, max_pos, tick) = (100.0, 1.0, 100.0, 0.1);
    let ratio = position * mid / max_pos;
    assert!(exit_bias_applies(true, n(mid), n(position), n(max_pos), n(ratio), n(0.05)));
    let tighten = (0.45 * ratio).min(0.35f64);
    let widen = (0.75 * ratio).min(0.65f64);
    let scale = |side: Side| {
        if exit_bias_tightens(side, n(position)) {
            (1.0 - tighten).max(0.05f64)
        } else {
            1.0 + widen
        }
    };
    let ask = keep_passive(
        Side::Sell,
        n(ceil_tick(mid + (101.0 - mid) * scale(Side::Sell), tick)),
        n(mid),
        n(ceil_tick(mid + tick, tick)),
    );
    let bid = keep_passive(
        Side::Buy,
        n(floor_tick(mid - (mid - 99.0) * scale(Side::Buy), tick)),
        n(mid),
        n(floor_tick(mid - tick, tick)),
    );
    assert!(f(ask) < 101.0);
    assert!(f(bid) < 99.0);
    assert!(!exit_bias_applies(false, n(mid), n(position), n(max_pos), n(ratio), n(0.05)));
    assert!(!exit_bias_applies(true, n(mid), n(0.0), n(max_pos), n(0.0), n(0.05)));
}
