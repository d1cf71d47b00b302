//! The market-data task, the reconcile poller, the live feeds and the configuration.
use lighter_mm::book::local_book::LocalBook;
use lighter_mm::config::{
    choose_config, parse_args, validate_live, ConfigChoice, Credentials, CredentialsError, EnvVars,
    LiveConfigError,
};
use lighter_mm::exec::order_manager::{OrderManager, SideQuote};
use lighter_mm::lighter::messages::{
    AccountAllMsg, AccountOrdersMsg, OrderBookMsg, OrderBookPayload, PositionPayload, PriceLevel,
    RemoteOrder, StatsPayload, TickerMsg, TradePayload,
};
use lighter_mm::num::Num;
use lighter_mm::orchestrator::cycle::{CycleInput, CycleState, CycleStep};
use lighter_mm::orchestrator::hot::{
    effective_position, in_wallclock_warmup, market_message, plan_quotes, pull_ladder,
    quote_cycle, BookGuard, BookStep, MarketMessage, Mode, PositionHold, QuoteClock, QuotePlan,
    SANITY_STREAK_TRIP,
};
use lighter_mm::orchestrator::live::{
    account_all_channel, account_orders_channel, account_update, age_for_log, base_amount_seed,
    binance_symbol, leverage_plan, market_channels, max_position_seed, may_start_live, own_fills,
    resolved_ids, stats_reported, user_stats_channel, BookClearing, ClearStep,
};
use lighter_mm::orchestrator::poller::{
    cancel_nonce_step, doomed_orders, orphan_ids, NonceStep, Poller,
};
use lighter_mm::risk::RiskController;
use lighter_mm::strategy::vol_obi::VolObiCalculator;
use lighter_mm::types::{OrderAction, OrderEvent, Side, SideStatus};

const SEC: u64 = 1_000_000_000;
const MS: u64 = 1_000_000;

fn n(x: f64) -> Num {
    Num::new(x.to_bits())
}

fn f(x: Num) -> f64 {
    f64::from_bits(x.bits)
}

// --- the hold after a change of the position ---

fn look(h: &mut PositionHold, position: f64, now: u64) -> (bool, bool) {
    let distance = h.last_seen_position.map(|p| (position - f(p)).abs()).unwrap_or(0.0);
    let step = h.hold_quotes_for_position_reconcile(n(position), n(distance), now);
    (step.hold, step.notify)
}

#[test]
fn live_position_change_holds_quotes_and_notifies_reconcile() {
    let mut hot = PositionHold::new(Mode::Live, 3 * SEC);
    let now = 100 * SEC;
    assert_eq!(hot.hold, 3 * SEC);
    assert_eq!(look(&mut hot, 0.0, now), (false, false));
    let changed_at = now + MS;
    assert_eq!(look(&mut hot, 0.00046, changed_at), (true, true));
    assert_eq!(look(&mut hot, 0.00046, changed_at + SEC), (true, false));
    let later = changed_at + hot.hold + MS;
    assert_eq!(look(&mut hot, 0.00046, later), (false, false));
    assert!(hot.hold_until.is_none());
}

#[test]
fn dry_run_position_change_does_not_hold_quotes() {
    let mut hot = PositionHold::new(Mode::DryRun, 3 * SEC);
    let now = 100 * SEC;
    assert_eq!(look(&mut hot, 0.0, now), (false, false));
    assert_eq!(look(&mut hot, 0.00046, now + MS), (false, false));
    assert!(hot.hold_until.is_none());
}

// --- the book ---

fn levels(l: &[(f64, f64)]) -> Vec<PriceLevel> {
    l.iter().map(|&(p, s)| PriceLevel { price: n(p), size: n(s) }).collect()
}

fn message(
    kind: &str,
    offset: Option<u64>,
    begin: Option<i64>,
    nonce: Option<i64>,
    bids: &[(f64, f64)],
    asks: &[(f64, f64)],
) -> OrderBookMsg {
    OrderBookMsg {
        msg_type: kind.to_string(),
        offset,
        nonce,
        begin_nonce: begin,
        order_book: OrderBookPayload {
            bids: levels(bids),
            asks: levels(asks),
            offset: None,
            nonce: None,
            begin_nonce: None,
        },
    }
}

const SNAP: &str = "subscribed/order_book";
const DELTA: &str = "update/order_book";

#[test]
fn book_follows_contiguous_deltas_and_notices_gaps() {
    let mut g = BookGuard::new();
    let mut book = LocalBook::new();
    let mut calc = VolObiCalculator::new(10, 1, n(1.0));
    let snap = message(SNAP, Some(1), None, Some(10), &[(99.0, 1.0)], &[(101.0, 1.0)]);
    assert_eq!(g.on_orderbook(&mut book, &mut calc, &snap, false), BookStep::Applied);
    let d1 = message(DELTA, Some(2), Some(10), Some(12), &[(100.0, 1.0)], &[]);
    assert_eq!(g.on_orderbook(&mut book, &mut calc, &d1, false), BookStep::Applied);
    assert_eq!(book.best_bid().map(f), Some(100.0));
    assert_eq!((book.last_offset, book.last_nonce), (Some(2), Some(12)));
    let stale = message(DELTA, Some(2), Some(12), Some(13), &[(100.5, 1.0)], &[]);
    assert_eq!(g.on_orderbook(&mut book, &mut calc, &stale, false), BookStep::Stale);
    let gap = message(DELTA, Some(5), Some(14), Some(15), &[(100.5, 1.0)], &[]);
    assert_eq!(g.on_orderbook(&mut book, &mut calc, &gap, false), BookStep::Gap);
    assert!(g.awaiting_resnapshot);
    let next = message(DELTA, Some(6), Some(12), Some(16), &[(100.5, 1.0)], &[]);
    assert_eq!(g.on_orderbook(&mut book, &mut calc, &next, false), BookStep::Awaiting);
    assert_eq!(book.best_bid().map(f), Some(100.0));
    let fresh = message(SNAP, Some(7), None, Some(20), &[(98.0, 1.0)], &[(102.0, 1.0)]);
    assert_eq!(g.on_orderbook(&mut book, &mut calc, &fresh, false), BookStep::Applied);
    assert!(!g.awaiting_resnapshot);
    assert_eq!(book.best_bid().map(f), Some(98.0));
}

#[test]
fn reconnect_discards_the_book() {
    let mut g = BookGuard::new();
    let mut book = LocalBook::new();
    let mut calc = VolObiCalculator::new(10, 1, n(1.0));
    let snap = message(SNAP, Some(9), None, Some(10), &[(99.0, 1.0)], &[(101.0, 1.0)]);
    let _ = g.on_orderbook(&mut book, &mut calc, &snap, false);
    let delta = message(DELTA, Some(2), Some(77), None, &[(50.0, 1.0)], &[(51.0, 1.0)]);
    assert_eq!(g.on_orderbook(&mut book, &mut calc, &delta, true), BookStep::Applied);
    assert_eq!(book.best_bid().map(f), Some(50.0));
    assert_eq!((book.last_offset, book.last_nonce), (Some(2), None));
}

#[test]
fn trading_starts_with_a_key_on_an_empty_book() {
    assert!(may_start_live("key", ClearStep::Flat));
    assert!(!may_start_live("", ClearStep::Flat));
    assert!(!may_start_live("key", ClearStep::GaveUp));
    assert!(!may_start_live("key", ClearStep::Again));
}

#[test]
fn small_divergence_ends_the_streak() {
    let mut g = BookGuard::new();
    let t = TickerMsg { best_bid: Some(n(99.0)), bid: None, best_ask: Some(n(101.0)), ask: None };
    g.on_ticker(&t, SEC);
    assert!(!g.book_sanity_diverged(n(20.0), n(100.0), n(20.1), SEC));
    assert_eq!(g.sanity_streak, 1);
    assert!(!g.book_sanity_diverged(n(20.0), n(100.0), n(20.0), SEC));
    assert_eq!(g.sanity_streak, 0);
}

#[test]
fn long_divergence_calls_for_a_snapshot() {
    let mut g = BookGuard::new();
    let now = 100 * SEC;
    assert!(!g.book_sanity_diverged(n(20.0), n(100.0), n(20.5), now));
    assert_eq!(g.sanity_streak, 0);
    let t = TickerMsg { best_bid: Some(n(99.0)), bid: None, best_ask: Some(n(101.0)), ask: None };
    g.on_ticker(&t, now);
    for i in 1..SANITY_STREAK_TRIP {
        assert!(!g.book_sanity_diverged(n(20.0), n(100.0), n(20.5), now));
        assert_eq!(g.sanity_streak, i);
    }
    assert!(!g.book_sanity_diverged(n(0.0), n(100.0), n(20.5), now));
    assert!(!g.book_sanity_diverged(n(20.0), n(100.0), n(20.5), now + 6 * SEC));
    assert!(g.book_sanity_diverged(n(20.0), n(100.0), n(20.5), now));
    g.request_resnapshot();
    assert!(g.awaiting_resnapshot && g.sanity_streak == 0);
    let crossed = TickerMsg { best_bid: Some(n(102.0)), bid: None, best_ask: Some(n(101.0)), ask: None };
    g.on_ticker(&crossed, now + SEC);
    assert_eq!(g.ticker_bbo.map(|b| b.at), Some(now));
}

#[test]
fn messages_are_told_by_their_type() {
    assert_eq!(market_message("update/order_book"), MarketMessage::Book);
    assert_eq!(market_message("subscribed/ticker"), MarketMessage::Ticker);
    assert_eq!(market_message("update/account_all"), MarketMessage::Other);
}

// --- quoting ---

#[test]
fn quotes_are_spaced() {
    let mut c = QuoteClock { min_interval: SEC / 10, last_quote: None };
    assert!(c.due(5 * SEC));
    assert!(!c.due(5 * SEC + 99 * MS));
    assert!(c.due(5 * SEC + 100 * MS));
    assert_eq!(c.last_quote, Some(5 * SEC + 100 * MS));
}

#[test]
fn plans_follow_feeds_and_warmup() {
    let live = |capital: f64, age: u64, warm: bool, position: f64| {
        plan_quotes(Mode::Live, n(capital), age, warm, false, n(position))
    };
    assert_eq!(live(0.0, 5, true, 0.0), QuotePlan::PullLadder);
    assert_eq!(live(100.0, u64::MAX, true, 0.0), QuotePlan::PullLadder);
    assert_eq!(live(100.0, 5, true, 0.0), QuotePlan::Full);
    assert_eq!(live(100.0, 5, false, 0.0), QuotePlan::NoQuotes);
    assert_eq!(live(100.0, 5, false, 0.5), QuotePlan::ExitOnly);
    assert_eq!(
        plan_quotes(Mode::DryRun, n(0.0), u64::MAX, true, false, n(0.0)),
        QuotePlan::Full
    );
    assert!(in_wallclock_warmup(Mode::Live, None, 0, 5));
    assert!(in_wallclock_warmup(Mode::Live, Some(0), 600 * SEC, 599 * SEC));
    assert!(!in_wallclock_warmup(Mode::Live, Some(0), 600 * SEC, 600 * SEC));
    assert!(!in_wallclock_warmup(Mode::DryRun, None, 600 * SEC, 5));
    assert_eq!(f(effective_position(n(0.5), n(0.9), n(1.0))), 0.0);
    assert_eq!(f(effective_position(n(0.5), n(1.0), n(1.0))), 0.5);
}

fn cycle(mode: Mode) -> CycleState {
    CycleState {
        clock: QuoteClock { min_interval: SEC / 10, last_quote: None },
        hold: PositionHold::new(mode, 3 * SEC),
        start: Some(0),
        warmup: 600 * SEC,
        dust: n(1.0),
    }
}

fn known(position: f64, warmed_up: bool) -> CycleInput {
    CycleInput {
        capital: n(100.0),
        position: n(position),
        value: n(position.abs() * 1_000.0),
        distance: n(0.0),
        position_age: 5,
        warmed_up,
    }
}

#[test]
fn cycles_start_as_planned() {
    let mut om = OrderManager::new(1, n(0.00001), 0);
    let mut c = cycle(Mode::Live);
    let unfed = CycleInput { capital: n(0.0), ..known(0.5, true) };
    assert!(matches!(c.begin(&mut om, unfed, 700 * SEC), CycleStep::Pull(ops) if ops.is_empty()));
    assert_eq!(c.hold.last_seen_position, None);
    assert!(matches!(c.begin(&mut om, known(0.5, true), 700 * SEC + 1), CycleStep::NotDue));
    match c.begin(&mut om, known(0.5, true), 701 * SEC) {
        CycleStep::Ladder(p, look) => assert_eq!((f(p), look.hold), (0.5, false)),
        other => panic!("{other:?}"),
    }
    match c.begin(&mut om, known(0.0005, false), 702 * SEC) {
        CycleStep::Nothing(look) => assert!(!look.notify),
        other => panic!("{other:?}"),
    }
    let changed = CycleInput { distance: n(0.5), ..known(0.9, true) };
    match c.begin(&mut om, changed, 703 * SEC) {
        CycleStep::Ladder(p, look) => assert_eq!((f(p), look.hold, look.notify), (0.9, true, true)),
        other => panic!("{other:?}"),
    }
    let mut young = cycle(Mode::Live);
    assert!(matches!(young.begin(&mut om, known(0.5, true), 599 * SEC), CycleStep::Exit(_, _)));
    let mut dry = cycle(Mode::DryRun);
    assert!(matches!(dry.begin(&mut om, unfed, SEC), CycleStep::Ladder(_, _)));
}

fn both(bid: f64, ask: f64) -> Vec<(Option<SideQuote>, Option<SideQuote>)> {
    vec![(
        Some(SideQuote { price: n(bid), change_bps: n(50.0), size_change: n(0.0) }),
        Some(SideQuote { price: n(ask), change_bps: n(50.0), size_change: n(0.0) }),
    )]
}

#[test]
fn live_cycle_occupies_before_sending() {
    let mut om = OrderManager::new(1, n(0.00001), 0);
    let none = Vec::new();
    let out = quote_cycle(&mut om, &both(99.0, 101.0), n(0.001), n(0.0), n(8.0), 1, false, &none, Mode::Live, 1);
    assert!(out.send);
    assert_eq!(out.ops.len(), 2);
    assert_eq!(om.slot_status(Side::Buy, 0), SideStatus::Placing);
    let ids = out.publish.expect("ids changed");
    let again = quote_cycle(&mut om, &both(99.0, 101.0), n(0.001), n(0.0), n(8.0), 2, false, &ids, Mode::Live, 2);
    assert!(!again.send && again.ops.is_empty() && again.publish.is_none());
}

#[test]
fn dry_run_lets_orders_go_through() {
    let mut om = OrderManager::new(1, n(0.00001), 0);
    let none = Vec::new();
    let out = quote_cycle(&mut om, &both(99.0, 101.0), n(0.001), n(0.0), n(8.0), 1, false, &none, Mode::DryRun, 1);
    assert!(!out.send);
    assert_eq!(om.slot_status(Side::Buy, 0), SideStatus::Live);
    let cid = out.ops[0].client_order_id;
    assert_eq!(om.resolve_exchange_id(cid), Some(cid));
    let moved = quote_cycle(&mut om, &both(98.0, 102.0), n(0.001), n(0.0), n(8.0), 2, false, &none, Mode::DryRun, 2);
    assert!(moved.ops.iter().all(|o| o.action == OrderAction::Modify));
    let gone = quote_cycle(&mut om, &vec![(None, None)], n(0.001), n(0.0), n(8.0), 3, false, &none, Mode::DryRun, 3);
    assert!(gone.ops.iter().all(|o| o.action == OrderAction::Cancel));
    assert_eq!(om.slot_status(Side::Buy, 0), SideStatus::Idle);
}

#[test]
fn pulled_ladder_is_not_pulled_twice() {
    let mut om = OrderManager::new(1, n(0.00001), 0);
    let none = Vec::new();
    let _ = quote_cycle(&mut om, &both(99.0, 101.0), n(0.001), n(0.0), n(8.0), 1, false, &none, Mode::DryRun, 1);
    assert_eq!(pull_ladder(&mut om, 2).len(), 2);
    assert_eq!(om.slot_status(Side::Sell, 0), SideStatus::Canceling);
    assert!(pull_ladder(&mut om, 3).is_empty());
}

// --- the poller ---

fn remote(client: Option<i64>, exchange: Option<i64>) -> RemoteOrder {
    RemoteOrder {
        client_order_index: client,
        order_index: exchange,
        is_ask: None,
        price: None,
        remaining_base_amount: None,
        filled_base_amount: None,
        status: None,
    }
}

fn poller() -> Poller {
    Poller {
        max_live: 4,
        debounce: 2,
        deadman_ms: 10_000,
        position_fallback_ms: 6_000,
        prev_orphans: Vec::new(),
    }
}

fn risk() -> RiskController {
    RiskController::new(5, 60 * SEC)
}

#[test]
fn dead_market_data_cancel_once() {
    let p = poller();
    let mut r = risk();
    assert!(!p.deadman(&mut r, u64::MAX, 1));
    assert!(!p.deadman(&mut r, 10_000, 1));
    assert!(r.last_reconcile_ok());
    assert!(p.deadman(&mut r, 10_001, 1));
    assert_eq!(r.pause_reason(), "market data stale 10001ms");
    assert_eq!(r.last_reconcile_reason(), "md_stale");
    assert!(r.is_paused(1));
    assert!(!p.deadman(&mut r, 13_000, 2));
    assert!(p.deadman(&mut r, 13_000, 100 * SEC));
}

#[test]
fn failed_polls_pause_after_so_many() {
    let p = poller();
    let mut r = risk();
    p.poll_failed(&mut r, "auth_token", 1);
    assert!(!r.is_paused(1));
    p.poll_failed(&mut r, "rest_active_orders", 2);
    assert!(r.is_paused(2));
    assert_eq!(r.pause_reason(), "reconcile mismatch (rest_active_orders) streak=2");
}

#[test]
fn clean_polls_restore_health() {
    let mut p = poller();
    let mut r = risk();
    p.poll_failed(&mut r, "auth_token", 1);
    let plan = p.on_orders(&mut r, &vec![remote(Some(1), Some(9))], &vec![1], 100, true, 2);
    assert!(!plan.fetch_position && !plan.cancel_all && plan.cancels.is_empty());
    assert!(!plan.refresh_nonce);
    assert!(r.last_reconcile_ok());
    assert_eq!(r.mismatch_streak(), 0);
    assert!(p.on_orders(&mut r, &Vec::new(), &Vec::new(), u64::MAX, true, 3).fetch_position);
    assert!(p.on_orders(&mut r, &Vec::new(), &Vec::new(), 6_001, true, 3).fetch_position);
}

#[test]
fn orphans_are_cancelled_on_the_second_poll() {
    let mut p = poller();
    let mut r = risk();
    let orders = vec![remote(Some(5), Some(50)), remote(Some(6), None), remote(None, Some(7))];
    let first = p.on_orders(&mut r, &orders, &Vec::new(), 100, false, 1);
    assert!(first.cancels.is_empty() && first.refresh_nonce);
    assert_eq!(p.prev_orphans, vec![5, 6]);
    assert_eq!(r.last_reconcile_reason(), "orphans_present");
    let second = p.on_orders(&mut r, &orders, &Vec::new(), 100, true, 2);
    assert_eq!(second.cancels, vec![(5, 50)]);
    assert!(r.is_paused(2));
    assert_eq!(orphan_ids(&orders, &vec![5]), vec![6]);
    assert!(doomed_orders(&orders, &vec![5], &vec![5]).is_empty());
}

#[test]
fn too_many_orders_clear_the_book() {
    let mut p = poller();
    let mut r = risk();
    let orders: Vec<RemoteOrder> = (0..5).map(|i| remote(Some(i), Some(i))).collect();
    let plan = p.on_orders(&mut r, &orders, &vec![0, 1, 2, 3, 4], 100, false, 1);
    assert!(plan.cancel_all && !plan.refresh_nonce && plan.cancels.is_empty());
    assert_eq!(r.pause_reason(), "exchange has 5 live orders (> 4)");
    assert_eq!(r.last_reconcile_reason(), "too_many_orders");
    assert!(p.prev_orphans.is_empty());
}

#[test]
fn cancels_settle_their_nonce() {
    assert_eq!(cancel_nonce_step(false, None), NonceStep::GiveBack);
    assert_eq!(cancel_nonce_step(true, Some(200)), NonceStep::Used);
    assert_eq!(cancel_nonce_step(true, Some(400)), NonceStep::Refresh);
    assert_eq!(cancel_nonce_step(true, None), NonceStep::Refresh);
}

// --- the live feeds ---

fn trade() -> TradePayload {
    TradePayload {
        trade_id: Some(1),
        price: Some(n(100.0)),
        size: Some(n(0.5)),
        usd_amount: None,
        is_maker_ask: None,
        ask_id: None,
        bid_id: None,
        ask_client_id: Some(11),
        bid_client_id: Some(22),
        ask_account_id: Some(7),
        bid_account_id: Some(8),
        ask_account_pnl: None,
        bid_account_pnl: None,
        timestamp: None,
        transaction_time: None,
    }
}

#[test]
fn fills_of_the_account_are_told() {
    let nothing = TradePayload { size: Some(n(0.0)), ..trade() };
    let cross = TradePayload { bid_account_id: Some(7), ..trade() };
    assert_eq!(
        own_fills(&vec![trade(), nothing], 7),
        vec![OrderEvent::Fill { client_order_id: 11, filled_size: n(0.5) }]
    );
    assert_eq!(own_fills(&vec![cross], 7).len(), 2);
    assert!(own_fills(&vec![trade()], 9).is_empty());
}

#[test]
fn account_messages_are_read_for_one_market() {
    let msg = AccountAllMsg {
        msg_type: "update/account_all".to_string(),
        positions: vec![
            ("2".to_string(), PositionPayload { position: Some(n(9.0)), sign: None, avg_entry_price: None }),
            ("1".to_string(), PositionPayload { position: Some(n(0.5)), sign: Some(-1), avg_entry_price: Some(n(90.0)) }),
        ],
        trades: vec![("1".to_string(), vec![trade()])],
    };
    let u = account_update(&msg, 1, 7);
    let p = u.position.expect("position");
    assert_eq!((f(p.signed_position), p.entry_vwap), (-0.5, Some(n(90.0))));
    assert_eq!((u.trades.len(), u.fills.len(), u.report), (1, 1, true));
    let other = account_update(&msg, 3, 7);
    assert!(other.position.is_none() && other.trades.is_empty() && !other.report);
}

#[test]
fn ids_are_resolved_from_orders() {
    let msg = AccountOrdersMsg {
        msg_type: "update/account_orders".to_string(),
        orders: vec![
            ("1".to_string(), vec![remote(Some(5), Some(50)), remote(None, Some(51))]),
            ("2".to_string(), vec![remote(Some(6), Some(60))]),
        ],
    };
    assert_eq!(
        resolved_ids(&msg),
        vec![
            OrderEvent::IdResolved { client_order_id: 5, exchange_id: 50 },
            OrderEvent::IdResolved { client_order_id: 6, exchange_id: 60 },
        ]
    );
}

#[test]
fn channels_and_names() {
    assert_eq!(market_channels(1), ("order_book/1".to_string(), "ticker/1".to_string()));
    assert_eq!(account_orders_channel(1, 77), "account_orders/1/77");
    assert_eq!(account_all_channel(77), "account_all/77");
    assert_eq!(user_stats_channel(77), "user_stats/77");
    assert_eq!(binance_symbol("BTC"), "btcusdt");
    assert_eq!(age_for_log(u64::MAX), "none");
    assert_eq!(age_for_log(1_234), "1234");
}

#[test]
fn leverage_and_seeds() {
    assert_eq!(leverage_plan("Isolated", 5), (2_000, 1));
    assert_eq!(leverage_plan("cross", 0), (10_000, 0));
    assert_eq!(leverage_plan("", 3), (3_333, 0));
    assert_eq!(f(base_amount_seed(n(0.01), n(0.0002))), 0.01);
    assert_eq!(f(base_amount_seed(n(0.0), n(0.0002))), 0.0002);
    assert_eq!(f(base_amount_seed(n(0.0), n(0.0))), 0.00001);
    assert_eq!(f(max_position_seed(Mode::Live)), 0.0);
    assert_eq!(f(max_position_seed(Mode::DryRun)), 1.0e12);
    assert!(stats_reported(&StatsPayload { available_balance: None, portfolio_value: Some(n(1.0)) }));
    assert!(!stats_reported(&StatsPayload { available_balance: None, portfolio_value: None }));
}

#[test]
fn book_is_cleared_in_so_many_attempts() {
    let mut c = BookClearing::new();
    assert_eq!(c.verify(None), ClearStep::Again);
    assert_eq!(c.verify(Some(2)), ClearStep::Again);
    assert_eq!(c.attempt, 3);
    assert_eq!(c.verify(Some(0)), ClearStep::Flat);
    let mut d = BookClearing { attempt: 5 };
    assert_eq!(d.verify(Some(1)), ClearStep::GaveUp);
}

// --- the configuration ---

fn vars() -> EnvVars {
    EnvVars {
        api_key_private_key: Some("k".to_string()),
        api_key_index: None,
        account_index: Some(" 42 ".to_string()),
        wallet_address: None,
        market_symbol: None,
    }
}

#[test]
fn credentials_come_from_the_environment() {
    let c = Credentials::from_env(vars()).expect("credentials");
    assert_eq!((c.api_key_index, c.account_index), (0, 42));
    assert_eq!((c.market_symbol.as_str(), c.wallet_address.as_str()), ("BTC", ""));
    assert_eq!(
        Credentials::from_env(EnvVars { api_key_private_key: None, ..vars() }).unwrap_err(),
        CredentialsError::MissingKey
    );
    assert_eq!(
        Credentials::from_env(EnvVars { api_key_index: Some("x".to_string()), ..vars() }).unwrap_err(),
        CredentialsError::ApiKeyIndex
    );
    assert_eq!(
        Credentials::from_env(EnvVars { account_index: Some("".to_string()), ..vars() }).unwrap_err(),
        CredentialsError::AccountIndex
    );
    assert_eq!(Credentials::none().market_symbol, "BTC");
}

fn args(a: &[&str]) -> Vec<String> {
    a.iter().map(|s| s.to_string()).collect()
}

#[test]
fn arguments_are_read_in_order() {
    let none = parse_args(&args(&[]));
    assert_eq!((none.mode, none.config_path.as_str()), (Mode::DryRun, "config.json"));
    let all = parse_args(&args(&["--symbol", "ETH", "--config", "c.json", "--live", "--what"]));
    assert_eq!(all.symbol.as_deref(), Some("ETH"));
    assert_eq!(all.config_path, "c.json");
    assert_eq!(all.mode, Mode::Live);
    assert_eq!(all.unknown, vec!["--what"]);
    assert!(!all.shadow);
    let last = parse_args(&args(&["--live", "--shadow", "--symbol", "ETH", "--symbol"]));
    assert_eq!((last.mode, last.shadow, last.symbol), (Mode::DryRun, true, None));
    assert_eq!(parse_args(&args(&["--config"])).config_path, "config.json");
}

#[test]
fn live_trading_needs_its_configuration() {
    assert_eq!(choose_config(true, Mode::Live, true), ConfigChoice::Loaded);
    assert_eq!(choose_config(false, Mode::Live, false), ConfigChoice::Stop);
    assert_eq!(choose_config(false, Mode::DryRun, true), ConfigChoice::Stop);
    assert_eq!(choose_config(false, Mode::DryRun, false), ConfigChoice::Defaults);
    assert_eq!(validate_live(0, 2, n(0.1), n(2.0)), Err(LiveConfigError::Leverage));
    assert_eq!(validate_live(1, 0, n(0.1), n(2.0)), Err(LiveConfigError::Levels));
    assert_eq!(validate_live(1, 2, n(0.0), n(2.0)), Err(LiveConfigError::Sizing));
    assert_eq!(validate_live(1, 2, n(0.1), n(0.0)), Err(LiveConfigError::Spread));
    assert_eq!(validate_live(1, 2, n(0.1), n(2.0)), Ok(()));
}
