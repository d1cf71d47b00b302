//! Order slots, rate limits, signing and the sender's decisions.
use lighter_mm::exec::instance_lock::{already_running_msg, lock_file_name};
use lighter_mm::exec::order_manager::{OrderManager, SideQuote};
use lighter_mm::exec::paced_send::{
    cancel_only, choose_transport, clear_failed_creates, conclude_send, on_wake, settle_send,
    NonceResync, ResyncReason, ResyncStep, Transport, WakeStep,
};
use lighter_mm::exec::rate_limit::{
    classify_reject, is_quota_error, is_transient_error, quota_adaptive_threshold_bps, RateLimiter,
    RejectKind, SlotStep, WritePhase, BACKOFF_DECAY_NS, RL_OPS_PER_WINDOW, RL_WINDOW_NS,
};
use lighter_mm::exec::send_flow::{SendAction, SendFlow, SendStage};
use lighter_mm::exec::signing::{BatchSigner, RawOrder, SignError};
use lighter_mm::lighter::messages::RemoteOrder;
use lighter_mm::lighter::nonce::NonceManager;
use lighter_mm::lighter::signer::{SignRequest, SignedTx};
use lighter_mm::num::Num;
use lighter_mm::risk::RiskController;
use lighter_mm::types::{
    BatchOp, OrderAction, OrderEvent, Side, SideStatus, TxSendResult, TxSendStatus,
};

const SEC: u64 = 1_000_000_000;

fn n(x: f64) -> Num {
    Num::new(x.to_bits())
}

fn f(x: Num) -> f64 {
    f64::from_bits(x.bits)
}

fn change_bps(old_price: f64, new_price: f64) -> f64 {
    if old_price <= 0.0 {
        return 1e18;
    }
    ((new_price - old_price).abs() / old_price) * 10_000.0
}

/// The wanted quote of a slot, compared with what the slot holds.
fn quote(
    om: &OrderManager,
    side: Side,
    level: usize,
    price: Option<f64>,
    size: f64,
) -> Option<SideQuote> {
    let p = price?;
    let slot = om.slot(side, level);
    Some(SideQuote {
        price: n(p),
        change_bps: n(change_bps(slot.price.map(f).unwrap_or(0.0), p)),
        size_change: n(slot.size.map(|s| (f(s) - size).abs()).unwrap_or(0.0)),
    })
}

fn collect(
    om: &mut OrderManager,
    levels: &[(Option<f64>, Option<f64>)],
    size: f64,
    position: f64,
    threshold: f64,
    now_ns: i64,
    hold: bool,
) -> Vec<BatchOp> {
    let mut quotes = Vec::new();
    for (i, (b, a)) in levels.iter().enumerate() {
        quotes.push((
            quote(om, Side::Buy, i, *b, size),
            quote(om, Side::Sell, i, *a, size),
        ));
    }
    om.collect_order_operations(&quotes, n(size), n(position), n(threshold), now_ns, hold)
}

fn apply(om: &mut OrderManager, evt: OrderEvent, now: u64) {
    let remaining = match evt {
        OrderEvent::Fill { client_order_id, filled_size } => om
            .tracked_size(client_order_id)
            .map(|s| n(f(s) - f(filled_size))),
        _ => None,
    };
    om.apply_event(evt, remaining, now);
}

fn bind(om: &mut OrderManager, o: &BatchOp, exchange_id: i64) {
    apply(
        om,
        OrderEvent::BindLive {
            side: o.side,
            level: o.level,
            client_order_id: o.client_order_id,
            exchange_id: Some(exchange_id),
            price: o.price,
            size: o.size,
        },
        1,
    );
}

fn lvls(count: usize, b: Option<f64>, a: Option<f64>) -> Vec<(Option<f64>, Option<f64>)> {
    let mut v = vec![(None, None); count];
    v[0] = (b, a);
    v
}

fn manager(levels: usize) -> OrderManager {
    OrderManager::new(levels, n(0.00001), 0)
}

#[test]
fn creates_then_skips_after_bind() {
    let mut om = manager(1);
    let ops = collect(&mut om, &lvls(1, Some(99.0), Some(101.0)), 0.001, 0.0, 8.0, 1_000, false);
    assert_eq!(ops.len(), 2);
    assert!(ops.iter().all(|o| o.action == OrderAction::Create));
    for o in &ops {
        bind(&mut om, o, o.client_order_id + 1_000_000);
    }
    let ops2 = collect(&mut om, &lvls(1, Some(99.0), Some(101.0)), 0.001, 0.0, 8.0, 2_000, false);
    assert_eq!(ops2.len(), 0);
}

#[test]
fn reprices_when_moved_beyond_threshold() {
    let mut om = manager(1);
    let ops = collect(&mut om, &lvls(1, Some(100.0), Some(101.0)), 0.001, 0.0, 8.0, 1, false);
    for o in &ops {
        bind(&mut om, o, o.client_order_id + 1);
    }
    let ops2 = collect(&mut om, &lvls(1, Some(99.0), Some(101.0)), 0.001, 0.0, 8.0, 2, false);
    assert!(ops2.iter().any(|o| o.action == OrderAction::Modify && o.side == Side::Buy));
}

#[test]
fn hold_blocks_modify_cancel_but_allows_creates() {
    let mut om = manager(2);
    let l0 = vec![(Some(100.0), Some(101.0)), (None, None)];
    let ops = collect(&mut om, &l0, 0.001, 0.0, 8.0, 1, false);
    for o in &ops {
        bind(&mut om, o, o.client_order_id + 1);
    }
    let levels = vec![(Some(99.0), None), (Some(98.0), Some(102.0))];
    let held = collect(&mut om, &levels, 0.001, 0.0, 8.0, 2, true);
    assert!(!held.is_empty());
    assert!(held.iter().all(|o| o.action == OrderAction::Create && o.level == 1));
    let free = collect(&mut om, &levels, 0.001, 0.0, 8.0, 3, false);
    assert!(free.iter().any(|o| o.action == OrderAction::Modify && o.side == Side::Buy));
    assert!(free.iter().any(|o| o.action == OrderAction::Cancel && o.side == Side::Sell));
}

#[test]
fn fill_event_clears_full_and_shrinks_partial() {
    let mut om = manager(1);
    let ops = collect(&mut om, &lvls(1, Some(99.0), Some(101.0)), 0.001, 0.0, 8.0, 1, false);
    let bid = *ops.iter().find(|o| o.side == Side::Buy).unwrap();
    let ask = *ops.iter().find(|o| o.side == Side::Sell).unwrap();
    for o in [&bid, &ask] {
        bind(&mut om, o, o.client_order_id + 1);
    }
    apply(
        &mut om,
        OrderEvent::Fill { client_order_id: bid.client_order_id, filled_size: n(0.0004) },
        2,
    );
    assert_eq!(om.slot_status(Side::Buy, 0), SideStatus::Live);
    let ops2 = collect(&mut om, &lvls(1, Some(99.0), Some(101.0)), 0.001, 0.0, 8.0, 2, false);
    assert!(ops2.iter().any(|o| o.action == OrderAction::Modify && o.side == Side::Buy));
    apply(
        &mut om,
        OrderEvent::Fill { client_order_id: ask.client_order_id, filled_size: n(0.001) },
        3,
    );
    assert_eq!(om.slot_status(Side::Sell, 0), SideStatus::Idle);
    let ops3 = collect(&mut om, &lvls(1, Some(99.0), Some(101.0)), 0.001, 0.0, 8.0, 3, false);
    assert!(ops3.iter().any(|o| o.action == OrderAction::Create && o.side == Side::Sell));
}

#[test]
fn id_resolved_maps_without_touching_slots() {
    let mut om = manager(1);
    let ops = collect(&mut om, &lvls(1, Some(99.0), None), 0.001, 0.0, 8.0, 1, false);
    let bid = ops[0];
    om.mark_pending(&bid, 1);
    let ops2 = collect(&mut om, &lvls(1, Some(97.0), None), 0.001, 0.0, 8.0, 2, false);
    assert!(ops2.is_empty());
    apply(
        &mut om,
        OrderEvent::IdResolved { client_order_id: bid.client_order_id, exchange_id: 777 },
        2,
    );
    assert_eq!(om.slot_status(Side::Buy, 0), SideStatus::Placing);
    let ops3 = collect(&mut om, &lvls(1, Some(97.0), None), 0.001, 0.0, 8.0, 3, false);
    assert!(ops3.iter().any(|o| o.action == OrderAction::Modify && o.exchange_id == Some(777)));
}

#[test]
fn suppressed_side_cancels() {
    let mut om = manager(1);
    let ops = collect(&mut om, &lvls(1, Some(99.0), Some(101.0)), 0.001, 0.0, 8.0, 1, false);
    for o in &ops {
        bind(&mut om, o, o.client_order_id + 1);
    }
    let ops2 = collect(&mut om, &lvls(1, None, Some(101.0)), 0.001, 0.0, 8.0, 2, false);
    assert!(ops2.iter().any(|o| o.action == OrderAction::Cancel && o.side == Side::Buy));
}

#[test]
fn pending_slots_get_no_second_create() {
    let mut om = manager(2);
    let levels = vec![(Some(99.0), Some(101.0)), (Some(98.0), Some(102.0))];
    let ops = collect(&mut om, &levels, 0.001, 0.0, 8.0, 1, false);
    assert_eq!(ops.len(), 4);
    for o in &ops {
        om.mark_pending(o, 1);
    }
    assert!(collect(&mut om, &levels, 0.001, 0.0, 8.0, 2, false).is_empty());
    let mut ids: Vec<i64> = ops.iter().map(|o| o.client_order_id).collect();
    ids.sort();
    ids.dedup();
    assert_eq!(ids.len(), 4);
}

#[test]
fn reduce_only_marks_the_side_that_reduces() {
    let mut om = manager(1);
    let ops = collect(&mut om, &lvls(1, Some(99.0), Some(101.0)), 0.001, 0.5, 8.0, 1, false);
    for o in ops {
        assert_eq!(o.reduce_only, o.side == Side::Sell);
    }
    assert!(OrderManager::is_reducing_side(Side::Buy, n(-0.5)));
    assert!(!OrderManager::is_reducing_side(Side::Buy, n(0.0)));
}

#[test]
fn sweep_takes_every_known_order_once() {
    let mut om = manager(1);
    let ops = collect(&mut om, &lvls(1, Some(99.0), Some(101.0)), 0.001, 0.0, 8.0, 1, false);
    for o in &ops {
        bind(&mut om, o, o.client_order_id + 1);
    }
    let sweep = om.collect_cancel_ops();
    assert_eq!(sweep.len(), 2);
    assert!(sweep.iter().all(|o| o.action == OrderAction::Cancel));
    for o in &sweep {
        om.mark_pending(o, 2);
    }
    assert!(om.collect_cancel_ops().is_empty());
}

fn remote(client: i64, exchange: i64, is_ask: bool, price: f64, size: f64) -> RemoteOrder {
    RemoteOrder {
        client_order_index: Some(client),
        order_index: Some(exchange),
        is_ask: Some(is_ask),
        price: Some(n(price)),
        remaining_base_amount: Some(n(size)),
        filled_base_amount: None,
        status: Some("open".to_string()),
    }
}

#[test]
fn missing_orders_free_their_slot_only_when_they_stay_missing() {
    let mut om = manager(1);
    let ops = collect(&mut om, &lvls(1, Some(99.0), None), 0.001, 0.0, 8.0, 1, false);
    bind(&mut om, &ops[0], 500);
    let late = 60 * SEC;
    om.process_reconcile(&Vec::new(), late);
    assert_eq!(om.slot_status(Side::Buy, 0), SideStatus::Live);
    om.process_reconcile(&Vec::new(), late + SEC);
    om.process_reconcile(&Vec::new(), late + 2 * SEC);
    om.process_reconcile(&Vec::new(), late + 3 * SEC);
    assert_eq!(om.slot_status(Side::Buy, 0), SideStatus::Idle);
}

#[test]
fn orders_reported_as_gone_free_their_slot() {
    let mut om = manager(1);
    let ops = collect(&mut om, &lvls(1, Some(99.0), None), 0.001, 0.0, 8.0, 1, false);
    bind(&mut om, &ops[0], 500);
    let cid = ops[0].client_order_id;
    let mut gone = remote(cid, 500, false, 99.0, 0.0);
    gone.status = Some("filled".to_string());
    assert!(om.process_reconcile(&vec![gone.clone()], 60 * SEC));
    assert_eq!(om.slot_status(Side::Buy, 0), SideStatus::Live);
    assert_eq!(om.slot(Side::Buy, 0).miss, 1);
    assert!(om.process_reconcile(&vec![gone.clone()], 66 * SEC));
    assert_eq!(om.slot_status(Side::Buy, 0), SideStatus::Idle);
    assert!(om.tracked_client_ids().is_empty());
    assert!(!om.process_reconcile(&vec![gone], 72 * SEC));
}

#[test]
fn orders_move_beyond_threshold_or_tick_alone() {
    let mut om = manager(1);
    let ops = collect(&mut om, &lvls(1, Some(100.0), None), 0.001, 0.0, 8.0, 1, false);
    bind(&mut om, &ops[0], 500);
    let at = |change: f64, resized: f64| {
        vec![(
            Some(SideQuote { price: n(99.0), change_bps: n(change), size_change: n(resized) }),
            None,
        )]
    };
    for (change, resized, count) in
        [(8.0, 0.0, 0), (8.1, 0.0, 1), (0.0, 0.000009, 0), (0.0, 0.00001, 1)]
    {
        let quotes = at(change, resized);
        let out = om.collect_order_operations(&quotes, n(0.001), n(0.0), n(8.0), 2, false);
        assert_eq!(out.len(), count, "{change} {resized}");
    }
    let mut tickless = OrderManager::new(1, n(0.0), 0);
    let first = collect(&mut tickless, &lvls(1, Some(100.0), None), 0.001, 0.0, 8.0, 1, false);
    bind(&mut tickless, &first[0], 500);
    let quotes = at(0.0, 1e-9);
    assert_eq!(
        tickless.collect_order_operations(&quotes, n(0.001), n(0.0), n(8.0), 2, false).len(),
        1
    );
}

#[test]
fn ids_past_the_end_of_the_range_differ() {
    let top = 281_474_976_710_655i64;
    let mut om = manager(2);
    let first = collect(&mut om, &lvls(2, Some(99.0), None), 0.001, 0.0, 8.0, top - 1, false);
    assert_eq!(first[0].client_order_id, top - 1);
    let all = vec![(Some(99.0), Some(101.0)), (Some(98.0), Some(102.0))];
    let ops = collect(&mut om, &all, 0.001, 0.0, 8.0, 1_000, false);
    let ids: Vec<i64> = ops.iter().map(|o| o.client_order_id).collect();
    assert_eq!(ids, vec![top, 1, 1_000, 1_001]);
}

#[test]
fn ids_drawn_at_the_end_of_the_range_differ() {
    let top = 281_474_976_710_655i64;
    let quotes = vec![(Some(99.0), Some(101.0)), (Some(98.0), None)];
    let mut om = manager(2);
    let ops = collect(&mut om, &quotes, 0.001, 0.0, 8.0, top - 1, false);
    let ids: Vec<i64> = ops.iter().map(|o| o.client_order_id).collect();
    assert_eq!(ids, vec![top - 1, top, 1]);
    let mut om = manager(2);
    let ops = collect(&mut om, &quotes, 0.001, 0.0, 8.0, top, false);
    let ids: Vec<i64> = ops.iter().map(|o| o.client_order_id).collect();
    assert_eq!(ids, vec![1, 2, 3]);
}

#[test]
fn an_id_lies_above_the_last_or_starts_over() {
    let top = 281_474_976_710_655i64;
    let mut om = manager(1);
    assert_eq!(om.next_client_order_index(500), 500);
    assert_eq!(om.next_client_order_index(500), 501);
    assert_eq!(om.next_client_order_index(3), 502);
    assert_eq!(om.next_client_order_index(top - 1), top - 1);
    assert_eq!(om.next_client_order_index(7), top);
    assert_eq!(om.next_client_order_index(7), 1);
}

#[test]
fn snapshots_refresh_price_and_size() {
    let mut om = manager(1);
    let ops = collect(&mut om, &lvls(1, Some(99.0), None), 0.001, 0.0, 8.0, 1, false);
    bind(&mut om, &ops[0], 500);
    om.process_reconcile(&vec![remote(ops[0].client_order_id, 501, false, 98.5, 0.0005)], 60 * SEC);
    let slot = om.slot(Side::Buy, 0);
    assert_eq!(slot.price, Some(n(98.5)));
    assert_eq!(slot.size, Some(n(0.0005)));
    assert_eq!(om.resolve_exchange_id(ops[0].client_order_id), Some(501));
}

#[test]
fn tracked_ids_are_the_bids_then_the_asks() {
    let mut om = manager(1);
    let ops = collect(&mut om, &lvls(1, Some(99.0), Some(101.0)), 0.001, 0.0, 8.0, 1, false);
    for o in &ops {
        om.mark_pending(o, 1);
    }
    let ids = om.tracked_client_ids();
    assert_eq!(ids, vec![ops[0].client_order_id, ops[1].client_order_id]);
    assert!(om.tracked_ids_equal(&ids));
    assert!(!om.tracked_ids_equal(&vec![ids[0]]));
    assert!(!om.tracked_ids_equal(&vec![ids[1], ids[0]]));
}

// --- rate limits ---

fn limiter() -> RateLimiter {
    RateLimiter::new(n(8.0), SEC / 10)
}

fn pace(rl: &RateLimiter) -> f64 {
    match rl.quota_pace_multiplier() {
        Some(h) => h as f64 / 2.0,
        None => f64::INFINITY,
    }
}

fn threshold(rl: &RateLimiter) -> f64 {
    let (base, halves) = rl.adaptive_threshold_bps();
    f(base) * halves as f64 / 2.0
}

#[test]
fn quota_error_classification() {
    assert!(is_quota_error("Not enough volume quota remaining"));
    assert!(is_quota_error("QUOTA EXHAUSTED"));
    assert!(!is_quota_error("invalid nonce"));
    assert!(!is_quota_error("not enough margin"));
}

#[test]
fn reject_classification_matches_python() {
    assert_eq!(classify_reject("Not enough volume quota remaining"), RejectKind::Quota);
    assert_eq!(classify_reject("volume quota exhausted"), RejectKind::Quota);
    assert_eq!(classify_reject("not enough quota"), RejectKind::Quota);
    assert_eq!(classify_reject("quota remained: 5"), RejectKind::Other);
    assert_eq!(classify_reject("you didn't use your quota"), RejectKind::Other);
    assert_eq!(classify_reject("HTTP 429 Too Many Requests"), RejectKind::RateLimit);
    assert_eq!(classify_reject("too many requests"), RejectKind::RateLimit);
    assert_eq!(classify_reject("invalid nonce"), RejectKind::Nonce);
    assert_eq!(classify_reject("nonce too low: expected 7"), RejectKind::Nonce);
    assert_eq!(
        classify_reject("maker-only api key can only send 0ms delay transactions"),
        RejectKind::MakerOnly
    );
    assert_eq!(classify_reject("maker only api key"), RejectKind::MakerOnly);
    assert_eq!(classify_reject("post only order would cross the book"), RejectKind::Other);
    assert_eq!(classify_reject("insufficient margin"), RejectKind::Other);
    assert_eq!(classify_reject("code=429"), RejectKind::RateLimit);
    assert_eq!(classify_reject("code=21104"), RejectKind::Other);
}

#[test]
fn transient_error_classification() {
    assert!(is_transient_error("HTTP 429 Too Many Requests"));
    assert!(is_transient_error("too many requests"));
    assert!(is_transient_error("not enough volume quota"));
    assert!(is_transient_error("invalid nonce: expected 5"));
    assert!(!is_transient_error("insufficient balance"));
}

#[test]
fn used_up_quota_is_transient() {
    assert!(is_quota_error("volume quota exhausted"));
    assert!(is_transient_error("volume quota exhausted"));
    assert!(!is_transient_error("quota remained: 5"));
}

#[test]
fn quota_pace_multiplier_bands() {
    let mut rl = limiter();
    assert_eq!(pace(&rl), 1.0);
    rl.set_quota(Some(500));
    assert_eq!(pace(&rl), 1.0);
    rl.set_quota(Some(499));
    assert_eq!(pace(&rl), 1.5);
    rl.set_quota(Some(50));
    assert_eq!(pace(&rl), 1.5);
    rl.set_quota(Some(49));
    assert_eq!(pace(&rl), 3.0);
    rl.set_quota(Some(10));
    assert_eq!(pace(&rl), 3.0);
    rl.set_quota(Some(9));
    assert!(pace(&rl).is_infinite());
    rl.set_quota(Some(0));
    assert!(pace(&rl).is_infinite());
}

#[test]
fn adaptive_threshold_bands() {
    let mut rl = limiter();
    assert_eq!(threshold(&rl), 8.0);
    rl.set_quota(Some(500));
    assert_eq!(threshold(&rl), 8.0);
    rl.set_quota(Some(499));
    assert_eq!(threshold(&rl), 16.0);
    rl.set_quota(Some(50));
    assert_eq!(threshold(&rl), 16.0);
    rl.set_quota(Some(49));
    assert_eq!(threshold(&rl), 28.0);
    rl.set_quota(Some(10));
    assert_eq!(threshold(&rl), 28.0);
    rl.set_quota(Some(9));
    assert_eq!(threshold(&rl), 40.0);
    rl.set_quota(Some(0));
    assert_eq!(threshold(&rl), 40.0);
}

#[test]
fn adaptive_threshold_of_a_given_quota() {
    let (base, halves) = quota_adaptive_threshold_bps(n(8.0), Some(49));
    assert_eq!((f(base), halves), (8.0, 7));
}

#[test]
fn ops_available_and_pruning() {
    let mut rl = limiter();
    let t0 = 100 * SEC;
    assert_eq!(rl.ops_available_at(t0), RL_OPS_PER_WINDOW);
    rl.record_ops_sent_at(4, t0);
    assert_eq!(rl.ops_available_at(t0), RL_OPS_PER_WINDOW - 4);
    rl.record_ops_sent_at(36, t0);
    assert_eq!(rl.ops_available_at(t0), 0);
    let later = t0 + RL_WINDOW_NS + 1_000_000;
    assert_eq!(rl.ops_available_at(later), RL_OPS_PER_WINDOW);
}

#[test]
fn time_until_ops_free_zero_when_room() {
    let mut rl = limiter();
    let t0 = 100 * SEC;
    rl.record_ops_sent_at(10, t0);
    assert_eq!(rl.time_until_ops_free_at(4, t0), 0);
}

#[test]
fn time_until_ops_free_waits_for_oldest() {
    let mut rl = limiter();
    let t0 = 100 * SEC;
    rl.record_ops_sent_at(40, t0);
    assert_eq!(rl.time_until_ops_free_at(4, t0), RL_WINDOW_NS);
    let mut rl2 = limiter();
    rl2.record_ops_sent_at(39, t0);
    assert_eq!(rl2.time_until_ops_free_at(4, t0), RL_WINDOW_NS);
}

#[test]
fn one_operation_is_free_when_the_oldest_leaves() {
    let mut rl = limiter();
    rl.record_ops_sent_at(1, 100 * SEC);
    rl.record_ops_sent_at(39, 110 * SEC);
    let wait = rl.time_until_ops_free_at(1, 110 * SEC);
    assert_eq!(wait, 50 * SEC);
    assert_eq!(rl.ops_available_at(110 * SEC + wait), 0);
    assert_eq!(rl.ops_available_at(110 * SEC + wait + 1), 1);
    assert_eq!(rl.time_until_ops_free_at(2, 160 * SEC + 1), 10 * SEC - 1);
    assert_eq!(rl.time_until_ops_free_at(500, 160 * SEC + 1), 10 * SEC - 1);
}

#[test]
fn backoff_escalation_durations() {
    let mut rl = limiter();
    let t0 = 100 * SEC;
    assert_eq!(rl.trigger_global_backoff_at(t0), 15 * SEC);
    assert_eq!(rl.backoff_level(), 1);
    assert_eq!(rl.trigger_global_backoff_at(t0), 30 * SEC);
    assert_eq!(rl.trigger_global_backoff_at(t0), 60 * SEC);
    assert_eq!(rl.trigger_global_backoff_at(t0), 120 * SEC);
    assert_eq!(rl.trigger_global_backoff_at(t0), 120 * SEC);
    assert!(rl.in_global_backoff_at(t0));
}

#[test]
fn backoff_reset_after_two_successes() {
    let mut rl = limiter();
    let t0 = 100 * SEC;
    let _ = rl.trigger_global_backoff_at(t0);
    assert_eq!(rl.backoff_level(), 1);
    rl.reset_global_backoff_at(t0);
    assert_eq!(rl.backoff_level(), 1);
    rl.reset_global_backoff_at(t0);
    assert_eq!(rl.backoff_level(), 0);
}

#[test]
fn backoff_auto_decay_after_5min() {
    let mut rl = limiter();
    let t0 = 100 * SEC;
    let _ = rl.trigger_global_backoff_at(t0);
    let _ = rl.trigger_global_backoff_at(t0);
    assert_eq!(rl.backoff_level(), 2);
    let later = t0 + BACKOFF_DECAY_NS + SEC;
    rl.reset_global_backoff_at(later);
    assert_eq!(rl.backoff_level(), 0);
}

#[test]
fn update_volume_quota_parsing() {
    let mut rl = limiter();
    rl.update_volume_quota(None);
    assert_eq!(rl.quota(), None);
    rl.update_volume_quota(Some("?"));
    assert_eq!(rl.quota(), None);
    rl.update_volume_quota(Some("not-a-number"));
    assert_eq!(rl.quota(), None);
    rl.update_volume_quota(Some("123"));
    assert_eq!(rl.quota(), Some(123));
    rl.update_volume_quota(Some(" 45 "));
    assert_eq!(rl.quota(), Some(45));
}

/// Runs the write pacing with a clock that every wait moves on.
fn slot(rl: &mut RateLimiter, ops: usize, cancels: bool, mut now: u64) -> (bool, u64) {
    let start = now;
    let mut phase = WritePhase::Backoff;
    loop {
        match rl.write_slot(phase, ops, cancels, now) {
            SlotStep::Skip => return (false, now - start),
            SlotStep::Wait { ns, next } => {
                now += ns;
                match next {
                    Some(p) => phase = p,
                    None => return (true, now - start),
                }
            }
        }
    }
}

#[test]
fn write_slot_skips_during_long_backoff() {
    let mut rl = limiter();
    let t0 = 100 * SEC;
    let _ = rl.trigger_global_backoff_at(t0);
    assert!(!slot(&mut rl, 4, false, t0).0);
}

#[test]
fn write_slot_skips_when_window_needs_too_long() {
    let mut rl = limiter();
    let t0 = 100 * SEC;
    rl.record_ops_sent_at(40, t0);
    assert!(!slot(&mut rl, 4, false, t0).0);
}

#[test]
fn write_slot_ok_first_cycle() {
    let mut rl = limiter();
    assert!(slot(&mut rl, 4, false, 100 * SEC).0);
}

#[test]
fn write_slot_paces_by_interval_and_quota() {
    let mut rl = limiter();
    let t0 = 100 * SEC;
    rl.record_ops_sent_at(4, t0);
    assert_eq!(slot(&mut rl, 4, false, t0), (true, SEC / 10));
    assert_eq!(slot(&mut rl, 2, true, t0), (true, SEC / 2));
    rl.set_quota(Some(5));
    assert_eq!(slot(&mut rl, 1, false, t0), (true, 15 * SEC));
}

// --- signing ---

fn op(action: OrderAction, side: Side, level: usize, client: i64, exchange: Option<i64>) -> BatchOp {
    BatchOp {
        side,
        level,
        action,
        price: n(100.0),
        size: n(0.001),
        client_order_id: client,
        exchange_id: exchange,
        reduce_only: false,
    }
}

#[test]
fn batch_takes_a_nonce_per_operation() {
    let ops = vec![
        op(OrderAction::Create, Side::Sell, 0, 11, None),
        op(OrderAction::Modify, Side::Buy, 0, 12, Some(900)),
        op(OrderAction::Cancel, Side::Buy, 1, 13, Some(901)),
    ];
    let mut nonce = NonceManager::init(50, 1, 3);
    let mut signer = BatchSigner::begin(7, ops, &nonce);
    let mut seen = Vec::new();
    while signer.pending().is_some() {
        let req = signer.request(&mut nonce, RawOrder { price: 1_000, amount: 20 }).expect("request");
        match req {
            SignRequest::CreateOrder { market_index, client_order_index, base_amount, price, is_ask, nonce, api_key_index, .. } => {
                assert_eq!((market_index, client_order_index, base_amount, price, is_ask, api_key_index), (7, 11, 20, 1_000, true, 3));
                seen.push(nonce);
            }
            SignRequest::ModifyOrder { order_index, nonce, .. } => {
                assert_eq!(order_index, 900);
                seen.push(nonce);
            }
            SignRequest::CancelOrder { order_index, nonce, .. } => {
                assert_eq!(order_index, 901);
                seen.push(nonce);
            }
            _ => panic!("unexpected request"),
        }
        signer.accept(SignedTx { tx_type: 14, tx_info: "{}".to_string(), tx_hash: String::new() });
    }
    assert_eq!(seen, vec![50, 51, 52]);
    let batch = signer.finish();
    assert_eq!(batch.tx_types, vec![14, 14, 14]);
    assert_eq!(batch.tx_infos.len(), 3);
    assert_eq!(batch.ops.len(), 3);
}

#[test]
fn failed_batch_gives_every_nonce_back() {
    let ops = vec![
        op(OrderAction::Create, Side::Sell, 0, 11, None),
        op(OrderAction::Modify, Side::Buy, 0, 12, None),
    ];
    let mut nonce = NonceManager::init(50, 1, 0);
    let mut signer = BatchSigner::begin(7, ops, &nonce);
    let _ = signer.request(&mut nonce, RawOrder { price: 1_000, amount: 20 }).expect("first");
    signer.accept(SignedTx { tx_type: 14, tx_info: "{}".to_string(), tx_hash: String::new() });
    let err = match signer.request(&mut nonce, RawOrder { price: 1_000, amount: 20 }) {
        Ok(_) => panic!("a modify without an id was signed"),
        Err(e) => e,
    };
    assert!(matches!(err, SignError::ModifyWithoutId(12)));
    assert_eq!(err.message(), "modify op missing exchange_id (client 12)");
    assert_eq!(nonce.next(), 50);
}

#[test]
fn sign_errors_in_words() {
    assert_eq!(SignError::PriceOutOfRange(-3).message(), "create price raw -3 outside u32 range");
    assert_eq!(SignError::CancelWithoutId(5).message(), "cancel op missing exchange_id (client 5)");
    assert_eq!(
        SignError::Signer(OrderAction::Cancel, "bad key".to_string()).message(),
        "sign Cancel failed: bad key"
    );
}

// --- the sender ---

#[test]
fn paused_trading_lets_cancels_through() {
    let mut risk = RiskController::new(1, 60 * SEC);
    risk.trigger_pause("test", 1);
    let creates = vec![op(OrderAction::Create, Side::Buy, 0, 1, None)];
    let cancels = vec![op(OrderAction::Cancel, Side::Buy, 0, 1, Some(2))];
    match on_wake(&mut risk, 10, true, Some(&creates), false, 2) {
        WakeStep::Drop(events) => assert_eq!(
            events,
            vec![OrderEvent::ClearLive { side: Side::Buy, level: 0, client_order_id: 1 }]
        ),
        other => panic!("{other:?}"),
    }
    assert!(matches!(on_wake(&mut risk, 10, true, Some(&cancels), false, 2), WakeStep::Send));
    assert!(matches!(on_wake(&mut risk, 10, true, Some(&cancels), true, 2), WakeStep::Idle));
    assert!(matches!(on_wake(&mut risk, 10, true, None, false, 2), WakeStep::Idle));
}

#[test]
fn untrusted_nonce_blocks_new_orders() {
    let mut risk = RiskController::new(1, 60 * SEC);
    let creates = vec![op(OrderAction::Create, Side::Buy, 0, 1, None)];
    assert!(matches!(on_wake(&mut risk, 10, true, Some(&creates), false, 2), WakeStep::Send));
    assert!(matches!(on_wake(&mut risk, 10, false, Some(&creates), false, 2), WakeStep::Drop(_)));
}

#[test]
fn failed_batches_free_their_creates_alone() {
    let ops = vec![
        op(OrderAction::Create, Side::Buy, 0, 1, None),
        op(OrderAction::Modify, Side::Sell, 0, 2, Some(9)),
    ];
    assert!(!cancel_only(&ops));
    assert_eq!(
        clear_failed_creates(&ops),
        vec![OrderEvent::ClearLive { side: Side::Buy, level: 0, client_order_id: 1 }]
    );
}

#[test]
fn used_up_quota_sends_single_operations_over_rest() {
    assert_eq!(choose_transport(Some(0), 1), Transport::Rest);
    assert_eq!(choose_transport(Some(0), 2), Transport::Socket);
    assert_eq!(choose_transport(Some(5), 1), Transport::Socket);
    assert_eq!(choose_transport(None, 1), Transport::Socket);
}

fn result(status: TxSendStatus, code: i64, message: &str) -> TxSendResult {
    TxSendResult { status, code, message: message.to_string(), quota_remaining: None }
}

#[test]
fn accepted_batch_binds_its_orders() {
    let ops = vec![
        op(OrderAction::Create, Side::Buy, 0, 21, None),
        op(OrderAction::Cancel, Side::Sell, 0, 22, Some(9)),
    ];
    let mut rate = limiter();
    let mut risk = RiskController::new(3, SEC);
    risk.record_rejection("x", 1);
    let mut nonce = NonceManager::init(10, 1, 0);
    let mut res = result(TxSendStatus::Accepted, 200, "");
    res.quota_remaining = Some(77);
    let s = settle_send(&res, &ops, &mut rate, &mut risk, &mut nonce, 100 * SEC);
    assert_eq!(s.accepted, vec![21]);
    assert_eq!(s.quota, Some(77));
    assert_eq!(s.events.len(), 2);
    assert!(matches!(s.events[0], OrderEvent::BindLive { client_order_id: 21, exchange_id: None, .. }));
    assert!(matches!(s.events[1], OrderEvent::ClearLive { client_order_id: 22, .. }));
    assert_eq!(s.resync, None);
    assert_eq!(risk.consecutive_rejections(), 0);
    assert_eq!(rate.ops_available_at(100 * SEC), RL_OPS_PER_WINDOW - 2);
}

#[test]
fn rejected_batches_correct_the_nonce_by_their_kind() {
    let ops = vec![op(OrderAction::Create, Side::Buy, 0, 21, None)];
    for (message, kind, resync) in [
        ("volume quota exhausted", RejectKind::Quota, Some(ResyncReason::RejectQuota)),
        ("429", RejectKind::RateLimit, None),
        ("invalid nonce", RejectKind::Nonce, Some(ResyncReason::RejectNonce)),
        ("insufficient margin", RejectKind::Other, Some(ResyncReason::RejectOther)),
    ] {
        let mut rate = limiter();
        let mut risk = RiskController::new(3, SEC);
        let mut nonce = NonceManager::init(10, 1, 0);
        let _ = nonce.next();
        let res = result(TxSendStatus::Rejected, 400, message);
        let s = settle_send(&res, &ops, &mut rate, &mut risk, &mut nonce, 100 * SEC);
        assert_eq!(s.reject, Some(kind), "{message}");
        assert_eq!(s.resync, resync, "{message}");
        assert_eq!(s.accepted, Vec::<i64>::new());
        assert_eq!(s.events.len(), 1);
    }
}

#[test]
fn unknown_outcome_pauses_and_clears_the_book() {
    let mut risk = RiskController::new(3, 60 * SEC);
    let c = conclude_send(TxSendStatus::Unknown, None, &mut risk, 5);
    assert!(c.cancel_all && c.notify_reconcile);
    assert!(risk.is_paused(5));
    assert!(!risk.last_reconcile_ok());
    assert_eq!(risk.pause_reason(), "unknown_tx_outcome");
    assert_eq!(risk.last_reconcile_reason(), "tx_unknown_outcome");
}

#[test]
fn lost_nonce_pauses_trading() {
    let mut nonce = NonceManager::init(10, 1, 0);
    let mut risk = RiskController::new(3, 60 * SEC);
    let mut ok = true;
    let mut resync = NonceResync::new();
    let mut last = ResyncStep::Retry;
    for _ in 0..20 {
        last = resync.on_refresh(None, &mut nonce, &mut ok, &mut risk, 5);
        if last != ResyncStep::Retry {
            break;
        }
    }
    assert_eq!(last, ResyncStep::Exhausted);
    assert!(!ok);
    assert!(risk.is_paused(5));
    let mut again = NonceResync::new();
    assert_eq!(again.on_refresh(Some(40), &mut nonce, &mut ok, &mut risk, 5), ResyncStep::Done);
    assert!(ok);
    assert_eq!(nonce.next(), 40);
}

// --- the lock ---

#[test]
fn lock_names_account_and_key() {
    assert_eq!(lock_file_name(123, 4), "lighter-mm-acct123-key4.lock");
    assert!(already_running_msg(123, 4, "pid 9").contains("account_index=123 api_key_index=4 (pid 9)"));
}

// --- the way of a batch ---

fn paced(ops: Vec<BatchOp>, rl: &mut RateLimiter) -> SendFlow {
    let mut flow = SendFlow::begin(ops);
    let mut now = 1_000;
    loop {
        match flow.pace(rl, now) {
            SendAction::Wait(ns) => now += ns,
            SendAction::Lock(_) => return flow,
            other => panic!("{other:?}"),
        }
    }
}

#[test]
fn batch_goes_from_its_turn_to_its_end() {
    let mut rl = limiter();
    let mut risk = RiskController::new(5, 60_000_000_000);
    let mut nonce = NonceManager::init(10, 1, 0);
    let mut flow = paced(vec![op(OrderAction::Create, Side::Buy, 0, 7, None)], &mut rl);
    assert_eq!(flow.stage(), SendStage::Locking);
    assert!(matches!(flow.on_lock(false), SendAction::Sign));
    assert!(matches!(flow.on_signed(true, Some(0)), SendAction::Transmit(Transport::Rest)));
    let _ = nonce.next();
    let ok = result(TxSendStatus::Accepted, 0, "");
    let settled = flow.on_reply(&ok, &mut rl, &mut risk, &mut nonce, 2_000);
    assert_eq!(settled.accepted, vec![7]);
    assert_eq!(flow.stage(), SendStage::Concluding);
    let end = flow.conclude(&mut risk, 3_000);
    assert!(!end.cancel_all && !end.notify_reconcile);
    assert_eq!(flow.stage(), SendStage::Done);
    assert_eq!(flow.ops().len(), 1);
}

#[test]
fn shutdown_and_failed_signing_give_a_batch_up() {
    let mut rl = limiter();
    let ops = vec![op(OrderAction::Create, Side::Buy, 0, 7, None)];
    let freed = OrderEvent::ClearLive { side: Side::Buy, level: 0, client_order_id: 7 };
    let mut halted = paced(ops.clone(), &mut rl);
    match halted.on_lock(true) {
        SendAction::Drop(events) => assert_eq!(events, vec![freed]),
        other => panic!("{other:?}"),
    }
    assert_eq!(halted.stage(), SendStage::Done);
    let mut unsigned = paced(ops, &mut rl);
    let _ = unsigned.on_lock(false);
    assert!(matches!(unsigned.on_signed(false, None), SendAction::Drop(_)));
    assert_eq!(unsigned.stage(), SendStage::Done);
}

#[test]
fn unknown_outcome_fetches_the_nonce_and_clears_the_book() {
    let mut rl = limiter();
    let mut risk = RiskController::new(5, 60_000_000_000);
    let mut nonce = NonceManager::init(10, 1, 0);
    let mut trusted = true;
    let mut flow = paced(vec![op(OrderAction::Create, Side::Buy, 0, 7, None)], &mut rl);
    let _ = flow.on_lock(false);
    assert!(matches!(flow.on_signed(true, None), SendAction::Transmit(Transport::Socket)));
    let _ = nonce.next();
    let lost = result(TxSendStatus::Unknown, -1, "response_timeout");
    let settled = flow.on_reply(&lost, &mut rl, &mut risk, &mut nonce, 2_000);
    assert!(settled.events.is_empty());
    assert_eq!(flow.stage(), SendStage::Resyncing(0));
    let step = flow.on_nonce(None, &mut nonce, &mut trusted, &mut risk, 2_100);
    assert_eq!((step, flow.stage()), (ResyncStep::Retry, SendStage::Resyncing(1)));
    let step = flow.on_nonce(Some(12), &mut nonce, &mut trusted, &mut risk, 2_200);
    assert_eq!((step, flow.stage()), (ResyncStep::Done, SendStage::Concluding));
    assert_eq!((nonce.last(), trusted), (11, true));
    let end = flow.conclude(&mut risk, 3_000);
    assert!(end.cancel_all && end.notify_reconcile);
    assert!(risk.is_paused(3_000));
}

#[test]
fn slots_tell_their_state_and_age() {
    let mut om = manager(2);
    om.mark_status(Side::Sell, 1, SideStatus::Canceling, 50);
    assert_eq!(om.slot_status(Side::Sell, 1), SideStatus::Canceling);
    assert_eq!(om.slot_age(Side::Sell, 1, 80), 30);
    assert_eq!(om.slot_status(Side::Buy, 1), SideStatus::Idle);
}

#[test]
fn quota_is_set_as_a_number() {
    let mut rl = limiter();
    rl.update_volume_quota_i64(42);
    assert_eq!(rl.quota(), Some(42));
}

#[test]
fn tracked_orders_stay_within_the_ladder() {
    let mut om = manager(2);
    let full = vec![(Some(99.0), Some(101.0)), (Some(98.0), Some(102.0))];
    for cycle in 1..5 {
        for o in collect(&mut om, &full, 0.001, 0.0, 8.0, cycle, false) {
            om.mark_pending(&o, cycle as u64);
        }
        assert_eq!(om.tracked_client_ids().len(), 4);
    }
}

#[test]
fn known_ids_stay_bounded() {
    let mut om = manager(1);
    let ops = collect(&mut om, &lvls(1, Some(99.0), None), 0.001, 0.0, 8.0, 1, false);
    bind(&mut om, &ops[0], 500);
    let cid = ops[0].client_order_id;
    for id in 1_000..1_199 {
        apply(&mut om, OrderEvent::IdResolved { client_order_id: id, exchange_id: -id }, 2);
    }
    assert_eq!(om.resolve_exchange_id(1_000), Some(-1_000));
    apply(&mut om, OrderEvent::IdResolved { client_order_id: 1_199, exchange_id: -1_199 }, 2);
    assert_eq!(om.resolve_exchange_id(1_099), None);
    assert_eq!(om.resolve_exchange_id(1_100), Some(-1_100));
    assert_eq!(om.resolve_exchange_id(1_199), Some(-1_199));
    assert_eq!(om.resolve_exchange_id(cid), Some(500));
}

#[test]
fn placed_orders_are_settled_by_snapshots() {
    let mut om = manager(1);
    let ops = collect(&mut om, &lvls(1, Some(99.0), Some(101.0)), 0.001, 0.0, 8.0, 1, false);
    for o in &ops {
        om.mark_pending(o, SEC);
    }
    let shown = vec![remote(ops[1].client_order_id, 700, true, 101.0, 0.001)];
    let _ = om.process_reconcile(&shown, 3 * SEC);
    assert_eq!(om.slot_status(Side::Buy, 0), SideStatus::Placing);
    let _ = om.process_reconcile(&shown, 6 * SEC);
    assert_eq!(om.slot_status(Side::Buy, 0), SideStatus::Idle);
    assert_eq!(om.slot_status(Side::Sell, 0), SideStatus::Live);
}
