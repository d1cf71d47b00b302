//! Numbers, sides, delays, shared state, nonces and the circuit breaker.
use lighter_mm::lighter::nonce::NonceManager;
use lighter_mm::num::Num;
use lighter_mm::risk::RiskController;
use lighter_mm::shared::{clock_ms, now_ms, Derived, SharedAlpha, SharedBbo, SharedPosition};
use lighter_mm::timestamps::{
    session_stamp, session_stamp_of, stamp_of, utc_now, LAST_PRINTABLE_MS,
};
use lighter_mm::types::{Side, TxSendResult, TxSendStatus};
use lighter_mm::util::{
    clamp, jitter, next_reconnect_backoff, reconnect_delay_after_session, reconnect_wait,
    RECONNECT_BACKOFF_RESET_AFTER_MS,
};

fn n(x: f64) -> Num {
    Num::new(x.to_bits())
}

fn f(x: Num) -> f64 {
    f64::from_bits(x.bits)
}

const SEC: u64 = 1_000_000_000;

// --- numbers ---

#[test]
fn comparisons_are_those_of_binary64() {
    let values = [
        0.0, -0.0, 1.0, -1.0, 1e-9, -1e-9, 1e-320, 0.1, 0.2, 65_000.5, f64::MAX, f64::MIN,
        f64::INFINITY, f64::NEG_INFINITY, f64::NAN,
    ];
    for a in values {
        for b in values {
            assert_eq!(n(a).lt(n(b)), a < b, "{a} < {b}");
            assert_eq!(n(a).le(n(b)), a <= b, "{a} <= {b}");
            assert_eq!(n(a).equals(n(b)), a == b, "{a} == {b}");
        }
        assert_eq!(n(a).is_nan(), a.is_nan());
        assert_eq!(n(a).is_finite(), a.is_finite());
        assert_eq!(n(a).is_zero(), a == 0.0);
        assert_eq!(n(a).is_positive(), a > 0.0);
        assert_eq!(n(a).abs().bits, a.abs().to_bits());
        assert_eq!(n(a).neg().bits, (-a).to_bits());
    }
}

#[test]
fn extremes_pass_over_what_is_no_number() {
    assert_eq!(f(n(2.0).max(n(3.0))), 3.0);
    assert_eq!(f(n(2.0).min(n(3.0))), 2.0);
    assert_eq!(f(n(f64::NAN).max(n(3.0))), 3.0);
    assert_eq!(f(n(2.0).max(n(f64::NAN))), 2.0);
    assert_eq!(f(n(f64::NAN).min(n(3.0))), 3.0);
    assert_eq!(f(n(2.0).min(n(f64::NAN))), 2.0);
}

#[test]
fn epsilon_is_a_billionth() {
    assert_eq!(f(Num::epsilon()), 1e-9);
    assert_eq!(f(Num::zero()), 0.0);
}

// --- sides and results ---

#[test]
fn side_helpers() {
    assert!(Side::Sell.is_ask());
    assert!(!Side::Buy.is_ask());
    assert_eq!(Side::Buy.as_str(), "buy");
}

#[test]
fn sell_side_text() {
    assert_eq!(Side::Sell.as_str(), "sell");
}

#[test]
fn failed_sends_carry_their_reason() {
    let a = TxSendResult::not_sent("ws_down".to_string());
    assert_eq!(a.status, TxSendStatus::NotSent);
    assert_eq!(a.message, "ws_down");
    let b = TxSendResult::unknown("timeout".to_string());
    assert_eq!(b.status, TxSendStatus::Unknown);
    assert_eq!(b.message, "timeout");
    assert_eq!(b.quota_remaining, None);
}

// --- delays ---

#[test]
fn websocket_backoff_resets_after_stable_session() {
    let stable = RECONNECT_BACKOFF_RESET_AFTER_MS + 1_000;
    assert_eq!(reconnect_delay_after_session(60_000, 5_000, stable), 5_000);
    assert_eq!(next_reconnect_backoff(60_000, 5_000, 60_000, stable), 5_000);
}

#[test]
fn websocket_backoff_grows_after_short_failure() {
    let short = 200;
    assert_eq!(reconnect_delay_after_session(10_000, 5_000, short), 10_000);
    assert_eq!(next_reconnect_backoff(10_000, 5_000, 60_000, short), 20_000);
    assert_eq!(next_reconnect_backoff(40_000, 5_000, 60_000, short), 60_000);
}

#[test]
fn backoff_stays_within_its_bounds() {
    let mut d = 5_000;
    for _ in 0..10 {
        let next = next_reconnect_backoff(d, 5_000, 60_000, 10);
        assert!(next >= d && next <= 60_000);
        d = next;
    }
    assert_eq!(d, 60_000);
}

#[test]
fn jitter_is_a_fifth_at_most() {
    assert_eq!(jitter(5_000, 0), 0);
    assert_eq!(jitter(5_000, 500), 500);
    assert_eq!(jitter(5_000, 1_999), 999);
    assert_eq!(jitter(u64::MAX, 1_999), 3_685_659_465_927_168_412);
    assert_eq!(jitter(0, 999), 0);
    assert_eq!(jitter(4, 999), 0);
}

#[test]
fn a_stable_session_waits_for_the_base_delay() {
    let stable = RECONNECT_BACKOFF_RESET_AFTER_MS;
    for now in [0, 250, 999, 12_345] {
        let wait = reconnect_wait(60_000, 5_000, stable, now);
        assert!(wait >= 5_000 && wait < 6_000);
    }
    assert_eq!(reconnect_wait(60_000, 5_000, stable, 500), 5_500);
    assert_eq!(reconnect_wait(60_000, 5_000, stable - 1, 500), 66_000);
    assert_eq!(next_reconnect_backoff(60_000, 5_000, 60_000, stable), 5_000);
    assert_eq!(reconnect_wait(u64::MAX, 5_000, 0, 999), u64::MAX);
}

#[test]
fn clamp_keeps_within() {
    assert_eq!(f(clamp(n(5.0), n(0.0), n(1.0))), 1.0);
    assert_eq!(f(clamp(n(-5.0), n(0.0), n(1.0))), 0.0);
    assert_eq!(f(clamp(n(0.5), n(0.0), n(1.0))), 0.5);
}

// --- shared state ---

#[test]
fn alpha_warmup_and_value() {
    let mut a = SharedAlpha::new(3);
    assert!(!a.warmed_up());
    a.update(n(1.5));
    a.update(n(2.5));
    assert!(!a.warmed_up());
    a.update(n(3.5));
    assert!(a.warmed_up());
    assert!((f(a.alpha()) - 3.5).abs() < 1e-12);
    assert!(!a.is_stale(60_000));
    assert_eq!(a.usable_alpha(60_000), Some(n(3.5)));
}

#[test]
fn stale_alpha_is_not_used() {
    let mut a = SharedAlpha::new(1);
    a.update_at(n(1.5), 1_000);
    assert_eq!(a.usable_alpha_at(5_000, 6_000), Some(n(1.5)));
    assert_eq!(a.usable_alpha_at(5_000, 6_001), None);
    a.reset();
    assert!(!a.warmed_up());
    assert_eq!(a.usable_alpha_at(5_000, 6_000), None);
}

#[test]
fn a_reset_alpha_warms_up_anew() {
    let mut a = SharedAlpha::new(3);
    for i in 0..5 {
        a.update_at(n(1.0), 1_000 + i);
    }
    a.reset();
    a.reset();
    assert!(a.is_stale_at(5_000, 1_004));
    for i in 1..=3 {
        assert_eq!(a.usable_alpha_at(5_000, 2_000 + i), None);
        a.update_at(n(i as f64), 2_000 + i);
    }
    assert_eq!(a.usable_alpha_at(5_000, 7_003), Some(n(3.0)));
    assert_eq!(a.usable_alpha_at(5_000, 7_004), None);
}

#[test]
fn position_roundtrip() {
    let mut p = SharedPosition::new();
    p.set(n(-0.0025));
    assert!((f(p.get()) + 0.0025).abs() < 1e-12);
}

#[test]
fn position_age_is_endless_before_the_first() {
    let mut p = SharedPosition::new();
    assert_eq!(p.age_ms(), u64::MAX);
    p.set_at(n(1.0), 1_000);
    assert_eq!(p.age_ms_at(1_250), 250);
    p.set(n(1.0));
    assert!(p.age_ms() < 1_000);
}

#[test]
fn derived_quota() {
    let mut d = Derived::new();
    assert_eq!(d.quota(), None);
    d.set_quota(Some(42));
    assert_eq!(d.quota(), Some(42));
    d.set_base_amount(n(0.0002));
    assert!((f(d.base_amount()) - 0.0002).abs() < 1e-12);
}

#[test]
fn md_freshness() {
    let mut d = Derived::new();
    assert_eq!(d.md_age_ms(), u64::MAX);
    d.set_md_now();
    assert!(d.md_age_ms() < 1_000);
}

#[test]
fn bbo_keeps_both_sides() {
    let mut b = SharedBbo::new(2);
    assert!(b.is_stale_at(5_000, 9_000));
    b.update_at(n(99.5), n(100.5), n(1.0), n(2.0), 1_000);
    assert!(!b.warmed_up());
    b.update_at(n(99.0), n(101.0), n(1.0), n(2.0), 2_000);
    assert!(b.warmed_up());
    assert_eq!(f(b.best_bid()), 99.0);
    assert_eq!(f(b.best_ask()), 101.0);
    assert_eq!(b.age_ms_at(2_500), 500);
    assert_eq!(b.sample_count(), 2);
}

#[test]
fn clock_reads_milliseconds() {
    assert_eq!(clock_ms(None), 0);
    assert_eq!(clock_ms(Some(1_700_000_000_000)), 1_700_000_000_000);
    let t = now_ms();
    assert!(t > 1_600_000_000_000 && t < 10_000_000_000_000);
}

#[test]
fn sessions_are_stamped_to_the_second() {
    assert_eq!(session_stamp_of(Some(1_700_000_000_999)), "20231114T221320Z");
    assert_eq!(session_stamp_of(None), "19700101T000000Z");
    assert_eq!(session_stamp_of(Some(253_402_300_799_999)), "99991231T235959Z");
    let last = session_stamp_of(Some(LAST_PRINTABLE_MS as u128));
    assert!(last.ends_with("1231T235959Z"));
    assert_eq!(session_stamp_of(Some(u128::MAX)), last);
    let now = session_stamp();
    assert!(now.len() == 16 && now.ends_with('Z') && now.contains('T'));
}

#[test]
fn clock_readings_are_printed() {
    assert_eq!(stamp_of(Some(1_700_000_000_123)), "2023-11-14T22:13:20.123Z");
    assert_eq!(stamp_of(None), "1970-01-01T00:00:00.000Z");
    assert_eq!(stamp_of(Some(253_402_300_799_999)), "9999-12-31T23:59:59.999Z");
    let last = "+262142-12-31T23:59:59.999Z";
    assert_eq!(stamp_of(Some(LAST_PRINTABLE_MS as u128)), last);
    assert_eq!(stamp_of(Some(LAST_PRINTABLE_MS as u128 + 1)), last);
    assert_eq!(stamp_of(Some(u128::MAX)), last);
    let now = utc_now();
    assert!(now.len() == 24 && now.ends_with('Z') && now.contains('T'));
}

#[test]
fn reset_quotes_are_cold_until_enough_samples() {
    let mut b = SharedBbo::new(2);
    for _ in 0..3 {
        b.update_at(n(99.0), n(101.0), n(1.0), n(2.0), 1_000);
    }
    b.reset();
    b.reset();
    assert_eq!((f(b.best_bid()), f(b.best_ask()), b.sample_count()), (0.0, 0.0, 0));
    assert_eq!(b.age_ms(), u64::MAX);
    assert!(b.is_stale(u64::MAX) && b.is_stale_at(0, 0));
    b.update_at(n(99.0), n(101.0), n(1.0), n(2.0), 2_000);
    assert!(!b.warmed_up());
    b.update_at(n(99.0), n(101.0), n(1.0), n(2.0), 2_000);
    assert!(b.warmed_up());
}

// --- nonces ---

#[test]
fn sequence_and_rollback() {
    let mut nm = NonceManager::init(100, 1, 0);
    assert_eq!(nm.next(), 100);
    assert_eq!(nm.next(), 101);
    nm.acknowledge_failure();
    assert_eq!(nm.next(), 101);
}

#[test]
fn nonces_run_on_from_the_expected_one() {
    let mut nm = NonceManager::init(7, 1, 0);
    for k in 0..100 {
        assert_eq!(nm.next(), 7 + k);
    }
    nm.hard_refresh(-3);
    for k in 0..5 {
        assert_eq!(nm.next(), -3 + k);
    }
}

#[test]
fn nonces_fall_in_step_with_the_exchange() {
    let mut nm = NonceManager::init(100, 7, 3);
    let _ = nm.next();
    let _ = nm.next();
    let _ = nm.next();
    nm.rollback(2);
    assert_eq!(nm.next(), 101);
    nm.hard_refresh(500);
    assert_eq!(nm.last(), 499);
    assert_eq!(nm.next(), 500);
    assert_eq!(nm.account_index(), 7);
    assert_eq!(nm.api_key_index(), 3);
}

// --- circuit breaker ---

#[test]
fn threshold_trips_pause() {
    let mut rc = RiskController::new(3, 60 * SEC);
    let now = 1;
    assert!(!rc.is_paused(now));

    rc.record_rejection("rate_limited", now);
    assert_eq!(rc.consecutive_rejections(), 1);
    assert!(!rc.is_paused(now));

    rc.record_rejection("rate_limited", now);
    assert_eq!(rc.consecutive_rejections(), 2);
    assert!(!rc.is_paused(now));

    rc.record_rejection("rate_limited", now);
    assert_eq!(rc.consecutive_rejections(), 3);
    assert!(rc.is_paused(now));
    assert_eq!(
        rc.pause_reason(),
        "circuit_breaker: 3 consecutive rejections (rate_limited)"
    );
}

#[test]
fn zero_threshold_never_trips() {
    let mut rc = RiskController::new(0, 60 * SEC);
    for _ in 0..10 {
        rc.record_rejection("nope", 1);
    }
    assert_eq!(rc.consecutive_rejections(), 10);
    assert!(!rc.is_paused(1));
}

#[test]
fn success_resets_counter() {
    let mut rc = RiskController::new(5, 60 * SEC);
    rc.record_rejection("x", 1);
    rc.record_rejection("x", 1);
    assert_eq!(rc.consecutive_rejections(), 2);
    rc.record_success();
    assert_eq!(rc.consecutive_rejections(), 0);
    assert!(!rc.is_paused(1));
}

#[test]
fn cooldown_elapses_then_recover() {
    let mut rc = RiskController::new(1, 0);
    rc.record_rejection("boom", 5);
    assert!(!rc.is_paused(5));

    rc.mark_reconcile(true, "", 5);
    assert!(rc.maybe_recover(true, 5));
    assert_eq!(rc.consecutive_rejections(), 0);
    assert_eq!(rc.pause_reason(), "");
    assert!(rc.maybe_recover(true, 5));
}

#[test]
fn recover_blocked_while_paused() {
    let mut rc = RiskController::new(1, 60 * SEC);
    rc.record_rejection("boom", 5);
    assert!(rc.is_paused(5));
    rc.mark_reconcile(true, "", 5);
    assert!(!rc.maybe_recover(true, 5));
    assert!(rc.is_paused(5));
}

#[test]
fn recover_blocked_when_unhealthy() {
    let mut rc = RiskController::new(1, 0);
    rc.record_rejection("boom", 5);
    rc.mark_reconcile(true, "", 5);
    assert!(!rc.maybe_recover(false, 5));

    rc.mark_reconcile(false, "mismatch", 5);
    assert!(!rc.maybe_recover(true, 5));
}

#[test]
fn mismatch_streak_inc_and_reset() {
    let mut rc = RiskController::new(5, 60 * SEC);
    assert_eq!(rc.mismatch_streak(), 0);
    assert!(rc.last_reconcile_ok());

    rc.mark_reconcile(false, "a", 1);
    assert_eq!(rc.mismatch_streak(), 1);
    assert!(!rc.last_reconcile_ok());
    assert_eq!(rc.last_reconcile_reason(), "a");

    rc.mark_reconcile(false, "b", 2);
    assert_eq!(rc.mismatch_streak(), 2);

    rc.mark_reconcile(true, "", 3);
    assert_eq!(rc.mismatch_streak(), 0);
    assert!(rc.last_reconcile_ok());
    assert!(rc.last_reconcile_time().is_some());
}

#[test]
fn trigger_pause_only_extends() {
    let mut rc = RiskController::new(5, 60 * SEC);
    rc.trigger_pause("first", 10);
    let first_deadline = rc.paused_until().expect("armed");
    rc.set_cooldown(0);
    rc.trigger_pause("second", 11);
    let second_deadline = rc.paused_until().expect("still armed");
    assert_eq!(first_deadline, second_deadline);
    assert_eq!(rc.pause_reason(), "second");
}

#[test]
fn pause_cancel_done_toggles() {
    let mut rc = RiskController::new(1, 60 * SEC);
    assert!(!rc.pause_cancel_done());
    rc.set_pause_cancel_done(true);
    assert!(rc.pause_cancel_done());
    rc.trigger_pause("again", 1);
    assert!(!rc.pause_cancel_done());
}

#[test]
fn manual_pause_then_recover_after_cooldown() {
    let mut rc = RiskController::new(5, 50_000_000);
    rc.trigger_pause("manual", 0);
    assert!(rc.is_paused(0));
    let later = 80_000_000;
    assert!(!rc.is_paused(later));
    rc.mark_reconcile(true, "", later);
    assert!(rc.maybe_recover(true, later));
    assert!(!rc.is_paused(later));
}
