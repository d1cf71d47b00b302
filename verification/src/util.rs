//! Delays between reconnects, and small helpers. Times are milliseconds.
use vstd::prelude::*;
use crate::num::Num;

verus! {

/// A session of this length was healthy: the next reconnect starts from the base delay again.
pub const RECONNECT_BACKOFF_RESET_AFTER_MS: u64 = 30_000;

/// A number no less than `lo` and no more than `hi`.
pub open spec fn clamped(x: Num, lo: Num, hi: Num) -> Num {
    if x.below(lo) {
        lo
    } else if hi.below(x) {
        hi
    } else {
        x
    }
}

/// A number no less than `lo` and no more than `hi`.
pub fn clamp(x: Num, lo: Num, hi: Num) -> (r: Num)
    ensures
        r == clamped(x, lo, hi),
{
    if x.lt(lo) {
        lo
    } else if hi.lt(x) {
        hi
    } else {
        x
    }
}

/// Delay before the next reconnect.
pub open spec fn delay_after(current: u64, base: u64, elapsed: u64) -> u64 {
    if elapsed >= RECONNECT_BACKOFF_RESET_AFTER_MS {
        base
    } else {
        current
    }
}

/// Delay before the reconnect after that.
pub open spec fn backoff_after(current: u64, base: u64, max: u64, elapsed: u64) -> u64 {
    if elapsed >= RECONNECT_BACKOFF_RESET_AFTER_MS {
        base
    } else if 2 * current <= max {
        (2 * current) as u64
    } else {
        max
    }
}

/// Delay before the next reconnect, after a session that lasted so long.
pub fn reconnect_delay_after_session(
    current_backoff: u64,
    base_backoff: u64,
    elapsed: u64,
) -> (r: u64)
    ensures
        r == delay_after(current_backoff, base_backoff, elapsed),
{
    if elapsed >= RECONNECT_BACKOFF_RESET_AFTER_MS {
        base_backoff
    } else {
        current_backoff
    }
}

/// Delay to carry forward, after a session that lasted so long: twice the last one up to the
/// maximum, or the base delay again.
pub fn next_reconnect_backoff(
    current_backoff: u64,
    base_backoff: u64,
    max_backoff: u64,
    elapsed: u64,
) -> (r: u64)
    ensures
        r == backoff_after(current_backoff, base_backoff, max_backoff, elapsed),
{
    if elapsed >= RECONNECT_BACKOFF_RESET_AFTER_MS {
        base_backoff
    } else if current_backoff <= max_backoff / 2 {
        current_backoff * 2
    } else {
        max_backoff
    }
}

/// Extra delay below a fifth of the delay, by the milliseconds of the second that the clock shows.
pub open spec fn jitter_of(delay: int, now_ms: int) -> int {
    delay * (now_ms % 1000) / 5000
}

/// Extra delay below a fifth of the delay, drawn from the clock, so that sockets do not all
/// reconnect at once.
pub fn jitter(delay: u64, now_ms: u64) -> (r: u64)
    ensures
        r == jitter_of(delay as int, now_ms as int),
{
    let part: u64 = now_ms % 1000;
    proof {
        jitter_is_below_a_fifth(delay as int, now_ms as int);
        assert(0 <= delay * part <= u64::MAX * 1000) by (nonlinear_arith)
            requires
                part < 1000,
                0 <= delay <= u64::MAX,
        ;
    }
    ((delay as u128) * (part as u128) / 5000) as u64
}

/// The wait before the next reconnect, in full: the delay and the jitter on top of it.
pub fn reconnect_wait(
    current_backoff: u64,
    base_backoff: u64,
    elapsed: u64,
    now_ms: u64,
) -> (r: u64)
    ensures
        r == wait_after(current_backoff, base_backoff, elapsed, now_ms),
{
    let delay: u64 = reconnect_delay_after_session(current_backoff, base_backoff, elapsed);
    delay.saturating_add(jitter(delay, now_ms))
}

/// The wait before the next reconnect, in full.
pub open spec fn wait_after(current: u64, base: u64, elapsed: u64, now_ms: u64) -> u64 {
    let delay = delay_after(current, base, elapsed);
    let wait = delay + jitter_of(delay as int, now_ms as int);
    if wait <= u64::MAX {
        wait as u64
    } else {
        u64::MAX
    }
}

/// The jitter lies below a fifth of the delay; there is none on a delay of zero.
pub proof fn jitter_is_below_a_fifth(delay: int, now_ms: int)
    requires
        0 <= delay,
    ensures
        0 <= jitter_of(delay, now_ms),
        5 * jitter_of(delay, now_ms) <= delay,
        0 < delay ==> 5 * jitter_of(delay, now_ms) < delay,
{
    let part = now_ms % 1000;
    assert(0 <= delay * part <= delay * 999) by (nonlinear_arith)
        requires
            0 <= delay,
            0 <= part < 1000,
    ;
}

/// After a session that lasted, the next reconnect waits for the base delay and less than a fifth
/// of it, whatever the delay had grown to, and the delay carried forward is the base again.
pub proof fn stable_sessions_start_over(
    current: u64,
    base: u64,
    max: u64,
    elapsed: u64,
    now_ms: u64,
)
    requires
        elapsed >= RECONNECT_BACKOFF_RESET_AFTER_MS,
    ensures
        backoff_after(current, base, max, elapsed) == base,
        base <= wait_after(current, base, elapsed, now_ms),
        5 * (wait_after(current, base, elapsed, now_ms) - base) <= base,
        0 < base ==> 5 * (wait_after(current, base, elapsed, now_ms) - base) < base,
{
    jitter_is_below_a_fifth(base as int, now_ms as int);
}

/// The delay never exceeds its maximum and never shrinks while sessions fail.
pub proof fn backoff_is_bounded(current: u64, base: u64, max: u64, elapsed: u64)
    requires
        base <= max,
        current <= max,
    ensures
        backoff_after(current, base, max, elapsed) <= max,
        delay_after(current, base, elapsed) <= max,
        elapsed < RECONNECT_BACKOFF_RESET_AFTER_MS ==> backoff_after(current, base, max, elapsed)
            >= current,
{
}

/// Clamping gives the number itself where it lies between the bounds, and the bound that it passes
/// otherwise.
pub proof fn clamping_keeps_within_bounds(x: Num, lo: Num, hi: Num)
    requires
        !x.nan(),
        !lo.nan(),
        !hi.nan(),
        lo.at_most(hi),
    ensures
        lo.at_most(clamped(x, lo, hi)),
        clamped(x, lo, hi).at_most(hi),
        lo.at_most(x) && x.at_most(hi) ==> clamped(x, lo, hi) == x,
        x.below(lo) ==> clamped(x, lo, hi) == lo,
        hi.below(x) ==> clamped(x, lo, hi) == hi,
{
}

/// How the delay between reconnects goes on. After a session of thirty seconds or more it starts
/// over; after a shorter one the delay is what it had grown to, and the one after that is twice as
/// long, or the longest there is.
pub proof fn short_sessions_double_the_delay(current: u64, base: u64, max: u64, elapsed: u64)
    ensures
        elapsed >= 30_000 ==> delay_after(current, base, elapsed) == base && backoff_after(
            current,
            base,
            max,
            elapsed,
        ) == base,
        elapsed < 30_000 ==> delay_after(current, base, elapsed) == current,
        elapsed < 30_000 && 2 * current <= max ==> backoff_after(current, base, max, elapsed) == 2
            * current,
        elapsed < 30_000 && 2 * current > max ==> backoff_after(current, base, max, elapsed)
            == max,
{
}

/// The wait is the delay and a part of it on top: as many five-thousandths as the clock shows
/// milliseconds of its second, rounded down.
pub proof fn waits_add_a_part_of_the_delay(current: u64, base: u64, elapsed: u64, now_ms: u64)
    requires
        current <= u64::MAX / 2,
        base <= u64::MAX / 2,
    ensures
        ({
            let delay = if elapsed >= 30_000 {
                base as int
            } else {
                current as int
            };
            let extra = wait_after(current, base, elapsed, now_ms) - delay;
            &&& 5_000 * extra <= delay * (now_ms as int % 1_000)
            &&& delay * (now_ms as int % 1_000) < 5_000 * (extra + 1)
        }),
{
    let delay = delay_after(current, base, elapsed);
    jitter_is_below_a_fifth(delay as int, now_ms as int);
}

} // verus!
