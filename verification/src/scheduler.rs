//! The poll scheduler's timing: each show sleeps its own interval with up
//! to ten per cent of jitter either way, so that polls never align.

use vstd::prelude::*;

use crate::config::Interval;

verus! {

/// How finely the jitter is drawn.
pub const JITTER_STEPS: u64 = 1_000_000;

/// Nanoseconds per second.
const NANOS: u128 = 1_000_000_000;

/// The longest interval there is, in nanoseconds.
pub const LONGEST: u128 = 18_446_744_073_709_551_615_999_999_999;

/// Calls `fastrand::u64` for a number in `0..=limit`. Which one is left to
/// chance.
#[verifier::external_body]
fn draw_up_to(limit: u64) -> (drawn: u64)
    ensures
        drawn <= limit,
{
    fastrand::u64(..=limit)
}

/// Whether `jittered` lies within ten per cent of `interval`.
pub open spec fn within_ten_percent(interval: Interval, jittered: Interval) -> bool {
    &&& 10 * jittered.total() >= 9 * interval.total()
    &&& 10 * jittered.total() <= 11 * interval.total()
}

/// The jittered length of an interval, in nanoseconds, for a draw out of
/// [`JITTER_STEPS`]: nine tenths of it, rounded up, plus that share of the
/// way to eleven tenths of it, rounded down.
pub open spec fn jittered_nanos(interval: Interval, draw: u64) -> int {
    let total = interval.total() as int;
    let least = (total * 9 + 9) / 10;
    let most = total * 11 / 10;
    let wanted = least + (most - least) * draw / (JITTER_STEPS as int);
    if wanted > LONGEST {
        LONGEST as int
    } else {
        wanted
    }
}

/// An interval with the jitter a draw stands for.
pub fn jitter(interval: Interval, draw: u64) -> (jittered: Interval)
    requires
        draw <= JITTER_STEPS,
        interval.nanos < 1_000_000_000,
    ensures
        jittered.total() == jittered_nanos(interval, draw),
        jittered.nanos < 1_000_000_000,
        within_ten_percent(interval, jittered),
{
    let total: u128 = interval.secs as u128 * NANOS + interval.nanos as u128;
    assert(total <= LONGEST);
    let least: u128 = (total * 9 + 9) / 10;
    let most: u128 = total * 11 / 10;
    let range: u128 = most - least;
    proof {
        assert(0 <= range * draw <= range * 1_000_000) by (nonlinear_arith)
            requires
                0 <= draw <= 1_000_000,
                0 <= range,
        ;
    }
    let share: u128 = range * draw as u128 / JITTER_STEPS as u128;
    let wanted: u128 = least + share;
    let capped: u128 = if wanted > LONGEST {
        LONGEST
    } else {
        wanted
    };
    let secs: u64 = (capped / NANOS) as u64;
    let nanos: u32 = (capped % NANOS) as u32;
    let jittered = Interval { secs, nanos };
    assert(jittered.total() == capped);
    jittered
}

/// The interval with up to ten per cent of uniform jitter either way.
pub fn jittered(interval: Interval) -> (jittered: Interval)
    requires
        interval.nanos < 1_000_000_000,
    ensures
        jittered.nanos < 1_000_000_000,
        within_ten_percent(interval, jittered),
        exists|draw: u64|
            draw <= JITTER_STEPS && jittered.total() == #[trigger] jittered_nanos(interval, draw),
{
    let draw: u64 = draw_up_to(JITTER_STEPS);
    jitter(interval, draw)
}

/// Jitter reaches from nine tenths of an interval to eleven tenths of it,
/// and a larger draw never makes a shorter pause; what is longer than any
/// interval is the longest one.
pub proof fn law_jitter_spreads_the_polls(interval: Interval, draw: u64, more: u64)
    requires
        draw <= more <= 1_000_000,
        interval.nanos < 1_000_000_000,
        interval.secs * 1_000_000_000 + interval.nanos <= 10_000_000_000_000_000_000_000_000_000,
    ensures
        interval.total() == interval.secs * 1_000_000_000 + interval.nanos,
        9 * interval.total() <= 10 * jittered_nanos(interval, 0) < 9 * interval.total() + 10,
        11 * interval.total() - 10 < 10 * jittered_nanos(interval, 1_000_000) <= 11
            * interval.total(),
        jittered_nanos(interval, draw) <= jittered_nanos(interval, more),
        interval.total() % 10 == 0 ==> jittered_nanos(interval, 500_000) == interval.total(),
{
    let total = interval.total() as int;
    let least = (total * 9 + 9) / 10;
    let most = total * 11 / 10;
    let span = most - least;
    assert(span * 0 == 0) by (nonlinear_arith);
    assert(span * 1_000_000 / 1_000_000 == span);
    lemma_spans(span, draw as int, more as int);
    if total % 10 == 0 {
        assert(span * 500_000 / 1_000_000 == span / 2);
        assert(span == total / 5);
    }
}

proof fn lemma_spans(span: int, draw: int, more: int)
    requires
        0 <= draw <= more,
        span >= 0,
    ensures
        span * draw / 1_000_000 <= span * more / 1_000_000,
{
    assert(span * draw <= span * more) by (nonlinear_arith)
        requires
            0 <= draw <= more,
            span >= 0,
    ;
}

/// Within ten per cent means between nine tenths and eleven tenths.
pub proof fn law_ten_per_cent(interval: Interval, jittered: Interval)
    requires
        within_ten_percent(interval, jittered),
    ensures
        9 * (interval.secs * 1_000_000_000 + interval.nanos) <= 10 * (jittered.secs * 1_000_000_000
            + jittered.nanos) <= 11 * (interval.secs * 1_000_000_000 + interval.nanos),
{
}

} // verus!
