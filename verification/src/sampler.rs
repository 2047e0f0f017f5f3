//! The pace of the sampler, and how many samples a run of a given length
//! yields.
//!
//! The sampler tests the deadline, pauses for one interval, takes a sample
//! and starts over. It measures time from its own start.

use vstd::prelude::*;

verus! {

/// The pause between two samples, in nanoseconds: a tenth of a second.
pub const SAMPLING_INTERVAL_NANOS: u64 = 100_000_000;

/// How many samples a sampler takes from the time `elapsed` on, when every
/// pause lasts exactly `interval` and nothing else takes time: one for
/// every test of the deadline that finds time left.
pub open spec fn punctual_ticks(elapsed: nat, duration: nat, interval: nat) -> nat
    decreases
        (if elapsed < duration {
            duration - elapsed
        } else {
            0
        }),
{
    if interval > 0 && elapsed < duration {
        1 + punctual_ticks(elapsed + interval, duration, interval)
    } else {
        0
    }
}

/// Whether `wakes` can be the times at which a sampler took its samples in
/// a run of length `duration`: each round began while time was left, so
/// the sample before it was taken short of the deadline, and each pause
/// lasted `interval` at least.
pub open spec fn sampler_schedule(wakes: Seq<nat>, duration: nat, interval: nat) -> bool {
    &&& wakes.len() > 0 ==> 0 < duration && wakes[0] >= interval
    &&& forall|k: int|
        1 <= k < wakes.len() ==> wakes[k - 1] < duration && #[trigger] wakes[k] >= wakes[k - 1]
            + interval
}

/// A round starts exactly when a punctual sampler has samples left to
/// take: while the time that has passed is short of the run's length.
pub proof fn lemma_round_starts_while_ticks_remain(elapsed: nat, duration: nat, interval: nat)
    requires
        interval > 0,
    ensures
        elapsed < duration <==> punctual_ticks(elapsed, duration, interval) > 0,
        elapsed < duration ==> punctual_ticks(elapsed, duration, interval) == 1 + punctual_ticks(
            elapsed + interval,
            duration,
            interval,
        ),
{
}

/// A punctual sampler takes as many samples as intervals are needed to
/// cover what is left of the run.
pub proof fn lemma_punctual_ticks_cover(elapsed: nat, duration: nat, interval: nat)
    requires
        interval > 0,
        elapsed < duration,
    ensures
        punctual_ticks(elapsed, duration, interval) >= 1,
        elapsed + (punctual_ticks(elapsed, duration, interval) - 1) * interval < duration,
        duration <= elapsed + punctual_ticks(elapsed, duration, interval) * interval,
    decreases
        (if elapsed < duration {
            duration - elapsed
        } else {
            0
        }),
{
    let next = elapsed + interval;
    if next < duration {
        lemma_punctual_ticks_cover(next, duration, interval);
        let n = punctual_ticks(next, duration, interval);
        assert(elapsed + ((1 + n) - 1) * interval == next + (n - 1) * interval)
            by (nonlinear_arith)
            requires
                next == elapsed + interval,
        ;
        assert(elapsed + (1 + n) * interval == next + n * interval) by (nonlinear_arith)
            requires
                next == elapsed + interval,
        ;
    } else {
        assert(punctual_ticks(next, duration, interval) == 0);
        assert(elapsed + 0 * interval == elapsed) by (nonlinear_arith);
        assert(elapsed + 1 * interval == next) by (nonlinear_arith)
            requires
                next == elapsed + interval,
        ;
    }
}

/// The series of a run with a punctual sampler holds the seed and one
/// sample for each interval begun: with `duration / interval` rounded
/// down, that is one more than the quotient where the intervals fill the
/// run exactly, and two more where a last, shorter one is left over.
pub proof fn lemma_sample_count(duration: nat, interval: nat)
    requires
        interval > 0,
    ensures
        duration % interval == 0 ==> 1 + punctual_ticks(0, duration, interval) == duration
            / interval + 1,
        duration % interval != 0 ==> 1 + punctual_ticks(0, duration, interval) == duration
            / interval + 2,
        duration == 0 ==> punctual_ticks(0, duration, interval) == 0,
{
    if duration > 0 {
        lemma_punctual_ticks_cover(0, duration, interval);
        let n = punctual_ticks(0, duration, interval);
        let q = duration / interval;
        let r = duration % interval;
        assert(duration == q * interval + r && 0 <= r < interval) by (nonlinear_arith)
            requires
                q == duration / interval,
                r == duration % interval,
                interval > 0,
        ;
        if r == 0 {
            assert(n == q) by (nonlinear_arith)
                requires
                    (n - 1) * interval < duration,
                    duration <= n * interval,
                    duration == q * interval,
                    interval > 0,
                    n >= 1,
                    q >= 0,
            ;
        } else {
            assert(n == q + 1) by (nonlinear_arith)
                requires
                    (n - 1) * interval < duration,
                    duration <= n * interval,
                    duration == q * interval + r,
                    0 < r < interval,
                    n >= 1,
                    q >= 0,
            ;
        }
    } else {
        assert(0nat % interval == 0 && 0nat / interval == 0) by (nonlinear_arith)
            requires
                interval > 0,
        ;
    }
}

/// In a schedule every sample is taken one interval after the one before
/// it at the earliest.
proof fn lemma_wakes_spread(wakes: Seq<nat>, duration: nat, interval: nat, k: int)
    requires
        sampler_schedule(wakes, duration, interval),
        0 <= k < wakes.len(),
    ensures
        wakes[k] >= (k + 1) * interval,
    decreases k,
{
    if k == 0 {
        assert((0 + 1) * interval == interval) by (nonlinear_arith);
    } else {
        lemma_wakes_spread(wakes, duration, interval, k - 1);
        assert(wakes[k] >= wakes[k - 1] + interval);
        assert((k + 1) * interval == k * interval + interval) by (nonlinear_arith);
        assert(((k - 1) + 1) * interval == k * interval) by (nonlinear_arith);
    }
}

/// A sampler whose pauses run late takes no more samples than a punctual
/// one: the series of any run holds at most two samples more than
/// `duration / interval`, rounded down.
pub proof fn lemma_late_sampler_takes_no_more(wakes: Seq<nat>, duration: nat, interval: nat)
    requires
        interval > 0,
        sampler_schedule(wakes, duration, interval),
    ensures
        wakes.len() <= punctual_ticks(0, duration, interval),
        1 + wakes.len() <= duration / interval + 2,
{
    lemma_sample_count(duration, interval);
    let n = wakes.len() as int;
    if n >= 1 {
        lemma_punctual_ticks_cover(0, duration, interval);
        let p = punctual_ticks(0, duration, interval) as int;
        if n >= 2 {
            lemma_wakes_spread(wakes, duration, interval, n - 2);
            assert(wakes[n - 1] >= wakes[n - 2] + interval);
            assert(n <= p) by (nonlinear_arith)
                requires
                    (n - 1) * interval < duration,
                    duration <= p * interval,
                    interval > 0,
            ;
        }
    }
}

} // verus!
