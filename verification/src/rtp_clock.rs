//! From presentation timestamps to RTP timestamp deltas.
#[allow(unused_imports)]
use vstd::arithmetic::div_mod::{lemma_add_mod_noop, lemma_add_mod_noop_right};
use vstd::prelude::*;

verus! {

/// Fallback RTP timestamp delta for the very rare case of a presentation timestamp that does not
/// advance: one frame at 30 frames per second. It only covers brief regressions, not steady-state
/// playback, so the exact rate does not matter much.
pub const FALLBACK_DELTA: u32 = 90000 / 30;

/// A presentation timestamp in ticks of 90 kHz. They are not cut to the 32 bits of the RTP clock,
/// so that time goes on where the clock wraps.
pub open spec fn ticks_of(pts_us: u64) -> u64 {
    (pts_us * 9 / 100) as u64
}

/// By how much the RTP clock, which wraps at 32 bits, advances at a frame at `ticks` when the frame
/// before it was at `last`.
pub open spec fn delta_of(last: Option<u64>, ticks: u64) -> u32 {
    match last {
        Some(prev) => if ticks > prev {
            wrapped(ticks - prev)
        } else {
            FALLBACK_DELTA
        },
        None => 0,
    }
}

/// A number of ticks as the RTP clock counts it.
pub open spec fn wrapped(ticks: int) -> u32 {
    (ticks % 0x1_0000_0000) as u32
}

/// Two 32-bit clock values added, wrapping as the clock does.
pub open spec fn clock_add(clock: u32, delta: u32) -> u32 {
    wrapped(clock + delta)
}

/// A presentation timestamp in ticks of 90 kHz.
pub fn rtp_ticks(pts_us: u64) -> (ticks: u64)
    ensures
        ticks == ticks_of(pts_us),
{
    (pts_us as u128 * 9 / 100) as u64
}

/// By how much the RTP clock advances at a frame.
pub fn rtp_delta(last: Option<u64>, ticks: u64) -> (delta: u32)
    ensures
        delta == delta_of(last, ticks),
{
    match last {
        Some(prev) => if ticks > prev {
            ((ticks - prev) % 0x1_0000_0000) as u32
        } else {
            FALLBACK_DELTA
        },
        None => 0,
    }
}

/// What the RTP clock shows after frames at `times`, when it showed `clock` before them and the
/// frame before them was at `last`.
pub open spec fn clock_after(clock: u32, last: Option<u64>, times: Seq<u64>) -> u32
    decreases times.len(),
{
    if times.len() == 0 {
        clock
    } else {
        clock_after(clock_add(clock, delta_of(last, times[0])), Some(times[0]), times.skip(1))
    }
}

/// The last of `times`, or `last` if there is none.
pub open spec fn last_of(last: Option<u64>, times: Seq<u64>) -> Option<u64> {
    if times.len() == 0 {
        last
    } else {
        Some(times.last())
    }
}

/// One more frame advances the clock by one more delta.
pub proof fn lemma_clock_after_push(clock: u32, last: Option<u64>, times: Seq<u64>, ticks: u64)
    ensures
        clock_after(clock, last, times.push(ticks)) == clock_add(
            clock_after(clock, last, times),
            delta_of(last_of(last, times), ticks),
        ),
    decreases times.len(),
{
    if times.len() == 0 {
        assert(times.push(ticks).skip(1) =~= Seq::<u64>::empty());
        reveal_with_fuel(clock_after, 2);
    } else {
        assert(times.push(ticks).skip(1) =~= times.skip(1).push(ticks));
        lemma_clock_after_push(
            clock_add(clock, delta_of(last, times[0])),
            Some(times[0]),
            times.skip(1),
            ticks,
        );
    }
}

/// Whether each time is later than those before it.
pub open spec fn rising(times: Seq<u64>) -> bool {
    forall|i: int, j: int| 0 <= i < j < times.len() ==> times[i] < times[j]
}

/// A presentation timestamp is counted in whole ticks, of which there are nine in a hundred
/// microseconds.
pub proof fn law_nine_ticks_in_a_hundred_microseconds(pts_us: u64, ticks: u64)
    requires
        call_ensures(rtp_ticks, (pts_us,), ticks),
    ensures
        100 * ticks <= 9 * pts_us < 100 * (ticks + 1),
{
}

/// The clock advances by the ticks since the frame before, as far as 32 bits show them; by 3000
/// where there are none; and not at all at the first frame.
pub proof fn law_delta_is_the_time_since_the_frame_before(
    last: Option<u64>,
    ticks: u64,
    delta: u32,
)
    requires
        call_ensures(rtp_delta, (last, ticks), delta),
    ensures
        match last {
            None => delta == 0,
            Some(prev) => if ticks <= prev {
                delta == 3000
            } else {
                (ticks - prev - delta) % 0x1_0000_0000 == 0
            },
        },
{
}

/// A second of presentation time is 90000 ticks.
pub proof fn law_clock_runs_at_90_khz(pts_us: u64)
    requires
        pts_us + 1_000_000 <= u64::MAX,
    ensures
        ticks_of((pts_us + 1_000_000) as u64) == ticks_of(pts_us) + 90000,
{
    assert((pts_us + 1_000_000) * 9 / 100 == pts_us * 9 / 100 + 90000);
}

/// A presentation timestamp that advances, by the length of a tick or more, is at a later tick, and
/// the clock advances by the ticks in between: the fallback is for timestamps that do not advance,
/// and not for the clock's own wrap.
pub proof fn law_rising_timestamp_needs_no_fallback(before_us: u64, after_us: u64)
    requires
        before_us + 12 <= after_us,
    ensures
        ticks_of(before_us) < ticks_of(after_us),
        delta_of(Some(ticks_of(before_us)), ticks_of(after_us)) == wrapped(
            ticks_of(after_us) - ticks_of(before_us),
        ),
{
}

/// Wrapping along the way changes nothing: advancing by `a` and then by `b` is advancing by both.
proof fn lemma_clock_add_twice(clock: u32, a: int, b: int)
    requires
        0 <= a,
        0 <= b,
    ensures
        clock_add(clock_add(clock, wrapped(a)), wrapped(b)) == clock_add(clock, wrapped(a + b)),
{
    let m = 0x1_0000_0000int;
    lemma_add_mod_noop(clock + a % m, b, m);
    lemma_add_mod_noop_right(clock + b, a, m);
    lemma_add_mod_noop_right(clock as int, a + b, m);
}

/// Advancing by `ticks` and then by a delta is advancing by both.
pub proof fn lemma_clock_add_more(clock: u32, ticks: int, delta: u32)
    requires
        0 <= ticks,
    ensures
        clock_add(clock_add(clock, wrapped(ticks)), delta) == clock_add(
            clock,
            wrapped(ticks + delta),
        ),
{
    lemma_clock_add_twice(clock, ticks, delta as int);
}

/// While the timestamps rise, the RTP clock advances by exactly the time between the last of them
/// and the one it started from: no drift builds up frame by frame, and the wraps of the clock
/// neither.
pub proof fn law_clock_follows_timestamps(clock: u32, last: u64, times: Seq<u64>)
    requires
        times.len() > 0,
        last < times[0],
        rising(times),
    ensures
        clock_after(clock, Some(last), times) == clock_add(clock, wrapped(times.last() - last)),
    decreases times.len(),
{
    let next = clock_add(clock, delta_of(Some(last), times[0]));
    let rest = times.skip(1);
    if times.len() == 1 {
        assert(clock_after(next, Some(times[0]), rest) == next);
    } else {
        assert(rest[0] == times[1]);
        assert(rest.last() == times.last());
        law_clock_follows_timestamps(next, times[0], rest);
        lemma_clock_add_twice(clock, times[0] - last, times.last() - times[0]);
    }
}

/// The first frame of a stream does not move the RTP clock; from there on the clock follows the
/// timestamps while they rise.
pub proof fn law_clock_starts_at_first_frame(clock: u32, times: Seq<u64>)
    requires
        times.len() > 0,
        rising(times),
    ensures
        clock_after(clock, None, times) == clock_add(clock, wrapped(times.last() - times[0])),
{
    let rest = times.skip(1);
    assert(clock_add(clock, 0) == clock);
    if times.len() == 1 {
        assert(clock_after(clock, Some(times[0]), rest) == clock);
    } else {
        assert(rest[0] == times[1]);
        assert(rest.last() == times.last());
        law_clock_follows_timestamps(clock, times[0], rest);
    }
}

} // verus!
