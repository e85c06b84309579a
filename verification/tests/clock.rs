use ipc_source::rtp_clock::{rtp_delta, rtp_ticks, FALLBACK_DELTA};

#[test]
fn microseconds_become_90_khz_ticks() {
    assert_eq!(rtp_ticks(0), 0);
    assert_eq!(rtp_ticks(11), 0);
    assert_eq!(rtp_ticks(12), 1);
    assert_eq!(rtp_ticks(1_000_000), 90_000);
    assert_eq!(rtp_ticks(33_333), 2_999);
}

#[test]
fn a_second_is_90000_ticks() {
    for pts in [0u64, 7, 47_721_858_844, u64::MAX - 1_000_000] {
        assert_eq!(rtp_ticks(pts + 1_000_000), rtp_ticks(pts) + 90_000);
    }
}

#[test]
fn largest_timestamp_has_its_ticks() {
    assert_eq!(rtp_ticks(u64::MAX) as u128, u64::MAX as u128 * 9 / 100);
}

#[test]
fn deltas() {
    assert_eq!(FALLBACK_DELTA, 3000);
    assert_eq!(rtp_delta(None, 500), 0);
    assert_eq!(rtp_delta(Some(500), 3500), 3000);
    assert_eq!(rtp_delta(Some(500), 501), 1);
    assert_eq!(rtp_delta(Some(500), 500), FALLBACK_DELTA);
    assert_eq!(rtp_delta(Some(500), 499), FALLBACK_DELTA);
    assert_eq!(rtp_delta(Some(0), u32::MAX as u64), u32::MAX);
}

#[test]
fn the_wrap_of_the_clock_is_no_regression() {
    let wrap = 1u64 << 32;
    assert_eq!(rtp_delta(Some(wrap - 1000), wrap + 2600), 3600);
    assert_eq!(rtp_delta(Some(wrap - 1), wrap), 1);
    assert_eq!(rtp_delta(Some(5), wrap + 10), 5);
    assert_eq!(rtp_delta(Some(wrap + 10), 5), FALLBACK_DELTA);
    assert_eq!(rtp_delta(Some(0), wrap - 1), u32::MAX);

    // Two frames 40 ms apart, on both sides of the wrap.
    let before = 47_721_858_000u64;
    let after = before + 40_000;
    assert!(rtp_ticks(before) < wrap && wrap <= rtp_ticks(after));
    assert_eq!(rtp_delta(Some(rtp_ticks(before)), rtp_ticks(after)), 3600);
}

#[test]
fn rising_deltas_add_up() {
    let wrap = 1u64 << 32;
    let times = [100u64, 3100, 6099, 9101, wrap - 5, wrap + 7, 3 * wrap + 8];
    let mut last = None;
    let mut clock = u32::MAX - 10;
    for ticks in times {
        clock = clock.wrapping_add(rtp_delta(last, ticks));
        last = Some(ticks);
    }
    assert_eq!(clock, (u32::MAX - 10).wrapping_add((3 * wrap + 8 - 100) as u32));
}
