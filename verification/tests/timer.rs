use rp1::addr::{RAW_TIMER_HIGH, RAW_TIMER_LOW};
use rp1::timer::{combine, elapsed_us, stable_reading, RawTimer};

#[test]
fn raw_timer_register_contract_matches_recovered_map() {
    assert_eq!(RAW_TIMER_HIGH, 0x400a_c024);
    assert_eq!(RAW_TIMER_LOW, 0x400a_c028);
}

#[test]
fn combines_stable_high_and_low_words() {
    assert_eq!(combine(0x0123_4567, 0x89ab_cdef), 0x0123_4567_89ab_cdef);
}

#[test]
fn elapsed_time_wraps_like_the_hardware_counter() {
    assert_eq!(elapsed_us(u64::MAX - 4, 7), 12);
}

#[test]
fn torn_reads_are_retried_and_delays_wrap() {
    assert_eq!(stable_reading(1, 2, 1), Some(0x1_0000_0002));
    assert_eq!(stable_reading(1, 2, 2), None);
    let timer = RawTimer { private: () };
    assert!(timer.delay_pending(u64::MAX - 1, 3, 10));
    assert!(!timer.delay_pending(u64::MAX - 1, 8, 10));
    assert_eq!(timer.elapsed_since(5, 4), u64::MAX);
}
