use novelter::pacing::{isqrt, PacingPolicy};

#[test]
fn isqrt_exact_values() {
    assert_eq!(isqrt(0), 0);
    assert_eq!(isqrt(1), 1);
    assert_eq!(isqrt(3), 1);
    assert_eq!(isqrt(4), 2);
    assert_eq!(isqrt(35), 5);
    assert_eq!(isqrt(36), 6);
    assert_eq!(isqrt(1_000_000), 1_000);
    assert_eq!(isqrt(u64::MAX as u128), 4_294_967_295);
}

#[test]
fn delay_stays_inside_envelope() {
    let p = PacingPolicy::standard();
    for &n in &[1u64, 2, 29, 30, 31, 1000] {
        let d = p.delay_ms(n);
        assert!(d >= p.min_delay_ms);
        let above = (d - p.min_delay_ms) as u128;
        let budget =
            (p.base_max_ms as u128) * (p.base_max_ms as u128) * (n as u128) / (p.reference_count as u128);
        assert!(above * above <= budget);
    }
}

#[test]
fn delay_of_empty_crawl_is_the_floor() {
    let p = PacingPolicy::standard();
    assert_eq!(p.delay_ms(0), 1_000);
}

#[test]
fn standard_policy_parameters() {
    let p = PacingPolicy::standard();
    assert_eq!(p.min_delay_ms, 1_000);
    assert_eq!(p.base_max_ms, 180_000);
    assert_eq!(p.reference_count, 30);
}
