use crafty::math::{gcd, lcm};

#[test]
fn test_lcm() {
    assert_eq!(lcm(3, 2), 6);
    assert_eq!(lcm(1, 5), 5);
    assert_eq!(lcm(3, 5), 15);
    assert_eq!(lcm(7, 7), 7);
    assert_eq!(lcm(15, 10), 30);
    assert_eq!(lcm(15, 30), 30);
    assert_eq!(lcm(6, 35), 210);
}

#[test]
fn test_gcm() {
    assert_eq!(gcd(3, 2), 1);
    assert_eq!(gcd(3, 6), 3);
    assert_eq!(gcd(8, 8), 8);
    assert_eq!(gcd(1, 9), 1);
    assert_eq!(gcd(10, 15), 5);
}

#[test]
fn gcd_with_zero_and_order() {
    assert_eq!(gcd(0, 0), 0);
    assert_eq!(gcd(0, 7), 7);
    assert_eq!(gcd(7, 0), 7);
    assert_eq!(gcd(12, 18), gcd(18, 12));
    assert_eq!(gcd(4294967295, 65535), 65535);
}

#[test]
fn lcm_times_gcd_is_product() {
    for (a, b) in [(4u32, 6u32), (9, 12), (21, 6), (0, 5), (5, 0), (1, 1)] {
        assert_eq!(lcm(a, b) as u64 * gcd(a, b) as u64, a as u64 * b as u64);
        if a > 0 && b > 0 {
            assert_eq!(lcm(a, b) % a, 0);
            assert_eq!(lcm(a, b) % b, 0);
        }
    }
}

#[test]
fn lcm_divides_common_multiples() {
    for (a, b) in [(4u32, 6u32), (9, 12), (15, 10), (7, 7)] {
        let l = lcm(a, b);
        for m in 1..=400u32 {
            if m % a == 0 && m % b == 0 {
                assert_eq!(m % l, 0);
                assert!(l <= m);
            }
        }
    }
    assert_eq!(lcm(4, 6), 12);
}
