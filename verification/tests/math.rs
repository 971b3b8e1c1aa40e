use gametime::gcd;
use gametime::math::div_ceil;

#[test]
fn gcd_of_known_pairs() {
    assert_eq!(gcd(0, 0), 0);
    assert_eq!(gcd(0, 9), 9);
    assert_eq!(gcd(9, 0), 9);
    assert_eq!(gcd(3, 10), 1);
    assert_eq!(gcd(12, 18), 6);
    assert_eq!(gcd(18, 12), 6);
    assert_eq!(gcd(u64::MAX, u64::MAX), u64::MAX);
    assert_eq!(gcd(1_000_000_000, 60), 20);
}

#[test]
fn gcd_divides_and_is_greatest() {
    for a in 0u64..40 {
        for b in 1u64..40 {
            let g = gcd(a, b);
            assert_eq!(a % g, 0);
            assert_eq!(b % g, 0);
            for d in 1..=b {
                if a % d == 0 && b % d == 0 {
                    assert_eq!(g % d, 0);
                }
            }
            assert_eq!(gcd(a / g, b / g), 1);
        }
    }
}

#[test]
fn div_ceil_rounds_up() {
    assert_eq!(div_ceil(0, 3), 0);
    assert_eq!(div_ceil(1, 3), 1);
    assert_eq!(div_ceil(3, 3), 1);
    assert_eq!(div_ceil(4, 3), 2);
    assert_eq!(div_ceil(10, 3), 4);
    assert_eq!(div_ceil(u64::MAX, 1), u64::MAX);
    assert_eq!(div_ceil(u64::MAX, u64::MAX), 1);
    assert_eq!(div_ceil(u64::MAX, 2), 1 << 63);
}
