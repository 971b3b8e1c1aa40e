//! Integer arithmetic shared by the rest of the library: greatest common
//! divisors, rounding-up division, powers of ten and the division that
//! rounds toward zero.

use vstd::arithmetic::div_mod::{
    lemma_fundamental_div_mod, lemma_fundamental_div_mod_converse, lemma_mod_multiples_basic,
    lemma_truncate_middle,
};
use vstd::prelude::*;

verus! {

/// `d` is a positive divisor of `n`.
pub open spec fn divides(d: nat, n: nat) -> bool {
    d != 0 && n % d == 0
}

/// `d` divides both `a` and `b`.
pub open spec fn common_divisor(d: nat, a: nat, b: nat) -> bool {
    divides(d, a) && divides(d, b)
}

/// The greatest common divisor, by Euclid's recursion. It is zero only when
/// both arguments are zero.
pub open spec fn gcd_nat(a: nat, b: nat) -> nat
    decreases b,
{
    if b == 0 {
        a
    } else {
        gcd_nat(b, a % b)
    }
}

/// A divisor of `x` and `y` divides `x * k + y`.
pub proof fn lemma_divides_sum(d: nat, x: nat, y: nat, k: nat)
    requires
        divides(d, x),
        divides(d, y),
    ensures
        divides(d, x * k + y),
{
    let qx = x as int / d as int;
    let qy = y as int / d as int;
    lemma_fundamental_div_mod(x as int, d as int);
    lemma_fundamental_div_mod(y as int, d as int);
    let m = qx * k + qy;
    assert(x * k + y == m * d) by (nonlinear_arith)
        requires
            x == d * qx,
            y == d * qy,
            m == qx * k + qy,
    ;
    lemma_mod_multiples_basic(m, d as int);
}

/// A divisor of `y` and of `y * k + r` divides `r`.
pub proof fn lemma_divides_remainder(d: nat, y: nat, k: nat, r: nat)
    requires
        divides(d, y),
        divides(d, y * k + r),
    ensures
        divides(d, r),
{
    let x = y * k + r;
    let qx = x as int / d as int;
    let qy = y as int / d as int;
    lemma_fundamental_div_mod(x as int, d as int);
    lemma_fundamental_div_mod(y as int, d as int);
    let m = qx - qy * k;
    assert(r == m * d) by (nonlinear_arith)
        requires
            x == d * qx,
            y == d * qy,
            x == y * k + r,
            m == qx - qy * k,
    ;
    lemma_mod_multiples_basic(m, d as int);
}

/// `gcd_nat(a, b)` is positive unless both arguments are zero.
pub proof fn lemma_gcd_positive(a: nat, b: nat)
    requires
        a != 0 || b != 0,
    ensures
        gcd_nat(a, b) > 0,
    decreases b,
{
    if b != 0 {
        lemma_gcd_positive(b, a % b);
    }
}

/// `gcd_nat(a, b)` divides both of its arguments.
pub proof fn lemma_gcd_divides(a: nat, b: nat)
    requires
        a != 0 || b != 0,
    ensures
        common_divisor(gcd_nat(a, b), a, b),
    decreases b,
{
    let g = gcd_nat(a, b);
    lemma_gcd_positive(a, b);
    if b == 0 {
        lemma_mod_multiples_basic(1, a as int);
        assert(0nat % g == 0);
    } else {
        let r = a % b;
        lemma_gcd_divides(b, r);
        lemma_fundamental_div_mod(a as int, b as int);
        let k = a / b;
        assert(b * k + r == a) by (nonlinear_arith)
            requires
                a == b * (a as int / b as int) + r,
                k == a as int / b as int,
        ;
        lemma_divides_sum(g, b, r, k);
    }
}

/// Every common divisor of `a` and `b` divides `gcd_nat(a, b)`, which is
/// therefore the greatest of them.
pub proof fn lemma_gcd_greatest(a: nat, b: nat, d: nat)
    requires
        common_divisor(d, a, b),
    ensures
        gcd_nat(a, b) % d == 0,
        a != 0 || b != 0 ==> d <= gcd_nat(a, b),
    decreases b,
{
    if b != 0 {
        let r = a % b;
        let k = a / b;
        lemma_fundamental_div_mod(a as int, b as int);
        assert(b * k + r == a) by (nonlinear_arith)
            requires
                a == b * (a as int / b as int) + r,
                k == a as int / b as int,
        ;
        lemma_divides_remainder(d, b, k, r);
        lemma_gcd_greatest(b, r, d);
    }
    if a != 0 || b != 0 {
        lemma_gcd_positive(a, b);
        let g = gcd_nat(a, b);
        lemma_fundamental_div_mod(g as int, d as int);
        let q = g as int / d as int;
        assert(d <= g) by (nonlinear_arith)
            requires
                g == d * q,
                g > 0,
                d > 0,
        ;
    }
}

/// Dividing two numbers by their greatest common divisor leaves a pair whose
/// only common divisor is one.
pub proof fn lemma_gcd_quotients_coprime(a: nat, b: nat)
    requires
        a != 0 || b != 0,
    ensures
        gcd_nat(a / gcd_nat(a, b), b / gcd_nat(a, b)) == 1,
{
    let g = gcd_nat(a, b);
    lemma_gcd_positive(a, b);
    lemma_gcd_divides(a, b);
    let qa = a / g;
    let qb = b / g;
    lemma_fundamental_div_mod(a as int, g as int);
    lemma_fundamental_div_mod(b as int, g as int);
    assert(qa != 0 || qb != 0) by (nonlinear_arith)
        requires
            a == g * qa,
            b == g * qb,
            a != 0 || b != 0,
    ;
    let h = gcd_nat(qa, qb);
    lemma_gcd_positive(qa, qb);
    lemma_gcd_divides(qa, qb);
    lemma_fundamental_div_mod(qa as int, h as int);
    lemma_fundamental_div_mod(qb as int, h as int);
    let ka = qa as int / h as int;
    let kb = qb as int / h as int;
    let hg = h * g;
    assert(hg > 0 && a == ka * hg && b == kb * hg && (h > 1 ==> hg > g)) by (nonlinear_arith)
        requires
            a == g * qa,
            b == g * qb,
            qa == h * ka,
            qb == h * kb,
            hg == h * g,
            h > 0,
            g > 0,
    ;
    lemma_mod_multiples_basic(ka, hg as int);
    lemma_mod_multiples_basic(kb, hg as int);
    lemma_gcd_greatest(a, b, hg);
}

/// Multiplying both numbers by `k` multiplies their greatest common divisor
/// by `k`.
pub proof fn lemma_gcd_scales(a: nat, b: nat, k: nat)
    requires
        k > 0,
    ensures
        gcd_nat(k * a, k * b) == k * gcd_nat(a, b),
    decreases b,
{
    if b == 0 {
        assert(k * b == 0) by (nonlinear_arith)
            requires
                b == 0,
        ;
    } else {
        assert(k * b > 0) by (nonlinear_arith)
            requires
                b > 0,
                k > 0,
        ;
        lemma_truncate_middle(a as int, k as int, b as int);
        assert((k * a) % (k * b) == k * (a % b));
        lemma_gcd_scales(b, a % b, k);
    }
}

/// A number that divides a product and shares no divisor with one factor
/// divides the other factor.
pub proof fn lemma_coprime_divides(p: nat, q: nat, r: nat)
    requires
        gcd_nat(p, q) == 1,
        divides(q, p * r),
    ensures
        divides(q, r),
{
    if r == 0 {
        lemma_mod_multiples_basic(0, q as int);
    } else {
        lemma_gcd_scales(p, q, r);
        assert(r * p == p * r && r * gcd_nat(p, q) == r) by (nonlinear_arith)
            requires
                gcd_nat(p, q) == 1,
        ;
        lemma_mod_multiples_basic(r as int, q as int);
        lemma_gcd_greatest(r * p, r * q, q);
    }
}

/// Computes the greatest common divisor of `a` and `b`.
///
/// The result divides both arguments and is a multiple of every other common
/// divisor. `gcd(0, 0)` is zero.
pub fn gcd(a: u64, b: u64) -> (g: u64)
    ensures
        g == gcd_nat(a as nat, b as nat),
        a != 0 || b != 0 ==> common_divisor(g as nat, a as nat, b as nat),
        forall|d: nat| common_divisor(d, a as nat, b as nat) ==> #[trigger] (g as nat % d) == 0,
        a == 0 && b == 0 ==> g == 0,
{
    let mut x: u64 = a;
    let mut y: u64 = b;
    while y != 0
        invariant
            gcd_nat(x as nat, y as nat) == gcd_nat(a as nat, b as nat),
        decreases y,
    {
        let r: u64 = x % y;
        x = y;
        y = r;
    }
    proof {
        if a != 0 || b != 0 {
            lemma_gcd_divides(a as nat, b as nat);
        }
        assert forall|d: nat| common_divisor(d, a as nat, b as nat) implies #[trigger] (x as nat
            % d) == 0 by {
            lemma_gcd_greatest(a as nat, b as nat, d);
        }
    }
    x
}

/// Quotient and remainder by a positive divisor rebuild the dividend.
pub proof fn lemma_div_mod_split(x: int, d: int)
    requires
        d > 0,
    ensures
        x == (x / d) * d + x % d,
        0 <= x % d < d,
{
    lemma_fundamental_div_mod(x, d);
    assert((x / d) * d == d * (x / d)) by (nonlinear_arith);
}

/// Whatever splits `x` into `q` multiples of `d` and a remainder below `d`
/// is the quotient and remainder of `x` by `d`.
pub proof fn lemma_div_mod_parts(x: int, d: int, q: int, r: int)
    requires
        d > 0,
        0 <= r < d,
        x == q * d + r,
    ensures
        x / d == q,
        x % d == r,
{
    lemma_fundamental_div_mod_converse(x, d, q, r);
}

/// `a / b` rounded up: the least `q` with `q * b >= a`, for `b > 0`.
pub open spec fn ceil_div(a: int, b: int) -> int {
    (a + b - 1) / b
}

/// `ceil_div(a, b)` is the least multiple count of `b` that reaches `a`.
pub proof fn lemma_ceil_div_bounds(a: int, b: int)
    requires
        b > 0,
    ensures
        (ceil_div(a, b) - 1) * b < a <= ceil_div(a, b) * b,
{
    let q = ceil_div(a, b);
    let r = (a + b - 1) % b;
    lemma_fundamental_div_mod(a + b - 1, b);
    assert((q - 1) * b < a <= q * b) by (nonlinear_arith)
        requires
            a + b - 1 == b * q + r,
            0 <= r < b,
    ;
}

/// Any `q` that brackets `a` between `(q - 1) * b` and `q * b` is `ceil_div(a, b)`.
pub proof fn lemma_ceil_div_unique(a: int, b: int, q: int)
    requires
        b > 0,
        (q - 1) * b < a <= q * b,
    ensures
        ceil_div(a, b) == q,
{
    let r = a + b - 1 - q * b;
    assert(0 <= r < b && a + b - 1 == q * b + r) by (nonlinear_arith)
        requires
            (q - 1) * b < a <= q * b,
            r == a + b - 1 - q * b,
    ;
    lemma_fundamental_div_mod_converse(a + b - 1, b, q, r);
}

/// Rounding up keeps the order of the dividends.
pub proof fn lemma_ceil_div_ordered(a: int, b: int, d: int)
    requires
        d > 0,
        a <= b,
    ensures
        ceil_div(a, d) <= ceil_div(b, d),
{
    let qa = ceil_div(a, d);
    let qb = ceil_div(b, d);
    lemma_ceil_div_bounds(a, d);
    lemma_ceil_div_bounds(b, d);
    assert(qa <= qb) by (nonlinear_arith)
        requires
            (qa - 1) * d < a,
            a <= b,
            b <= qb * d,
            d > 0,
    ;
}

/// Adding `m` whole multiples of `b` to `a` adds `m` to the rounded-up quotient.
pub proof fn lemma_ceil_div_shift(a: int, b: int, m: int)
    requires
        b > 0,
    ensures
        ceil_div(a + m * b, b) == ceil_div(a, b) + m,
{
    let q = ceil_div(a, b);
    lemma_ceil_div_bounds(a, b);
    assert((q + m - 1) * b < a + m * b <= (q + m) * b) by (nonlinear_arith)
        requires
            (q - 1) * b < a <= q * b,
    ;
    lemma_ceil_div_unique(a + m * b, b, q + m);
}

/// `a / b` rounded up, for `b > 0`.
pub fn div_ceil(a: u64, b: u64) -> (q: u64)
    requires
        b > 0,
    ensures
        q == ceil_div(a as int, b as int),
        q <= a,
{
    let d: u64 = a / b;
    let r: u64 = a % b;
    proof {
        lemma_fundamental_div_mod(a as int, b as int);
        let dd = d as int;
        let bb = b as int;
        if r == 0 {
            assert((dd - 1) * bb < a <= dd * bb) by (nonlinear_arith)
                requires
                    a == bb * dd,
                    bb > 0,
            ;
            lemma_ceil_div_unique(a as int, bb, dd);
            assert(dd <= a) by (nonlinear_arith)
                requires
                    a == bb * dd,
                    bb > 0,
                    dd >= 0,
            ;
        } else {
            assert(dd * bb < a <= (dd + 1) * bb && dd + 1 <= a) by (nonlinear_arith)
                requires
                    a == bb * dd + r,
                    0 < r < bb,
                    dd >= 0,
            ;
            lemma_ceil_div_unique(a as int, bb, dd + 1);
        }
    }
    if r == 0 {
        d
    } else {
        d + 1
    }
}

/// Ten to the power of `n`.
pub open spec fn pow10(n: nat) -> int
    decreases n,
{
    if n == 0 {
        1
    } else {
        10 * pow10((n - 1) as nat)
    }
}

/// The distance of `a` from zero.
pub open spec fn abs_int(a: int) -> int {
    if a >= 0 {
        a
    } else {
        -a
    }
}

/// Division that rounds toward zero, as the machine's signed division does.
pub open spec fn trunc_div(a: int, b: int) -> int {
    if (a >= 0) == (b > 0) {
        abs_int(a) / abs_int(b)
    } else {
        -(abs_int(a) / abs_int(b))
    }
}

/// The remainder that goes with `trunc_div`; it takes the sign of `a`.
pub open spec fn trunc_rem(a: int, b: int) -> int {
    if a >= 0 {
        abs_int(a) % abs_int(b)
    } else {
        -(abs_int(a) % abs_int(b))
    }
}

/// Truncated quotient and remainder rebuild the dividend, and the remainder
/// is smaller in magnitude than the divisor.
pub proof fn lemma_trunc_div_rem(a: int, b: int)
    requires
        b != 0,
    ensures
        a == b * trunc_div(a, b) + trunc_rem(a, b),
        abs_int(trunc_rem(a, b)) < abs_int(b),
        abs_int(trunc_div(a, b)) <= abs_int(a),
{
    let x = abs_int(a);
    let d = abs_int(b);
    let q = x / d;
    let r = x % d;
    lemma_fundamental_div_mod(x, d);
    assert(b * trunc_div(a, b) + trunc_rem(a, b) == a && 0 <= q <= x) by (nonlinear_arith)
        requires
            x == d * q + r,
            0 <= r < d,
            x == abs_int(a),
            d == abs_int(b),
            b != 0,
            trunc_div(a, b) == if (a >= 0) == (b > 0) {
                q
            } else {
                -q
            },
            trunc_rem(a, b) == if a >= 0 {
                r
            } else {
                -r
            },
    ;
}

/// The machine refuses exactly one signed division by a non-zero divisor:
/// the least 64-bit value divided by minus one, whose quotient does not fit.
pub open spec fn div_overflows(a: int, b: int) -> bool {
    a == i64::MIN && b == -1
}

/// Apart from that one case, quotient and remainder of 64-bit values fit 64
/// bits; both are zero when the dividend is.
pub proof fn lemma_trunc_div_fits(a: int, b: int)
    requires
        i64::MIN <= a <= i64::MAX,
        i64::MIN <= b <= i64::MAX,
        b != 0,
        !div_overflows(a, b),
    ensures
        i64::MIN <= trunc_div(a, b) <= i64::MAX,
        i64::MIN <= trunc_rem(a, b) <= i64::MAX,
        a == 0 ==> trunc_div(a, b) == 0 && trunc_rem(a, b) == 0,
{
    lemma_trunc_div_rem(a, b);
    let x = abs_int(a);
    let d = abs_int(b);
    let q = x / d;
    let r = x % d;
    lemma_fundamental_div_mod(x, d);
    if a == i64::MIN && b < 0 {
        assert(q <= i64::MAX) by (nonlinear_arith)
            requires
                x == d * q + r,
                0 <= r,
                d >= 2,
                x == 0x8000_0000_0000_0000,
        ;
    }
}

/// `trunc_div` and `trunc_rem` written with the rounding-down division of
/// specifications applied to the divisor as it stands, sign included.
pub proof fn lemma_trunc_by_floor(a: int, b: int)
    requires
        b != 0,
    ensures
        trunc_div(a, b) == if a >= 0 {
            a / b
        } else {
            -((-a) / b)
        },
        trunc_rem(a, b) == if a >= 0 {
            a % b
        } else {
            -((-a) % b)
        },
{
    if b < 0 {
        let x = abs_int(a);
        let q = x / b;
        let r = x % b;
        lemma_fundamental_div_mod(x, b);
        assert(0 <= r < -b) by (nonlinear_arith)
            requires
                r == x % b,
                b < 0,
        ;
        assert(x == (-q) * (-b) + r) by (nonlinear_arith)
            requires
                x == b * q + r,
        ;
        lemma_fundamental_div_mod_converse(x, -b, -q, r);
    }
}

} // verus!
