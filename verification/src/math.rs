use vstd::prelude::*;
use vstd::arithmetic::div_mod::{
    lemma_div_by_multiple, lemma_fundamental_div_mod, lemma_fundamental_div_mod_converse, lemma_mod_self_0,
    lemma_small_mod,
};

verus! {

/// `d` divides `n`: some natural number `k` has `n == d * k`.
pub open spec fn divides(d: nat, n: nat) -> bool {
    exists|k: nat| n == #[trigger] (d * k)
}

/// Greatest common divisor, by Euclid's algorithm.
pub open spec fn spec_gcd(a: nat, b: nat) -> nat
    decreases b,
{
    if b == 0 {
        a
    } else {
        spec_gcd(b, a % b)
    }
}

/// Least common multiple, as `a * (b / gcd(a, b))`.
pub open spec fn spec_lcm(a: nat, b: nat) -> nat {
    a * (b / spec_gcd(a, b))
}

/// Greatest common divisor of two numbers (`gcd(0, 0) == 0`).
pub fn gcd(a: u32, b: u32) -> (r: u32)
    ensures
        r == spec_gcd(a as nat, b as nat),
{
    let mut a = a;
    let mut b = b;
    if a == b {
        proof {
            if a > 0 {
                lemma_mod_self_0(a as int);
                assert(spec_gcd(a as nat, 0) == a);
            }
        }
        return a;
    }
    let ghost g = spec_gcd(a as nat, b as nat);
    if b > a {
        proof {
            lemma_small_mod(a as nat, b as nat);
        }
        let temp = a;
        a = b;
        b = temp;
    }
    while b > 0
        invariant
            spec_gcd(a as nat, b as nat) == g,
        decreases b,
    {
        let temp = a;
        a = b;
        b = temp % b;
    }
    a
}

/// Least common multiple of two numbers, computed as `a * (b / gcd(a, b))`.
/// Both numbers cannot be zero, and the result must fit in a `u32`.
pub fn lcm(a: u32, b: u32) -> (r: u32)
    requires
        a > 0 || b > 0,
        spec_lcm(a as nat, b as nat) <= u32::MAX,
    ensures
        r == spec_lcm(a as nat, b as nat),
{
    let g = gcd(a, b);
    proof {
        lemma_gcd_positive(a as nat, b as nat);
    }
    let q = b / g;
    a * q
}

proof fn lemma_gcd_positive(a: nat, b: nat)
    requires
        a > 0 || b > 0,
    ensures
        spec_gcd(a, b) > 0,
    decreases b,
{
    if b > 0 {
        lemma_gcd_positive(b, a % b);
    }
}

proof fn lemma_divides_mod(d: nat, a: nat, b: nat)
    requires
        b > 0,
        divides(d, a),
        divides(d, b),
    ensures
        divides(d, a % b),
{
    let j = choose|j: nat| a == #[trigger] (d * j);
    let k = choose|k: nat| b == #[trigger] (d * k);
    lemma_fundamental_div_mod(a as int, b as int);
    let q = a / b;
    assert(b * q == d * k * q) by (nonlinear_arith)
        requires
            b == d * k,
    ;
    assert(a % b == d * j - d * k * q);
    assert(d * j - d * k * q == d * (j - k * q)) by (nonlinear_arith);
    if d == 0 {
        assert(b == 0) by (nonlinear_arith)
            requires
                b == d * k,
                d == 0,
        ;
    } else {
        assert(j - k * q >= 0) by (nonlinear_arith)
            requires
                d * j - d * k * q == d * (j - k * q),
                d * j - d * k * q == a % b,
                a % b >= 0,
                d > 0,
        ;
        let w: nat = (j - k * q) as nat;
        assert(a % b == d * w);
    }
}

proof fn lemma_divides_from_mod(d: nat, a: nat, b: nat)
    requires
        b > 0,
        divides(d, b),
        divides(d, a % b),
    ensures
        divides(d, a),
{
    let k = choose|k: nat| b == #[trigger] (d * k);
    let m = choose|m: nat| a % b == #[trigger] (d * m);
    lemma_fundamental_div_mod(a as int, b as int);
    let q = (a / b) as nat;
    assert(a == d * (k * q + m)) by (nonlinear_arith)
        requires
            a == b * q + a % b,
            b == d * k,
            a % b == d * m,
    ;
    let w: nat = k * q + m;
    assert(a == d * w);
}

/// The greatest common divisor divides both numbers.
pub proof fn lemma_gcd_divides_both(a: nat, b: nat)
    ensures
        divides(spec_gcd(a, b), a),
        divides(spec_gcd(a, b), b),
    decreases b,
{
    let g = spec_gcd(a, b);
    if b == 0 {
        assert(a == g * 1nat);
        assert(b == g * 0nat);
    } else {
        lemma_gcd_divides_both(b, a % b);
        lemma_divides_from_mod(g, a, b);
    }
}

/// Every common divisor of two numbers divides their greatest common divisor.
pub proof fn lemma_gcd_greatest(a: nat, b: nat, d: nat)
    requires
        divides(d, a),
        divides(d, b),
    ensures
        divides(d, spec_gcd(a, b)),
    decreases b,
{
    if b > 0 {
        lemma_divides_mod(d, a, b);
        lemma_gcd_greatest(b, a % b, d);
    }
}

/// The greatest common divisor does not depend on the order of its arguments.
pub proof fn lemma_gcd_commutative(a: nat, b: nat)
    ensures
        spec_gcd(a, b) == spec_gcd(b, a),
{
    if a == b {
    } else if a < b {
        lemma_small_mod(a, b);
    } else {
        lemma_small_mod(b, a);
    }
}

/// The least common multiple is a multiple of both numbers, and multiplied by
/// the greatest common divisor it gives their product.
pub proof fn lemma_lcm_common_multiple(a: nat, b: nat)
    requires
        a > 0 || b > 0,
    ensures
        divides(a, spec_lcm(a, b)),
        divides(b, spec_lcm(a, b)),
        spec_lcm(a, b) * spec_gcd(a, b) == a * b,
{
    let g = spec_gcd(a, b);
    lemma_gcd_positive(a, b);
    lemma_gcd_divides_both(a, b);
    let j = choose|j: nat| a == #[trigger] (g * j);
    let k = choose|k: nat| b == #[trigger] (g * k);
    assert(b / g == k) by {
        lemma_div_by_multiple(k as int, g as int);
        assert(k * g == g * k) by (nonlinear_arith);
    }
    let l = spec_lcm(a, b);
    assert(l == a * k);
    assert(l == b * j) by (nonlinear_arith)
        requires
            l == a * k,
            a == g * j,
            b == g * k,
    ;
    assert(l * g == a * b) by (nonlinear_arith)
        requires
            l == a * k,
            b == g * k,
    ;
}

proof fn lemma_mod_scale(c: nat, x: nat, y: nat)
    requires
        c > 0,
        y > 0,
    ensures
        (c * x) % (c * y) == c * (x % y),
{
    lemma_fundamental_div_mod(x as int, y as int);
    let q = x / y;
    let r = x % y;
    assert(c * x == q * (c * y) + c * r && 0 <= c * r < c * y) by (nonlinear_arith)
        requires
            x == y * q + r,
            0 <= r < y,
            c > 0,
    ;
    lemma_fundamental_div_mod_converse((c * x) as int, (c * y) as int, q as int, (c * r) as int);
}

proof fn lemma_gcd_scale(c: nat, x: nat, y: nat)
    requires
        c > 0,
    ensures
        spec_gcd(c * x, c * y) == c * spec_gcd(x, y),
    decreases y,
{
    if y == 0 {
        assert(c * y == 0) by (nonlinear_arith)
            requires
                y == 0,
        ;
    } else {
        assert(c * y > 0) by (nonlinear_arith)
            requires
                c > 0,
                y > 0,
        ;
        lemma_mod_scale(c, x, y);
        lemma_gcd_scale(c, y, x % y);
    }
}

/// The least common multiple divides every common multiple of the two
/// numbers.
pub proof fn lemma_lcm_least(a: nat, b: nat, m: nat)
    requires
        a > 0 || b > 0,
        divides(a, m),
        divides(b, m),
    ensures
        divides(spec_lcm(a, b), m),
{
    let l = spec_lcm(a, b);
    let s = choose|s: nat| m == #[trigger] (a * s);
    let t = choose|t: nat| m == #[trigger] (b * t);
    lemma_lcm_common_multiple(a, b);
    if a == 0 || b == 0 || s == 0 {
        assert(m == 0) by (nonlinear_arith)
            requires
                m == a * s,
                m == b * t,
                a == 0 || b == 0 || s == 0,
        ;
        assert(m == l * 0nat);
    } else {
        let g = spec_gcd(a, b);
        lemma_gcd_positive(a, b);
        lemma_gcd_divides_both(a, b);
        let j = choose|j: nat| a == #[trigger] (g * j);
        let k = choose|k: nat| b == #[trigger] (g * k);
        // The cofactors are coprime.
        lemma_gcd_scale(g, j, k);
        assert(spec_gcd(j, k) == 1) by (nonlinear_arith)
            requires
                g * spec_gcd(j, k) == g,
                g > 0,
        ;
        // `k` divides `j * s`, hence `s`.
        assert(j * s == k * t) by (nonlinear_arith)
            requires
                m == a * s,
                m == b * t,
                a == g * j,
                b == g * k,
                g > 0,
        ;
        assert(divides(k, j * s));
        assert(divides(k, k * s));
        lemma_gcd_greatest(j * s, k * s, k);
        lemma_gcd_scale(s, j, k);
        assert(s * j == j * s && s * k == k * s && s * 1 == s) by (nonlinear_arith);
        assert(divides(k, s));
        let w = choose|w: nat| s == #[trigger] (k * w);
        assert(b / g == k) by {
            lemma_div_by_multiple(k as int, g as int);
            assert(k * g == g * k) by (nonlinear_arith);
        }
        assert(m == l * w) by (nonlinear_arith)
            requires
                m == a * s,
                s == k * w,
                l == a * k,
        ;
    }
}

} // verus!
