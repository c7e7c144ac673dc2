//! Single-precision arithmetic on positive values, computed exactly with integers.
//!
//! A value is carried times `2^64`, so that every single-precision value from
//! `2^-41` upwards is an integer. Each operation rounds its exact result to the
//! nearest single-precision value, ties to an even significand, as the
//! processor does for `f32`.
use vstd::prelude::*;
use crate::utils::scale::div_round_half_even;

verus! {

/// `2^k`.
pub open spec fn two_pow(k: nat) -> nat
    decreases k,
{
    if k == 0 {
        1
    } else {
        2 * two_pow((k - 1) as nat)
    }
}

/// `e` is the binade of the positive ratio `p / q` at scale `2^64`: the ratio,
/// times `2^64 / 2^e`, lies in `[2^23, 2^24)`.
pub open spec fn in_binade(p: nat, q: nat, e: nat) -> bool {
    &&& two_pow(23) * two_pow(e) * q <= p * two_pow(64)
    &&& p * two_pow(64) < two_pow(24) * two_pow(e) * q
}

/// The binade of `p / q` (unique where one exists).
pub open spec fn binade(p: nat, q: nat) -> nat {
    choose|e: nat| in_binade(p, q, e)
}

/// The single-precision value nearest to `p / q`, ties to an even
/// significand, times `2^64`. Meant for ratios of at least `2^-41`.
pub open spec fn single_ratio(p: nat, q: nat) -> nat {
    let e = binade(p, q);
    div_round_half_even(p * two_pow(64), q * two_pow(e)) * two_pow(e)
}

/// The integer `n` converted to single precision, times `2^64`.
pub open spec fn single_of(n: nat) -> nat {
    single_ratio(n, 1)
}

/// A value (times `2^64`) converted to `u32`: truncated, and saturated at `u32::MAX`.
pub open spec fn single_to_u32(v: nat) -> nat {
    if v / two_pow(64) > u32::MAX {
        u32::MAX as nat
    } else {
        v / two_pow(64)
    }
}

pub proof fn lemma_two_pow_values()
    ensures
        two_pow(1) == 2,
        two_pow(2) == 4,
        two_pow(23) == 0x800000,
        two_pow(24) == 0x1000000,
        two_pow(64) == 0x1_0000_0000_0000_0000,
        two_pow(128) == 0x1_0000_0000_0000_0000_0000_0000_0000_0000,
        two_pow(144) == 0x1_0000_0000_0000_0000_0000_0000_0000_0000_0000,
{
    reveal_with_fuel(two_pow, 9);
    assert(two_pow(8) == 0x100);
    assert(two_pow(7) == 0x80);
    lemma_two_pow_add(8, 8);
    assert(two_pow(16) == 0x10000);
    lemma_two_pow_add(16, 8);
    assert(two_pow(24) == 0x1000000);
    lemma_two_pow_add(16, 7);
    assert(two_pow(23) == 0x800000);
    lemma_two_pow_add(16, 16);
    assert(two_pow(32) == 0x1_0000_0000);
    lemma_two_pow_add(32, 32);
    assert(two_pow(64) == 0x1_0000_0000_0000_0000);
    lemma_two_pow_add(64, 64);
    assert(two_pow(128) == 0x1_0000_0000_0000_0000_0000_0000_0000_0000);
    lemma_two_pow_add(128, 16);
}

pub proof fn lemma_two_pow_positive(k: nat)
    ensures
        two_pow(k) >= 1,
    decreases k,
{
    if k > 0 {
        lemma_two_pow_positive((k - 1) as nat);
    }
}

pub proof fn lemma_two_pow_add(a: nat, b: nat)
    ensures
        two_pow(a + b) == two_pow(a) * two_pow(b),
    decreases a,
{
    if a == 0 {
        assert(two_pow(a) == 1);
    } else {
        lemma_two_pow_add((a - 1) as nat, b);
        assert(two_pow(a + b) == 2 * two_pow((a - 1 + b) as nat));
        assert(two_pow(a) == 2 * two_pow((a - 1) as nat));
        assert(2 * (two_pow((a - 1) as nat) * two_pow(b)) == (2 * two_pow((a - 1) as nat))
            * two_pow(b)) by (nonlinear_arith);
    }
}

/// Below `b`, a power of two is at most half of `2^b`.
pub proof fn lemma_two_pow_less(a: nat, b: nat)
    requires
        a < b,
    ensures
        2 * two_pow(a) <= two_pow(b),
    decreases b,
{
    if a + 1 < b {
        lemma_two_pow_less(a, (b - 1) as nat);
        lemma_two_pow_positive((b - 1) as nat);
    }
}

/// A ratio has at most one binade.
pub proof fn lemma_binade_unique(p: nat, q: nat, e1: nat, e2: nat)
    requires
        in_binade(p, q, e1),
        in_binade(p, q, e2),
    ensures
        e1 == e2,
{
    if e1 < e2 {
        lemma_two_pow_less(e1, e2);
        lemma_two_pow_values();
        assert(two_pow(24) * two_pow(e1) * q <= two_pow(23) * two_pow(e2) * q) by (nonlinear_arith)
            requires
                2 * two_pow(e1) <= two_pow(e2),
                two_pow(24) == 2 * two_pow(23),
        ;
    } else if e2 < e1 {
        lemma_two_pow_less(e2, e1);
        lemma_two_pow_values();
        assert(two_pow(24) * two_pow(e2) * q <= two_pow(23) * two_pow(e1) * q) by (nonlinear_arith)
            requires
                2 * two_pow(e2) <= two_pow(e1),
                two_pow(24) == 2 * two_pow(23),
        ;
    }
}

/// Where `e` is a binade of `p / q`, it is the one `single_ratio` uses.
pub proof fn lemma_binade_is(p: nat, q: nat, e: nat)
    requires
        in_binade(p, q, e),
    ensures
        binade(p, q) == e,
{
    lemma_binade_unique(p, q, binade(p, q), e);
}

/// Rounding a quotient depends only on the ratio.
pub proof fn lemma_round_same_ratio(x: nat, y: nat, n: nat, d: nat)
    requires
        y > 0,
        d > 0,
        x * d == y * n,
    ensures
        div_round_half_even(x, y) == div_round_half_even(n, d),
{
    let q1 = x / y;
    let r1 = x % y;
    let q2 = n / d;
    let r2 = n % d;
    assert(x == y * q1 + r1 && 0 <= r1 < y) by (nonlinear_arith)
        requires
            y > 0,
            q1 == x / y,
            r1 == x % y,
    ;
    assert(n == d * q2 + r2 && 0 <= r2 < d) by (nonlinear_arith)
        requires
            d > 0,
            q2 == n / d,
            r2 == n % d,
    ;
    assert(y * d * (q1 - q2) == y * r2 - r1 * d) by (nonlinear_arith)
        requires
            x * d == y * n,
            x == y * q1 + r1,
            n == d * q2 + r2,
    ;
    assert(q1 == q2) by (nonlinear_arith)
        requires
            y * d * (q1 - q2) == y * r2 - r1 * d,
            0 <= r1 < y,
            0 <= r2 < d,
            y > 0,
            d > 0,
    ;
    assert(r1 * d == y * r2) by (nonlinear_arith)
        requires
            y * d * (q1 - q2) == y * r2 - r1 * d,
            q1 == q2,
    ;
    assert((2 * r1 > y) == (2 * r2 > d)) by (nonlinear_arith)
        requires
            r1 * d == y * r2,
            y > 0,
            d > 0,
    ;
    assert((2 * r1 == y) == (2 * r2 == d)) by (nonlinear_arith)
        requires
            r1 * d == y * r2,
            y > 0,
            d > 0,
    ;
}

/// `2^k` exceeds `k`.
pub proof fn lemma_two_pow_exceeds(k: nat)
    ensures
        two_pow(k) > k,
    decreases k,
{
    if k > 0 {
        lemma_two_pow_exceeds((k - 1) as nat);
        lemma_two_pow_positive((k - 1) as nat);
    }
}

proof fn lemma_binade_at_most(p: nat, q: nat, k: nat)
    requires
        q >= 1,
        two_pow(23) * q <= p * two_pow(64),
        p * two_pow(64) < two_pow(24) * two_pow(k) * q,
    ensures
        exists|e: nat| in_binade(p, q, e),
    decreases k,
{
    lemma_two_pow_values();
    if two_pow(23) * two_pow(k) * q <= p * two_pow(64) {
        assert(in_binade(p, q, k));
    } else {
        if k == 0 {
            assert(two_pow(0) == 1);
            assert(false) by (nonlinear_arith)
                requires
                    two_pow(23) * q <= p * two_pow(64),
                    !(two_pow(23) * 1 * q <= p * two_pow(64)),
            ;
        }
        assert(two_pow(k) == 2 * two_pow((k - 1) as nat));
        assert(p * two_pow(64) < two_pow(24) * two_pow((k - 1) as nat) * q) by (nonlinear_arith)
            requires
                p * two_pow(64) < two_pow(23) * two_pow(k) * q,
                two_pow(k) == 2 * two_pow((k - 1) as nat),
                two_pow(24) == 2 * two_pow(23),
        ;
        lemma_binade_at_most(p, q, (k - 1) as nat);
    }
}

/// A ratio of at least `2^-41` has its binade.
pub proof fn lemma_binade_exists(p: nat, q: nat)
    requires
        q >= 1,
        two_pow(23) * q <= p * two_pow(64),
    ensures
        in_binade(p, q, binade(p, q)),
{
    let x = p * two_pow(64);
    lemma_two_pow_exceeds(x);
    lemma_two_pow_values();
    assert(x < two_pow(24) * two_pow(x) * q) by (nonlinear_arith)
        requires
            two_pow(x) > x,
            two_pow(24) >= 1,
            q >= 1,
    ;
    lemma_binade_at_most(p, q, x);
}

/// Rounding `x / d` when it lies in `[2^23, 2^24)` gives a significand in
/// `[2^23, 2^24]`, at most half a unit away.
pub proof fn lemma_round_in_binade(x: nat, d: nat)
    requires
        d >= 1,
        0x800000 * d <= x < 0x1000000 * d,
    ensures
        0x800000 <= div_round_half_even(x, d) <= 0x1000000,
        2 * x <= (2 * div_round_half_even(x, d) + 1) * d,
        (2 * div_round_half_even(x, d)) * d <= 2 * x + d,
{
    let q = x / d;
    let r = x % d;
    assert(x == d * q + r && r < d) by (nonlinear_arith)
        requires
            d >= 1,
            q == x / d,
            r == x % d,
    ;
    assert(0x800000 <= q < 0x1000000) by (nonlinear_arith)
        requires
            x == d * q + r,
            r < d,
            0x800000 * d <= x < 0x1000000 * d,
    ;
    let m = div_round_half_even(x, d);
    if 2 * r > d || (2 * r == d && q % 2 == 1) {
        assert(m == q + 1);
        assert(2 * x <= (2 * m + 1) * d && (2 * m) * d <= 2 * x + d) by (nonlinear_arith)
            requires
                x == d * q + r,
                r < d,
                2 * r >= d,
                m == q + 1,
        ;
    } else {
        assert(m == q);
        assert(2 * x <= (2 * m + 1) * d && (2 * m) * d <= 2 * x + d) by (nonlinear_arith)
            requires
                x == d * q + r,
                2 * r <= d,
                m == q,
        ;
    }
}

/// Rounding to the nearest integer (ties to even) does not reverse order.
pub proof fn lemma_round_monotone(a: nat, b: nat, c: nat, d: nat)
    requires
        b >= 1,
        d >= 1,
        a * d <= c * b,
    ensures
        div_round_half_even(a, b) <= div_round_half_even(c, d),
{
    let q1 = a / b;
    let r1 = a % b;
    let q2 = c / d;
    let r2 = c % d;
    assert(a == b * q1 + r1 && r1 < b) by (nonlinear_arith)
        requires
            b >= 1,
            q1 == a / b,
            r1 == a % b,
    ;
    assert(c == d * q2 + r2 && r2 < d) by (nonlinear_arith)
        requires
            d >= 1,
            q2 == c / d,
            r2 == c % d,
    ;
    assert(q1 <= q2) by (nonlinear_arith)
        requires
            a == b * q1 + r1,
            c == d * q2 + r2,
            r1 < b,
            r2 < d,
            a * d <= c * b,
            b >= 1,
            d >= 1,
    ;
    if q1 == q2 {
        assert(r1 * d <= r2 * b) by (nonlinear_arith)
            requires
                a == b * q1 + r1,
                c == d * q2 + r2,
                a * d <= c * b,
                q1 == q2,
        ;
        if 2 * r1 > b {
            assert(2 * r2 > d) by (nonlinear_arith)
                requires
                    r1 * d <= r2 * b,
                    2 * r1 > b,
                    d >= 1,
                    b >= 1,
            ;
        } else if 2 * r1 == b {
            assert(2 * r2 >= d) by (nonlinear_arith)
                requires
                    r1 * d <= r2 * b,
                    2 * r1 == b,
                    b >= 1,
            ;
        }
    }
}

/// Facts of a rounded ratio: its binade, its significand, and how far it is
/// from the exact ratio (within a factor `1 + 2^-24`, and a factor 2).
pub proof fn lemma_single_facts(p: nat, q: nat)
    requires
        q >= 1,
        two_pow(23) * q <= p * two_pow(64),
    ensures
        in_binade(p, q, binade(p, q)),
        0x800000 <= div_round_half_even(p * two_pow(64), q * two_pow(binade(p, q))) <= 0x1000000,
        single_ratio(p, q) == div_round_half_even(p * two_pow(64), q * two_pow(binade(p, q)))
            * two_pow(binade(p, q)),
        (p * two_pow(64)) * 0x1000000 <= 0x1000001 * single_ratio(p, q) * q,
        single_ratio(p, q) * q <= 2 * (p * two_pow(64)),
        p * two_pow(64) <= 2 * single_ratio(p, q) * q,
{
    lemma_binade_exists(p, q);
    lemma_two_pow_values();
    let e = binade(p, q);
    lemma_two_pow_positive(e);
    let t = two_pow(e);
    let x = p * two_pow(64);
    let d = q * t;
    assert(d >= 1 && 0x800000 * d <= x < 0x1000000 * d) by (nonlinear_arith)
        requires
            two_pow(23) * t * q <= x,
            x < two_pow(24) * t * q,
            two_pow(23) == 0x800000,
            two_pow(24) == 0x1000000,
            d == q * t,
            q >= 1,
            t >= 1,
    ;
    lemma_round_in_binade(x, d);
    let m = div_round_half_even(x, d);
    let v = m * t;
    assert(x * 0x1000000 <= 0x1000001 * v * q) by (nonlinear_arith)
        requires
            2 * x <= (2 * m + 1) * d,
            m >= 0x800000,
            d == q * t,
            v == m * t,
    ;
    assert(v * q <= 2 * x && x <= 2 * v * q) by (nonlinear_arith)
        requires
            0x800000 * d <= x < 0x1000000 * d,
            0x800000 <= m <= 0x1000000,
            d == q * t,
            v == m * t,
    ;
}

/// Rounding does not reverse order.
pub proof fn lemma_single_monotone(p1: nat, q1: nat, p2: nat, q2: nat)
    requires
        q1 >= 1,
        q2 >= 1,
        two_pow(23) * q1 <= p1 * two_pow(64),
        two_pow(23) * q2 <= p2 * two_pow(64),
        p1 * q2 <= p2 * q1,
    ensures
        single_ratio(p1, q1) <= single_ratio(p2, q2),
{
    lemma_single_facts(p1, q1);
    lemma_single_facts(p2, q2);
    lemma_two_pow_values();
    let e1 = binade(p1, q1);
    let e2 = binade(p2, q2);
    let t1 = two_pow(e1);
    let t2 = two_pow(e2);
    let s = two_pow(64);
    let m1 = div_round_half_even(p1 * s, q1 * t1);
    let m2 = div_round_half_even(p2 * s, q2 * t2);
    lemma_two_pow_positive(e1);
    lemma_two_pow_positive(e2);
    if e1 > e2 {
        lemma_two_pow_less(e2, e1);
        assert(false) by (nonlinear_arith)
            requires
                0x800000 * t1 * q1 <= p1 * s,
                p2 * s < 0x1000000 * t2 * q2,
                2 * t2 <= t1,
                p1 * q2 <= p2 * q1,
                q1 >= 1,
                q2 >= 1,
                s >= 1,
        ;
    } else if e1 < e2 {
        lemma_two_pow_less(e1, e2);
        assert(m1 * t1 <= m2 * t2) by (nonlinear_arith)
            requires
                m1 <= 0x1000000,
                m2 >= 0x800000,
                2 * t1 <= t2,
        ;
    } else {
        assert((p1 * s) * (q2 * t2) <= (p2 * s) * (q1 * t1)) by (nonlinear_arith)
            requires
                p1 * q2 <= p2 * q1,
                t1 == t2,
        ;
        assert(q1 * t1 >= 1 && q2 * t2 >= 1) by (nonlinear_arith)
            requires
                q1 >= 1,
                q2 >= 1,
                t1 >= 1,
                t2 >= 1,
        ;
        lemma_round_monotone(p1 * s, q1 * t1, p2 * s, q2 * t2);
        assert(m1 * t1 <= m2 * t2) by (nonlinear_arith)
            requires
                m1 <= m2,
                t1 == t2,
        ;
    }
}

/// A ratio that is a single-precision value already (a significand `n` of
/// 24 bits times `2^s`, at scale `2^64`) rounds to itself.
pub proof fn lemma_single_exact(p: nat, q: nat, n: nat, s: nat)
    requires
        q >= 1,
        0x800000 <= n < 0x1000000,
        p * two_pow(64) == n * two_pow(s) * q,
    ensures
        single_ratio(p, q) == n * two_pow(s),
{
    lemma_two_pow_values();
    lemma_two_pow_positive(s);
    let t = two_pow(s);
    assert(two_pow(23) * t * q <= p * two_pow(64) && p * two_pow(64) < two_pow(24) * t * q) by (nonlinear_arith)
        requires
            p * two_pow(64) == n * t * q,
            0x800000 <= n < 0x1000000,
            two_pow(23) == 0x800000,
            two_pow(24) == 0x1000000,
            q >= 1,
            t >= 1,
    ;
    lemma_binade_is(p, q, s);
    let d = q * t;
    assert(d >= 1 && (n * t * q) / d == n && (n * t * q) % d == 0) by (nonlinear_arith)
        requires
            d == q * t,
            q >= 1,
            t >= 1,
    ;
}

/// The shift that brings `n` (below `2^24`) into `[2^23, 2^24)`.
pub proof fn normal_shift(n: nat) -> (k: nat)
    requires
        1 <= n < 0x1000000,
    ensures
        k <= 23,
        0x800000 <= n * two_pow(k) < 0x1000000,
    decreases 0x1000000 - n,
{
    if n >= 0x800000 {
        assert(two_pow(0) == 1);
        0
    } else {
        let k = normal_shift(2 * n);
        if k == 23 {
            lemma_two_pow_values();
            assert(false) by (nonlinear_arith)
                requires
                    2 * n * two_pow(23) < 0x1000000,
                    two_pow(23) == 0x800000,
                    n >= 1,
            ;
        }
        assert(two_pow(k + 1) == 2 * two_pow(k));
        assert(n * two_pow(k + 1) == (2 * n) * two_pow(k)) by (nonlinear_arith)
            requires
                two_pow(k + 1) == 2 * two_pow(k),
        ;
        k + 1
    }
}

/// An integer below `2^24`, times `2^s` with `s` of at least 23, is a
/// single-precision value.
pub proof fn lemma_single_exact_int(p: nat, q: nat, n: nat, s: nat)
    requires
        q >= 1,
        1 <= n < 0x1000000,
        s >= 23,
        p * two_pow(64) == n * two_pow(s) * q,
    ensures
        single_ratio(p, q) == n * two_pow(s),
{
    let k = normal_shift(n);
    let s2 = (s - k) as nat;
    lemma_two_pow_add(k, s2);
    assert(k + s2 == s);
    assert(n * two_pow(s) == (n * two_pow(k)) * two_pow(s2)) by (nonlinear_arith)
        requires
            two_pow(s) == two_pow(k) * two_pow(s2),
    ;
    lemma_single_exact(p, q, n * two_pow(k), s2);
}

/// A rounded value rounds to itself.
pub proof fn lemma_rounded_is_exact(p: nat, q: nat)
    requires
        q >= 1,
        two_pow(23) * q <= p * two_pow(64),
    ensures
        single_ratio(single_ratio(p, q), two_pow(64)) == single_ratio(p, q),
{
    lemma_single_facts(p, q);
    lemma_two_pow_values();
    let e = binade(p, q);
    let m = div_round_half_even(p * two_pow(64), q * two_pow(e));
    let v = single_ratio(p, q);
    if m < 0x1000000 {
        assert(v * two_pow(64) == m * two_pow(e) * two_pow(64));
        lemma_single_exact(v, two_pow(64), m, e);
    } else {
        assert(two_pow(e + 1) == 2 * two_pow(e));
        assert(v == 0x800000 * two_pow(e + 1));
        assert(v * two_pow(64) == 0x800000 * two_pow(e + 1) * two_pow(64));
        lemma_single_exact(v, two_pow(64), 0x800000, e + 1);
    }
}

/// Truncating to `u32` does not reverse order.
pub proof fn lemma_to_u32_monotone(a: nat, b: nat)
    requires
        a <= b,
    ensures
        single_to_u32(a) <= single_to_u32(b),
{
    lemma_two_pow_values();
    assert(a / two_pow(64) <= b / two_pow(64)) by (nonlinear_arith)
        requires
            a <= b,
            two_pow(64) == 0x1_0000_0000_0000_0000,
    ;
}

/// A positive single-precision value, times `2^64`: `sig * 2^exp`.
pub struct Single {
    pub sig: u64,
    pub exp: u32,
}

impl Single {
    pub open spec fn value(&self) -> nat {
        (self.sig as nat) * two_pow(self.exp as nat)
    }

    /// A normalized significand (`2^24` is what rounding up from the top of a
    /// binade gives), and an exponent within the range used here.
    pub open spec fn wf(&self) -> bool {
        &&& 0x800000 <= self.sig <= 0x1000000
        &&& self.exp <= 120
    }
}

/// `2^k` as a `u128`.
fn pow2_u128(k: u32) -> (r: u128)
    requires
        k < 128,
    ensures
        r == two_pow(k as nat),
{
    let mut r: u128 = 1;
    let mut i: u32 = 0;
    while i < k
        invariant
            i <= k < 128,
            r == two_pow(i as nat),
        decreases k - i,
    {
        proof {
            lemma_two_pow_less((i + 1) as nat, 128);
            lemma_two_pow_values();
            assert(two_pow((i + 1) as nat) == 2 * two_pow(i as nat));
        }
        r = 2 * r;
        i = i + 1;
    }
    r
}

/// Rounds the ratio `p / q` to single precision, given `x0 / y0` as the same
/// ratio times `2^64 / 2^e0`.
fn round_to_single(x0: u128, y0: u128, e0: u32, Ghost(p): Ghost<nat>, Ghost(q): Ghost<nat>) -> (r:
    Single)
    requires
        1 <= x0 <= 0x10000000000000000000000000,
        1 <= y0 <= 0x10000000000000000000000000,
        q >= 1,
        e0 <= 300,
        x0 * q * two_pow(e0 as nat) == y0 * (p * two_pow(64)),
        two_pow(23) * q <= p * two_pow(64),
        p * two_pow(64) < two_pow(144) * q,
    ensures
        r.wf(),
        r.value() == single_ratio(p, q),
        in_binade(p, q, r.exp as nat),
        r.value() * q <= 2 * (p * two_pow(64)),
        p * two_pow(64) <= 2 * r.value() * q,
{
    let ghost big = p * two_pow(64);
    proof {
        lemma_two_pow_values();
    }
    let mut x = x0;
    let mut y = y0;
    let mut e = e0;
    while x < 0x800000 * y
        invariant
            1 <= x,
            x == x0 || x < 0x1000000 * y,
            x0 <= 0x10000000000000000000000000,
            y == y0,
            1 <= y <= 0x10000000000000000000000000,
            q >= 1,
            e <= e0 <= 300,
            x * q * two_pow(e as nat) == y * big,
            two_pow(23) == 0x800000,
            0x800000 * q <= big,
        decreases 0x1000000 * y - x,
    {
        proof {
            if e == 0 {
                assert(two_pow(0) == 1);
                assert(false) by (nonlinear_arith)
                    requires
                        x * q * 1 == y * big,
                        0x800000 * q <= big,
                        x < 0x800000 * y,
                        q >= 1,
                        y >= 1,
                ;
            }
            assert(two_pow(e as nat) == 2 * two_pow((e - 1) as nat));
            assert((2 * x) * q * two_pow((e - 1) as nat) == x * q * two_pow(e as nat))
                by (nonlinear_arith)
                requires
                    two_pow(e as nat) == 2 * two_pow((e - 1) as nat),
            ;
        }
        x = 2 * x;
        e = e - 1;
    }
    while x >= 0x1000000 * y
        invariant
            0x800000 * y <= x,
            x <= 0x10000000000000000000000000000000,
            1 <= y <= 0x20000000000000000000000000,
            q >= 1,
            x * q * two_pow(e as nat) == y * big,
            big < two_pow(144) * q,
            two_pow(144) == 0x1_0000_0000_0000_0000_0000_0000_0000_0000_0000,
            e <= 300,
        decreases x - 0x800000 * y,
    {
        proof {
            // the exponent stays below 2^120: 2^24 * 2^e <= x * 2^e / y = big / q < 2^144
            assert(0x1000000 * two_pow(e as nat) < two_pow(144)) by (nonlinear_arith)
                requires
                    x >= 0x1000000 * y,
                    x * q * two_pow(e as nat) == y * big,
                    big < two_pow(144) * q,
                    y >= 1,
                    q >= 1,
            ;
            lemma_two_pow_values();
            if e >= 120 {
                lemma_two_pow_add(24, 120);
                lemma_two_pow_positive((e - 120) as nat);
                lemma_two_pow_add(120, (e - 120) as nat);
                assert(two_pow(144) <= 0x1000000 * two_pow(e as nat)) by (nonlinear_arith)
                    requires
                        two_pow(e as nat) == two_pow(120) * two_pow((e - 120) as nat),
                        two_pow((e - 120) as nat) >= 1,
                        two_pow(144) == two_pow(24) * two_pow(120),
                        two_pow(24) == 0x1000000,
                ;
            }
            assert(two_pow((e + 1) as nat) == 2 * two_pow(e as nat));
            assert(x * q * two_pow((e + 1) as nat) == (2 * y) * big) by (nonlinear_arith)
                requires
                    two_pow((e + 1) as nat) == 2 * two_pow(e as nat),
                    x * q * two_pow(e as nat) == y * big,
            ;
        }
        y = 2 * y;
        e = e + 1;
    }
    let quo = x / y;
    let rem = x % y;
    proof {
        assert(x == y * quo + rem && rem < y) by (nonlinear_arith)
            requires
                y >= 1,
                quo == x / y,
                rem == x % y,
        ;
        assert(0x800000 <= quo < 0x1000000) by (nonlinear_arith)
            requires
                x == y * quo + rem,
                rem < y,
                0x800000 * y <= x < 0x1000000 * y,
        ;
    }
    let sig: u128 = if 2 * rem > y || (2 * rem == y && quo % 2 == 1) {
        quo + 1
    } else {
        quo
    };
    let ghost d = q * two_pow(e as nat);
    proof {
        lemma_two_pow_positive(e as nat);
        assert(d >= 1) by (nonlinear_arith)
            requires
                d == q * two_pow(e as nat),
                q >= 1,
                two_pow(e as nat) >= 1,
        ;
        assert(x * d == y * big) by (nonlinear_arith)
            requires
                x * q * two_pow(e as nat) == y * big,
                d == q * two_pow(e as nat),
        ;
        lemma_round_same_ratio(x as nat, y as nat, big, d);
        assert(sig == div_round_half_even(x as nat, y as nat));
        assert(two_pow(23) * two_pow(e as nat) * q <= big) by (nonlinear_arith)
            requires
                0x800000 * y <= x,
                x * q * two_pow(e as nat) == y * big,
                two_pow(23) == 0x800000,
                y >= 1,
        ;
        assert(big < two_pow(24) * two_pow(e as nat) * q) by (nonlinear_arith)
            requires
                x < 0x1000000 * y,
                x * q * two_pow(e as nat) == y * big,
                two_pow(24) == 0x1000000,
                y >= 1,
                q >= 1,
                two_pow(e as nat) >= 1,
        ;
        assert(in_binade(p, q, e as nat));
        lemma_binade_is(p, q, e as nat);
        assert((sig as nat) * two_pow(e as nat) * q <= 2 * big && big <= 2 * ((sig as nat)
            * two_pow(e as nat)) * q) by (nonlinear_arith)
            requires
                two_pow(23) * two_pow(e as nat) * q <= big,
                big < two_pow(24) * two_pow(e as nat) * q,
                0x800000 <= sig <= 0x1000000,
                two_pow(23) == 0x800000,
                two_pow(24) == 0x1000000,
        ;
        if e > 120 {
            lemma_two_pow_less(120, e as nat);
            lemma_two_pow_add(24, 120);
            assert(false) by (nonlinear_arith)
                requires
                    two_pow(23) * two_pow(e as nat) * q <= big,
                    big < two_pow(144) * q,
                    2 * two_pow(120) <= two_pow(e as nat),
                    two_pow(144) == two_pow(24) * two_pow(120),
                    two_pow(24) == 2 * two_pow(23),
                    q >= 1,
            ;
        }
    }
    Single { sig: sig as u64, exp: e }
}

/// `n as f32`.
pub fn single_of_u32(n: u32) -> (r: Single)
    requires
        n >= 1,
    ensures
        r.wf(),
        r.value() == single_of(n as nat),
        0x8000_0000_0000_0000 <= r.value() <= 0x2_0000_0000_0000_0000_0000_0000,
{
    proof {
        lemma_two_pow_values();
        assert(two_pow(64) == 1 * two_pow(64));
    }
    let r = round_to_single(n as u128, 1, 64, Ghost(n as nat), Ghost(1));
    proof {
        assert(0x8000_0000_0000_0000 <= r.value() <= 0x2_0000_0000_0000_0000_0000_0000) by (nonlinear_arith)
            requires
                r.value() * 1 <= 2 * ((n as nat) * 0x1_0000_0000_0000_0000),
                (n as nat) * 0x1_0000_0000_0000_0000 <= 2 * r.value() * 1,
                1 <= n <= 0xffff_ffff,
        ;
    }
    r
}

/// `a / b` in single precision.
pub fn single_div(a: &Single, b: &Single) -> (r: Single)
    requires
        a.wf(),
        b.wf(),
        two_pow(23) * b.value() <= a.value() * two_pow(64),
        a.value() * two_pow(64) < two_pow(144) * b.value(),
    ensures
        r.wf(),
        r.value() == single_ratio(a.value(), b.value()),
        r.value() * b.value() <= 2 * (a.value() * two_pow(64)),
        a.value() * two_pow(64) <= 2 * r.value() * b.value(),
{
    let ghost ea = a.exp as nat;
    let ghost eb = b.exp as nat;
    let e0: u32 = a.exp + 128 - b.exp;
    proof {
        lemma_two_pow_values();
        lemma_two_pow_add(eb, e0 as nat);
        lemma_two_pow_add(ea, 64);
        lemma_two_pow_add(ea + 64, 64);
        assert(eb + e0 == ea + 64 + 64);
        lemma_two_pow_positive(eb);
        let ghost pa = two_pow(ea);
        let ghost pb = two_pow(eb);
        let ghost pe = two_pow(e0 as nat);
        let ghost s64 = two_pow(64);
        assert(pb * pe == pa * s64 * s64) by (nonlinear_arith)
            requires
                two_pow(eb + (e0 as nat)) == pb * pe,
                two_pow(eb + (e0 as nat)) == two_pow(ea + 64 + 64),
                two_pow(ea + 64 + 64) == two_pow(ea + 64) * s64,
                two_pow(ea + 64) == pa * s64,
        ;
        assert((a.sig as nat) * ((b.sig as nat) * pb) * pe == ((b.sig as nat) * s64) * ((
        a.sig as nat) * pa * s64)) by (nonlinear_arith)
            requires
                pb * pe == pa * s64 * s64,
        ;
        assert(b.value() >= 1) by (nonlinear_arith)
            requires
                b.value() == (b.sig as nat) * two_pow(eb),
                b.sig >= 1,
                two_pow(eb) >= 1,
        ;
    }
    round_to_single(
        a.sig as u128,
        (b.sig as u128) * 0x1_0000_0000_0000_0000,
        e0,
        Ghost(a.value()),
        Ghost(b.value()),
    )
}

/// `a * b` in single precision.
pub fn single_mul(a: &Single, b: &Single) -> (r: Single)
    requires
        a.wf(),
        b.wf(),
        two_pow(23) * two_pow(128) <= (a.value() * b.value()) * two_pow(64),
        (a.value() * b.value()) * two_pow(64) < two_pow(144) * two_pow(128),
    ensures
        r.wf(),
        r.value() == single_ratio(a.value() * b.value(), two_pow(128)),
        r.value() * two_pow(128) <= 2 * ((a.value() * b.value()) * two_pow(64)),
        (a.value() * b.value()) * two_pow(64) <= 2 * r.value() * two_pow(128),
{
    let ghost ea = a.exp as nat;
    let ghost eb = b.exp as nat;
    let e0: u32 = a.exp + b.exp;
    proof {
        lemma_two_pow_values();
        lemma_two_pow_add(ea, eb);
        lemma_two_pow_add(64, 64);
        let ghost pa = two_pow(ea);
        let ghost pb = two_pow(eb);
        let ghost s64 = two_pow(64);
        let ghost sa = a.sig as nat;
        let ghost sb = b.sig as nat;
        assert(two_pow(e0 as nat) == pa * pb);
        assert(two_pow(128) == s64 * s64);
        assert((sa * sb) * (s64 * s64) * (pa * pb) == s64 * (((sa * pa) * (sb * pb)) * s64)) by (nonlinear_arith);
    }
    assert(1 <= (a.sig as u128) * (b.sig as u128) <= 0x1_0000_0000_0000) by (nonlinear_arith)
        requires
            1 <= a.sig <= 0x1000000,
            1 <= b.sig <= 0x1000000,
    ;
    round_to_single(
        (a.sig as u128) * (b.sig as u128),
        0x1_0000_0000_0000_0000,
        e0,
        Ghost(a.value() * b.value()),
        Ghost(two_pow(128)),
    )
}

/// `a > b`.
pub fn single_gt(a: &Single, b: &Single) -> (r: bool)
    requires
        a.wf(),
        b.wf(),
    ensures
        r == (a.value() > b.value()),
{
    let ghost ea = a.exp as nat;
    let ghost eb = b.exp as nat;
    if a.exp >= b.exp {
        let d = a.exp - b.exp;
        proof {
            lemma_two_pow_add(d as nat, eb);
            lemma_two_pow_positive(eb);
            assert(a.value() == ((a.sig as nat) * two_pow(d as nat)) * two_pow(eb)) by (nonlinear_arith)
                requires
                    a.value() == (a.sig as nat) * two_pow(ea),
                    two_pow(ea) == two_pow(d as nat) * two_pow(eb),
            ;
            assert((a.value() > b.value()) == ((a.sig as nat) * two_pow(d as nat) > b.sig))
                by (nonlinear_arith)
                requires
                    a.value() == ((a.sig as nat) * two_pow(d as nat)) * two_pow(eb),
                    b.value() == (b.sig as nat) * two_pow(eb),
                    two_pow(eb) >= 1,
            ;
        }
        if d >= 2 {
            proof {
                lemma_two_pow_less(1, d as nat);
                lemma_two_pow_values();
                assert((a.sig as nat) * two_pow(d as nat) > b.sig) by (nonlinear_arith)
                    requires
                        4 <= two_pow(d as nat),
                        0x800000 <= a.sig,
                        b.sig <= 0x1000000,
                ;
            }
            true
        } else {
            let f: u64 = if d == 1 { 2 } else { 1 };
            proof {
                reveal_with_fuel(two_pow, 2);
            }
            a.sig * f > b.sig
        }
    } else {
        let d = b.exp - a.exp;
        proof {
            lemma_two_pow_add(d as nat, ea);
            lemma_two_pow_positive(ea);
            assert(b.value() == ((b.sig as nat) * two_pow(d as nat)) * two_pow(ea)) by (nonlinear_arith)
                requires
                    b.value() == (b.sig as nat) * two_pow(eb),
                    two_pow(eb) == two_pow(d as nat) * two_pow(ea),
            ;
            assert((a.value() > b.value()) == (a.sig > (b.sig as nat) * two_pow(d as nat)))
                by (nonlinear_arith)
                requires
                    b.value() == ((b.sig as nat) * two_pow(d as nat)) * two_pow(ea),
                    a.value() == (a.sig as nat) * two_pow(ea),
                    two_pow(ea) >= 1,
            ;
        }
        if d >= 2 {
            proof {
                lemma_two_pow_less(1, d as nat);
                lemma_two_pow_values();
                assert((b.sig as nat) * two_pow(d as nat) >= a.sig) by (nonlinear_arith)
                    requires
                        4 <= two_pow(d as nat),
                        0x800000 <= b.sig,
                        a.sig <= 0x1000000,
                ;
            }
            false
        } else {
            proof {
                reveal_with_fuel(two_pow, 2);
            }
            a.sig > b.sig * 2
        }
    }
}

/// `v as u32`: truncated towards zero, saturated at `u32::MAX`.
pub fn single_to_u32_exec(v: &Single) -> (r: u32)
    requires
        v.wf(),
    ensures
        r == single_to_u32(v.value()),
{
    let ghost e = v.exp as nat;
    proof {
        lemma_two_pow_values();
    }
    if v.exp >= 64 {
        let s = v.exp - 64;
        proof {
            lemma_two_pow_add(s as nat, 64);
            assert(v.value() == ((v.sig as nat) * two_pow(s as nat)) * two_pow(64)) by (nonlinear_arith)
                requires
                    v.value() == (v.sig as nat) * two_pow(e),
                    two_pow(e) == two_pow(s as nat) * two_pow(64),
            ;
            assert(v.value() / two_pow(64) == (v.sig as nat) * two_pow(s as nat)) by (nonlinear_arith)
                requires
                    v.value() == ((v.sig as nat) * two_pow(s as nat)) * two_pow(64),
                    two_pow(64) >= 1,
            ;
        }
        if s >= 9 {
            proof {
                lemma_two_pow_less(8, s as nat);
                reveal_with_fuel(two_pow, 9);
                assert((v.sig as nat) * two_pow(s as nat) > 0xffff_ffff) by (nonlinear_arith)
                    requires
                        2 * 0x100 <= two_pow(s as nat),
                        0x800000 <= v.sig,
                ;
            }
            u32::MAX
        } else {
            let f = pow2_u128(s);
            proof {
                lemma_two_pow_less(s as nat, 9);
                reveal_with_fuel(two_pow, 10);
            }
            assert((v.sig as u128) * f <= 0x1_0000_0000_0000) by (nonlinear_arith)
                requires
                    v.sig <= 0x1000000,
                    f <= 0x1000000,
            ;
            let t = (v.sig as u128) * f;
            if t > 0xffff_ffff {
                u32::MAX
            } else {
                t as u32
            }
        }
    } else {
        let s = 64 - v.exp;
        let f = pow2_u128(s);
        proof {
            lemma_two_pow_add(e, s as nat);
            lemma_two_pow_positive(s as nat);
            lemma_two_pow_positive(e);
            assert(v.value() / two_pow(64) == (v.sig as nat) / two_pow(s as nat)) by (nonlinear_arith)
                requires
                    v.value() == (v.sig as nat) * two_pow(e),
                    two_pow(64) == two_pow(e) * two_pow(s as nat),
                    two_pow(e) >= 1,
                    two_pow(s as nat) >= 1,
            ;
        }
        ((v.sig as u128) / f) as u32
    }
}

} // verus!
