//! Binary-unit scaling of byte counts, as printed with two decimals.
//!
//! A count is first turned into the `f64` nearest to it (ties to even, as
//! `as f64` rounds), then divided by 1024 while it stays at or above 1024 and
//! a larger unit is left; those divisions are exact. The quotient is printed
//! with `{:.2}`, which rounds the exact value to two decimals, ties to even.
use vstd::prelude::*;
use crate::text::{decimal, push_char, push_decimal, push_str};

verus! {

/// `2^53`: below it every integer is an `f64`.
pub open spec fn f64_exact_limit() -> nat {
    0x20000000000000
}

/// The spacing of the `f64` values around `n`: the smallest power of two
/// `p` with `n / p` below `2^53`.
pub open spec fn f64_spacing(n: nat) -> nat
    decreases n,
{
    if n < f64_exact_limit() {
        1
    } else {
        2 * f64_spacing(n / 2)
    }
}

/// `n / d` rounded to the nearest integer, ties to the even one.
pub open spec fn div_round_half_even(n: nat, d: nat) -> nat
    recommends
        d > 0,
{
    let q = n / d;
    let r = n % d;
    if 2 * r > d || (2 * r == d && q % 2 == 1) {
        q + 1
    } else {
        q
    }
}

/// The value of `n as f64`.
pub open spec fn f64_of(n: nat) -> nat {
    div_round_half_even(n, f64_spacing(n)) * f64_spacing(n)
}

/// `1024^k`.
pub open spec fn pow1024(k: nat) -> nat
    decreases k,
{
    if k == 0 {
        1
    } else {
        1024 * pow1024((k - 1) as nat)
    }
}

/// The largest `k <= max` with `1024^k <= m`, or 0 when there is none.
pub open spec fn unit_exponent(m: nat, max: nat) -> nat
    decreases max,
{
    if max == 0 {
        0
    } else if m >= pow1024(max) {
        max
    } else {
        unit_exponent(m, (max - 1) as nat)
    }
}

/// A count of hundredths printed as `{:.2}` prints it: whole part, point, two digits.
pub open spec fn hundredths_text(h: nat) -> Seq<char> {
    decimal(h / 100) + seq!['.'] + (if h % 100 < 10 {
        seq!['0']
    } else {
        Seq::<char>::empty()
    }) + decimal(h % 100)
}

/// The text for a non-zero count `n` with the unit names `units`
/// (`units[k]` names `1024^k`).
pub open spec fn scaled_text(n: nat, units: Seq<Seq<char>>) -> Seq<char>
    recommends
        units.len() > 0,
{
    let m = f64_of(n);
    let k = unit_exponent(m, (units.len() - 1) as nat);
    if k == 0 {
        decimal(m) + seq![' '] + units[0]
    } else {
        hundredths_text(div_round_half_even(m * 100, pow1024(k))) + seq![' '] + units[k as int]
    }
}

proof fn lemma_pow1024_positive(k: nat)
    ensures
        pow1024(k) >= 1,
    decreases k,
{
    if k > 0 {
        lemma_pow1024_positive((k - 1) as nat);
    }
}

proof fn lemma_pow1024_monotonic(a: nat, b: nat)
    requires
        a <= b,
    ensures
        pow1024(a) <= pow1024(b),
    decreases b,
{
    if a < b {
        lemma_pow1024_monotonic(a, (b - 1) as nat);
        lemma_pow1024_positive((b - 1) as nat);
    }
}

proof fn lemma_unit_exponent_is(m: nat, max: nat, k: nat)
    requires
        k <= max,
        k == 0 || m >= pow1024(k),
        k == max || m < pow1024(k + 1),
    ensures
        unit_exponent(m, max) == k,
    decreases max,
{
    if max > k {
        lemma_pow1024_monotonic(k + 1, max);
        lemma_unit_exponent_is(m, (max - 1) as nat, k);
    }
}

/// `n as f64`, as an exact integer.
pub fn f64_value(n: u64) -> (m: u128)
    requires
        n > 0,
    ensures
        m == f64_of(n as nat),
        m <= 0x20000000000000000,
{
    let mut x: u128 = n as u128;
    let mut p: u128 = 1;
    while x >= 0x20000000000000
        invariant
            f64_spacing(n as nat) == p * f64_spacing(x as nat),
            p >= 1,
            x >= 1,
            p * x <= n,
            x <= n,
        decreases x,
    {
        assert(f64_spacing(x as nat) == 2 * f64_spacing((x / 2) as nat));
        assert((p * 2) * (x / 2) <= p * x) by (nonlinear_arith)
            requires
                p >= 1,
        ;
        assert(p <= p * x) by (nonlinear_arith)
            requires
                x >= 1,
        ;
        assert(p * f64_spacing(x as nat) == (p * 2) * f64_spacing((x / 2) as nat)) by (nonlinear_arith)
            requires
                f64_spacing(x as nat) == 2 * f64_spacing((x / 2) as nat),
        ;
        x = x / 2;
        p = p * 2;
    }
    assert(f64_spacing(x as nat) == 1);
    assert(f64_spacing(n as nat) == p) by (nonlinear_arith)
        requires
            f64_spacing(n as nat) == p * f64_spacing(x as nat),
            f64_spacing(x as nat) == 1,
    ;
    assert(p <= n) by (nonlinear_arith)
        requires
            p * x <= n,
            x >= 1,
    ;
    let nn = n as u128;
    let q = nn / p;
    let r = nn % p;
    assert(q * p <= nn) by (nonlinear_arith)
        requires
            q == nn / p,
            p >= 1,
    ;
    assert(f64_of(n as nat) == div_round_half_even(n as nat, p as nat) * p);
    if 2 * r > p || (2 * r == p && q % 2 == 1) {
        assert((q + 1) * p <= 0x20000000000000000) by (nonlinear_arith)
            requires
                q * p <= nn,
                p <= nn,
                nn < 0x10000000000000000,
        ;
        (q + 1) * p
    } else {
        q * p
    }
}

/// Appends the text for the non-zero count `n` with the unit names `units`.
pub fn push_scaled(s: &mut String, n: u64, units: &Vec<&str>)
    requires
        n > 0,
        1 <= units@.len() <= 5,
    ensures
        final(s)@ == old(s)@ + scaled_text(n as nat, units@.map_values(|u: &str| u@)),
{
    let ghost names = units@.map_values(|u: &str| u@);
    let m = f64_value(n);
    let max = units.len() - 1;
    let mut k: usize = 0;
    let mut scale: u128 = 1;
    proof {
        lemma_pow1024_positive(1);
    }
    while k < max && m >= scale * 1024
        invariant
            k <= max,
            max == units@.len() - 1,
            max <= 4,
            scale == pow1024(k as nat),
            k == 0 ==> scale == 1,
            k == 1 ==> scale == 1024,
            k == 2 ==> scale == 1048576,
            k == 3 ==> scale == 1073741824,
            k == 4 ==> scale == 1099511627776,
            k == 0 || m >= scale,
            m <= 0x20000000000000000,
        decreases max - k,
    {
        k = k + 1;
        scale = scale * 1024;
        assert(scale == pow1024(k as nat));
    }
    proof {
        assert(pow1024((k + 1) as nat) == scale * 1024);
        lemma_unit_exponent_is(m as nat, max as nat, k as nat);
        lemma_pow1024_positive(k as nat);
    }
    if k == 0 {
        push_decimal(s, m);
        push_char(s, ' ');
        push_str(s, units[0]);
    } else {
        let big = m * 100;
        let q = big / scale;
        let r = big % scale;
        let h = if 2 * r > scale || (2 * r == scale && q % 2 == 1) {
            q + 1
        } else {
            q
        };
        assert(h == div_round_half_even((m * 100) as nat, pow1024(k as nat)));
        push_decimal(s, h / 100);
        push_char(s, '.');
        if h % 100 < 10 {
            push_char(s, '0');
        }
        push_decimal(s, h % 100);
        push_char(s, ' ');
        push_str(s, units[k]);
    }
    assert(names[k as int] == units@[k as int]@);
}

} // verus!
