//! Rounding a fraction to single precision (24 significant bits, to nearest,
//! ties to even), as `f32` arithmetic does, held in integers.
use vstd::arithmetic::power2::{
    lemma2_to64, lemma_pow2_adds, lemma_pow2_strictly_increases, lemma_pow2_unfold, pow2,
};
use vstd::prelude::*;

verus! {

/// The first `t`, counting up from `t` and stopping at 127, at which
/// `n * 2^t` reaches `2^87 * d`: from there on `n / d * 2^(t - 64)` lies in
/// `[2^23, 2^24)`.
pub open spec fn doublings(n: nat, d: nat, t: nat) -> nat
    decreases 127 - t,
{
    if t >= 127 || n * pow2(t) >= pow2(87) * d {
        t
    } else {
        doublings(n, d, t + 1)
    }
}

/// `num / den` rounded to the nearest integer, ties to the even one.
pub open spec fn round_half_even(num: nat, den: nat) -> nat {
    let q = num / den;
    let r = num % den;
    if 2 * r > den || (2 * r == den && q % 2 == 1) {
        q + 1
    } else {
        q
    }
}

/// `n / d` rounded to single precision, as `(m, t)` standing for
/// `m * 2^64 / 2^t`, with a significand `m` of 24 bits (`2^23 <= m < 2^24`);
/// zero is `(0, 0)`.
pub open spec fn round_to_single(n: nat, d: nat) -> (nat, nat) {
    if n == 0 {
        (0, 0)
    } else {
        let t = doublings(n, d, 0);
        let m = round_half_even(n * pow2(t), d * pow2(64));
        if m == pow2(24) {
            (pow2(23), (t - 1) as nat)
        } else {
            (m, t)
        }
    }
}

/// Rounds `n / d` to single precision.
pub(crate) fn round_single(n: u128, d: u128) -> (r: (u128, u32))
    requires
        n <= 0xffff_ffff_ffff_ffff,
        1 <= d <= 1_000_000_000,
    ensures
        (r.0 as nat, r.1 as nat) == round_to_single(n as nat, d as nat),
        r.0 < 0x100_0000,
        r.1 <= 127,
{
    if n == 0 {
        return (0, 0);
    }
    proof {
        lemma2_to64();
        lemma_pow2_adds(64, 23);
    }
    assert(d * 0x80_0000_0000_0000_0000_0000 <= 1_000_000_000 * 0x80_0000_0000_0000_0000_0000)
        by (nonlinear_arith)
        requires
            d <= 1_000_000_000,
    ;
    let top: u128 = d * 0x80_0000_0000_0000_0000_0000;
    let mut x: u128 = n;
    let mut t: u32 = 0;
    assert(pow2(0) == 1);
    while t < 127 && x < top
        invariant
            1 <= n <= 0xffff_ffff_ffff_ffff,
            1 <= d <= 1_000_000_000,
            top == pow2(87) * d,
            pow2(87) == 0x80_0000_0000_0000_0000_0000,
            top <= 1_000_000_000 * 0x80_0000_0000_0000_0000_0000,
            t <= 127,
            x == n * pow2(t as nat),
            x < 2 * top,
            doublings(n as nat, d as nat, t as nat) == doublings(n as nat, d as nat, 0),
        decreases 127 - t,
    {
        proof {
            lemma_pow2_unfold((t + 1) as nat);
            let p = pow2(t as nat);
            assert(n * (2 * p) == 2 * (n * p)) by (nonlinear_arith);
        }
        x = x * 2;
        t = t + 1;
    }
    let den: u128 = d * 0x1_0000_0000_0000_0000;
    let q: u128 = x / den;
    let r: u128 = x % den;
    assert(q < 0x100_0000) by (nonlinear_arith)
        requires
            x < 2 * top,
            top == 0x80_0000_0000_0000_0000_0000 * d,
            den == 0x1_0000_0000_0000_0000 * d,
            d >= 1,
            q == x / den,
    ;
    let m: u128 = if 2 * r > den || (2 * r == den && q % 2 == 1) {
        q + 1
    } else {
        q
    };
    if m == 0x100_0000 {
        assert(t >= 1);
        (0x80_0000, t - 1)
    } else {
        (m, t)
    }
}

/// Counting doublings from a `t` below the bound stops at the first `u` with
/// `2^87 * d <= n * 2^u < 2^88 * d`.
proof fn lemma_doublings_bracket(n: nat, d: nat, t: nat)
    requires
        1 <= n,
        1 <= d <= 1_000_000_000,
        n * pow2(t) < pow2(87) * d,
    ensures
        pow2(87) * d <= n * pow2(doublings(n, d, t)) < pow2(88) * d,
    decreases 127 - t,
{
    lemma2_to64();
    lemma_pow2_adds(87, 30);
    lemma_pow2_adds(58, 59);
    lemma_pow2_unfold(88);
    lemma_pow2_unfold(t + 1);
    assert(pow2(30) == 0x4000_0000);
    if t >= 117 {
        if t > 117 {
            lemma_pow2_strictly_increases(117, t);
        }
        let p = pow2(t);
        assert(p >= pow2(117));
        let q = pow2(87);
        assert(n * p >= p) by (nonlinear_arith)
            requires
                n >= 1,
                p >= 0,
        ;
        assert(q * d <= q * 0x4000_0000) by (nonlinear_arith)
            requires
                d <= 0x4000_0000,
                q >= 0,
        ;
        assert(false);
    } else {
        let p = pow2(t);
        assert(n * pow2(t + 1) == 2 * (n * p)) by (nonlinear_arith)
            requires
                pow2(t + 1) == 2 * p,
        ;
        assert(doublings(n, d, t) == doublings(n, d, t + 1));
        let q = pow2(87);
        assert(pow2(88) * d == 2 * (q * d)) by (nonlinear_arith)
            requires
                pow2(88) == 2 * q,
        ;
        if n * pow2(t + 1) >= pow2(87) * d {
            assert(doublings(n, d, t + 1) == t + 1);
        } else {
            lemma_doublings_bracket(n, d, t + 1);
        }
    }
}

/// A nonzero fraction `n / d` of a kernel reading over its scale rounds to a
/// normal single precision number: its significand has exactly 24 bits, so
/// that the value `m * 2^64 / 2^t` orders as `(t, m)` does, backwards in `t`.
pub proof fn lemma_single_is_normal(n: nat, d: nat)
    requires
        1 <= n <= 0xffff_ffff_ffff_ffff,
        1 <= d <= 1_000_000_000,
    ensures
        pow2(23) <= round_to_single(n, d).0 < pow2(24),
{
    lemma2_to64();
    lemma_pow2_adds(64, 23);
    lemma_pow2_adds(64, 24);
    lemma_pow2_strictly_increases(64, 87);
    assert(pow2(0) == 1);
    assert(n * pow2(0) < pow2(87) * d) by (nonlinear_arith)
        requires
            n <= 0xffff_ffff_ffff_ffff,
            pow2(64) == 0x1_0000_0000_0000_0000,
            pow2(64) < pow2(87),
            d >= 1,
            pow2(0) == 1,
    ;
    lemma_doublings_bracket(n, d, 0);
    let t = doublings(n, d, 0);
    let x = n * pow2(t);
    let den = d * pow2(64);
    let q = x / den;
    assert(pow2(23) <= q < pow2(24)) by (nonlinear_arith)
        requires
            pow2(87) * d <= x < pow2(88) * d,
            pow2(87) == pow2(64) * pow2(23),
            pow2(88) == pow2(64) * pow2(24),
            den == d * pow2(64),
            d >= 1,
            pow2(64) >= 1,
            q == x / den,
    ;
}

/// A quotient `n / d` that is a whole number `k` below `2^24` rounds to
/// itself: the value `m * 2^64 / 2^t` is `k`, with a normal significand.
pub proof fn lemma_whole_quotients_round_exactly(k: nat, d: nat)
    requires
        1 <= k < 0x100_0000,
        1 <= d <= 1_000_000_000,
        k * d <= 0xffff_ffff_ffff_ffff,
    ensures
        round_to_single(k * d, d).0 * pow2(64) == k * pow2(round_to_single(k * d, d).1),
        pow2(23) <= round_to_single(k * d, d).0 < pow2(24),
{
    lemma2_to64();
    lemma_pow2_adds(64, 23);
    lemma_pow2_adds(64, 24);
    lemma_pow2_strictly_increases(64, 87);
    let n = k * d;
    assert(n >= 1) by (nonlinear_arith)
        requires
            k >= 1,
            d >= 1,
            n == k * d,
    ;
    assert(n * pow2(0) < pow2(87) * d) by (nonlinear_arith)
        requires
            n <= 0xffff_ffff_ffff_ffff,
            pow2(64) == 0x1_0000_0000_0000_0000,
            pow2(64) < pow2(87),
            pow2(0) == 1,
            d >= 1,
    ;
    lemma_doublings_bracket(n, d, 0);
    let t = doublings(n, d, 0);
    let p = pow2(t);
    assert(pow2(87) <= k * p < pow2(88)) by (nonlinear_arith)
        requires
            pow2(87) * d <= n * p < pow2(88) * d,
            n == k * d,
            d >= 1,
    ;
    if t < 64 {
        if t < 63 {
            lemma_pow2_strictly_increases(t, 63);
        }
        assert(pow2(63) * 0x100_0000 == pow2(87)) by {
            lemma_pow2_adds(63, 24);
        }
        let h = pow2(63);
        assert(p <= h);
        assert(k * p <= k * h) by (nonlinear_arith)
            requires
                p <= h,
        ;
        assert(k * h < 0x100_0000 * h) by (nonlinear_arith)
            requires
                k < 0x100_0000,
                h > 0,
        ;
        assert(false);
    }
    let e = (t - 64) as nat;
    lemma_pow2_adds(e, 64);
    let den = d * pow2(64);
    let x = n * p;
    let q = k * pow2(e);
    assert(x == q * den) by (nonlinear_arith)
        requires
            x == n * p,
            n == k * d,
            p == pow2(e) * pow2(64),
            q == k * pow2(e),
            den == d * pow2(64),
    ;
    assert(den > 0) by (nonlinear_arith)
        requires
            d >= 1,
            den == d * pow2(64),
            pow2(64) == 0x1_0000_0000_0000_0000,
    ;
    assert(x / den == q && x % den == 0) by {
        vstd::arithmetic::div_mod::lemma_fundamental_div_mod_converse(x as int, den as int, q as int, 0);
    }
    assert(pow2(23) <= q < pow2(24)) by (nonlinear_arith)
        requires
            pow2(87) <= k * p < pow2(88),
            p == pow2(e) * pow2(64),
            q == k * pow2(e),
            pow2(87) == pow2(64) * pow2(23),
            pow2(88) == pow2(64) * pow2(24),
            pow2(64) > 0,
    ;
    assert(q * pow2(64) == k * p) by (nonlinear_arith)
        requires
            q == k * pow2(e),
            p == pow2(e) * pow2(64),
    ;
}

/// A whole number below `2^24` rounds to itself: its value `m * 2^64 / 2^t`
/// is the number.
pub proof fn lemma_rounds_small_numbers_exactly(n: nat)
    requires
        1 <= n < 0x100_0000,
    ensures
        round_to_single(n, 1).0 * pow2(64) == n * pow2(round_to_single(n, 1).1),
{
    lemma_whole_quotients_round_exactly(n, 1);
    assert(n * 1 == n);
}

/// Rounding is to the nearest: the value `m * 2^64 / 2^t` differs from
/// `n / d` by at most half a unit in the last place, `2^64 / 2^t / 2`, and
/// when it is exactly half way the significand is even.
pub proof fn lemma_rounding_is_to_nearest_even(n: nat, d: nat)
    requires
        1 <= n <= 0xffff_ffff_ffff_ffff,
        1 <= d <= 1_000_000_000,
    ensures
        ({
            let (m, t) = round_to_single(n, d);
            let err = m * d * pow2(64) - n * pow2(t);
            let half = d * pow2(64);
            &&& 2 * err <= half
            &&& -half <= 2 * err
            &&& (2 * err == half || 2 * err == -half) ==> m % 2 == 0
        }),
{
    lemma2_to64();
    lemma_pow2_adds(64, 23);
    lemma_pow2_strictly_increases(64, 87);
    let p64 = pow2(64);
    assert(n * pow2(0) < pow2(87) * d) by (nonlinear_arith)
        requires
            n <= 0xffff_ffff_ffff_ffff,
            p64 == 0x1_0000_0000_0000_0000,
            p64 < pow2(87),
            d >= 1,
            pow2(0) == 1,
    ;
    lemma_doublings_bracket(n, d, 0);
    let t = doublings(n, d, 0);
    let x = n * pow2(t);
    let den = d * p64;
    assert(den > 0) by (nonlinear_arith)
        requires
            d >= 1,
            p64 > 0,
            den == d * p64,
    ;
    let q = x / den;
    let r = x % den;
    vstd::arithmetic::div_mod::lemma_fundamental_div_mod(x as int, den as int);
    assert(q * den + r == x);
    assert(0 <= r < den);
    let m0 = round_half_even(x, den);
    let err0 = m0 * den - x;
    if m0 == q {
        assert(err0 == -r) by (nonlinear_arith)
            requires
                err0 == m0 * den - x,
                m0 == q,
                q * den + r == x,
        ;
    } else {
        assert(m0 == q + 1);
        assert(err0 == den - r) by (nonlinear_arith)
            requires
                err0 == m0 * den - x,
                m0 == q + 1,
                q * den + r == x,
        ;
    }
    assert(2 * err0 <= den && -den <= 2 * err0);
    assert((2 * err0 == den || 2 * err0 == -den) ==> m0 % 2 == 0);
    if m0 == pow2(24) {
        assert(t >= 1) by {
            if t == 0 {
                assert(x == n) by {
                    assert(pow2(0) == 1);
                }
                assert(n < pow2(87) * d);
            }
        }
        let t1 = (t - 1) as nat;
        lemma_pow2_unfold(t);
        lemma_pow2_unfold(24);
        let m = pow2(23);
        let err = m * d * p64 - n * pow2(t1);
        assert(2 * err == err0) by (nonlinear_arith)
            requires
                err == m * d * p64 - n * pow2(t1),
                err0 == m0 * den - x,
                den == d * p64,
                x == n * pow2(t),
                pow2(t) == 2 * pow2(t1),
                m0 == pow2(24),
                pow2(24) == 2 * m,
        ;
        assert(m % 2 == 0);
    } else {
        assert(m0 * d * p64 == m0 * den) by (nonlinear_arith)
            requires
                den == d * p64,
        ;
    }
}

/// Two normal single precision numbers `m / 2^t` and `m2 / 2^t2` of the same
/// value have the same significand and exponent.
pub proof fn lemma_normal_form_is_unique(m: nat, t: nat, m2: nat, t2: nat)
    requires
        pow2(23) <= m < pow2(24),
        pow2(23) <= m2 < pow2(24),
        m * pow2(t2) == m2 * pow2(t),
    ensures
        m == m2,
        t == t2,
{
    lemma_pow2_unfold(24);
    vstd::arithmetic::power2::lemma_pow2_pos(t);
    vstd::arithmetic::power2::lemma_pow2_pos(t2);
    if t < t2 {
        let e = (t2 - t) as nat;
        lemma_pow2_adds(e, t);
        lemma_pow2_strictly_increases(0, e);
        assert(pow2(0) == 1) by {
            lemma2_to64();
        }
        let pe = pow2(e);
        let pt = pow2(t);
        assert(m2 == m * pe) by (nonlinear_arith)
            requires
                m * (pe * pt) == m2 * pt,
                pt > 0,
        ;
        assert(m * pe >= 2 * m) by (nonlinear_arith)
            requires
                pe >= 2,
        ;
    } else if t2 < t {
        let e = (t - t2) as nat;
        lemma_pow2_adds(e, t2);
        lemma_pow2_strictly_increases(0, e);
        assert(pow2(0) == 1) by {
            lemma2_to64();
        }
        let pe = pow2(e);
        let pt = pow2(t2);
        assert(m == m2 * pe) by (nonlinear_arith)
            requires
                m2 * (pe * pt) == m * pt,
                pt > 0,
        ;
        assert(m2 * pe >= 2 * m2) by (nonlinear_arith)
            requires
                pe >= 2,
        ;
    } else {
        let pt = pow2(t);
        assert(m == m2) by (nonlinear_arith)
            requires
                m * pt == m2 * pt,
                pt > 0,
        ;
    }
}

/// A single precision number `m * 2^64 / 2^t` with a normal significand that
/// is a whole number `u` below `2^24` has `t >= 64`: `m` is `u` times a power
/// of two.
pub proof fn lemma_whole_below_two_to_24(m: nat, u: nat, t: nat)
    requires
        pow2(23) <= m,
        1 <= u < pow2(24),
        m * pow2(64) == u * pow2(t),
    ensures
        t >= 64,
        m == u * pow2((t - 64) as nat),
{
    lemma_pow2_unfold(24);
    lemma2_to64();
    if t < 64 {
        let e = (64 - t) as nat;
        lemma_pow2_adds(e, t);
        lemma_pow2_strictly_increases(0, e);
        vstd::arithmetic::power2::lemma_pow2_pos(t);
        let pe = pow2(e);
        let pt = pow2(t);
        assert(u == m * pe) by (nonlinear_arith)
            requires
                m * (pe * pt) == u * pt,
                pt > 0,
        ;
        assert(m * pe >= 2 * m) by (nonlinear_arith)
            requires
                pe >= 2,
        ;
        assert(false);
    }
    let e = (t - 64) as nat;
    lemma_pow2_adds(e, 64);
    vstd::arithmetic::power2::lemma_pow2_pos(e);
    let pe = pow2(e);
    let p64 = pow2(64);
    assert(m == u * pe) by (nonlinear_arith)
        requires
            m * p64 == u * (pe * p64),
            p64 > 0,
    ;
}

} // verus!
