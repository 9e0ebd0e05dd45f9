//! Temperatures, held as the kernel reports them, and compared in single
//! precision Kelvin.
use core::cmp::Ordering;
use crate::rounding::{
    lemma_normal_form_is_unique, lemma_whole_below_two_to_24, lemma_whole_quotients_round_exactly,
    round_single, round_to_single,
};
use vstd::arithmetic::power2::{lemma_pow2_adds, pow2};
use vstd::prelude::*;
use vstd::std_specs::cmp::{PartialEqSpecImpl, PartialOrdSpecImpl};

verus! {

/// A temperature of `units / scale` Kelvin, where the kernel reports `units`
/// and `scale` is a power of ten. Two temperatures compare as their Kelvin
/// values in single precision do: `units` converted to `f32`, divided by
/// `scale` in `f32`.
#[derive(Debug, Copy, Clone)]
pub struct Temperature {
    units: i128,
    scale: u32,
}

impl Temperature {
    #[verifier::type_invariant]
    spec fn well_formed(self) -> bool {
        &&& -0xffff_ffff_ffff_ffffi128 <= self.units <= 0xffff_ffff_ffff_ffffi128
        &&& 1 <= self.scale <= 1_000_000_000
    }

    /// The reported number, in `1 / scale` Kelvin.
    pub closed spec fn units_spec(self) -> int {
        self.units as int
    }

    /// The number of units in one Kelvin.
    pub closed spec fn scale_spec(self) -> nat {
        self.scale as nat
    }

    /// The temperature of `units / scale` Kelvin.
    pub fn new(units: i128, scale: u32) -> (t: Temperature)
        requires
            -0xffff_ffff_ffff_ffffi128 <= units <= 0xffff_ffff_ffff_ffffi128,
            1 <= scale <= 1_000_000_000,
        ensures
            t.units_spec() == units,
            t.scale_spec() == scale,
    {
        Temperature { units, scale }
    }

    /// The reported number, in `1 / scale` Kelvin.
    pub fn units(&self) -> (r: i128)
        ensures
            r == self.units_spec(),
            -0xffff_ffff_ffff_ffffi128 <= r <= 0xffff_ffff_ffff_ffffi128,
    {
        proof {
            use_type_invariant(self);
        }
        self.units
    }

    /// The number of units in one Kelvin.
    pub fn scale(&self) -> (r: u32)
        ensures
            r == self.scale_spec(),
            1 <= r <= 1_000_000_000,
    {
        proof {
            use_type_invariant(self);
        }
        self.scale
    }
}

/// The order of two single precision numbers, each given as its sign, its
/// 24-bit significand `m` and the `t` of its value `m * 2^128 / 2^t` (zero
/// has significand zero): as IEEE 754 orders them.
pub open spec fn single_order(a: (bool, nat, nat), b: (bool, nat, nat)) -> Ordering {
    let (sa, ma, ta) = a;
    let (sb, mb, tb) = b;
    if ma == 0 && mb == 0 {
        Ordering::Equal
    } else if ma == 0 {
        if sb {
            Ordering::Greater
        } else {
            Ordering::Less
        }
    } else if mb == 0 {
        if sa {
            Ordering::Less
        } else {
            Ordering::Greater
        }
    } else if sa != sb {
        if sa {
            Ordering::Less
        } else {
            Ordering::Greater
        }
    } else {
        let magnitude = if ta < tb {
            Ordering::Greater
        } else if ta > tb {
            Ordering::Less
        } else if ma < mb {
            Ordering::Less
        } else if ma == mb {
            Ordering::Equal
        } else {
            Ordering::Greater
        };
        if sa {
            match magnitude {
                Ordering::Less => Ordering::Greater,
                Ordering::Equal => Ordering::Equal,
                Ordering::Greater => Ordering::Less,
            }
        } else {
            magnitude
        }
    }
}

impl Temperature {
    /// This temperature in single precision Kelvin, as the kernel's number
    /// converted to `f32` and divided by the scale in `f32`: its sign, its
    /// significand and the `t` of its value `m * 2^128 / 2^t`.
    pub closed spec fn single_kelvin(self) -> (bool, nat, nat) {
        let magnitude = if self.units < 0 {
            -self.units
        } else {
            self.units as int
        };
        let (m1, t1) = round_to_single(magnitude as nat, 1);
        let (m2, t2) = round_to_single(m1, self.scale as nat);
        (self.units < 0, m2, t1 + t2)
    }

    /// Computes `single_kelvin`.
    fn to_single(&self) -> (r: (bool, u128, u32))
        ensures
            (r.0, r.1 as nat, r.2 as nat) == self.single_kelvin(),
    {
        proof {
            use_type_invariant(self);
        }
        let negative = self.units < 0;
        let magnitude: u128 = if negative {
            (-self.units) as u128
        } else {
            self.units as u128
        };
        let (m1, t1) = round_single(magnitude, 1);
        let (m2, t2) = round_single(m1, self.scale as u128);
        (negative, m2, t1 + t2)
    }
}

impl PartialEq for Temperature {
    fn eq(&self, other: &Self) -> (r: bool) {
        let (sa, ma, ta) = self.to_single();
        let (sb, mb, tb) = other.to_single();
        (ma == 0 && mb == 0) || (sa == sb && ma == mb && ta == tb)
    }
}

impl PartialEqSpecImpl for Temperature {
    open spec fn obeys_eq_spec() -> bool {
        true
    }

    open spec fn eq_spec(&self, other: &Self) -> bool {
        single_order(self.single_kelvin(), other.single_kelvin()) == Ordering::Equal
    }
}

impl PartialOrd for Temperature {
    fn partial_cmp(&self, other: &Self) -> (r: Option<Ordering>) {
        let (sa, ma, ta) = self.to_single();
        let (sb, mb, tb) = other.to_single();
        let order = if ma == 0 && mb == 0 {
            Ordering::Equal
        } else if ma == 0 {
            if sb {
                Ordering::Greater
            } else {
                Ordering::Less
            }
        } else if mb == 0 {
            if sa {
                Ordering::Less
            } else {
                Ordering::Greater
            }
        } else if sa != sb {
            if sa {
                Ordering::Less
            } else {
                Ordering::Greater
            }
        } else {
            let magnitude = if ta < tb {
                Ordering::Greater
            } else if ta > tb {
                Ordering::Less
            } else if ma < mb {
                Ordering::Less
            } else if ma == mb {
                Ordering::Equal
            } else {
                Ordering::Greater
            };
            if sa {
                match magnitude {
                    Ordering::Less => Ordering::Greater,
                    Ordering::Equal => Ordering::Equal,
                    Ordering::Greater => Ordering::Less,
                }
            } else {
                magnitude
            }
        };
        Some(order)
    }
}

impl PartialOrdSpecImpl for Temperature {
    open spec fn obeys_partial_cmp_spec() -> bool {
        true
    }

    open spec fn partial_cmp_spec(&self, other: &Self) -> Option<Ordering> {
        Some(single_order(self.single_kelvin(), other.single_kelvin()))
    }
}

/// The single precision Kelvin of a whole number `k` of Kelvin: significand
/// `m` and exponent `t` with `m * 2^128 == |k| * 2^t`, whatever the scale
/// the reading is given in, as long as the reading is below `2^24`.
proof fn lemma_whole_kelvin_in_single(k: nat, s: nat) -> (r: (nat, nat))
    requires
        1 <= k,
        1 <= s <= 1_000_000_000,
        k * s < 0x100_0000,
    ensures
        r.0 == round_to_single(round_to_single(k * s, 1).0, s).0,
        r.1 == round_to_single(k * s, 1).1 + round_to_single(round_to_single(k * s, 1).0, s).1,
        r.0 * pow2(128) == k * pow2(r.1),
        pow2(23) <= r.0 < pow2(24),
{
    vstd::arithmetic::power2::lemma2_to64();
    lemma_pow2_adds(64, 24);
    lemma_pow2_adds(64, 64);
    let u = k * s;
    assert(u >= 1) by (nonlinear_arith)
        requires
            k >= 1,
            s >= 1,
            u == k * s,
    ;
    assert(u * 1 == u);
    lemma_whole_quotients_round_exactly(u, 1);
    let (m1, t1) = round_to_single(u, 1);
    lemma_whole_below_two_to_24(m1, u, t1);
    let e1 = (t1 - 64) as nat;
    lemma_pow2_adds(e1, 64);
    let pe1 = pow2(e1);
    let j = k * pe1;
    assert(m1 == j * s) by (nonlinear_arith)
        requires
            m1 == u * pe1,
            u == k * s,
            j == k * pe1,
    ;
    assert(1 <= j < 0x100_0000) by (nonlinear_arith)
        requires
            m1 == j * s,
            m1 < 0x100_0000,
            s >= 1,
            k >= 1,
            pe1 >= 1,
            j == k * pe1,
    ;
    lemma_whole_quotients_round_exactly(j, s);
    let (m2, t2) = round_to_single(m1, s);
    lemma_pow2_adds(t1, t2);
    let p64 = pow2(64);
    assert(m2 * pow2(128) == k * pow2(t1 + t2)) by (nonlinear_arith)
        requires
            m2 * p64 == j * pow2(t2),
            j == k * pe1,
            pow2(t1) == pe1 * p64,
            pow2(128) == p64 * p64,
            pow2(t1 + t2) == pow2(t1) * pow2(t2),
    ;
    (m2, t1 + t2)
}

/// The magnitude of a whole number.
spec fn magnitude(k: int) -> nat {
    if k < 0 {
        (-k) as nat
    } else {
        k as nat
    }
}

/// Kelvin are Kelvin at any scale: a reading of `k * scale` units equals the
/// reading `k` at scale one, when the reading is a whole single precision
/// number (below `2^24` in magnitude).
pub proof fn lemma_whole_kelvin_ignores_scale(a: Temperature, b: Temperature, k: int)
    requires
        1 <= a.scale_spec() <= 1_000_000_000,
        a.units_spec() == k * a.scale_spec(),
        b.units_spec() == k,
        b.scale_spec() == 1,
        -0x100_0000 < k * a.scale_spec() < 0x100_0000,
    ensures
        single_order(a.single_kelvin(), b.single_kelvin()) == Ordering::Equal,
{
    let s = a.scale_spec();
    if k == 0 {
        assert(a.units == 0);
        assert(round_to_single(0, s).0 == 0);
    } else {
        let kk: nat = magnitude(k);
        assert(kk * s < 0x100_0000 && (if k < 0 { -(k * s) } else { k * s }) == kk * s)
            by (nonlinear_arith)
            requires
                kk == (if k < 0 { -k } else { k }),
                -0x100_0000 < k * s < 0x100_0000,
                s >= 1,
        ;
        assert(kk * 1 == kk && kk <= kk * s) by (nonlinear_arith)
            requires
                s >= 1,
        ;
        vstd::arithmetic::power2::lemma_pow2_pos(128);
        let ra = lemma_whole_kelvin_in_single(kk, s);
        let rb = lemma_whole_kelvin_in_single(kk, 1);
        let ta = ra.1;
        let tb = rb.1;
        lemma_pow2_adds(128, ta);
        lemma_pow2_adds(128, tb);
        assert(ra.0 * pow2(tb) == rb.0 * pow2(ta)) by (nonlinear_arith)
            requires
                ra.0 * pow2(128) == kk * pow2(ta),
                rb.0 * pow2(128) == kk * pow2(tb),
                pow2(128) > 0,
        ;
        lemma_normal_form_is_unique(ra.0, ta, rb.0, tb);
    }
}

/// Of two whole numbers of Kelvin below `2^24`, the smaller has the larger
/// exponent, or the same exponent and the smaller significand.
proof fn lemma_whole_kelvin_magnitudes(ka: nat, kb: nat)
    requires
        1 <= ka < kb < 0x100_0000,
    ensures
        ({
            let (ma, ta) = round_to_single(round_to_single(ka, 1).0, 1);
            let (mb, tb) = round_to_single(round_to_single(kb, 1).0, 1);
            let ua = round_to_single(ka, 1).1 + ta;
            let ub = round_to_single(kb, 1).1 + tb;
            ua > ub || (ua == ub && ma < mb)
        }),
{
    assert(ka * 1 == ka && kb * 1 == kb);
    let ra = lemma_whole_kelvin_in_single(ka, 1);
    let rb = lemma_whole_kelvin_in_single(kb, 1);
    let (ma, ua) = ra;
    let (mb, ub) = rb;
    vstd::arithmetic::power2::lemma_pow2_pos(128);
    vstd::arithmetic::power2::lemma_pow2_pos(ua);
    vstd::arithmetic::power2::lemma2_to64();
    vstd::arithmetic::power2::lemma_pow2_unfold(24);
    let p128 = pow2(128);
    if ua < ub {
        let e = (ub - ua) as nat;
        lemma_pow2_adds(e, ua);
        vstd::arithmetic::power2::lemma_pow2_strictly_increases(0, e);
        let pe = pow2(e);
        let pa = pow2(ua);
        assert(ka * pow2(ub) >= kb * pow2(ub)) by (nonlinear_arith)
            requires
                ma * p128 == ka * pa,
                mb * p128 == kb * (pe * pa),
                pow2(ub) == pe * pa,
                pe >= 2,
                ma >= pow2(23),
                mb < pow2(24),
                pow2(24) == 2 * pow2(23),
                p128 > 0,
                pa > 0,
        ;
        vstd::arithmetic::power2::lemma_pow2_pos(ub);
        assert(ka * pow2(ub) < kb * pow2(ub)) by (nonlinear_arith)
            requires
                ka < kb,
                pow2(ub) > 0,
        ;
    } else if ua == ub {
        let pa = pow2(ua);
        assert(ma < mb) by (nonlinear_arith)
            requires
                ma * p128 == ka * pa,
                mb * p128 == kb * pa,
                ka < kb,
                pa > 0,
                p128 > 0,
        ;
    }
}

/// Whole numbers of Kelvin below `2^24` at scale one order as the numbers do.
pub proof fn lemma_whole_kelvin_order(a: Temperature, b: Temperature)
    requires
        a.scale_spec() == 1,
        b.scale_spec() == 1,
        -0x100_0000 < a.units_spec() < 0x100_0000,
        -0x100_0000 < b.units_spec() < 0x100_0000,
    ensures
        a.units_spec() < b.units_spec() ==> single_order(a.single_kelvin(), b.single_kelvin())
            == Ordering::Less,
        a.units_spec() == b.units_spec() ==> single_order(a.single_kelvin(), b.single_kelvin())
            == Ordering::Equal,
        a.units_spec() > b.units_spec() ==> single_order(a.single_kelvin(), b.single_kelvin())
            == Ordering::Greater,
{
    let x = a.units_spec();
    let y = b.units_spec();
    let kx = magnitude(x);
    let ky = magnitude(y);
    vstd::arithmetic::power2::lemma2_to64();
    assert(round_to_single(0, 1).0 == 0);
    assert(a.single_kelvin() == (x < 0, round_to_single(round_to_single(kx, 1).0, 1).0,
        round_to_single(kx, 1).1 + round_to_single(round_to_single(kx, 1).0, 1).1));
    assert(b.single_kelvin() == (y < 0, round_to_single(round_to_single(ky, 1).0, 1).0,
        round_to_single(ky, 1).1 + round_to_single(round_to_single(ky, 1).0, 1).1));
    if kx >= 1 {
        assert(kx * 1 == kx);
        lemma_whole_kelvin_in_single(kx, 1);
    }
    if ky >= 1 {
        assert(ky * 1 == ky);
        lemma_whole_kelvin_in_single(ky, 1);
    }
    let sa = a.single_kelvin();
    let sb = b.single_kelvin();
    assert(kx == 0 <==> x == 0);
    assert(ky == 0 <==> y == 0);
    assert(kx == 0 ==> sa.1 == 0);
    assert(ky == 0 ==> sb.1 == 0);
    assert(kx >= 1 ==> sa.1 != 0);
    assert(ky >= 1 ==> sb.1 != 0);
    if kx >= 1 && ky >= 1 {
        if kx < ky {
            lemma_whole_kelvin_magnitudes(kx, ky);
            assert(sa.2 > sb.2 || (sa.2 == sb.2 && sa.1 < sb.1));
        } else if ky < kx {
            lemma_whole_kelvin_magnitudes(ky, kx);
            assert(sb.2 > sa.2 || (sa.2 == sb.2 && sb.1 < sa.1));
        }
    }
}

} // verus!
