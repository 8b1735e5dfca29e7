use vstd::prelude::*;

verus! {

/// Top of the receiver's volume scale; the wire carries 0 to this value.
pub const REMOTE_MAX: u8 = 180;

/// A loudness as the exact fraction `num / den` of a device's full range.
#[derive(Debug, Clone, Copy, PartialEq, Eq, Structural)]
pub struct NormalizedVolume {
    pub num: u64,
    pub den: u64,
}

impl NormalizedVolume {
    /// A fraction in [0, 1] with a positive denominator.
    pub open spec fn wf(&self) -> bool {
        0 < self.den && self.num <= self.den
    }

    /// The volume `num / den`, if it lies in [0, 1].
    pub fn new(num: u64, den: u64) -> (r: Option<NormalizedVolume>)
        ensures
            r == (if 0 < den && num <= den {
                Some(NormalizedVolume { num, den })
            } else {
                None
            }),
    {
        if 0 < den && num <= den {
            Some(NormalizedVolume { num, den })
        } else {
            None
        }
    }

    /// Whether the two volumes are the same fraction, however written.
    pub fn same_level(&self, other: &NormalizedVolume) -> (r: bool)
        ensures
            r == same_level(*self, *other),
    {
        wide_mul(self.num, other.den) == wide_mul(other.num, self.den)
    }
}

/// The product of two 64-bit values, which always fits in 128 bits.
pub(crate) fn wide_mul(x: u64, y: u64) -> (r: u128)
    ensures
        r == x * y,
{
    proof {
        assert(x as int * y as int <= 0xffff_ffff_ffff_ffffint * 0xffff_ffff_ffff_ffffint)
            by (nonlinear_arith)
            requires
                0 <= x <= 0xffff_ffff_ffff_ffffint,
                0 <= y <= 0xffff_ffff_ffff_ffffint,
        ;
    }
    x as u128 * y as u128
}

/// `a` and `b` stand for the same fraction.
pub open spec fn same_level(a: NormalizedVolume, b: NormalizedVolume) -> bool {
    a.num * b.den == b.num * a.den
}

/// `|a - b|` scaled by `a.den * b.den`.
pub open spec fn scaled_gap(a: NormalizedVolume, b: NormalizedVolume) -> int {
    let d = a.num * b.den - b.num * a.den;
    if d >= 0 {
        d
    } else {
        -d
    }
}

/// `|a - b| <= 1 / k`.
pub open spec fn within(a: NormalizedVolume, b: NormalizedVolume, k: int) -> bool {
    scaled_gap(a, b) * k <= a.den * b.den
}

/// `a / d` rounded to the nearest integer, halves away from zero; for `a >= 0`,
/// `d > 0` the quotient is never negative, so halves go upward.
pub open spec fn round_div(a: int, d: int) -> int {
    if 2 * (a % d) >= d {
        a / d + 1
    } else {
        a / d
    }
}

/// The receiver's level for a volume: `round(v * 180)`.
pub open spec fn remote_level(v: NormalizedVolume) -> int {
    round_div(v.num * REMOTE_MAX, v.den as int)
}

/// The volume of a receiver level: `level / 180`, a level above the scale
/// standing for full volume.
pub open spec fn remote_volume(level: u8) -> NormalizedVolume {
    NormalizedVolume {
        num: if level <= REMOTE_MAX { level as u64 } else { REMOTE_MAX as u64 },
        den: REMOTE_MAX as u64,
    }
}

/// `base + a / d` rounded to the nearest integer, halves away from zero (for
/// `a >= 0`, `d > 0`): with `q` and `m` the quotient and remainder of `a` by
/// `d`, a half (`2 * m == d`) goes up where `base + q + 1/2` is positive and
/// down where it is negative.
pub open spec fn round_offset(base: int, a: int, d: int) -> int {
    let q = a / d;
    let m = a % d;
    if 2 * m > d || (2 * m == d && base + q >= 0) {
        base + q + 1
    } else {
        base + q
    }
}

/// The raw mixer value for a volume: `round(min + v * (max - min))`, halves
/// away from zero.
pub open spec fn local_level(v: NormalizedVolume, min: int, max: int) -> int {
    round_offset(min, v.num * (max - min), v.den as int)
}

/// The volume of a raw mixer value: `(raw - min) / (max - min)`.
pub open spec fn local_volume(raw: int, min: int, max: int) -> NormalizedVolume {
    NormalizedVolume { num: (raw - min) as u64, den: (max - min) as u64 }
}

/// Rounding `a / d` lands within half a step of it.
proof fn lemma_round_div_close(a: int, d: int)
    requires
        a >= 0,
        d > 0,
    ensures
        0 <= round_div(a, d),
        2 * (round_div(a, d) * d - a) <= d,
        2 * (a - round_div(a, d) * d) <= d,
{
    vstd::arithmetic::div_mod::lemma_fundamental_div_mod(a, d);
    vstd::arithmetic::div_mod::lemma_mod_bound(a, d);
    vstd::arithmetic::div_mod::lemma_div_pos_is_pos(a, d);
    let q = a / d;
    let m = a % d;
    assert((q + 1) * d == d * q + d) by (nonlinear_arith);
    assert(q * d == d * q) by (nonlinear_arith);
    if 2 * m >= d {
        assert(round_div(a, d) == q + 1);
    } else {
        assert(round_div(a, d) == q);
    }
}

/// Rounding `n * k / d` with `n <= d` stays within `0..=k`.
proof fn lemma_round_div_bounded(n: int, k: int, d: int)
    requires
        0 <= n <= d,
        k >= 0,
        d > 0,
    ensures
        0 <= round_div(n * k, d) <= k,
        0 <= (n * k) / d <= k,
        0 <= (n * k) % d < d,
        (n * k) / d == k ==> (n * k) % d == 0,
{
    let a = n * k;
    assert(0 <= n * k <= d * k) by (nonlinear_arith)
        requires
            0 <= n <= d,
            k >= 0,
    ;
    vstd::arithmetic::div_mod::lemma_fundamental_div_mod(a, d);
    vstd::arithmetic::div_mod::lemma_mod_bound(a, d);
    vstd::arithmetic::div_mod::lemma_div_pos_is_pos(a, d);
    vstd::arithmetic::div_mod::lemma_div_is_ordered(a, d * k, d);
    vstd::arithmetic::div_mod::lemma_div_by_multiple(k, d);
    assert(d * k == k * d) by (nonlinear_arith);
    let q = a / d;
    if q == k {
        assert(q * d == d * k) by (nonlinear_arith)
            requires
                q == k,
        ;
    }
}

/// Quotient and remainder of `n * k` by `d`, computed without overflow.
fn rounded_quotient(n: u64, k: u64, d: u64) -> (r: u64)
    requires
        n <= d,
        0 < d,
    ensures
        r == round_div(n * k, d as int),
        r <= k,
{
    let a: u128 = wide_mul(n, k);
    let q: u128 = a / d as u128;
    let m: u128 = a % d as u128;
    proof {
        lemma_round_div_bounded(n as int, k as int, d as int);
    }
    if 2 * m >= d as u128 {
        (q + 1) as u64
    } else {
        q as u64
    }
}

/// The receiver's level for `v`: `round(v * 180)`.
pub fn to_remote_scale(v: &NormalizedVolume) -> (r: u8)
    requires
        v.wf(),
    ensures
        r == remote_level(*v),
        r <= REMOTE_MAX,
{
    rounded_quotient(v.num, REMOTE_MAX as u64, v.den) as u8
}

/// The volume of receiver level `level`: `level / 180`; a level above 180
/// gives full volume.
pub fn from_remote_scale(level: u8) -> (r: NormalizedVolume)
    ensures
        r == remote_volume(level),
        r.wf(),
{
    if level <= REMOTE_MAX {
        NormalizedVolume { num: level as u64, den: REMOTE_MAX as u64 }
    } else {
        NormalizedVolume { num: REMOTE_MAX as u64, den: REMOTE_MAX as u64 }
    }
}

/// The raw mixer value for `v` on a mixer whose range is `min..=max`:
/// `round(min + v * (max - min))`, halves away from zero.
pub fn to_local_scale(v: &NormalizedVolume, min: i64, max: i64) -> (r: i64)
    requires
        v.wf(),
        min <= max,
    ensures
        r == local_level(*v, min as int, max as int),
        min <= r <= max,
{
    let range: u64 = (max as i128 - min as i128) as u64;
    let a: u128 = wide_mul(v.num, range);
    let q: u128 = a / v.den as u128;
    let m: u128 = a % v.den as u128;
    proof {
        lemma_round_div_bounded(v.num as int, range as int, v.den as int);
    }
    let base: i128 = min as i128 + q as i128;
    if 2 * m > v.den as u128 || (2 * m == v.den as u128 && base >= 0) {
        (base + 1) as i64
    } else {
        base as i64
    }
}

/// The volume of raw mixer value `raw` on a mixer whose range is `min..=max`:
/// `(raw - min) / (max - min)`.
pub fn from_local_scale(raw: i64, min: i64, max: i64) -> (r: NormalizedVolume)
    requires
        min < max,
        min <= raw <= max,
    ensures
        r == local_volume(raw as int, min as int, max as int),
        r.wf(),
{
    NormalizedVolume {
        num: (raw as i128 - min as i128) as u64,
        den: (max as i128 - min as i128) as u64,
    }
}

/// Taking a volume to the receiver's scale and back moves it by at most half a
/// step of that scale (1/360), so by less than 1/180; a volume that is a whole
/// number of steps comes back unchanged.
pub proof fn lemma_remote_round_trip(v: NormalizedVolume)
    requires
        v.wf(),
    ensures
        0 <= remote_level(v) <= REMOTE_MAX,
        within(remote_volume(remote_level(v) as u8), v, 2 * REMOTE_MAX),
        within(remote_volume(remote_level(v) as u8), v, REMOTE_MAX as int),
        v.den == REMOTE_MAX ==> remote_volume(remote_level(v) as u8) == v,
{
    let a = v.num * REMOTE_MAX;
    lemma_round_div_bounded(v.num as int, REMOTE_MAX as int, v.den as int);
    lemma_round_div_close(a, v.den as int);
    let l = remote_level(v);
    let w = remote_volume(l as u8);
    assert(w.num == l);
    assert(w.den == 180);
    assert(scaled_gap(w, v) == if l * v.den - a >= 0 { l * v.den - a } else { a - l * v.den });
    assert(scaled_gap(w, v) * 360 <= 180 * v.den) by (nonlinear_arith)
        requires
            2 * (l * v.den - a) <= v.den,
            2 * (a - l * v.den) <= v.den,
            scaled_gap(w, v) == if l * v.den - a >= 0 { l * v.den - a } else { a - l * v.den },
    ;
    assert(scaled_gap(w, v) * 180 <= 180 * v.den);
    if v.den == REMOTE_MAX {
        vstd::arithmetic::div_mod::lemma_mod_multiples_basic(v.num as int, 180);
        vstd::arithmetic::div_mod::lemma_div_multiples_vanish(v.num as int, 180);
        assert(v.num * 180 == 180 * v.num);
    }
}

} // verus!
