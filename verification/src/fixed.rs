//! Fixed-point arithmetic on single samples.
//!
//! A sample is a 32-bit integer `raw` read at a precision `p`, the number of
//! bits behind the binary point: it stands for `raw / 2^p`. Two samples are
//! brought to the larger of their precisions before they are combined. A
//! result that does not fit the 32-bit range saturates at the nearest end of
//! it; a quotient is rounded toward zero, and dividing by zero gives zero.
use vstd::prelude::*;
use vstd::arithmetic::power2::pow2;

verus! {

/// The largest precision: the binary point stands within the 32-bit word.
pub const MAX_PRECISION: u32 = 31;

/// `v` brought into the 32-bit range by saturation.
pub open spec fn clamp(v: int) -> int {
    if v < i32::MIN as int {
        i32::MIN as int
    } else if v > i32::MAX as int {
        i32::MAX as int
    } else {
        v
    }
}

/// The magnitude of `v`.
pub open spec fn magnitude(v: int) -> int {
    if v < 0 {
        -v
    } else {
        v
    }
}

/// The quotient of `n` by `d`, rounded toward zero; zero where `d` is zero.
pub open spec fn quotient(n: int, d: int) -> int {
    if d == 0 {
        0
    } else if (n < 0) == (d < 0) {
        magnitude(n) / magnitude(d)
    } else {
        -(magnitude(n) / magnitude(d))
    }
}

/// The precision at which samples of precisions `pa` and `pb` are combined.
pub open spec fn common(pa: nat, pb: nat) -> nat {
    if pa >= pb {
        pa
    } else {
        pb
    }
}

/// The smaller of two precisions.
pub open spec fn lesser(pa: nat, pb: nat) -> nat {
    if pa <= pb {
        pa
    } else {
        pb
    }
}

/// The raw value that stands at precision `to` for what `raw` stands for at
/// precision `from`, where `from <= to`. It is exact and not yet saturated.
pub open spec fn lift(raw: int, from: nat, to: nat) -> int {
    raw * pow2((to - from) as nat)
}

/// The sum of two samples, at their common precision.
pub open spec fn sum_at(a: int, pa: nat, b: int, pb: nat) -> int {
    clamp(lift(a, pa, common(pa, pb)) + lift(b, pb, common(pa, pb)))
}

/// The difference of two samples, at their common precision.
pub open spec fn difference_at(a: int, pa: nat, b: int, pb: nat) -> int {
    clamp(lift(a, pa, common(pa, pb)) - lift(b, pb, common(pa, pb)))
}

/// The product of two samples, at their common precision. The exact product
/// has `pa + pb` bits behind the point; the lesser number is cut off.
pub open spec fn product_at(a: int, pa: nat, b: int, pb: nat) -> int {
    clamp(quotient(a * b, pow2(lesser(pa, pb)) as int))
}

/// The quotient of two samples, at their common precision; zero where the
/// divisor is zero.
pub open spec fn ratio_at(a: int, pa: nat, b: int, pb: nat) -> int {
    clamp(quotient(a * pow2((common(pa, pb) + pb - pa) as nat), b))
}

/// A quotient times its divisor misses the dividend by less than the divisor.
pub proof fn lemma_quotient_is_close(n: int, d: int)
    requires
        d != 0,
    ensures
        magnitude(n - quotient(n, d) * d) < magnitude(d),
{
    let mn = magnitude(n);
    let md = magnitude(d);
    let q = mn / md;
    vstd::arithmetic::div_mod::lemma_fundamental_div_mod(mn, md);
    vstd::arithmetic::div_mod::lemma_mod_bound(mn, md);
    assert(mn == md * q + mn % md);
    assert(0 <= mn - md * q < md);
    if (n < 0) == (d < 0) {
        assert(quotient(n, d) == q);
        if n < 0 {
            assert(q * d == -(md * q)) by (nonlinear_arith)
                requires
                    d == -md,
            ;
        } else {
            assert(q * d == md * q) by (nonlinear_arith)
                requires
                    d == md,
            ;
        }
    } else {
        assert(quotient(n, d) == -q);
        if n < 0 {
            assert((-q) * d == -(md * q)) by (nonlinear_arith)
                requires
                    d == md,
            ;
        } else {
            assert((-q) * d == md * q) by (nonlinear_arith)
                requires
                    d == -md,
            ;
        }
    }
}

/// Saturates a wide value to a sample.
pub fn saturate(v: i128) -> (r: i32)
    ensures
        r as int == clamp(v as int),
{
    if v < -2147483648i128 {
        -2147483648i32
    } else if v > 2147483647i128 {
        2147483647i32
    } else {
        v as i32
    }
}

/// Two to the power `e`.
pub fn power_of_two(e: u32) -> (r: i128)
    requires
        e <= 62,
    ensures
        r == pow2(e as nat),
        0 < r <= 0x4000_0000_0000_0000,
{
    proof {
        vstd::arithmetic::power2::lemma2_to64();
        vstd::arithmetic::power2::lemma2_to64_rest();
        if e < 62 {
            vstd::arithmetic::power2::lemma_pow2_strictly_increases(e as nat, 62);
        }
        vstd::arithmetic::power2::lemma_pow2_pos(e as nat);
        vstd::bits::lemma_u64_shl_is_mul(1u64, e as u64);
    }
    let r: u64 = 1u64 << (e as u64);
    r as i128
}

/// The quotient of `n` by `d`, rounded toward zero.
pub fn divide(n: i128, d: i128) -> (r: i128)
    requires
        d != 0,
        n > i128::MIN,
        d > i128::MIN,
    ensures
        r == quotient(n as int, d as int),
{
    let mn: i128 = if n < 0 { -n } else { n };
    let md: i128 = if d < 0 { -d } else { d };
    let q: i128 = mn / md;
    if (n < 0) == (d < 0) {
        q
    } else {
        -q
    }
}

/// `raw` brought from precision `from` up to precision `to`, exactly.
pub fn lifted(raw: i32, from: u32, to: u32) -> (r: i128)
    requires
        from <= to <= MAX_PRECISION,
    ensures
        r == lift(raw as int, from as nat, to as nat),
        -0x4000_0000_0000_0000 <= r <= 0x4000_0000_0000_0000,
{
    let scale: i128 = power_of_two(to - from);
    proof {
        vstd::arithmetic::power2::lemma2_to64();
        if to - from < 31 {
            vstd::arithmetic::power2::lemma_pow2_strictly_increases((to - from) as nat, 31);
        }
        assert(scale <= 0x8000_0000);
        let x = raw as int;
        let k = scale as int;
        assert(-0x4000_0000_0000_0000 <= x * k <= 0x4000_0000_0000_0000) by (nonlinear_arith)
            requires
                -0x8000_0000 <= x < 0x8000_0000,
                0 < k <= 0x8000_0000,
        ;
    }
    (raw as i128) * scale
}

/// Adds two samples at their common precision.
pub fn add_samples(a: i32, pa: u32, b: i32, pb: u32) -> (r: i32)
    requires
        pa <= MAX_PRECISION,
        pb <= MAX_PRECISION,
    ensures
        r == sum_at(a as int, pa as nat, b as int, pb as nat),
{
    let p: u32 = if pa >= pb { pa } else { pb };
    saturate(lifted(a, pa, p) + lifted(b, pb, p))
}

/// Subtracts the second sample from the first at their common precision.
pub fn sub_samples(a: i32, pa: u32, b: i32, pb: u32) -> (r: i32)
    requires
        pa <= MAX_PRECISION,
        pb <= MAX_PRECISION,
    ensures
        r == difference_at(a as int, pa as nat, b as int, pb as nat),
{
    let p: u32 = if pa >= pb { pa } else { pb };
    saturate(lifted(a, pa, p) - lifted(b, pb, p))
}

/// A wide exact product with `shift` bits behind the point cut off, rounded
/// toward zero and saturated.
pub fn narrow(wide: i128, shift: u32) -> (r: i32)
    requires
        shift <= 62,
        wide > i128::MIN,
    ensures
        r == clamp(quotient(wide as int, pow2(shift as nat) as int)),
{
    saturate(divide(wide, power_of_two(shift)))
}

/// Multiplies two samples; the result stands at their common precision.
pub fn mul_samples(a: i32, pa: u32, b: i32, pb: u32) -> (r: i32)
    requires
        pa <= MAX_PRECISION,
        pb <= MAX_PRECISION,
    ensures
        r == product_at(a as int, pa as nat, b as int, pb as nat),
{
    let m: u32 = if pa <= pb { pa } else { pb };
    proof {
        let x = a as int;
        let y = b as int;
        assert(-0x4000_0000_0000_0000 <= x * y <= 0x4000_0000_0000_0000) by (nonlinear_arith)
            requires
                -0x8000_0000 <= x < 0x8000_0000,
                -0x8000_0000 <= y < 0x8000_0000,
        ;
    }
    narrow((a as i128) * (b as i128), m)
}

/// Divides the first sample by the second; the result stands at their common
/// precision, and is zero where the second sample is zero.
pub fn div_samples(a: i32, pa: u32, b: i32, pb: u32) -> (r: i32)
    requires
        pa <= MAX_PRECISION,
        pb <= MAX_PRECISION,
    ensures
        r == ratio_at(a as int, pa as nat, b as int, pb as nat),
{
    if b == 0 {
        return 0;
    }
    let p: u32 = if pa >= pb { pa } else { pb };
    let e: u32 = p + pb - pa;
    let scale: i128 = power_of_two(e);
    proof {
        let x = a as int;
        let k = scale as int;
        assert(-0x2000_0000_0000_0000_0000_0000 <= x * k <= 0x2000_0000_0000_0000_0000_0000)
            by (nonlinear_arith)
            requires
                -0x8000_0000 <= x < 0x8000_0000,
                0 < k <= 0x4000_0000_0000_0000,
        ;
    }
    saturate(divide((a as i128) * scale, b as i128))
}

} // verus!
