//! Single-precision arithmetic on whole numbers and their ratios: what is left
//! of a number in 24 significant bits, rounded to nearest, ties to even.
use vstd::prelude::*;

verus! {

/// `p / q` to the nearest whole number, a tie going to the even one.
pub open spec fn half_even(p: int, q: int) -> int {
    let d = p / q;
    let r = p % q;
    if 2 * r > q || (2 * r == q && d % 2 == 1) {
        d + 1
    } else {
        d
    }
}

/// `n` to the nearest multiple of the least power of two, from `unit` on, that
/// leaves 24 bits of it.
pub open spec fn single_from(n: int, unit: int) -> int
    decreases 0x100_0000_0000_0000 - unit,
{
    if n < 0x100_0000 * unit || 2 * unit > 0x100_0000_0000_0000 || unit <= 0 {
        half_even(n, unit) * unit
    } else {
        single_from(n, 2 * unit)
    }
}

/// What single precision keeps of a whole number.
pub open spec fn spec_single(n: int) -> int {
    single_from(n, 1)
}

/// The least power of two, from `unit` on, that brings `num / den` to 24 bits.
pub open spec fn ratio_unit(num: int, den: int, unit: int) -> int
    decreases 0x100_0000_0000_0000 - unit,
{
    if num * unit >= 0x80_0000 * den || 2 * unit > 0x100_0000_0000_0000 || unit <= 0 {
        unit
    } else {
        ratio_unit(num, den, 2 * unit)
    }
}

/// What single precision makes of `n` times the ratio of `num` to `den`, where
/// that is less than one: the ratio is rounded, then the product; the whole
/// number nearest to that is the result, a tie going up.
pub open spec fn spec_scaled_down(n: int, num: int, den: int) -> int {
    let unit = ratio_unit(num, den, 1);
    let ratio = half_even(num * unit, den);
    let product = spec_single(n * ratio);
    (2 * product + unit) / (2 * unit)
}

fn to_half_even(p: u128, q: u128) -> (r: u128)
    requires
        0 < q <= 0x100_0000_0000_0000,
        p <= 0x1000_0000_0000_0000_0000_0000_0000,
    ensures
        r == half_even(p as int, q as int),
        r <= p / q + 1,
{
    let d: u128 = p / q;
    let rest: u128 = p % q;
    proof {
        assert(p / q <= p) by (nonlinear_arith)
            requires
                q >= 1,
                p >= 0,
        ;
    }
    if 2 * rest > q || (2 * rest == q && d % 2 == 1) {
        d + 1
    } else {
        d
    }
}

proof fn lemma_half_even_times(p: int, q: int)
    requires
        p >= 0,
        q > 0,
    ensures
        0 <= half_even(p, q) * q <= p + q,
        half_even(p, q) >= 0,
        half_even(p, 1) == p,
{
    assert(p == q * (p / q) + p % q) by (nonlinear_arith)
        requires
            q > 0,
    ;
    assert(p / q >= 0) by (nonlinear_arith)
        requires
            p >= 0,
            q > 0,
    ;
    let d = p / q;
    assert(d * q == q * d && (d + 1) * q == q * d + q && q * d >= 0) by (nonlinear_arith)
        requires
            d >= 0,
            q > 0,
    ;
}

/// What single precision keeps of a whole number.
pub fn single(n: u64) -> (r: u128)
    requires
        n <= 0x800_0000_0000_0000,
    ensures
        r == spec_single(n as int),
        r <= 2 * n + 1,
{
    let mut unit: u128 = 1;
    while n as u128 >= 0x100_0000 * unit && 2 * unit <= 0x100_0000_0000_0000
        invariant
            1 <= unit <= 0x100_0000_0000_0000,
            n <= 0x800_0000_0000_0000,
            spec_single(n as int) == single_from(n as int, unit as int),
            unit == 1 || 0x80_0000 * unit <= n,
        decreases 0x100_0000_0000_0000 - unit,
    {
        unit = 2 * unit;
    }
    let kept: u128 = to_half_even(n as u128, unit);
    proof {
        lemma_half_even_times(n as int, unit as int);
    }
    kept * unit
}

/// What single precision keeps of a number of up to 24 bits is that number.
pub proof fn lemma_small_is_single(n: int)
    requires
        0 <= n <= 0x100_0000,
    ensures
        spec_single(n) == n,
{
    lemma_half_even_times(n, 1);
    if n == 0x100_0000 {
        assert(single_from(n, 1) == single_from(n, 2));
        assert(single_from(n, 2) == half_even(n, 2) * 2);
    }
}

/// What single precision keeps of a number of more than 24 bits still has as
/// many.
pub proof fn lemma_large_stays_large(n: int)
    requires
        n >= 0x100_0000,
    ensures
        spec_single(n) >= 0x100_0000,
{
    lemma_large_from(n, 1);
}

proof fn lemma_large_from(n: int, unit: int)
    requires
        unit >= 1,
        n >= 0x100_0000,
        n >= 0x80_0000 * unit,
    ensures
        single_from(n, unit) >= 0x100_0000,
    decreases 0x100_0000_0000_0000 - unit,
{
    if n < 0x100_0000 * unit || 2 * unit > 0x100_0000_0000_0000 {
        assert(n / unit >= 0x80_0000) by (nonlinear_arith)
            requires
                n >= 0x80_0000 * unit,
                unit >= 1,
        ;
        assert(half_even(n, unit) * unit >= 0x80_0000 * 2) by (nonlinear_arith)
            requires
                half_even(n, unit) >= 0x80_0000,
                unit >= 2,
        ;
    } else {
        lemma_large_from(n, 2 * unit);
    }
}

/// What single precision makes of `n` times the ratio of `num` to `den`.
pub fn scaled_down(n: u64, num: u64, den: u64) -> (r: u128)
    requires
        n <= 0x4_0000_0000,
        num < den <= 0x4_0000_0000,
    ensures
        r == spec_scaled_down(n as int, num as int, den as int),
{
    proof {
        assert(num as int * 1 == num);
    }
    let mut unit: u128 = 1;
    let mut wide: u128 = num as u128;
    while wide < 0x80_0000 * den as u128 && 2 * unit <= 0x100_0000_0000_0000
        invariant
            1 <= unit <= 0x100_0000_0000_0000,
            num < den <= 0x4_0000_0000,
            wide == num * unit,
            wide <= 0x100_0000 * den,
            ratio_unit(num as int, den as int, 1) == ratio_unit(
                num as int,
                den as int,
                unit as int,
            ),
        decreases 0x100_0000_0000_0000 - unit,
    {
        proof {
            assert(num as int * (2 * unit as int) == 2 * (num as int * unit as int))
                by (nonlinear_arith);
        }
        unit = 2 * unit;
        wide = 2 * wide;
    }
    let ratio: u128 = to_half_even(wide, den as u128);
    proof {
        assert(wide as int / den as int <= 0x100_0000) by (nonlinear_arith)
            requires
                0 <= wide <= 0x100_0000 * den,
                den > 0,
        ;
        assert(0 <= n as int * ratio as int <= 0x4_0000_0000 * 0x100_0001) by (nonlinear_arith)
            requires
                0 <= n <= 0x4_0000_0000,
                0 <= ratio <= 0x100_0001,
        ;
    }
    let product: u128 = single((n as u128 * ratio) as u64);
    (2 * product + unit) / (2 * unit)
}

} // verus!
