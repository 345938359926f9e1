//! Numbers given as the bits of an IEEE 754 single, turned into integers exactly.
//!
//! Coordinates and scroll amounts arrive as singles. What the injectors make of them is an
//! integer, so it is computed here in integers: a finite single is a whole number times a power
//! of two, and a product of two singles is the exact product, rounded to twenty-four significant
//! bits with ties to even.
use vstd::prelude::*;

use crate::protocol::SingleBits;

verus! {

/// The exponent field.
pub open spec fn exponent(x: SingleBits) -> int {
    ((x.0 / 0x80_0000) % 0x100) as int
}

/// The fraction field.
pub open spec fn fraction(x: SingleBits) -> int {
    (x.0 % 0x80_0000) as int
}

/// The sign bit is set.
pub open spec fn is_negative(x: SingleBits) -> bool {
    x.0 >= 0x8000_0000
}

/// Not a number.
pub open spec fn is_nan(x: SingleBits) -> bool {
    exponent(x) == 0xff && fraction(x) != 0
}

/// Positive or negative infinity.
pub open spec fn is_infinite(x: SingleBits) -> bool {
    exponent(x) == 0xff && fraction(x) == 0
}

/// The whole number of a finite single's magnitude `mantissa * 2^scale`.
pub open spec fn mantissa(x: SingleBits) -> int {
    if exponent(x) == 0 {
        fraction(x)
    } else {
        fraction(x) + 0x80_0000
    }
}

/// The power of two of a finite single's magnitude `mantissa * 2^scale`.
pub open spec fn scale(x: SingleBits) -> int {
    if exponent(x) == 0 {
        -149
    } else {
        exponent(x) - 150
    }
}

/// `2^e`.
pub open spec fn two_to(e: int) -> int {
    vstd::arithmetic::power2::pow2(e as nat) as int
}

/// `m * 2^e` rounded to the nearest whole number, halves away from zero.
pub open spec fn nearest(m: int, e: int) -> int {
    if e >= 0 {
        m * two_to(e)
    } else {
        (2 * m + two_to(-e)) / (2 * two_to(-e))
    }
}

/// `m * 2^e` without its fractional part.
pub open spec fn whole_part(m: int, e: int) -> int {
    if e >= 0 {
        m * two_to(e)
    } else {
        m / two_to(-e)
    }
}

/// `v`, or the bound that it exceeds.
pub open spec fn clamped(v: int, low: int, high: int) -> int {
    if v < low {
        low
    } else if v > high {
        high
    } else {
        v
    }
}

/// The value divided by `2^shift`, rounded to the nearest whole number with halves away from
/// zero and saturated to 32 bits. Not-a-number gives zero.
pub open spec fn rounded(x: SingleBits, shift: int) -> int {
    if is_nan(x) {
        0
    } else if is_infinite(x) {
        if is_negative(x) {
            i32::MIN as int
        } else {
            i32::MAX as int
        }
    } else {
        let magnitude = nearest(mantissa(x), scale(x) - shift);
        clamped(
            if is_negative(x) {
                -magnitude
            } else {
                magnitude
            },
            i32::MIN as int,
            i32::MAX as int,
        )
    }
}

proof fn lemma_two_to_values()
    ensures
        two_to(0) == 1,
        two_to(8) == 0x100,
        two_to(9) == 0x200,
        two_to(23) == 0x80_0000,
        two_to(24) == 0x100_0000,
        two_to(25) == 0x200_0000,
        two_to(31) == 0x8000_0000,
{
    vstd::arithmetic::power2::lemma2_to64();
}

proof fn lemma_two_to_monotonic(a: int, b: int)
    requires
        0 <= a <= b,
    ensures
        0 < two_to(a) <= two_to(b),
{
    vstd::arithmetic::power2::lemma_pow2_pos(a as nat);
    if a < b {
        vstd::arithmetic::power2::lemma_pow2_strictly_increases(a as nat, b as nat);
    }
}

/// `2^k`, for small `k`.
fn power(k: u32) -> (r: u64)
    requires
        k < 64,
    ensures
        r == two_to(k as int),
{
    proof {
        vstd::bits::lemma_u64_pow2_no_overflow(k as nat);
        vstd::bits::lemma_u64_shl_is_mul(1, k as u64);
    }
    1u64 << (k as u64)
}

/// The magnitude of a finite single divided by `2^shift`, rounded, at most `2^32`.
fn nearest_capped(m: u32, e: i32) -> (r: u64)
    requires
        m < 0x100_0000,
        -200 <= e <= 200,
        e >= 0 ==> m >= 0x80_0000,
    ensures
        r == (if nearest(m as int, e as int) > 0x1_0000_0000 {
            0x1_0000_0000
        } else {
            nearest(m as int, e as int)
        }),
{
    proof {
        lemma_two_to_values();
    }
    if e >= 0 {
        if e > 8 {
            proof {
                lemma_two_to_monotonic(9, e as int);
                assert(m * two_to(e as int) >= 0x80_0000 * 0x200) by (nonlinear_arith)
                    requires
                        m >= 0x80_0000,
                        two_to(e as int) >= 0x200,
                ;
            }
            return 0x1_0000_0000;
        }
        proof {
            lemma_two_to_monotonic(e as int, 8);
            assert(m * two_to(e as int) <= 0xff_ffff * 0x100) by (nonlinear_arith)
                requires
                    0 <= m <= 0xff_ffff,
                    0 < two_to(e as int) <= 0x100,
            ;
        }
        return (m as u64) * power(e as u32);
    }
    let s: u32 = (-e) as u32;
    if s >= 25 {
        proof {
            lemma_two_to_monotonic(25, s as int);
            let p = two_to(s as int);
            vstd::arithmetic::div_mod::lemma_basic_div(2 * m + p, 2 * p);
        }
        return 0;
    }
    let p: u64 = power(s);
    proof {
        lemma_two_to_monotonic(s as int, 24);
        lemma_two_to_monotonic(0, s as int);
        vstd::arithmetic::div_mod::lemma_div_is_ordered_by_denominator(
            2 * m + p,
            1,
            2 * p as int,
        );
    }
    (2 * (m as u64) + p) / (2 * p)
}

/// The value of `x` divided by `2^shift`, rounded to the nearest whole number with halves away
/// from zero and saturated.
pub fn round_to_i32(x: SingleBits, shift: u32) -> (r: i32)
    requires
        shift <= 16,
    ensures
        r == rounded(x, shift as int),
{
    let exp: u32 = (x.0 / 0x80_0000) % 0x100;
    let frac: u32 = x.0 % 0x80_0000;
    let negative: bool = x.0 >= 0x8000_0000;
    if exp == 0xff {
        if frac != 0 {
            return 0;
        }
        return if negative {
            i32::MIN
        } else {
            i32::MAX
        };
    }
    let m: u32 = if exp == 0 {
        frac
    } else {
        frac + 0x80_0000
    };
    let e: i32 = if exp == 0 {
        -149 - shift as i32
    } else {
        exp as i32 - 150 - shift as i32
    };
    assert(m == mantissa(x) && e == scale(x) - shift);
    let magnitude: u64 = nearest_capped(m, e);
    if negative {
        if magnitude >= 0x8000_0000 {
            i32::MIN
        } else {
            -(magnitude as i32)
        }
    } else {
        if magnitude >= 0x7fff_ffff {
            i32::MAX
        } else {
            magnitude as i32
        }
    }
}

/// How many bits a whole number has beyond twenty-four.
pub open spec fn excess_bits(n: nat) -> nat
    decreases n,
{
    if n < 0x100_0000 {
        0
    } else {
        excess_bits(n / 2) + 1
    }
}

/// A whole number rounded to twenty-four significant bits, ties to even.
pub open spec fn to_single(n: nat) -> int {
    let p = two_to(excess_bits(n) as int);
    let q = n as int / p;
    let r = n as int % p;
    if 2 * r > p || (2 * r == p && q % 2 == 1) {
        (q + 1) * p
    } else {
        q * p
    }
}

/// Halving `n` for `k` times is dividing it by `2^k`.
proof fn lemma_halve(n: int, k: int)
    requires
        0 <= n,
        0 <= k,
    ensures
        (n / two_to(k)) / 2 == n / two_to(k + 1),
        two_to(k + 1) == 2 * two_to(k),
        two_to(k) > 0,
{
    vstd::arithmetic::power2::lemma_pow2_pos(k as nat);
    vstd::arithmetic::power2::lemma_pow2_unfold((k + 1) as nat);
    vstd::arithmetic::div_mod::lemma_div_denominator(n, two_to(k), 2);
    assert(two_to(k) * 2 == 2 * two_to(k)) by (nonlinear_arith);
}

/// A number with bits in excess is at least `2^23` times the place of its last kept bit.
proof fn lemma_excess_bits(n: nat)
    ensures
        two_to(excess_bits(n) as int) > 0,
        excess_bits(n) > 0 ==> two_to(excess_bits(n) as int) * 0x80_0000 <= n,
    decreases n,
{
    lemma_two_to_values();
    if n >= 0x100_0000 {
        lemma_excess_bits(n / 2);
        let e = excess_bits(n / 2);
        lemma_halve(0, e as int);
        if e == 0 {
            assert(two_to(1) == 2);
        }
    }
}

/// Rounding adds at most half of the place of the last kept bit.
proof fn lemma_to_single_half(n: nat)
    ensures
        0 <= to_single(n),
        2 * (to_single(n) - n) <= two_to(excess_bits(n) as int),
        excess_bits(n) == 0 ==> to_single(n) == n,
{
    lemma_excess_bits(n);
    let p = two_to(excess_bits(n) as int);
    let q = n as int / p;
    vstd::arithmetic::div_mod::lemma_fundamental_div_mod(n as int, p);
    assert(q * p == p * q) by (nonlinear_arith);
    assert((q + 1) * p == q * p + p) by (nonlinear_arith);
    lemma_two_to_values();
    assert(q >= 0) by {
        vstd::arithmetic::div_mod::lemma_div_pos_is_pos(n as int, p);
    }
    assert(q * p >= 0) by (nonlinear_arith)
        requires
            q >= 0,
            p > 0,
    ;
}

proof fn lemma_to_single_bound(n: nat)
    requires
        n < 0x100_0000_0000,
    ensures
        0 <= to_single(n) <= n + 0xffff,
{
    lemma_excess_bits(n);
    lemma_to_single_half(n);
    lemma_two_to_values();
}

/// Whole numbers up to `2^24` are singles.
proof fn lemma_small_is_exact(n: nat)
    requires
        n <= 0x100_0000,
    ensures
        to_single(n) == n,
{
    lemma_to_single_half(n);
    lemma_two_to_values();
    if n == 0x100_0000 {
        assert(excess_bits(0x80_0000) == 0);
        assert(excess_bits(n) == 1);
        assert(two_to(1) == 2) by {
            lemma_halve(0, 0);
        }
    }
}

/// Round a whole number to the precision of a single.
fn round_to_single(n: u64) -> (r: u64)
    requires
        n < 0x100_0000_0000_0000,
    ensures
        r == to_single(n as nat),
        r <= 0x100_0000_0000_0000,
        n < 0x100_0000_0000 ==> r <= n + 0xffff,
{
    let mut t: u64 = n;
    let mut d: u32 = 0;
    proof {
        lemma_two_to_values();
        assert(n as int / two_to(0) == n) by {
            vstd::arithmetic::div_mod::lemma_div_basics(n as int);
        }
    }
    while t >= 0x100_0000
        invariant
            n < 0x100_0000_0000_0000,
            t == n as int / two_to(d as int),
            excess_bits(n as nat) == d + excess_bits(t as nat),
            d <= 32,
            two_to(d as int) > 0,
            t as int * two_to(d as int) <= n,
        decreases t,
    {
        proof {
            lemma_halve(n as int, d as int);
            let p = two_to(d as int);
            assert(t / 2 >= 0x80_0000);
            assert(p <= 0xffff_ffff) by (nonlinear_arith)
                requires
                    t as int * p <= n,
                    t >= 0x100_0000,
                    n < 0x100_0000_0000_0000,
                    p > 0,
            ;
            if d >= 32 {
                lemma_two_to_monotonic(32, d as int);
                vstd::arithmetic::power2::lemma2_to64();
                assert(two_to(32) == 0x1_0000_0000);
            }
            assert((t as int / 2) * (2 * p) <= n) by (nonlinear_arith)
                requires
                    t as int * p <= n,
                    p > 0,
                    2 * (t as int / 2) <= t,
            ;
        }
        t = t / 2;
        d = d + 1;
    }
    let p: u64 = power(d);
    let q: u64 = t;
    proof {
        vstd::arithmetic::div_mod::lemma_fundamental_div_mod(n as int, p as int);
        assert(q * p == p as int * (n as int / p as int)) by (nonlinear_arith)
            requires
                q == n as int / p as int,
        ;
        assert(q <= 0xff_ffff && p <= 0x1_0000_0000) by {
            lemma_two_to_monotonic(d as int, 32);
            vstd::arithmetic::power2::lemma2_to64();
        }
        assert((q + 1) * p <= 0x100_0000 * 0x1_0000_0000) by (nonlinear_arith)
            requires
                0 <= q <= 0xff_ffff,
                0 < p <= 0x1_0000_0000,
        ;
        assert(q * p <= (q + 1) * p) by (nonlinear_arith)
            requires
                0 < p,
        ;
        assert((q + 1) * p == q * p + p) by (nonlinear_arith);
        if n < 0x100_0000_0000 {
            lemma_to_single_bound(n as nat);
        }
    }
    let rest: u64 = n % p;
    if 2 * rest > p || (2 * rest == p && q % 2 == 1) {
        (q + 1) * p
    } else {
        q * p
    }
}

/// The upper end of an absolute pointer axis.
pub const ABS_MAX: i32 = 0xffff;

/// The single is at least one.
pub open spec fn at_least_one(x: SingleBits) -> bool {
    !is_nan(x) && !is_negative(x) && exponent(x) >= 127
}

/// The coordinate on an absolute axis: the normalised coordinate, kept within zero and one, times
/// the axis, as a product of singles, rounded to the nearest whole number.
pub open spec fn on_axis(x: SingleBits) -> int {
    if is_nan(x) || is_negative(x) {
        0
    } else if at_least_one(x) {
        ABS_MAX as int
    } else {
        nearest(to_single((mantissa(x) * 0xffff) as nat), scale(x))
    }
}

/// A coordinate never leaves the axis.
pub proof fn places_lie_on_the_axis(x: SingleBits)
    ensures
        0 <= on_axis(x) <= ABS_MAX,
{
    if !is_nan(x) && !is_negative(x) && !at_least_one(x) {
        let m = mantissa(x);
        let s = -scale(x);
        lemma_to_single_bound((m * 0xffff) as nat);
        let product = to_single((m * 0xffff) as nat);
        lemma_two_to_values();
        lemma_two_to_monotonic(24, s);
        let p = two_to(s);
        assert(0 <= (2 * product + p) / (2 * p) <= 0xffff) by (nonlinear_arith)
            requires
                0 <= product <= 0xffff * 0x100_0000,
                p >= 0x100_0000,
        ;
    }
}

/// A normalised coordinate as an absolute axis value.
pub fn normalised_to_abs(x: SingleBits) -> (r: i32)
    ensures
        r == on_axis(x),
        0 <= r <= ABS_MAX,
{
    let exp: u32 = (x.0 / 0x80_0000) % 0x100;
    let frac: u32 = x.0 % 0x80_0000;
    let negative: bool = x.0 >= 0x8000_0000;
    if negative || (exp == 0xff && frac != 0) {
        return 0;
    }
    if exp >= 127 {
        return ABS_MAX;
    }
    let m: u64 = if exp == 0 {
        frac as u64
    } else {
        frac as u64 + 0x80_0000
    };
    let s: u32 = if exp == 0 {
        149
    } else {
        150 - exp
    };
    assert(m == mantissa(x) && s == -scale(x));
    let product: u64 = round_to_single(m * 0xffff);
    proof {
        lemma_two_to_values();
        lemma_two_to_monotonic(24, s as int);
    }
    if s >= 62 {
        proof {
            lemma_two_to_monotonic(62, s as int);
            vstd::arithmetic::power2::lemma2_to64_rest();
            let p = two_to(s as int);
            assert(two_to(62) == 0x4000_0000_0000_0000);
            vstd::arithmetic::div_mod::lemma_basic_div(2 * product + p, 2 * p);
        }
        return 0;
    }
    let p: u64 = power(s);
    proof {
        lemma_two_to_monotonic(s as int, 61);
        vstd::arithmetic::power2::lemma2_to64_rest();
        assert((2 * product + p) as int / (2 * p as int) <= 0xffff) by (nonlinear_arith)
            requires
                product <= 0xffff * 0x100_0000,
                p >= 0x100_0000,
        ;
    }
    ((2 * product + p) / (2 * p)) as i32
}

/// The coordinate on a display `dim` pixels across: the normalised coordinate, kept within zero
/// and one, times the size, as a product of singles, without its fractional part.
pub open spec fn on_display(x: SingleBits, dim: int) -> int {
    let size = to_single(dim as nat);
    if is_nan(x) || is_negative(x) {
        0
    } else if at_least_one(x) {
        clamped(size, i32::MIN as int, i32::MAX as int)
    } else {
        clamped(
            whole_part(to_single((mantissa(x) * size) as nat), scale(x)),
            i32::MIN as int,
            i32::MAX as int,
        )
    }
}

/// On a display of up to `2^24` pixels a coordinate lies within it, or just past its end.
pub proof fn pixels_lie_on_the_display(x: SingleBits, dim: int)
    requires
        0 < dim <= 0x100_0000,
    ensures
        0 <= on_display(x, dim) <= dim,
{
    let size = to_single(dim as nat);
    lemma_two_to_values();
    lemma_small_is_exact(dim as nat);
    if !is_nan(x) && !is_negative(x) && !at_least_one(x) {
        let m = mantissa(x);
        let s = -scale(x);
        assert(m * size >= 0) by (nonlinear_arith)
            requires
                m >= 0,
                size >= 0,
        ;
        let n = (m * size) as nat;
        lemma_excess_bits(n);
        lemma_to_single_half(n);
        let p = two_to(excess_bits(n) as int);
        assert(n <= 0xff_ffff * dim) by (nonlinear_arith)
            requires
                n == m * dim,
                0 <= m <= 0xff_ffff,
                dim > 0,
        ;
        assert(to_single(n) <= 0x100_0000 * dim);
        lemma_two_to_monotonic(24, s);
        let q = two_to(s);
        let t = to_single(n);
        assert(0 <= t / q <= dim) by (nonlinear_arith)
            requires
                0 <= t <= 0x100_0000 * dim,
                q >= 0x100_0000,
                dim > 0,
        ;
    }
}

/// A normalised coordinate as a pixel on a display `dim` pixels across.
pub fn project(x: SingleBits, dim: i32) -> (r: i32)
    requires
        dim > 0,
    ensures
        r == on_display(x, dim as int),
        r >= 0,
{
    let size: u64 = round_to_single(dim as u64);
    let exp: u32 = (x.0 / 0x80_0000) % 0x100;
    let frac: u32 = x.0 % 0x80_0000;
    let negative: bool = x.0 >= 0x8000_0000;
    if negative || (exp == 0xff && frac != 0) {
        return 0;
    }
    if exp >= 127 {
        return if size > 0x7fff_ffff {
            i32::MAX
        } else {
            size as i32
        };
    }
    let m: u64 = if exp == 0 {
        frac as u64
    } else {
        frac as u64 + 0x80_0000
    };
    let s: u32 = if exp == 0 {
        149
    } else {
        150 - exp
    };
    assert(m == mantissa(x) && s == -scale(x));
    proof {
        assert(m * size < 0x100_0000_0000_0000) by (nonlinear_arith)
            requires
                m < 0x100_0000,
                size <= 0x7fff_ffff + 0xffff,
        ;
    }
    let product: u64 = round_to_single(m * size);
    proof {
        lemma_two_to_values();
        lemma_two_to_monotonic(24, s as int);
    }
    if s >= 62 {
        proof {
            lemma_two_to_monotonic(62, s as int);
            vstd::arithmetic::power2::lemma2_to64_rest();
            assert(two_to(62) == 0x4000_0000_0000_0000);
            vstd::arithmetic::div_mod::lemma_basic_div(product as int, two_to(s as int));
        }
        return 0;
    }
    let p: u64 = power(s);
    let whole: u64 = product / p;
    if whole > 0x7fff_ffff {
        i32::MAX
    } else {
        whole as i32
    }
}

/// A number is rounded to the nearest whole one, in units of `2^shift`: twice the distance is at
/// most one unit, and a half goes away from zero. Beyond 32 bits it is the bound.
pub proof fn rounding_is_to_the_nearest(x: SingleBits, shift: int)
    requires
        !is_nan(x),
        !is_infinite(x),
        scale(x) <= shift,
        i32::MIN < rounded(x, shift) < i32::MAX,
    ensures
        ({
            let unit = two_to(shift - scale(x));
            let r = if is_negative(x) {
                -rounded(x, shift)
            } else {
                rounded(x, shift)
            };
            0 <= r && 2 * mantissa(x) - unit < 2 * (unit * r) <= 2 * mantissa(x) + unit
        }),
{
    let d = shift - scale(x);
    lemma_two_to_monotonic(0, d);
    let p = two_to(d);
    let m = mantissa(x);
    lemma_two_to_values();
    if d > 0 {
        let q = (2 * m + p) / (2 * p);
        vstd::arithmetic::div_mod::lemma_fundamental_div_mod(2 * m + p, 2 * p);
        assert(2 * (p * q) == (2 * p) * q) by (nonlinear_arith);
        assert(q >= 0) by {
            vstd::arithmetic::div_mod::lemma_div_pos_is_pos(2 * m + p, 2 * p);
        }
    } else {
        assert(p == 1);
        assert(m * two_to(0) == m) by (nonlinear_arith)
            requires
                two_to(0) == 1,
        ;
    }
}

/// What is not negative is not rounded to less than zero, and what is negative not to more.
pub proof fn rounding_keeps_the_sign(x: SingleBits, shift: int)
    ensures
        !is_negative(x) ==> rounded(x, shift) >= 0,
        is_negative(x) ==> rounded(x, shift) <= 0,
{
    if !is_nan(x) && !is_infinite(x) {
        let e = scale(x) - shift;
        let m = mantissa(x);
        if e >= 0 {
            lemma_two_to_monotonic(0, e);
            assert(m * two_to(e) >= 0) by (nonlinear_arith)
                requires
                    m >= 0,
                    two_to(e) > 0,
            ;
        } else {
            lemma_two_to_monotonic(0, -e);
            let p = two_to(-e);
            vstd::arithmetic::div_mod::lemma_div_pos_is_pos(2 * m + p, 2 * p);
        }
    }
}

/// At one and beyond a coordinate is the far end of the axis or display, and at zero and before
/// the near end.
pub proof fn edges_lie_at_the_edges(x: SingleBits, dim: int)
    requires
        0 < dim <= 0x100_0000,
    ensures
        at_least_one(x) ==> on_axis(x) == 0xffff && on_display(x, dim) == dim,
        is_negative(x) || x.0 == 0 ==> on_axis(x) == 0 && on_display(x, dim) == 0,
        !is_negative(x) && x.0 >= 0x3f80_0000 && x.0 <= 0x7f80_0000 <==> at_least_one(x),
{
    lemma_small_is_exact(dim as nat);
    lemma_two_to_values();
    if x.0 == 0 {
        lemma_small_is_exact(0);
        lemma_two_to_monotonic(1, 149);
        let p = two_to(149);
        vstd::arithmetic::div_mod::lemma_basic_div(p, 2 * p);
        vstd::arithmetic::div_mod::lemma_basic_div(0, p);
        assert(0 * dim == 0);
    }
}

/// A clamped number lies within the bounds, is the number itself where that does, and is otherwise
/// the bound on its side.
pub proof fn clamping_keeps_what_lies_within(v: int, low: int, high: int)
    requires
        low <= high,
    ensures
        low <= clamped(v, low, high) <= high,
        low <= v <= high ==> clamped(v, low, high) == v,
        v < low ==> clamped(v, low, high) == low,
        v > high ==> clamped(v, low, high) == high,
{
}

/// The sign is the highest bit, the infinities are the two numbers with an all-ones exponent and
/// nothing else, and what lies above either of them is no number.
pub proof fn special_values_have_their_bits(x: SingleBits)
    ensures
        is_negative(x) <==> 0x8000_0000 <= x.0,
        is_infinite(x) <==> x.0 == 0x7f80_0000 || x.0 == 0xff80_0000,
        is_nan(x) <==> 0x7f80_0000 < x.0 < 0x8000_0000 || 0xff80_0000 < x.0,
{
}

/// The patterns of the finite numbers count up from nothing in units of their last place: each is
/// one unit above the pattern before it, also where the unit doubles.
pub proof fn patterns_count_up_by_the_last_place(x: SingleBits)
    requires
        x.0 < 0x7f7f_ffff,
    ensures
        x.0 == 0 ==> mantissa(x) == 0 && scale(x) == -149,
        ({
            let next = SingleBits((x.0 + 1) as u32);
            ||| mantissa(next) == mantissa(x) + 1 && scale(next) == scale(x)
            ||| 2 * mantissa(next) == mantissa(x) + 1 && scale(next) == scale(x) + 1
        }),
        mantissa(x) < 0x100_0000,
        scale(x) > -149 ==> 0x80_0000 <= mantissa(x),
{
}

} // verus!
