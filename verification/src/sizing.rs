//! Target size of an image that is laid out at a given width: the height
//! follows the aspect ratio of the pixel dimensions, up to a ceiling of twice
//! the width.
//!
//! The scaled height is the one that double-precision arithmetic gives: the
//! aspect ratio is rounded to 53 significant bits, its product with the target
//! width is rounded again, and the result is cut to a whole number. The
//! verifier reasons about integers, so both roundings are carried out on
//! integers, and the specification functions below say exactly what they are.

use vstd::arithmetic::div_mod::{
    lemma_div_is_ordered, lemma_div_multiples_vanish, lemma_div_multiples_vanish_quotient,
    lemma_fundamental_div_mod, lemma_mod_bound, lemma_mod_multiples_basic,
    lemma_multiply_divide_le, lemma_multiply_divide_lt, lemma_truncate_middle,
};
use vstd::arithmetic::power2::{
    lemma2_to64, lemma_pow2_adds, lemma_pow2_pos, lemma_pow2_strictly_increases,
    lemma_pow2_unfold, pow2,
};
use vstd::prelude::*;

verus! {

/// 2^52: the least significand of 53 bits.
pub const SIGNIFICAND_MIN: u128 = 0x10_0000_0000_0000;

/// 2^53: the bound of the significands of 53 bits.
pub const SIGNIFICAND_BOUND: u128 = 0x20_0000_0000_0000;

/// The whole number nearest to `n / d`; of two equally near ones, the even
/// one.
pub open spec fn round_half_even(n: nat, d: nat) -> nat {
    let q = n / d;
    let r = n % d;
    if 2 * r > d || (2 * r == d && q % 2 == 1) {
        q + 1
    } else {
        q
    }
}

/// How far `n` lies below `bound`; 0 from `bound` on.
pub open spec fn shortfall(n: nat, bound: nat) -> nat {
    if n < bound {
        (bound - n) as nat
    } else {
        0
    }
}

/// The power of two by which `n / d` must be multiplied to reach at least
/// 2^52. For `0 < n < d * 2^52` the scaled quotient then lies below 2^53, so
/// that its whole part is a significand of 53 bits.
pub open spec fn quotient_scale(n: nat, d: nat) -> nat
    decreases shortfall(n, d * SIGNIFICAND_MIN as nat),
{
    if n == 0 || n >= d * SIGNIFICAND_MIN as nat {
        1
    } else {
        2 * quotient_scale(2 * n, d)
    }
}

/// The power of two that is the weight of the last of the 53 leading bits of
/// `p`; 1 where `p` has no more than 53 bits.
pub open spec fn significand_unit(p: nat) -> nat
    decreases p,
{
    if p < SIGNIFICAND_BOUND as nat {
        1
    } else {
        2 * significand_unit(p / 2)
    }
}

/// `target * (height / width)` as double-precision arithmetic computes it for
/// positive `height` and `width`, cut to a whole number.
///
/// With `scale` the power of two of [`quotient_scale`], the quotient
/// `height / width` rounds to `ratio / scale`. The exact product with
/// `target` is `product / scale`, which rounds to `rounded / scale`.
pub open spec fn binary64_scaled(target: nat, height: nat, width: nat) -> nat {
    let scale = quotient_scale(height, width);
    let ratio = round_half_even(height * scale, width);
    let product = target * ratio;
    let unit = significand_unit(product);
    let rounded = round_half_even(product, unit) * unit;
    rounded / scale
}

/// The scaled height as a 32-bit value: [`binary64_scaled`], capped at
/// `u32::MAX`.
pub open spec fn scaled_height_of(target: u32, height: u32, width: u32) -> u32 {
    let exact = binary64_scaled(target as nat, height as nat, width as nat);
    if exact > u32::MAX {
        u32::MAX
    } else {
        exact as u32
    }
}

/// What [`calculate_proportional_size`] returns.
///
/// With a pixel dimension of zero the size is a box of 16 to 9. Otherwise the
/// height is the scaled height; where that exceeds twice the target width,
/// the height is twice the target width and the width shrinks in proportion.
pub open spec fn proportional_size(target_width: u32, pixel_width: u32, pixel_height: u32) -> (
    u32,
    u32,
) {
    if pixel_width == 0 || pixel_height == 0 {
        (target_width, (target_width * 9 / 16) as u32)
    } else {
        let height = scaled_height_of(target_width, pixel_height, pixel_width);
        if height > 2 * target_width {
            ((target_width * pixel_width / pixel_height as int) as u32, (2 * target_width) as u32)
        } else {
            (target_width, height)
        }
    }
}

/// The scale of a quotient is at least 1.
proof fn lemma_quotient_scale_positive(n: nat, d: nat)
    ensures
        quotient_scale(n, d) >= 1,
    decreases shortfall(n, d * SIGNIFICAND_MIN as nat),
{
    if !(n == 0 || n >= d * SIGNIFICAND_MIN as nat) {
        lemma_quotient_scale_positive(2 * n, d);
    }
}

/// The unit of a product is 1, or small enough to leave the product 53 bits.
proof fn lemma_significand_unit_bound(p: nat)
    ensures
        significand_unit(p) >= 1,
        significand_unit(p) == 1 || significand_unit(p) * SIGNIFICAND_MIN <= p,
    decreases p,
{
    if p >= SIGNIFICAND_BOUND as nat {
        lemma_significand_unit_bound(p / 2);
    }
}

/// Rounding does not carry the scaled height over a whole multiple of the
/// target: where `height / width` is at most `factor`, the scaled height is
/// at most `factor * target`.
pub proof fn lemma_scaled_bound(target: nat, height: nat, width: nat, factor: nat)
    requires
        width > 0,
        height <= factor * width,
        factor * target < SIGNIFICAND_MIN,
    ensures
        binary64_scaled(target, height, width) <= factor * target,
{
    let scale = quotient_scale(height, width);
    lemma_quotient_scale_positive(height, width);
    let n = height * scale;
    let ratio = round_half_even(n, width);
    let top = factor * scale;
    assert(n <= width * top) by (nonlinear_arith)
        requires
            n == height * scale,
            top == factor * scale,
            height <= factor * width,
            scale >= 0,
    ;
    lemma_multiply_divide_le(n as int, width as int, top as int);
    lemma_fundamental_div_mod(n as int, width as int);
    assert(ratio <= top) by {
        if n / width == top {
            assert(width * (n / width) == width * top);
            assert(n % width == 0);
        }
    }
    let product = target * ratio;
    let limit = factor * target;
    assert(product <= limit * scale) by (nonlinear_arith)
        requires
            product == target * ratio,
            limit == factor * target,
            ratio <= top,
            top == factor * scale,
            target >= 0,
    ;
    let unit = significand_unit(product);
    lemma_significand_unit_bound(product);
    let significand = round_half_even(product, unit);
    let rounded = significand * unit;
    lemma_fundamental_div_mod(product as int, unit as int);
    assert(rounded <= product + unit) by (nonlinear_arith)
        requires
            rounded == significand * unit,
            significand <= product / unit + 1,
            product == unit * (product / unit) + product % unit,
            product % unit >= 0,
            unit >= 1,
    ;
    assert(rounded < scale * (limit + 1)) by {
        if unit == 1 {
            assert(product % 1 == 0);
            assert(product / 1 == product);
            assert(significand == product);
            assert(rounded == product) by (nonlinear_arith)
                requires
                    rounded == significand * unit,
                    significand == product,
                    unit == 1,
            ;
            assert(scale * (limit + 1) == limit * scale + scale) by (nonlinear_arith);
        } else {
            assert(unit < scale) by (nonlinear_arith)
                requires
                    unit * SIGNIFICAND_MIN <= product,
                    product <= limit * scale,
                    limit < SIGNIFICAND_MIN,
                    scale >= 1,
                    unit >= 1,
            ;
            assert(scale * (limit + 1) == limit * scale + scale) by (nonlinear_arith);
        }
    }
    lemma_multiply_divide_lt(rounded as int, scale as int, limit as int + 1);
}

/// A multiple of `2 * m` has a half that is a multiple of `m`.
proof fn lemma_half_of_multiple(x: nat, m: nat)
    requires
        m > 0,
        x % (2 * m) == 0,
    ensures
        x % 2 == 0,
        (x / 2) % m == 0,
{
    let q = x / (2 * m);
    lemma_fundamental_div_mod(x as int, 2 * m as int);
    assert(x == 2 * (q * m)) by (nonlinear_arith)
        requires
            x == (2 * m) * q,
    ;
    lemma_mod_multiples_basic(q as int, m as int);
}

/// An even number whose half is a multiple of `m` is a multiple of `2 * m`.
proof fn lemma_double_of_multiple(x: nat, m: nat)
    requires
        m > 0,
        x % 2 == 0,
        (x / 2) % m == 0,
    ensures
        x % (2 * m) == 0,
{
    let q = (x / 2) / m;
    lemma_fundamental_div_mod((x / 2) as int, m as int);
    assert(x == q * (2 * m)) by (nonlinear_arith)
        requires
            x == 2 * (x / 2),
            x / 2 == m * q,
    ;
    lemma_mod_multiples_basic(q as int, 2 * m as int);
}

/// The unit of a product below `2^(53 + n)` divides every multiple of `2^n`.
proof fn lemma_unit_divides(p: nat, x: nat, n: nat)
    requires
        p < SIGNIFICAND_BOUND * pow2(n),
        x % pow2(n) == 0,
    ensures
        x % significand_unit(p) == 0,
    decreases n,
{
    if p >= SIGNIFICAND_BOUND as nat {
        if n == 0 {
            lemma2_to64();
        } else {
            lemma_pow2_unfold(n);
            let half = pow2((n - 1) as nat);
            assert(SIGNIFICAND_BOUND * (2 * half) == 2 * (SIGNIFICAND_BOUND * half))
                by (nonlinear_arith);
            assert(half > 0) by {
                if half == 0 {
                    assert(SIGNIFICAND_BOUND * half == 0) by (nonlinear_arith)
                        requires
                            half == 0,
                    ;
                }
            }
            lemma_half_of_multiple(x, half);
            lemma_unit_divides(p / 2, x / 2, (n - 1) as nat);
            lemma_significand_unit_bound(p / 2);
            lemma_double_of_multiple(x, significand_unit(p / 2));
        }
    }
}

/// The scale of a quotient of positive numbers is a power of two, whose
/// exponent is returned, and it lifts the quotient to 2^52 or more.
proof fn lemma_quotient_scale_shape(n: nat, d: nat) -> (exponent: nat)
    requires
        n > 0,
        d > 0,
    ensures
        quotient_scale(n, d) == pow2(exponent),
        n * quotient_scale(n, d) >= d * SIGNIFICAND_MIN,
        n >= d * SIGNIFICAND_MIN || n * quotient_scale(n, d) < d * SIGNIFICAND_BOUND,
    decreases shortfall(n, d * SIGNIFICAND_MIN as nat),
{
    if n >= d * SIGNIFICAND_MIN as nat {
        lemma2_to64();
        assert(n * 1 == n) by (nonlinear_arith);
        0
    } else {
        let inner = lemma_quotient_scale_shape(2 * n, d);
        lemma_pow2_unfold(inner + 1);
        let rest = quotient_scale(2 * n, d);
        assert(n * (2 * rest) == (2 * n) * rest) by (nonlinear_arith);
        if 2 * n >= d * SIGNIFICAND_MIN as nat {
            assert(rest == 1);
            assert(n * 2 < d * SIGNIFICAND_BOUND);
        }
        inner + 1
    }
}

/// Rounding to the nearest whole number misses the quotient by half a unit
/// at most.
proof fn lemma_round_error(n: nat, d: nat)
    requires
        d > 0,
    ensures
        2 * (round_half_even(n, d) * d) <= 2 * n + d,
        2 * (round_half_even(n, d) * d) + d >= 2 * n,
        round_half_even(n, d) <= n / d + 1,
{
    let q = n / d;
    let r = n % d;
    lemma_fundamental_div_mod(n as int, d as int);
    lemma_mod_bound(n as int, d as int);
    assert((q + 1) * d == d * q + d) by (nonlinear_arith);
    assert(q * d == d * q) by (nonlinear_arith);
}

/// Where the exact height `target * height / width` fits 32 bits, the scaled
/// height is within 1 of it, rounded down: the two roundings of the model
/// together move the result by less than one unit.
pub proof fn lemma_scaled_near_exact(target: nat, height: nat, width: nat)
    requires
        width > 0,
        height > 0,
        target * height < 0x1_0000_0000 * width,
    ensures
        (target * height) / width - 1 <= binary64_scaled(target, height, width) <= (target
            * height) / width + 1,
{
    let t = target as int;
    let h = height as int;
    let w = width as int;
    let scale = quotient_scale(height, width);
    let e = lemma_quotient_scale_shape(height, width);
    lemma_quotient_scale_positive(height, width);
    let s = scale as int;
    let n = h * s;
    let exact = t * h;
    let q0 = exact / w;
    lemma_fundamental_div_mod(exact, w);
    lemma_mod_bound(exact, w);
    let r0 = exact % w;
    let ratio = round_half_even(height * scale, width);
    let m = ratio as int;
    let product = target * ratio;
    let p = product as int;
    let unit = significand_unit(product);
    let u = unit as int;
    lemma_significand_unit_bound(product);
    let significand = round_half_even(product, unit);
    let rounded = significand * unit;
    let r = rounded as int;
    if target == 0 {
        assert(product == 0) by (nonlinear_arith)
            requires
                product == target * ratio,
                target == 0,
        ;
        assert(exact == 0) by (nonlinear_arith)
            requires
                exact == t * h,
                t == 0,
        ;
        assert(unit == 1);
        assert(significand == 0);
        assert(rounded == 0) by (nonlinear_arith)
            requires
                rounded == significand * unit,
                significand == 0,
        ;
    } else {
        // The target is small against the scale: target * 2^20 < scale.
        assert(exact * s < (0x1_0000_0000 * w) * s) by (nonlinear_arith)
            requires
                exact < 0x1_0000_0000 * w,
                s > 0,
        ;
        assert(exact * s == t * n) by (nonlinear_arith)
            requires
                exact == t * h,
                n == h * s,
        ;
        assert(t * n >= t * (w * SIGNIFICAND_MIN)) by (nonlinear_arith)
            requires
                n >= w * SIGNIFICAND_MIN,
                t >= 0,
        ;
        assert(t * SIGNIFICAND_MIN < 0x1_0000_0000 * s) by (nonlinear_arith)
            requires
                t * (w * SIGNIFICAND_MIN) < (0x1_0000_0000 * w) * s,
                w > 0,
        ;
        assert(t * 0x10_0000 < s);
        assert(n < w * SIGNIFICAND_BOUND);
        // The ratio has 53 bits, and the unit of the product is at most
        // twice the target.
        lemma_round_error(height * scale, width);
        lemma_multiply_divide_lt(n, w, SIGNIFICAND_BOUND as int);
        assert(m <= SIGNIFICAND_BOUND);
        assert(p <= t * SIGNIFICAND_BOUND) by (nonlinear_arith)
            requires
                p == t * m,
                m <= SIGNIFICAND_BOUND,
                t >= 0,
        ;
        assert(u <= 2 * t);
        assert(t + u <= s);
        // Both roundings, multiplied out by the width.
        lemma_round_error(product, unit);
        let mw = m * w;
        assert(p * w == t * mw) by (nonlinear_arith)
            requires
                p == t * m,
                mw == m * w,
        ;
        assert(2 * (t * mw) <= 2 * (t * n) + t * w && 2 * (t * mw) + t * w >= 2 * (t * n))
            by (nonlinear_arith)
            requires
                2 * mw <= 2 * n + w,
                2 * mw + w >= 2 * n,
                t >= 0,
        ;
        assert(2 * (r * w) <= 2 * (p * w) + u * w && 2 * (r * w) + u * w >= 2 * (p * w))
            by (nonlinear_arith)
            requires
                2 * r <= 2 * p + u,
                2 * r + u >= 2 * p,
                w >= 0,
        ;
        let ws = w * s;
        assert(t * w + u * w <= ws) by (nonlinear_arith)
            requires
                t + u <= s,
                w >= 0,
                ws == w * s,
        ;
        assert(exact * s == q0 * ws + r0 * s) by (nonlinear_arith)
            requires
                exact == w * q0 + r0,
                ws == w * s,
        ;
        assert(0 <= r0 * s <= ws - s) by (nonlinear_arith)
            requires
                0 <= r0 <= w - 1,
                s >= 0,
                ws == w * s,
        ;
        // From above: rounded < (q0 + 2) * scale.
        assert(2 * (r * w) < 2 * (q0 * ws) + 4 * ws);
        assert(((q0 + 2) * s) * w == q0 * ws + 2 * ws) by (nonlinear_arith)
            requires
                ws == w * s,
        ;
        assert(r < (q0 + 2) * s) by (nonlinear_arith)
            requires
                r * w < ((q0 + 2) * s) * w,
                w > 0,
        ;
        assert((q0 + 2) * s == s * (q0 + 2)) by (nonlinear_arith);
        lemma_multiply_divide_lt(r, s, q0 + 2);
        // From below: rounded >= (q0 - 1) * scale.
        assert(2 * (r * w) + ws >= 2 * (q0 * ws));
        assert(((q0 - 1) * s) * w == q0 * ws - ws) by (nonlinear_arith)
            requires
                ws == w * s,
        ;
        assert(ws > 0) by (nonlinear_arith)
            requires
                ws == w * s,
                w > 0,
                s > 0,
        ;
        assert(r >= (q0 - 1) * s) by (nonlinear_arith)
            requires
                r * w > ((q0 - 1) * s) * w - w,
                w > 0,
        ;
        assert((q0 - 1) * s == s * (q0 - 1)) by (nonlinear_arith);
        lemma_div_multiples_vanish(q0 - 1, s);
        lemma_div_is_ordered(s * (q0 - 1), r, s);
    }
}

/// Where the aspect ratio is a binary fraction, nothing is lost to rounding:
/// for `height / width == numerator / 2^shift` the scaled height is
/// `target * numerator / 2^shift`, rounded down, provided that `numerator`
/// has at most 52 bits and `target * numerator` at most 53.
pub proof fn lemma_binary_ratio_is_exact(
    target: nat,
    height: nat,
    width: nat,
    numerator: nat,
    shift: nat,
)
    requires
        width > 0,
        height > 0,
        height * pow2(shift) == numerator * width,
        numerator < SIGNIFICAND_MIN,
        target * numerator < SIGNIFICAND_BOUND,
    ensures
        binary64_scaled(target, height, width) == (target * numerator) / pow2(shift),
{
    let scale = quotient_scale(height, width);
    let exponent = lemma_quotient_scale_shape(height, width);
    let low = pow2(shift);
    lemma_pow2_pos(shift);
    // The scale exceeds 2^shift: numerator * scale >= 2^52 * 2^shift.
    assert(numerator * scale >= SIGNIFICAND_MIN * low) by (nonlinear_arith)
        requires
            height * scale >= width * SIGNIFICAND_MIN,
            height * low == numerator * width,
            width > 0,
            low > 0,
            scale >= 0,
    ;
    assert(scale > low) by (nonlinear_arith)
        requires
            numerator * scale >= SIGNIFICAND_MIN * low,
            numerator < SIGNIFICAND_MIN,
            low > 0,
            scale >= 0,
    ;
    assert(exponent > shift) by {
        if exponent < shift {
            lemma_pow2_strictly_increases(exponent, shift);
        }
    }
    let spare = (exponent - shift) as nat;
    let high = pow2(spare);
    lemma_pow2_adds(shift, spare);
    lemma_pow2_pos(spare);
    assert(scale == low * high);
    // The quotient is exact: height * scale == (numerator * high) * width.
    let lifted = height * scale;
    let ratio = round_half_even(lifted, width);
    assert(lifted == width * (numerator * high)) by (nonlinear_arith)
        requires
            lifted == height * scale,
            scale == low * high,
            height * low == numerator * width,
    ;
    lemma_mod_multiples_basic((numerator * high) as int, width as int);
    assert(lifted == (numerator * high) * width) by (nonlinear_arith)
        requires
            lifted == width * (numerator * high),
    ;
    lemma_fundamental_div_mod(lifted as int, width as int);
    assert(lifted / width == numerator * high) by (nonlinear_arith)
        requires
            lifted == width * (lifted / width) + lifted % width,
            lifted % width == 0,
            lifted == width * (numerator * high),
            width > 0,
    ;
    assert(ratio == numerator * high);
    // The product is a multiple of 2^spare below 2^(53 + spare): exact too.
    let product = target * ratio;
    assert(product == (target * numerator) * high) by (nonlinear_arith)
        requires
            product == target * ratio,
            ratio == numerator * high,
    ;
    assert(product < SIGNIFICAND_BOUND * high) by (nonlinear_arith)
        requires
            product == (target * numerator) * high,
            target * numerator < SIGNIFICAND_BOUND,
            high > 0,
    ;
    lemma_mod_multiples_basic((target * numerator) as int, high as int);
    lemma_unit_divides(product, product, spare);
    let unit = significand_unit(product);
    lemma_significand_unit_bound(product);
    lemma_fundamental_div_mod(product as int, unit as int);
    let significand = round_half_even(product, unit);
    assert(significand == product / unit);
    let rounded = significand * unit;
    assert(rounded == product) by (nonlinear_arith)
        requires
            rounded == significand * unit,
            product == unit * (product / unit) + product % unit,
            product % unit == 0,
            significand == product / unit,
    ;
    // Cutting to a whole number cancels what the scale has over 2^shift.
    lemma_div_multiples_vanish_quotient(high as int, (target * numerator) as int, low as int);
    assert(high * (target * numerator) == product) by (nonlinear_arith)
        requires
            product == (target * numerator) * high,
    ;
    assert(high * low == scale) by (nonlinear_arith)
        requires
            scale == low * high,
    ;
}

/// An image that stays under the ceiling keeps its aspect ratio to within
/// one unit: where the exact height `target_width * pixel_height /
/// pixel_width` fits 32 bits and the scaled height does not exceed twice the
/// target width, the size is the target width by a height within 1 of the
/// exact one.
pub proof fn lemma_height_near_exact(target_width: u32, pixel_width: u32, pixel_height: u32)
    requires
        pixel_width > 0,
        pixel_height > 0,
        target_width * pixel_height < 0x1_0000_0000 * pixel_width,
        scaled_height_of(target_width, pixel_height, pixel_width) <= 2 * target_width,
    ensures
        proportional_size(target_width, pixel_width, pixel_height).0 == target_width,
        (target_width * pixel_height) / (pixel_width as int) - 1 <= proportional_size(
            target_width,
            pixel_width,
            pixel_height,
        ).1 <= (target_width * pixel_height) / (pixel_width as int) + 1,
{
    lemma_scaled_near_exact(target_width as nat, pixel_height as nat, pixel_width as nat);
    lemma_multiply_divide_lt(
        target_width * pixel_height,
        pixel_width as int,
        0x1_0000_0000,
    );
    assert((target_width as nat) * (pixel_height as nat) == target_width * pixel_height)
        by (nonlinear_arith);
}

/// A factor common to both terms of a quotient leaves its scale as it is.
proof fn lemma_quotient_scale_common_factor(n: nat, d: nat, c: nat)
    requires
        c > 0,
    ensures
        quotient_scale(c * n, c * d) == quotient_scale(n, d),
    decreases shortfall(n, d * SIGNIFICAND_MIN as nat),
{
    let bound = d * SIGNIFICAND_MIN as nat;
    assert((c * d) * SIGNIFICAND_MIN == c * bound) by (nonlinear_arith)
        requires
            bound == d * SIGNIFICAND_MIN,
    ;
    assert((c * n >= c * bound) == (n >= bound)) by (nonlinear_arith)
        requires
            c > 0,
    ;
    assert((c * n == 0) == (n == 0)) by (nonlinear_arith)
        requires
            c > 0,
    ;
    if !(n == 0 || n >= bound) {
        lemma_quotient_scale_common_factor(2 * n, d, c);
        assert(c * (2 * n) == 2 * (c * n)) by (nonlinear_arith);
    }
}

/// A factor common to both terms of a quotient leaves its rounding as it is.
proof fn lemma_round_common_factor(n: nat, d: nat, c: nat)
    requires
        d > 0,
        c > 0,
    ensures
        round_half_even(c * n, c * d) == round_half_even(n, d),
{
    lemma_div_multiples_vanish_quotient(c as int, n as int, d as int);
    lemma_truncate_middle(n as int, c as int, d as int);
    let r = n % d;
    assert((2 * (c * r) > c * d) == (2 * r > d)) by (nonlinear_arith)
        requires
            c > 0,
    ;
    assert((2 * (c * r) == c * d) == (2 * r == d)) by (nonlinear_arith)
        requires
            c > 0,
    ;
}

/// The size depends on the pixel dimensions through their ratio alone:
/// multiplying both by the same factor changes nothing.
pub proof fn lemma_size_depends_on_ratio(
    target_width: u32,
    pixel_width: u32,
    pixel_height: u32,
    factor: u32,
)
    requires
        factor > 0,
        factor * pixel_width <= u32::MAX,
        factor * pixel_height <= u32::MAX,
    ensures
        proportional_size(
            target_width,
            (factor * pixel_width) as u32,
            (factor * pixel_height) as u32,
        ) == proportional_size(target_width, pixel_width, pixel_height),
{
    let c = factor as nat;
    let w = pixel_width as nat;
    let h = pixel_height as nat;
    assert((c * w == 0) == (w == 0) && (c * h == 0) == (h == 0)) by (nonlinear_arith)
        requires
            c > 0,
    ;
    if w > 0 && h > 0 {
        lemma_quotient_scale_common_factor(h, w, c);
        let scale = quotient_scale(h, w);
        assert((c * h) * scale == c * (h * scale)) by (nonlinear_arith);
        lemma_round_common_factor(h * scale, w, c);
        assert(binary64_scaled(target_width as nat, c * h, c * w) == binary64_scaled(
            target_width as nat,
            h,
            w,
        ));
        // the narrowed width under the ceiling
        let t = target_width as nat;
        lemma_div_multiples_vanish_quotient(c as int, (t * w) as int, h as int);
        assert(t * (c * w) == c * (t * w)) by (nonlinear_arith);
    }
}

/// An image of 1920 by 1080 pixels keeps its ratio of 16 to 9 exactly: at a
/// target width of `1920 * k` units its height is `1080 * k` units, and the
/// ceiling is not touched.
pub proof fn lemma_sixteen_to_nine(k: u32)
    requires
        1920 * k <= u32::MAX,
    ensures
        proportional_size((1920 * k) as u32, 1920, 1080) == ((1920 * k) as u32, (1080 * k) as u32),
{
    lemma2_to64();
    lemma_binary_ratio_is_exact((1920 * k) as nat, 1080, 1920, 9, 4);
    assert(((1920 * k) * 9) / 16 == 1080 * k);
}

/// Rounds `n / d` to the nearest whole number, ties to the even one.
fn rounded_quotient(n: u128, d: u128) -> (q: u128)
    requires
        0 < d < 0x1_0000_0000_0000_0000,
        n < 0x1_0000_0000_0000_0000_0000_0000,
    ensures
        q == round_half_even(n as nat, d as nat),
        q * d <= n + d,
        q <= n / d + 1,
{
    let q = n / d;
    let r = n % d;
    proof {
        lemma_fundamental_div_mod(n as int, d as int);
        assert((q + 1) * d == d * q + d) by (nonlinear_arith);
        assert(q * d == d * q) by (nonlinear_arith);
    }
    if 2 * r > d || (2 * r == d && q % 2 == 1) {
        q + 1
    } else {
        q
    }
}

/// Computes `target * (height / width)` with the roundings of
/// double-precision arithmetic and cuts it to a whole number, which is
/// capped at `u32::MAX`.
fn scaled_height(target: u32, height: u32, width: u32) -> (scaled: u32)
    requires
        height > 0,
        width > 0,
    ensures
        scaled == scaled_height_of(target, height, width),
{
    // The quotient: scale the numerator until the quotient has 53 bits.
    let bound: u128 = (width as u128) * SIGNIFICAND_MIN;
    let mut numerator: u128 = height as u128;
    let mut scale: u128 = 1;
    while numerator < bound
        invariant
            bound == width * SIGNIFICAND_MIN,
            0 < width,
            numerator == height * scale,
            1 <= scale <= numerator,
            numerator < 2 * bound,
            quotient_scale(height as nat, width as nat) == scale * quotient_scale(
                numerator as nat,
                width as nat,
            ),
        decreases 2 * bound - numerator,
    {
        proof {
            let inner = quotient_scale((2 * numerator) as nat, width as nat);
            assert(quotient_scale(numerator as nat, width as nat) == 2 * inner);
            assert(scale * (2 * inner) == (2 * scale) * inner) by (nonlinear_arith);
            assert(height * (2 * scale) == 2 * (height * scale)) by (nonlinear_arith);
        }
        numerator = numerator * 2;
        scale = scale * 2;
    }
    assert(quotient_scale(numerator as nat, width as nat) == 1);
    assert(scale == quotient_scale(height as nat, width as nat)) by (nonlinear_arith)
        requires
            quotient_scale(height as nat, width as nat) == scale * 1,
    ;
    let ratio = rounded_quotient(numerator, width as u128);
    proof {
        assert(numerator < width * SIGNIFICAND_BOUND);
        lemma_multiply_divide_lt(numerator as int, width as int, SIGNIFICAND_BOUND as int);
        assert(ratio <= SIGNIFICAND_BOUND);
        assert(target * ratio <= 0xFFFF_FFFF * SIGNIFICAND_BOUND) by (nonlinear_arith)
            requires
                target <= 0xFFFF_FFFF,
                ratio <= SIGNIFICAND_BOUND,
        ;
    }
    // The product: round it to its 53 leading bits.
    let product: u128 = (target as u128) * ratio;
    let mut unit: u128 = 1;
    let mut rest: u128 = product;
    while rest >= SIGNIFICAND_BOUND
        invariant
            product <= 0xFFFF_FFFF * SIGNIFICAND_BOUND,
            1 <= unit,
            unit == 1 || unit * SIGNIFICAND_MIN <= product,
            unit * rest <= product,
            significand_unit(product as nat) == unit * significand_unit(rest as nat),
        decreases rest,
    {
        proof {
            let inner = significand_unit((rest / 2) as nat);
            assert(significand_unit(rest as nat) == 2 * inner);
            assert(unit * (2 * inner) == (2 * unit) * inner) by (nonlinear_arith);
            assert((2 * unit) * (rest / 2) <= unit * rest) by (nonlinear_arith)
                requires
                    2 * (rest / 2) <= rest,
                    unit >= 0,
            ;
            assert((2 * unit) * SIGNIFICAND_MIN <= unit * rest) by (nonlinear_arith)
                requires
                    2 * SIGNIFICAND_MIN <= rest,
                    unit >= 0,
            ;
        }
        rest = rest / 2;
        unit = unit * 2;
    }
    assert(significand_unit(rest as nat) == 1);
    assert(unit == significand_unit(product as nat)) by (nonlinear_arith)
        requires
            significand_unit(product as nat) == unit * 1,
    ;
    let significand = rounded_quotient(product, unit);
    let rounded = significand * unit;
    let value = rounded / scale;
    if value > 0xFFFF_FFFF {
        u32::MAX
    } else {
        value as u32
    }
}

/// Computes the size at which an image of `original_width` by
/// `original_height` pixels is laid out when it is to be `target_width_emu`
/// wide. The result `(width, height)` is in the unit of `target_width_emu`.
///
/// Where either pixel dimension is zero, the size is unknown and the result
/// is a box of 16 to 9 at the target width. Otherwise the height keeps the
/// aspect ratio, as double-precision arithmetic scales it. An image so tall
/// that this height would exceed twice the target width gets that ceiling as
/// its height and a width narrowed in proportion.
pub fn calculate_proportional_size(
    target_width_emu: u32,
    original_width: u32,
    original_height: u32,
) -> (size: (u32, u32))
    ensures
        size == proportional_size(target_width_emu, original_width, original_height),
        original_width == 0 || original_height == 0 ==> size.0 == target_width_emu && size.1
            == target_width_emu * 9 / 16,
        size.0 <= target_width_emu,
        size.1 <= 2 * target_width_emu,
{
    if original_width == 0 || original_height == 0 {
        return (target_width_emu, ((target_width_emu as u64) * 9 / 16) as u32);
    }
    let height = scaled_height(target_width_emu, original_height, original_width);
    let ceiling: u64 = 2 * (target_width_emu as u64);
    if (height as u64) > ceiling {
        proof {
            if original_height <= 2 * original_width {
                lemma_scaled_bound(
                    target_width_emu as nat,
                    original_height as nat,
                    original_width as nat,
                    2,
                );
            }
            assert(target_width_emu * original_width <= target_width_emu * original_height)
                by (nonlinear_arith)
                requires
                    original_width <= original_height,
            ;
            lemma_multiply_divide_le(
                target_width_emu * original_width,
                original_height as int,
                target_width_emu as int,
            );
            assert(target_width_emu * original_width <= 0xFFFF_FFFF * 0xFFFF_FFFF)
                by (nonlinear_arith)
                requires
                    target_width_emu <= 0xFFFF_FFFF,
                    original_width <= 0xFFFF_FFFF,
            ;
        }
        let width = (target_width_emu as u64) * (original_width as u64) / (original_height as u64);
        (width as u32, ceiling as u32)
    } else {
        (target_width_emu, height)
    }
}

} // verus!
