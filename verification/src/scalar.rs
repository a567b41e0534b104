//! Coordinates as IEEE-754 binary32 bit patterns.
//!
//! Geometry enters as 32-bit patterns and leaves as 32-bit patterns; the
//! library never needs a floating-point unit. The one piece of arithmetic it
//! does on a coordinate is the change of unit between map space and physics
//! space. The factor is a power of two, so the quotient and the product are
//! fixed by the pattern alone, and both are computed here on integers.

use vstd::prelude::*;
use vstd::arithmetic::power2::{pow2, lemma2_to64, lemma_pow2_unfold, lemma_pow2_pos};

verus! {

/// Map units per physics unit.
pub const UNIT_TO_METERS: u32 = 4;

/// The bit that carries the sign.
pub const SIGN_BIT: u32 = 0x8000_0000;

/// The pattern of positive infinity: every larger magnitude is a NaN.
pub const INFINITY: u32 = 0x7f80_0000;

/// Weight of the exponent field's lowest bit, which is also the implicit
/// leading bit of a normal number's significand.
pub const HIDDEN_BIT: u32 = 0x0080_0000;

/// Two steps of the exponent field: the distance between a normal number and
/// its quarter.
pub const TWO_EXPONENT_STEPS: u32 = 0x0100_0000;

/// The pattern of the number one.
pub const ONE: u32 = 0x3f80_0000;

/// Whether the sign bit of `bits` is set.
pub open spec fn is_negative(bits: u32) -> bool {
    bits >= SIGN_BIT
}

/// The pattern without its sign bit.
pub open spec fn magnitude(bits: u32) -> u32 {
    if bits >= SIGN_BIT {
        (bits - SIGN_BIT) as u32
    } else {
        bits
    }
}

/// Zero, subnormal or normal.
pub open spec fn is_finite(bits: u32) -> bool {
    magnitude(bits) < INFINITY
}

/// Positive or negative infinity.
pub open spec fn is_infinite(bits: u32) -> bool {
    magnitude(bits) == INFINITY
}

/// Not a number.
pub open spec fn is_nan(bits: u32) -> bool {
    magnitude(bits) > INFINITY
}

/// The absolute value that a finite pattern stands for, counted in steps of
/// the smallest subnormal, 2^-149. Every finite binary32 number is a whole
/// number of such steps.
pub open spec fn quanta(bits: u32) -> nat {
    let m = magnitude(bits);
    let exponent = m / HIDDEN_BIT;
    let fraction = m % HIDDEN_BIT;
    if exponent == 0 {
        fraction as nat
    } else {
        ((HIDDEN_BIT + fraction) * pow2((exponent - 1) as nat)) as nat
    }
}

/// The largest finite magnitude, in steps of 2^-149.
pub open spec fn max_quanta() -> nat {
    (0xff_ffff * pow2(253)) as nat
}

/// A quarter of `n`, rounded to the nearest whole number, a tie going to the
/// even neighbour.
pub open spec fn quarter_to_even(n: nat) -> nat {
    let q = n / 4;
    let r = n % 4;
    if r > 2 || (r == 2 && q % 2 == 1) {
        q + 1
    } else {
        q
    }
}

/// `small` is the binary32 quotient of `large` by four: the exact quotient
/// where it is representable, else the nearest representable number with a
/// tie going to the even significand. An infinity stays as it is, and the
/// quotient of a NaN is a NaN.
pub open spec fn is_quarter_of(small: u32, large: u32) -> bool {
    if is_nan(large) {
        is_nan(small)
    } else if is_infinite(large) {
        small == large
    } else {
        &&& is_finite(small)
        &&& is_negative(small) == is_negative(large)
        &&& quanta(small) == quarter_to_even(quanta(large))
    }
}

/// `large` is the binary32 product of `small` and four: exact while it is in
/// range, an infinity of the same sign beyond. An infinity stays as it is,
/// and the product of a NaN is a NaN.
pub open spec fn is_fourfold_of(large: u32, small: u32) -> bool {
    if is_nan(small) {
        is_nan(large)
    } else if is_infinite(small) {
        large == small
    } else {
        &&& is_negative(large) == is_negative(small)
        &&& if 4 * quanta(small) <= max_quanta() {
            is_finite(large) && quanta(large) == 4 * quanta(small)
        } else {
            is_infinite(large)
        }
    }
}

/// The pattern of `bits / 4`, written out on the pattern.
pub open spec fn quartered(bits: u32) -> u32 {
    let m = magnitude(bits);
    if m >= INFINITY {
        bits
    } else if m >= 3 * HIDDEN_BIT {
        (bits - TWO_EXPONENT_STEPS) as u32
    } else {
        let steps = if m < TWO_EXPONENT_STEPS {
            m as int
        } else {
            2 * m - TWO_EXPONENT_STEPS
        };
        (bits - m + quarter_to_even(steps as nat)) as u32
    }
}

/// The pattern of `bits * 4`, written out on the pattern.
pub open spec fn quadrupled(bits: u32) -> u32 {
    let m = magnitude(bits);
    if m >= INFINITY {
        bits
    } else if m >= INFINITY - TWO_EXPONENT_STEPS {
        (bits - m + INFINITY) as u32
    } else if m >= HIDDEN_BIT {
        (bits + TWO_EXPONENT_STEPS) as u32
    } else if 4 * m < TWO_EXPONENT_STEPS {
        (bits + 3 * m) as u32
    } else {
        (bits + m + HIDDEN_BIT) as u32
    }
}

/// Converts a coordinate from map units to physics units: divides the
/// binary32 number that `bits` stands for by [`UNIT_TO_METERS`]. A NaN is
/// handed back as it came.
pub fn units_to_meters(bits: u32) -> (scaled: u32)
    ensures
        scaled == quartered(bits),
        is_quarter_of(scaled, bits),
{
    let sign: u32 = if bits >= SIGN_BIT { SIGN_BIT } else { 0 };
    let m: u32 = bits - sign;
    proof {
        lemma_quartered(bits);
    }
    if m >= INFINITY {
        bits
    } else if m >= 3 * HIDDEN_BIT {
        bits - TWO_EXPONENT_STEPS
    } else {
        let steps: u32 = if m < TWO_EXPONENT_STEPS { m } else { 2 * m - TWO_EXPONENT_STEPS };
        let q: u32 = steps / 4;
        let r: u32 = steps % 4;
        let rounded: u32 = if r > 2 || (r == 2 && q % 2 == 1) { q + 1 } else { q };
        sign + rounded
    }
}

/// Converts a coordinate from physics units to map units: multiplies the
/// binary32 number that `bits` stands for by [`UNIT_TO_METERS`]. A NaN is
/// handed back as it came.
pub fn meters_to_units(bits: u32) -> (scaled: u32)
    ensures
        scaled == quadrupled(bits),
        is_fourfold_of(scaled, bits),
{
    let sign: u32 = if bits >= SIGN_BIT { SIGN_BIT } else { 0 };
    let m: u32 = bits - sign;
    proof {
        lemma_quadrupled(bits);
    }
    if m >= INFINITY {
        bits
    } else if m >= INFINITY - TWO_EXPONENT_STEPS {
        sign + INFINITY
    } else if m >= HIDDEN_BIT {
        bits + TWO_EXPONENT_STEPS
    } else if 4 * m < TWO_EXPONENT_STEPS {
        sign + 4 * m
    } else {
        sign + 2 * m + HIDDEN_BIT
    }
}

/// The quanta of a small magnitude: below two exponent steps a pattern counts
/// its own steps, and in the next binade each pattern is two steps apart.
proof fn lemma_quanta_low(bits: u32)
    requires
        magnitude(bits) < 3 * HIDDEN_BIT,
    ensures
        magnitude(bits) < TWO_EXPONENT_STEPS ==> quanta(bits) == magnitude(bits),
        magnitude(bits) >= TWO_EXPONENT_STEPS ==> quanta(bits) == 2 * magnitude(bits)
            - TWO_EXPONENT_STEPS,
{
    lemma2_to64();
    let m = magnitude(bits);
    let e = m / HIDDEN_BIT;
    let f = m % HIDDEN_BIT;
    if e == 1 {
        assert(pow2((e - 1) as nat) == 1);
        assert((HIDDEN_BIT + f) * 1 == HIDDEN_BIT + f);
    } else if e == 2 {
        assert(pow2((e - 1) as nat) == 2);
        assert((HIDDEN_BIT + f) * 2 == 2 * HIDDEN_BIT + 2 * f);
    }
}

/// The quanta of a normal number, from its exponent and fraction fields.
proof fn lemma_quanta_normal(bits: u32)
    requires
        HIDDEN_BIT <= magnitude(bits) < INFINITY,
    ensures
        quanta(bits) == (HIDDEN_BIT + magnitude(bits) % HIDDEN_BIT) * pow2(
            (magnitude(bits) / HIDDEN_BIT - 1) as nat,
        ),
        1 <= magnitude(bits) / HIDDEN_BIT <= 254,
{
    let m = magnitude(bits);
    let e = m / HIDDEN_BIT;
    lemma_pow2_pos((e - 1) as nat);
    assert((HIDDEN_BIT + m % HIDDEN_BIT) * pow2((e - 1) as nat) >= 0) by (nonlinear_arith)
        requires
            m % HIDDEN_BIT >= 0,
            pow2((e - 1) as nat) > 0,
    ;
}

/// The closed form of the quotient is the binary32 quotient.
pub proof fn lemma_quartered(bits: u32)
    ensures
        is_quarter_of(quartered(bits), bits),
{
    let m = magnitude(bits);
    let r = quartered(bits);
    if m >= INFINITY {
    } else if m >= 3 * HIDDEN_BIT {
        let e = m / HIDDEN_BIT;
        let f = m % HIDDEN_BIT;
        assert(magnitude(r) == m - TWO_EXPONENT_STEPS);
        assert(magnitude(r) / HIDDEN_BIT == e - 2);
        assert(magnitude(r) % HIDDEN_BIT == f);
        lemma_quanta_normal(bits);
        lemma_quanta_normal(r);
        let p = pow2((e - 3) as nat);
        lemma_pow2_unfold((e - 1) as nat);
        lemma_pow2_unfold((e - 2) as nat);
        assert(pow2((e - 1) as nat) == 4 * p);
        let s = HIDDEN_BIT + f;
        assert(quanta(bits) == 4 * (s * p)) by (nonlinear_arith)
            requires
                quanta(bits) == s * pow2((e - 1) as nat),
                pow2((e - 1) as nat) == 4 * p,
        ;
        assert(quanta(r) == s * p);
        lemma_pow2_pos((e - 3) as nat);
        assert(s * p >= 0) by (nonlinear_arith)
            requires
                s >= 0,
                p > 0,
        ;
    } else {
        lemma_quanta_low(bits);
        let steps = quanta(bits);
        let rounded = quarter_to_even(steps);
        assert(rounded <= HIDDEN_BIT);
        assert(magnitude(r) == rounded);
        lemma_quanta_low(r);
    }
}

/// The closed form of the product is the binary32 product.
pub proof fn lemma_quadrupled(bits: u32)
    ensures
        is_fourfold_of(quadrupled(bits), bits),
{
    let m = magnitude(bits);
    let r = quadrupled(bits);
    if m >= INFINITY {
    } else if m >= HIDDEN_BIT {
        let e = m / HIDDEN_BIT;
        let f = m % HIDDEN_BIT;
        let s = HIDDEN_BIT + f;
        lemma_quanta_normal(bits);
        lemma_pow2_pos((e - 1) as nat);
        if m >= INFINITY - TWO_EXPONENT_STEPS {
            assert(e >= 253);
            lemma_pow2_grows(252, (e - 1) as nat);
            lemma_pow2_unfold(253);
            assert(4 * quanta(bits) > max_quanta()) by (nonlinear_arith)
                requires
                    quanta(bits) == s * pow2((e - 1) as nat),
                    s >= 0x80_0000,
                    pow2((e - 1) as nat) >= pow2(252),
                    pow2(253) == 2 * pow2(252),
                    pow2(252) > 0,
                    max_quanta() == 0xff_ffff * pow2(253),
            ;
        } else {
            assert(e <= 252);
            assert(magnitude(r) == m + TWO_EXPONENT_STEPS);
            assert(magnitude(r) / HIDDEN_BIT == e + 2);
            assert(magnitude(r) % HIDDEN_BIT == f);
            lemma_quanta_normal(r);
            let p = pow2((e - 1) as nat);
            lemma_pow2_unfold((e + 1) as nat);
            lemma_pow2_unfold(e as nat);
            assert(pow2((e + 1) as nat) == 4 * p);
            assert(quanta(r) == 4 * quanta(bits)) by (nonlinear_arith)
                requires
                    quanta(bits) == s * p,
                    quanta(r) == s * pow2((e + 1) as nat),
                    pow2((e + 1) as nat) == 4 * p,
            ;
            lemma_pow2_grows((e + 1) as nat, 253);
            assert(quanta(r) <= max_quanta()) by (nonlinear_arith)
                requires
                    quanta(r) == s * pow2((e + 1) as nat),
                    0 <= s <= 0xff_ffff,
                    0 < pow2((e + 1) as nat) <= pow2(253),
                    max_quanta() == 0xff_ffff * pow2(253),
            ;
        }
    } else {
        lemma_quanta_low(bits);
        assert(magnitude(r) < 3 * HIDDEN_BIT);
        lemma_quanta_low(r);
        lemma_pow2_pos(253);
        lemma_pow2_grows(2, 253);
        lemma2_to64();
        assert(4 * m <= max_quanta()) by (nonlinear_arith)
            requires
                m < 0x80_0000,
                pow2(253) >= 4,
                max_quanta() == 0xff_ffff * pow2(253),
        ;
    }
}

/// Where a finite coordinate is a whole number of fourfold steps, as every
/// normal number of magnitude 2^-124 or more is, its quotient is exact:
/// four times the quotient is the coordinate.
pub proof fn lemma_quarter_exact(bits: u32)
    requires
        is_finite(bits),
        quanta(bits) % 4 == 0 || magnitude(bits) >= 3 * HIDDEN_BIT,
    ensures
        4 * quanta(quartered(bits)) == quanta(bits),
        is_negative(quartered(bits)) == is_negative(bits),
{
    lemma_quartered(bits);
    if magnitude(bits) >= 3 * HIDDEN_BIT {
        let m = magnitude(bits);
        let e = m / HIDDEN_BIT;
        let f = m % HIDDEN_BIT;
        let r = quartered(bits);
        assert(magnitude(r) == m - TWO_EXPONENT_STEPS);
        assert(magnitude(r) / HIDDEN_BIT == e - 2);
        assert(magnitude(r) % HIDDEN_BIT == f);
        lemma_quanta_normal(bits);
        lemma_quanta_normal(r);
        let p = pow2((e - 3) as nat);
        lemma_pow2_unfold((e - 1) as nat);
        lemma_pow2_unfold((e - 2) as nat);
        let s = HIDDEN_BIT + f;
        assert(quanta(bits) == 4 * (s * p)) by (nonlinear_arith)
            requires
                quanta(bits) == s * pow2((e - 1) as nat),
                pow2((e - 1) as nat) == 4 * p,
        ;
    }
}

/// A coordinate of ordinary size comes back unchanged from physics units:
/// every normal number of magnitude 2^-124 or more is a quarter's exact
/// fourfold.
pub proof fn lemma_units_round_trip(bits: u32)
    requires
        3 * HIDDEN_BIT <= magnitude(bits) < INFINITY,
    ensures
        quadrupled(quartered(bits)) == bits,
{
}

/// A coordinate whose fourfold is finite comes back unchanged from map
/// units, subnormal numbers and zero included.
pub proof fn lemma_meters_round_trip(bits: u32)
    requires
        magnitude(bits) < INFINITY - TWO_EXPONENT_STEPS,
    ensures
        quartered(quadrupled(bits)) == bits,
{
}

/// Powers of two grow with the exponent, and all but the zeroth are even.
proof fn lemma_pow2_grows(low: nat, high: nat)
    requires
        low <= high,
    ensures
        pow2(low) <= pow2(high),
        0 < pow2(low),
        high > 0 ==> pow2(high) % 2 == 0 && pow2((high - 1) as nat) == pow2(high) / 2,
    decreases high - low,
{
    lemma_pow2_pos(low);
    if high > 0 {
        lemma_pow2_unfold(high);
    }
    if low < high {
        lemma_pow2_grows(low, (high - 1) as nat);
    }
}

} // verus!
