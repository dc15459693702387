//! Linear color channels as bytes.
//!
//! A channel arrives as the bit pattern of a single-precision float and
//! leaves as the integer nearest to 255 times its value, where a half goes
//! up and the result stays within 0 and 255. The value is read off the bit
//! pattern exactly, so the rounding is that of the product itself: no
//! intermediate result is rounded.

use glyphon::Color;
use vstd::prelude::*;

verus! {

/// The color of a glyph, `glyphon::Color`: one word that holds alpha, red,
/// green and blue, a byte each, from the highest byte down.
#[verifier::external_type_specification]
pub struct ExColor(glyphon::Color);

/// Four bytes in one word: alpha, red, green and blue from the highest byte
/// down.
pub open spec fn packed(r: u8, g: u8, b: u8, a: u8) -> u32 {
    ((a as u32) << 24) | ((r as u32) << 16) | ((g as u32) << 8) | (b as u32)
}

/// `glyphon::Color::rgba`.
///
/// Trusted: it packs its four bytes as [`packed`] says.
pub assume_specification[ glyphon::Color::rgba ](r: u8, g: u8, b: u8, a: u8) -> (color:
    glyphon::Color)
    ensures
        color.0 == packed(r, g, b, a),
;

/// Two to the power `n`.
pub open spec fn two_to(n: nat) -> nat
    decreases n,
{
    if n == 0 {
        1
    } else {
        2 * two_to((n - 1) as nat)
    }
}

/// Whether the sign bit is set.
pub open spec fn is_negative(bits: u32) -> bool {
    bits >= 0x8000_0000
}

/// The eight bits of the exponent field.
pub open spec fn exponent_field(bits: u32) -> nat {
    ((bits / 0x80_0000) % 256) as nat
}

/// The twenty-three bits of the fraction field.
pub open spec fn fraction_field(bits: u32) -> nat {
    (bits % 0x80_0000) as nat
}

/// Whether the pattern is not a number.
pub open spec fn is_nan(bits: u32) -> bool {
    exponent_field(bits) == 255 && fraction_field(bits) != 0
}

/// Whether the pattern is an infinity.
pub open spec fn is_infinite(bits: u32) -> bool {
    exponent_field(bits) == 255 && fraction_field(bits) == 0
}

/// The significand of a finite pattern: its magnitude is
/// `significand(bits)` times two to the power `exponent(bits)`.
pub open spec fn significand(bits: u32) -> nat {
    if exponent_field(bits) == 0 {
        fraction_field(bits)
    } else {
        fraction_field(bits) + 0x80_0000
    }
}

/// The power of two that scales the significand of a finite pattern.
pub open spec fn exponent(bits: u32) -> int {
    if exponent_field(bits) == 0 {
        -149
    } else {
        exponent_field(bits) - 150
    }
}

/// The integer nearest to 255 times the magnitude of a finite pattern, a
/// half going up: the floor of `255 * m * 2^e + 1/2`.
pub open spec fn nearest_to_255_times(bits: u32) -> nat {
    let m = significand(bits);
    let e = exponent(bits);
    if e >= 0 {
        255 * m * two_to(e as nat)
    } else {
        (510 * m + two_to((-e) as nat)) / two_to((1 - e) as nat)
    }
}

/// The byte of a channel: 0 for what is negative or not a number, 255 for
/// what rounds to 255 or more, and the nearest integer otherwise.
pub open spec fn quantized(bits: u32) -> u8 {
    if is_nan(bits) || is_negative(bits) {
        0
    } else if is_infinite(bits) || nearest_to_255_times(bits) >= 255 {
        255
    } else {
        nearest_to_255_times(bits) as u8
    }
}

proof fn lemma_two_to_grows(low: nat, high: nat)
    requires
        low <= high,
    ensures
        1 <= two_to(low) <= two_to(high),
    decreases high,
{
    if high == 0 {
    } else if low == high {
        lemma_two_to_grows(0, (high - 1) as nat);
    } else {
        lemma_two_to_grows(low, (high - 1) as nat);
    }
}

proof fn lemma_two_to_33()
    ensures
        two_to(33) == 0x2_0000_0000,
{
    reveal_with_fuel(two_to, 34);
}

/// The byte of the channel with the bit pattern `bits`.
pub fn quantize(bits: u32) -> (byte: u8)
    ensures
        byte == quantized(bits),
{
    let field: u32 = (bits / 0x80_0000) % 256;
    let fraction: u32 = bits % 0x80_0000;
    if bits >= 0x8000_0000 {
        return 0;
    }
    if field == 255 {
        return if fraction != 0 {
            0
        } else {
            255
        };
    }
    let m: u64 = if field == 0 {
        fraction as u64
    } else {
        fraction as u64 + 0x80_0000
    };
    if field >= 150 {
        proof {
            let scale = two_to((field - 150) as nat);
            lemma_two_to_grows(0, (field - 150) as nat);
            assert(255 * m * scale >= 255) by (nonlinear_arith)
                requires
                    m >= 1,
                    scale >= 1,
            ;
        }
        return 255;
    }
    let shift: u32 = if field == 0 {
        149
    } else {
        150 - field
    };
    if shift > 32 {
        proof {
            let half = two_to(shift as nat);
            lemma_two_to_33();
            lemma_two_to_grows(33, shift as nat);
            assert(two_to((shift + 1) as nat) == 2 * half);
            assert(exponent(bits) == -(shift as int));
            assert(significand(bits) == m);
            let value = m as nat;
            assert((510 * value + half) / (2 * half) == 0) by (nonlinear_arith)
                requires
                    510 * value < half,
            ;
        }
        return 0;
    }
    let mut half: u64 = 1;
    let mut done: u32 = 0;
    while done < shift
        invariant
            done <= shift <= 32,
            half == two_to(done as nat),
            1 <= half <= 0x1_0000_0000,
        decreases shift - done,
    {
        proof {
            lemma_two_to_33();
            lemma_two_to_grows((done + 1) as nat, 32);
            assert(two_to(33) == 2 * two_to(32));
        }
        half = half * 2;
        done += 1;
    }
    assert(two_to((shift + 1) as nat) == 2 * two_to(shift as nat));
    assert(exponent(bits) == -(shift as int));
    assert(significand(bits) == m);
    let nearest: u64 = (510 * m + half) / (2 * half);
    if nearest >= 255 {
        255
    } else {
        nearest as u8
    }
}

/// The color of a glyph for four linear channels, each given by its bit
/// pattern.
pub fn to_color(r: u32, g: u32, b: u32, a: u32) -> (color: Color)
    ensures
        color.0 == packed(quantized(r), quantized(g), quantized(b), quantized(a)),
{
    Color::rgba(quantize(r), quantize(g), quantize(b), quantize(a))
}

} // verus!
