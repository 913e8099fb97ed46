//! Reading single PCM samples out of little-endian bytes.
//!
//! Integer samples keep their top 16 bits. Floating-point samples are read
//! from their IEEE 754 bit patterns: a sample is the exact rational number
//! that the bits stand for, scaled so that 1.0 is 32768, cut towards zero
//! and held within the 16-bit range.

use vstd::arithmetic::power2::{lemma2_to64, lemma2_to64_rest, lemma_pow2_pos, pow2};
use vstd::prelude::*;

verus! {

/// The unsigned 16-bit word at byte `at`.
pub open spec fn u16_at(bytes: Seq<u8>, at: int) -> int {
    bytes[at] + 256 * bytes[at + 1]
}

/// The unsigned 24-bit word at byte `at`.
pub open spec fn u24_at(bytes: Seq<u8>, at: int) -> int {
    u16_at(bytes, at) + 65536 * bytes[at + 2]
}

/// The unsigned 32-bit word at byte `at`.
pub open spec fn u32_at(bytes: Seq<u8>, at: int) -> int {
    u16_at(bytes, at) + 65536 * u16_at(bytes, at + 2)
}

/// The unsigned 64-bit word at byte `at`.
pub open spec fn u64_at(bytes: Seq<u8>, at: int) -> int {
    u32_at(bytes, at) + 0x1_0000_0000 * u32_at(bytes, at + 4)
}

/// The two's complement reading of the `modulus / 2`-biased word `word`.
pub open spec fn signed(word: int, modulus: int) -> int {
    if word >= modulus / 2 {
        word - modulus
    } else {
        word
    }
}

/// `value` held within the 16-bit range.
pub open spec fn clip(value: int) -> int {
    if value < -32768 {
        -32768
    } else if value > 32767 {
        32767
    } else {
        value
    }
}

/// The whole part of `mantissa` times two to the `exponent`.
pub open spec fn scaled(mantissa: nat, exponent: int) -> nat {
    if exponent >= 0 {
        mantissa * pow2(exponent as nat)
    } else {
        mantissa / pow2((-exponent) as nat)
    }
}

/// The sample that a binary floating-point pattern stands for: one sign bit,
/// `exp_bits` exponent bits and `frac_bits` fraction bits. An infinity is the
/// end of the range on its side; what is not a number is silence.
pub open spec fn float_sample(bits: int, exp_bits: nat, frac_bits: nat) -> int {
    let one = pow2(frac_bits) as int;
    let exps = pow2(exp_bits) as int;
    let frac = bits % one;
    let exp = (bits / one) % exps;
    let negative = bits / one / exps == 1;
    if exp == exps - 1 {
        if frac != 0 {
            0
        } else if negative {
            -32768
        } else {
            32767
        }
    } else {
        let mantissa = if exp == 0 {
            frac
        } else {
            frac + one
        };
        let power = if exp == 0 {
            1int
        } else {
            exp
        };
        let magnitude = scaled(mantissa as nat, power - (exps / 2 - 1) - frac_bits + 15);
        clip(
            if negative {
                -magnitude
            } else {
                magnitude as int
            },
        )
    }
}

/// A sign and a magnitude as a sample.
fn clipped(negative: bool, magnitude: u64) -> (sample: i16)
    ensures
        sample == clip(
            if negative {
                -(magnitude as int)
            } else {
                magnitude as int
            },
        ),
{
    if negative {
        if magnitude > 32768 {
            -32768
        } else {
            (-(magnitude as i32)) as i16
        }
    } else if magnitude > 32767 {
        32767
    } else {
        magnitude as i16
    }
}

/// A finite floating-point number, `mantissa` times two to the `exponent`,
/// as a sample.
fn float_to_sample(negative: bool, mantissa: u64, exponent: i32) -> (sample: i16)
    requires
        mantissa < 0x20_0000_0000_0000,
        exponent >= 0 ==> mantissa >= 65536,
        exponent > -5000,
    ensures
        sample == clip(
            if negative {
                -(scaled(mantissa as nat, exponent as int))
            } else {
                scaled(mantissa as nat, exponent as int) as int
            },
        ),
{
    proof {
        lemma2_to64();
        lemma2_to64_rest();
    }
    if exponent >= 0 {
        proof {
            let p = pow2(exponent as nat);
            lemma_pow2_pos(exponent as nat);
            assert(mantissa * p >= mantissa) by (nonlinear_arith)
                requires
                    p >= 1,
            ;
        }
        clipped(negative, 65536)
    } else {
        let shift: u32 = (-exponent) as u32;
        if shift < 64 {
            proof {
                vstd::bits::lemma_u64_shr_is_div(mantissa, shift as u64);
            }
            clipped(negative, mantissa >> (shift as u64))
        } else {
            proof {
                let p = pow2(shift as nat);
                if shift > 64 {
                    vstd::arithmetic::power2::lemma_pow2_strictly_increases(64, shift as nat);
                }
                assert(mantissa as nat / p == 0) by {
                    vstd::arithmetic::div_mod::lemma_basic_div(mantissa as int, p as int);
                }
            }
            clipped(negative, 0)
        }
    }
}

/// A single-precision bit pattern as a sample.
pub fn f32_sample(bits: u32) -> (sample: i16)
    ensures
        sample == float_sample(bits as int, 8, 23),
{
    proof {
        lemma2_to64();
    }
    let frac: u32 = bits % 0x80_0000;
    let exp: u32 = (bits / 0x80_0000) % 256;
    let negative: bool = bits / 0x80_0000 / 256 == 1;
    if exp == 255 {
        if frac != 0 {
            0
        } else if negative {
            -32768
        } else {
            32767
        }
    } else if exp == 0 {
        float_to_sample(negative, frac as u64, 1 - 135)
    } else {
        float_to_sample(negative, (frac + 0x80_0000) as u64, exp as i32 - 135)
    }
}

/// A double-precision bit pattern as a sample.
pub fn f64_sample(bits: u64) -> (sample: i16)
    ensures
        sample == float_sample(bits as int, 11, 52),
{
    proof {
        lemma2_to64();
        lemma2_to64_rest();
    }
    let frac: u64 = bits % 0x10_0000_0000_0000;
    let exp: u64 = (bits / 0x10_0000_0000_0000) % 2048;
    let negative: bool = bits / 0x10_0000_0000_0000 / 2048 == 1;
    if exp == 2047 {
        if frac != 0 {
            0
        } else if negative {
            -32768
        } else {
            32767
        }
    } else if exp == 0 {
        float_to_sample(negative, frac, 1 - 1060)
    } else {
        float_to_sample(negative, frac + 0x10_0000_0000_0000, exp as i32 - 1060)
    }
}

/// The 16-bit word with these bytes, low byte first, in two's complement.
pub fn s16_sample(low: u8, high: u8) -> (sample: i16)
    ensures
        sample == signed(low + 256 * high, 65536),
        sample == low + 256 * high - (if high >= 128 {
            65536int
        } else {
            0
        }),
{
    let word: i32 = low as i32 + 256 * (high as i32);
    if word >= 32768 {
        (word - 65536) as i16
    } else {
        word as i16
    }
}

/// The unsigned 32-bit word at byte `at`.
pub fn read_u32(bytes: &[u8], at: usize) -> (word: u32)
    requires
        at + 4 <= bytes.len(),
    ensures
        word == u32_at(bytes@, at as int),
        word == bytes@[at as int] + 256 * bytes@[at + 1] + 65536 * bytes@[at + 2] + 16777216
            * bytes@[at + 3],
{
    let low: u32 = bytes[at] as u32 + 256 * (bytes[at + 1] as u32);
    let high: u32 = bytes[at + 2] as u32 + 256 * (bytes[at + 3] as u32);
    low + 65536 * high
}

/// The unsigned 64-bit word at byte `at`.
pub fn read_u64(bytes: &[u8], at: usize) -> (word: u64)
    requires
        at + 8 <= bytes.len(),
    ensures
        word == u64_at(bytes@, at as int),
        word % 0x1_0000_0000 == bytes@[at as int] + 256 * bytes@[at + 1] + 65536 * bytes@[at + 2]
            + 16777216 * bytes@[at + 3],
        word / 0x1_0000_0000 == bytes@[at + 4] + 256 * bytes@[at + 5] + 65536 * bytes@[at + 6]
            + 16777216 * bytes@[at + 7],
{
    let low: u32 = read_u32(bytes, at);
    let high: u32 = read_u32(bytes, at + 4);
    low as u64 + 0x1_0000_0000 * (high as u64)
}

/// A sign, an exponent and a fraction, put together as a bit pattern, are read
/// back one by one.
proof fn pattern_parts(sign: int, exp: int, frac: int, exps: int, one: int)
    requires
        0 <= sign <= 1,
        0 <= exp < exps,
        0 <= frac < one,
    ensures
        ((sign * exps + exp) * one + frac) % one == frac,
        ((sign * exps + exp) * one + frac) / one % exps == exp,
        ((sign * exps + exp) * one + frac) / one / exps == sign,
{
    let top = sign * exps + exp;
    vstd::arithmetic::div_mod::lemma_fundamental_div_mod_converse(top * one + frac, one, top, frac);
    vstd::arithmetic::div_mod::lemma_fundamental_div_mod_converse(top, exps, sign, exp);
}

/// The whole part of a scaled number is what fits into it, and one more does
/// not.
proof fn scaled_is_whole_part(mantissa: nat, exponent: int)
    ensures
        ({
            let up = pow2(if exponent > 0 {
                exponent as nat
            } else {
                0
            });
            let down = pow2(if exponent < 0 {
                (-exponent) as nat
            } else {
                0
            });
            scaled(mantissa, exponent) * down <= mantissa * up < (scaled(mantissa, exponent) + 1)
                * down
        }),
{
    lemma2_to64();
    if exponent < 0 {
        let down = pow2((-exponent) as nat);
        lemma_pow2_pos((-exponent) as nat);
        let q = mantissa / down;
        vstd::arithmetic::div_mod::lemma_fundamental_div_mod(mantissa as int, down as int);
        vstd::arithmetic::div_mod::lemma_mod_bound(mantissa as int, down as int);
        assert(q * down <= mantissa * 1 < (q + 1) * down) by (nonlinear_arith)
            requires
                mantissa == down * q + mantissa as int % down as int,
                0 <= mantissa as int % down as int,
                (mantissa as int % down as int) < down,
        ;
    } else {
        assert(scaled(mantissa, exponent) == mantissa * pow2(exponent as nat));
        let n = scaled(mantissa, exponent);
        assert(n * 1 <= n < (n + 1) * 1);
    }
}

/// A floating-point sample is its number times 32768, cut towards zero and
/// held within the 16-bit range. The number that a sign, an exponent and a
/// fraction stand for is `mantissa * up / down` once scaled, so the sample is
/// the whole number that fits into it, with the sign; the two ends of the range
/// stand for whatever lies beyond them.
pub proof fn floats_are_cut_to_scale(
    negative: bool,
    exp: nat,
    frac: nat,
    exp_bits: nat,
    frac_bits: nat,
)
    requires
        exp_bits >= 1,
        exp < pow2(exp_bits) - 1,
        frac < pow2(frac_bits),
    ensures
        ({
            let sign = if negative {
                1int
            } else {
                0
            };
            let bits = (sign * pow2(exp_bits) + exp) * pow2(frac_bits) + frac;
            let sample = float_sample(bits, exp_bits, frac_bits);
            let mantissa = if exp == 0 {
                frac
            } else {
                frac + pow2(frac_bits)
            };
            let exponent = (if exp == 0 {
                1
            } else {
                exp as int
            }) - (pow2(exp_bits) / 2 - 1) - frac_bits + 15;
            let up = pow2(if exponent > 0 {
                exponent as nat
            } else {
                0
            });
            let down = pow2(if exponent < 0 {
                (-exponent) as nat
            } else {
                0
            });
            &&& -32768 <= sample <= 32767
            &&& !negative ==> 0 <= sample && sample * down <= mantissa * up
            &&& !negative && sample < 32767 ==> mantissa * up < (sample + 1) * down
            &&& negative ==> sample <= 0 && -sample * down <= mantissa * up
            &&& negative && sample > -32768 ==> mantissa * up < (1 - sample) * down
        }),
{
    let sign = if negative {
        1int
    } else {
        0
    };
    let one = pow2(frac_bits) as int;
    let exps = pow2(exp_bits) as int;
    lemma_pow2_pos(frac_bits);
    lemma_pow2_pos(exp_bits);
    pattern_parts(sign, exp as int, frac as int, exps, one);
    let mantissa = if exp == 0 {
        frac
    } else {
        frac + pow2(frac_bits)
    };
    let exponent = (if exp == 0 {
        1
    } else {
        exp as int
    }) - (pow2(exp_bits) / 2 - 1) - frac_bits + 15;
    let down = pow2(if exponent < 0 {
        (-exponent) as nat
    } else {
        0
    });
    let up = pow2(if exponent > 0 {
        exponent as nat
    } else {
        0
    });
    lemma_pow2_pos(if exponent < 0 {
        (-exponent) as nat
    } else {
        0
    });
    scaled_is_whole_part(mantissa, exponent);
    let whole = scaled(mantissa, exponent);
    let limit = if negative {
        32768int
    } else {
        32767
    };
    if whole > limit {
        assert(limit * down <= whole * down) by (nonlinear_arith)
            requires
                limit <= whole,
                down > 0,
        ;
    }
    assert(-(-limit) * down == limit * down);
}

/// An infinite floating-point number is the end of the range on its side, and
/// what is not a number is silence.
pub proof fn special_floats(negative: bool, frac: nat, exp_bits: nat, frac_bits: nat)
    requires
        frac < pow2(frac_bits),
    ensures
        ({
            let sign = if negative {
                1int
            } else {
                0
            };
            let bits = (sign * pow2(exp_bits) + pow2(exp_bits) - 1) * pow2(frac_bits) + frac;
            let sample = float_sample(bits, exp_bits, frac_bits);
            &&& frac != 0 ==> sample == 0
            &&& frac == 0 && negative ==> sample == -32768
            &&& frac == 0 && !negative ==> sample == 32767
        }),
{
    let sign = if negative {
        1int
    } else {
        0
    };
    lemma_pow2_pos(frac_bits);
    lemma_pow2_pos(exp_bits);
    let exps = pow2(exp_bits) as int;
    pattern_parts(sign, exps - 1, frac as int, exps, pow2(frac_bits) as int);
}

} // verus!
