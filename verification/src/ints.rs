//! Integer constants of arbitrary width.

use pliron::utils::apint::APInt;
use std::num::NonZeroUsize;
use vstd::prelude::*;

verus! {

/// An integer constant: a bit width, the low 128 bits of the value, and whether
/// the bits above those are ones. They are all zeros or all ones; up to 128 bits
/// there are none.
#[derive(Clone, Copy, PartialEq, Eq, Structural, Debug)]
pub struct IntConst {
    pub width: u32,
    pub bits: u128,
    pub ones_above: bool,
}

/// How many bits of a `width`-bit constant are held explicitly.
pub open spec fn kept_bits(width: u32) -> nat {
    if width < 128 {
        width as nat
    } else {
        128
    }
}

/// The number of distinct `width`-bit patterns.
pub open spec fn modulus(width: u32) -> int {
    vstd::arithmetic::power2::pow2(width as nat) as int
}

impl IntConst {
    /// The constant that holds `value` reduced to `width` bits.
    pub open spec fn of_int(value: int, width: u32) -> IntConst {
        IntConst {
            width,
            bits: (value % (vstd::arithmetic::power2::pow2(kept_bits(width)) as int)) as u128,
            ones_above: width > 128 && value < 0,
        }
    }

    /// The constant read as an unsigned number of `width` bits.
    pub open spec fn value(self) -> int {
        if self.width > 128 && self.ones_above {
            modulus(self.width) - modulus(128) + self.bits
        } else {
            self.bits as int
        }
    }

    /// `value` sign-extended or truncated to `width` bits.
    pub fn from_i64(value: i64, width: u32) -> (c: IntConst)
        requires
            width > 0,
        ensures
            c == IntConst::of_int(value as int, width),
    {
        IntConst {
            width,
            bits: apint_from_i64(value, width),
            ones_above: width > 128 && value < 0,
        }
    }

    /// `value` zero-extended or truncated to `width` bits.
    pub fn from_u64(value: u64, width: u32) -> (c: IntConst)
        requires
            width > 0,
        ensures
            c == IntConst::of_int(value as int, width),
    {
        IntConst { width, bits: apint_from_u64(value, width), ones_above: false }
    }

    /// `value` zero-extended or truncated to `width` bits.
    pub fn from_u128(value: u128, width: u32) -> (c: IntConst)
        requires
            width > 0,
        ensures
            c == IntConst::of_int(value as int, width),
    {
        IntConst { width, bits: apint_from_u128(value, width), ones_above: false }
    }
}

/// A constant made from a number of at most 128 bits, and a sign, stands for that
/// number modulo two to the power of its width.
pub proof fn lemma_value_of_int(value: int, width: u32)
    requires
        width > 0,
        width > 128 ==> -0x1_0000_0000_0000_0000_0000_0000_0000_0000 <= value
            < 0x1_0000_0000_0000_0000_0000_0000_0000_0000,
    ensures
        IntConst::of_int(value, width).value() == value % modulus(width),
        0 <= IntConst::of_int(value, width).value() < modulus(width),
{
    let m = vstd::arithmetic::power2::pow2(kept_bits(width)) as int;
    vstd::arithmetic::power2::lemma_pow2_pos(kept_bits(width));
    vstd::arithmetic::power2::lemma_pow2_pos(width as nat);
    lemma_pow2_128();
    if kept_bits(width) < 128 {
        vstd::arithmetic::power2::lemma_pow2_strictly_increases(kept_bits(width), 128);
    }
    vstd::arithmetic::div_mod::lemma_mod_bound(value, m);
    if width > 128 {
        vstd::arithmetic::power2::lemma_pow2_strictly_increases(128, width as nat);
        let w = modulus(width);
        if value >= 0 {
            vstd::arithmetic::div_mod::lemma_small_mod(value as nat, m as nat);
            vstd::arithmetic::div_mod::lemma_small_mod(value as nat, w as nat);
        } else {
            vstd::arithmetic::div_mod::lemma_mod_add_multiples_vanish(value, m);
            vstd::arithmetic::div_mod::lemma_small_mod((m + value) as nat, m as nat);
            vstd::arithmetic::div_mod::lemma_mod_add_multiples_vanish(value, w);
            vstd::arithmetic::div_mod::lemma_small_mod((w + value) as nat, w as nat);
        }
    }
}

/// The 128th power of two, as a literal.
pub proof fn lemma_pow2_128()
    ensures
        vstd::arithmetic::power2::pow2(128) == 0x1_0000_0000_0000_0000_0000_0000_0000_0000,
{
    vstd::arithmetic::power2::lemma2_to64();
    vstd::arithmetic::power2::lemma_pow2_adds(64, 64);
}

/// The signed number with the same 64 bits.
pub open spec fn signed64(x: u64) -> int {
    if x < 0x8000_0000_0000_0000 {
        x as int
    } else {
        x - 0x1_0000_0000_0000_0000
    }
}

/// The signed number with the same 64 bits.
pub fn to_signed(x: u64) -> (r: i64)
    ensures
        r == signed64(x),
{
    if x < 0x8000_0000_0000_0000 {
        x as i64
    } else {
        let low: u64 = x - 0x8000_0000_0000_0000;
        (low as i64) + i64::MIN
    }
}

/// `APInt::from_i64`, read back with `APInt::to_u128`: the value is
/// sign-extended or truncated to `width` bits, of which the low 128 are
/// returned.
#[verifier::external_body]
fn apint_from_i64(value: i64, width: u32) -> (bits: u128)
    requires
        width > 0,
    ensures
        bits == (value as int) % (vstd::arithmetic::power2::pow2(kept_bits(width)) as int),
{
    APInt::from_i64(value, NonZeroUsize::new(width as usize).unwrap()).to_u128()
}

/// `APInt::from_u64`, read back with `APInt::to_u128`: the value is
/// zero-extended or truncated to `width` bits, of which the low 128 are
/// returned.
#[verifier::external_body]
fn apint_from_u64(value: u64, width: u32) -> (bits: u128)
    requires
        width > 0,
    ensures
        bits == (value as int) % (vstd::arithmetic::power2::pow2(kept_bits(width)) as int),
{
    APInt::from_u64(value, NonZeroUsize::new(width as usize).unwrap()).to_u128()
}

/// `APInt::from_u128`, read back with `APInt::to_u128`: the value is truncated
/// to `width` bits where it is wider, of which the low 128 are returned.
#[verifier::external_body]
fn apint_from_u128(value: u128, width: u32) -> (bits: u128)
    requires
        width > 0,
    ensures
        bits == (value as int) % (vstd::arithmetic::power2::pow2(kept_bits(width)) as int),
{
    APInt::from_u128(value, NonZeroUsize::new(width as usize).unwrap()).to_u128()
}

} // verus!
