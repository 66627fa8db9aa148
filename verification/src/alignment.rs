//! What is provable of the alignment of an address.

use vstd::arithmetic::div_mod::{
    lemma_add_mod_noop, lemma_fundamental_div_mod, lemma_mod_multiples_basic, lemma_small_mod,
};
use vstd::arithmetic::mul::lemma_mul_is_associative;
use vstd::arithmetic::power2::{is_pow2, lemma2_to64, lemma_pow2_pos, lemma_pow2_unfold, pow2};
use vstd::prelude::*;

verus! {

/// The greatest common divisor, by Euclid's algorithm.
pub open spec fn gcd(a: nat, b: nat) -> nat
    decreases b,
{
    if b == 0 {
        a
    } else {
        gcd(b, a % b)
    }
}

/// Whether `d` divides `n`.
pub open spec fn divides(d: nat, n: nat) -> bool {
    d > 0 && n % d == 0
}

/// A divisor of two numbers divides their sum.
proof fn lemma_divides_sum(d: nat, a: nat, b: nat)
    requires
        divides(d, a),
        divides(d, b),
    ensures
        divides(d, a + b),
{
    lemma_add_mod_noop(a as int, b as int, d as int);
    lemma_small_mod(0, d);
}

/// A divisor of a number divides its multiples.
proof fn lemma_divides_multiple(d: nat, a: nat, k: nat)
    requires
        divides(d, a),
    ensures
        divides(d, k * a),
{
    lemma_fundamental_div_mod(a as int, d as int);
    let q = a as int / d as int;
    assert(k * a == (k * q) * d) by {
        assert(a == d * q);
        lemma_mul_is_associative(k as int, q, d as int);
        assert(d * q == q * d) by (nonlinear_arith);
    }
    lemma_mod_multiples_basic(k * q, d as int);
}

/// The greatest common divisor divides both numbers.
pub proof fn law_gcd_divides(a: nat, b: nat)
    requires
        a > 0 || b > 0,
    ensures
        divides(gcd(a, b), a),
        divides(gcd(a, b), b),
    decreases b,
{
    if b == 0 {
        assert(a % a == 0) by (nonlinear_arith)
            requires
                a > 0,
        ;
        assert(0nat % a == 0) by (nonlinear_arith)
            requires
                a > 0,
        ;
    } else {
        law_gcd_divides(b, a % b);
        let g = gcd(b, a % b);
        lemma_divides_multiple(g, b, a / b);
        lemma_divides_sum(g, (a / b) * b, a % b);
        lemma_fundamental_div_mod(a as int, b as int);
        assert((a / b) * b == b * (a / b)) by (nonlinear_arith);
    }
}

/// Every common divisor divides the greatest common divisor.
pub proof fn law_gcd_greatest(a: nat, b: nat, d: nat)
    requires
        divides(d, a),
        divides(d, b),
    ensures
        divides(d, gcd(a, b)),
    decreases b,
{
    if b > 0 {
        lemma_fundamental_div_mod(a as int, b as int);
        lemma_divides_multiple(d, b, a / b);
        assert(b * (a / b) == (a / b) * b) by (nonlinear_arith);
        let m = (a / b) * b;
        lemma_fundamental_div_mod(a as int, d as int);
        lemma_fundamental_div_mod(m as int, d as int);
        let r = a % b;
        assert(r == d * (a as int / d as int) - d * (m as int / d as int));
        assert(r == ((a as int / d as int) - (m as int / d as int)) * d) by (nonlinear_arith)
            requires
                r == d * (a as int / d as int) - d * (m as int / d as int),
        ;
        lemma_mod_multiples_basic((a as int / d as int) - (m as int / d as int), d as int);
        law_gcd_greatest(b, a % b, d);
    }
}

fn greatest_common_divisor(a: u64, b: u64) -> (r: u64)
    ensures
        r == gcd(a as nat, b as nat),
    decreases b,
{
    if b == 0 {
        a
    } else {
        greatest_common_divisor(b, a % b)
    }
}

/// Whether `n` is a power of two.
fn is_power_of_two(n: u64) -> (r: bool)
    ensures
        r == is_pow2(n as int),
{
    proof {
        reveal(is_pow2);
    }
    if n == 0 {
        return false;
    }
    let mut rest: u64 = n;
    while rest % 2 == 0
        invariant
            rest > 0,
            is_pow2(n as int) == is_pow2(rest as int),
        decreases rest,
    {
        proof {
            reveal(is_pow2);
        }
        rest = rest / 2;
    }
    rest == 1
}

/// The alignment attribute for a provable alignment: powers of two of at most 32
/// bits.
pub open spec fn stamp(provable: nat) -> Option<u32> {
    if is_pow2(provable as int) && provable <= u32::MAX {
        Some(provable as u32)
    } else {
        None
    }
}

fn checked_stamp(provable: u64) -> (r: Option<u32>)
    ensures
        r == stamp(provable as nat),
{
    if !is_power_of_two(provable) {
        return None;
    }
    if provable <= u32::MAX as u64 {
        Some(provable as u32)
    } else {
        None
    }
}

/// The alignment of the field at `offset` of an aggregate that is aligned to
/// `abi_align`. Nothing is claimed where either is unknown.
pub open spec fn field_alignment(abi_align: u64, offset: Option<u64>) -> Option<u32> {
    match offset {
        Some(at) => if abi_align == 0 {
            None
        } else {
            stamp(gcd(abi_align as nat, at as nat))
        },
        None => None,
    }
}

/// The alignment of the field at `offset` of an aggregate that is aligned to
/// `abi_align`.
pub fn field_address_alignment(abi_align: u64, offset: Option<u64>) -> (r: Option<u32>)
    ensures
        r == field_alignment(abi_align, offset),
{
    if abi_align == 0 {
        return None;
    }
    match offset {
        Some(at) => {
            let provable: u64 = if at == 0 {
                abi_align
            } else {
                greatest_common_divisor(abi_align, at)
            };
            checked_stamp(provable)
        },
        None => None,
    }
}

/// Wherever the aggregate lies, the field has the alignment claimed for it.
pub proof fn law_field_alignment(abi_align: u64, offset: u64, base: nat)
    requires
        divides(abi_align as nat, base),
    ensures
        field_alignment(abi_align, Some(offset)) matches Some(align) ==> is_pow2(align as int)
            && divides(align as nat, base + offset as nat),
{
    let g = gcd(abi_align as nat, offset as nat);
    law_gcd_divides(abi_align as nat, offset as nat);
    lemma_fundamental_div_mod(base as int, abi_align as int);
    let q = (base as int / abi_align as int) as nat;
    lemma_divides_multiple(g, abi_align as nat, q);
    assert(q * abi_align == abi_align * q) by (nonlinear_arith);
    lemma_divides_sum(g, base, offset as nat);
}

/// The alignment of an element of an array that starts at an address aligned to
/// `base_align`: of the element at a constant index, else of every element.
pub open spec fn element_alignment(
    base_align: Option<u64>,
    stride: Option<u64>,
    index: Option<u64>,
) -> Option<u32> {
    match (base_align, stride) {
        (Some(base), Some(step)) => if base == 0 || step == 0 {
            None
        } else {
            match index {
                Some(i) => if i * step <= u64::MAX {
                    stamp(gcd(base as nat, (i * step) as nat))
                } else {
                    None
                },
                None => stamp(gcd(base as nat, step as nat)),
            }
        },
        _ => None,
    }
}

/// The alignment of an element of an array.
pub fn element_address_alignment(
    base_align: Option<u64>,
    stride: Option<u64>,
    index: Option<u64>,
) -> (r: Option<u32>)
    ensures
        r == element_alignment(base_align, stride, index),
{
    let base: u64 = match base_align {
        Some(base) => base,
        None => {
            return None;
        },
    };
    if base == 0 {
        return None;
    }
    let step: u64 = match stride {
        Some(step) => step,
        None => {
            return None;
        },
    };
    if step == 0 {
        return None;
    }
    let provable: u64 = match index {
        Some(i) => {
            if i == 0 {
                base
            } else {
                match i.checked_mul(step) {
                    Some(at) => greatest_common_divisor(base, at),
                    None => {
                        return None;
                    },
                }
            }
        },
        None => greatest_common_divisor(base, step),
    };
    checked_stamp(provable)
}

/// Wherever the array lies, the element has the alignment claimed for it. A
/// claim without a constant index holds of every element.
pub proof fn law_element_alignment(
    base_align: u64,
    stride: u64,
    index: Option<u64>,
    base: nat,
    i: nat,
)
    requires
        divides(base_align as nat, base),
        index matches Some(at) ==> at == i,
    ensures
        element_alignment(Some(base_align), Some(stride), index) matches Some(align) ==> is_pow2(
            align as int,
        ) && divides(align as nat, base + i * stride as nat),
{
    if element_alignment(Some(base_align), Some(stride), index) is Some {
        let align = element_alignment(Some(base_align), Some(stride), index).unwrap() as nat;
        let at = i * stride as nat;
        if index is Some {
            law_gcd_divides(base_align as nat, at);
        } else {
            law_gcd_divides(base_align as nat, stride as nat);
            lemma_divides_multiple(align, stride as nat, i);
        }
        lemma_fundamental_div_mod(base as int, base_align as int);
        let q = (base as int / base_align as int) as nat;
        lemma_divides_multiple(align, base_align as nat, q);
        assert(q * base_align == base_align * q) by (nonlinear_arith);
        lemma_divides_sum(align, base, at);
    }
}

/// A divisor of a power of two is one.
proof fn lemma_divisor_of_power(d: nat, m: nat, k: nat)
    requires
        d * m == pow2(k),
    ensures
        is_pow2(d as int),
    decreases k,
{
    lemma_pow2_pos(k);
    assert(d > 0 && m > 0) by (nonlinear_arith)
        requires
            d * m > 0,
    ;
    if k == 0 {
        lemma2_to64();
        assert(d == 1) by (nonlinear_arith)
            requires
                d * m == 1,
        ;
        reveal(is_pow2);
    } else {
        lemma_pow2_unfold(k);
        let half = pow2((k - 1) as nat);
        if d % 2 == 0 {
            let e = d / 2;
            assert(e * m == half) by (nonlinear_arith)
                requires
                    d == 2 * e,
                    d * m == 2 * half,
            ;
            lemma_divisor_of_power(e, m, (k - 1) as nat);
            reveal(is_pow2);
        } else if m % 2 == 0 {
            let e = m / 2;
            assert(d * e == half) by (nonlinear_arith)
                requires
                    m == 2 * e,
                    d * m == 2 * half,
            ;
            lemma_divisor_of_power(d, e, (k - 1) as nat);
        } else {
            let (x, y) = (d / 2, m / 2);
            assert(d * m == 2 * (2 * x * y + x + y) + 1) by (nonlinear_arith)
                requires
                    d == 2 * x + 1,
                    m == 2 * y + 1,
            ;
        }
    }
}

/// The greatest common divisor with a power of two is a power of two, and no
/// larger than it.
proof fn lemma_gcd_of_power(a: nat, b: nat, k: nat)
    requires
        a == pow2(k),
    ensures
        is_pow2(gcd(a, b) as int),
        gcd(a, b) <= a,
{
    lemma_pow2_pos(k);
    law_gcd_divides(a, b);
    let g = gcd(a, b);
    lemma_fundamental_div_mod(a as int, g as int);
    let q = (a as int / g as int) as nat;
    lemma_divisor_of_power(g, q, k);
    assert(g <= a) by (nonlinear_arith)
        requires
            a == g * q,
            a > 0,
    ;
}

/// The alignment claimed of a field is the best one: whatever divides the
/// alignment of the aggregate and the offset divides it. It is claimed wherever
/// the aggregate is aligned to a power of two.
pub proof fn law_field_alignment_best(abi_align: u64, offset: u64, d: nat, k: nat)
    requires
        divides(d, abi_align as nat),
        divides(d, offset as nat),
        abi_align == pow2(k),
        abi_align <= u32::MAX,
    ensures
        field_alignment(abi_align, Some(offset)) matches Some(align) && divides(d, align as nat),
{
    lemma_pow2_pos(k);
    law_gcd_greatest(abi_align as nat, offset as nat, d);
    lemma_gcd_of_power(abi_align as nat, offset as nat, k);
}

/// The alignment claimed of an element is the best one: whatever divides the
/// alignment of the array and the distance of the element, or the stride where
/// the index is not known, divides it. It is claimed wherever the array is
/// aligned to a power of two.
pub proof fn law_element_alignment_best(
    base_align: u64,
    stride: u64,
    index: Option<u64>,
    d: nat,
    k: nat,
)
    requires
        stride > 0,
        divides(d, base_align as nat),
        index is None ==> divides(d, stride as nat),
        index matches Some(i) ==> i * stride <= u64::MAX && divides(d, (i * stride) as nat),
        base_align == pow2(k),
        base_align <= u32::MAX,
    ensures
        element_alignment(Some(base_align), Some(stride), index) matches Some(align) && divides(
            d,
            align as nat,
        ),
{
    lemma_pow2_pos(k);
    let distance = match index {
        Some(i) => (i * stride) as nat,
        None => stride as nat,
    };
    law_gcd_greatest(base_align as nat, distance, d);
    lemma_gcd_of_power(base_align as nat, distance, k);
}

} // verus!
