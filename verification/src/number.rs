//! JSON numbers as unsigned 256-bit integers: a number that is no unsigned
//! integer is cut down to its integer part.

use crate::uint256::{limbs_value, uint256_limit, Uint256};
use vstd::arithmetic::div_mod::lemma_div_denominator;
use vstd::prelude::*;

verus! {

/// 2 to the power `n`.
pub open spec fn two_to(n: nat) -> nat
    decreases n,
{
    if n == 0 {
        1
    } else {
        2 * two_to((n - 1) as nat)
    }
}

/// `2^n` does not shrink as `n` grows, and is never zero.
pub proof fn lemma_two_to_monotone(a: nat, b: nat)
    requires
        a <= b,
    ensures
        0 < two_to(a) <= two_to(b),
    decreases b,
{
    if a < b {
        lemma_two_to_monotone(a, (b - 1) as nat);
    } else if a > 0 {
        lemma_two_to_monotone((a - 1) as nat, (a - 1) as nat);
    }
}

/// `2^(a+b)` is `2^a * 2^b`.
pub proof fn lemma_two_to_sum(a: nat, b: nat)
    ensures
        two_to(a + b) == two_to(a) * two_to(b),
    decreases b,
{
    if b == 0 {
        assert(two_to(a) * 1 == two_to(a)) by (nonlinear_arith);
    } else {
        let c = (b - 1) as nat;
        lemma_two_to_sum(a, c);
        assert((a + b - 1) as nat == a + c);
        let x = two_to(a);
        let y = two_to(c);
        assert(2 * (x * y) == x * (2 * y)) by (nonlinear_arith);
    }
}

/// Some powers of two: those at the width of a byte, of the fraction field
/// of a double-precision number, of its significand, and of a limb.
pub proof fn lemma_two_to_landmarks()
    ensures
        two_to(8) == 0x100,
        two_to(16) == 0x1_0000,
        two_to(32) == 0x1_0000_0000,
        two_to(52) == 0x10_0000_0000_0000,
        two_to(53) == 0x20_0000_0000_0000,
        two_to(64) == 0x1_0000_0000_0000_0000,
{
    reveal_with_fuel(two_to, 9);
    let p4 = two_to(4);
    let p8 = two_to(8);
    let p16 = two_to(16);
    let p32 = two_to(32);
    let p48 = two_to(48);
    let p52 = two_to(52);
    assert(p4 == 16);
    assert(p8 == 0x100);
    lemma_two_to_sum(8, 8);
    assert(p16 == 0x1_0000) by (nonlinear_arith)
        requires
            p16 == p8 * p8,
            p8 == 0x100,
    ;
    lemma_two_to_sum(16, 16);
    assert(p32 == 0x1_0000_0000) by (nonlinear_arith)
        requires
            p32 == p16 * p16,
            p16 == 0x1_0000,
    ;
    lemma_two_to_sum(32, 16);
    assert(p48 == 0x1_0000_0000_0000) by (nonlinear_arith)
        requires
            p48 == p32 * p16,
            p32 == 0x1_0000_0000,
            p16 == 0x1_0000,
    ;
    lemma_two_to_sum(48, 4);
    assert(p52 == 0x10_0000_0000_0000) by (nonlinear_arith)
        requires
            p52 == p48 * p4,
            p48 == 0x1_0000_0000_0000,
            p4 == 16,
    ;
    assert(two_to(53) == 2 * p52);
    lemma_two_to_sum(32, 32);
    assert(two_to(64) == 0x1_0000_0000_0000_0000) by (nonlinear_arith)
        requires
            two_to(64) == p32 * p32,
            p32 == 0x1_0000_0000,
    ;
}

/// Whether the double-precision number with the bits `bits` is below zero:
/// whether its sign bit is set and it is not zero.
pub open spec fn double_is_negative(bits: u64) -> bool {
    bits > 0x8000_0000_0000_0000
}

/// The exponent field of a double-precision number: the eleven bits below
/// the sign bit.
pub open spec fn double_exponent(bits: u64) -> nat {
    ((bits / 0x10_0000_0000_0000) % 0x800) as nat
}

/// The significand of a normal double-precision number as an integer: the
/// 52 fraction bits under a leading one.
pub open spec fn double_significand(bits: u64) -> nat {
    (0x10_0000_0000_0000 + bits % 0x10_0000_0000_0000) as nat
}

/// The integer part of the magnitude of the double-precision number with the
/// bits `bits`. A normal number is its significand times `2^(e - 1075)`,
/// where `e` is its exponent field; with the exponent field 0 the magnitude
/// is below 1.
pub open spec fn double_integer_part(bits: u64) -> nat {
    let e = double_exponent(bits);
    if e == 0 {
        0
    } else if e >= 1075 {
        double_significand(bits) * two_to((e - 1075) as nat)
    } else {
        double_significand(bits) / two_to((1075 - e) as nat)
    }
}

/// The unsigned 256-bit integer that a number is taken for: its own value
/// where it is an unsigned 64-bit integer; else the integer part of the
/// double-precision number that stands for it, unless that number is below
/// zero or its integer part does not fit in 256 bits.
pub open spec fn truncated(unsigned: Option<u64>, double: Option<u64>) -> Option<nat> {
    match unsigned {
        Some(n) => Some(n as nat),
        None => match double {
            Some(bits) => if !double_is_negative(bits) && double_integer_part(bits)
                < uint256_limit() {
                Some(double_integer_part(bits))
            } else {
                None
            },
            None => None,
        },
    }
}

/// The value of an optional integer.
pub open spec fn optional_value(integer: Option<Uint256>) -> Option<nat> {
    match integer {
        Some(n) => Some(n@),
        None => None,
    }
}

/// The integer part of the magnitude of the double-precision number with the
/// bits `bits`, where it fits in 256 bits.
pub fn integer_part_of_double(bits: u64) -> (part: Option<Uint256>)
    ensures
        optional_value(part) == if double_integer_part(bits) < uint256_limit() {
            Some(double_integer_part(bits))
        } else {
            None
        },
{
    let e: u64 = (bits / 0x10_0000_0000_0000) % 0x800;
    let m: u64 = 0x10_0000_0000_0000 + bits % 0x10_0000_0000_0000;
    if e == 0 {
        return Some(Uint256::from_u64(0));
    }
    if e >= 1075 {
        let s: u64 = e - 1075;
        let mut acc = Uint256::from_u64(m);
        let mut i: u64 = 0;
        assert(m * two_to(0) == m) by (nonlinear_arith)
            requires
                two_to(0) == 1,
        ;
        while i < s
            invariant
                i <= s,
                acc@ == m * two_to(i as nat),
                e == double_exponent(bits),
                m == double_significand(bits),
                e >= 1075,
                s == e - 1075,
            decreases s - i,
        {
            let ghost before = two_to(i as nat);
            let ghost after = two_to((i + 1) as nat);
            proof {
                assert(after == 2 * before);
                assert(m * after == 2 * (m * before)) by (nonlinear_arith)
                    requires
                        after == 2 * before,
                ;
            }
            match acc.doubled() {
                None => {
                    proof {
                        lemma_two_to_monotone((i + 1) as nat, s as nat);
                        let last = two_to(s as nat);
                        assert(m * after <= m * last) by (nonlinear_arith)
                            requires
                                after <= last,
                        ;
                    }
                    return None;
                },
                Some(twice) => {
                    acc = twice;
                },
            }
            i = i + 1;
        }
        proof {
            acc.lemma_below_limit();
        }
        Some(acc)
    } else {
        let k: u64 = 1075 - e;
        let mut acc: u64 = m;
        let mut i: u64 = 0;
        assert(m as int / 1 == m);
        while i < k
            invariant
                i <= k,
                acc == (m as int) / (two_to(i as nat) as int),
            decreases k - i,
        {
            proof {
                lemma_two_to_monotone(i as nat, i as nat);
                lemma_div_denominator(m as int, two_to(i as nat) as int, 2);
                assert(two_to((i + 1) as nat) == two_to(i as nat) * 2);
            }
            acc = acc / 2;
            i = i + 1;
        }
        let part = Uint256::from_u64(acc);
        proof {
            part.lemma_below_limit();
        }
        Some(part)
    }
}

/// Whether the double-precision number with the bits `bits` is below zero.
pub fn is_negative_double(bits: u64) -> (negative: bool)
    ensures
        negative == double_is_negative(bits),
{
    bits > 0x8000_0000_0000_0000
}

/// The unsigned 256-bit integer that a number is taken for, given its value
/// where it is an unsigned 64-bit integer and the bits of the
/// double-precision number that stands for it.
pub fn truncate_number(unsigned: Option<u64>, double: Option<u64>) -> (integer: Option<Uint256>)
    ensures
        optional_value(integer) == truncated(unsigned, double),
{
    match unsigned {
        Some(n) => Some(Uint256::from_u64(n)),
        None => match double {
            Some(bits) => {
                if is_negative_double(bits) {
                    None
                } else {
                    integer_part_of_double(bits)
                }
            },
            None => None,
        },
    }
}

} // verus!
