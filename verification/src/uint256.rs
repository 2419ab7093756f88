//! Unsigned 256-bit integers as the ledger exchanges them.

use vstd::prelude::*;

verus! {

/// 2^64, the weight of the second limb.
pub open spec fn weight_1() -> nat {
    0x1_0000_0000_0000_0000
}

/// 2^128, the weight of the third limb.
pub open spec fn weight_2() -> nat {
    0x1_0000_0000_0000_0000_0000_0000_0000_0000nat
}

/// 2^192, the weight of the fourth limb.
pub open spec fn weight_3() -> nat {
    0x1_0000_0000_0000_0000_0000_0000_0000_0000_0000_0000_0000_0000nat
}

/// 2^256, one more than the largest unsigned 256-bit integer.
pub open spec fn uint256_limit() -> nat {
    0x1_0000_0000_0000_0000_0000_0000_0000_0000_0000_0000_0000_0000_0000_0000_0000_0000nat
}

/// The number that four limbs stand for, least significant first.
pub open spec fn limbs_value(l0: u64, l1: u64, l2: u64, l3: u64) -> nat {
    (l0 as nat) + (l1 as nat) * weight_1() + (l2 as nat) * weight_2() + (l3 as nat) * weight_3()
}

/// Four limbs stand for a number below 2^256, and for one that is at least
/// 2^64 as soon as a limb above the lowest is not zero.
pub proof fn lemma_limbs_value_bounds(l0: u64, l1: u64, l2: u64, l3: u64)
    ensures
        limbs_value(l0, l1, l2, l3) < uint256_limit(),
        l1 > 0 || l2 > 0 || l3 > 0 ==> limbs_value(l0, l1, l2, l3) >= weight_1(),
        l1 == 0 && l2 == 0 && l3 == 0 ==> limbs_value(l0, l1, l2, l3) == l0,
{
    let w1 = weight_1();
    let w2 = weight_2();
    let w3 = weight_3();
    assert(l1 * w1 <= 0xffff_ffff_ffff_ffff * w1 && (l1 > 0 ==> l1 * w1 >= w1) && (l1 == 0 ==> l1
        * w1 == 0)) by (nonlinear_arith)
        requires
            l1 <= 0xffff_ffff_ffff_ffff,
            w1 > 0,
    ;
    assert(l2 * w2 <= 0xffff_ffff_ffff_ffff * w2 && (l2 > 0 ==> l2 * w2 >= w2) && (l2 == 0 ==> l2
        * w2 == 0)) by (nonlinear_arith)
        requires
            l2 <= 0xffff_ffff_ffff_ffff,
            w2 > 0,
    ;
    assert(l3 * w3 <= 0xffff_ffff_ffff_ffff * w3 && (l3 > 0 ==> l3 * w3 >= w3) && (l3 == 0 ==> l3
        * w3 == 0)) by (nonlinear_arith)
        requires
            l3 <= 0xffff_ffff_ffff_ffff,
            w3 > 0,
    ;
}

/// The decimal digit character for `d`, where `d < 10`.
pub open spec fn digit_char(d: nat) -> char {
    if d == 0 {
        '0'
    } else if d == 1 {
        '1'
    } else if d == 2 {
        '2'
    } else if d == 3 {
        '3'
    } else if d == 4 {
        '4'
    } else if d == 5 {
        '5'
    } else if d == 6 {
        '6'
    } else if d == 7 {
        '7'
    } else if d == 8 {
        '8'
    } else {
        '9'
    }
}

/// The decimal numeral of `n`: no sign, no leading zero, `"0"` for zero.
pub open spec fn decimal_digits(n: nat) -> Seq<char>
    decreases n,
{
    if n < 10 {
        seq![digit_char(n)]
    } else {
        decimal_digits(n / 10).push(digit_char(n % 10))
    }
}

/// 256 to the power `n`.
pub open spec fn pow256(n: nat) -> nat
    decreases n,
{
    if n == 0 {
        1
    } else {
        256 * pow256((n - 1) as nat)
    }
}

/// The number that `bytes` stand for, most significant byte first.
pub open spec fn be_value(bytes: Seq<u8>) -> nat
    decreases bytes.len(),
{
    if bytes.len() == 0 {
        0
    } else {
        be_value(bytes.drop_last()) * 256 + bytes.last() as nat
    }
}

/// A big-endian number of `n` bytes is below `256^n`.
pub proof fn lemma_be_value_bound(bytes: Seq<u8>)
    ensures
        be_value(bytes) < pow256(bytes.len()),
    decreases bytes.len(),
{
    if bytes.len() > 0 {
        lemma_be_value_bound(bytes.drop_last());
    }
}

/// Bytes put in front of `low` weigh `256^low.len()` times their own value.
pub proof fn lemma_be_value_concat(high: Seq<u8>, low: Seq<u8>)
    ensures
        be_value(high + low) == be_value(high) * pow256(low.len()) + be_value(low),
    decreases low.len(),
{
    if low.len() == 0 {
        assert(high + low =~= high);
        assert(be_value(high) * 1 == be_value(high)) by (nonlinear_arith);
    } else {
        let rest = low.drop_last();
        assert((high + low).drop_last() =~= high + rest);
        assert((high + low).last() == low.last());
        lemma_be_value_concat(high, rest);
        let h = be_value(high);
        let p = pow256(rest.len());
        let r = be_value(rest);
        assert((h * p + r) * 256 == h * (256 * p) + r * 256) by (nonlinear_arith);
    }
}

/// The powers of 256 at the limb boundaries.
pub proof fn lemma_pow256_limbs()
    ensures
        pow256(7) == 0x100_0000_0000_0000,
        pow256(8) == weight_1(),
        pow256(16) == weight_2(),
        pow256(24) == weight_3(),
{
    reveal_with_fuel(pow256, 9);
    assert(pow256(8) == weight_1());
    assert(pow256(16) == weight_1() * pow256(8)) by {
        lemma_pow256_sum(8, 8);
    }
    assert(pow256(24) == weight_2() * pow256(8)) by {
        lemma_pow256_sum(16, 8);
    }
}

/// `256^(a+b)` is `256^a * 256^b`.
pub proof fn lemma_pow256_sum(a: nat, b: nat)
    ensures
        pow256(a + b) == pow256(a) * pow256(b),
    decreases b,
{
    if b == 0 {
        assert(pow256(a) * 1 == pow256(a)) by (nonlinear_arith);
    } else {
        let c = (b - 1) as nat;
        lemma_pow256_sum(a, c);
        assert((a + b - 1) as nat == a + c);
        let x = pow256(a);
        let y = pow256(c);
        assert(256 * (x * y) == x * (256 * y)) by (nonlinear_arith);
    }
}

/// An unsigned 256-bit integer, held as four 64-bit limbs, least significant
/// first.
#[derive(Clone, Copy, Debug)]
pub struct Uint256 {
    pub limbs: [u64; 4],
}

impl View for Uint256 {
    type V = nat;

    /// The number that the four limbs stand for.
    open spec fn view(&self) -> nat {
        limbs_value(self.limbs[0], self.limbs[1], self.limbs[2], self.limbs[3])
    }
}

/// Formats the integer with `ethers::types::U256`'s `Display`, which writes the
/// decimal numeral of the value: `"0"` for zero, else the digits from the most
/// significant down, without padding.
#[verifier::external_body]
fn u256_to_decimal(value: &Uint256) -> (text: String)
    ensures
        text@ == decimal_digits(value@),
{
    ethers::types::U256(value.limbs).to_string()
}

/// The eight bytes of `word` from `start` on, read as one big-endian limb.
fn be_limb(word: &[u8; 32], start: usize) -> (limb: u64)
    requires
        start + 8 <= 32,
    ensures
        limb == be_value(word@.subrange(start as int, start + 8)),
{
    let mut limb: u64 = 0;
    let mut taken: usize = 0;
    while taken < 8
        invariant
            taken <= 8,
            start + 8 <= 32,
            limb == be_value(word@.subrange(start as int, start + taken)),
        decreases 8 - taken,
    {
        let ghost before = word@.subrange(start as int, start + taken);
        let ghost after = word@.subrange(start as int, start + taken + 1);
        proof {
            lemma_be_value_bound(before);
            lemma_pow256_limbs();
            lemma_pow256_monotone(before.len(), 7);
            assert(after.drop_last() =~= before);
            assert(after.last() == word@[start + taken]);
        }
        limb = limb * 256 + word[start + taken] as u64;
        taken = taken + 1;
    }
    limb
}

/// `256^n` does not shrink as `n` grows.
pub proof fn lemma_pow256_monotone(a: nat, b: nat)
    requires
        a <= b,
    ensures
        pow256(a) <= pow256(b),
    decreases b,
{
    if a < b {
        lemma_pow256_monotone(a, (b - 1) as nat);
    }
}

impl Uint256 {
    /// The integer `value`.
    pub fn from_u64(value: u64) -> (result: Self)
        ensures
            result@ == value,
            result.limbs@ == seq![value, 0u64, 0u64, 0u64],
    {
        Uint256 { limbs: [value, 0, 0, 0] }
    }

    /// The integer that the 32 bytes of `word` stand for, most significant
    /// byte first.
    pub fn from_big_endian(word: &[u8; 32]) -> (result: Self)
        ensures
            result@ == be_value(word@),
    {
        let l3 = be_limb(word, 0);
        let l2 = be_limb(word, 8);
        let l1 = be_limb(word, 16);
        let l0 = be_limb(word, 24);
        proof {
            let b3 = word@.subrange(0, 8);
            let b2 = word@.subrange(8, 16);
            let b1 = word@.subrange(16, 24);
            let b0 = word@.subrange(24, 32);
            lemma_pow256_limbs();
            lemma_be_value_concat(b3, b2);
            lemma_be_value_concat(b3 + b2, b1);
            lemma_be_value_concat(b3 + b2 + b1, b0);
            assert(b3 + b2 + b1 + b0 =~= word@);
            assert(be_value(b3 + b2) == l3 * weight_1() + l2);
            assert(be_value(b3 + b2 + b1) == (l3 * weight_1() + l2) * weight_1() + l1);
            assert(be_value(word@) == ((l3 * weight_1() + l2) * weight_1() + l1) * weight_1()
                + l0);
            assert(((l3 * weight_1() + l2) * weight_1() + l1) * weight_1() + l0 == limbs_value(
                l0,
                l1,
                l2,
                l3,
            )) by (nonlinear_arith)
                requires
                    weight_1() == 0x1_0000_0000_0000_0000,
                    weight_2() == weight_1() * weight_1(),
                    weight_3() == weight_2() * weight_1(),
                    limbs_value(l0, l1, l2, l3) == (l0 as nat) + (l1 as nat) * weight_1() + (
                    l2 as nat) * weight_2() + (l3 as nat) * weight_3(),
            ;
        }
        Uint256 { limbs: [l0, l1, l2, l3] }
    }

    /// Every value is below 2^256.
    pub proof fn lemma_below_limit(self)
        ensures
            self@ < uint256_limit(),
    {
        lemma_limbs_value_bounds(self.limbs[0], self.limbs[1], self.limbs[2], self.limbs[3]);
    }

    /// Twice the value, where that fits in 256 bits.
    pub fn doubled(&self) -> (twice: Option<Uint256>)
        ensures
            match twice {
                Some(t) => t@ == 2 * self@,
                None => 2 * self@ >= uint256_limit(),
            },
    {
        let l0 = self.limbs[0];
        let l1 = self.limbs[1];
        let l2 = self.limbs[2];
        let l3 = self.limbs[3];
        if l3 >= 0x8000_0000_0000_0000 {
            return None;
        }
        let c0: u64 = if l0 >= 0x8000_0000_0000_0000 {
            1
        } else {
            0
        };
        let c1: u64 = if l1 >= 0x8000_0000_0000_0000 {
            1
        } else {
            0
        };
        let c2: u64 = if l2 >= 0x8000_0000_0000_0000 {
            1
        } else {
            0
        };
        let n0: u64 = (l0 - c0 * 0x8000_0000_0000_0000) * 2;
        let n1: u64 = (l1 - c1 * 0x8000_0000_0000_0000) * 2 + c0;
        let n2: u64 = (l2 - c2 * 0x8000_0000_0000_0000) * 2 + c1;
        let n3: u64 = l3 * 2 + c2;
        let twice = Uint256 { limbs: [n0, n1, n2, n3] };
        assert(twice@ == 2 * self@);
        Some(twice)
    }

    /// The value as a `u64`, where it fits.
    pub fn to_u64(&self) -> (result: Option<u64>)
        ensures
            result == if self@ <= u64::MAX {
                Some(self@ as u64)
            } else {
                None
            },
    {
        proof {
            lemma_limbs_value_bounds(self.limbs[0], self.limbs[1], self.limbs[2], self.limbs[3]);
        }
        if self.limbs[1] == 0 && self.limbs[2] == 0 && self.limbs[3] == 0 {
            Some(self.limbs[0])
        } else {
            None
        }
    }

    /// The value as a `u32`, where it fits.
    pub fn to_u32(&self) -> (result: Option<u32>)
        ensures
            result == if self@ <= u32::MAX {
                Some(self@ as u32)
            } else {
                None
            },
    {
        proof {
            lemma_limbs_value_bounds(self.limbs[0], self.limbs[1], self.limbs[2], self.limbs[3]);
        }
        if self.limbs[1] == 0 && self.limbs[2] == 0 && self.limbs[3] == 0 && self.limbs[0]
            <= 0xffff_ffff {
            Some(self.limbs[0] as u32)
        } else {
            None
        }
    }

    /// Whether this integer is at least `other`.
    pub fn is_at_least(&self, other: &Uint256) -> (result: bool)
        ensures
            result == (self@ >= other@),
    {
        if self.limbs[3] != other.limbs[3] {
            self.limbs[3] > other.limbs[3]
        } else if self.limbs[2] != other.limbs[2] {
            self.limbs[2] > other.limbs[2]
        } else if self.limbs[1] != other.limbs[1] {
            self.limbs[1] > other.limbs[1]
        } else {
            self.limbs[0] >= other.limbs[0]
        }
    }

    /// The decimal numeral of the value.
    pub fn to_decimal_string(&self) -> (text: String)
        ensures
            text@ == decimal_digits(self@),
    {
        u256_to_decimal(self)
    }
}

} // verus!
