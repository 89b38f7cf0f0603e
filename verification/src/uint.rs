//! Unsigned 256-bit integers: raw token amounts, balances and fees.

use vstd::prelude::*;

verus! {

/// Two to the power 64: the weight of the second limb.
pub open spec fn limb_base() -> int {
    0x1_0000_0000_0000_0000
}

/// Two to the power 128: the weight of the third limb.
pub open spec fn limb_base2() -> int {
    0x1_0000_0000_0000_0000_0000_0000_0000_0000int
}

/// Two to the power 192: the weight of the fourth limb.
pub open spec fn limb_base3() -> int {
    0x1_0000_0000_0000_0000_0000_0000_0000_0000_0000_0000_0000_0000int
}

/// Two to the power 256: one more than the largest value.
pub open spec fn u256_modulus() -> int {
    0x1_0000_0000_0000_0000_0000_0000_0000_0000_0000_0000_0000_0000_0000_0000_0000_0000int
}

/// The character of one decimal digit.
pub open spec fn digit_char(d: nat) -> char
    recommends
        d < 10,
{
    ((48 + d) as u8) as char
}

/// The decimal numeral of `n`, without leading zeros; `"0"` for zero.
pub open spec fn decimal_digits(n: nat) -> Seq<char>
    decreases n,
{
    if n < 10 {
        seq![digit_char(n)]
    } else {
        decimal_digits(n / 10).push(digit_char(n % 10))
    }
}

/// A 256-bit unsigned integer, held as four 64-bit limbs, least significant first.
#[derive(Debug, Clone, Copy, PartialEq, Eq)]
pub struct U256 {
    pub limbs: [u64; 4],
}

impl View for U256 {
    type V = int;

    /// The number that the limbs stand for.
    open spec fn view(&self) -> int {
        self.limbs[0] as int + self.limbs[1] as int * limb_base() + self.limbs[2] as int
            * limb_base2() + self.limbs[3] as int * limb_base3()
    }
}

/// Multiplies with the outside crate's `*` on its 256-bit integer, which keeps the
/// low 256 bits of the product.
#[verifier::external_body]
pub(crate) fn wrapping_product(a: &U256, b: &U256) -> (r: U256)
    ensures
        r@ == (a@ * b@) % u256_modulus(),
{
    let x = alloy::primitives::U256::from_limbs(a.limbs);
    let y = alloy::primitives::U256::from_limbs(b.limbs);
    U256 { limbs: (x * y).into_limbs() }
}

/// Adds with the outside crate's `+` on its 256-bit integer, which keeps the low
/// 256 bits of the sum.
#[verifier::external_body]
pub(crate) fn wrapping_sum(a: &U256, b: &U256) -> (r: U256)
    ensures
        r@ == (a@ + b@) % u256_modulus(),
{
    let x = alloy::primitives::U256::from_limbs(a.limbs);
    let y = alloy::primitives::U256::from_limbs(b.limbs);
    U256 { limbs: (x + y).into_limbs() }
}

/// Divides with the outside crate's `/` on its 256-bit integer: the quotient
/// rounded down. The crate panics on a zero divisor, which `requires` leaves out.
#[verifier::external_body]
pub(crate) fn quotient(a: &U256, b: &U256) -> (r: U256)
    requires
        b@ != 0,
    ensures
        r@ == a@ / b@,
{
    let x = alloy::primitives::U256::from_limbs(a.limbs);
    let y = alloy::primitives::U256::from_limbs(b.limbs);
    U256 { limbs: (x / y).into_limbs() }
}

/// Formats with the outside crate's `Display` for its 256-bit integer: the
/// decimal numeral without sign, padding or leading zeros.
#[verifier::external_body]
pub(crate) fn decimal_text(v: &U256) -> (s: String)
    ensures
        s@ == decimal_digits(v@ as nat),
{
    alloy::primitives::U256::from_limbs(v.limbs).to_string()
}

impl U256 {
    /// Zero.
    pub fn zero() -> (r: U256)
        ensures
            r@ == 0,
    {
        U256 { limbs: [0, 0, 0, 0] }
    }

    /// The value of a 64-bit integer.
    pub fn from_u64(v: u64) -> (r: U256)
        ensures
            r@ == v,
    {
        U256 { limbs: [v, 0, 0, 0] }
    }

    /// The value of a 128-bit integer.
    pub fn from_u128(v: u128) -> (r: U256)
        ensures
            r@ == v,
    {
        let lo: u64 = (v & 0xFFFF_FFFF_FFFF_FFFF) as u64;
        let hi: u64 = (v >> 64) as u64;
        assert(v == lo as u128 + (hi as u128) * 0x1_0000_0000_0000_0000u128) by (bit_vector)
            requires
                lo == (v & 0xFFFF_FFFF_FFFF_FFFF) as u64,
                hi == (v >> 64) as u64,
        ;
        U256 { limbs: [lo, hi, 0, 0] }
    }

    /// The value lies between zero and two to the power 256.
    pub proof fn lemma_range(&self)
        ensures
            0 <= self@ < u256_modulus(),
    {
    }

    /// Whether the value is zero.
    pub fn is_zero(&self) -> (r: bool)
        ensures
            r == (self@ == 0),
    {
        self.limbs[0] == 0 && self.limbs[1] == 0 && self.limbs[2] == 0 && self.limbs[3] == 0
    }

    /// Whether the two values are the same number.
    pub fn same(&self, other: &U256) -> (r: bool)
        ensures
            r == (self@ == other@),
    {
        self.at_least(other) && other.at_least(self)
    }

    /// Whether `self` is at least `other`.
    pub fn at_least(&self, other: &U256) -> (r: bool)
        ensures
            r == (self@ >= other@),
    {
        if self.limbs[3] != other.limbs[3] {
            self.limbs[3] > other.limbs[3]
        } else if self.limbs[2] != other.limbs[2] {
            self.limbs[2] > other.limbs[2]
        } else if self.limbs[1] != other.limbs[1] {
            self.limbs[1] > other.limbs[1]
        } else {
            self.limbs[0] >= other.limbs[0]
        }
    }

    /// Whether `self` is less than `other`.
    pub fn less_than(&self, other: &U256) -> (r: bool)
        ensures
            r == (self@ < other@),
    {
        !self.at_least(other)
    }

    /// The product, where it fits in 256 bits.
    pub fn checked_times(&self, other: &U256) -> (r: Option<U256>)
        ensures
            r matches Some(p) ==> p@ == self@ * other@,
            r is Some <==> self@ * other@ < u256_modulus(),
    {
        let p = wrapping_product(self, other);
        if other.is_zero() {
            assert(self@ * other@ == 0) by (nonlinear_arith)
                requires
                    other@ == 0,
            ;
            return Some(p);
        }
        let back = quotient(&p, other);
        if back.same(self) {
            proof {
                lemma_product_recovered(self@, other@, u256_modulus());
            }
            Some(p)
        } else {
            proof {
                lemma_exact_division(self@, other@);
            }
            None
        }
    }

    /// The sum, where it fits in 256 bits.
    pub fn checked_plus(&self, other: &U256) -> (r: Option<U256>)
        ensures
            r matches Some(p) ==> p@ == self@ + other@,
            r is Some <==> self@ + other@ < u256_modulus(),
    {
        let s = wrapping_sum(self, other);
        if s.at_least(self) {
            Some(s)
        } else {
            None
        }
    }

    /// The quotient rounded down, unless the divisor is zero.
    pub fn checked_over(&self, other: &U256) -> (r: Option<U256>)
        ensures
            r matches Some(q) ==> q@ == self@ / other@,
            r is Some <==> other@ != 0,
    {
        if other.is_zero() {
            None
        } else {
            Some(quotient(self, other))
        }
    }

    /// The decimal numeral of the value.
    pub fn to_decimal_string(&self) -> (s: String)
        ensures
            s@ == decimal_digits(self@ as nat),
    {
        decimal_text(self)
    }
}

/// If the low bits of a product, divided by one factor, give back the other, the
/// product did not wrap.
pub proof fn lemma_product_recovered(a: int, b: int, m: int)
    requires
        0 <= a < m,
        0 < b < m,
        ((a * b) % m) / b == a,
    ensures
        (a * b) % m == a * b,
{
    let p = (a * b) % m;
    assert(0 <= a * b) by (nonlinear_arith)
        requires
            0 <= a,
            0 < b,
    ;
    assert(0 <= p <= a * b) by (nonlinear_arith)
        requires
            p == (a * b) % m,
            0 <= a * b,
            0 < m,
    ;
    // p / b == a gives a * b <= p
    assert(a * b <= p) by (nonlinear_arith)
        requires
            p / b == a,
            0 < b,
            0 <= p,
    ;
}

/// A product divided by one of its factors gives the other.
pub proof fn lemma_exact_division(a: int, b: int)
    requires
        0 <= a,
        0 < b,
    ensures
        (a * b) / b == a,
{
    assert((a * b) / b == a) by (nonlinear_arith)
        requires
            0 <= a,
            0 < b,
    ;
}

} // verus!
