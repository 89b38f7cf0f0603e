//! Decimal amounts: what the ledger holds and what a raw token amount becomes.

use crate::error::{internal_error, AppError, AppErrorView};
use crate::uint::{decimal_digits, u256_modulus, U256};
use rust_decimal::prelude::FromPrimitive;
use vstd::prelude::*;

verus! {

/// The largest number of digits after the decimal point.
pub const MAX_SCALE: u32 = 28;

/// The largest mantissa: 96 bits, all set.
pub const MAX_MANTISSA: u128 = 0xFFFF_FFFF_FFFF_FFFF_FFFF_FFFF;

/// Ten to the power `e`.
pub open spec fn pow10(e: nat) -> nat
    decreases e,
{
    if e == 0 {
        1
    } else {
        10 * pow10((e - 1) as nat)
    }
}

/// A non-negative decimal number: `mantissa / 10^scale`.
#[derive(Debug, Clone, Copy, PartialEq, Eq, Structural)]
pub struct Amount {
    pub mantissa: u128,
    pub scale: u32,
}

impl View for Amount {
    type V = (nat, nat);

    /// The mantissa and the scale.
    open spec fn view(&self) -> (nat, nat) {
        (self.mantissa as nat, self.scale as nat)
    }
}

/// Whether a mantissa and a scale are within the limits of an [`Amount`].
pub open spec fn representable(mantissa: nat, scale: nat) -> bool {
    mantissa <= MAX_MANTISSA && scale <= MAX_SCALE
}

/// The value of `mantissa / 10^scale` in units of `10^-28`.
pub open spec fn scaled_value(mantissa: nat, scale: nat) -> nat
    recommends
        scale <= MAX_SCALE,
{
    mantissa * pow10((MAX_SCALE - scale) as nat)
}

/// What parsing a text as a decimal number gives: the mantissa and scale of the
/// number, or `None` where the text is refused or the number is negative.
pub uninterp spec fn decimal_parse(text: Seq<char>) -> Option<(nat, nat)>;

/// What dividing the first decimal by the second gives in decimal arithmetic,
/// or `None` where the division is refused or the result is negative.
pub uninterp spec fn decimal_quotient(
    mantissa: nat,
    scale: nat,
    by_mantissa: nat,
    by_scale: nat,
) -> Option<(nat, nat)>;

/// What adding the two decimals gives in decimal arithmetic, or `None` where
/// the addition overflows or the result is negative.
pub uninterp spec fn decimal_sum(
    mantissa: nat,
    scale: nat,
    more_mantissa: nat,
    more_scale: nat,
) -> Option<(nat, nat)>;

/// Parses with `rust_decimal::Decimal::from_str` and hands back the mantissa and
/// scale of the result; a text that is refused and a negative number give
/// `None`. Every decimal of that crate has a mantissa of at most 96 bits and a
/// scale of at most 28. The result depends on the text alone.
#[verifier::external_body]
fn parse_decimal(text: &str) -> (r: Option<Amount>)
    ensures
        r matches Some(a) ==> a.wf(),
        r matches Some(a) ==> decimal_parse(text@) == Some(a@),
        r is None ==> decimal_parse(text@) is None,
{
    let d = text.parse::<rust_decimal::Decimal>().ok()?;
    let mantissa: u128 = u128::try_from(d.mantissa()).ok()?;
    Some(Amount { mantissa, scale: d.scale() })
}

/// Converts with `rust_decimal::Decimal::from_i128`, which accepts an integer
/// whose magnitude fits in 96 bits and gives it the scale zero; a negative
/// integer gives `None` here.
#[verifier::external_body]
fn decimal_from_i128(n: i128) -> (r: Option<Amount>)
    ensures
        0 <= n <= MAX_MANTISSA ==> r == Some(Amount { mantissa: n as u128, scale: 0 }),
        n > MAX_MANTISSA ==> r is None,
        n < 0 ==> r is None,
{
    let d = rust_decimal::Decimal::from_i128(n)?;
    let mantissa: u128 = u128::try_from(d.mantissa()).ok()?;
    Some(Amount { mantissa, scale: d.scale() })
}

/// Divides with `rust_decimal::Decimal::checked_div`, which gives `None` on a
/// zero divisor and on overflow. The result depends on the two decimals alone
/// and is within the limits of every decimal of that crate.
#[verifier::external_body]
fn divide_decimal(a: &Amount, b: &Amount) -> (r: Option<Amount>)
    requires
        a.wf(),
        b.wf(),
    ensures
        r matches Some(q) ==> q.wf(),
        r matches Some(q) ==> decimal_quotient(a@.0, a@.1, b@.0, b@.1) == Some(q@),
        r is None ==> decimal_quotient(a@.0, a@.1, b@.0, b@.1) is None,
{
    let am: i128 = i128::try_from(a.mantissa).ok()?;
    let bm: i128 = i128::try_from(b.mantissa).ok()?;
    let x = rust_decimal::Decimal::try_from_i128_with_scale(am, a.scale).ok()?;
    let y = rust_decimal::Decimal::try_from_i128_with_scale(bm, b.scale).ok()?;
    let q = x.checked_div(y)?;
    let mantissa: u128 = u128::try_from(q.mantissa()).ok()?;
    Some(Amount { mantissa, scale: q.scale() })
}

/// Adds with `rust_decimal::Decimal::checked_add`, which gives `None` on
/// overflow. The result depends on the two decimals alone and is within the
/// limits of every decimal of that crate.
#[verifier::external_body]
fn add_decimal(a: &Amount, b: &Amount) -> (r: Option<Amount>)
    requires
        a.wf(),
        b.wf(),
    ensures
        r matches Some(s) ==> s.wf(),
        r matches Some(s) ==> decimal_sum(a@.0, a@.1, b@.0, b@.1) == Some(s@),
        r is None ==> decimal_sum(a@.0, a@.1, b@.0, b@.1) is None,
{
    let am: i128 = i128::try_from(a.mantissa).ok()?;
    let bm: i128 = i128::try_from(b.mantissa).ok()?;
    let x = rust_decimal::Decimal::try_from_i128_with_scale(am, a.scale).ok()?;
    let y = rust_decimal::Decimal::try_from_i128_with_scale(bm, b.scale).ok()?;
    let s = x.checked_add(y)?;
    let mantissa: u128 = u128::try_from(s.mantissa()).ok()?;
    Some(Amount { mantissa, scale: s.scale() })
}

/// Ten to the power 28, written out.
pub open spec fn pow10_max() -> nat {
    10_000_000_000_000_000_000_000_000_000
}

/// Powers of ten grow with the exponent, and `10^28` is the number written out.
pub proof fn lemma_pow10_bounds(e: nat)
    requires
        e <= MAX_SCALE,
    ensures
        1 <= pow10(e) <= pow10_max(),
        pow10(28) == pow10_max(),
    decreases MAX_SCALE - e,
{
    if e == MAX_SCALE {
        reveal_with_fuel(pow10, 30);
    } else {
        lemma_pow10_bounds(e + 1);
        assert(pow10(e + 1) == 10 * pow10(e));
        lemma_pow10_positive(e);
    }
}

/// A power of ten is at least one.
pub proof fn lemma_pow10_positive(e: nat)
    ensures
        pow10(e) >= 1,
    decreases e,
{
    if e > 0 {
        lemma_pow10_positive((e - 1) as nat);
    }
}

/// Ten to the power 38, written out: the largest power of ten below two to
/// the power 128.
pub open spec fn pow10_limit() -> nat {
    100_000_000_000_000_000_000_000_000_000_000_000_000
}

/// A power of ten with an exponent up to 38 fits in 128 bits.
pub proof fn lemma_pow10_limit(e: nat)
    requires
        e <= 38,
    ensures
        1 <= pow10(e) <= pow10_limit(),
    decreases 38 - e,
{
    if e == 38 {
        reveal_with_fuel(pow10, 40);
    } else {
        lemma_pow10_limit(e + 1);
        assert(pow10(e + 1) == 10 * pow10(e));
        lemma_pow10_positive(e);
    }
}

/// Ten to the power `e`, for an exponent whose power fits in 128 bits.
pub fn power_of_ten(e: u32) -> (r: u128)
    requires
        e <= 38,
    ensures
        r == pow10(e as nat),
        1 <= r <= pow10_limit(),
        e <= MAX_SCALE ==> r <= pow10_max(),
{
    let mut r: u128 = 1;
    let mut i: u32 = 0;
    proof {
        lemma_pow10_limit(0);
    }
    while i < e
        invariant
            i <= e <= 38,
            r == pow10(i as nat),
            1 <= r <= pow10_limit(),
        decreases e - i,
    {
        proof {
            lemma_pow10_limit((i + 1) as nat);
        }
        r = r * 10;
        i = i + 1;
    }
    proof {
        if e <= MAX_SCALE {
            lemma_pow10_bounds(e as nat);
        }
    }
    r
}

impl Amount {
    /// Whether the mantissa and the scale are within their limits.
    pub open spec fn wf(&self) -> bool {
        representable(self.mantissa as nat, self.scale as nat)
    }

    /// The value in units of `10^-28`: two amounts are the same number exactly
    /// when their scaled values are equal.
    pub open spec fn scaled(&self) -> nat {
        scaled_value(self.mantissa as nat, self.scale as nat)
    }

    /// The amount `mantissa / 10^scale`, where both are within their limits.
    pub fn new(mantissa: u128, scale: u32) -> (r: Option<Amount>)
        ensures
            representable(mantissa as nat, scale as nat) ==> r == Some(Amount { mantissa, scale }),
            !representable(mantissa as nat, scale as nat) ==> r is None,
    {
        if mantissa <= MAX_MANTISSA && scale <= MAX_SCALE {
            Some(Amount { mantissa, scale })
        } else {
            None
        }
    }

    /// Zero.
    pub fn zero() -> (r: Amount)
        ensures
            r == (Amount { mantissa: 0, scale: 0 }),
            r.wf(),
            r.scaled() == 0,
    {
        Amount { mantissa: 0, scale: 0 }
    }

    /// Whether the limits hold of this amount.
    pub fn is_valid(&self) -> (r: bool)
        ensures
            r == self.wf(),
    {
        self.mantissa <= MAX_MANTISSA && self.scale <= MAX_SCALE
    }

    /// The scaled value as a 256-bit integer.
    pub fn scaled_u256(&self) -> (r: U256)
        requires
            self.wf(),
        ensures
            r@ == self.scaled(),
    {
        let p = power_of_ten(MAX_SCALE - self.scale);
        let m = U256::from_u128(self.mantissa);
        let f = U256::from_u128(p);
        proof {
            lemma_scaled_fits(self.mantissa as nat, p as nat);
        }
        let r = crate::uint::wrapping_product(&m, &f);
        assert(r@ == self.mantissa as int * p as int) by {
            vstd::arithmetic::div_mod::lemma_small_mod(
                (self.mantissa as int * p as int) as nat,
                u256_modulus() as nat,
            );
        }
        r
    }

    /// Whether the two amounts are the same number, whatever their scales.
    pub fn same_value(&self, other: &Amount) -> (r: bool)
        requires
            self.wf(),
            other.wf(),
        ensures
            r == (self.scaled() == other.scaled()),
    {
        let a = self.scaled_u256();
        let b = other.scaled_u256();
        a.same(&b)
    }

    /// Whether this amount is the smaller number.
    pub fn less_than(&self, other: &Amount) -> (r: bool)
        requires
            self.wf(),
            other.wf(),
        ensures
            r == (self.scaled() < other.scaled()),
    {
        let a = self.scaled_u256();
        let b = other.scaled_u256();
        a.less_than(&b)
    }

    /// Keeps a sum that decimal arithmetic computed only where it is the exact
    /// sum of the two amounts.
    pub fn settle_sum(&self, other: &Amount, computed: Option<Amount>) -> (r: Option<Amount>)
        requires
            self.wf(),
            other.wf(),
            computed matches Some(s) ==> s.wf(),
        ensures
            r == exact_sum(self.scaled(), other.scaled(), computed),
    {
        match computed {
            None => None,
            Some(s) => {
                let a = self.scaled_u256();
                let b = other.scaled_u256();
                let c = s.scaled_u256();
                proof {
                    lemma_scaled_bound(self.mantissa as nat, self.scale as nat);
                    lemma_scaled_bound(other.mantissa as nat, other.scale as nat);
                }
                match a.checked_plus(&b) {
                    Some(total) => if total.same(&c) {
                        Some(s)
                    } else {
                        None
                    },
                    None => None,
                }
            },
        }
    }

    /// What [`Amount::checked_sum`] gives: the sum that decimal arithmetic
    /// computes, kept only where it is exact.
    pub open spec fn checked_sum_spec(&self, other: Amount) -> Option<Amount> {
        exact_sum(
            self.scaled(),
            other.scaled(),
            amount_of(decimal_sum(self@.0, self@.1, other@.0, other@.1)),
        )
    }

    /// The sum of the two amounts, where decimal arithmetic gives it exactly.
    pub fn checked_sum(&self, other: &Amount) -> (r: Option<Amount>)
        requires
            self.wf(),
            other.wf(),
        ensures
            r == self.checked_sum_spec(*other),
            r matches Some(s) ==> s.wf() && s.scaled() == self.scaled() + other.scaled(),
    {
        let computed = add_decimal(self, other);
        self.settle_sum(other, computed)
    }
}

/// The amount with the given mantissa and scale, where they fit the machine types.
pub open spec fn amount_of(parts: Option<(nat, nat)>) -> Option<Amount> {
    match parts {
        Some(p) => if representable(p.0, p.1) {
            Some(Amount { mantissa: p.0 as u128, scale: p.1 as u32 })
        } else {
            None
        },
        None => None,
    }
}

/// A computed sum, kept only where it is the exact sum of the two scaled values.
pub open spec fn exact_sum(a: nat, b: nat, computed: Option<Amount>) -> Option<Amount> {
    match computed {
        Some(s) => if s.scaled() == a + b {
            Some(s)
        } else {
            None
        },
        None => None,
    }
}

/// A mantissa of at most 96 bits times a power of ten up to `10^28` is below
/// two to the power 256.
pub proof fn lemma_scaled_fits(mantissa: nat, factor: nat)
    requires
        mantissa <= MAX_MANTISSA,
        factor <= pow10_max(),
    ensures
        mantissa * factor < 0x1_0000_0000_0000_0000_0000_0000_0000_0000_0000_0000_0000_0000int,
{
    assert(mantissa * factor <= 0xFFFF_FFFF_FFFF_FFFF_FFFF_FFFFint
        * 10_000_000_000_000_000_000_000_000_000int) by (nonlinear_arith)
        requires
            mantissa <= 0xFFFF_FFFF_FFFF_FFFF_FFFF_FFFFint,
            factor <= 10_000_000_000_000_000_000_000_000_000int,
    ;
}

/// A scaled value is below two to the power 192.
pub proof fn lemma_scaled_bound(mantissa: nat, scale: nat)
    requires
        representable(mantissa, scale),
    ensures
        scaled_value(mantissa, scale)
            < 0x1_0000_0000_0000_0000_0000_0000_0000_0000_0000_0000_0000_0000int,
{
    lemma_pow10_bounds((MAX_SCALE - scale) as nat);
    lemma_scaled_fits(mantissa, pow10((MAX_SCALE - scale) as nat));
}

/// Whether `q` is exactly `amount / 10^decimals`.
pub open spec fn is_exact_quotient(q: Amount, amount: int, decimals: nat) -> bool {
    q.mantissa * pow10(decimals) == amount * pow10(q.scale as nat)
}

/// What becomes of a quotient that decimal arithmetic computed for
/// `amount / 10^decimals`: it is kept where it is within the limits and exact.
pub open spec fn settled_quotient(amount: int, decimals: nat, computed: Option<Amount>) -> Result<
    Amount,
    AppErrorView,
> {
    if decimals > MAX_SCALE {
        Err(internal_error("Decimal overflow"@))
    } else {
        match computed {
            None => Err(internal_error("Decimal overflow"@)),
            Some(q) => if q.wf() && is_exact_quotient(q, amount, decimals) {
                Ok(q)
            } else {
                Err(internal_error("Decimal division is not exact"@))
            },
        }
    }
}

/// A result with its error taken by its view.
pub open spec fn amount_result_view(r: Result<Amount, AppError>) -> Result<Amount, AppErrorView> {
    match r {
        Ok(a) => Ok(a),
        Err(e) => Err(e@),
    }
}

/// What converting a raw token amount with `decimals` digits of precision gives.
pub open spec fn u256_to_decimal_spec(amount: int, decimals: u8) -> Result<Amount, AppErrorView> {
    divided_parsed(amount, decimals, amount_of(decimal_parse(decimal_digits(amount as nat))))
}

/// Decides what a computed quotient is worth: `Ok` with the quotient where it is
/// exactly `amount / 10^decimals`, an internal error otherwise.
pub fn settle_quotient(amount: &U256, decimals: u8, computed: Option<Amount>) -> (r: Result<
    Amount,
    AppError,
>)
    ensures
        amount_result_view(r) == settled_quotient(amount@, decimals as nat, computed),
{
    if decimals as u32 > MAX_SCALE {
        return Err(AppError::internal("Decimal overflow"));
    }
    match computed {
        None => Err(AppError::internal("Decimal overflow")),
        Some(q) => {
            if !q.is_valid() {
                return Err(AppError::internal("Decimal division is not exact"));
            }
            let up = power_of_ten(decimals as u32);
            let down = power_of_ten(q.scale);
            let m = U256::from_u128(q.mantissa);
            let u = U256::from_u128(up);
            let d = U256::from_u128(down);
            proof {
                lemma_scaled_fits(q.mantissa as nat, up as nat);
                amount.lemma_range();
            }
            let lhs = crate::uint::wrapping_product(&m, &u);
            assert(lhs@ == q.mantissa as int * up as int) by {
                vstd::arithmetic::div_mod::lemma_small_mod(
                    (q.mantissa as int * up as int) as nat,
                    u256_modulus() as nat,
                );
            }
            let exact = match amount.checked_times(&d) {
                Some(rhs) => lhs.same(&rhs),
                None => false,
            };
            if exact {
                Ok(q)
            } else {
                Err(AppError::internal("Decimal division is not exact"))
            }
        },
    }
}

/// What dividing the parsed raw amount by `10^decimals` gives.
pub open spec fn divided_parsed(amount: int, decimals: u8, parsed: Option<Amount>) -> Result<
    Amount,
    AppErrorView,
> {
    if decimals > MAX_SCALE {
        Err(internal_error("Decimal overflow"@))
    } else {
        match parsed {
            None => Err(internal_error("Decimal parse error"@)),
            Some(v) => if v.wf() {
                settled_quotient(
                    amount,
                    decimals as nat,
                    amount_of(decimal_quotient(v@.0, v@.1, pow10(decimals as nat), 0)),
                )
            } else {
                Err(internal_error("Decimal parse error"@))
            },
        }
    }
}

/// Divides the raw amount, as it was parsed into a decimal, by `10^decimals`.
/// A raw amount that could not be parsed is an internal error, and so is a
/// precision above 28 digits and a division that overflows or is not exact.
pub fn divide_parsed(amount: &U256, decimals: u8, parsed: Option<Amount>) -> (r: Result<
    Amount,
    AppError,
>)
    ensures
        amount_result_view(r) == divided_parsed(amount@, decimals, parsed),
        r matches Ok(q) ==> q.wf() && is_exact_quotient(q, amount@, decimals as nat),
{
    if decimals as u32 > MAX_SCALE {
        return Err(AppError::internal("Decimal overflow"));
    }
    let value = match parsed {
        Some(v) => v,
        None => {
            return Err(AppError::internal("Decimal parse error"));
        },
    };
    if !value.is_valid() {
        return Err(AppError::internal("Decimal parse error"));
    }
    let p = power_of_ten(decimals as u32);
    let base = match decimal_from_i128(p as i128) {
        Some(b) => b,
        None => {
            return Err(AppError::internal("Decimal overflow"));
        },
    };
    let computed = divide_decimal(&value, &base);
    settle_quotient(amount, decimals, computed)
}

/// Converts a raw token amount to a decimal amount: the integer divided by
/// `10^decimals` in decimal arithmetic. The result is `Ok` only where that
/// division is exact; a precision above 28 digits, a raw amount that is no
/// decimal of 96 bits, and an overflowing or inexact division give an internal
/// error.
pub fn u256_to_decimal(amount: &U256, decimals: u8) -> (r: Result<Amount, AppError>)
    ensures
        amount_result_view(r) == u256_to_decimal_spec(amount@, decimals),
        r matches Ok(q) ==> q.wf() && is_exact_quotient(q, amount@, decimals as nat),
{
    let text = amount.to_decimal_string();
    let parsed = parse_decimal(text.as_str());
    divide_parsed(amount, decimals, parsed)
}

} // verus!
