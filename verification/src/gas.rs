//! The fee rule: a transfer is sent only where the wallet's native balance
//! covers the estimated fee and a safety buffer of one fifth.

use crate::uint::{quotient, u256_modulus, wrapping_product, wrapping_sum, U256};
use vstd::prelude::*;

verus! {

/// The least native balance with which a transfer is sent: the estimated gas
/// times the gas price, and one fifth of that on top, rounded down.
pub open spec fn minimum_gas_of(estimated_gas: int, gas_price: int) -> int {
    estimated_gas * gas_price + (estimated_gas * gas_price) / 5
}

/// The product of a 64-bit and a 128-bit number is below two to the power 192.
pub proof fn lemma_fee_fits(estimated_gas: int, gas_price: int)
    requires
        0 <= estimated_gas <= u64::MAX,
        0 <= gas_price <= u128::MAX,
    ensures
        0 <= estimated_gas * gas_price
            < 0x1_0000_0000_0000_0000_0000_0000_0000_0000_0000_0000_0000_0000int,
{
    assert(0 <= estimated_gas * gas_price <= 0xFFFF_FFFF_FFFF_FFFFint
        * 0xFFFF_FFFF_FFFF_FFFF_FFFF_FFFF_FFFF_FFFFint) by (nonlinear_arith)
        requires
            0 <= estimated_gas <= 0xFFFF_FFFF_FFFF_FFFFint,
            0 <= gas_price <= 0xFFFF_FFFF_FFFF_FFFF_FFFF_FFFF_FFFF_FFFFint,
    ;
}

/// The least native balance with which a transfer of the estimated cost is
/// sent at the given gas price.
pub fn minimum_gas(estimated_gas: u64, gas_price: u128) -> (r: U256)
    ensures
        r@ == minimum_gas_of(estimated_gas as int, gas_price as int),
{
    let gas = U256::from_u64(estimated_gas);
    let price = U256::from_u128(gas_price);
    let five = U256::from_u64(5);
    proof {
        lemma_fee_fits(estimated_gas as int, gas_price as int);
    }
    let cost = wrapping_product(&gas, &price);
    assert(cost@ == estimated_gas as int * gas_price as int) by {
        vstd::arithmetic::div_mod::lemma_small_mod(
            (estimated_gas as int * gas_price as int) as nat,
            u256_modulus() as nat,
        );
    }
    let buffer = quotient(&cost, &five);
    let total = wrapping_sum(&cost, &buffer);
    assert(total@ == cost@ + buffer@) by {
        vstd::arithmetic::div_mod::lemma_small_mod(
            (cost@ + buffer@) as nat,
            u256_modulus() as nat,
        );
    }
    total
}

/// Whether a wallet with the given native balance can pay for a transfer of
/// the estimated cost at the given gas price, buffer included.
pub fn covers_fee(gas_balance: &U256, estimated_gas: u64, gas_price: u128) -> (r: bool)
    ensures
        r == (gas_balance@ >= minimum_gas_of(estimated_gas as int, gas_price as int)),
{
    let needed = minimum_gas(estimated_gas, gas_price);
    gas_balance.at_least(&needed)
}

} // verus!
