use vstd::prelude::*;

use crate::error::ContractError;
use crate::math::{inv_rate, mul_rate, multiply_ratio, rate_inv, rate_mul, ratio};
use crate::positions::{aggregate_positions, aggregate_fits, aggregated, BidPosition, PositionTotals};

verus! {

/// What the vault holds at one moment: its direct balances, its positions in
/// the external queue, the yield token's exchange rate and the collateral's
/// price, both as fixed-point atomics.
pub struct NavSnapshot {
    /// Stable asset held directly.
    pub stable_balance: u128,
    /// Yield tokens held directly.
    pub a_ust_balance: u128,
    /// Collateral held directly.
    pub collateral_balance: u128,
    /// All positions in the external queue, in the queue's order.
    pub positions: Vec<BidPosition>,
    /// Stable asset per yield token.
    pub exchange_rate: u128,
    /// Stable asset per unit of collateral.
    pub price: u128,
}

/// The direct balances of a snapshot, less `excluded` stable asset.
pub open spec fn direct_totals(snap: NavSnapshot, excluded: int) -> PositionTotals {
    PositionTotals {
        a_ust: snap.a_ust_balance,
        stable: (snap.stable_balance - excluded) as u128,
        collateral: snap.collateral_balance,
    }
}

/// Yield tokens, stable asset and collateral over direct holdings and
/// positions, with `excluded` stable asset left out.
pub open spec fn holdings(snap: NavSnapshot, excluded: int) -> (int, int, int) {
    aggregated(direct_totals(snap, excluded), snap.positions@)
}

/// The stable-asset value of holdings: collateral at its price, yield tokens
/// at their exchange rate, and stable asset as it is.
pub open spec fn nav_value(h: (int, int, int), rate: int, price: int) -> int {
    rate_mul(h.2, price) + rate_mul(h.0, rate) + h.1
}

/// The stable-asset value of the holdings of `snap`, less `excluded`.
pub open spec fn total_cap_of(snap: NavSnapshot, excluded: int) -> int {
    nav_value(holdings(snap, excluded), snap.exchange_rate as int, snap.price as int)
}

/// What `total_cap` returns: the value, or the first failure on the way.
pub open spec fn total_cap_result(snap: NavSnapshot, excluded: int) -> Result<int, ContractError> {
    let h = holdings(snap, excluded);
    if excluded > snap.stable_balance || !aggregate_fits(direct_totals(snap, excluded), snap.positions@) {
        Err(ContractError::OverflowError {})
    } else if rate_mul(h.2, snap.price as int) > u128::MAX || rate_mul(h.0, snap.exchange_rate as int)
        > u128::MAX {
        Err(ContractError::ConversionOverflowError {})
    } else if total_cap_of(snap, excluded) > u128::MAX {
        Err(ContractError::OverflowError {})
    } else {
        Ok(total_cap_of(snap, excluded))
    }
}

/// The collateral-denominated value of holdings: stable asset and yield tokens
/// converted at the inverse of the collateral's price, plus the collateral.
pub open spec fn collateral_cap_of(snap: NavSnapshot) -> int {
    let h = holdings(snap, 0);
    h.2 + rate_mul(h.1 + rate_mul(h.0, snap.exchange_rate as int), rate_inv(snap.price as int))
}

/// What `collateral_cap` returns: the value, or the first failure on the way.
pub open spec fn collateral_cap_result(snap: NavSnapshot) -> Result<int, ContractError> {
    let h = holdings(snap, 0);
    let a = rate_mul(h.0, snap.exchange_rate as int);
    if !aggregate_fits(direct_totals(snap, 0), snap.positions@) {
        Err(ContractError::OverflowError {})
    } else if a > u128::MAX {
        Err(ContractError::ConversionOverflowError {})
    } else if h.1 + a > u128::MAX {
        Err(ContractError::OverflowError {})
    } else if snap.price == 0 {
        Err(ContractError::DivideByZeroError {})
    } else if rate_mul(h.1 + a, rate_inv(snap.price as int)) > u128::MAX {
        Err(ContractError::ConversionOverflowError {})
    } else if collateral_cap_of(snap) > u128::MAX {
        Err(ContractError::OverflowError {})
    } else {
        Ok(collateral_cap_of(snap))
    }
}

/// The holdings of a snapshot with `excluded` stable asset left out of the
/// direct balance.
pub fn holdings_of(snap: &NavSnapshot, excluded: u128) -> (r: Result<PositionTotals, ContractError>)
    ensures
        r is Ok <==> (excluded <= snap.stable_balance && aggregate_fits(
            direct_totals(*snap, excluded as int),
            snap.positions@,
        )),
        r matches Ok(t) ==> t.view() == holdings(*snap, excluded as int),
        r matches Err(e) ==> (e == ContractError::OverflowError {}),
{
    if excluded > snap.stable_balance {
        return Err(ContractError::OverflowError {});
    }
    let start = PositionTotals {
        a_ust: snap.a_ust_balance,
        stable: snap.stable_balance - excluded,
        collateral: snap.collateral_balance,
    };
    aggregate_positions(start, &snap.positions)
}

/// The vault's net asset value in stable asset, with `excluded` stable asset
/// (funds of the current deposit) left out of the direct balance. Fails with
/// an overflow where a sum leaves 128 bits, and with a conversion overflow
/// where a product at a rate does.
pub fn total_cap(snap: &NavSnapshot, excluded: u128) -> (r: Result<u128, ContractError>)
    ensures
        r matches Ok(v) ==> total_cap_result(*snap, excluded as int) == Ok::<int, ContractError>(v as int),
        r matches Err(e) ==> total_cap_result(*snap, excluded as int) == Err::<int, ContractError>(e),
{
    let h = holdings_of(snap, excluded)?;
    let c = match mul_rate(h.collateral, snap.price) {
        Some(v) => v,
        None => return Err(ContractError::ConversionOverflowError {}),
    };
    let a = match mul_rate(h.a_ust, snap.exchange_rate) {
        Some(v) => v,
        None => return Err(ContractError::ConversionOverflowError {}),
    };
    let ca = match c.checked_add(a) {
        Some(v) => v,
        None => return Err(ContractError::OverflowError {}),
    };
    match ca.checked_add(h.stable) {
        Some(v) => Ok(v),
        None => Err(ContractError::OverflowError {}),
    }
}

/// The vault's net asset value in collateral: stable asset and yield tokens
/// converted at the inverse of the collateral's price. Fails with division by
/// zero for a zero price.
pub fn collateral_cap(snap: &NavSnapshot) -> (r: Result<u128, ContractError>)
    ensures
        r matches Ok(v) ==> collateral_cap_result(*snap) == Ok::<int, ContractError>(v as int),
        r matches Err(e) ==> collateral_cap_result(*snap) == Err::<int, ContractError>(e),
{
    let h = holdings_of(snap, 0)?;
    let a = match mul_rate(h.a_ust, snap.exchange_rate) {
        Some(v) => v,
        None => return Err(ContractError::ConversionOverflowError {}),
    };
    let stable = match h.stable.checked_add(a) {
        Some(v) => v,
        None => return Err(ContractError::OverflowError {}),
    };
    let inv = match inv_rate(snap.price) {
        Some(v) => v,
        None => return Err(ContractError::DivideByZeroError {}),
    };
    let converted = match mul_rate(stable, inv) {
        Some(v) => v,
        None => return Err(ContractError::ConversionOverflowError {}),
    };
    match h.collateral.checked_add(converted) {
        Some(v) => Ok(v),
        None => Err(ContractError::OverflowError {}),
    }
}

/// Shares minted for a deposit: the deposit itself into an empty vault,
/// otherwise the deposit's proportion of the value before it.
pub open spec fn minted_shares(amount: int, supply: int, cap: int) -> int {
    if supply == 0 {
        amount
    } else {
        ratio(amount, supply, cap)
    }
}

/// Shares to mint for a deposit of `amount` into a vault of `supply` shares
/// worth `cap` before the deposit. A vault with shares and no value fails
/// with division by zero; a result beyond 128 bits fails with an overflow.
pub fn shares_to_mint(amount: u128, supply: u128, cap: u128) -> (r: Result<u128, ContractError>)
    ensures
        supply == 0 ==> r == Ok::<u128, ContractError>(amount),
        supply > 0 && cap == 0 ==> r == Err::<u128, ContractError>(ContractError::DivideByZeroError {}),
        supply > 0 && cap > 0 && minted_shares(amount as int, supply as int, cap as int) > u128::MAX
            ==> r == Err::<u128, ContractError>(ContractError::OverflowError {}),
        r is Ok <==> (supply == 0 || (cap > 0 && minted_shares(amount as int, supply as int, cap as int)
            <= u128::MAX)),
        r matches Ok(v) ==> v == minted_shares(amount as int, supply as int, cap as int),
{
    if supply == 0 {
        return Ok(amount);
    }
    if cap == 0 {
        return Err(ContractError::DivideByZeroError {});
    }
    match multiply_ratio(amount, supply, cap) {
        Some(v) => Ok(v),
        None => Err(ContractError::OverflowError {}),
    }
}

/// What `share` of `supply` shares is worth out of `cap`, floored.
pub open spec fn payout_of(share: int, cap: int, supply: int) -> int {
    ratio(cap, share, supply)
}

/// The amount that `share` shares redeem out of a value of `cap`.
pub fn redeem_amount(share: u128, cap: u128, supply: u128) -> (r: u128)
    requires
        0 < share <= supply,
    ensures
        r == payout_of(share as int, cap as int, supply as int),
        r <= cap,
{
    proof {
        lemma_payout_bounded(share as int, cap as int, supply as int);
    }
    match multiply_ratio(cap, share, supply) {
        Some(v) => v,
        None => 0,
    }
}

/// A share of the supply never redeems more than the whole value.
pub proof fn lemma_payout_bounded(share: int, cap: int, supply: int)
    requires
        0 <= share <= supply,
        0 < supply,
        0 <= cap,
    ensures
        0 <= payout_of(share, cap, supply) <= cap,
{
    assert(0 <= cap * share <= cap * supply) by (nonlinear_arith)
        requires
            0 <= share <= supply,
            0 <= cap,
    ;
    vstd::arithmetic::div_mod::lemma_div_is_ordered(cap * share, cap * supply, supply);
    assert(cap * supply == supply * cap) by (nonlinear_arith);
    vstd::arithmetic::div_mod::lemma_div_multiples_vanish(cap, supply);
    vstd::arithmetic::div_mod::lemma_div_pos_is_pos(cap * share, supply);
}

} // verus!
