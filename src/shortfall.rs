use vstd::prelude::*;

use crate::error::ContractError;
use crate::math::{inv_rate, lemma_rate_mul_monotone, mul_rate, multiply_ratio, rate_inv, rate_mul, ratio, DECIMAL_FRACTIONAL};
use crate::positions::{lemma_prefix_sums_grow, lemma_take_step, stable_of, sum_a_ust, sum_stable, BidPosition};
use crate::valuation::lemma_payout_bounded;

verus! {

/// The part of `gap` left once `covered` is set against it.
pub open spec fn uncovered(gap: int, covered: int) -> int {
    if gap > covered {
        gap - covered
    } else {
        0
    }
}

/// The value that retracting a position recovers: its yield tokens at the
/// exchange rate, and the stable amount of its proxied bid.
pub open spec fn retract_value(b: BidPosition, rate: int) -> int {
    rate_mul(b.amount as int, rate) + stable_of(b)
}

/// Retracting positions from the `i`-th on, oldest first, until `remaining`
/// stable asset is covered. The result is the number of positions
/// retracted, the yield tokens they release for redemption, the stable amount
/// they release, and what stays uncovered. Of the last position retracted
/// only the yield tokens that cover the rest are redeemed.
pub open spec fn plan_from(bids: Seq<BidPosition>, i: int, remaining: int, rate: int) -> (int, int, int, int)
    decreases bids.len() - i,
{
    if i < 0 || i >= bids.len() || remaining <= 0 {
        (0, 0, 0, remaining)
    } else {
        let b = bids[i];
        let w = rate_mul(b.amount as int, rate);
        if w >= remaining {
            (1, rate_mul(remaining, rate_inv(rate)), 0, 0)
        } else if stable_of(b) >= remaining - w {
            (1, b.amount as int, stable_of(b), 0)
        } else {
            let rest = plan_from(bids, i + 1, remaining - w - stable_of(b), rate);
            (rest.0 + 1, rest.1 + b.amount, rest.2 + stable_of(b), rest.3)
        }
    }
}

/// The retraction plan for a payout that the direct stable balance does not
/// cover: the yield tokens held directly are redeemed first, and positions
/// are retracted for what that leaves.
pub open spec fn shortfall_plan(
    payout: int,
    stable: int,
    a_ust: int,
    bids: Seq<BidPosition>,
    rate: int,
) -> (int, int, int, int) {
    plan_from(bids, 0, uncovered(payout - stable, rate_mul(a_ust, rate)), rate)
}

/// The indices of the first `n` positions.
pub open spec fn retracted_indices(bids: Seq<BidPosition>, n: int) -> Seq<u64> {
    bids.take(n).map_values(|b: BidPosition| b.idx)
}

/// The combined retraction value of `k` positions from the `i`-th on.
pub open spec fn cover_from(bids: Seq<BidPosition>, i: int, k: int, rate: int) -> int
    decreases k,
{
    if k <= 0 {
        0
    } else {
        retract_value(bids[i], rate) + cover_from(bids, i + 1, k - 1, rate)
    }
}

/// Stable asset recovered for a shortfall, and how it is made up.
pub struct Shortfall {
    /// Indices of the positions to retract, in order.
    pub retracted: Vec<u64>,
    /// Yield tokens to redeem: those held directly and those retracted.
    pub redeem: u128,
    /// Stable asset available to the payout: the direct balance, the proxied
    /// bids retracted, and the redemption's value.
    pub recovered: u128,
    /// The part of the payout that none of it covers.
    pub remaining: u128,
}

/// A partial retraction never redeems more yield tokens than the position holds.
proof fn lemma_partial_redeem_bounded(rem: int, amount: int, rate: int)
    requires
        0 <= rem <= rate_mul(amount, rate),
        0 <= amount,
        0 < rate,
    ensures
        0 <= rate_mul(rem, rate_inv(rate)) <= amount,
{
    let k = DECIMAL_FRACTIONAL as int;
    let inv = rate_inv(rate);
    vstd::arithmetic::div_mod::lemma_fundamental_div_mod(amount * rate, k);
    vstd::arithmetic::div_mod::lemma_fundamental_div_mod(k * k, rate);
    vstd::arithmetic::div_mod::lemma_mod_pos_bound(amount * rate, k);
    vstd::arithmetic::div_mod::lemma_mod_pos_bound(k * k, rate);
    assert(k * k == 1_000_000_000_000_000_000_000_000_000_000_000_000);
    assert(inv >= 0) by {
        vstd::arithmetic::div_mod::lemma_div_pos_is_pos(k * k, rate);
    }
    let w = rate_mul(amount, rate);
    assert(w * k <= amount * rate);
    assert(inv * rate <= k * k);
    assert(rem * inv * rate <= amount * rate * k) by (nonlinear_arith)
        requires
            0 <= rem <= w,
            w * k <= amount * rate,
            inv * rate <= k * k,
            0 <= inv,
            0 < rate,
            0 < k,
    ;
    assert(rem * inv <= amount * k) by (nonlinear_arith)
        requires
            rem * inv * rate <= amount * rate * k,
            0 < rate,
    ;
    assert(0 <= rem * inv) by (nonlinear_arith)
        requires
            0 <= rem,
            0 <= inv,
    ;
    vstd::arithmetic::div_mod::lemma_div_is_ordered(rem * inv, amount * k, k);
    assert(amount * k == k * amount) by (nonlinear_arith);
    vstd::arithmetic::div_mod::lemma_div_multiples_vanish(amount, k);
    vstd::arithmetic::div_mod::lemma_div_pos_is_pos(rem * inv, k);
}

/// One step of the plan, unfolded.
proof fn lemma_plan_step(bids: Seq<BidPosition>, i: int, rem: int, rate: int)
    requires
        0 <= i < bids.len(),
        rem > 0,
    ensures
        plan_from(bids, i, rem, rate) == (if rate_mul(bids[i].amount as int, rate) >= rem {
            (1int, rate_mul(rem, rate_inv(rate)), 0int, 0int)
        } else if stable_of(bids[i]) >= rem - rate_mul(bids[i].amount as int, rate) {
            (1int, bids[i].amount as int, stable_of(bids[i]), 0int)
        } else {
            let rest = plan_from(
                bids,
                i + 1,
                rem - rate_mul(bids[i].amount as int, rate) - stable_of(bids[i]),
                rate,
            );
            (rest.0 + 1, rest.1 + bids[i].amount, rest.2 + stable_of(bids[i]), rest.3)
        }),
{
}

/// Works out how a payout larger than the direct stable balance is met:
/// the directly held yield tokens are redeemed, then positions are retracted
/// oldest first until the rest is covered, the last one possibly in part.
/// Whatever no source covers is left in `remaining`.
pub fn resolve_shortfall(
    payout: u128,
    stable: u128,
    a_ust: u128,
    positions: &Vec<BidPosition>,
    rate: u128,
) -> (r: Shortfall)
    requires
        stable < payout,
        a_ust + sum_a_ust(positions@) <= u128::MAX,
        stable + sum_stable(positions@) + rate_mul(a_ust + sum_a_ust(positions@), rate as int)
            <= u128::MAX,
    ensures
        r.retracted@ == retracted_indices(
            positions@,
            shortfall_plan(payout as int, stable as int, a_ust as int, positions@, rate as int).0,
        ),
        r.redeem == a_ust + shortfall_plan(
            payout as int,
            stable as int,
            a_ust as int,
            positions@,
            rate as int,
        ).1,
        r.recovered == stable + shortfall_plan(
            payout as int,
            stable as int,
            a_ust as int,
            positions@,
            rate as int,
        ).2 + rate_mul(r.redeem as int, rate as int),
        r.remaining == shortfall_plan(payout as int, stable as int, a_ust as int, positions@, rate as int).3,
        r.remaining <= payout - stable,
{
    let ghost s = positions@;
    let ghost total_a = a_ust + sum_a_ust(s);
    proof {
        lemma_prefix_sums_grow(s, 0, s.len() as int);
        assert(s.take(s.len() as int) =~= s);
        assert(s.take(0) =~= Seq::<BidPosition>::empty());
        lemma_rate_mul_monotone(a_ust as int, total_a, rate as int);
    }
    let yield_value = match mul_rate(a_ust, rate) {
        Some(v) => v,
        None => 0,
    };
    let gap = payout - stable;
    let mut rem: u128 = if gap > yield_value {
        gap - yield_value
    } else {
        0
    };
    let ghost r1 = rem as int;
    let mut retracted: Vec<u64> = Vec::new();
    let mut redeem: u128 = a_ust;
    let mut st: u128 = 0;
    let mut i: usize = 0;
    while i < positions.len() && rem > 0
        invariant
            s == positions@,
            0 <= i <= s.len(),
            0 <= rem <= r1 <= gap,
            r1 == uncovered(payout - stable, rate_mul(a_ust as int, rate as int)),
            a_ust <= redeem <= a_ust + sum_a_ust(s.take(i as int)),
            st <= sum_stable(s.take(i as int)),
            total_a == a_ust + sum_a_ust(s),
            total_a <= u128::MAX,
            stable + sum_stable(s) + rate_mul(total_a, rate as int) <= u128::MAX,
            retracted@ == retracted_indices(s, i as int),
            ({
                let whole = plan_from(s, 0, r1, rate as int);
                let rest = plan_from(s, i as int, rem as int, rate as int);
                whole == (i + rest.0, redeem - a_ust + rest.1, st + rest.2, rest.3)
            }),
        ensures
            i == s.len() || rem == 0,
        decreases s.len() - i,
    {
        let b = positions[i];
        proof {
            lemma_take_step(s, i as int + 1);
            lemma_prefix_sums_grow(s, i as int, i as int + 1);
            lemma_prefix_sums_grow(s, i as int + 1, s.len() as int);
            assert(s.take(s.len() as int) =~= s);
            assert(b == s[i as int]);
            assert(redeem + b.amount <= total_a);
            lemma_rate_mul_monotone(b.amount as int, total_a, rate as int);
            lemma_plan_step(s, i as int, rem as int, rate as int);
            assert(retracted_indices(s, i as int + 1) =~= retracted_indices(s, i as int).push(b.idx));
        }
        retracted.push(b.idx);
        let w = match mul_rate(b.amount, rate) {
            Some(v) => v,
            None => 0,
        };
        if w >= rem {
            proof {
                if rate == 0 {
                    assert(b.amount * 0 == 0);
                }
                lemma_partial_redeem_bounded(rem as int, b.amount as int, rate as int);
            }
            let inv = match inv_rate(rate) {
                Some(v) => v,
                None => 0,
            };
            proof {
                vstd::arithmetic::div_mod::lemma_div_is_ordered(0, 1_000_000_000_000_000_000_000_000_000_000_000_000, rate as int);
            }
            let part = match mul_rate(rem, inv) {
                Some(v) => v,
                None => 0,
            };
            redeem = redeem + part;
            rem = 0;
            i = i + 1;
            break;
        }
        rem = rem - w;
        redeem = redeem + b.amount;
        let proxied = match b.proxied_bid {
            Some(p) => p.amount,
            None => 0,
        };
        st = st + proxied;
        if proxied >= rem {
            rem = 0;
            i = i + 1;
            break;
        }
        rem = rem - proxied;
        i = i + 1;
    }
    proof {
        lemma_prefix_sums_grow(s, i as int, s.len() as int);
        assert(s.take(s.len() as int) =~= s);
        lemma_rate_mul_monotone(redeem as int, total_a, rate as int);
    }
    let redeemed_value = match mul_rate(redeem, rate) {
        Some(v) => v,
        None => 0,
    };
    Shortfall { retracted, redeem, recovered: stable + st + redeemed_value, remaining: rem }
}

/// The collateral that meets the uncovered part `remaining` of a payout:
/// the requester's pro-rata claim on `collateral` for that part, over the
/// supply less the shares already met in stable asset.
pub open spec fn collateral_claim(collateral: int, share: int, supply: int, payout: int, remaining: int) -> int {
    ratio(collateral * share, remaining, payout) / (supply - ratio(share, payout - remaining, payout))
}

/// The collateral to send for an uncovered part of a payout; an overflow
/// where `collateral * share` leaves 128 bits.
pub fn collateral_for_shortfall(
    collateral: u128,
    share: u128,
    supply: u128,
    payout: u128,
    remaining: u128,
) -> (r: Result<u128, ContractError>)
    requires
        0 < share <= supply,
        0 < remaining <= payout,
    ensures
        r is Ok <==> collateral * share <= u128::MAX,
        r matches Ok(v) ==> v == collateral_claim(
            collateral as int,
            share as int,
            supply as int,
            payout as int,
            remaining as int,
        ),
        r matches Err(e) ==> (e == ContractError::OverflowError {}),
{
    let cs = match collateral.checked_mul(share) {
        Some(v) => v,
        None => return Err(ContractError::OverflowError {}),
    };
    proof {
        lemma_payout_bounded(remaining as int, cs as int, payout as int);
        lemma_payout_bounded((payout - remaining) as int, share as int, payout as int);
        lemma_met_share_below(share as int, payout as int, remaining as int);
    }
    let x = match multiply_ratio(cs, remaining, payout) {
        Some(v) => v,
        None => 0,
    };
    let met = match multiply_ratio(share, payout - remaining, payout) {
        Some(v) => v,
        None => 0,
    };
    Ok(x / (supply - met))
}

/// Shares met in stable asset stay below the whole share while part of the
/// payout remains uncovered.
proof fn lemma_met_share_below(share: int, payout: int, remaining: int)
    requires
        0 < share,
        0 < remaining <= payout,
    ensures
        ratio(share, payout - remaining, payout) < share,
{
    let x = share * (payout - remaining);
    assert(x < share * payout) by (nonlinear_arith)
        requires
            0 < share,
            0 < remaining <= payout,
            x == share * (payout - remaining),
    ;
    vstd::arithmetic::div_mod::lemma_fundamental_div_mod(x, payout);
    vstd::arithmetic::div_mod::lemma_mod_pos_bound(x, payout);
    assert((x / payout) * payout <= x);
    assert(x / payout < share) by (nonlinear_arith)
        requires
            (x / payout) * payout <= x,
            x < share * payout,
            payout > 0,
    ;
}

/// Retractions are minimal: none are made for a gap of zero, every one but
/// the last leaves part of the gap uncovered, and once the retracted
/// positions cover the gap no more are retracted.
pub proof fn lemma_retractions_minimal(bids: Seq<BidPosition>, i: int, remaining: int, rate: int)
    requires
        0 <= i <= bids.len(),
        0 <= rate,
    ensures
        remaining <= 0 ==> plan_from(bids, i, remaining, rate).0 == 0,
        0 <= plan_from(bids, i, remaining, rate).0 <= bids.len() - i,
        remaining > 0 && plan_from(bids, i, remaining, rate).0 > 0 ==> cover_from(
            bids,
            i,
            plan_from(bids, i, remaining, rate).0 - 1,
            rate,
        ) < remaining,
        remaining > 0 && plan_from(bids, i, remaining, rate).0 < bids.len() - i ==> cover_from(
            bids,
            i,
            plan_from(bids, i, remaining, rate).0,
            rate,
        ) >= remaining,
        remaining > 0 && i < bids.len() ==> plan_from(bids, i, remaining, rate).0 > 0,
    decreases bids.len() - i,
{
    if remaining > 0 && i < bids.len() {
        let b = bids[i];
        let w = rate_mul(b.amount as int, rate);
        vstd::arithmetic::div_mod::lemma_div_pos_is_pos(b.amount * rate, DECIMAL_FRACTIONAL as int);
        assert(b.amount * rate >= 0) by (nonlinear_arith)
            requires
                b.amount >= 0,
                rate >= 0,
        ;
        assert(stable_of(b) >= 0);
        assert(cover_from(bids, i, 0, rate) == 0);
        if w >= remaining || stable_of(b) >= remaining - w {
            assert(cover_from(bids, i + 1, 0, rate) == 0);
            assert(cover_from(bids, i, 1, rate) == retract_value(b, rate));
        } else {
            let r2 = remaining - w - stable_of(b);
            lemma_retractions_minimal(bids, i + 1, r2, rate);
            let n2 = plan_from(bids, i + 1, r2, rate).0;
            assert(cover_from(bids, i, n2 + 1, rate) == retract_value(b, rate) + cover_from(bids, i + 1, n2, rate));
            if n2 > 0 {
                assert(cover_from(bids, i, n2, rate) == retract_value(b, rate) + cover_from(bids, i + 1, n2 - 1, rate));
            }
        }
    }
}

} // verus!
