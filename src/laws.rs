use vstd::prelude::*;

use crate::claims::{matured, matured_prefix, ClaimEntry};
use crate::error::ContractError;
use crate::math::rate_mul;
use crate::positions::BidPosition;
use crate::shortfall::shortfall_plan;
use crate::valuation::{minted_shares, payout_of, total_cap_result, NavSnapshot};
use crate::vault::{deposit_share_result, Vault};

verus! {

/// In a well-formed vault, and so after any sequence of deposits and
/// withdrawals (each keeps the vault well-formed), the total supply equals
/// the sum of all holders' balances.
pub proof fn lemma_share_conservation(v: Vault)
    requires
        v.wf(),
    ensures
        v.state.total_supply == v.ledger.total(),
{
}

/// The first deposit into a vault without shares mints exactly the amount
/// deposited, whatever the vault is worth.
pub proof fn lemma_bootstrap_mint(snap: NavSnapshot, amount: u128)
    requires
        total_cap_result(snap, amount as int) is Ok,
    ensures
        deposit_share_result(snap, amount as int, 0) == Ok::<int, ContractError>(amount as int),
{
}

/// Two deposits of one amount, with no change in value between them but the
/// first deposit itself, mint the same number of shares.
pub proof fn lemma_equal_deposits_equal_shares(amount: int, supply: int, cap: int)
    requires
        amount >= 0,
        supply > 0,
        cap > 0,
    ensures
        minted_shares(amount, supply + minted_shares(amount, supply, cap), cap + amount) == minted_shares(
            amount,
            supply,
            cap,
        ),
{
    let m = amount * supply / cap;
    vstd::arithmetic::div_mod::lemma_fundamental_div_mod(amount * supply, cap);
    vstd::arithmetic::div_mod::lemma_mod_pos_bound(amount * supply, cap);
    assert(m * cap <= amount * supply < (m + 1) * cap) by (nonlinear_arith)
        requires
            amount * supply == cap * m + (amount * supply) % cap,
            0 <= (amount * supply) % cap < cap,
    ;
    assert(amount * supply >= 0) by (nonlinear_arith)
        requires
            amount >= 0,
            supply > 0,
    ;
    vstd::arithmetic::div_mod::lemma_div_pos_is_pos(amount * supply, cap);
    let n = amount * (supply + m);
    let d = cap + amount;
    assert(m * d <= n < (m + 1) * d) by (nonlinear_arith)
        requires
            m * cap <= amount * supply < (m + 1) * cap,
            n == amount * (supply + m),
            d == cap + amount,
            amount >= 0,
            m >= 0,
    ;
    vstd::arithmetic::div_mod::lemma_fundamental_div_mod(n, d);
    vstd::arithmetic::div_mod::lemma_mod_pos_bound(n, d);
    assert(n / d == m) by (nonlinear_arith)
        requires
            m * d <= n < (m + 1) * d,
            n == d * (n / d) + n % d,
            0 <= n % d < d,
            d > 0,
    ;
}

/// Redeeming fewer shares from one valuation never pays more.
pub proof fn lemma_redemption_monotone(s1: int, s2: int, cap: int, supply: int)
    requires
        0 <= s1 <= s2,
        cap >= 0,
        supply > 0,
    ensures
        payout_of(s1, cap, supply) <= payout_of(s2, cap, supply),
{
    assert(cap * s1 <= cap * s2) by (nonlinear_arith)
        requires
            0 <= s1 <= s2,
            cap >= 0,
    ;
    vstd::arithmetic::div_mod::lemma_div_is_ordered(cap * s1, cap * s2, supply);
}

/// Where the vault is worth at least one unit per share, redeeming fewer
/// shares pays strictly less.
pub proof fn lemma_redemption_strictly_monotone(s1: int, s2: int, cap: int, supply: int)
    requires
        0 <= s1 < s2,
        cap >= supply,
        supply > 0,
    ensures
        payout_of(s1, cap, supply) < payout_of(s2, cap, supply),
{
    let a = cap * s1;
    let b = cap * s2;
    assert(b - a == cap * (s2 - s1)) by (nonlinear_arith)
        requires
            a == cap * s1,
            b == cap * s2,
    ;
    assert(cap * (s2 - s1) >= cap) by (nonlinear_arith)
        requires
            s2 - s1 >= 1,
            cap >= 0,
    ;
    vstd::arithmetic::div_mod::lemma_div_is_ordered(a + supply, b, supply);
    vstd::arithmetic::div_mod::lemma_div_plus_one(a, supply);
}

/// With claims appended in order of time, the run of claims that an unlock
/// releases is exactly the set of claims whose lock period has run out.
pub proof fn lemma_unlock_releases_matured(s: Seq<ClaimEntry>, k: int, now: u64, lock_period: u64)
    requires
        forall|i: int, j: int|
            0 <= i < j < s.len() ==> s[i].record.timestamp <= s[j].record.timestamp,
        matured_prefix(s, k, now, lock_period),
    ensures
        forall|j: int| 0 <= j < s.len() ==> (j < k <==> matured(#[trigger] s[j], now, lock_period)),
{
    assert forall|j: int| 0 <= j < s.len() implies (j < k <==> matured(#[trigger] s[j], now, lock_period)) by {
        if j > k {
            assert(s[k].record.timestamp <= s[j].record.timestamp);
        }
    }
}

/// A shortfall that the directly held yield tokens cover retracts no
/// position.
pub proof fn lemma_yield_cover_retracts_nothing(
    payout: int,
    stable: int,
    a_ust: int,
    bids: Seq<BidPosition>,
    rate: int,
)
    requires
        payout - stable <= rate_mul(a_ust, rate),
    ensures
        shortfall_plan(payout, stable, a_ust, bids, rate).0 == 0,
{
}

} // verus!
