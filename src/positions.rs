use vstd::prelude::*;

use crate::error::ContractError;

verus! {

/// The number of positions requested per page from the external queue.
pub const BID_PAGE_LIMIT: usize = 31;

/// The bid that a vault position has placed in the liquidation queue: its
/// settled stable amount and the collateral liquidated into it, not yet claimed.
#[derive(Debug, Clone, Copy, PartialEq, Eq, Structural)]
pub struct ProxiedBid {
    pub amount: u128,
    pub pending_liquidated_collateral: u128,
}

/// One position of the vault in the external queue, as the queue reports it:
/// its index, the yield tokens it holds, and its proxied bid, if placed.
#[derive(Debug, Clone, Copy, PartialEq, Eq, Structural)]
pub struct BidPosition {
    pub idx: u64,
    pub amount: u128,
    pub proxied_bid: Option<ProxiedBid>,
}

/// Balances summed over direct holdings and positions.
#[derive(Debug, Clone, Copy, PartialEq, Eq, Structural)]
pub struct PositionTotals {
    /// Yield tokens.
    pub a_ust: u128,
    /// Stable asset.
    pub stable: u128,
    /// Collateral asset.
    pub collateral: u128,
}

impl PositionTotals {
    /// The three balances as integers.
    pub open spec fn view(self) -> (int, int, int) {
        (self.a_ust as int, self.stable as int, self.collateral as int)
    }
}

/// The stable amount settled in a position's proxied bid.
pub open spec fn stable_of(b: BidPosition) -> int {
    match b.proxied_bid {
        Some(p) => p.amount as int,
        None => 0,
    }
}

/// The collateral liquidated into a position's proxied bid.
pub open spec fn pending_of(b: BidPosition) -> int {
    match b.proxied_bid {
        Some(p) => p.pending_liquidated_collateral as int,
        None => 0,
    }
}

/// The yield tokens held over a sequence of positions.
pub open spec fn sum_a_ust(s: Seq<BidPosition>) -> int
    decreases s.len(),
{
    if s.len() == 0 {
        0
    } else {
        sum_a_ust(s.drop_last()) + s.last().amount
    }
}

/// The settled stable amount over a sequence of positions.
pub open spec fn sum_stable(s: Seq<BidPosition>) -> int
    decreases s.len(),
{
    if s.len() == 0 {
        0
    } else {
        sum_stable(s.drop_last()) + stable_of(s.last())
    }
}

/// The pending collateral over a sequence of positions.
pub open spec fn sum_pending(s: Seq<BidPosition>) -> int
    decreases s.len(),
{
    if s.len() == 0 {
        0
    } else {
        sum_pending(s.drop_last()) + pending_of(s.last())
    }
}

/// The indices of the positions that hold pending collateral, in order.
pub open spec fn claim_indices(s: Seq<BidPosition>) -> Seq<u64>
    decreases s.len(),
{
    if s.len() == 0 {
        Seq::empty()
    } else if pending_of(s.last()) != 0 {
        claim_indices(s.drop_last()).push(s.last().idx)
    } else {
        claim_indices(s.drop_last())
    }
}

/// `start` plus what the positions hold, field by field.
pub open spec fn aggregated(start: PositionTotals, s: Seq<BidPosition>) -> (int, int, int) {
    (
        start.a_ust + sum_a_ust(s),
        start.stable + sum_stable(s),
        start.collateral + sum_pending(s),
    )
}

/// Whether every aggregated balance fits in 128 bits.
pub open spec fn aggregate_fits(start: PositionTotals, s: Seq<BidPosition>) -> bool {
    let t = aggregated(start, s);
    t.0 <= u128::MAX && t.1 <= u128::MAX && t.2 <= u128::MAX
}

/// The sums over a prefix never exceed the sums over a longer prefix.
pub proof fn lemma_prefix_sums_grow(s: Seq<BidPosition>, i: int, j: int)
    requires
        0 <= i <= j <= s.len(),
    ensures
        0 <= sum_a_ust(s.take(i)) <= sum_a_ust(s.take(j)),
        0 <= sum_stable(s.take(i)) <= sum_stable(s.take(j)),
        0 <= sum_pending(s.take(i)) <= sum_pending(s.take(j)),
    decreases j - i + j,
{
    if j == 0 {
        assert(s.take(0) =~= Seq::<BidPosition>::empty());
    } else if i == j {
        lemma_prefix_sums_grow(s, i - 1, j - 1);
        lemma_take_step(s, j);
        lemma_prefix_sums_grow(s, 0, 0);
        if i > 0 {
            lemma_take_step(s, i);
        }
    } else {
        lemma_prefix_sums_grow(s, i, j - 1);
        lemma_take_step(s, j);
    }
}

/// One more position extends each prefix sum by that position.
pub proof fn lemma_take_step(s: Seq<BidPosition>, j: int)
    requires
        0 < j <= s.len(),
    ensures
        s.take(j).drop_last() == s.take(j - 1),
        s.take(j).last() == s[j - 1],
        sum_a_ust(s.take(j)) == sum_a_ust(s.take(j - 1)) + s[j - 1].amount,
        sum_stable(s.take(j)) == sum_stable(s.take(j - 1)) + stable_of(s[j - 1]),
        sum_pending(s.take(j)) == sum_pending(s.take(j - 1)) + pending_of(s[j - 1]),
        claim_indices(s.take(j)) == (if pending_of(s[j - 1]) != 0 {
            claim_indices(s.take(j - 1)).push(s[j - 1].idx)
        } else {
            claim_indices(s.take(j - 1))
        }),
{
    assert(s.take(j).drop_last() =~= s.take(j - 1));
}

/// Adds the balances of `positions` to `start`, field by field; fails with an
/// overflow where a sum leaves 128 bits. A failure of any part aborts the
/// whole sum: no partial total is returned.
pub fn aggregate_positions(start: PositionTotals, positions: &Vec<BidPosition>) -> (r: Result<PositionTotals, ContractError>)
    ensures
        r is Ok <==> aggregate_fits(start, positions@),
        r matches Ok(t) ==> aggregated(start, positions@) == t.view(),
        r matches Err(e) ==> (e == ContractError::OverflowError {}),
{
    let s = Ghost(positions@);
    let mut t = start;
    let mut i: usize = 0;
    proof {
        assert(s@.take(0) =~= Seq::<BidPosition>::empty());
    }
    while i < positions.len()
        invariant
            s@ == positions@,
            0 <= i <= positions.len(),
            aggregated(start, s@.take(i as int)) == t.view(),
        decreases positions.len() - i,
    {
        let b = positions[i];
        proof {
            lemma_take_step(s@, i + 1);
            lemma_prefix_sums_grow(s@, i + 1, s@.len() as int);
            assert(s@.take(s@.len() as int) =~= s@);
        }
        let a = match t.a_ust.checked_add(b.amount) {
            Some(v) => v,
            None => return Err(ContractError::OverflowError {}),
        };
        let (st, pc) = match b.proxied_bid {
            Some(p) => (p.amount, p.pending_liquidated_collateral),
            None => (0u128, 0u128),
        };
        let stable = match t.stable.checked_add(st) {
            Some(v) => v,
            None => return Err(ContractError::OverflowError {}),
        };
        let collateral = match t.collateral.checked_add(pc) {
            Some(v) => v,
            None => return Err(ContractError::OverflowError {}),
        };
        t = PositionTotals { a_ust: a, stable, collateral };
        i = i + 1;
    }
    proof {
        assert(s@.take(i as int) =~= s@);
    }
    Ok(t)
}

/// The cursor for the next page of positions: the index of the last entry of
/// a full page, or `None` once a page comes back shorter than `limit`.
pub fn next_start_after(page: &Vec<BidPosition>, limit: usize) -> (r: Option<u64>)
    ensures
        page@.len() < limit ==> r is None,
        page@.len() >= limit && page@.len() > 0 ==> r == Some(page@.last().idx),
        page@.len() >= limit && page@.len() == 0 ==> r is None,
{
    if page.len() < limit || page.len() == 0 {
        None
    } else {
        Some(page[page.len() - 1].idx)
    }
}

/// The collateral pending in all positions, and the indices of the positions
/// that hold any, in order; an overflow where the sum leaves 128 bits.
pub fn claimable_positions(positions: &Vec<BidPosition>) -> (r: Result<(u128, Vec<u64>), ContractError>)
    ensures
        r is Ok <==> sum_pending(positions@) <= u128::MAX,
        r matches Ok(c) ==> c.0 == sum_pending(positions@),
        r matches Ok(c) ==> c.1@ == claim_indices(positions@),
        r matches Err(e) ==> (e == ContractError::OverflowError {}),
{
    let s = Ghost(positions@);
    let mut total: u128 = 0;
    let mut idxs: Vec<u64> = Vec::new();
    let mut i: usize = 0;
    proof {
        assert(s@.take(0) =~= Seq::<BidPosition>::empty());
    }
    while i < positions.len()
        invariant
            s@ == positions@,
            0 <= i <= positions.len(),
            total == sum_pending(s@.take(i as int)),
            idxs@ == claim_indices(s@.take(i as int)),
        decreases positions.len() - i,
    {
        let b = positions[i];
        proof {
            lemma_take_step(s@, i + 1);
            lemma_prefix_sums_grow(s@, i + 1, s@.len() as int);
            assert(s@.take(s@.len() as int) =~= s@);
        }
        if let Some(p) = b.proxied_bid {
            if p.pending_liquidated_collateral != 0 {
                total = match total.checked_add(p.pending_liquidated_collateral) {
                    Some(v) => v,
                    None => return Err(ContractError::OverflowError {}),
                };
                idxs.push(b.idx);
            }
        }
        i = i + 1;
    }
    proof {
        assert(s@.take(i as int) =~= s@);
    }
    Ok((total, idxs))
}

/// Whether any position holds collateral that a claim would pull in.
pub fn has_claimable(positions: &Vec<BidPosition>) -> (r: bool)
    ensures
        r <==> exists|i: int| 0 <= i < positions@.len() && pending_of(#[trigger] positions@[i]) != 0,
{
    let mut i: usize = 0;
    while i < positions.len()
        invariant
            0 <= i <= positions.len(),
            forall|j: int| 0 <= j < i ==> pending_of(#[trigger] positions@[j]) == 0,
        decreases positions.len() - i,
    {
        if let Some(p) = positions[i].proxied_bid {
            if p.pending_liquidated_collateral != 0 {
                return true;
            }
        }
        i = i + 1;
    }
    false
}

} // verus!
