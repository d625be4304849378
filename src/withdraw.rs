use vstd::prelude::*;

use crate::address::{lower_of, normalize};
use crate::claims::{consume_front, ClaimEntry};
use crate::error::ContractError;
use crate::math::{lemma_rate_mul_monotone, rate_mul};
use crate::shortfall::{
    collateral_claim, collateral_for_shortfall, resolve_shortfall, retracted_indices, shortfall_plan,
    uncovered,
};
use crate::valuation::{
    collateral_cap, collateral_cap_result, holdings, holdings_of, payout_of, redeem_amount, total_cap,
    total_cap_result, NavSnapshot,
};
use crate::vault::{in_cooldown, Action, State, Vault};

verus! {

/// What a withdrawal paid and set in motion.
pub struct WithdrawOutcome {
    /// The value the shares redeemed, in the asset withdrawn.
    pub payout: u128,
    /// Collateral released early from the claim queue.
    pub unlocked: u128,
    /// Instructions for the runtime, in order.
    pub actions: Vec<Action>,
}

/// The first failure among the checks made before any valuation: a zero
/// share, a withdrawal inside the cooldown, a share above the balance.
pub open spec fn withdraw_gate(share: u128, cooldown: bool, balance: int) -> Option<ContractError> {
    if share == 0 {
        Some(ContractError::Invalidate {})
    } else if cooldown {
        Some(ContractError::Locked {})
    } else if balance < share {
        Some(ContractError::OverflowError {})
    } else {
        None
    }
}

/// Collateral not reserved against claims.
pub open spec fn free_collateral(balance: int, locked: int) -> int {
    if balance > locked {
        balance - locked
    } else {
        0
    }
}

/// The smaller of two amounts.
pub open spec fn min_of(a: int, b: int) -> int {
    if a <= b {
        a
    } else {
        b
    }
}

/// One retraction instruction for each index, in order.
pub open spec fn retract_actions(idxs: Seq<u64>) -> Seq<Action> {
    idxs.map_values(|i: u64| Action::RetractBid { bid_idx: i })
}

/// A one-element sequence where `amount` is non-zero, else an empty one.
pub open spec fn when_positive(amount: int, a: Action) -> Seq<Action> {
    if amount > 0 {
        seq![a]
    } else {
        Seq::empty()
    }
}

/// The instructions of a stable withdrawal that the direct balance does not
/// cover: the retractions, the redemption of yield tokens, the stable
/// payment, and the collateral sent to the swap wallet.
pub open spec fn shortfall_actions(idxs: Seq<u64>, redeem: int, sent: int, collateral: int) -> Seq<Action> {
    retract_actions(idxs) + when_positive(redeem, Action::RedeemStable { amount: redeem as u128 })
        + when_positive(sent, Action::SendStable { amount: sent as u128 }) + when_positive(
        collateral,
        Action::SendCollateralToSwapWallet { amount: collateral as u128 },
    )
}

/// A stable withdrawal of `share` from `v`, worth `cap` in all: the payout,
/// the collateral released early, the instructions and the claim queue after
/// it; or the first failure.
pub open spec fn stable_withdrawal(v: Vault, share: int, snap: NavSnapshot, cap: int) -> Result<
    (int, int, Seq<Action>, Seq<ClaimEntry>),
    ContractError,
> {
    let supply = v.state.total_supply as int;
    let payout = payout_of(share, cap, supply);
    if payout == 0 {
        Err(ContractError::Insufficient {})
    } else if snap.stable_balance >= payout {
        Ok((payout, 0, seq![Action::SendStable { amount: payout as u128 }], v.claims@))
    } else {
        let rate = snap.exchange_rate as int;
        let plan = shortfall_plan(payout, snap.stable_balance as int, snap.a_ust_balance as int, snap.positions@, rate);
        let redeem = snap.a_ust_balance + plan.1;
        let recovered = snap.stable_balance + plan.2 + rate_mul(redeem, rate);
        let remaining = plan.3;
        let total_collateral = holdings(snap, 0).2;
        if remaining > 0 && total_collateral * share > u128::MAX {
            Err(ContractError::OverflowError {})
        } else {
            let collateral = if remaining > 0 {
                collateral_claim(total_collateral, share, supply, payout, remaining)
            } else {
                0
            };
            let need = uncovered(collateral, free_collateral(snap.collateral_balance as int, v.state.locked_b_luna as int));
            let claims = consume_front(v.claims@, need);
            Ok((
                payout,
                min_of(need, v.claims.locked()),
                shortfall_actions(retracted_indices(snap.positions@, plan.0), redeem, min_of(recovered, payout), collateral),
                claims,
            ))
        }
    }
}

/// A collateral withdrawal of `share` from `v`, worth `cap` in collateral:
/// the payout, or the first failure.
pub open spec fn collateral_withdrawal(v: Vault, share: int, snap: NavSnapshot, cap: int) -> Result<int, ContractError> {
    let payout = payout_of(share, cap, v.state.total_supply as int);
    if payout == 0 {
        Err(ContractError::Insufficient {})
    } else if snap.collateral_balance < v.state.locked_b_luna + payout {
        Err(ContractError::Locked {})
    } else {
        Ok(payout)
    }
}

fn retraction_actions(idxs: &Vec<u64>) -> (r: Vec<Action>)
    ensures
        r@ == retract_actions(idxs@),
{
    let mut out: Vec<Action> = Vec::new();
    let mut j: usize = 0;
    while j < idxs.len()
        invariant
            0 <= j <= idxs@.len(),
            out@ == retract_actions(idxs@.take(j as int)),
        decreases idxs@.len() - j,
    {
        proof {
            assert(idxs@.take(j as int + 1) =~= idxs@.take(j as int).push(idxs@[j as int]));
            assert(retract_actions(idxs@.take(j as int + 1)) =~= retract_actions(idxs@.take(j as int)).push(
                Action::RetractBid { bid_idx: idxs@[j as int] },
            ));
        }
        out.push(Action::RetractBid { bid_idx: idxs[j] });
        j = j + 1;
    }
    proof {
        assert(idxs@.take(j as int) =~= idxs@);
    }
    out
}

impl Vault {
    /// The checks a withdrawal makes before anything is valued: a non-zero
    /// share, the cooldown since the sender's last deposit (made at
    /// `last_deposit`) over at `now`, and a balance that covers the share.
    pub fn check_withdrawal(
        &self,
        sender: &String,
        share: u128,
        last_deposit: Option<u64>,
        now: u64,
    ) -> (r: Result<(), ContractError>)
        requires
            self.wf(),
        ensures
            r == (match withdraw_gate(
                share,
                in_cooldown(last_deposit, now, self.state.withdraw_lock),
                self.ledger.balance_of(lower_of(sender@)),
            ) {
                Some(e) => Err::<(), ContractError>(e),
                None => Ok::<(), ContractError>(()),
            }),
    {
        if share == 0 {
            return Err(ContractError::Invalidate {});
        }
        if self.cooldown_active(last_deposit, now) {
            return Err(ContractError::Locked {});
        }
        let holder = normalize(sender);
        if self.ledger.balance(&holder) < share {
            return Err(ContractError::OverflowError {});
        }
        Ok(())
    }

    /// Redeems `share` shares of `sender` for stable asset at the value of
    /// `snap`. Where the direct stable balance falls short, yield tokens are
    /// redeemed, positions retracted oldest first, and what stays uncovered
    /// is paid as the requester's pro-rata claim on the collateral, sent to
    /// the swap wallet; collateral beyond the unlocked float is released
    /// early from the claim queue, oldest claims first.
    pub fn withdraw_ust(
        &mut self,
        sender: &String,
        share: u128,
        last_deposit: Option<u64>,
        now: u64,
        snap: &NavSnapshot,
    ) -> (r: Result<WithdrawOutcome, ContractError>)
        requires
            old(self).wf(),
        ensures
            final(self).wf(),
            r is Err ==> *final(self) == *old(self),
            r == Err::<WithdrawOutcome, ContractError>(ContractError::Locked {}) <==> (share != 0
                && in_cooldown(last_deposit, now, old(self).state.withdraw_lock)),
            withdraw_gate(
                share,
                in_cooldown(last_deposit, now, old(self).state.withdraw_lock),
                old(self).ledger.balance_of(lower_of(sender@)),
            ) matches Some(e) ==> r == Err::<WithdrawOutcome, ContractError>(e),
            withdraw_gate(
                share,
                in_cooldown(last_deposit, now, old(self).state.withdraw_lock),
                old(self).ledger.balance_of(lower_of(sender@)),
            ) is None ==> (match total_cap_result(*snap, 0) {
                Err(e) => r == Err::<WithdrawOutcome, ContractError>(e),
                Ok(cap) => match stable_withdrawal(*old(self), share as int, *snap, cap) {
                    Err(e) => r == Err::<WithdrawOutcome, ContractError>(e),
                    Ok(w) => r matches Ok(o) && o.payout == w.0 && o.unlocked == w.1 && o.actions@ == w.2
                        && final(self).claims@ == w.3,
                },
            }),
            r matches Ok(o) ==> final(self).state == (State {
                total_supply: (old(self).state.total_supply - share) as u128,
                locked_b_luna: (old(self).state.locked_b_luna - o.unlocked) as u128,
                ..old(self).state
            }),
            r is Ok ==> final(self).ledger.balance_of(lower_of(sender@)) == old(self).ledger.balance_of(
                lower_of(sender@),
            ) - share,
            r is Ok ==> forall|x: Seq<char>|
                x != lower_of(sender@) ==> final(self).ledger.balance_of(x) == old(self).ledger.balance_of(x),
    {
        self.check_withdrawal(sender, share, last_deposit, now)?;
        let holder = normalize(sender);
        proof {
            self.ledger.lemma_balance_le_total(holder@);
        }
        let cap = total_cap(snap, 0)?;
        let supply = self.state.total_supply;
        proof {
            self.ledger.lemma_balance_le_total(holder@);
        }
        let payout = redeem_amount(share, cap, supply);
        if payout == 0 {
            return Err(ContractError::Insufficient {});
        }
        let mut actions: Vec<Action> = Vec::new();
        let mut unlocked: u128 = 0;
        if snap.stable_balance >= payout {
            actions.push(Action::SendStable { amount: payout });
        } else {
            let ghost h = holdings(*snap, 0);
            let held = match holdings_of(snap, 0) {
                Ok(t) => t,
                Err(_) => {
                    proof {
                        assert(false);
                    }
                    return Err(ContractError::OverflowError {});
                },
            };
            proof {
                lemma_rate_mul_monotone(0, h.2, snap.price as int);
                lemma_rate_mul_monotone(0, h.0, snap.exchange_rate as int);
            }
            let sf = resolve_shortfall(
                payout,
                snap.stable_balance,
                snap.a_ust_balance,
                &snap.positions,
                snap.exchange_rate,
            );
            let collateral = if sf.remaining > 0 {
                collateral_for_shortfall(held.collateral, share, supply, payout, sf.remaining)?
            } else {
                0
            };
            actions = retraction_actions(&sf.retracted);
            if sf.redeem > 0 {
                actions.push(Action::RedeemStable { amount: sf.redeem });
            }
            let sent = if sf.recovered <= payout {
                sf.recovered
            } else {
                payout
            };
            if sent > 0 {
                actions.push(Action::SendStable { amount: sent });
            }
            if collateral > 0 {
                actions.push(Action::SendCollateralToSwapWallet { amount: collateral });
            }
            let free = if snap.collateral_balance > self.state.locked_b_luna {
                snap.collateral_balance - self.state.locked_b_luna
            } else {
                0
            };
            if collateral > free {
                unlocked = self.claims.force_release(collateral - free);
                self.state.locked_b_luna = self.state.locked_b_luna - unlocked;
            }
            proof {
                assert(actions@ =~= shortfall_actions(
                    retracted_indices(snap.positions@, shortfall_plan(payout as int, snap.stable_balance as int, snap.a_ust_balance as int, snap.positions@, snap.exchange_rate as int).0),
                    sf.redeem as int,
                    sent as int,
                    collateral as int,
                ));
            }
        }
        self.state.total_supply = supply - share;
        let _ = self.ledger.debit(&holder, share);
        Ok(WithdrawOutcome { payout, unlocked, actions })
    }

    /// Redeems `share` shares of `sender` for collateral at the value of
    /// `snap`. The payout is served from unlocked collateral only: where it
    /// exceeds the collateral not reserved against claims, the withdrawal
    /// fails as locked.
    pub fn withdraw_b_luna(
        &mut self,
        sender: &String,
        share: u128,
        last_deposit: Option<u64>,
        now: u64,
        snap: &NavSnapshot,
    ) -> (r: Result<WithdrawOutcome, ContractError>)
        requires
            old(self).wf(),
        ensures
            final(self).wf(),
            r is Err ==> *final(self) == *old(self),
            withdraw_gate(
                share,
                in_cooldown(last_deposit, now, old(self).state.withdraw_lock),
                old(self).ledger.balance_of(lower_of(sender@)),
            ) matches Some(e) ==> r == Err::<WithdrawOutcome, ContractError>(e),
            withdraw_gate(
                share,
                in_cooldown(last_deposit, now, old(self).state.withdraw_lock),
                old(self).ledger.balance_of(lower_of(sender@)),
            ) is None ==> (match collateral_cap_result(*snap) {
                Err(e) => r == Err::<WithdrawOutcome, ContractError>(e),
                Ok(cap) => match collateral_withdrawal(*old(self), share as int, *snap, cap) {
                    Err(e) => r == Err::<WithdrawOutcome, ContractError>(e),
                    Ok(p) => r matches Ok(o) && o.payout == p && o.unlocked == 0 && o.actions@ == seq![
                        Action::TransferCollateral { amount: p as u128 },
                    ],
                },
            }),
            r is Ok ==> final(self).state == (State {
                total_supply: (old(self).state.total_supply - share) as u128,
                ..old(self).state
            }),
            r is Ok ==> final(self).claims == old(self).claims,
            r is Ok ==> final(self).ledger.balance_of(lower_of(sender@)) == old(self).ledger.balance_of(
                lower_of(sender@),
            ) - share,
            r is Ok ==> forall|x: Seq<char>|
                x != lower_of(sender@) ==> final(self).ledger.balance_of(x) == old(self).ledger.balance_of(x),
    {
        self.check_withdrawal(sender, share, last_deposit, now)?;
        let holder = normalize(sender);
        proof {
            self.ledger.lemma_balance_le_total(holder@);
        }
        let cap = collateral_cap(snap)?;
        let supply = self.state.total_supply;
        proof {
            self.ledger.lemma_balance_le_total(holder@);
        }
        let payout = redeem_amount(share, cap, supply);
        if payout == 0 {
            return Err(ContractError::Insufficient {});
        }
        let locked = self.state.locked_b_luna;
        if snap.collateral_balance < locked || snap.collateral_balance - locked < payout {
            return Err(ContractError::Locked {});
        }
        self.state.total_supply = supply - share;
        let _ = self.ledger.debit(&holder, share);
        let mut actions: Vec<Action> = Vec::new();
        actions.push(Action::TransferCollateral { amount: payout });
        Ok(WithdrawOutcome { payout, unlocked: 0, actions })
    }
}

} // verus!
