use vstd::prelude::*;

use crate::address::{lower_of, normalize};
use crate::claims::{unlocks_at, ClaimQueue};
use crate::error::ContractError;
use crate::ledger::ShareLedger;
use crate::valuation::{minted_shares, shares_to_mint, total_cap, total_cap_result, NavSnapshot};

verus! {

/// The denomination of the stable asset.
pub const STABLE_DENOM: &'static str = "uusd";

/// The vault's configuration and bookkeeping.
pub struct State {
    pub owner: String,
    /// Shares outstanding.
    pub total_supply: u128,
    /// Collateral reserved against pending claims.
    pub locked_b_luna: u128,
    /// The wallet that swaps collateral paid out on a stable withdrawal.
    pub swap_wallet: String,
    /// Whether deposits are disabled.
    pub paused: bool,
    pub collateral_token: String,
    pub price_oracle: String,
    pub astroport_router: String,
    pub anchor_market: String,
    pub a_ust: String,
    pub kujira_a_ust_vault: String,
    /// Seconds a claim stays locked.
    pub lock_period: u64,
    /// Seconds after a deposit before its depositor may withdraw.
    pub withdraw_lock: u64,
}

/// An amount of one native asset.
pub struct Coin {
    pub denom: String,
    pub amount: u128,
}

/// What an address may do beyond holding shares.
#[derive(Debug, Clone, Copy, PartialEq, Eq, Structural)]
pub struct Permission {
    /// May place bids in the external queue.
    pub submit_bid: bool,
}

/// An instruction for the runtime to carry out once the current invocation
/// has returned. Amounts are in the asset the instruction moves.
#[derive(Debug, Clone, Copy, PartialEq, Eq, Structural)]
pub enum Action {
    /// Deposit stable asset into the yield market.
    DepositStable { amount: u128 },
    /// Send stable asset to the requester.
    SendStable { amount: u128 },
    /// Retract the position with this index from the external queue.
    RetractBid { bid_idx: u64 },
    /// Redeem yield tokens for stable asset.
    RedeemStable { amount: u128 },
    /// Send collateral to the swap wallet, for the requester's benefit.
    SendCollateralToSwapWallet { amount: u128 },
    /// Transfer collateral to the requester.
    TransferCollateral { amount: u128 },
    /// Place a bid of yield tokens in the external queue.
    SubmitBid { amount: u128, premium_slot: u8 },
    /// Swap collateral for stable asset through the swap route.
    SwapCollateral { amount: u128 },
}

/// What a deposit did.
#[derive(Debug, Clone, Copy, PartialEq, Eq, Structural)]
pub enum DepositOutcome {
    /// No funds came with the call: the idle stable balance goes to the
    /// yield market.
    Swept { amount: u128 },
    /// `amount` was deposited for `share` new shares; the depositor's last
    /// deposit time becomes now, and `forwarded` stable asset goes to the
    /// yield market.
    Minted { amount: u128, share: u128, forwarded: u128 },
}

/// The pooled fund: configuration, share balances and the claim queue.
pub struct Vault {
    pub state: State,
    pub ledger: ShareLedger,
    pub claims: ClaimQueue,
}

/// Whether the funds sent with a deposit are a single non-zero amount of the
/// stable asset.
pub open spec fn valid_funds(funds: Seq<Coin>) -> bool {
    funds.len() == 1 && funds[0].denom@ == STABLE_DENOM@ && funds[0].amount > 0
}

/// What a deposit of `amount` mints, or the first failure on the way: the
/// valuation excludes the deposit itself, and the new supply must fit.
pub open spec fn deposit_share_result(snap: NavSnapshot, amount: int, supply: int) -> Result<int, ContractError> {
    match total_cap_result(snap, amount) {
        Err(e) => Err(e),
        Ok(cap) => if supply > 0 && cap == 0 {
            Err(ContractError::DivideByZeroError {})
        } else if supply + minted_shares(amount, supply, cap) > u128::MAX {
            Err(ContractError::OverflowError {})
        } else {
            Ok(minted_shares(amount, supply, cap))
        },
    }
}

/// Whether a holder whose last deposit was at `last` is still in the
/// withdrawal cooldown at `now`.
pub open spec fn in_cooldown(last: Option<u64>, now: u64, withdraw_lock: u64) -> bool {
    match last {
        Some(t) => now < unlocks_at(t, withdraw_lock),
        None => false,
    }
}

impl Vault {
    /// Supply equals the sum of all balances, and the locked collateral
    /// equals the sum of all claims.
    pub open spec fn wf(&self) -> bool {
        &&& self.ledger.wf()
        &&& self.claims.wf()
        &&& self.state.total_supply == self.ledger.total()
        &&& self.state.locked_b_luna == self.claims.locked()
    }

    /// The vault of the given parts, provided they agree: the supply is the
    /// sum of the balances and the locked collateral the sum of the claims.
    pub fn restore(state: State, ledger: ShareLedger, claims: ClaimQueue) -> (r: Option<Vault>)
        requires
            ledger.wf(),
            claims.wf(),
        ensures
            r is Some <==> (state.total_supply == ledger.total() && state.locked_b_luna == claims.locked()),
            r matches Some(v) ==> v.wf() && v.state == state && v.ledger == ledger && v.claims == claims,
    {
        if ledger.total_shares() != state.total_supply || claims.total() != state.locked_b_luna {
            return None;
        }
        Some(Vault { state, ledger, claims })
    }

    /// Whether the cooldown since `sender`'s last deposit has run out.
    pub fn cooldown_active(&self, last: Option<u64>, now: u64) -> (r: bool)
        ensures
            r == in_cooldown(last, now, self.state.withdraw_lock),
    {
        match last {
            Some(t) => (now as u128) < (t as u128) + (self.state.withdraw_lock as u128)
                * crate::claims::NANOS_PER_SECOND,
            None => false,
        }
    }

    /// The checks a deposit makes before anything is valued: deposits are
    /// open, and funds, where any are sent, are a single non-zero amount of
    /// the stable asset.
    pub fn check_deposit(&self, funds: &Vec<Coin>) -> (r: Result<(), ContractError>)
        ensures
            self.state.paused ==> r == Err::<(), ContractError>(ContractError::Paused {}),
            !self.state.paused && funds@.len() > 0 && !valid_funds(funds@) ==> r == Err::<
                (),
                ContractError,
            >(ContractError::Invalidate {}),
            !self.state.paused && (funds@.len() == 0 || valid_funds(funds@)) ==> r == Ok::<
                (),
                ContractError,
            >(()),
    {
        if self.state.paused {
            return Err(ContractError::Paused {});
        }
        if funds.len() > 0 && (funds.len() != 1 || !(funds[0].denom == STABLE_DENOM.to_owned())
            || funds[0].amount == 0) {
            return Err(ContractError::Invalidate {});
        }
        Ok(())
    }

    /// Deposits the funds sent with the call for new shares, valued against
    /// `snap` with the funds themselves excluded. Without funds, the idle
    /// stable balance is swept into the yield market instead.
    pub fn deposit(&mut self, sender: &String, funds: &Vec<Coin>, snap: &NavSnapshot) -> (r: Result<
        DepositOutcome,
        ContractError,
    >)
        requires
            old(self).wf(),
        ensures
            final(self).wf(),
            r is Err ==> *final(self) == *old(self),
            old(self).state.paused ==> r == Err::<DepositOutcome, ContractError>(ContractError::Paused {}),
            !old(self).state.paused && funds@.len() == 0 && snap.stable_balance == 0 ==> r == Err::<
                DepositOutcome,
                ContractError,
            >(ContractError::Insufficient {}),
            !old(self).state.paused && funds@.len() == 0 && snap.stable_balance > 0 ==> r == Ok::<
                DepositOutcome,
                ContractError,
            >(DepositOutcome::Swept { amount: snap.stable_balance }),
            !old(self).state.paused && funds@.len() > 0 && !valid_funds(funds@) ==> r == Err::<
                DepositOutcome,
                ContractError,
            >(ContractError::Invalidate {}),
            r is Ok ==> final(self).claims == old(self).claims,
            r matches Ok(DepositOutcome::Swept { amount }) ==> *final(self) == *old(self),
            !old(self).state.paused && valid_funds(funds@) ==> (match deposit_share_result(
                *snap,
                funds@[0].amount as int,
                old(self).state.total_supply as int,
            ) {
                Err(e) => r == Err::<DepositOutcome, ContractError>(e),
                Ok(m) => r == Ok::<DepositOutcome, ContractError>(
                    DepositOutcome::Minted {
                        amount: funds@[0].amount,
                        share: m as u128,
                        forwarded: snap.stable_balance,
                    },
                ),
            }),
            r matches Ok(DepositOutcome::Minted { amount, share, forwarded }) ==> {
                &&& final(self).state == (State {
                    total_supply: (old(self).state.total_supply + share) as u128,
                    ..old(self).state
                })
                &&& final(self).ledger.balance_of(lower_of(sender@)) == old(self).ledger.balance_of(
                    lower_of(sender@),
                ) + share
                &&& forall|x: Seq<char>|
                    x != lower_of(sender@) ==> final(self).ledger.balance_of(x)
                        == old(self).ledger.balance_of(x)
            },
    {
        self.check_deposit(funds)?;
        if funds.len() == 0 {
            if snap.stable_balance == 0 {
                return Err(ContractError::Insufficient {});
            }
            return Ok(DepositOutcome::Swept { amount: snap.stable_balance });
        }
        let amount = funds[0].amount;
        let cap = total_cap(snap, amount)?;
        let supply = self.state.total_supply;
        let share = shares_to_mint(amount, supply, cap)?;
        if share > u128::MAX - supply {
            return Err(ContractError::OverflowError {});
        }
        let holder = normalize(sender);
        self.state.total_supply = supply + share;
        self.ledger.credit(&holder, share);
        Ok(DepositOutcome::Minted { amount, share, forwarded: snap.stable_balance })
    }
}

} // verus!
