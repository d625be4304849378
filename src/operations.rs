use vstd::prelude::*;

use crate::address::{lower_of, normalize, same_address};
use crate::claims::{matured, matured_prefix, sum_claims, ClaimEntry, ClaimQueue, TokenRecord};
use crate::error::ContractError;
use crate::ledger::ShareLedger;
use crate::positions::{claim_indices, claimable_positions, sum_pending, BidPosition};
use crate::vault::{Action, Permission, State, Vault};

verus! {

/// Seconds a claim stays locked unless configured otherwise (fourteen days).
pub const DEFAULT_LOCK_PERIOD: u64 = 1_209_600;

/// Seconds of withdrawal cooldown unless configured otherwise (one hour).
pub const DEFAULT_WITHDRAW_LOCK: u64 = 3600;

pub const DEFAULT_COLLATERAL_TOKEN: &'static str = "terra1kc87mu460fwkqte29rquh4hc20m54fxwtsx7gp";

pub const DEFAULT_PRICE_ORACLE: &'static str = "terra1cgg6yef7qcdm070qftghfulaxmllgmvk77nc7t";

pub const DEFAULT_ASTROPORT_ROUTER: &'static str = "terra16t7dpwwgx9n3lq6l6te3753lsjqwhxwpday9zx";

pub const DEFAULT_ANCHOR_MARKET: &'static str = "terra1sepfj7s0aeg5967uxnfk4thzlerrsktkpelm5s";

pub const DEFAULT_A_UST: &'static str = "terra1hzh9vpxhsk8253se0vv5jj6etdvxu3nv8z07zu";

pub const DEFAULT_KUJIRA_A_UST_VAULT: &'static str = "terra13nk2cjepdzzwfqy740pxzpe3x75pd6g0grxm2z";

/// The parameters a vault is created with; unset addresses and periods take
/// their defaults.
pub struct InstantiateMsg {
    pub owner: String,
    pub swap_wallet: String,
    pub collateral_token: Option<String>,
    pub price_oracle: Option<String>,
    pub astroport_router: Option<String>,
    pub anchor_market: Option<String>,
    pub a_ust: Option<String>,
    pub kujira_a_ust_vault: Option<String>,
    pub lock_period: Option<u64>,
    pub withdraw_lock: Option<u64>,
}

/// A collateral claim appended to the queue.
pub struct ClaimOutcome {
    /// The collateral claimed and locked.
    pub amount: u128,
    /// The key of the new claim record.
    pub key: u32,
    /// The positions whose collateral is claimed, in order.
    pub bids_idx: Vec<u64>,
}

/// How a permission entry changes.
#[derive(Debug, Clone, Copy, PartialEq, Eq, Structural)]
pub enum PermissionUpdate {
    /// The entry goes: the address holds no permission.
    Remove,
    /// The entry is set to the permission.
    Save(Permission),
}

/// Which configuration values an update changed.
#[derive(Debug, Clone, Copy, PartialEq, Eq, Structural)]
pub struct ConfigChanges {
    pub owner: bool,
    pub paused: bool,
    pub swap_wallet: bool,
    pub lock_period: bool,
    pub withdraw_lock: bool,
}

/// The address given, or the default where none is.
pub open spec fn addr_or(a: Option<String>, default: &str) -> Seq<char> {
    match a {
        Some(s) => s@,
        None => default@,
    }
}

/// A period given, or the default where none is.
pub open spec fn period_or(p: Option<u64>, default: u64) -> u64 {
    match p {
        Some(v) => v,
        None => default,
    }
}

/// Whether a permission entry grants the bid permission; no entry grants none.
pub open spec fn held(current: Option<Permission>) -> bool {
    match current {
        Some(p) => p.submit_bid,
        None => false,
    }
}

/// Whether a configuration update changes any value of `state`.
pub open spec fn changes_any(
    state: State,
    owner: Option<String>,
    paused: Option<bool>,
    swap_wallet: Option<String>,
    lock_period: Option<u64>,
    withdraw_lock: Option<u64>,
) -> bool {
    ||| (owner matches Some(o) && lower_of(o@) != state.owner@)
    ||| (paused matches Some(p) && p != state.paused)
    ||| (swap_wallet matches Some(w) && lower_of(w@) != state.swap_wallet@)
    ||| (lock_period matches Some(p) && p != state.lock_period)
    ||| (withdraw_lock matches Some(p) && p != state.withdraw_lock)
}

fn addr_or_default(a: Option<String>, default: &'static str) -> (r: String)
    ensures
        r@ == addr_or(a, default),
{
    match a {
        Some(s) => s,
        None => default.to_owned(),
    }
}

/// Creates an empty vault owned by `msg.owner`: no shares, no claims,
/// deposits open. The owner holds the permission to place bids.
pub fn instantiate(msg: InstantiateMsg) -> (r: Vault)
    ensures
        r.wf(),
        r.state.owner@ == msg.owner@,
        r.state.swap_wallet@ == msg.swap_wallet@,
        r.state.total_supply == 0,
        r.state.locked_b_luna == 0,
        !r.state.paused,
        r.state.collateral_token@ == addr_or(msg.collateral_token, DEFAULT_COLLATERAL_TOKEN),
        r.state.price_oracle@ == addr_or(msg.price_oracle, DEFAULT_PRICE_ORACLE),
        r.state.astroport_router@ == addr_or(msg.astroport_router, DEFAULT_ASTROPORT_ROUTER),
        r.state.anchor_market@ == addr_or(msg.anchor_market, DEFAULT_ANCHOR_MARKET),
        r.state.a_ust@ == addr_or(msg.a_ust, DEFAULT_A_UST),
        r.state.kujira_a_ust_vault@ == addr_or(msg.kujira_a_ust_vault, DEFAULT_KUJIRA_A_UST_VAULT),
        r.state.lock_period == period_or(msg.lock_period, DEFAULT_LOCK_PERIOD),
        r.state.withdraw_lock == period_or(msg.withdraw_lock, DEFAULT_WITHDRAW_LOCK),
        r.claims@.len() == 0,
        forall|h: Seq<char>| r.ledger.balance_of(h) == 0,
{
    let lock_period = match msg.lock_period {
        Some(v) => v,
        None => DEFAULT_LOCK_PERIOD,
    };
    let withdraw_lock = match msg.withdraw_lock {
        Some(v) => v,
        None => DEFAULT_WITHDRAW_LOCK,
    };
    let state = State {
        owner: msg.owner,
        total_supply: 0,
        locked_b_luna: 0,
        swap_wallet: msg.swap_wallet,
        paused: false,
        collateral_token: addr_or_default(msg.collateral_token, DEFAULT_COLLATERAL_TOKEN),
        price_oracle: addr_or_default(msg.price_oracle, DEFAULT_PRICE_ORACLE),
        astroport_router: addr_or_default(msg.astroport_router, DEFAULT_ASTROPORT_ROUTER),
        anchor_market: addr_or_default(msg.anchor_market, DEFAULT_ANCHOR_MARKET),
        a_ust: addr_or_default(msg.a_ust, DEFAULT_A_UST),
        kujira_a_ust_vault: addr_or_default(msg.kujira_a_ust_vault, DEFAULT_KUJIRA_A_UST_VAULT),
        lock_period,
        withdraw_lock,
    };
    let claims = ClaimQueue::new();
    proof {
        assert(sum_claims(claims@) == 0);
    }
    Vault { state, ledger: ShareLedger::new(), claims }
}

/// A bid request of `amount` at `premium_slot`: only a holder of the bid
/// permission may place it, and only for a non-zero amount that the direct
/// stable balance covers.
pub fn submit_bid(permission: Option<Permission>, amount: u128, stable_balance: u128, premium_slot: u8) -> (r: Result<
    Action,
    ContractError,
>)
    ensures
        !(permission matches Some(p) && p.submit_bid) ==> r == Err::<Action, ContractError>(
            ContractError::Unauthorized {},
        ),
        (permission matches Some(p) && p.submit_bid) && (amount == 0 || stable_balance < amount) ==> r
            == Err::<Action, ContractError>(ContractError::Insufficient {}),
        (permission matches Some(p) && p.submit_bid) && amount > 0 && stable_balance >= amount ==> r
            == Ok::<Action, ContractError>(Action::SubmitBid { amount, premium_slot }),
{
    let allowed = match permission {
        Some(p) => p.submit_bid,
        None => false,
    };
    if !allowed {
        return Err(ContractError::Unauthorized {});
    }
    if amount != 0 && stable_balance >= amount {
        Ok(Action::SubmitBid { amount, premium_slot })
    } else {
        Err(ContractError::Insufficient {})
    }
}

/// Sets the bid permission of an address, as asked by `sender`, who must
/// be the owner. `current` is the address's entry; no entry means no
/// permission. Asking for the permission the address already has is an
/// invalid request.
pub fn set_permission(
    state: &State,
    sender: &String,
    current: Option<Permission>,
    new_permission: Permission,
) -> (r: Result<PermissionUpdate, ContractError>)
    ensures
        lower_of(state.owner@) != lower_of(sender@) ==> r == Err::<PermissionUpdate, ContractError>(
            ContractError::Unauthorized {},
        ),
        lower_of(state.owner@) == lower_of(sender@) && held(current) == new_permission.submit_bid ==> r == Err::<PermissionUpdate, ContractError>(
            ContractError::Invalidate {},
        ),
        r is Ok ==> r == Ok::<PermissionUpdate, ContractError>(
            if new_permission.submit_bid {
                PermissionUpdate::Save(new_permission)
            } else {
                PermissionUpdate::Remove
            },
        ),
        lower_of(state.owner@) == lower_of(sender@) && held(current) != new_permission.submit_bid
            ==> r is Ok,
{
    if !same_address(&state.owner, sender) {
        return Err(ContractError::Unauthorized {});
    }
    let held = match current {
        Some(p) => p.submit_bid,
        None => false,
    };
    if held == new_permission.submit_bid {
        return Err(ContractError::Invalidate {});
    }
    if new_permission.submit_bid {
        Ok(PermissionUpdate::Save(new_permission))
    } else {
        Ok(PermissionUpdate::Remove)
    }
}

impl Vault {
    /// Claims the collateral pending in all positions: appends one claim
    /// record for its total, stamped `now`, and locks that much collateral.
    pub fn claim_liquidation(&mut self, now: u64, positions: &Vec<BidPosition>) -> (r: Result<
        ClaimOutcome,
        ContractError,
    >)
        requires
            old(self).wf(),
        ensures
            final(self).wf(),
            r is Err ==> *final(self) == *old(self),
            sum_pending(positions@) > u128::MAX ==> r == Err::<ClaimOutcome, ContractError>(
                ContractError::OverflowError {},
            ),
            sum_pending(positions@) == 0 ==> r == Err::<ClaimOutcome, ContractError>(
                ContractError::Insufficient {},
            ),
            0 < sum_pending(positions@) <= u128::MAX ==> (r is Ok <==> (old(self).claims.locked()
                + sum_pending(positions@) <= u128::MAX && (old(self).claims@.len() == 0
                || old(self).claims@.last().key < u32::MAX))),
            r matches Err(e) ==> (e == ContractError::OverflowError {} || e == ContractError::Insufficient {}),
            r matches Ok(o) ==> o.amount == sum_pending(positions@) && o.bids_idx@ == claim_indices(positions@),
            r matches Ok(o) ==> o.key == (if old(self).claims@.len() == 0 {
                0
            } else {
                old(self).claims@.last().key + 1
            }),
            r matches Ok(o) ==> final(self).claims@ == old(self).claims@.push(
                (ClaimEntry { key: o.key, record: TokenRecord { amount: o.amount, timestamp: now } }),
            ),
            r matches Ok(o) ==> final(self).state == (State {
                locked_b_luna: (old(self).state.locked_b_luna + o.amount) as u128,
                ..old(self).state
            }),
            r is Ok ==> final(self).ledger == old(self).ledger,
    {
        let (amount, bids_idx) = claimable_positions(positions)?;
        if amount == 0 {
            return Err(ContractError::Insufficient {});
        }
        let key = self.claims.append(amount, now)?;
        self.state.locked_b_luna = self.state.locked_b_luna + amount;
        Ok(ClaimOutcome { amount, key, bids_idx })
    }

    /// Releases the claims whose lock period has run out at `now`, oldest
    /// first, stopping at the first one still locked, and returns the
    /// collateral released. Fails as insufficient where the oldest claim is
    /// still locked or there is none.
    pub fn unlock(&mut self, now: u64) -> (r: Result<u128, ContractError>)
        requires
            old(self).wf(),
        ensures
            final(self).wf(),
            r is Err <==> !(old(self).claims@.len() > 0 && matured(
                old(self).claims@[0],
                now,
                old(self).state.lock_period,
            )),
            r is Err ==> *final(self) == *old(self),
            r matches Err(e) ==> (e == ContractError::Insufficient {}),
            r matches Ok(v) ==> exists|k: int|
                matured_prefix(old(self).claims@, k, now, old(self).state.lock_period)
                    && final(self).claims@ == old(self).claims@.skip(k) && v == sum_claims(
                    old(self).claims@.take(k),
                ),
            r matches Ok(v) ==> final(self).state == (State {
                locked_b_luna: (old(self).state.locked_b_luna - v) as u128,
                ..old(self).state
            }),
            r is Ok ==> final(self).ledger == old(self).ledger,
    {
        if !self.claims.unlockable(now, self.state.lock_period) {
            return Err(ContractError::Insufficient {});
        }
        let released = self.claims.unlock_matured(now, self.state.lock_period);
        self.state.locked_b_luna = self.state.locked_b_luna - released;
        Ok(released)
    }

    /// Swaps the collateral not reserved against claims for stable asset;
    /// fails as insufficient where there is none.
    pub fn swap(&self, collateral_balance: u128) -> (r: Result<Action, ContractError>)
        ensures
            collateral_balance > self.state.locked_b_luna ==> r == Ok::<Action, ContractError>(
                Action::SwapCollateral { amount: (collateral_balance - self.state.locked_b_luna) as u128 },
            ),
            collateral_balance <= self.state.locked_b_luna ==> r == Err::<Action, ContractError>(
                ContractError::Insufficient {},
            ),
    {
        if collateral_balance > self.state.locked_b_luna {
            Ok(Action::SwapCollateral { amount: collateral_balance - self.state.locked_b_luna })
        } else {
            Err(ContractError::Insufficient {})
        }
    }

    /// Updates the configuration as asked by `sender`, who must be the owner.
    /// Each value given that differs from the current one is set (addresses
    /// in lowercase); a request that changes nothing is invalid.
    pub fn update_config(
        &mut self,
        sender: &String,
        owner: Option<String>,
        paused: Option<bool>,
        swap_wallet: Option<String>,
        lock_period: Option<u64>,
        withdraw_lock: Option<u64>,
    ) -> (r: Result<ConfigChanges, ContractError>)
        requires
            old(self).wf(),
        ensures
            final(self).wf(),
            r is Err ==> *final(self) == *old(self),
            lower_of(old(self).state.owner@) != lower_of(sender@) ==> r == Err::<
                ConfigChanges,
                ContractError,
            >(ContractError::Unauthorized {}),
            lower_of(old(self).state.owner@) == lower_of(sender@) ==> (r is Ok || r == Err::<
                ConfigChanges,
                ContractError,
            >(ContractError::Invalidate {})),
            r matches Ok(c) ==> c.owner == (owner matches Some(o) && lower_of(o@) != old(self).state.owner@),
            r matches Ok(c) ==> c.paused == (paused matches Some(p) && p != old(self).state.paused),
            r matches Ok(c) ==> c.swap_wallet == (swap_wallet matches Some(w) && lower_of(w@)
                != old(self).state.swap_wallet@),
            r matches Ok(c) ==> c.lock_period == (lock_period matches Some(p) && p
                != old(self).state.lock_period),
            r matches Ok(c) ==> c.withdraw_lock == (withdraw_lock matches Some(p) && p
                != old(self).state.withdraw_lock),
            lower_of(old(self).state.owner@) == lower_of(sender@) ==> (r is Ok <==> changes_any(
                old(self).state,
                owner,
                paused,
                swap_wallet,
                lock_period,
                withdraw_lock,
            )),
            r matches Ok(c) ==> final(self).state.owner@ == (if c.owner {
                lower_of(owner->Some_0@)
            } else {
                old(self).state.owner@
            }),
            r matches Ok(c) ==> final(self).state.swap_wallet@ == (if c.swap_wallet {
                lower_of(swap_wallet->Some_0@)
            } else {
                old(self).state.swap_wallet@
            }),
            r matches Ok(c) ==> final(self).state.paused == (if c.paused {
                paused->Some_0
            } else {
                old(self).state.paused
            }),
            r matches Ok(c) ==> final(self).state.lock_period == (if c.lock_period {
                lock_period->Some_0
            } else {
                old(self).state.lock_period
            }),
            r matches Ok(c) ==> final(self).state.withdraw_lock == (if c.withdraw_lock {
                withdraw_lock->Some_0
            } else {
                old(self).state.withdraw_lock
            }),
            r is Ok ==> final(self).state.total_supply == old(self).state.total_supply
                && final(self).state.locked_b_luna == old(self).state.locked_b_luna
                && final(self).state.collateral_token == old(self).state.collateral_token
                && final(self).state.price_oracle == old(self).state.price_oracle
                && final(self).state.astroport_router == old(self).state.astroport_router
                && final(self).state.anchor_market == old(self).state.anchor_market
                && final(self).state.a_ust == old(self).state.a_ust
                && final(self).state.kujira_a_ust_vault == old(self).state.kujira_a_ust_vault,
            r is Ok ==> final(self).ledger == old(self).ledger && final(self).claims == old(self).claims,
    {
        if !same_address(&self.state.owner, sender) {
            return Err(ContractError::Unauthorized {});
        }
        let mut changes = ConfigChanges {
            owner: false,
            paused: false,
            swap_wallet: false,
            lock_period: false,
            withdraw_lock: false,
        };
        let mut new_owner: Option<String> = None;
        if let Some(o) = &owner {
            let lo = normalize(o);
            if !(lo == self.state.owner) {
                new_owner = Some(lo);
                changes.owner = true;
            }
        }
        let mut new_wallet: Option<String> = None;
        if let Some(w) = &swap_wallet {
            let lw = normalize(w);
            if !(lw == self.state.swap_wallet) {
                new_wallet = Some(lw);
                changes.swap_wallet = true;
            }
        }
        if let Some(p) = paused {
            changes.paused = p != self.state.paused;
        }
        if let Some(p) = lock_period {
            changes.lock_period = p != self.state.lock_period;
        }
        if let Some(p) = withdraw_lock {
            changes.withdraw_lock = p != self.state.withdraw_lock;
        }
        if !(changes.owner || changes.paused || changes.swap_wallet || changes.lock_period
            || changes.withdraw_lock) {
            return Err(ContractError::Invalidate {});
        }
        if let Some(o) = new_owner {
            self.state.owner = o;
        }
        if let Some(w) = new_wallet {
            self.state.swap_wallet = w;
        }
        if changes.paused {
            if let Some(p) = paused {
                self.state.paused = p;
            }
        }
        if changes.lock_period {
            if let Some(p) = lock_period {
                self.state.lock_period = p;
            }
        }
        if changes.withdraw_lock {
            if let Some(p) = withdraw_lock {
                self.state.withdraw_lock = p;
            }
        }
        Ok(changes)
    }
}

} // verus!
