use vstd::prelude::*;

use crate::address::{lower_of, normalize};
use crate::claims::matured;
use crate::error::ContractError;
use crate::positions::{has_claimable, pending_of, BidPosition};
use crate::valuation::{total_cap, total_cap_result, NavSnapshot};
use crate::vault::{Permission, Vault};

verus! {

/// A request that changes the vault.
pub enum ExecuteMsg {
    Deposit {},
    WithdrawUst { share: u128 },
    WithdrawBLuna { share: u128 },
    SubmitBid { amount: u128, premium_slot: u8 },
    ClaimLiquidation {},
    Unlock {},
    Swap {},
    SetPermission { address: String, new_permission: Permission },
    UpdateConfig {
        owner: Option<String>,
        paused: Option<bool>,
        swap_wallet: Option<String>,
        lock_period: Option<u64>,
        withdraw_lock: Option<u64>,
    },
}

/// A read-only request.
pub enum QueryMsg {
    GetInfo {},
    Config {},
    Balance { address: String },
    TotalCap {},
    Claimable {},
    Permission { address: String },
    Unlockable {},
    LastDepositTimestamp { address: String },
}

/// Supply and locked collateral.
pub struct InfoResponse {
    pub total_supply: u128,
    pub locked_b_luna: u128,
}

/// The vault's configuration.
pub struct ConfigResponse {
    pub owner: String,
    pub paused: bool,
    pub swap_wallet: String,
    pub collateral_token: String,
    pub price_oracle: String,
    pub astroport_router: String,
    pub lock_period: u64,
    pub withdraw_lock: u64,
    pub anchor_market: String,
    pub a_ust: String,
    pub kujira_a_ust_vault: String,
}

/// The shares of one address.
pub struct BalanceResponse {
    pub balance: u128,
}

/// The vault's net asset value in stable asset.
pub struct TotalCapResponse {
    pub total_cap: u128,
}

/// Whether some position can be activated.
pub struct ActivatableResponse {
    pub activatable: bool,
}

/// Whether some position holds collateral to claim.
pub struct ClaimableResponse {
    pub claimable: bool,
}

/// The permission of one address.
pub struct PermissionResponse {
    pub permission: Permission,
}

/// Whether the oldest claim can be unlocked.
pub struct UnlockableResponse {
    pub unlockable: bool,
}

/// The time (nanoseconds) of an address's last deposit; zero for none.
pub struct TimestampResponse {
    pub timestamp: u64,
}

/// The level of cumulative loans at which a bid strategy acts.
pub struct CumulativeLoanAmount {
    pub ltv: u8,
    pub cumulative_value: u128,
}

/// When a proxied bid is activated and deactivated.
pub struct BidStrategy {
    pub activate_at: CumulativeLoanAmount,
    pub deactivate_at: CumulativeLoanAmount,
}

/// An asset on the swap route.
pub enum AssetInfo {
    Token { contract_addr: String },
    NativeToken { denom: String },
}

/// One hop of the swap route.
pub enum SwapOperation {
    NativeSwap { offer_denom: String, ask_denom: String },
    AstroSwap { offer_asset_info: AssetInfo, ask_asset_info: AssetInfo },
}

/// The strategy of every bid the vault places: activate and deactivate at
/// 99% loan-to-value, at a trillion and a hundred billion units of cumulative
/// loans.
pub fn bid_strategy() -> (r: BidStrategy)
    ensures
        r.activate_at.ltv == 99 && r.activate_at.cumulative_value == 1_000_000_000_000,
        r.deactivate_at.ltv == 99 && r.deactivate_at.cumulative_value == 100_000_000_000,
{
    BidStrategy {
        activate_at: CumulativeLoanAmount { ltv: 99, cumulative_value: 1_000_000_000_000 },
        deactivate_at: CumulativeLoanAmount { ltv: 99, cumulative_value: 100_000_000_000 },
    }
}

/// Whether any position holds collateral to claim.
pub fn query_claimable(positions: &Vec<BidPosition>) -> (r: ClaimableResponse)
    ensures
        r.claimable <==> exists|i: int| 0 <= i < positions@.len() && pending_of(#[trigger] positions@[i]) != 0,
{
    ClaimableResponse { claimable: has_claimable(positions) }
}

/// The permission of an address given its entry; no entry means none.
pub fn query_permission(entry: Option<Permission>) -> (r: PermissionResponse)
    ensures
        r.permission.submit_bid == (entry matches Some(p) && p.submit_bid),
{
    match entry {
        Some(p) => PermissionResponse { permission: p },
        None => PermissionResponse { permission: Permission { submit_bid: false } },
    }
}

/// The last deposit time given an address's entry; zero for none.
pub fn query_last_deposit_timestamp(entry: Option<u64>) -> (r: TimestampResponse)
    ensures
        r.timestamp == (match entry {
            Some(t) => t,
            None => 0,
        }),
{
    match entry {
        Some(t) => TimestampResponse { timestamp: t },
        None => TimestampResponse { timestamp: 0 },
    }
}

/// The vault's net asset value at `snap`.
pub fn query_total_cap(snap: &NavSnapshot) -> (r: Result<TotalCapResponse, ContractError>)
    ensures
        r matches Ok(t) ==> total_cap_result(*snap, 0) == Ok::<int, ContractError>(t.total_cap as int),
        r matches Err(e) ==> total_cap_result(*snap, 0) == Err::<int, ContractError>(e),
{
    let total_cap = total_cap(snap, 0)?;
    Ok(TotalCapResponse { total_cap })
}

impl Vault {
    /// Supply and locked collateral.
    pub fn query_info(&self) -> (r: InfoResponse)
        ensures
            r.total_supply == self.state.total_supply,
            r.locked_b_luna == self.state.locked_b_luna,
    {
        InfoResponse { total_supply: self.state.total_supply, locked_b_luna: self.state.locked_b_luna }
    }

    /// The vault's configuration.
    pub fn query_config(&self) -> (r: ConfigResponse)
        ensures
            r.owner == self.state.owner && r.paused == self.state.paused && r.swap_wallet
                == self.state.swap_wallet,
            r.collateral_token == self.state.collateral_token && r.price_oracle == self.state.price_oracle,
            r.astroport_router == self.state.astroport_router && r.anchor_market == self.state.anchor_market,
            r.a_ust == self.state.a_ust && r.kujira_a_ust_vault == self.state.kujira_a_ust_vault,
            r.lock_period == self.state.lock_period && r.withdraw_lock == self.state.withdraw_lock,
    {
        ConfigResponse {
            owner: self.state.owner.clone(),
            paused: self.state.paused,
            swap_wallet: self.state.swap_wallet.clone(),
            collateral_token: self.state.collateral_token.clone(),
            price_oracle: self.state.price_oracle.clone(),
            astroport_router: self.state.astroport_router.clone(),
            lock_period: self.state.lock_period,
            withdraw_lock: self.state.withdraw_lock,
            anchor_market: self.state.anchor_market.clone(),
            a_ust: self.state.a_ust.clone(),
            kujira_a_ust_vault: self.state.kujira_a_ust_vault.clone(),
        }
    }

    /// The shares held by `address`, compared without regard to case.
    pub fn query_balance(&self, address: &String) -> (r: BalanceResponse)
        requires
            self.wf(),
        ensures
            r.balance == self.ledger.balance_of(lower_of(address@)),
    {
        let holder = normalize(address);
        BalanceResponse { balance: self.ledger.balance(&holder) }
    }

    /// Whether the oldest claim's lock period has run out at `now`.
    pub fn query_unlockable(&self, now: u64) -> (r: UnlockableResponse)
        ensures
            r.unlockable <==> (self.claims@.len() > 0 && matured(self.claims@[0], now, self.state.lock_period)),
    {
        UnlockableResponse { unlockable: self.claims.unlockable(now, self.state.lock_period) }
    }
}

} // verus!
