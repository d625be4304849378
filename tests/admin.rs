use liquidation_vault::error::ContractError;
use liquidation_vault::operations::{
    instantiate, set_permission, submit_bid, ConfigChanges, InstantiateMsg, PermissionUpdate,
};
use liquidation_vault::vault::{Action, Permission, Vault};

fn vault_with(lock_period: Option<u64>) -> Vault {
    instantiate(InstantiateMsg {
        owner: "terra1owner".to_string(),
        swap_wallet: "terra1swap".to_string(),
        collateral_token: Some("terra1token".to_string()),
        price_oracle: None,
        astroport_router: None,
        anchor_market: None,
        a_ust: None,
        kujira_a_ust_vault: None,
        lock_period,
        withdraw_lock: Some(60),
    })
}

#[test]
fn instantiate_applies_defaults() {
    let v = vault_with(None);
    let c = v.query_config();
    assert_eq!(c.owner, "terra1owner");
    assert_eq!(c.collateral_token, "terra1token");
    assert_eq!(c.price_oracle, "terra1cgg6yef7qcdm070qftghfulaxmllgmvk77nc7t");
    assert_eq!(c.lock_period, 1_209_600);
    assert_eq!(c.withdraw_lock, 60);
    assert!(!c.paused);
    let i = v.query_info();
    assert_eq!((i.total_supply, i.locked_b_luna), (0, 0));
}

#[test]
fn bids_need_permission_and_balance() {
    let yes = Some(Permission { submit_bid: true });
    assert_eq!(submit_bid(None, 10, 100, 3), Err(ContractError::Unauthorized {}));
    assert_eq!(submit_bid(Some(Permission { submit_bid: false }), 10, 100, 3), Err(ContractError::Unauthorized {}));
    assert_eq!(submit_bid(yes, 0, 100, 3), Err(ContractError::Insufficient {}));
    assert_eq!(submit_bid(yes, 101, 100, 3), Err(ContractError::Insufficient {}));
    assert_eq!(submit_bid(yes, 100, 100, 3), Ok(Action::SubmitBid { amount: 100, premium_slot: 3 }));
}

#[test]
fn swap_only_unlocked_surplus() {
    let mut v = vault_with(None);
    assert_eq!(v.swap(25), Ok(Action::SwapCollateral { amount: 25 }));
    assert_eq!(v.swap(0), Err(ContractError::Insufficient {}));
    let positions = vec![liquidation_vault::positions::BidPosition {
        idx: 1,
        amount: 0,
        proxied_bid: Some(liquidation_vault::positions::ProxiedBid { amount: 0, pending_liquidated_collateral: 20 }),
    }];
    v.claim_liquidation(1, &positions).unwrap();
    assert_eq!(v.swap(25), Ok(Action::SwapCollateral { amount: 5 }));
    assert_eq!(v.swap(20), Err(ContractError::Insufficient {}));
}

#[test]
fn permissions_set_by_owner_only() {
    let v = vault_with(None);
    let owner = "TERRA1Owner".to_string();
    let grant = Permission { submit_bid: true };
    let revoke = Permission { submit_bid: false };
    assert_eq!(set_permission(&v.state, &"terra1bob".to_string(), None, grant), Err(ContractError::Unauthorized {}));
    assert_eq!(set_permission(&v.state, &owner, None, grant), Ok(PermissionUpdate::Save(grant)));
    assert_eq!(set_permission(&v.state, &owner, None, revoke), Err(ContractError::Invalidate {}));
    assert_eq!(set_permission(&v.state, &owner, Some(grant), grant), Err(ContractError::Invalidate {}));
    assert_eq!(set_permission(&v.state, &owner, Some(grant), revoke), Ok(PermissionUpdate::Remove));
}

#[test]
fn config_updates() {
    let mut v = vault_with(Some(100));
    let owner = "terra1owner".to_string();
    assert_eq!(
        v.update_config(&"terra1bob".to_string(), None, Some(true), None, None, None),
        Err(ContractError::Unauthorized {})
    );
    assert_eq!(
        v.update_config(&owner, Some("TERRA1OWNER".to_string()), Some(false), None, Some(100), None),
        Err(ContractError::Invalidate {})
    );
    let c = v
        .update_config(&owner, Some("Terra1NewOwner".to_string()), None, Some("terra1wallet".to_string()), Some(200), Some(60))
        .unwrap();
    assert_eq!(
        c,
        ConfigChanges { owner: true, paused: false, swap_wallet: true, lock_period: true, withdraw_lock: false }
    );
    let cfg = v.query_config();
    assert_eq!(cfg.owner, "terra1newowner");
    assert_eq!(cfg.swap_wallet, "terra1wallet");
    assert_eq!(cfg.lock_period, 200);
    assert_eq!(
        v.update_config(&owner, None, Some(true), None, None, None),
        Err(ContractError::Unauthorized {})
    );
}
