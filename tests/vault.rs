use liquidation_vault::claims::{ClaimEntry, ClaimQueue, TokenRecord};
use liquidation_vault::error::ContractError;
use liquidation_vault::ledger::ShareLedger;
use liquidation_vault::operations::{instantiate, InstantiateMsg};
use liquidation_vault::positions::{BidPosition, ProxiedBid};
use liquidation_vault::valuation::NavSnapshot;
use liquidation_vault::vault::{Action, Coin, DepositOutcome, Vault};

const ONE: u128 = 1_000_000_000_000_000_000;
const SECOND: u64 = 1_000_000_000;

fn new_vault() -> Vault {
    instantiate(InstantiateMsg {
        owner: "terra1owner".to_string(),
        swap_wallet: "terra1swap".to_string(),
        collateral_token: None,
        price_oracle: None,
        astroport_router: None,
        anchor_market: None,
        a_ust: None,
        kujira_a_ust_vault: None,
        lock_period: None,
        withdraw_lock: None,
    })
}

fn snapshot(stable: u128, a_ust: u128, collateral: u128, positions: Vec<BidPosition>) -> NavSnapshot {
    NavSnapshot {
        stable_balance: stable,
        a_ust_balance: a_ust,
        collateral_balance: collateral,
        positions,
        exchange_rate: ONE,
        price: 10 * ONE,
    }
}

fn uusd(amount: u128) -> Vec<Coin> {
    vec![Coin { denom: "uusd".to_string(), amount }]
}

fn pending(idx: u64, collateral: u128) -> BidPosition {
    BidPosition {
        idx,
        amount: 0,
        proxied_bid: Some(ProxiedBid { amount: 0, pending_liquidated_collateral: collateral }),
    }
}

fn funded_vault(holder: &str, amount: u128) -> Vault {
    let mut v = new_vault();
    let r = v.deposit(&holder.to_string(), &uusd(amount), &snapshot(amount, 0, 0, vec![]));
    assert!(matches!(r, Ok(DepositOutcome::Minted { .. })));
    v
}

#[test]
fn concrete_deposit_cooldown_and_withdrawal() {
    let mut v = new_vault();
    let alice = "terra1alice".to_string();
    let r = v.deposit(&alice, &uusd(1_000_000), &snapshot(1_000_000, 0, 0, vec![]));
    assert_eq!(
        r,
        Ok(DepositOutcome::Minted { amount: 1_000_000, share: 1_000_000, forwarded: 1_000_000 })
    );
    assert_eq!(v.query_balance(&alice).balance, 1_000_000);
    assert_eq!(v.state.total_supply, 1_000_000);

    let t = 5_000 * SECOND;
    let snap = snapshot(1_000_000, 0, 0, vec![]);
    let early = v.withdraw_ust(&alice, 1_000_000, Some(t), t, &snap);
    assert_eq!(early.err(), Some(ContractError::Locked {}));
    assert_eq!(v.state.total_supply, 1_000_000);

    let later = t + 3_600 * SECOND;
    let o = v.withdraw_ust(&alice, 500_000, Some(t), later, &snap).unwrap();
    assert_eq!(o.payout, 500_000);
    assert_eq!(o.unlocked, 0);
    assert_eq!(o.actions, vec![Action::SendStable { amount: 500_000 }]);
    assert_eq!(v.state.total_supply, 500_000);
    assert_eq!(v.query_balance(&alice).balance, 500_000);
}

#[test]
fn first_deposit_mints_its_amount() {
    let mut v = new_vault();
    let snap = snapshot(5_700, 40, 3, vec![]);
    let r = v.deposit(&"terra1bob".to_string(), &uusd(700), &snap);
    assert_eq!(r, Ok(DepositOutcome::Minted { amount: 700, share: 700, forwarded: 5_700 }));
    assert_eq!(v.state.total_supply, 700);
}

#[test]
fn equal_deposits_mint_equal_shares() {
    let mut v = funded_vault("terra1alice", 1_000);
    // 1000 shares worth 1500 before the next deposit
    let first = v.deposit(&"terra1bob".to_string(), &uusd(300), &snapshot(1_800, 0, 0, vec![]));
    assert_eq!(first, Ok(DepositOutcome::Minted { amount: 300, share: 200, forwarded: 1_800 }));
    let second = v.deposit(&"terra1carol".to_string(), &uusd(300), &snapshot(2_100, 0, 0, vec![]));
    assert_eq!(second, Ok(DepositOutcome::Minted { amount: 300, share: 200, forwarded: 2_100 }));
    assert_eq!(v.state.total_supply, 1_400);
}

#[test]
fn share_supply_equals_sum_of_balances() {
    let mut v = funded_vault("terra1alice", 1_000);
    let bob = "terra1bob".to_string();
    v.deposit(&bob, &uusd(500), &snapshot(1_500, 0, 0, vec![])).unwrap();
    v.deposit(&"TERRA1ALICE".to_string(), &uusd(250), &snapshot(1_750, 0, 0, vec![])).unwrap();
    v.withdraw_ust(&bob, 200, None, 0, &snapshot(1_750, 0, 0, vec![])).unwrap();
    let total: u128 = v.ledger.shares().iter().sum();
    assert_eq!(total, v.state.total_supply);
    assert_eq!(v.state.total_supply, 1_550);
    assert_eq!(v.query_balance(&"terra1alice".to_string()).balance, 1_250);
    assert_eq!(v.query_balance(&bob).balance, 300);
}

#[test]
fn cooldown_boundary() {
    let alice = "terra1alice".to_string();
    let last = 10_000 * SECOND;
    let snap = snapshot(1_000, 0, 0, vec![]);
    let mut v = funded_vault("terra1alice", 1_000);
    let just_before = last + 3_600 * SECOND - 1;
    assert_eq!(v.withdraw_ust(&alice, 10, Some(last), just_before, &snap).err(), Some(ContractError::Locked {}));
    assert_eq!(v.withdraw_b_luna(&alice, 10, Some(last), just_before, &snap).err(), Some(ContractError::Locked {}));
    let at = last + 3_600 * SECOND;
    let o = v.withdraw_ust(&alice, 10, Some(last), at, &snap).unwrap();
    assert_eq!(o.payout, 10);
}

#[test]
fn withdraw_rejects_zero_share_and_excess() {
    let alice = "terra1alice".to_string();
    let snap = snapshot(1_000, 0, 0, vec![]);
    let mut v = funded_vault("terra1alice", 1_000);
    assert_eq!(v.withdraw_ust(&alice, 0, None, 0, &snap).err(), Some(ContractError::Invalidate {}));
    assert_eq!(v.withdraw_ust(&alice, 1_001, None, 0, &snap).err(), Some(ContractError::OverflowError {}));
    assert_eq!(
        v.withdraw_ust(&"terra1mallory".to_string(), 1, None, 0, &snap).err(),
        Some(ContractError::OverflowError {})
    );
    assert_eq!(v.state.total_supply, 1_000);
}

#[test]
fn zero_payout_is_insufficient() {
    let alice = "terra1alice".to_string();
    let mut v = funded_vault("terra1alice", 1_000);
    let r = v.withdraw_ust(&alice, 1, None, 0, &snapshot(999, 0, 0, vec![]));
    assert_eq!(r.err(), Some(ContractError::Insufficient {}));
    assert_eq!(v.query_balance(&alice).balance, 1_000);
}

#[test]
fn yield_redemption_covers_shortfall_without_retraction() {
    let alice = "terra1alice".to_string();
    let mut v = funded_vault("terra1alice", 1_000);
    let positions = vec![
        BidPosition { idx: 7, amount: 50, proxied_bid: Some(ProxiedBid { amount: 30, pending_liquidated_collateral: 0 }) },
        BidPosition { idx: 9, amount: 100, proxied_bid: None },
        BidPosition { idx: 12, amount: 200, proxied_bid: None },
    ];
    let mut snap = snapshot(100, 100, 0, positions);
    snap.price = ONE;
    let o = v.withdraw_ust(&alice, 300, None, 0, &snap).unwrap();
    assert_eq!(o.payout, 174);
    assert_eq!(
        o.actions,
        vec![Action::RedeemStable { amount: 100 }, Action::SendStable { amount: 174 }]
    );
}

#[test]
fn shortfall_retracts_minimal_positions() {
    let alice = "terra1alice".to_string();
    let mut v = funded_vault("terra1alice", 1_000);
    let positions = vec![
        BidPosition { idx: 7, amount: 50, proxied_bid: Some(ProxiedBid { amount: 30, pending_liquidated_collateral: 0 }) },
        BidPosition { idx: 9, amount: 100, proxied_bid: None },
        BidPosition { idx: 12, amount: 200, proxied_bid: None },
    ];
    let mut snap = snapshot(100, 100, 0, positions);
    snap.price = ONE;
    let o = v.withdraw_ust(&alice, 500, None, 0, &snap).unwrap();
    assert_eq!(o.payout, 290);
    assert_eq!(
        o.actions,
        vec![
            Action::RetractBid { bid_idx: 7 },
            Action::RetractBid { bid_idx: 9 },
            Action::RedeemStable { amount: 160 },
            Action::SendStable { amount: 290 },
        ]
    );
    assert_eq!(v.state.total_supply, 500);
}

#[test]
fn shortfall_pays_collateral_and_forces_unlock() {
    let alice = "terra1alice".to_string();
    let mut v = funded_vault("terra1alice", 1_000);
    let t1 = 100 * SECOND;
    let t2 = 200 * SECOND;
    v.claim_liquidation(t1, &vec![pending(1, 25)]).unwrap();
    v.claim_liquidation(t2, &vec![pending(2, 15)]).unwrap();
    assert_eq!(v.state.locked_b_luna, 40);
    let snap = snapshot(100, 0, 50, vec![]);
    let o = v.withdraw_ust(&alice, 500, None, 300 * SECOND, &snap).unwrap();
    assert_eq!(o.payout, 300);
    assert_eq!(
        o.actions,
        vec![Action::SendStable { amount: 100 }, Action::SendCollateralToSwapWallet { amount: 19 }]
    );
    assert_eq!(o.unlocked, 9);
    assert_eq!(v.state.locked_b_luna, 31);
    let claims = v.claims.entries();
    assert_eq!(claims.len(), 2);
    assert_eq!(claims[0].key, 0);
    assert_eq!(claims[0].record.amount, 16);
    assert_eq!(claims[0].record.timestamp, t1);
    assert_eq!(claims[1].record.amount, 15);
    assert_eq!(v.state.total_supply, 500);
}

#[test]
fn collateral_withdrawal_from_unlocked_float() {
    let alice = "terra1alice".to_string();
    let mut v = funded_vault("terra1alice", 1_000);
    let snap = snapshot(100, 0, 50, vec![]);
    let o = v.withdraw_b_luna(&alice, 500, None, 0, &snap).unwrap();
    assert_eq!(o.payout, 30);
    assert_eq!(o.actions, vec![Action::TransferCollateral { amount: 30 }]);
    assert_eq!(v.state.total_supply, 500);
}

#[test]
fn collateral_withdrawal_beyond_float_is_locked() {
    let alice = "terra1alice".to_string();
    let mut v = funded_vault("terra1alice", 1_000);
    v.claim_liquidation(SECOND, &vec![pending(1, 40)]).unwrap();
    let snap = snapshot(100, 0, 50, vec![]);
    assert_eq!(v.withdraw_b_luna(&alice, 500, None, 0, &snap).err(), Some(ContractError::Locked {}));
    assert_eq!(v.state.total_supply, 1_000);
    assert_eq!(v.state.locked_b_luna, 40);
}

#[test]
fn collateral_withdrawal_needs_a_price() {
    let alice = "terra1alice".to_string();
    let mut v = funded_vault("terra1alice", 1_000);
    let mut snap = snapshot(100, 0, 50, vec![]);
    snap.price = 0;
    assert_eq!(
        v.withdraw_b_luna(&alice, 500, None, 0, &snap).err(),
        Some(ContractError::DivideByZeroError {})
    );
}

#[test]
fn unlock_releases_claims_in_order() {
    let mut v = funded_vault("terra1alice", 1_000);
    let t1 = 1_000 * SECOND;
    let t2 = 2_000 * SECOND;
    let t3 = 3_000 * SECOND;
    v.claim_liquidation(t1, &vec![pending(1, 10)]).unwrap();
    v.claim_liquidation(t2, &vec![pending(2, 20)]).unwrap();
    v.claim_liquidation(t3, &vec![pending(3, 30)]).unwrap();
    assert_eq!(v.state.locked_b_luna, 60);
    let now = t2 + 1_209_600 * SECOND;
    assert!(v.query_unlockable(now).unlockable);
    assert_eq!(v.unlock(now), Ok(30));
    assert_eq!(v.state.locked_b_luna, 30);
    let claims = v.claims.entries();
    assert_eq!(claims.len(), 1);
    assert_eq!(claims[0].key, 2);
    assert_eq!(claims[0].record.timestamp, t3);
    assert_eq!(v.unlock(now), Err(ContractError::Insufficient {}));
    assert!(!v.query_unlockable(now).unlockable);
}

#[test]
fn unlock_before_lock_period_is_insufficient() {
    let mut v = funded_vault("terra1alice", 1_000);
    v.claim_liquidation(SECOND, &vec![pending(1, 10)]).unwrap();
    assert_eq!(v.unlock(SECOND + 1_209_600 * SECOND - 1), Err(ContractError::Insufficient {}));
    assert_eq!(v.state.locked_b_luna, 10);
}

#[test]
fn claim_collects_pending_positions() {
    let mut v = funded_vault("terra1alice", 1_000);
    let positions = vec![
        pending(4, 7),
        BidPosition { idx: 5, amount: 9, proxied_bid: None },
        pending(6, 0),
        pending(8, 5),
    ];
    let o = v.claim_liquidation(SECOND, &positions).unwrap();
    assert_eq!(o.amount, 12);
    assert_eq!(o.key, 0);
    assert_eq!(o.bids_idx, vec![4, 8]);
    let o2 = v.claim_liquidation(2 * SECOND, &vec![pending(9, 1)]).unwrap();
    assert_eq!(o2.key, 1);
    assert_eq!(v.state.locked_b_luna, 13);
    assert_eq!(
        v.claim_liquidation(3 * SECOND, &vec![pending(4, 0)]).err(),
        Some(ContractError::Insufficient {})
    );
}

#[test]
fn deposit_errors() {
    let alice = "terra1alice".to_string();
    let mut v = funded_vault("terra1alice", 1_000);
    let wrong = vec![Coin { denom: "uluna".to_string(), amount: 5 }];
    assert_eq!(v.deposit(&alice, &wrong, &snapshot(1_000, 0, 0, vec![])), Err(ContractError::Invalidate {}));
    assert_eq!(v.deposit(&alice, &uusd(0), &snapshot(1_000, 0, 0, vec![])), Err(ContractError::Invalidate {}));
    let two = vec![Coin { denom: "uusd".to_string(), amount: 5 }, Coin { denom: "uusd".to_string(), amount: 5 }];
    assert_eq!(v.deposit(&alice, &two, &snapshot(1_000, 0, 0, vec![])), Err(ContractError::Invalidate {}));
    // shares outstanding but nothing of value besides the deposit itself
    assert_eq!(v.deposit(&alice, &uusd(100), &snapshot(100, 0, 0, vec![])), Err(ContractError::DivideByZeroError {}));
    let huge = snapshot(100, 0, u128::MAX / 2, vec![]);
    assert_eq!(v.deposit(&alice, &uusd(100), &huge), Err(ContractError::ConversionOverflowError {}));
    assert_eq!(v.state.total_supply, 1_000);
}

#[test]
fn deposit_without_funds_sweeps_balance() {
    let mut v = funded_vault("terra1alice", 1_000);
    let none: Vec<Coin> = vec![];
    assert_eq!(
        v.deposit(&"terra1bot".to_string(), &none, &snapshot(250, 0, 0, vec![])),
        Ok(DepositOutcome::Swept { amount: 250 })
    );
    assert_eq!(
        v.deposit(&"terra1bot".to_string(), &none, &snapshot(0, 0, 0, vec![])),
        Err(ContractError::Insufficient {})
    );
    assert_eq!(v.state.total_supply, 1_000);
}

#[test]
fn paused_vault_refuses_deposits() {
    let mut v = new_vault();
    let owner = "terra1owner".to_string();
    v.update_config(&owner, None, Some(true), None, None, None).unwrap();
    assert_eq!(
        v.deposit(&"terra1alice".to_string(), &uusd(10), &snapshot(10, 0, 0, vec![])),
        Err(ContractError::Paused {})
    );
}

#[test]
fn deposit_values_all_holdings() {
    let mut v = funded_vault("terra1alice", 1_000);
    // NAV excluding the deposit: 200 stable + 30 stable in a bid
    // + (100 + 70) yield tokens at 2.0 + (5 + 1) collateral at 10.0 = 630
    let positions = vec![BidPosition {
        idx: 1,
        amount: 70,
        proxied_bid: Some(ProxiedBid { amount: 30, pending_liquidated_collateral: 1 }),
    }];
    let mut snap = snapshot(263, 100, 5, positions);
    snap.exchange_rate = 2 * ONE;
    let r = v.deposit(&"terra1bob".to_string(), &uusd(63), &snap);
    assert_eq!(r, Ok(DepositOutcome::Minted { amount: 63, share: 100, forwarded: 263 }));
}

#[test]
fn prechecks_before_valuation() {
    let alice = "terra1alice".to_string();
    let v = funded_vault("terra1alice", 1_000);
    assert_eq!(v.check_withdrawal(&alice, 0, None, 0), Err(ContractError::Invalidate {}));
    assert_eq!(v.check_withdrawal(&alice, 5, Some(10 * SECOND), 10 * SECOND), Err(ContractError::Locked {}));
    assert_eq!(v.check_withdrawal(&alice, 1_001, None, 0), Err(ContractError::OverflowError {}));
    assert_eq!(v.check_withdrawal(&"TERRA1ALICE".to_string(), 1_000, None, 0), Ok(()));
    assert_eq!(v.check_deposit(&vec![]), Ok(()));
    assert_eq!(v.check_deposit(&uusd(3)), Ok(()));
    assert_eq!(v.check_deposit(&uusd(0)), Err(ContractError::Invalidate {}));
}

#[test]
fn restore_checks_totals() {
    let holders = vec!["terra1a".to_string(), "terra1b".to_string()];
    let ledger = ShareLedger::from_entries(holders.clone(), vec![10, 20]).unwrap();
    assert!(ShareLedger::from_entries(vec!["terra1a".to_string(), "terra1a".to_string()], vec![1, 2]).is_none());
    assert!(ShareLedger::from_entries(holders.clone(), vec![u128::MAX, 1]).is_none());
    let rec = |key: u32, amount: u128| ClaimEntry { key, record: TokenRecord { amount, timestamp: 0 } };
    let claims = ClaimQueue::from_entries(vec![rec(0, 5), rec(3, 7)]).unwrap();
    assert!(ClaimQueue::from_entries(vec![rec(3, 5), rec(3, 7)]).is_none());
    assert!(ClaimQueue::from_entries(vec![rec(0, 0)]).is_none());
    let mut state = new_vault().state;
    state.total_supply = 30;
    state.locked_b_luna = 12;
    let v = Vault::restore(state, ledger, claims).unwrap();
    assert_eq!(v.query_balance(&"terra1b".to_string()).balance, 20);
    let mut wrong = new_vault().state;
    wrong.total_supply = 31;
    let ledger = ShareLedger::from_entries(holders, vec![10, 20]).unwrap();
    assert!(Vault::restore(wrong, ledger, ClaimQueue::new()).is_none());
}
