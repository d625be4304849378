use liquidation_vault::address::{normalize, same_address};
use liquidation_vault::math::{inv_rate, mul_rate, multiply_ratio};
use liquidation_vault::msg::{query_claimable, query_last_deposit_timestamp, query_permission, query_total_cap};
use liquidation_vault::positions::{aggregate_positions, next_start_after, BidPosition, PositionTotals, ProxiedBid};
use liquidation_vault::shortfall::{collateral_for_shortfall, resolve_shortfall};
use liquidation_vault::valuation::{collateral_cap, redeem_amount, shares_to_mint, total_cap, NavSnapshot};
use liquidation_vault::error::ContractError;
use liquidation_vault::vault::Permission;

const ONE: u128 = 1_000_000_000_000_000_000;

#[test]
fn multiply_ratio_uses_a_wide_product() {
    assert_eq!(multiply_ratio(5, 99, 100), Some(4));
    assert_eq!(multiply_ratio(u128::MAX, 3, 4), Some(u128::MAX / 4 * 3 + 2));
    assert_eq!(multiply_ratio(u128::MAX, 2, 1), None);
    assert_eq!(multiply_ratio(7, 1, 0), None);
}

#[test]
fn rates() {
    assert_eq!(mul_rate(250, 3 * ONE / 2), Some(375));
    assert_eq!(mul_rate(3, ONE / 2), Some(1));
    assert_eq!(mul_rate(u128::MAX, 2 * ONE), None);
    assert_eq!(inv_rate(4 * ONE), Some(ONE / 4));
    assert_eq!(inv_rate(3 * ONE), Some(333_333_333_333_333_333));
    assert_eq!(inv_rate(0), None);
}

#[test]
fn share_conversion() {
    assert_eq!(shares_to_mint(700, 0, 12345), Ok(700));
    assert_eq!(shares_to_mint(300, 1_000, 1_500), Ok(200));
    assert_eq!(shares_to_mint(1, 3, 2), Ok(1));
    assert_eq!(shares_to_mint(300, 1_000, 0), Err(ContractError::DivideByZeroError {}));
    assert_eq!(shares_to_mint(u128::MAX, u128::MAX, 1), Err(ContractError::OverflowError {}));
    assert_eq!(redeem_amount(500, 600, 1_000), 300);
    assert_eq!(redeem_amount(1, 999, 1_000), 0);
}

#[test]
fn redemption_is_monotone() {
    let a = redeem_amount(100, 5_000, 4_000);
    let b = redeem_amount(200, 5_000, 4_000);
    assert_eq!((a, b), (125, 250));
    assert!(a < b);
    assert!(redeem_amount(1, 10, 100) <= redeem_amount(2, 10, 100));
}

#[test]
fn aggregate_sums_positions() {
    let start = PositionTotals { a_ust: 1, stable: 2, collateral: 3 };
    let positions = vec![
        BidPosition { idx: 1, amount: 10, proxied_bid: Some(ProxiedBid { amount: 20, pending_liquidated_collateral: 30 }) },
        BidPosition { idx: 2, amount: 100, proxied_bid: None },
    ];
    assert_eq!(
        aggregate_positions(start, &positions),
        Ok(PositionTotals { a_ust: 111, stable: 22, collateral: 33 })
    );
    let big = vec![BidPosition { idx: 3, amount: u128::MAX, proxied_bid: None }];
    assert_eq!(aggregate_positions(start, &big), Err(ContractError::OverflowError {}));
}

#[test]
fn pagination_cursor() {
    let page: Vec<BidPosition> = (0..31u64).map(|i| BidPosition { idx: i + 40, amount: 0, proxied_bid: None }).collect();
    assert_eq!(next_start_after(&page, 31), Some(70));
    assert_eq!(next_start_after(&page[..30].to_vec(), 31), None);
    assert_eq!(next_start_after(&vec![], 31), None);
}

#[test]
fn total_cap_and_collateral_cap() {
    let snap = NavSnapshot {
        stable_balance: 100,
        a_ust_balance: 0,
        collateral_balance: 50,
        positions: vec![],
        exchange_rate: ONE,
        price: 10 * ONE,
    };
    assert_eq!(total_cap(&snap, 0), Ok(600));
    assert_eq!(total_cap(&snap, 40), Ok(560));
    assert_eq!(total_cap(&snap, 101), Err(ContractError::OverflowError {}));
    assert_eq!(collateral_cap(&snap), Ok(60));
    assert_eq!(query_total_cap(&snap).map(|r| r.total_cap), Ok(600));
}

#[test]
fn shortfall_resolution() {
    let positions = vec![
        BidPosition { idx: 7, amount: 50, proxied_bid: Some(ProxiedBid { amount: 30, pending_liquidated_collateral: 0 }) },
        BidPosition { idx: 9, amount: 100, proxied_bid: None },
    ];
    let s = resolve_shortfall(290, 100, 100, &positions, ONE);
    assert_eq!(s.retracted, vec![7, 9]);
    assert_eq!(s.redeem, 160);
    assert_eq!(s.recovered, 290);
    assert_eq!(s.remaining, 0);
    let short = resolve_shortfall(1_000, 100, 100, &positions, ONE);
    assert_eq!(short.retracted, vec![7, 9]);
    assert_eq!(short.redeem, 250);
    assert_eq!(short.recovered, 380);
    assert_eq!(short.remaining, 620);
}

#[test]
fn collateral_claim_formula() {
    assert_eq!(collateral_for_shortfall(50, 500, 1_000, 300, 200), Ok(19));
    assert_eq!(collateral_for_shortfall(80, 1_000, 1_000, 400, 400), Ok(80));
    assert_eq!(collateral_for_shortfall(u128::MAX, 2, 10, 4, 1), Err(ContractError::OverflowError {}));
}

#[test]
fn addresses_compare_in_lowercase() {
    assert_eq!(normalize(&"Terra1AbC".to_string()), "terra1abc".to_string());
    assert!(same_address(&"TERRA1OWNER".to_string(), &"terra1owner".to_string()));
    assert!(!same_address(&"terra1owner".to_string(), &"terra1other".to_string()));
}

#[test]
fn simple_queries() {
    assert!(!query_permission(None).permission.submit_bid);
    assert!(query_permission(Some(Permission { submit_bid: true })).permission.submit_bid);
    assert_eq!(query_last_deposit_timestamp(None).timestamp, 0);
    assert_eq!(query_last_deposit_timestamp(Some(42)).timestamp, 42);
    let positions = vec![
        BidPosition { idx: 1, amount: 5, proxied_bid: None },
        BidPosition { idx: 2, amount: 5, proxied_bid: Some(ProxiedBid { amount: 1, pending_liquidated_collateral: 0 }) },
    ];
    assert!(!query_claimable(&positions).claimable);
    let mut more = positions.clone();
    more.push(BidPosition { idx: 3, amount: 0, proxied_bid: Some(ProxiedBid { amount: 0, pending_liquidated_collateral: 2 }) });
    assert!(query_claimable(&more).claimable);
}
