use lucifer::custody::Asset;
use lucifer::custody::CustodyAction;
use lucifer::custody::Party;
use lucifer::errors::ErrorCode;
use lucifer::instructions::add_liquidity;
use lucifer::instructions::borrow;
use lucifer::instructions::burn_stable;
use lucifer::instructions::buy;
use lucifer::instructions::initialize_jupiter;
use lucifer::instructions::initialize_pool;
use lucifer::instructions::mint_stable;
use lucifer::instructions::remove_liquidity;
use lucifer::instructions::repay;
use lucifer::instructions::sell;
use lucifer::instructions::swap_jupiter;
use lucifer::oracle::PRECISION;
use lucifer::schema::Cheque;
use lucifer::schema::Pool;

const AUTHORITY: u64 = 11;
const POOL_ID: u64 = 22;

fn fresh_pool(fee: u64, amount: u64, stable_amount: u64, base_amount: u64) -> Pool {
    let (pool, _cert, _acts) = initialize_pool(
        AUTHORITY, POOL_ID, 1, 2, 3, 4, 5, fee, amount, stable_amount, base_amount, 1_700_000_000,
    )
    .unwrap();
    pool
}

fn fresh_cheque() -> Cheque {
    Cheque { authority: 0, pool: 0, borrow_amount: 0, base_amount: 0 }
}

#[test]
fn create_pool_starting_issuance() {
    // create with primary = stable = 1_000_000 at no fee: issuance is
    // 2 * sqrt(10^6 * 10^6) = 2_000_000
    let (pool, cert, acts) = initialize_pool(
        AUTHORITY, POOL_ID, 1, 2, 3, 4, 5, 0, 1_000_000, 1_000_000, 0, 42,
    )
    .unwrap();
    assert_eq!(pool.lpt_supply, 2_000_000);
    assert_eq!(pool.balance, 1_000_000);
    assert_eq!(pool.stable_balance, 1_000_000);
    assert_eq!(pool.base_balance, 0);
    assert_eq!(pool.fee, 0);
    assert_eq!(pool.total_lpt_fee, 0);
    assert_eq!(pool.start_time, 42);
    assert_eq!(pool.authority, AUTHORITY);
    assert_eq!(cert.amount, 0);
    assert_eq!(cert.pool, POOL_ID);
    // primary in, stable minted twice, shares minted to the treasury
    assert_eq!(acts.len(), 4);
    assert_eq!(
        acts[3],
        CustodyAction::Mint { asset: Asset::Lpt, to: Party::Treasury, amount: 2_000_000 }
    );
}

#[test]
fn create_pool_records_cert_and_base_deposit() {
    let (pool, cert, acts) = initialize_pool(
        AUTHORITY, POOL_ID, 1, 2, 3, 4, 5, 10_000_000, 1_000_000, 1_000_000, 100_000, 0,
    )
    .unwrap();
    assert_eq!(pool.base_balance, 100_000);
    // the rate is recorded as the initial accrued fee
    assert_eq!(pool.total_lpt_fee, 10_000_000);
    // 2 * sqrt(10^6 * 10^5)
    assert_eq!(cert.amount, 632_454);
    assert_eq!(acts.len(), 5);
    assert_eq!(
        acts[1],
        CustodyAction::Transfer {
            asset: Asset::Base,
            from: Party::User,
            to: Party::Treasury,
            amount: 100_000,
        }
    );
}

#[test]
fn create_pool_rejects_zero_amounts() {
    let r = initialize_pool(AUTHORITY, POOL_ID, 1, 2, 3, 4, 5, 0, 0, 1_000_000, 0, 0);
    assert_eq!(r.unwrap_err(), ErrorCode::AmountZero);
    let r = initialize_pool(AUTHORITY, POOL_ID, 1, 2, 3, 4, 5, 0, 1_000_000, 0, 0, 0);
    assert_eq!(r.unwrap_err(), ErrorCode::AmountZero);
}

#[test]
fn create_pool_rejects_fee_above_precision() {
    let r = initialize_pool(
        AUTHORITY, POOL_ID, 1, 2, 3, 4, 5, PRECISION + 1, 1_000_000, 1_000_000, 0, 0,
    );
    assert_eq!(r.unwrap_err(), ErrorCode::InvalidAmount);
}

#[test]
fn sell_against_balanced_reserves() {
    // swap 10_000 primary against (1_000_000, 1_000_000) at no fee:
    // output 9_900 stable, reserves end at (1_010_000, 990_100)
    let mut pool = fresh_pool(0, 1_000_000, 1_000_000, 0);
    let acts = sell(&mut pool, 10_000, 2_000_000).unwrap();
    assert_eq!(pool.balance, 1_010_000);
    assert_eq!(pool.stable_balance, 990_100);
    assert_eq!(pool.total_lpt_fee, 0);
    assert_eq!(
        acts,
        vec![
            CustodyAction::Transfer {
                asset: Asset::Primary,
                from: Party::User,
                to: Party::Treasury,
                amount: 10_000,
            },
            CustodyAction::Transfer {
                asset: Asset::Stable,
                from: Party::Treasury,
                to: Party::User,
                amount: 9_900,
            },
        ]
    );
}

#[test]
fn sell_with_fee_accrues_share_fee() {
    let mut pool = fresh_pool(10_000_000, 1_000_000, 1_000_000, 0);
    sell(&mut pool, 10_000, 2_000_000).unwrap();
    assert_eq!(pool.balance, 1_010_000);
    assert_eq!(pool.stable_balance, 1_000_000 - 9_801);
    // the 99-stable fee residual converts to 98 share-token units
    assert_eq!(pool.total_lpt_fee, 10_000_000 + 98);
}

#[test]
fn buy_with_fee_accrues_share_fee() {
    let mut pool = fresh_pool(10_000_000, 1_000_000, 1_000_000, 0);
    let acts = buy(&mut pool, 10_000, 0, 2_000_000).unwrap();
    assert_eq!(pool.balance, 1_000_000 - 9_801);
    assert_eq!(pool.stable_balance, 1_010_000);
    assert_eq!(pool.total_lpt_fee, 10_000_000 + 98);
    assert_eq!(acts.len(), 2);
    assert_eq!(
        acts[1],
        CustodyAction::Transfer {
            asset: Asset::Primary,
            from: Party::Treasury,
            to: Party::User,
            amount: 9_801,
        }
    );
}

#[test]
fn buy_converts_base_collateral_first() {
    let mut pool = fresh_pool(0, 1_000_000, 1_000_000, 0);
    let acts = buy(&mut pool, 5_000, 5_000, 2_000_000).unwrap();
    // the base half is converted one-for-one and joins the stable bid
    assert_eq!(pool.base_balance, 5_000);
    assert_eq!(pool.stable_balance, 1_010_000);
    assert_eq!(pool.balance, 1_000_000 - 9_900);
    assert_eq!(acts.len(), 4);
    assert_eq!(
        acts[0],
        CustodyAction::Transfer {
            asset: Asset::Base,
            from: Party::User,
            to: Party::Treasury,
            amount: 5_000,
        }
    );
    assert_eq!(
        acts[1],
        CustodyAction::Mint { asset: Asset::Stable, to: Party::User, amount: 5_000 }
    );
}

#[test]
fn add_liquidity_balanced_deposit() {
    let mut pool = fresh_pool(500_000_000, 1_000_000, 1_000_000, 0);
    let acts = add_liquidity(&mut pool, 100_000, 100_000, 0, 2_000_000).unwrap();
    // a proportional deposit is never taxed, whatever the fee
    assert_eq!(pool.lpt_supply, 2_200_000);
    assert_eq!(pool.balance, 1_100_000);
    assert_eq!(pool.stable_balance, 1_100_000);
    assert_eq!(pool.total_lpt_fee, 500_000_000);
    assert_eq!(
        acts.last().unwrap(),
        &CustodyAction::Mint { asset: Asset::Lpt, to: Party::User, amount: 200_000 }
    );
}

#[test]
fn add_liquidity_imbalanced_deposit_is_taxed() {
    let mut pool = fresh_pool(500_000_000, 1_000_000, 1_000_000, 0);
    add_liquidity(&mut pool, 100_000, 0, 0, 2_000_000).unwrap();
    // fee-free issuance would be 97_617; the 50% fee leaves 73_644
    assert_eq!(pool.lpt_supply, 2_000_000 + 73_644);
    assert_eq!(pool.total_lpt_fee, 500_000_000 + (97_617 - 73_644));
}

#[test]
fn add_liquidity_base_only_deposit() {
    let mut pool = fresh_pool(0, 1_000_000, 1_000_000, 0);
    let acts = add_liquidity(&mut pool, 0, 0, 7_000, 2_000_000).unwrap();
    assert_eq!(pool.base_balance, 7_000);
    assert_eq!(pool.stable_balance, 1_007_000);
    assert_eq!(pool.balance, 1_000_000);
    assert_eq!(pool.lpt_supply, 2_000_000 + 6_987);
    // conversion, stable transfer, share mint: the primary transfer is skipped
    assert_eq!(acts.len(), 4);
}

#[test]
fn remove_liquidity_pro_rata() {
    let mut pool = fresh_pool(0, 1_000_000, 1_000_000, 0);
    let acts = remove_liquidity(&mut pool, 200_000, 2_000_000).unwrap();
    assert_eq!(pool.balance, 900_000);
    assert_eq!(pool.stable_balance, 900_000);
    assert_eq!(pool.lpt_supply, 1_800_000);
    assert_eq!(
        acts,
        vec![
            CustodyAction::Burn { asset: Asset::Lpt, from: Party::User, amount: 200_000 },
            CustodyAction::Transfer {
                asset: Asset::Primary,
                from: Party::Treasury,
                to: Party::User,
                amount: 100_000,
            },
            CustodyAction::Transfer {
                asset: Asset::Stable,
                from: Party::Treasury,
                to: Party::User,
                amount: 100_000,
            },
        ]
    );
}

#[test]
fn remove_liquidity_rejects_overdraw() {
    let mut pool = fresh_pool(0, 1_000_000, 1_000_000, 0);
    let before = pool;
    let r = remove_liquidity(&mut pool, 2_000_001, 2_000_000);
    assert_eq!(r.unwrap_err(), ErrorCode::ComputationFailure);
    assert_eq!(pool, before);
}

#[test]
fn remove_liquidity_rejects_supply_mismatch() {
    // the live mint supply exceeds the pool's cached share supply
    let mut pool = fresh_pool(0, 1_000_000, 1_000_000, 0);
    let r = remove_liquidity(&mut pool, 2_500_000, 3_000_000);
    assert_eq!(r.unwrap_err(), ErrorCode::InvalidAmount);
}

#[test]
fn borrow_burns_fee_and_locks_net_shares() {
    // fee = 1%: borrowing against 100_000 shares burns 1_000, locks 99_000,
    // and pays out the stable-side pro-rata component 49_500
    let mut pool = fresh_pool(10_000_000, 1_000_000, 1_000_000, 100_000);
    let mut cheque = fresh_cheque();
    let acts = borrow(&mut pool, &mut cheque, AUTHORITY, POOL_ID, 100_000, 2_000_000).unwrap();
    assert_eq!(cheque.authority, AUTHORITY);
    assert_eq!(cheque.pool, POOL_ID);
    assert_eq!(cheque.borrow_amount, 99_000);
    assert_eq!(cheque.base_amount, 49_500);
    assert_eq!(pool.base_balance, 100_000 - 49_500);
    assert_eq!(pool.total_lpt_fee, 10_000_000 + 1_000);
    assert_eq!(
        acts,
        vec![
            CustodyAction::Burn { asset: Asset::Lpt, from: Party::User, amount: 1_000 },
            CustodyAction::Transfer {
                asset: Asset::Lpt,
                from: Party::User,
                to: Party::Treasury,
                amount: 99_000,
            },
            CustodyAction::Transfer {
                asset: Asset::Base,
                from: Party::Treasury,
                to: Party::User,
                amount: 49_500,
            },
        ]
    );
}

#[test]
fn borrow_accumulates_on_existing_position() {
    let mut pool = fresh_pool(0, 1_000_000, 1_000_000, 100_000);
    let mut cheque = fresh_cheque();
    borrow(&mut pool, &mut cheque, AUTHORITY, POOL_ID, 50_000, 2_000_000).unwrap();
    borrow(&mut pool, &mut cheque, AUTHORITY, POOL_ID, 50_000, 2_000_000).unwrap();
    assert_eq!(cheque.borrow_amount, 100_000);
    assert_eq!(cheque.base_amount, 25_000 + 25_000);
}

#[test]
fn borrow_rejects_zero_amount() {
    let mut pool = fresh_pool(0, 1_000_000, 1_000_000, 100_000);
    let mut cheque = fresh_cheque();
    let r = borrow(&mut pool, &mut cheque, AUTHORITY, POOL_ID, 0, 2_000_000);
    assert_eq!(r.unwrap_err(), ErrorCode::AmountZero);
}

#[test]
fn borrow_rejects_short_base_reserve() {
    let mut pool = fresh_pool(0, 1_000_000, 1_000_000, 0);
    let mut cheque = fresh_cheque();
    let before_pool = pool;
    let r = borrow(&mut pool, &mut cheque, AUTHORITY, POOL_ID, 100_000, 2_000_000);
    assert_eq!(r.unwrap_err(), ErrorCode::InvalidAmount);
    assert_eq!(pool, before_pool);
    assert_eq!(cheque, fresh_cheque());
}

#[test]
fn borrow_then_repay_clears_the_position() {
    let mut pool = fresh_pool(10_000_000, 1_000_000, 1_000_000, 100_000);
    let mut cheque = fresh_cheque();
    borrow(&mut pool, &mut cheque, AUTHORITY, POOL_ID, 100_000, 2_000_000).unwrap();
    let acts = repay(&mut cheque);
    assert_eq!(cheque.borrow_amount, 0);
    assert_eq!(cheque.base_amount, 0);
    assert_eq!(cheque.authority, AUTHORITY);
    // the treasury gets back exactly the base it paid out, and the borrower
    // exactly the shares that were locked (the borrowed amount minus the fee)
    assert_eq!(
        acts,
        vec![
            CustodyAction::Transfer {
                asset: Asset::Base,
                from: Party::User,
                to: Party::Treasury,
                amount: 49_500,
            },
            CustodyAction::Transfer {
                asset: Asset::Lpt,
                from: Party::Treasury,
                to: Party::User,
                amount: 99_000,
            },
        ]
    );
}

#[test]
fn mint_stable_converts_one_for_one() {
    let mut pool = fresh_pool(0, 1_000_000, 1_000_000, 0);
    let acts = mint_stable(&mut pool, 4_000).unwrap();
    assert_eq!(pool.base_balance, 4_000);
    assert_eq!(
        acts,
        vec![
            CustodyAction::Transfer {
                asset: Asset::Base,
                from: Party::User,
                to: Party::Treasury,
                amount: 4_000,
            },
            CustodyAction::Mint { asset: Asset::Stable, to: Party::User, amount: 4_000 },
        ]
    );
}

#[test]
fn burn_stable_releases_fee_portion_of_base() {
    let mut pool = fresh_pool(10_000_000, 1_000_000, 1_000_000, 100_000);
    let acts = burn_stable(&mut pool, 10_000, 2_000_000).unwrap();
    // 1% of the burned stable comes out as base; the residual accrues
    assert_eq!(pool.base_balance, 100_000 - 100);
    assert_eq!(pool.total_lpt_fee, 10_000_000 + 9_825);
    assert_eq!(
        acts,
        vec![
            CustodyAction::Burn { asset: Asset::Stable, from: Party::User, amount: 10_000 },
            CustodyAction::Transfer {
                asset: Asset::Base,
                from: Party::Treasury,
                to: Party::User,
                amount: 100,
            },
        ]
    );
}

#[test]
fn burn_stable_rejects_short_base_reserve() {
    let mut pool = fresh_pool(10_000_000, 1_000_000, 1_000_000, 0);
    let r = burn_stable(&mut pool, 10_000, 2_000_000);
    assert_eq!(r.unwrap_err(), ErrorCode::InvalidAmount);
}

#[test]
fn total_fee_never_decreases_across_operations() {
    let mut pool = fresh_pool(10_000_000, 1_000_000, 1_000_000, 100_000);
    let mut last = pool.total_lpt_fee;
    sell(&mut pool, 10_000, 2_000_000).unwrap();
    assert!(pool.total_lpt_fee >= last);
    last = pool.total_lpt_fee;
    buy(&mut pool, 10_000, 0, 2_000_000).unwrap();
    assert!(pool.total_lpt_fee >= last);
    last = pool.total_lpt_fee;
    add_liquidity(&mut pool, 50_000, 0, 0, 2_000_000).unwrap();
    assert!(pool.total_lpt_fee >= last);
    last = pool.total_lpt_fee;
    let mut cheque = fresh_cheque();
    borrow(&mut pool, &mut cheque, AUTHORITY, POOL_ID, 10_000, 2_000_000).unwrap();
    assert!(pool.total_lpt_fee >= last);
    last = pool.total_lpt_fee;
    remove_liquidity(&mut pool, 100_000, 2_000_000).unwrap();
    assert!(pool.total_lpt_fee >= last);
}

#[test]
fn balanced_deposit_round_trip_never_profits() {
    let mut pool = fresh_pool(10_000_000, 1_000_000, 1_000_000, 0);
    add_liquidity(&mut pool, 100_000, 100_000, 0, 2_000_000).unwrap();
    let issued = pool.lpt_supply - 2_000_000;
    let mut after = pool;
    let acts = remove_liquidity(&mut after, issued, 2_000_000 + issued).unwrap();
    for act in acts {
        if let CustodyAction::Transfer { asset, amount, .. } = act {
            if asset == Asset::Primary {
                assert!(amount <= 100_000);
            }
            if asset == Asset::Stable {
                assert!(amount <= 100_000);
            }
        }
    }
}

#[test]
fn jupiter_bootstrap_swap() {
    let jupiter = initialize_jupiter(77);
    assert_eq!(jupiter.base_mint, 77);
    let acts = swap_jupiter(0, 500);
    assert_eq!(acts, vec![CustodyAction::Mint {
        asset: Asset::Base,
        to: Party::User,
        amount: 500
    }]);
    let acts = swap_jupiter(10, 500);
    assert_eq!(acts.len(), 2);
}
