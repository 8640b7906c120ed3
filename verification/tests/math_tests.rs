use lucifer::oracle::calc_ask_amount_swap;
use lucifer::oracle::calc_lpt_receive_add_full_side;
use lucifer::oracle::calc_mint_receive_remove_single_side;
use lucifer::oracle::calc_mint_receives_remove_full_side;
use lucifer::oracle::calc_normalize_weight;
use lucifer::oracle::calc_starting_lpt;
use lucifer::oracle::PRECISION;
use lucifer::schema::Pool;

fn plain_pool(fee: u64) -> Pool {
    Pool {
        authority: 1,
        mint: 2,
        base_mint: 3,
        stable_mint: 4,
        lpt_mint: 5,
        treasurer: 6,
        balance: 1_000_000,
        stable_balance: 1_000_000,
        base_balance: 100_000,
        fee,
        total_lpt_fee: 0,
        lpt_supply: 2_000_000,
        start_time: 0,
    }
}

#[test]
fn normalize_weight_is_half() {
    assert_eq!(calc_normalize_weight(0), Some(500_000_000));
    assert_eq!(calc_normalize_weight(1), Some(500_000_000));
}

#[test]
fn starting_lpt_square_deposit() {
    // 2 * sqrt(1_000_000 * 1_000_000)
    assert_eq!(calc_starting_lpt(1_000_000, 1_000_000), Some(2_000_000));
}

#[test]
fn starting_lpt_floors_the_root() {
    assert_eq!(calc_starting_lpt(2, 3), Some(4));
    assert_eq!(calc_starting_lpt(5, 7), Some(10));
    assert_eq!(calc_starting_lpt(0, 12345), Some(0));
}

#[test]
fn starting_lpt_overflow_fails() {
    assert_eq!(calc_starting_lpt(u64::MAX, u64::MAX), None);
}

#[test]
fn swap_output_no_fee() {
    // 1_000_000 * 10_000 / 1_010_000, floored
    assert_eq!(calc_ask_amount_swap(10_000, 1_000_000, 1_000_000, 0), Some(9_900));
}

#[test]
fn swap_output_one_percent_fee() {
    assert_eq!(calc_ask_amount_swap(10_000, 1_000_000, 1_000_000, 10_000_000), Some(9_801));
}

#[test]
fn swap_output_empty_bid_reserve_pays_whole_ask() {
    assert_eq!(calc_ask_amount_swap(500, 0, 777, 0), Some(777));
}

#[test]
fn swap_output_undefined_curve_fails() {
    assert_eq!(calc_ask_amount_swap(0, 0, 1_000_000, 0), None);
}

#[test]
fn swap_output_fee_above_precision_fails() {
    assert_eq!(calc_ask_amount_swap(10_000, 1_000_000, 1_000_000, PRECISION + 1), None);
}

#[test]
fn swap_output_monotone_in_bid_amount() {
    let small = calc_ask_amount_swap(10_000, 1_000_000, 1_000_000, 0).unwrap();
    let large = calc_ask_amount_swap(20_000, 1_000_000, 1_000_000, 0).unwrap();
    assert!(small <= large);
}

#[test]
fn swap_output_antitone_in_fee() {
    let cheap = calc_ask_amount_swap(10_000, 1_000_000, 1_000_000, 0).unwrap();
    let costly = calc_ask_amount_swap(10_000, 1_000_000, 1_000_000, 500_000_000).unwrap();
    assert!(costly <= cheap);
}

#[test]
fn full_side_withdrawal_is_pro_rata() {
    let reserves = vec![1_000_000u64, 1_000_000u64];
    let out = calc_mint_receives_remove_full_side(200_000, 2_000_000, &reserves).unwrap();
    assert_eq!(out, vec![100_000, 100_000]);
}

#[test]
fn full_side_withdrawal_rejects_overdraw() {
    let reserves = vec![1_000_000u64, 1_000_000u64];
    assert_eq!(calc_mint_receives_remove_full_side(2_000_001, 2_000_000, &reserves), None);
}

#[test]
fn full_side_withdrawal_rejects_zero_supply() {
    let reserves = vec![1_000_000u64, 1_000_000u64];
    assert_eq!(calc_mint_receives_remove_full_side(0, 0, &reserves), None);
}

#[test]
fn deposit_issuance_balanced_no_fee() {
    let amounts = vec![100_000u64, 100_000u64];
    let reserves = vec![1_000_000u64, 1_000_000u64];
    assert_eq!(
        calc_lpt_receive_add_full_side(2_000_000, &amounts, &reserves, 0),
        Some(200_000)
    );
}

#[test]
fn deposit_issuance_balanced_deposit_escapes_the_fee() {
    // both ratios match the composite, so nothing is taxable
    let amounts = vec![100_000u64, 100_000u64];
    let reserves = vec![1_000_000u64, 1_000_000u64];
    assert_eq!(
        calc_lpt_receive_add_full_side(2_000_000, &amounts, &reserves, 500_000_000),
        Some(200_000)
    );
}

#[test]
fn deposit_issuance_imbalanced_taxes_the_excess() {
    let amounts = vec![100_000u64, 0u64];
    let reserves = vec![1_000_000u64, 1_000_000u64];
    assert_eq!(
        calc_lpt_receive_add_full_side(2_000_000, &amounts, &reserves, 500_000_000),
        Some(73_644)
    );
    assert_eq!(
        calc_lpt_receive_add_full_side(2_000_000, &amounts, &reserves, 0),
        Some(97_617)
    );
}

#[test]
fn deposit_issuance_fee_only_reduces_it() {
    let amounts = vec![100_000u64, 0u64];
    let reserves = vec![1_000_000u64, 1_000_000u64];
    let with_fee = calc_lpt_receive_add_full_side(2_000_000, &amounts, &reserves, 500_000_000);
    let no_fee = calc_lpt_receive_add_full_side(2_000_000, &amounts, &reserves, 0);
    assert!(with_fee.unwrap() <= no_fee.unwrap());
}

#[test]
fn deposit_issuance_zero_reserve_fails() {
    let amounts = vec![100_000u64, 0u64];
    let reserves = vec![0u64, 1_000_000u64];
    assert_eq!(calc_lpt_receive_add_full_side(2_000_000, &amounts, &reserves, 0), None);
}

#[test]
fn deposit_issuance_fee_above_precision_fails() {
    let amounts = vec![100_000u64, 0u64];
    let reserves = vec![1_000_000u64, 1_000_000u64];
    assert_eq!(
        calc_lpt_receive_add_full_side(2_000_000, &amounts, &reserves, PRECISION + 1),
        None
    );
}

#[test]
fn deposit_issuance_zero_deposit_issues_nothing() {
    let amounts = vec![0u64, 0u64];
    let reserves = vec![1_000_000u64, 1_000_000u64];
    assert_eq!(calc_lpt_receive_add_full_side(2_000_000, &amounts, &reserves, 0), Some(0));
}

#[test]
fn single_side_withdrawal_equal_weights() {
    // remaining ratio 0.9, squared 0.81; 19% of the balance comes out
    assert_eq!(
        calc_mint_receive_remove_single_side(100_000, 1_000_000, 500_000_000, 1_000_000, 0),
        Some(190_000)
    );
}

#[test]
fn single_side_withdrawal_full_fee_keeps_only_non_taxable() {
    assert_eq!(
        calc_mint_receive_remove_single_side(
            100_000,
            1_000_000,
            500_000_000,
            1_000_000,
            PRECISION
        ),
        Some(95_000)
    );
}

#[test]
fn single_side_withdrawal_whole_weight_has_no_taxable_part() {
    assert_eq!(
        calc_mint_receive_remove_single_side(100_000, 1_000_000, PRECISION, 1_000_000, PRECISION),
        Some(100_000)
    );
}

#[test]
fn single_side_withdrawal_rejects_overdraw_and_bad_weight() {
    assert_eq!(
        calc_mint_receive_remove_single_side(2_000_001, 2_000_000, 500_000_000, 1_000_000, 0),
        None
    );
    assert_eq!(calc_mint_receive_remove_single_side(1, 10, 0, 1_000_000, 0), None);
    // 3 does not divide PRECISION evenly: the reciprocal exponent is not whole
    assert_eq!(calc_mint_receive_remove_single_side(1, 10, 3, 1_000_000, 0), None);
}

#[test]
fn pool_fee_is_rate_times_amount() {
    let pool = plain_pool(10_000_000);
    assert_eq!(pool.calc_fee(100_000), Some(1_000));
    let no_fee = plain_pool(0);
    assert_eq!(no_fee.calc_fee(100_000), Some(0));
}
