//! The library's general guarantees, stated and proved once.

use vstd::prelude::*;

verus! {

use vstd::arithmetic::div_mod::lemma_div_is_ordered;
use vstd::arithmetic::div_mod::lemma_div_pos_is_pos;
use crate::arith::lemma_div_at_most;
use crate::arith::lemma_div_below;
use crate::arith::lemma_div_frac_le;
use crate::arith::lemma_mul_div_le;
use crate::arith::lemma_sqrt_floor_bounds;
use crate::arith::lemma_sqrt_floor_monotone;
use crate::oracle::adjusted_deposit;
use crate::oracle::deposit_ratio;
use crate::oracle::invariant_ratio;
use crate::oracle::lpt_issued;
use crate::oracle::non_taxable_portion;
use crate::oracle::ratio_exceeds_composite;
use crate::oracle::swap_output;
use crate::oracle::swap_output_before_fee;
use crate::oracle::withdraw_amount;
use crate::oracle::PRECISION;
use crate::arith::lemma_div_mul_le;
use crate::custody::transfer_in;
use crate::custody::transfer_out;
use crate::custody::Asset;
use crate::instructions::borrow_base_out;
use crate::instructions::borrow_fee_amt;
use crate::instructions::borrow_net;
use crate::instructions::borrow_next_cheque;
use crate::instructions::borrow_ok;
use crate::instructions::repay_actions;
use crate::schema::lemma_fee_amount_le;
use crate::schema::AccountId;
use crate::schema::Cheque;
use crate::schema::Pool;

/// For a taxable deposit the untaxed portion is a genuine part of the
/// deposit: `0 <= nt <= a_i`.
proof fn lemma_non_taxable_in_range(a_i: int, b_i: int, a_j: int, b_j: int)
    requires
        0 <= a_i,
        0 <= a_j,
        0 < b_i,
        0 < b_j,
        ratio_exceeds_composite(a_i, b_i, a_j, b_j),
    ensures
        0 <= non_taxable_portion(a_i, b_i, a_j, b_j) <= a_i,
{
    assert(a_i * b_j > a_j * b_i) by (nonlinear_arith)
        requires
            (b_i + a_i) * b_j > (b_j + a_j) * b_i,
    ;
    assert(a_i * b_j + a_j * b_i < (2 * b_j) * a_i) by (nonlinear_arith)
        requires
            a_i * b_j > a_j * b_i,
    ;
    assert(0 <= a_i * b_j + a_j * b_i) by (nonlinear_arith)
        requires
            0 <= a_i,
            0 <= a_j,
            0 < b_i,
            0 < b_j,
    ;
    lemma_div_below(a_i * b_j + a_j * b_i, 2 * b_j, a_i);
    lemma_div_pos_is_pos(a_i * b_j + a_j * b_i, 2 * b_j);
}

/// The taxed deposit is a genuine part of the raw deposit:
/// `0 <= adjusted <= a_i`, and with no fee nothing is taken at all.
pub proof fn lemma_adjusted_deposit_bounds(a_i: int, b_i: int, a_j: int, b_j: int, fee: int)
    ensures
        0 <= a_i && 0 <= a_j && 0 < b_i && 0 < b_j && 0 <= fee <= PRECISION ==> 0
            <= adjusted_deposit(a_i, b_i, a_j, b_j, fee) <= a_i,
        0 <= a_i && 0 <= a_j && 0 < b_i && 0 < b_j ==> adjusted_deposit(a_i, b_i, a_j, b_j, 0)
            == a_i,
{
    if 0 <= a_i && 0 <= a_j && 0 < b_i && 0 < b_j {
        if ratio_exceeds_composite(a_i, b_i, a_j, b_j) {
            lemma_non_taxable_in_range(a_i, b_i, a_j, b_j);
            let nt = non_taxable_portion(a_i, b_i, a_j, b_j);
            if 0 <= fee <= PRECISION {
                lemma_mul_div_le(a_i - nt, PRECISION - fee, PRECISION as int);
                assert(0 <= (a_i - nt) * (PRECISION - fee)) by (nonlinear_arith)
                    requires
                        0 <= a_i - nt,
                        0 <= PRECISION - fee,
                ;
                lemma_div_pos_is_pos((a_i - nt) * (PRECISION - fee), PRECISION as int);
            }
            // with no fee the taxed part is returned whole
            assert((a_i - nt) * (PRECISION - 0) == (PRECISION as int) * (a_i - nt))
                by (nonlinear_arith);
            vstd::arithmetic::div_mod::lemma_div_multiples_vanish(a_i - nt, PRECISION as int);
        }
    }
}

/// A higher fee can only shrink the adjusted deposit.
proof fn lemma_adjusted_deposit_fee_antitone(
    a_i: int,
    b_i: int,
    a_j: int,
    b_j: int,
    fee1: int,
    fee2: int,
)
    requires
        0 <= a_i,
        0 <= a_j,
        0 < b_i,
        0 < b_j,
        0 <= fee1 <= fee2 <= PRECISION,
    ensures
        adjusted_deposit(a_i, b_i, a_j, b_j, fee2) <= adjusted_deposit(a_i, b_i, a_j, b_j, fee1),
{
    if ratio_exceeds_composite(a_i, b_i, a_j, b_j) {
        lemma_non_taxable_in_range(a_i, b_i, a_j, b_j);
        let nt = non_taxable_portion(a_i, b_i, a_j, b_j);
        assert((a_i - nt) * (PRECISION - fee2) <= (a_i - nt) * (PRECISION - fee1))
            by (nonlinear_arith)
            requires
                0 <= a_i - nt,
                fee1 <= fee2,
        ;
        assert(0 <= (a_i - nt) * (PRECISION - fee2)) by (nonlinear_arith)
            requires
                0 <= a_i - nt,
                fee2 <= PRECISION,
        ;
        lemma_div_is_ordered(
            (a_i - nt) * (PRECISION - fee2),
            (a_i - nt) * (PRECISION - fee1),
            PRECISION as int,
        );
    }
}

/// The per-asset ratio grows with the adjusted deposit and is never negative.
proof fn lemma_deposit_ratio_monotone(b: int, adj1: int, adj2: int)
    requires
        0 < b,
        0 <= adj1 <= adj2,
    ensures
        0 <= deposit_ratio(b, adj1) <= deposit_ratio(b, adj2),
{
    assert((b + adj1) * PRECISION <= (b + adj2) * PRECISION) by (nonlinear_arith)
        requires
            adj1 <= adj2,
    ;
    assert(0 <= (b + adj1) * PRECISION) by (nonlinear_arith)
        requires
            0 < b,
            0 <= adj1,
    ;
    lemma_div_is_ordered((b + adj1) * PRECISION, (b + adj2) * PRECISION, b);
    lemma_div_pos_is_pos((b + adj1) * PRECISION, b);
}

/// Issued shares are never negative.
pub proof fn lemma_lpt_issued_nonneg(supply: int, a0: int, a1: int, b0: int, b1: int, fee: int)
    requires
        0 <= supply,
    ensures
        0 <= lpt_issued(supply, a0, a1, b0, b1, fee),
{
    let ir = invariant_ratio(a0, a1, b0, b1, fee);
    if ir > PRECISION {
        assert(0 <= supply * (ir - PRECISION)) by (nonlinear_arith)
            requires
                0 <= supply,
                PRECISION < ir,
        ;
        lemma_div_pos_is_pos(supply * (ir - PRECISION), PRECISION as int);
    }
}

/// A higher fee can only shrink the issued shares, all else equal.
pub proof fn lemma_lpt_issued_fee_antitone(
    supply: int,
    a0: int,
    a1: int,
    b0: int,
    b1: int,
    fee1: int,
    fee2: int,
)
    requires
        0 <= supply,
        0 <= a0,
        0 <= a1,
        0 < b0,
        0 < b1,
        0 <= fee1 <= fee2 <= PRECISION,
    ensures
        lpt_issued(supply, a0, a1, b0, b1, fee2) <= lpt_issued(supply, a0, a1, b0, b1, fee1),
{
    lemma_adjusted_deposit_bounds(a0, b0, a1, b1, fee1);
    lemma_adjusted_deposit_bounds(a0, b0, a1, b1, fee2);
    lemma_adjusted_deposit_bounds(a1, b1, a0, b0, fee1);
    lemma_adjusted_deposit_bounds(a1, b1, a0, b0, fee2);
    lemma_adjusted_deposit_fee_antitone(a0, b0, a1, b1, fee1, fee2);
    lemma_adjusted_deposit_fee_antitone(a1, b1, a0, b0, fee1, fee2);
    let x0 = adjusted_deposit(a0, b0, a1, b1, fee2);
    let y0 = adjusted_deposit(a0, b0, a1, b1, fee1);
    let x1 = adjusted_deposit(a1, b1, a0, b0, fee2);
    let y1 = adjusted_deposit(a1, b1, a0, b0, fee1);
    lemma_deposit_ratio_monotone(b0, x0, y0);
    lemma_deposit_ratio_monotone(b1, x1, y1);
    let rx0 = deposit_ratio(b0, x0);
    let ry0 = deposit_ratio(b0, y0);
    let rx1 = deposit_ratio(b1, x1);
    let ry1 = deposit_ratio(b1, y1);
    assert(rx0 * rx1 <= ry0 * ry1) by (nonlinear_arith)
        requires
            0 <= rx0 <= ry0,
            0 <= rx1 <= ry1,
    ;
    assert(0 <= rx0 * rx1) by (nonlinear_arith)
        requires
            0 <= rx0,
            0 <= rx1,
    ;
    lemma_sqrt_floor_monotone((rx0 * rx1) as nat, (ry0 * ry1) as nat);
    let ir2 = invariant_ratio(a0, a1, b0, b1, fee2);
    let ir1 = invariant_ratio(a0, a1, b0, b1, fee1);
    assert(ir2 <= ir1);
    lemma_lpt_issued_nonneg(supply, a0, a1, b0, b1, fee1);
    if ir2 > PRECISION {
        assert(supply * (ir2 - PRECISION) <= supply * (ir1 - PRECISION)) by (nonlinear_arith)
            requires
                0 <= supply,
                ir2 <= ir1,
        ;
        assert(0 <= supply * (ir2 - PRECISION)) by (nonlinear_arith)
            requires
                0 <= supply,
                PRECISION < ir2,
        ;
        lemma_div_is_ordered(
            supply * (ir2 - PRECISION),
            supply * (ir1 - PRECISION),
            PRECISION as int,
        );
    }
}

/// A fee can only reduce the shares issued for a deposit: for any valid
/// reserves and any fee rate within `PRECISION`, the issuance with the fee
/// never exceeds the fee-free issuance.
pub proof fn lemma_fee_only_reduces_issuance(
    supply: int,
    a0: int,
    a1: int,
    b0: int,
    b1: int,
    fee: int,
)
    requires
        0 <= supply,
        0 <= a0,
        0 <= a1,
        0 < b0,
        0 < b1,
        0 <= fee <= PRECISION,
    ensures
        lpt_issued(supply, a0, a1, b0, b1, fee) <= lpt_issued(supply, a0, a1, b0, b1, 0),
{
    lemma_lpt_issued_fee_antitone(supply, a0, a1, b0, b1, 0, fee);
}

/// The swap output is within the ask reserve and never negative.
pub proof fn lemma_swap_output_bounds(bid_amount: int, bid_reserve: int, ask_reserve: int, fee: int)
    requires
        0 <= bid_amount,
        0 <= bid_reserve,
        0 <= ask_reserve,
        0 <= fee <= PRECISION,
        0 < bid_reserve + bid_amount,
    ensures
        0 <= swap_output(bid_amount, bid_reserve, ask_reserve, fee) <= ask_reserve,
        0 <= swap_output_before_fee(bid_amount, bid_reserve, ask_reserve) <= ask_reserve,
{
    let sobf = swap_output_before_fee(bid_amount, bid_reserve, ask_reserve);
    assert(0 <= ask_reserve * bid_amount) by (nonlinear_arith)
        requires
            0 <= ask_reserve,
            0 <= bid_amount,
    ;
    lemma_div_pos_is_pos(ask_reserve * bid_amount, bid_reserve + bid_amount);
    lemma_mul_div_le(ask_reserve, bid_amount, bid_reserve + bid_amount);
    lemma_mul_div_le(sobf, PRECISION - fee, PRECISION as int);
    assert(0 <= sobf * (PRECISION - fee)) by (nonlinear_arith)
        requires
            0 <= sobf,
            fee <= PRECISION,
    ;
    lemma_div_pos_is_pos(sobf * (PRECISION - fee), PRECISION as int);
}

/// The swap output never decreases as the bid amount grows, for fixed
/// reserves and fee.
pub proof fn lemma_swap_output_monotone_in_bid(
    bid1: int,
    bid2: int,
    bid_reserve: int,
    ask_reserve: int,
    fee: int,
)
    requires
        0 <= bid1 <= bid2,
        0 <= bid_reserve,
        0 <= ask_reserve,
        0 <= fee <= PRECISION,
        0 < bid_reserve + bid1,
    ensures
        swap_output(bid1, bid_reserve, ask_reserve, fee) <= swap_output(
            bid2,
            bid_reserve,
            ask_reserve,
            fee,
        ),
{
    lemma_swap_output_bounds(bid1, bid_reserve, ask_reserve, fee);
    lemma_swap_output_bounds(bid2, bid_reserve, ask_reserve, fee);
    assert((ask_reserve * bid1) * (bid_reserve + bid2) <= (ask_reserve * bid2) * (bid_reserve
        + bid1)) by (nonlinear_arith)
        requires
            0 <= bid1 <= bid2,
            0 <= bid_reserve,
            0 <= ask_reserve,
    ;
    assert(0 <= ask_reserve * bid1) by (nonlinear_arith)
        requires
            0 <= ask_reserve,
            0 <= bid1,
    ;
    lemma_div_frac_le(
        ask_reserve * bid1,
        bid_reserve + bid1,
        ask_reserve * bid2,
        bid_reserve + bid2,
    );
    let s1 = swap_output_before_fee(bid1, bid_reserve, ask_reserve);
    let s2 = swap_output_before_fee(bid2, bid_reserve, ask_reserve);
    assert(s1 * (PRECISION - fee) <= s2 * (PRECISION - fee)) by (nonlinear_arith)
        requires
            0 <= s1 <= s2,
            fee <= PRECISION,
    ;
    assert(0 <= s1 * (PRECISION - fee)) by (nonlinear_arith)
        requires
            0 <= s1,
            fee <= PRECISION,
    ;
    lemma_div_is_ordered(s1 * (PRECISION - fee), s2 * (PRECISION - fee), PRECISION as int);
}

/// The swap output never increases as the fee grows, for fixed reserves and
/// bid amount.
pub proof fn lemma_swap_output_antitone_in_fee(
    bid_amount: int,
    bid_reserve: int,
    ask_reserve: int,
    fee1: int,
    fee2: int,
)
    requires
        0 <= bid_amount,
        0 <= bid_reserve,
        0 <= ask_reserve,
        0 <= fee1 <= fee2 <= PRECISION,
        0 < bid_reserve + bid_amount,
    ensures
        swap_output(bid_amount, bid_reserve, ask_reserve, fee2) <= swap_output(
            bid_amount,
            bid_reserve,
            ask_reserve,
            fee1,
        ),
{
    lemma_swap_output_bounds(bid_amount, bid_reserve, ask_reserve, fee1);
    let s = swap_output_before_fee(bid_amount, bid_reserve, ask_reserve);
    assert(s * (PRECISION - fee2) <= s * (PRECISION - fee1)) by (nonlinear_arith)
        requires
            0 <= s,
            fee1 <= fee2,
    ;
    assert(0 <= s * (PRECISION - fee2)) by (nonlinear_arith)
        requires
            0 <= s,
            fee2 <= PRECISION,
    ;
    lemma_div_is_ordered(s * (PRECISION - fee2), s * (PRECISION - fee1), PRECISION as int);
}

/// Depositing `(a0, a1)` in the reserves' own proportion and immediately
/// redeeming the issued shares pro rata returns at most `(a0, a1)`: fees
/// and rounding never let a depositor extract more than was put in. (An
/// out-of-proportion deposit shifts value between the two sides and is not
/// covered: with no fee, depositing only the stable side and withdrawing
/// pro rata pays out some of the primary side in exchange.)
pub proof fn lemma_balanced_deposit_round_trip(
    supply: int,
    a0: int,
    a1: int,
    b0: int,
    b1: int,
    fee: int,
)
    requires
        0 < supply,
        0 <= a0,
        0 <= a1,
        0 < b0,
        0 < b1,
        0 <= fee <= PRECISION,
        a0 * b1 == a1 * b0,
    ensures
        withdraw_amount(
            b0 + a0,
            lpt_issued(supply, a0, a1, b0, b1, fee),
            supply + lpt_issued(supply, a0, a1, b0, b1, fee),
        ) <= a0,
        withdraw_amount(
            b1 + a1,
            lpt_issued(supply, a0, a1, b0, b1, fee),
            supply + lpt_issued(supply, a0, a1, b0, b1, fee),
        ) <= a1,
{
    let l = lpt_issued(supply, a0, a1, b0, b1, fee);
    lemma_lpt_issued_nonneg(supply, a0, a1, b0, b1, fee);
    // a proportional deposit leaves both balance ratios equal: no tax
    assert(!ratio_exceeds_composite(a0, b0, a1, b1) && !ratio_exceeds_composite(a1, b1, a0, b0))
        by (nonlinear_arith)
        requires
            a0 * b1 == a1 * b0,
    ;
    assert(adjusted_deposit(a0, b0, a1, b1, fee) == a0);
    assert(adjusted_deposit(a1, b1, a0, b0, fee) == a1);
    let x0 = (b0 + a0) * (PRECISION as int);
    let x1 = (b1 + a1) * (PRECISION as int);
    let r0 = deposit_ratio(b0, a0);
    let r1 = deposit_ratio(b1, a1);
    assert(0 <= x0 && 0 <= x1) by (nonlinear_arith)
        requires
            0 < b0,
            0 <= a0,
            0 < b1,
            0 <= a1,
            x0 == (b0 + a0) * (PRECISION as int),
            x1 == (b1 + a1) * (PRECISION as int),
    ;
    lemma_div_mul_le(x0, b0);
    lemma_div_mul_le(x1, b1);
    assert(x1 * b0 == x0 * b1) by (nonlinear_arith)
        requires
            a0 * b1 == a1 * b0,
            x0 == (b0 + a0) * (PRECISION as int),
            x1 == (b1 + a1) * (PRECISION as int),
    ;
    assert(0 <= r0 * r1) by (nonlinear_arith)
        requires
            0 <= r0,
            0 <= r1,
    ;
    let ir = invariant_ratio(a0, a1, b0, b1, fee);
    lemma_sqrt_floor_bounds((r0 * r1) as nat);
    assert(ir * ir <= r0 * r1);
    // the geometric-mean ratio stays within each side's own ratio bound
    assert((r0 * r1) * (b0 * b1) <= x0 * x1) by (nonlinear_arith)
        requires
            0 <= r0,
            0 <= r1,
            0 < b0,
            0 < b1,
            r0 * b0 <= x0,
            r1 * b1 <= x1,
    ;
    assert(ir * b0 <= x0 && ir * b1 <= x1) by (nonlinear_arith)
        requires
            0 <= ir,
            0 <= x0,
            0 <= x1,
            0 < b0,
            0 < b1,
            ir * ir <= r0 * r1,
            (r0 * r1) * (b0 * b1) <= x0 * x1,
            x1 * b0 == x0 * b1,
    ;
    if ir > PRECISION {
        let growth = supply * (ir - PRECISION);
        assert(0 <= growth) by (nonlinear_arith)
            requires
                0 < supply,
                PRECISION < ir,
                growth == supply * (ir - PRECISION),
        ;
        lemma_div_mul_le(growth, PRECISION as int);
        assert(l == growth / (PRECISION as int));
        assert(b0 * l <= supply * a0 && b1 * l <= supply * a1) by (nonlinear_arith)
            requires
                (growth / (PRECISION as int)) * (PRECISION as int) <= growth,
                growth == supply * (ir - PRECISION),
                l == growth / (PRECISION as int),
                0 <= l,
                0 < supply,
                0 < b0,
                0 < b1,
                ir * b0 <= (b0 + a0) * (PRECISION as int),
                ir * b1 <= (b1 + a1) * (PRECISION as int),
        ;
    } else {
        assert(l == 0);
        assert(b0 * l <= supply * a0 && b1 * l <= supply * a1) by (nonlinear_arith)
            requires
                l == 0,
                0 < supply,
                0 <= a0,
                0 <= a1,
        ;
    }
    assert((b0 + a0) * l <= (supply + l) * a0 && (b1 + a1) * l <= (supply + l) * a1)
        by (nonlinear_arith)
        requires
            b0 * l <= supply * a0,
            b1 * l <= supply * a1,
            0 <= l,
            0 <= a0,
            0 <= a1,
    ;
    assert(0 <= (b0 + a0) * l && 0 <= (b1 + a1) * l) by (nonlinear_arith)
        requires
            0 <= l,
            0 < b0,
            0 <= a0,
            0 < b1,
            0 <= a1,
    ;
    lemma_div_at_most((b0 + a0) * l, supply + l, a0);
    lemma_div_at_most((b1 + a1) * l, supply + l, a1);
}

/// Borrowing and then repaying in full clears the position and moves back
/// exactly what the borrow moved out: the repayment returns the borrowed
/// base amount to the treasury, and the borrower gets back the locked
/// shares — the amount borrowed against minus the fee burned at borrow
/// time.
pub proof fn lemma_borrow_repay_round_trip(
    p: Pool,
    c: Cheque,
    authority: AccountId,
    pool_id: AccountId,
    lpt_amount: u64,
    supply: u64,
)
    requires
        p.wf(),
        c.borrow_amount == 0,
        c.base_amount == 0,
        borrow_ok(p, c, lpt_amount, supply),
    ensures
        ({
            let after = borrow_next_cheque(p, c, authority, pool_id, lpt_amount, supply);
            &&& after.borrow_amount == lpt_amount - borrow_fee_amt(p, lpt_amount)
            &&& after.base_amount == borrow_base_out(p, lpt_amount, supply)
            &&& repay_actions(after.base_amount, after.borrow_amount) == seq![
                transfer_in(Asset::Base, borrow_base_out(p, lpt_amount, supply) as u64),
                transfer_out(Asset::Lpt, (lpt_amount - borrow_fee_amt(p, lpt_amount)) as u64),
            ]
        }),
{
    lemma_fee_amount_le(p.fee as int, lpt_amount as int);
    let net = borrow_net(p, lpt_amount);
    let bout = borrow_base_out(p, lpt_amount, supply);
    assert(0 <= net <= u64::MAX);
    assert(0 <= p.stable_balance * net) by (nonlinear_arith)
        requires
            0 <= p.stable_balance,
            0 <= net,
    ;
    lemma_div_pos_is_pos(p.stable_balance as int * net, supply as int);
    assert(0 <= bout <= u64::MAX);
}

} // verus!
