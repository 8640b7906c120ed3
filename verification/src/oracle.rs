//! Stateless invariant math for the weighted pool.
//!
//! All quantities cross the interface as unsigned integers; rates and weight
//! fractions are carried in parts per [`PRECISION`]. Internally every step
//! runs in checked 128-bit arithmetic: any overflow, division by zero or
//! out-of-range final value makes the whole function report a computation
//! failure (`None`) instead of returning a partial result.

use vstd::prelude::*;

verus! {

use crate::arith::isqrt_u128;
use crate::arith::lemma_div_at_most;
use crate::arith::lemma_div_below;
use crate::arith::lemma_mul_div_le;
use crate::arith::lemma_u64_mul_fits;
use crate::arith::sqrt_floor;
use vstd::arithmetic::div_mod::lemma_div_pos_is_pos;

/// Fixed denominator for fee rates and weight fractions.
pub const PRECISION: u64 = 1000000000;

/// Fee taken from `amount` at rate `fee` (parts per `PRECISION`).
pub open spec fn fee_amount(fee: int, amount: int) -> int {
    amount * fee / (PRECISION as int)
}

/// Both assets carry equal weight, so each normalized weight is one half,
/// expressed in parts per `PRECISION`.
pub fn calc_normalize_weight(weight_idx: usize) -> (r: Option<u64>)
    requires
        weight_idx < 2,
    ensures
        r == Some(500000000u64),
{
    Some(PRECISION / 2)
}

/// Initial share issuance for deposits `(a, b)`: twice the floored square
/// root of their product, the weighted geometric mean of two equally
/// weighted assets scaled by the asset count.
pub open spec fn starting_lpt(amount: int, stable_amount: int) -> int {
    2 * (sqrt_floor((amount * stable_amount) as nat) as int)
}

/// Share issuance at pool creation.
pub fn calc_starting_lpt(amount_mint: u64, amount_stable_mint: u64) -> (r: Option<u64>)
    ensures
        r is Some <==> starting_lpt(amount_mint as int, amount_stable_mint as int) <= u64::MAX,
        r matches Some(v) ==> v == starting_lpt(amount_mint as int, amount_stable_mint as int),
{
    proof {
        lemma_u64_mul_fits(amount_mint, amount_stable_mint);
    }
    let prod: u128 = (amount_mint as u128) * (amount_stable_mint as u128);
    let s: u64 = isqrt_u128(prod);
    if s > u64::MAX / 2 {
        return None;
    }
    Some(2 * s)
}

/// Swap output before the fee: `ask_reserve * bid_amount / (bid_reserve + bid_amount)`,
/// the equal-weight constant-product curve with flooring division.
pub open spec fn swap_output_before_fee(bid_amount: int, bid_reserve: int, ask_reserve: int) -> int {
    ask_reserve * bid_amount / (bid_reserve + bid_amount)
}

/// Swap output after scaling by `1 - fee/PRECISION`.
pub open spec fn swap_output(bid_amount: int, bid_reserve: int, ask_reserve: int, fee: int) -> int {
    swap_output_before_fee(bid_amount, bid_reserve, ask_reserve) * (PRECISION - fee)
        / (PRECISION as int)
}

/// Output released for swapping `bid_amount` against the reserves, minus the
/// fee. Fails when both the bid reserve and the bid amount are zero (the
/// curve is undefined) or when the fee rate exceeds `PRECISION`.
pub fn calc_ask_amount_swap(bid_amount: u64, bid_reserve: u64, ask_reserve: u64, fee: u64) -> (r:
    Option<u64>)
    ensures
        r is Some <==> (bid_reserve + bid_amount > 0 && fee <= PRECISION),
        r matches Some(v) ==> v == swap_output(
            bid_amount as int,
            bid_reserve as int,
            ask_reserve as int,
            fee as int,
        ),
{
    if fee > PRECISION {
        return None;
    }
    let denom: u128 = bid_reserve as u128 + bid_amount as u128;
    if denom == 0 {
        return None;
    }
    proof {
        lemma_u64_mul_fits(ask_reserve, bid_amount);
    }
    let num: u128 = (ask_reserve as u128) * (bid_amount as u128);
    let before_fee: u128 = num / denom;
    proof {
        lemma_mul_div_le(ask_reserve as int, bid_amount as int, denom as int);
    }
    let rebate: u128 = (PRECISION - fee) as u128;
    proof {
        assert((before_fee as int) * (rebate as int) <= u128::MAX) by (nonlinear_arith)
            requires
                before_fee <= u64::MAX,
                rebate <= 1000000000u128,
        ;
    }
    let scaled: u128 = before_fee * rebate;
    let out: u128 = scaled / (PRECISION as u128);
    proof {
        lemma_mul_div_le(before_fee as int, rebate as int, PRECISION as int);
    }
    Some(out as u64)
}

/// Whether asset `i`'s balance ratio `(b_i + a_i)/b_i` strictly exceeds the
/// weight-averaged composite ratio. With two equally weighted assets that is
/// exactly "asset `i`'s ratio exceeds asset `j`'s".
pub open spec fn ratio_exceeds_composite(a_i: int, b_i: int, a_j: int, b_j: int) -> bool {
    (b_i + a_i) * b_j > (b_j + a_j) * b_i
}

/// Portion of a taxable deposit that matches the composite ratio growth and
/// therefore escapes the fee: `b_i * (composite - 1)`, written over the
/// common denominator `2 * b_i * b_j`.
pub open spec fn non_taxable_portion(a_i: int, b_i: int, a_j: int, b_j: int) -> int {
    (a_i * b_j + a_j * b_i) / (2 * b_j)
}

/// Deposit amount for asset `i` after the excess over the composite ratio is
/// taxed at `fee`; an in-ratio deposit passes through untaxed.
pub open spec fn adjusted_deposit(a_i: int, b_i: int, a_j: int, b_j: int, fee: int) -> int {
    if ratio_exceeds_composite(a_i, b_i, a_j, b_j) {
        let nt = non_taxable_portion(a_i, b_i, a_j, b_j);
        nt + (a_i - nt) * (PRECISION - fee) / (PRECISION as int)
    } else {
        a_i
    }
}

/// Per-asset balance ratio `(b + adj)/b`, in parts per `PRECISION`.
pub open spec fn deposit_ratio(b: int, adj: int) -> int {
    (b + adj) * PRECISION / b
}

/// Invariant ratio after a deposit: the floored square root of the product
/// of the two per-asset ratios (their geometric mean, as both weights are
/// one half), in parts per `PRECISION`.
pub open spec fn invariant_ratio(a0: int, a1: int, b0: int, b1: int, fee: int) -> int {
    sqrt_floor(
        (deposit_ratio(b0, adjusted_deposit(a0, b0, a1, b1, fee)) * deposit_ratio(
            b1,
            adjusted_deposit(a1, b1, a0, b0, fee),
        )) as nat,
    ) as int
}

/// Shares issued for a deposit: `supply * (invariant_ratio - 1)` when the
/// invariant grew, zero otherwise.
pub open spec fn lpt_issued(supply: int, a0: int, a1: int, b0: int, b1: int, fee: int) -> int {
    let ir = invariant_ratio(a0, a1, b0, b1, fee);
    if ir > PRECISION {
        supply * (ir - PRECISION) / (PRECISION as int)
    } else {
        0
    }
}

/// Exactly when the checked computation of `lpt_issued` succeeds: non-empty
/// reserves, a fee rate within `PRECISION`, every 128-bit intermediate in
/// range, and a final value that fits in 64 bits.
pub open spec fn lpt_issuance_ok(supply: int, a0: int, a1: int, b0: int, b1: int, fee: int) -> bool {
    &&& 0 < b0
    &&& 0 < b1
    &&& fee <= PRECISION
    &&& (b0 + a0) * b1 <= u128::MAX
    &&& (b1 + a1) * b0 <= u128::MAX
    &&& ((b0 + a0) * b1 != (b1 + a1) * b0 ==> a0 * b1 + a1 * b0 <= u128::MAX)
    &&& deposit_ratio(b0, adjusted_deposit(a0, b0, a1, b1, fee)) * deposit_ratio(
        b1,
        adjusted_deposit(a1, b1, a0, b0, fee),
    ) <= u128::MAX
    &&& lpt_issued(supply, a0, a1, b0, b1, fee) <= u64::MAX
}

/// Share issuance for an arbitrary (possibly imbalanced) two-asset deposit,
/// Balancer style: any deposit whose balance ratio exceeds the composite
/// ratio has only its excess portion taxed at `total_fee` before the taxed
/// amounts are folded into the invariant ratio.
pub fn calc_lpt_receive_add_full_side(
    supply: u64,
    amounts_in: &Vec<u64>,
    reserves: &Vec<u64>,
    total_fee: u64,
) -> (r: Option<u64>)
    requires
        amounts_in@.len() == 2,
        reserves@.len() == 2,
    ensures
        r is Some <==> lpt_issuance_ok(
            supply as int,
            amounts_in@[0] as int,
            amounts_in@[1] as int,
            reserves@[0] as int,
            reserves@[1] as int,
            total_fee as int,
        ),
        r matches Some(v) ==> v == lpt_issued(
            supply as int,
            amounts_in@[0] as int,
            amounts_in@[1] as int,
            reserves@[0] as int,
            reserves@[1] as int,
            total_fee as int,
        ),
{
    let a0 = amounts_in[0];
    let a1 = amounts_in[1];
    let b0 = reserves[0];
    let b1 = reserves[1];
    if b0 == 0 || b1 == 0 {
        return None;
    }
    if total_fee > PRECISION {
        return None;
    }
    // Cross products comparing each balance ratio with the other's.
    let s0: u128 = b0 as u128 + a0 as u128;
    let s1: u128 = b1 as u128 + a1 as u128;
    let c0: u128 = match s0.checked_mul(b1 as u128) {
        Some(v) => v,
        None => {
            return None;
        },
    };
    let c1: u128 = match s1.checked_mul(b0 as u128) {
        Some(v) => v,
        None => {
            return None;
        },
    };
    let adj0: u64;
    let adj1: u64;
    if c0 == c1 {
        adj0 = a0;
        adj1 = a1;
    } else {
        proof {
            lemma_u64_mul_fits(a0, b1);
            lemma_u64_mul_fits(a1, b0);
        }
        let e0: u128 = (a0 as u128) * (b1 as u128);
        let e1: u128 = (a1 as u128) * (b0 as u128);
        let ntn: u128 = match e0.checked_add(e1) {
            Some(v) => v,
            None => {
                return None;
            },
        };
        let rebate: u64 = PRECISION - total_fee;
        if c0 > c1 {
            proof {
                assert(a0 * b1 > a1 * b0) by (nonlinear_arith)
                    requires
                        (b0 + a0) * b1 > (b1 + a1) * b0,
                ;
                assert(ntn < (2 * (b1 as int)) * (a0 as int)) by (nonlinear_arith)
                    requires
                        ntn == a0 * b1 + a1 * b0,
                        a0 * b1 > a1 * b0,
                ;
                lemma_div_below(ntn as int, 2 * (b1 as int), a0 as int);
            }
            let nt128: u128 = ntn / (2 * (b1 as u128));
            let nt: u64 = nt128 as u64;
            let taxed: u64 = a0 - nt;
            proof {
                lemma_u64_mul_fits(taxed, rebate);
                lemma_mul_div_le(taxed as int, rebate as int, PRECISION as int);
            }
            let cut: u128 = (taxed as u128) * (rebate as u128) / (PRECISION as u128);
            adj0 = nt + (cut as u64);
            adj1 = a1;
            proof {
                assert(adj0 == adjusted_deposit(a0 as int, b0 as int, a1 as int, b1 as int, total_fee as int));
                assert(adj1 == adjusted_deposit(a1 as int, b1 as int, a0 as int, b0 as int, total_fee as int));
            }
        } else {
            proof {
                assert(a1 * b0 > a0 * b1) by (nonlinear_arith)
                    requires
                        (b1 + a1) * b0 > (b0 + a0) * b1,
                ;
                assert(ntn < (2 * (b0 as int)) * (a1 as int)) by (nonlinear_arith)
                    requires
                        ntn == a0 * b1 + a1 * b0,
                        a1 * b0 > a0 * b1,
                ;
                lemma_div_below(ntn as int, 2 * (b0 as int), a1 as int);
            }
            let nt128: u128 = ntn / (2 * (b0 as u128));
            let nt: u64 = nt128 as u64;
            let taxed: u64 = a1 - nt;
            proof {
                lemma_u64_mul_fits(taxed, rebate);
                lemma_mul_div_le(taxed as int, rebate as int, PRECISION as int);
            }
            let cut: u128 = (taxed as u128) * (rebate as u128) / (PRECISION as u128);
            adj0 = a0;
            adj1 = nt + (cut as u64);
            proof {
                assert(adj0 == adjusted_deposit(a0 as int, b0 as int, a1 as int, b1 as int, total_fee as int));
                assert(adj1 == adjusted_deposit(a1 as int, b1 as int, a0 as int, b0 as int, total_fee as int));
            }
        }
    }
    proof {
        assert(((b0 as int) + (adj0 as int)) * (PRECISION as int) <= u128::MAX) by (nonlinear_arith)
            requires
                b0 <= u64::MAX,
                adj0 <= u64::MAX,
        ;
        assert(((b1 as int) + (adj1 as int)) * (PRECISION as int) <= u128::MAX) by (nonlinear_arith)
            requires
                b1 <= u64::MAX,
                adj1 <= u64::MAX,
        ;
    }
    // Per-asset balance ratios in parts per PRECISION.
    let r0: u128 = ((b0 as u128) + (adj0 as u128)) * (PRECISION as u128) / (b0 as u128);
    let r1: u128 = ((b1 as u128) + (adj1 as u128)) * (PRECISION as u128) / (b1 as u128);
    let rp: u128 = match r0.checked_mul(r1) {
        Some(v) => v,
        None => {
            return None;
        },
    };
    let ir: u64 = isqrt_u128(rp);
    if ir > PRECISION {
        let growth: u64 = ir - PRECISION;
        proof {
            lemma_u64_mul_fits(supply, growth);
        }
        let num: u128 = (supply as u128) * (growth as u128);
        let lpt_out: u128 = num / (PRECISION as u128);
        if lpt_out > u64::MAX as u128 {
            return None;
        }
        Some(lpt_out as u64)
    } else {
        Some(0)
    }
}

/// Fixed-point power at scale `PRECISION`: one multiply-and-floor step per
/// unit of exponent, starting from `PRECISION` (which stands for one).
pub open spec fn pow_fp(x: int, e: nat) -> int
    decreases e,
{
    if e == 0 {
        PRECISION as int
    } else {
        x * pow_fp(x, (e - 1) as nat) / (PRECISION as int)
    }
}

pub proof fn lemma_pow_fp_bounds(x: int, e: nat)
    requires
        0 <= x <= PRECISION,
    ensures
        0 <= pow_fp(x, e) <= PRECISION,
    decreases e,
{
    if e > 0 {
        lemma_pow_fp_bounds(x, (e - 1) as nat);
        let p = pow_fp(x, (e - 1) as nat);
        assert(x * p == p * x) by (nonlinear_arith);
        lemma_mul_div_le(p, x, PRECISION as int);
        assert(0 <= p * x) by (nonlinear_arith)
            requires
                0 <= p,
                0 <= x,
        ;
        lemma_div_pos_is_pos(p * x, PRECISION as int);
    }
}

/// Share of the supply that remains after burning `lpt_amount`, in parts
/// per `PRECISION`.
pub open spec fn remaining_ratio(lpt_amount: int, supply: int) -> int {
    (supply - lpt_amount) * PRECISION / supply
}

/// Single-asset withdrawal: the asset released for burning `lpt_amount`
/// shares is `balance * (1 - remaining_ratio^(1/weight))`, and the fraction
/// of it given by the weight's complement is taxed at `fee`.
pub open spec fn single_side_out(
    lpt_amount: int,
    supply: int,
    weight: int,
    balance: int,
    fee: int,
) -> int {
    let tbt = remaining_ratio(lpt_amount, supply);
    let powed = pow_fp(tbt, (PRECISION as int / weight) as nat);
    let without_fee = balance * (PRECISION - powed) / (PRECISION as int);
    let taxable = without_fee * (PRECISION - weight) / (PRECISION as int);
    let non_taxable = without_fee - taxable;
    non_taxable + taxable * (PRECISION - fee) / (PRECISION as int)
}

/// Amount of one asset released for a single-side withdrawal. The
/// normalized weight is given in parts per `PRECISION` and must divide
/// `PRECISION` evenly, so that the curve's reciprocal exponent `1/weight`
/// is a whole number (it is two for the pool's equal weights).
pub fn calc_mint_receive_remove_single_side(
    lpt_amount: u64,
    supply_lpt: u64,
    normalize_weight: u64,
    balance: u64,
    fee: u64,
) -> (r: Option<u64>)
    ensures
        r is Some <==> (lpt_amount <= supply_lpt && supply_lpt > 0 && 0 < normalize_weight
            <= PRECISION && PRECISION % normalize_weight == 0 && fee <= PRECISION),
        r matches Some(v) ==> v == single_side_out(
            lpt_amount as int,
            supply_lpt as int,
            normalize_weight as int,
            balance as int,
            fee as int,
        ),
{
    if lpt_amount > supply_lpt || supply_lpt == 0 {
        return None;
    }
    if normalize_weight == 0 || normalize_weight > PRECISION {
        return None;
    }
    if PRECISION % normalize_weight != 0 {
        return None;
    }
    if fee > PRECISION {
        return None;
    }
    let exponent: u64 = PRECISION / normalize_weight;
    let kept: u64 = supply_lpt - lpt_amount;
    proof {
        lemma_u64_mul_fits(kept, PRECISION);
        lemma_div_at_most(
            (kept as int) * (PRECISION as int),
            supply_lpt as int,
            PRECISION as int,
        );
        assert((kept as int) * (PRECISION as int) <= (supply_lpt as int) * (PRECISION as int))
            by (nonlinear_arith)
            requires
                kept <= supply_lpt,
        ;
    }
    let tbt: u64 = (((kept as u128) * (PRECISION as u128)) / (supply_lpt as u128)) as u64;
    let mut powed: u64 = PRECISION;
    let mut step: u64 = 0;
    proof {
        lemma_pow_fp_bounds(tbt as int, exponent as nat);
    }
    while step < exponent
        invariant
            step <= exponent,
            tbt <= PRECISION,
            0 <= powed <= PRECISION,
            powed == pow_fp(tbt as int, step as nat),
        decreases exponent - step,
    {
        proof {
            lemma_u64_mul_fits(tbt, powed);
            assert((tbt as int) * (powed as int) == (powed as int) * (tbt as int))
                by (nonlinear_arith);
            lemma_mul_div_le(powed as int, tbt as int, PRECISION as int);
            assert(0 <= (powed as int) * (tbt as int)) by (nonlinear_arith)
                requires
                    0 <= powed,
                    0 <= tbt,
            ;
            lemma_div_pos_is_pos((powed as int) * (tbt as int), PRECISION as int);
        }
        powed = (((tbt as u128) * (powed as u128)) / (PRECISION as u128)) as u64;
        step = step + 1;
    }
    let shrink: u64 = PRECISION - powed;
    proof {
        lemma_u64_mul_fits(balance, shrink);
        lemma_mul_div_le(balance as int, shrink as int, PRECISION as int);
    }
    let without_fee: u64 = (((balance as u128) * (shrink as u128)) / (PRECISION as u128)) as u64;
    let taxable_pct: u64 = PRECISION - normalize_weight;
    proof {
        lemma_u64_mul_fits(without_fee, taxable_pct);
        lemma_mul_div_le(without_fee as int, taxable_pct as int, PRECISION as int);
    }
    let taxable: u64 = (((without_fee as u128) * (taxable_pct as u128)) / (PRECISION as u128))
        as u64;
    let non_taxable: u64 = without_fee - taxable;
    let rebate: u64 = PRECISION - fee;
    proof {
        lemma_u64_mul_fits(taxable, rebate);
        lemma_mul_div_le(taxable as int, rebate as int, PRECISION as int);
    }
    let kept_tax: u64 = (((taxable as u128) * (rebate as u128)) / (PRECISION as u128)) as u64;
    Some(non_taxable + kept_tax)
}

/// Pro-rata share of one reserve for burning `lpt_amount` out of `supply`.
pub open spec fn withdraw_amount(reserve: int, lpt_amount: int, supply: int) -> int {
    reserve * lpt_amount / supply
}

/// Amounts released for a full-side (pro-rata) withdrawal: each reserve
/// scaled by `lpt_amount / supply`, with no fee. Fails when `lpt_amount`
/// exceeds `supply` or the supply is zero.
pub fn calc_mint_receives_remove_full_side(lpt_amount: u64, supply: u64, reserves: &Vec<u64>) -> (r:
    Option<Vec<u64>>)
    ensures
        r is Some <==> (lpt_amount <= supply && supply > 0),
        r matches Some(v) ==> v@.len() == reserves@.len() && (forall|i: int|
            0 <= i < v@.len() ==> #[trigger] v@[i] == withdraw_amount(
                reserves@[i] as int,
                lpt_amount as int,
                supply as int,
            )),
{
    if lpt_amount > supply {
        return None;
    }
    if supply == 0 {
        return None;
    }
    let mut amounts_out: Vec<u64> = Vec::new();
    let mut idx: usize = 0;
    while idx < reserves.len()
        invariant
            idx <= reserves@.len(),
            amounts_out@.len() == idx,
            lpt_amount <= supply,
            supply > 0,
            forall|i: int|
                0 <= i < idx ==> #[trigger] amounts_out@[i] == withdraw_amount(
                    reserves@[i] as int,
                    lpt_amount as int,
                    supply as int,
                ),
        decreases reserves@.len() - idx,
    {
        let reserve = reserves[idx];
        proof {
            lemma_u64_mul_fits(reserve, lpt_amount);
        }
        let q: u128 = (reserve as u128) * (lpt_amount as u128) / (supply as u128);
        proof {
            lemma_mul_div_le(reserve as int, lpt_amount as int, supply as int);
        }
        amounts_out.push(q as u64);
        idx = idx + 1;
    }
    Some(amounts_out)
}

} // verus!
