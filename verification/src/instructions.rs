//! The pool and position state machine.
//!
//! Each operation takes the pool (and, for borrowing, the caller's position)
//! by exclusive reference, validates its inputs, runs the invariant math,
//! and — only if every fallible step succeeded — commits all field updates
//! and returns the custody actions the host must perform. On an error
//! nothing is changed and no action is returned.
//!
//! The live share supply of the share mint is passed in as `supply` where
//! the math needs it: it is the real outstanding supply as reported by the
//! ledger, not the pool's cached `lpt_supply` (borrowing burns fee shares
//! without touching the cache, so the two can differ).

use vstd::prelude::*;

verus! {

use crate::custody::burn_from_user;
use crate::custody::mint_to;
use crate::custody::transfer_in;
use crate::custody::transfer_out;
use crate::custody::Asset;
use crate::custody::CustodyAction;
use crate::custody::Party;
use crate::errors::ErrorCode;
use crate::laws::lemma_fee_only_reduces_issuance;
use crate::laws::lemma_swap_output_antitone_in_fee;
use crate::laws::lemma_swap_output_bounds;
use crate::arith::lemma_mul_div_le;
use crate::oracle::calc_ask_amount_swap;
use crate::oracle::calc_lpt_receive_add_full_side;
use crate::oracle::calc_mint_receives_remove_full_side;
use crate::oracle::fee_amount;
use crate::oracle::lpt_issuance_ok;
use crate::oracle::lpt_issued;
use crate::oracle::swap_output;
use crate::oracle::withdraw_amount;
use crate::schema::lemma_fee_amount_le;
use crate::oracle::calc_starting_lpt;
use crate::oracle::starting_lpt;
use crate::oracle::PRECISION;
use crate::schema::AccountId;
use crate::schema::Cert;
use crate::schema::Cheque;
use crate::schema::Jupiter;
use crate::schema::Pool;

/// Custody actions requested at pool creation: the two deposits move in,
/// the stable asset is back-minted one-for-one to both the treasury and the
/// depositor, and the starting share issuance is minted to the treasury.
pub open spec fn initialize_pool_actions(
    amount: u64,
    stable_amount: u64,
    base_amount: u64,
    lpt_amount: u64,
) -> Seq<CustodyAction> {
    seq![transfer_in(Asset::Primary, amount)] + (if base_amount > 0 {
        seq![transfer_in(Asset::Base, base_amount)]
    } else {
        Seq::empty()
    }) + seq![
        mint_to(Asset::Stable, Party::Treasury, stable_amount),
        mint_to(Asset::Stable, Party::User, stable_amount),
        mint_to(Asset::Lpt, Party::Treasury, lpt_amount),
    ]
}

/// Creates a pool from a non-zero primary and stable deposit, together with
/// the initial depositor's certificate (its amount is the starting-issuance
/// formula applied to the primary and base deposits).
pub fn initialize_pool(
    authority: AccountId,
    pool_id: AccountId,
    mint: AccountId,
    stable_mint: AccountId,
    base_mint: AccountId,
    lpt_mint: AccountId,
    treasurer: AccountId,
    fee: u64,
    amount: u64,
    stable_amount: u64,
    base_amount: u64,
    current_time: i64,
) -> (r: Result<(Pool, Cert, Vec<CustodyAction>), ErrorCode>)
    ensures
        r is Ok <==> (amount > 0 && stable_amount > 0 && fee <= PRECISION && starting_lpt(
            amount as int,
            stable_amount as int,
        ) <= u64::MAX && starting_lpt(amount as int, base_amount as int) <= u64::MAX),
        r matches Ok((pool, cert, acts)) ==> {
            &&& pool == (Pool {
                authority,
                mint,
                base_mint,
                stable_mint,
                lpt_mint,
                treasurer,
                balance: amount,
                stable_balance: stable_amount,
                base_balance: base_amount,
                fee,
                total_lpt_fee: fee,
                lpt_supply: starting_lpt(amount as int, stable_amount as int) as u64,
                start_time: current_time,
            })
            &&& pool.wf()
            &&& cert == (Cert {
                authority,
                pool: pool_id,
                amount: starting_lpt(amount as int, base_amount as int) as u64,
            })
            &&& acts@ == initialize_pool_actions(
                amount,
                stable_amount,
                base_amount,
                pool.lpt_supply,
            )
        },
        (r is Err && r->Err_0 == ErrorCode::AmountZero) <==> (amount == 0 || stable_amount == 0),
        (r is Err && r->Err_0 == ErrorCode::InvalidAmount) <==> (amount > 0 && stable_amount > 0
            && fee > PRECISION),
        (r is Err && r->Err_0 == ErrorCode::ComputationFailure) <==> (amount > 0 && stable_amount
            > 0 && fee <= PRECISION && (starting_lpt(amount as int, stable_amount as int)
            > u64::MAX || starting_lpt(amount as int, base_amount as int) > u64::MAX)),
{
    if !(amount > 0 && stable_amount > 0) {
        return Err(ErrorCode::AmountZero);
    }
    if fee > PRECISION {
        return Err(ErrorCode::InvalidAmount);
    }
    let lpt_amount = match calc_starting_lpt(amount, stable_amount) {
        Some(v) => v,
        None => {
            return Err(ErrorCode::ComputationFailure);
        },
    };
    let cert_amount = match calc_starting_lpt(amount, base_amount) {
        Some(v) => v,
        None => {
            return Err(ErrorCode::ComputationFailure);
        },
    };
    let pool = Pool {
        authority,
        mint,
        base_mint,
        stable_mint,
        lpt_mint,
        treasurer,
        balance: amount,
        stable_balance: stable_amount,
        base_balance: base_amount,
        fee,
        total_lpt_fee: fee,
        lpt_supply: lpt_amount,
        start_time: current_time,
    };
    let cert = Cert { authority, pool: pool_id, amount: cert_amount };
    let mut acts: Vec<CustodyAction> = Vec::new();
    acts.push(
        CustodyAction::Transfer {
            asset: Asset::Primary,
            from: Party::User,
            to: Party::Treasury,
            amount,
        },
    );
    if base_amount > 0 {
        acts.push(
            CustodyAction::Transfer {
                asset: Asset::Base,
                from: Party::User,
                to: Party::Treasury,
                amount: base_amount,
            },
        );
    }
    acts.push(CustodyAction::Mint { asset: Asset::Stable, to: Party::Treasury, amount: stable_amount });
    acts.push(CustodyAction::Mint { asset: Asset::Stable, to: Party::User, amount: stable_amount });
    acts.push(CustodyAction::Mint { asset: Asset::Lpt, to: Party::Treasury, amount: lpt_amount });
    proof {
        assert(acts@ =~= initialize_pool_actions(amount, stable_amount, base_amount, lpt_amount));
    }
    Ok((pool, cert, acts))
}

/// Custody actions for converting base collateral into freshly minted
/// stable asset one-for-one.
pub open spec fn mint_stable_actions(base_amount: u64) -> Seq<CustodyAction> {
    seq![transfer_in(Asset::Base, base_amount), mint_to(Asset::Stable, Party::User, base_amount)]
}

/// Converts `base_amount` of base collateral into the same amount of
/// freshly minted stable asset: the base moves into the treasury and the
/// stable is minted to the caller's wallet.
pub fn mint_stable(pool: &mut Pool, base_amount: u64) -> (r: Result<Vec<CustodyAction>, ErrorCode>)
    ensures
        r is Ok <==> old(pool).base_balance + base_amount <= u64::MAX,
        r matches Ok(acts) ==> *final(pool) == (Pool {
            base_balance: (old(pool).base_balance + base_amount) as u64,
            ..*old(pool)
        }) && acts@ == mint_stable_actions(base_amount),
        r is Err ==> r->Err_0 == ErrorCode::ComputationFailure && *final(pool) == *old(pool),
{
    let new_base_balance = match pool.base_balance.checked_add(base_amount) {
        Some(v) => v,
        None => {
            return Err(ErrorCode::ComputationFailure);
        },
    };
    pool.base_balance = new_base_balance;
    let mut acts: Vec<CustodyAction> = Vec::new();
    acts.push(
        CustodyAction::Transfer {
            asset: Asset::Base,
            from: Party::User,
            to: Party::Treasury,
            amount: base_amount,
        },
    );
    acts.push(CustodyAction::Mint { asset: Asset::Stable, to: Party::User, amount: base_amount });
    proof {
        assert(acts@ =~= mint_stable_actions(base_amount));
    }
    Ok(acts)
}

/// Custody actions for a full repayment: the whole outstanding base debt
/// returns to the treasury and the whole locked share amount returns to the
/// borrower.
pub open spec fn repay_actions(base_amount: u64, borrow_amount: u64) -> Seq<CustodyAction> {
    seq![transfer_in(Asset::Base, base_amount), transfer_out(Asset::Lpt, borrow_amount)]
}

/// Repays a position in full — there is no partial repayment path — and
/// clears it atomically.
pub fn repay(cheque: &mut Cheque) -> (acts: Vec<CustodyAction>)
    ensures
        *final(cheque) == (Cheque { borrow_amount: 0, base_amount: 0, ..*old(cheque) }),
        acts@ == repay_actions(old(cheque).base_amount, old(cheque).borrow_amount),
{
    let mut acts: Vec<CustodyAction> = Vec::new();
    acts.push(
        CustodyAction::Transfer {
            asset: Asset::Base,
            from: Party::User,
            to: Party::Treasury,
            amount: cheque.base_amount,
        },
    );
    acts.push(
        CustodyAction::Transfer {
            asset: Asset::Lpt,
            from: Party::Treasury,
            to: Party::User,
            amount: cheque.borrow_amount,
        },
    );
    cheque.base_amount = 0;
    cheque.borrow_amount = 0;
    proof {
        assert(acts@ =~= repay_actions(old(cheque).base_amount, old(cheque).borrow_amount));
    }
    acts
}

/// Exactly when an add-liquidity succeeds on a well-formed pool: the
/// deposit totals and both issuance computations (with the pool's fee and
/// with none) stay in range, as do all the updated pool fields.
pub open spec fn add_liquidity_ok(
    p: Pool,
    amount: u64,
    stable_amount: u64,
    base_amount: u64,
    supply: u64,
) -> bool {
    let ts = stable_amount + base_amount;
    let l = lpt_issued(supply as int, amount as int, ts, p.balance as int, p.stable_balance as int, p.fee as int);
    let l0 = lpt_issued(supply as int, amount as int, ts, p.balance as int, p.stable_balance as int, 0);
    &&& (base_amount > 0 ==> p.base_balance + base_amount <= u64::MAX)
    &&& stable_amount + base_amount <= u64::MAX
    &&& lpt_issuance_ok(supply as int, amount as int, ts, p.balance as int, p.stable_balance as int, p.fee as int)
    &&& lpt_issuance_ok(supply as int, amount as int, ts, p.balance as int, p.stable_balance as int, 0)
    &&& p.balance + amount <= u64::MAX
    &&& p.stable_balance + ts <= u64::MAX
    &&& p.lpt_supply + l <= u64::MAX
    &&& p.total_lpt_fee + (l0 - l) <= u64::MAX
}

/// Custody actions for an add-liquidity: the base-to-stable conversion
/// first when base collateral is deposited, then the deposits move in and
/// the issued shares are minted to the depositor.
pub open spec fn add_liquidity_actions(
    amount: u64,
    total_stable: u64,
    base_amount: u64,
    lpt_out: u64,
) -> Seq<CustodyAction> {
    (if base_amount > 0 {
        mint_stable_actions(base_amount)
    } else {
        Seq::empty()
    }) + (if amount > 0 {
        seq![transfer_in(Asset::Primary, amount)]
    } else {
        Seq::empty()
    }) + (if total_stable > 0 {
        seq![transfer_in(Asset::Stable, total_stable)]
    } else {
        Seq::empty()
    }) + seq![mint_to(Asset::Lpt, Party::User, lpt_out)]
}

/// Adds liquidity. Base collateral, if any, is first converted one-for-one
/// into stable asset by the inner `mint_stable` step and joins the stable
/// deposit. Shares are issued by the deposit formula at the pool's fee; the
/// shares the fee withheld (the fee-free issuance minus the actual one)
/// accrue to `total_lpt_fee`.
pub fn add_liquidity(
    pool: &mut Pool,
    amount: u64,
    stable_amount: u64,
    base_amount: u64,
    supply: u64,
) -> (r: Result<Vec<CustodyAction>, ErrorCode>)
    requires
        old(pool).wf(),
    ensures
        r is Ok <==> add_liquidity_ok(*old(pool), amount, stable_amount, base_amount, supply),
        r matches Ok(acts) ==> ({
            let ts = stable_amount + base_amount;
            let l = lpt_issued(
                supply as int,
                amount as int,
                ts,
                old(pool).balance as int,
                old(pool).stable_balance as int,
                old(pool).fee as int,
            );
            let l0 = lpt_issued(
                supply as int,
                amount as int,
                ts,
                old(pool).balance as int,
                old(pool).stable_balance as int,
                0,
            );
            &&& *final(pool) == (Pool {
                balance: (old(pool).balance + amount) as u64,
                stable_balance: (old(pool).stable_balance + ts) as u64,
                base_balance: (old(pool).base_balance + base_amount) as u64,
                lpt_supply: (old(pool).lpt_supply + l) as u64,
                total_lpt_fee: (old(pool).total_lpt_fee + (l0 - l)) as u64,
                ..*old(pool)
            })
            &&& acts@ == add_liquidity_actions(amount, ts as u64, base_amount, l as u64)
        }),
        r is Err ==> r->Err_0 == ErrorCode::ComputationFailure && *final(pool) == *old(pool),
        final(pool).total_lpt_fee >= old(pool).total_lpt_fee,
        final(pool).wf(),
{
    let new_base_balance = if base_amount > 0 {
        match pool.base_balance.checked_add(base_amount) {
            Some(v) => v,
            None => {
                return Err(ErrorCode::ComputationFailure);
            },
        }
    } else {
        pool.base_balance
    };
    let total_stable = match stable_amount.checked_add(base_amount) {
        Some(v) => v,
        None => {
            return Err(ErrorCode::ComputationFailure);
        },
    };
    let mut amounts: Vec<u64> = Vec::new();
    amounts.push(amount);
    amounts.push(total_stable);
    let mut reserves: Vec<u64> = Vec::new();
    reserves.push(pool.balance);
    reserves.push(pool.stable_balance);
    let lpt_out = match calc_lpt_receive_add_full_side(supply, &amounts, &reserves, pool.fee) {
        Some(v) => v,
        None => {
            return Err(ErrorCode::ComputationFailure);
        },
    };
    let lpt_ignore_fee = match calc_lpt_receive_add_full_side(supply, &amounts, &reserves, 0) {
        Some(v) => v,
        None => {
            return Err(ErrorCode::ComputationFailure);
        },
    };
    proof {
        lemma_fee_only_reduces_issuance(
            supply as int,
            amount as int,
            total_stable as int,
            pool.balance as int,
            pool.stable_balance as int,
            pool.fee as int,
        );
    }
    let fee_delta = lpt_ignore_fee - lpt_out;
    let new_balance = match pool.balance.checked_add(amount) {
        Some(v) => v,
        None => {
            return Err(ErrorCode::ComputationFailure);
        },
    };
    let new_stable = match pool.stable_balance.checked_add(total_stable) {
        Some(v) => v,
        None => {
            return Err(ErrorCode::ComputationFailure);
        },
    };
    let new_lpt_supply = match pool.lpt_supply.checked_add(lpt_out) {
        Some(v) => v,
        None => {
            return Err(ErrorCode::ComputationFailure);
        },
    };
    let new_total_fee = match pool.total_lpt_fee.checked_add(fee_delta) {
        Some(v) => v,
        None => {
            return Err(ErrorCode::ComputationFailure);
        },
    };
    pool.balance = new_balance;
    pool.stable_balance = new_stable;
    pool.base_balance = new_base_balance;
    pool.lpt_supply = new_lpt_supply;
    pool.total_lpt_fee = new_total_fee;
    let mut acts: Vec<CustodyAction> = Vec::new();
    if base_amount > 0 {
        acts.push(
            CustodyAction::Transfer {
                asset: Asset::Base,
                from: Party::User,
                to: Party::Treasury,
                amount: base_amount,
            },
        );
        acts.push(CustodyAction::Mint { asset: Asset::Stable, to: Party::User, amount: base_amount });
    }
    if amount > 0 {
        acts.push(
            CustodyAction::Transfer {
                asset: Asset::Primary,
                from: Party::User,
                to: Party::Treasury,
                amount,
            },
        );
    }
    if total_stable > 0 {
        acts.push(
            CustodyAction::Transfer {
                asset: Asset::Stable,
                from: Party::User,
                to: Party::Treasury,
                amount: total_stable,
            },
        );
    }
    acts.push(CustodyAction::Mint { asset: Asset::Lpt, to: Party::User, amount: lpt_out });
    proof {
        assert(acts@ =~= add_liquidity_actions(amount, total_stable, base_amount, lpt_out));
    }
    Ok(acts)
}

/// Primary asset released for buying with `total_stable` of stable asset.
pub open spec fn buy_amount_out(p: Pool, total_stable: int) -> int {
    swap_output(total_stable, p.stable_balance as int, p.balance as int, p.fee as int)
}

/// Fee accrued by a buy, in share-token terms: the gap between the
/// fee-free and the actual output, run through the deposit-issuance formula
/// against the post-trade reserves.
pub open spec fn buy_fee_lpt(p: Pool, total_stable: int, supply: u64) -> int {
    let out = buy_amount_out(p, total_stable);
    let out0 = swap_output(total_stable, p.stable_balance as int, p.balance as int, 0);
    lpt_issued(
        supply as int,
        out0 - out,
        0,
        p.balance - out,
        p.stable_balance + total_stable,
        p.fee as int,
    )
}

/// Exactly when a buy succeeds on a well-formed pool.
pub open spec fn buy_ok(p: Pool, stable_amount: u64, base_amount: u64, supply: u64) -> bool {
    let ts = stable_amount + base_amount;
    let out = buy_amount_out(p, ts);
    let out0 = swap_output(ts, p.stable_balance as int, p.balance as int, 0);
    &&& (base_amount > 0 ==> p.base_balance + base_amount <= u64::MAX)
    &&& stable_amount + base_amount <= u64::MAX
    &&& p.stable_balance + ts > 0
    &&& p.stable_balance + ts <= u64::MAX
    &&& lpt_issuance_ok(
        supply as int,
        out0 - out,
        0,
        p.balance - out,
        p.stable_balance + ts,
        p.fee as int,
    )
    &&& p.total_lpt_fee + buy_fee_lpt(p, ts, supply) <= u64::MAX
}

/// Custody actions for a buy: the base-to-stable conversion first when base
/// collateral is spent, then stable in and primary out.
pub open spec fn buy_actions(base_amount: u64, total_stable: u64, amount_out: u64) -> Seq<
    CustodyAction,
> {
    (if base_amount > 0 {
        mint_stable_actions(base_amount)
    } else {
        Seq::empty()
    }) + (if total_stable > 0 {
        seq![transfer_in(Asset::Stable, total_stable)]
    } else {
        Seq::empty()
    }) + seq![transfer_out(Asset::Primary, amount_out)]
}

/// Buys the primary asset with stable asset (plus base collateral, which is
/// first converted one-for-one into stable by the inner `mint_stable`
/// step): prices the swap against the current reserves, moves the stable in
/// and the primary out, and accrues the fee-derived share delta.
pub fn buy(pool: &mut Pool, stable_amount: u64, base_amount: u64, supply: u64) -> (r: Result<
    Vec<CustodyAction>,
    ErrorCode,
>)
    requires
        old(pool).wf(),
    ensures
        r is Ok <==> buy_ok(*old(pool), stable_amount, base_amount, supply),
        r matches Ok(acts) ==> ({
            let ts = stable_amount + base_amount;
            let out = buy_amount_out(*old(pool), ts);
            &&& *final(pool) == (Pool {
                balance: (old(pool).balance - out) as u64,
                stable_balance: (old(pool).stable_balance + ts) as u64,
                base_balance: (old(pool).base_balance + base_amount) as u64,
                total_lpt_fee: (old(pool).total_lpt_fee + buy_fee_lpt(*old(pool), ts, supply)) as u64,
                ..*old(pool)
            })
            &&& acts@ == buy_actions(base_amount, ts as u64, out as u64)
        }),
        r is Err ==> r->Err_0 == ErrorCode::ComputationFailure && *final(pool) == *old(pool),
        final(pool).total_lpt_fee >= old(pool).total_lpt_fee,
        final(pool).wf(),
{
    let new_base_balance = if base_amount > 0 {
        match pool.base_balance.checked_add(base_amount) {
            Some(v) => v,
            None => {
                return Err(ErrorCode::ComputationFailure);
            },
        }
    } else {
        pool.base_balance
    };
    let total_stable = match stable_amount.checked_add(base_amount) {
        Some(v) => v,
        None => {
            return Err(ErrorCode::ComputationFailure);
        },
    };
    let amount_out = match calc_ask_amount_swap(total_stable, pool.stable_balance, pool.balance, pool.fee) {
        Some(v) => v,
        None => {
            return Err(ErrorCode::ComputationFailure);
        },
    };
    let amount_ignore_fee = match calc_ask_amount_swap(total_stable, pool.stable_balance, pool.balance, 0) {
        Some(v) => v,
        None => {
            return Err(ErrorCode::ComputationFailure);
        },
    };
    let new_stable = match pool.stable_balance.checked_add(total_stable) {
        Some(v) => v,
        None => {
            return Err(ErrorCode::ComputationFailure);
        },
    };
    proof {
        lemma_swap_output_bounds(
            total_stable as int,
            pool.stable_balance as int,
            pool.balance as int,
            pool.fee as int,
        );
        lemma_swap_output_bounds(
            total_stable as int,
            pool.stable_balance as int,
            pool.balance as int,
            0,
        );
        lemma_swap_output_antitone_in_fee(
            total_stable as int,
            pool.stable_balance as int,
            pool.balance as int,
            0,
            pool.fee as int,
        );
    }
    let new_balance = pool.balance - amount_out;
    let fee_gap = amount_ignore_fee - amount_out;
    let mut amounts: Vec<u64> = Vec::new();
    amounts.push(fee_gap);
    amounts.push(0);
    let mut reserves: Vec<u64> = Vec::new();
    reserves.push(new_balance);
    reserves.push(new_stable);
    let fee_lpt = match calc_lpt_receive_add_full_side(supply, &amounts, &reserves, pool.fee) {
        Some(v) => v,
        None => {
            return Err(ErrorCode::ComputationFailure);
        },
    };
    let new_total_fee = match pool.total_lpt_fee.checked_add(fee_lpt) {
        Some(v) => v,
        None => {
            return Err(ErrorCode::ComputationFailure);
        },
    };
    pool.balance = new_balance;
    pool.stable_balance = new_stable;
    pool.base_balance = new_base_balance;
    pool.total_lpt_fee = new_total_fee;
    let mut acts: Vec<CustodyAction> = Vec::new();
    if base_amount > 0 {
        acts.push(
            CustodyAction::Transfer {
                asset: Asset::Base,
                from: Party::User,
                to: Party::Treasury,
                amount: base_amount,
            },
        );
        acts.push(CustodyAction::Mint { asset: Asset::Stable, to: Party::User, amount: base_amount });
    }
    if total_stable > 0 {
        acts.push(
            CustodyAction::Transfer {
                asset: Asset::Stable,
                from: Party::User,
                to: Party::Treasury,
                amount: total_stable,
            },
        );
    }
    acts.push(
        CustodyAction::Transfer {
            asset: Asset::Primary,
            from: Party::Treasury,
            to: Party::User,
            amount: amount_out,
        },
    );
    proof {
        assert(acts@ =~= buy_actions(base_amount, total_stable, amount_out));
    }
    Ok(acts)
}

/// Fee burned up front by a borrow, at the pool's rate.
pub open spec fn borrow_fee_amt(p: Pool, lpt_amount: u64) -> int {
    fee_amount(p.fee as int, lpt_amount as int)
}

/// Net share amount locked as collateral by a borrow.
pub open spec fn borrow_net(p: Pool, lpt_amount: u64) -> int {
    lpt_amount - borrow_fee_amt(p, lpt_amount)
}

/// Base-asset payout of a borrow: the stable-side component of a pro-rata
/// withdrawal of the net locked shares against the (primary, stable)
/// reserve pair. The stable-reserve component deliberately stands in for
/// the borrowed base amount here, mirroring how the pool prices its loans.
pub open spec fn borrow_base_out(p: Pool, lpt_amount: u64, supply: u64) -> int {
    withdraw_amount(p.stable_balance as int, borrow_net(p, lpt_amount), supply as int)
}

/// The position a borrow starts from: the caller's existing position, or a
/// fresh one stamped with the caller and pool identities on first use.
pub open spec fn borrow_start_cheque(c: Cheque, authority: AccountId, pool_id: AccountId) -> Cheque {
    if c.borrow_amount > 0 {
        c
    } else {
        Cheque { authority, pool: pool_id, borrow_amount: 0, base_amount: 0 }
    }
}

/// The position after a successful borrow: the net locked shares and the
/// base payout accumulate onto the starting position.
pub open spec fn borrow_next_cheque(
    p: Pool,
    c: Cheque,
    authority: AccountId,
    pool_id: AccountId,
    lpt_amount: u64,
    supply: u64,
) -> Cheque {
    let start = borrow_start_cheque(c, authority, pool_id);
    Cheque {
        borrow_amount: (start.borrow_amount + borrow_net(p, lpt_amount)) as u64,
        base_amount: (start.base_amount + borrow_base_out(p, lpt_amount, supply)) as u64,
        ..start
    }
}

/// Exactly when a borrow succeeds on a well-formed pool.
pub open spec fn borrow_ok(p: Pool, c: Cheque, lpt_amount: u64, supply: u64) -> bool {
    let start = borrow_start_cheque(c, 0, 0);
    let net = borrow_net(p, lpt_amount);
    let bout = borrow_base_out(p, lpt_amount, supply);
    &&& lpt_amount > 0
    &&& p.total_lpt_fee + borrow_fee_amt(p, lpt_amount) <= u64::MAX
    &&& start.borrow_amount + net <= u64::MAX
    &&& net <= supply
    &&& supply > 0
    &&& bout <= p.base_balance
    &&& start.base_amount + bout <= u64::MAX
}

/// Every check before the reserve test passes, but the base reserve cannot
/// cover the payout: the borrow fails with an invalid-amount error.
pub open spec fn borrow_reserve_short(p: Pool, c: Cheque, lpt_amount: u64, supply: u64) -> bool {
    let start = borrow_start_cheque(c, 0, 0);
    let net = borrow_net(p, lpt_amount);
    let bout = borrow_base_out(p, lpt_amount, supply);
    &&& lpt_amount > 0
    &&& p.total_lpt_fee + borrow_fee_amt(p, lpt_amount) <= u64::MAX
    &&& start.borrow_amount + net <= u64::MAX
    &&& net <= supply
    &&& supply > 0
    &&& bout > p.base_balance
}

/// Custody actions for a borrow: the fee shares burn, the net shares lock
/// into the treasury (not burned), and the base payout moves out.
pub open spec fn borrow_actions(fee_amt: u64, net: u64, base_out: u64) -> Seq<CustodyAction> {
    seq![
        burn_from_user(Asset::Lpt, fee_amt),
        transfer_in(Asset::Lpt, net),
        transfer_out(Asset::Base, base_out),
    ]
}

/// Borrows base asset against `lpt_amount` of the caller's shares. The fee
/// portion burns immediately and accrues to `total_lpt_fee`; the net
/// portion locks into the treasury and accumulates on the caller's
/// position, which is created on first use.
pub fn borrow(
    pool: &mut Pool,
    cheque: &mut Cheque,
    authority: AccountId,
    pool_id: AccountId,
    lpt_amount: u64,
    supply: u64,
) -> (r: Result<Vec<CustodyAction>, ErrorCode>)
    requires
        old(pool).wf(),
    ensures
        r is Ok <==> borrow_ok(*old(pool), *old(cheque), lpt_amount, supply),
        r matches Ok(acts) ==> {
            &&& *final(pool) == (Pool {
                base_balance: (old(pool).base_balance - borrow_base_out(
                    *old(pool),
                    lpt_amount,
                    supply,
                )) as u64,
                total_lpt_fee: (old(pool).total_lpt_fee + borrow_fee_amt(*old(pool), lpt_amount)) as u64,
                ..*old(pool)
            })
            &&& *final(cheque) == borrow_next_cheque(
                *old(pool),
                *old(cheque),
                authority,
                pool_id,
                lpt_amount,
                supply,
            )
            &&& acts@ == borrow_actions(
                borrow_fee_amt(*old(pool), lpt_amount) as u64,
                borrow_net(*old(pool), lpt_amount) as u64,
                borrow_base_out(*old(pool), lpt_amount, supply) as u64,
            )
        },
        (r is Err && r->Err_0 == ErrorCode::AmountZero) <==> lpt_amount == 0,
        (r is Err && r->Err_0 == ErrorCode::InvalidAmount) <==> borrow_reserve_short(
            *old(pool),
            *old(cheque),
            lpt_amount,
            supply,
        ),
        r is Err ==> (r->Err_0 == ErrorCode::AmountZero || r->Err_0 == ErrorCode::InvalidAmount
            || r->Err_0 == ErrorCode::ComputationFailure) && *final(pool) == *old(pool)
            && *final(cheque) == *old(cheque),
        final(pool).total_lpt_fee >= old(pool).total_lpt_fee,
        final(pool).wf(),
{
    if lpt_amount == 0 {
        return Err(ErrorCode::AmountZero);
    }
    proof {
        lemma_fee_amount_le(pool.fee as int, lpt_amount as int);
    }
    let fee_part = match pool.calc_fee(lpt_amount) {
        Some(v) => v,
        None => {
            return Err(ErrorCode::ComputationFailure);
        },
    };
    let net = lpt_amount - fee_part;
    let new_total_fee = match pool.total_lpt_fee.checked_add(fee_part) {
        Some(v) => v,
        None => {
            return Err(ErrorCode::ComputationFailure);
        },
    };
    let start_borrow: u64 = if cheque.borrow_amount > 0 {
        cheque.borrow_amount
    } else {
        0
    };
    let start_base: u64 = if cheque.borrow_amount > 0 {
        cheque.base_amount
    } else {
        0
    };
    let new_borrow_amount = match start_borrow.checked_add(net) {
        Some(v) => v,
        None => {
            return Err(ErrorCode::ComputationFailure);
        },
    };
    let mut reserves: Vec<u64> = Vec::new();
    reserves.push(pool.balance);
    reserves.push(pool.stable_balance);
    let amounts = match calc_mint_receives_remove_full_side(net, supply, &reserves) {
        Some(v) => v,
        None => {
            return Err(ErrorCode::ComputationFailure);
        },
    };
    let base_out = amounts[1];
    let new_base_balance = match pool.base_balance.checked_sub(base_out) {
        Some(v) => v,
        None => {
            return Err(ErrorCode::InvalidAmount);
        },
    };
    let new_base_amount = match start_base.checked_add(base_out) {
        Some(v) => v,
        None => {
            return Err(ErrorCode::ComputationFailure);
        },
    };
    pool.base_balance = new_base_balance;
    pool.total_lpt_fee = new_total_fee;
    if !(cheque.borrow_amount > 0) {
        cheque.authority = authority;
        cheque.pool = pool_id;
    }
    cheque.borrow_amount = new_borrow_amount;
    cheque.base_amount = new_base_amount;
    let mut acts: Vec<CustodyAction> = Vec::new();
    acts.push(CustodyAction::Burn { asset: Asset::Lpt, from: Party::User, amount: fee_part });
    acts.push(
        CustodyAction::Transfer {
            asset: Asset::Lpt,
            from: Party::User,
            to: Party::Treasury,
            amount: net,
        },
    );
    acts.push(
        CustodyAction::Transfer {
            asset: Asset::Base,
            from: Party::Treasury,
            to: Party::User,
            amount: base_out,
        },
    );
    proof {
        assert(acts@ =~= borrow_actions(fee_part, net, base_out));
    }
    Ok(acts)
}

/// Stable asset released for selling `amount` of primary against the pool.
pub open spec fn sell_stable_out(p: Pool, amount: u64) -> int {
    swap_output(amount as int, p.balance as int, p.stable_balance as int, p.fee as int)
}

/// Fee accrued by a sell, in share-token terms: the gap between the
/// fee-free and the actual output, run through the deposit-issuance formula
/// against the post-trade reserves.
pub open spec fn sell_fee_lpt(p: Pool, amount: u64, supply: u64) -> int {
    let out = sell_stable_out(p, amount);
    let out0 = swap_output(amount as int, p.balance as int, p.stable_balance as int, 0);
    lpt_issued(
        supply as int,
        0,
        out0 - out,
        p.balance + amount,
        p.stable_balance - out,
        p.fee as int,
    )
}

/// Exactly when a sell succeeds on a well-formed pool.
pub open spec fn sell_ok(p: Pool, amount: u64, supply: u64) -> bool {
    let out = sell_stable_out(p, amount);
    let out0 = swap_output(amount as int, p.balance as int, p.stable_balance as int, 0);
    &&& p.balance + amount > 0
    &&& p.balance + amount <= u64::MAX
    &&& lpt_issuance_ok(
        supply as int,
        0,
        out0 - out,
        p.balance + amount,
        p.stable_balance - out,
        p.fee as int,
    )
    &&& p.total_lpt_fee + sell_fee_lpt(p, amount, supply) <= u64::MAX
}

/// Custody actions for a sell: primary in, stable out.
pub open spec fn sell_actions(amount: u64, stable_out: u64) -> Seq<CustodyAction> {
    seq![transfer_in(Asset::Primary, amount), transfer_out(Asset::Stable, stable_out)]
}

/// Sells `amount` of the primary asset for the stable asset: prices the
/// swap against the current reserves, moves the primary in and the stable
/// out, and accrues the fee-derived share delta into `total_lpt_fee`.
pub fn sell(pool: &mut Pool, amount: u64, supply: u64) -> (r: Result<Vec<CustodyAction>, ErrorCode>)
    requires
        old(pool).wf(),
    ensures
        r is Ok <==> sell_ok(*old(pool), amount, supply),
        r matches Ok(acts) ==> *final(pool) == (Pool {
            balance: (old(pool).balance + amount) as u64,
            stable_balance: (old(pool).stable_balance - sell_stable_out(*old(pool), amount)) as u64,
            total_lpt_fee: (old(pool).total_lpt_fee + sell_fee_lpt(*old(pool), amount, supply)) as u64,
            ..*old(pool)
        }) && acts@ == sell_actions(amount, sell_stable_out(*old(pool), amount) as u64),
        r is Err ==> r->Err_0 == ErrorCode::ComputationFailure && *final(pool) == *old(pool),
        final(pool).total_lpt_fee >= old(pool).total_lpt_fee,
        final(pool).wf(),
{
    let stable_out = match calc_ask_amount_swap(amount, pool.balance, pool.stable_balance, pool.fee) {
        Some(v) => v,
        None => {
            return Err(ErrorCode::ComputationFailure);
        },
    };
    let stable_out_ignore_fee = match calc_ask_amount_swap(amount, pool.balance, pool.stable_balance, 0) {
        Some(v) => v,
        None => {
            return Err(ErrorCode::ComputationFailure);
        },
    };
    let new_balance = match pool.balance.checked_add(amount) {
        Some(v) => v,
        None => {
            return Err(ErrorCode::ComputationFailure);
        },
    };
    proof {
        lemma_swap_output_bounds(
            amount as int,
            pool.balance as int,
            pool.stable_balance as int,
            pool.fee as int,
        );
        lemma_swap_output_bounds(amount as int, pool.balance as int, pool.stable_balance as int, 0);
        lemma_swap_output_antitone_in_fee(
            amount as int,
            pool.balance as int,
            pool.stable_balance as int,
            0,
            pool.fee as int,
        );
    }
    let new_stable = pool.stable_balance - stable_out;
    let fee_gap = stable_out_ignore_fee - stable_out;
    let mut amounts: Vec<u64> = Vec::new();
    amounts.push(0);
    amounts.push(fee_gap);
    let mut reserves: Vec<u64> = Vec::new();
    reserves.push(new_balance);
    reserves.push(new_stable);
    let fee_lpt = match calc_lpt_receive_add_full_side(supply, &amounts, &reserves, pool.fee) {
        Some(v) => v,
        None => {
            return Err(ErrorCode::ComputationFailure);
        },
    };
    let new_total_fee = match pool.total_lpt_fee.checked_add(fee_lpt) {
        Some(v) => v,
        None => {
            return Err(ErrorCode::ComputationFailure);
        },
    };
    pool.balance = new_balance;
    pool.stable_balance = new_stable;
    pool.total_lpt_fee = new_total_fee;
    let mut acts: Vec<CustodyAction> = Vec::new();
    acts.push(
        CustodyAction::Transfer {
            asset: Asset::Primary,
            from: Party::User,
            to: Party::Treasury,
            amount,
        },
    );
    acts.push(
        CustodyAction::Transfer {
            asset: Asset::Stable,
            from: Party::Treasury,
            to: Party::User,
            amount: stable_out,
        },
    );
    proof {
        assert(acts@ =~= sell_actions(amount, stable_out));
    }
    Ok(acts)
}

/// Custody actions for a pro-rata redemption: the shares burn and both
/// reserve portions move out.
pub open spec fn remove_liquidity_actions(lpt_amount: u64, out0: u64, out1: u64) -> Seq<
    CustodyAction,
> {
    seq![
        burn_from_user(Asset::Lpt, lpt_amount),
        transfer_out(Asset::Primary, out0),
        transfer_out(Asset::Stable, out1),
    ]
}

/// Redeems `lpt_amount` shares pro rata against both reserves: burns the
/// shares, transfers out both portions, and decrements the reserves and the
/// tracked share supply. No fee applies here.
pub fn remove_liquidity(pool: &mut Pool, lpt_amount: u64, supply: u64) -> (r: Result<
    Vec<CustodyAction>,
    ErrorCode,
>)
    requires
        old(pool).wf(),
    ensures
        r is Ok <==> (lpt_amount <= supply && supply > 0 && lpt_amount <= old(pool).lpt_supply),
        r matches Ok(acts) ==> ({
            let out0 = withdraw_amount(old(pool).balance as int, lpt_amount as int, supply as int);
            let out1 = withdraw_amount(
                old(pool).stable_balance as int,
                lpt_amount as int,
                supply as int,
            );
            &&& *final(pool) == (Pool {
                balance: (old(pool).balance - out0) as u64,
                stable_balance: (old(pool).stable_balance - out1) as u64,
                lpt_supply: (old(pool).lpt_supply - lpt_amount) as u64,
                ..*old(pool)
            })
            &&& acts@ == remove_liquidity_actions(lpt_amount, out0 as u64, out1 as u64)
        }),
        (r is Err && r->Err_0 == ErrorCode::ComputationFailure) <==> !(lpt_amount <= supply
            && supply > 0),
        (r is Err && r->Err_0 == ErrorCode::InvalidAmount) <==> (lpt_amount <= supply && supply > 0
            && lpt_amount > old(pool).lpt_supply),
        r is Err ==> *final(pool) == *old(pool),
        final(pool).total_lpt_fee >= old(pool).total_lpt_fee,
        final(pool).wf(),
{
    let mut reserves: Vec<u64> = Vec::new();
    reserves.push(pool.balance);
    reserves.push(pool.stable_balance);
    let amounts = match calc_mint_receives_remove_full_side(lpt_amount, supply, &reserves) {
        Some(v) => v,
        None => {
            return Err(ErrorCode::ComputationFailure);
        },
    };
    let new_lpt_supply = match pool.lpt_supply.checked_sub(lpt_amount) {
        Some(v) => v,
        None => {
            return Err(ErrorCode::InvalidAmount);
        },
    };
    let out0 = amounts[0];
    let out1 = amounts[1];
    proof {
        lemma_mul_div_le(pool.balance as int, lpt_amount as int, supply as int);
        lemma_mul_div_le(pool.stable_balance as int, lpt_amount as int, supply as int);
    }
    pool.balance = pool.balance - out0;
    pool.stable_balance = pool.stable_balance - out1;
    pool.lpt_supply = new_lpt_supply;
    let mut acts: Vec<CustodyAction> = Vec::new();
    acts.push(CustodyAction::Burn { asset: Asset::Lpt, from: Party::User, amount: lpt_amount });
    acts.push(
        CustodyAction::Transfer {
            asset: Asset::Primary,
            from: Party::Treasury,
            to: Party::User,
            amount: out0,
        },
    );
    acts.push(
        CustodyAction::Transfer {
            asset: Asset::Stable,
            from: Party::Treasury,
            to: Party::User,
            amount: out1,
        },
    );
    proof {
        assert(acts@ =~= remove_liquidity_actions(lpt_amount, out0, out1));
    }
    Ok(acts)
}

/// Fee taken by `burn_stable`, at the pool's rate, out of the burned amount.
pub open spec fn burn_stable_fee(p: Pool, stable_amount: u64) -> int {
    fee_amount(p.fee as int, stable_amount as int)
}

/// Fee accrued by `burn_stable` in share-token terms: the stable residual
/// run through the deposit-issuance formula against the current reserves.
pub open spec fn burn_stable_fee_lpt(p: Pool, stable_amount: u64, supply: u64) -> int {
    lpt_issued(
        supply as int,
        0,
        stable_amount - burn_stable_fee(p, stable_amount),
        p.balance as int,
        p.stable_balance as int,
        p.fee as int,
    )
}

/// Exactly when `burn_stable` succeeds on a well-formed pool.
pub open spec fn burn_stable_ok(p: Pool, stable_amount: u64, supply: u64) -> bool {
    &&& burn_stable_fee(p, stable_amount) <= p.base_balance
    &&& lpt_issuance_ok(
        supply as int,
        0,
        stable_amount - burn_stable_fee(p, stable_amount),
        p.balance as int,
        p.stable_balance as int,
        p.fee as int,
    )
    &&& p.total_lpt_fee + burn_stable_fee_lpt(p, stable_amount, supply) <= u64::MAX
}

/// Custody actions for `burn_stable`: the stable burns out of the caller's
/// wallet and the fee-derived base portion moves out of the treasury.
pub open spec fn burn_stable_actions(stable_amount: u64, base_out: u64) -> Seq<CustodyAction> {
    seq![burn_from_user(Asset::Stable, stable_amount), transfer_out(Asset::Base, base_out)]
}

/// Burns `stable_amount` of the caller's stable asset and releases the
/// fee-derived base portion from the treasury; the remainder of the burned
/// amount accrues to `total_lpt_fee` in share-token terms.
pub fn burn_stable(pool: &mut Pool, stable_amount: u64, supply: u64) -> (r: Result<
    Vec<CustodyAction>,
    ErrorCode,
>)
    requires
        old(pool).wf(),
    ensures
        r is Ok <==> burn_stable_ok(*old(pool), stable_amount, supply),
        r matches Ok(acts) ==> *final(pool) == (Pool {
            base_balance: (old(pool).base_balance - burn_stable_fee(*old(pool), stable_amount)) as u64,
            total_lpt_fee: (old(pool).total_lpt_fee + burn_stable_fee_lpt(
                *old(pool),
                stable_amount,
                supply,
            )) as u64,
            ..*old(pool)
        }) && acts@ == burn_stable_actions(
            stable_amount,
            burn_stable_fee(*old(pool), stable_amount) as u64,
        ),
        (r is Err && r->Err_0 == ErrorCode::InvalidAmount) <==> burn_stable_fee(
            *old(pool),
            stable_amount,
        ) > old(pool).base_balance,
        r is Err ==> (r->Err_0 == ErrorCode::InvalidAmount || r->Err_0
            == ErrorCode::ComputationFailure) && *final(pool) == *old(pool),
        final(pool).total_lpt_fee >= old(pool).total_lpt_fee,
        final(pool).wf(),
{
    proof {
        lemma_fee_amount_le(pool.fee as int, stable_amount as int);
    }
    let fee_part = match pool.calc_fee(stable_amount) {
        Some(v) => v,
        None => {
            return Err(ErrorCode::ComputationFailure);
        },
    };
    let new_base_balance = match pool.base_balance.checked_sub(fee_part) {
        Some(v) => v,
        None => {
            return Err(ErrorCode::InvalidAmount);
        },
    };
    let residual = stable_amount - fee_part;
    let mut amounts: Vec<u64> = Vec::new();
    amounts.push(0);
    amounts.push(residual);
    let mut reserves: Vec<u64> = Vec::new();
    reserves.push(pool.balance);
    reserves.push(pool.stable_balance);
    let fee_lpt = match calc_lpt_receive_add_full_side(supply, &amounts, &reserves, pool.fee) {
        Some(v) => v,
        None => {
            return Err(ErrorCode::ComputationFailure);
        },
    };
    let new_total_fee = match pool.total_lpt_fee.checked_add(fee_lpt) {
        Some(v) => v,
        None => {
            return Err(ErrorCode::ComputationFailure);
        },
    };
    pool.base_balance = new_base_balance;
    pool.total_lpt_fee = new_total_fee;
    let mut acts: Vec<CustodyAction> = Vec::new();
    acts.push(CustodyAction::Burn { asset: Asset::Stable, from: Party::User, amount: stable_amount });
    acts.push(
        CustodyAction::Transfer {
            asset: Asset::Base,
            from: Party::Treasury,
            to: Party::User,
            amount: fee_part,
        },
    );
    proof {
        assert(acts@ =~= burn_stable_actions(stable_amount, fee_part));
    }
    Ok(acts)
}

/// Records the bootstrap swap venue and the mint it controls.
pub fn initialize_jupiter(base_mint: AccountId) -> (j: Jupiter)
    ensures
        j == (Jupiter { base_mint }),
{
    Jupiter { base_mint }
}

/// Custody actions for the bootstrap venue's fixed exchange: the input
/// moves into the venue's treasury and the output is minted outright.
pub open spec fn swap_jupiter_actions(amount_in: u64, base_amount: u64) -> Seq<CustodyAction> {
    (if amount_in > 0 {
        seq![transfer_in(Asset::Primary, amount_in)]
    } else {
        Seq::empty()
    }) + seq![mint_to(Asset::Base, Party::User, base_amount)]
}

/// Bootstrap-only synthetic swap: mints `base_amount` of the venue's base
/// mint against `amount_in` of the input asset, with no fee accounting.
pub fn swap_jupiter(amount_in: u64, base_amount: u64) -> (acts: Vec<CustodyAction>)
    ensures
        acts@ == swap_jupiter_actions(amount_in, base_amount),
{
    let mut acts: Vec<CustodyAction> = Vec::new();
    if amount_in > 0 {
        acts.push(
            CustodyAction::Transfer {
                asset: Asset::Primary,
                from: Party::User,
                to: Party::Treasury,
                amount: amount_in,
            },
        );
    }
    acts.push(CustodyAction::Mint { asset: Asset::Base, to: Party::User, amount: base_amount });
    proof {
        assert(acts@ =~= swap_jupiter_actions(amount_in, base_amount));
    }
    acts
}

} // verus!
