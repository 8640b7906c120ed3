//! The pool ledger and per-borrower position records.

use vstd::prelude::*;

verus! {

use crate::arith::lemma_mul_div_le;
use crate::arith::lemma_u64_mul_fits;
use crate::oracle::fee_amount;
use crate::oracle::PRECISION;

/// Identity of an account, mint or authority in the surrounding ledger.
pub type AccountId = u64;

/// One market: reserves, fee accounting and share supply, plus the
/// identities of the parties and mints it is wired to.
#[derive(Clone, Copy, Debug, PartialEq, Eq, Structural)]
pub struct Pool {
    pub authority: AccountId,
    pub mint: AccountId,
    pub base_mint: AccountId,
    pub stable_mint: AccountId,
    pub lpt_mint: AccountId,
    pub treasurer: AccountId,
    /// Primary asset reserve.
    pub balance: u64,
    /// Stable asset reserve.
    pub stable_balance: u64,
    /// Base asset reserve available for lending.
    pub base_balance: u64,
    /// Fee rate in parts per [`PRECISION`].
    pub fee: u64,
    /// Cumulative fee ever accrued, in share-token terms.
    pub total_lpt_fee: u64,
    /// Outstanding share supply as tracked by the pool.
    pub lpt_supply: u64,
    pub start_time: i64,
}

impl Pool {
    /// A well-formed pool carries a fee rate that is a genuine fraction of
    /// [`PRECISION`]; every operation preserves this.
    pub open spec fn wf(self) -> bool {
        self.fee <= PRECISION
    }

    /// Fee taken from `amount` at this pool's rate.
    pub fn calc_fee(&self, amount: u64) -> (r: Option<u64>)
        ensures
            r is Some <==> fee_amount(self.fee as int, amount as int) <= u64::MAX,
            r matches Some(v) ==> v == fee_amount(self.fee as int, amount as int),
    {
        proof {
            lemma_u64_mul_fits(amount, self.fee);
        }
        let scaled: u128 = (amount as u128) * (self.fee as u128) / (PRECISION as u128);
        if scaled > u64::MAX as u128 {
            return None;
        }
        Some(scaled as u64)
    }
}

/// The fee of a well-formed pool never exceeds the amount it is taken from.
pub proof fn lemma_fee_amount_le(fee: int, amount: int)
    requires
        0 <= amount,
        0 <= fee <= PRECISION,
    ensures
        0 <= fee_amount(fee, amount) <= amount,
{
    lemma_mul_div_le(amount, fee, PRECISION as int);
    assert(0 <= amount * fee) by (nonlinear_arith)
        requires
            0 <= amount,
            0 <= fee,
    ;
    vstd::arithmetic::div_mod::lemma_div_pos_is_pos(amount * fee, PRECISION as int);
}

/// A borrower's position against one pool, created lazily on first borrow:
/// the net shares locked as collateral and the base asset still owed.
#[derive(Clone, Copy, Debug, PartialEq, Eq, Structural)]
pub struct Cheque {
    pub authority: AccountId,
    pub pool: AccountId,
    /// Net-of-fee share tokens locked as collateral.
    pub borrow_amount: u64,
    /// Outstanding borrowed base-asset amount.
    pub base_amount: u64,
}

/// Informational certificate for the initial depositor.
#[derive(Clone, Copy, Debug, PartialEq, Eq, Structural)]
pub struct Cert {
    pub authority: AccountId,
    pub pool: AccountId,
    pub amount: u64,
}

/// Bootstrap-only synthetic swap venue record.
#[derive(Clone, Copy, Debug, PartialEq, Eq, Structural)]
pub struct Jupiter {
    pub base_mint: AccountId,
}

} // verus!
