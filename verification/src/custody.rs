//! Custody side effects requested from the host.
//!
//! The pool never moves assets itself: each operation returns the ordered
//! list of transfers, mints and burns that the surrounding custody runtime
//! must execute. An operation's state updates and its action list stand or
//! fall together — on any error no actions are returned and no field moves.

use vstd::prelude::*;

verus! {

/// The four assets a pool deals in.
#[derive(Clone, Copy, Debug, PartialEq, Eq, Structural)]
pub enum Asset {
    /// The pool's primary asset.
    Primary,
    /// The stable asset minted and burned by the pool itself.
    Stable,
    /// The asset lent out against locked shares.
    Base,
    /// The liquidity share token.
    Lpt,
}

/// The two account holders an action can touch: the calling wallet and the
/// pool's treasury.
#[derive(Clone, Copy, Debug, PartialEq, Eq, Structural)]
pub enum Party {
    User,
    Treasury,
}

/// One asset movement the host must perform on the pool's behalf.
#[derive(Clone, Copy, Debug, PartialEq, Eq, Structural)]
pub enum CustodyAction {
    /// Move `amount` of `asset` between the two parties' accounts.
    Transfer { asset: Asset, from: Party, to: Party, amount: u64 },
    /// Mint `amount` of `asset` to `to`'s account.
    Mint { asset: Asset, to: Party, amount: u64 },
    /// Burn `amount` of `asset` from `from`'s account.
    Burn { asset: Asset, from: Party, amount: u64 },
}

/// A transfer from the caller's wallet into the treasury.
pub open spec fn transfer_in(asset: Asset, amount: u64) -> CustodyAction {
    CustodyAction::Transfer { asset, from: Party::User, to: Party::Treasury, amount }
}

/// A transfer from the treasury out to the caller's wallet.
pub open spec fn transfer_out(asset: Asset, amount: u64) -> CustodyAction {
    CustodyAction::Transfer { asset, from: Party::Treasury, to: Party::User, amount }
}

/// A mint of fresh supply to one party's account.
pub open spec fn mint_to(asset: Asset, to: Party, amount: u64) -> CustodyAction {
    CustodyAction::Mint { asset, to, amount }
}

/// A burn out of the caller's wallet.
pub open spec fn burn_from_user(asset: Asset, amount: u64) -> CustodyAction {
    CustodyAction::Burn { asset, from: Party::User, amount }
}

} // verus!
