//! The typed failures that a ledger operation can report.
//!
//! Every operation returns either success or exactly one of these kinds;
//! no failure is silently swallowed and none is retried by the ledger.

use vstd::prelude::*;

verus! {

/// One typed failure per way an operation can be refused.
///
/// A failing operation leaves the whole ledger state untouched.
#[derive(Clone, Copy, Debug, PartialEq, Eq, Structural)]
pub enum Error {
    /// Allocating one more asset identifier would overflow the counter.
    KittiesCountOverflow,
    /// The allocated identifier is already occupied (defensive; unreachable
    /// while the uniqueness invariant holds).
    KittyExisted,
    /// The named asset does not exist.
    InvalidKittyIndex,
    /// The caller does not own the asset.
    NotOwner,
    /// Breeding was asked for with the same asset as both parents.
    SameParentIndex,
    /// The caller already owns the asset (self-transfer or self-buy).
    AlreadyOwned,
    /// The account cannot cover the collateral deposit for holding the asset.
    MoneyNotEnough,
    /// The asset is not listed for sale.
    NotForSale,
    /// The asking price exceeds the buyer's bid limit.
    OutOfBudget,
    /// The currency payment from buyer to seller cannot be performed.
    TransferFailed,
}

} // verus!
