//! The notifications that successful operations emit.

use vstd::prelude::*;

verus! {

/// One event per successful ledger operation.
#[derive(Clone, Copy, Debug, PartialEq, Eq, Structural)]
pub enum Event {
    /// A new asset `.1` was created (or bred) for owner `.0`.
    KittyCreate(u64, u32),
    /// Ownership of asset `.2` moved from `.0` to `.1`.
    KittyTransfer(u64, u64, u32),
    /// Owner `.0` listed asset `.1` at ask price `.2`.
    KittyForSale(u64, u32, u128),
    /// Buyer `.0` bought asset `.1` at price `.2`.
    KittySaleOut(u64, u32, u128),
}

} // verus!
