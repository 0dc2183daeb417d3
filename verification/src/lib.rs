//! A deterministic asset-ownership and marketplace ledger.
//!
//! The ledger mints uniquely identified collectibles ("kitties"), each with an
//! immutable 16-byte genome, assigns and transfers ownership under a fixed
//! collateral deposit per asset, derives new assets from two parents by
//! byte-wise genome recombination, and supports listing and buying assets for
//! a fungible currency.  Every operation is atomic: it either takes full
//! effect or leaves the ledger exactly as it was.

pub mod errors;
pub mod events;
pub mod genome;
pub mod balances;
pub mod state;
pub mod pallet;
pub mod laws;
