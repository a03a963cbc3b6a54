//! Accounting core of a fungible-token ledger for a metered, single-threaded
//! host: a balance ledger with a registration lifecycle, a storage-deposit
//! escrow that meters state growth around every mutating call, and a
//! transfer-and-call protocol that settles with a possibly misbehaving
//! receiver while conserving the total supply.
//!
//! Component layering, leaf first: [`meter`] prices storage bytes, [`escrow`]
//! settles an attached deposit against a byte delta, [`registry`] tracks
//! registrations and their bonds, [`ledger`] holds the balances, and
//! [`token`] owns both tables and drives every operation, including the
//! two-phase transfer-and-call.

pub mod errors;
pub mod ids;
pub mod idmap;
pub mod meter;
pub mod escrow;
pub mod registry;
pub mod ledger;
pub mod events;
pub mod token;
