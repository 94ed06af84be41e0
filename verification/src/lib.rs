//! A verified model of a two-party atomic token escrow.
//!
//! A seller locks a quantity of a fungible asset in a protocol-controlled
//! vault and names a price in the payment currency; any buyer may pay that
//! price to receive the locked asset in one indivisible step, or the seller
//! may reclaim the asset before a buyer acts.

pub mod bytes;
pub mod derivation;
pub mod errors;
pub mod escrow;
pub mod keyed;
pub mod laws;
pub mod ledger;
