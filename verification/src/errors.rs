//! The error taxonomy of the escrow lifecycle.

use vstd::prelude::*;

verus! {

/// Every way a lifecycle operation or a transfer primitive can fail.
///
/// Each operation checks its preconditions before its first mutation, so an
/// error always leaves the whole state exactly as it was.
#[derive(Clone, Copy, Debug, PartialEq, Eq, Structural)]
pub enum EscrowError {
    /// `initialize_escrow` while a record or a vault already occupies a
    /// derived address.
    AddressCollision,
    /// `exchange` or `cancel` against a record that is no longer open.
    AlreadyCompleted,
    /// A caller or an asset account that the operation does not accept: a
    /// wrong canceller, an ownership or mint mismatch, or a transfer
    /// authority that does not hold the debited account.
    Unauthorized,
    /// A transfer primitive asked to move more than the source holds.
    InsufficientBalance,
    /// An operation against an escrow address with no record behind it.
    NotFound,
    /// Address derivation found no usable bump seed for these inputs.
    DerivationFailed,
    /// A transfer would push the destination's balance past what a balance
    /// field can hold.
    BalanceOverflow,
}

} // verus!
