//! The lifecycle's cross-operation guarantees, proved from the operations'
//! own contracts.
//!
//! Each lemma quantifies over all states and results that an operation's
//! outcome predicate permits.  Since every operation ensures exactly its
//! outcome predicate, whatever a lemma concludes holds of every actual
//! execution of those operations.

use vstd::prelude::*;

use crate::errors::EscrowError;
use crate::escrow::{
    cancel_outcome, exchange_outcome, exchange_taker_ok, initialize_outcome, Cancel,
    EscrowLifecycleManager, Exchange, InitializeEscrow,
};

verus! {

/// A settlement is not repeatable: once an `exchange` has succeeded, any
/// further `exchange` against the same record — however valid the new
/// buyer's accounts — fails with `AlreadyCompleted` and moves nothing.
pub proof fn lemma_exchange_not_repeatable(
    pre: EscrowLifecycleManager,
    mid: EscrowLifecycleManager,
    post: EscrowLifecycleManager,
    ctx1: Exchange,
    ctx2: Exchange,
    r2: Result<(), EscrowError>,
)
    requires
        exchange_outcome(pre, ctx1, mid, Ok(())),
        ctx2.escrow_address@ == ctx1.escrow_address@,
        mid.escrow_at(ctx2.escrow_address@) matches Some(e) && exchange_taker_ok(mid, ctx2, e),
        exchange_outcome(mid, ctx2, post, r2),
    ensures
        r2 == Err::<(), EscrowError>(EscrowError::AlreadyCompleted),
        post == mid,
{
}

/// After a settlement, no further `exchange` against the same record moves
/// anything, whatever the caller supplies: every outcome is an error that
/// leaves the state exactly as the settlement left it.
pub proof fn lemma_exchange_after_settlement_moves_nothing(
    pre: EscrowLifecycleManager,
    mid: EscrowLifecycleManager,
    post: EscrowLifecycleManager,
    ctx1: Exchange,
    ctx2: Exchange,
    r2: Result<(), EscrowError>,
)
    requires
        exchange_outcome(pre, ctx1, mid, Ok(())),
        ctx2.escrow_address@ == ctx1.escrow_address@,
        exchange_outcome(mid, ctx2, post, r2),
    ensures
        r2 is Err,
        post == mid,
{
}

/// `cancel` after a successful settlement fails with `AlreadyCompleted`,
/// even for the original seller, and moves nothing.
pub proof fn lemma_cancel_after_exchange(
    pre: EscrowLifecycleManager,
    mid: EscrowLifecycleManager,
    post: EscrowLifecycleManager,
    xctx: Exchange,
    cctx: Cancel,
    r2: Result<(), EscrowError>,
)
    requires
        exchange_outcome(pre, xctx, mid, Ok(())),
        cctx.escrow_address@ == xctx.escrow_address@,
        pre.escrow_at(xctx.escrow_address@) matches Some(e) && cctx.initializer@
            == e.account.initializer,
        cancel_outcome(mid, cctx, post, r2),
    ensures
        r2 == Err::<(), EscrowError>(EscrowError::AlreadyCompleted),
        post == mid,
{
}

/// `exchange` after a successful cancellation fails with `NotFound`: the
/// record is retired, not merely flagged.
pub proof fn lemma_exchange_after_cancel(
    pre: EscrowLifecycleManager,
    mid: EscrowLifecycleManager,
    post: EscrowLifecycleManager,
    cctx: Cancel,
    xctx: Exchange,
    r2: Result<(), EscrowError>,
)
    requires
        cancel_outcome(pre, cctx, mid, Ok(())),
        xctx.escrow_address@ == cctx.escrow_address@,
        exchange_outcome(mid, xctx, post, r2),
    ensures
        r2 == Err::<(), EscrowError>(EscrowError::NotFound),
        post == mid,
{
}

/// `cancel` by any identity other than the original seller fails with
/// `Unauthorized` and leaves the whole state — vault balance and status
/// included — unchanged.
pub proof fn lemma_cancel_unauthorized(
    pre: EscrowLifecycleManager,
    post: EscrowLifecycleManager,
    ctx: Cancel,
    r: Result<(), EscrowError>,
)
    requires
        pre.escrow_at(ctx.escrow_address@) matches Some(e) && ctx.initializer@
            != e.account.initializer,
        cancel_outcome(pre, ctx, post, r),
    ensures
        r == Err::<(), EscrowError>(EscrowError::Unauthorized),
        post == pre,
{
}

/// A second `initialize_escrow` for the same seller, before the first
/// escrow is retired, fails with `AddressCollision` and leaves the first
/// escrow's state untouched.
pub proof fn lemma_reopen_collides(
    pre: EscrowLifecycleManager,
    mid: EscrowLifecycleManager,
    post: EscrowLifecycleManager,
    ctx: InitializeEscrow,
    amount_to_send1: u64,
    amount_to_receive1: u64,
    amount_to_send2: u64,
    amount_to_receive2: u64,
    r1: Result<Vec<u8>, EscrowError>,
    r2: Result<Vec<u8>, EscrowError>,
)
    requires
        initialize_outcome(pre, ctx, amount_to_send1, amount_to_receive1, mid, r1),
        r1 is Ok,
        initialize_outcome(mid, ctx, amount_to_send2, amount_to_receive2, post, r2),
    ensures
        r2 == Err::<Vec<u8>, EscrowError>(EscrowError::AddressCollision),
        post == mid,
{
}

} // verus!
