//! The escrow lifecycle: one record per seller, a pre-funded vault, and the
//! three operations that create, settle and cancel a swap.

use vstd::prelude::*;

use crate::bytes::{bytes_clone, bytes_eq};
use crate::derivation::{
    derive_escrow_address, derive_vault_address, spec_escrow_derivation, spec_vault_derivation,
};
use crate::errors::EscrowError;
use crate::keyed::{
    distinct_keys, has_key, key_index, lemma_key_index, lemma_value_at_push,
    lemma_value_at_remove, lemma_value_at_update, value_at, Keyed,
};
use crate::ledger::{
    Ledger, SigningCapability, TokenAccountModel, TransferAuthority,
};

verus! {

/// The persistent record of one escrow, as stored at its derived address.
pub struct EscrowAccount {
    /// The seller who opened the escrow.
    pub initializer: Vec<u8>,
    /// The account the offered asset came from, and returns to on
    /// cancellation.
    pub initializer_token_account: Vec<u8>,
    /// How much of the asset the seller locked.
    pub amount_to_send: u64,
    /// How much payment currency the seller demands.
    pub amount_to_receive: u64,
    /// Which asset is locked.
    pub mint: Vec<u8>,
    /// The bump completing the record's own address derivation.
    pub escrow_bump: u8,
    /// The bump completing the vault's address derivation.
    pub vault_bump: u8,
    /// Whether a buyer has settled the escrow.
    pub is_completed: bool,
}

/// The spec-level value of an [`EscrowAccount`].
pub struct EscrowModel {
    pub initializer: Seq<u8>,
    pub initializer_token_account: Seq<u8>,
    pub amount_to_send: u64,
    pub amount_to_receive: u64,
    pub mint: Seq<u8>,
    pub escrow_bump: u8,
    pub vault_bump: u8,
    pub is_completed: bool,
}

impl View for EscrowAccount {
    type V = EscrowModel;

    open spec fn view(&self) -> EscrowModel {
        EscrowModel {
            initializer: self.initializer@,
            initializer_token_account: self.initializer_token_account@,
            amount_to_send: self.amount_to_send,
            amount_to_receive: self.amount_to_receive,
            mint: self.mint@,
            escrow_bump: self.escrow_bump,
            vault_bump: self.vault_bump,
            is_completed: self.is_completed,
        }
    }
}

/// An escrow record together with the addresses it lives behind.
pub struct StoredEscrow {
    /// The record's derived address.
    pub escrow_address: Vec<u8>,
    /// The vault's derived address.
    pub vault_address: Vec<u8>,
    /// The record itself.
    pub account: EscrowAccount,
}

/// The spec-level value of a [`StoredEscrow`].
pub struct StoredEscrowModel {
    pub escrow_address: Seq<u8>,
    pub vault_address: Seq<u8>,
    pub account: EscrowModel,
}

impl View for StoredEscrow {
    type V = StoredEscrowModel;

    open spec fn view(&self) -> StoredEscrowModel {
        StoredEscrowModel {
            escrow_address: self.escrow_address@,
            vault_address: self.vault_address@,
            account: self.account@,
        }
    }
}

impl Keyed for StoredEscrow {
    open spec fn key(self) -> Seq<u8> {
        self.escrow_address@
    }
}

/// The same record with its completion flag raised.
pub open spec fn settled(e: StoredEscrowModel) -> StoredEscrowModel {
    StoredEscrowModel {
        escrow_address: e.escrow_address,
        vault_address: e.vault_address,
        account: EscrowModel {
            initializer: e.account.initializer,
            initializer_token_account: e.account.initializer_token_account,
            amount_to_send: e.account.amount_to_send,
            amount_to_receive: e.account.amount_to_receive,
            mint: e.account.mint,
            escrow_bump: e.account.escrow_bump,
            vault_bump: e.account.vault_bump,
            is_completed: true,
        },
    }
}

/// What a seller hands to `initialize_escrow`.
pub struct InitializeEscrow {
    /// The seller's identity.
    pub initializer: Vec<u8>,
    /// The asset being offered.
    pub mint: Vec<u8>,
    /// The seller's account holding that asset.
    pub initializer_token_account: Vec<u8>,
}

/// What a buyer hands to `exchange`.
pub struct Exchange {
    /// The buyer's identity.
    pub taker: Vec<u8>,
    /// The buyer's account that receives the asset.
    pub taker_token_account: Vec<u8>,
    /// Which escrow to settle.
    pub escrow_address: Vec<u8>,
}

/// What a caller hands to `cancel`.
pub struct Cancel {
    /// The caller claiming to be the seller.
    pub initializer: Vec<u8>,
    /// Which escrow to cancel.
    pub escrow_address: Vec<u8>,
}

/// The escrow lifecycle state machine, holding the escrow store and the
/// ledger it orchestrates.
pub struct EscrowLifecycleManager {
    /// The ledger the transfers run against.
    pub ledger: Ledger,
    /// Every live escrow record, one per derived address.
    pub escrows: Vec<StoredEscrow>,
}

impl EscrowLifecycleManager {
    /// The escrow record at an address, if any.
    pub open spec fn escrow_at(self, a: Seq<u8>) -> Option<StoredEscrowModel> {
        match value_at(self.escrows@, a) {
            Some(e) => Some(e@),
            None => None,
        }
    }

    /// The token account at an address, if any.
    pub open spec fn token_at(self, a: Seq<u8>) -> Option<TokenAccountModel> {
        self.ledger.token_at(a)
    }

    /// An identity's payment balance.
    pub open spec fn payment_of(self, id: Seq<u8>) -> u64 {
        self.ledger.payment_of(id)
    }

    /// What must hold of one stored escrow: its vault exists, is custodied
    /// by itself (no external key), holds the record's asset, and — while
    /// the record is open — holds exactly the offered amount; and while
    /// open, the seller's source account is still a well-formed return
    /// destination.
    pub open spec fn escrow_ok(self, e: StoredEscrowModel) -> bool {
        &&& (self.token_at(e.vault_address) matches Some(v)
            && v.owner == e.vault_address
            && v.mint == e.account.mint
            && (!e.account.is_completed ==> v.balance == e.account.amount_to_send))
        &&& (!e.account.is_completed ==> (self.token_at(e.account.initializer_token_account)
            matches Some(s)
            && s.owner == e.account.initializer
            && s.mint == e.account.mint
            && s.owner != s.address))
    }

    /// Well-formedness of the whole state: the ledger is consistent, escrow
    /// addresses are unique, every record is backed by its vault, and no two
    /// records share a vault.
    pub open spec fn wf(self) -> bool {
        &&& self.ledger.wf()
        &&& distinct_keys(self.escrows@)
        &&& forall|a: Seq<u8>|
            (#[trigger] self.escrow_at(a)) matches Some(e) ==> e.escrow_address == a
                && self.escrow_ok(e)
        &&& forall|a1: Seq<u8>, a2: Seq<u8>|
            a1 != a2 && (#[trigger] self.escrow_at(a1)) is Some && (
            #[trigger] self.escrow_at(a2)) is Some ==> self.escrow_at(a1)->Some_0.vault_address
                != self.escrow_at(a2)->Some_0.vault_address
    }

    /// A fresh manager over an existing ledger.
    pub fn new(ledger: Ledger) -> (r: EscrowLifecycleManager)
        requires
            ledger.wf(),
        ensures
            r.wf(),
            forall|a: Seq<u8>| r.escrow_at(a) is None,
            forall|a: Seq<u8>| r.token_at(a) == ledger.token_at(a),
            forall|id: Seq<u8>| r.payment_of(id) == ledger.payment_of(id),
    {
        EscrowLifecycleManager { ledger, escrows: Vec::new() }
    }

    /// The index of the record at an address.
    fn find_escrow(&self, a: &Vec<u8>) -> (r: Option<usize>)
        ensures
            match r {
                Some(i) => i < self.escrows@.len() && self.escrows@[i as int].key() == a@,
                None => !has_key(self.escrows@, a@),
            },
    {
        let n = self.escrows.len();
        let mut i: usize = 0;
        while i < n
            invariant
                n == self.escrows@.len(),
                i <= n,
                forall|k: int| 0 <= k < i ==> #[trigger] self.escrows@[k].key() != a@,
            decreases n - i,
        {
            if bytes_eq(&self.escrows[i].escrow_address, a) {
                return Some(i);
            }
            i += 1;
        }
        proof {
            if has_key(self.escrows@, a@) {
                let w = key_index(self.escrows@, a@);
                assert(self.escrows@[w].key() == a@);
                assert(false);
            }
        }
        None
    }

    /// Opens an escrow: derives the record and vault addresses, creates the
    /// vault, moves the offered amount into it, and stores the record.  All
    /// checks run before the first mutation, so every failure leaves the
    /// state untouched.
    pub fn initialize_escrow(
        &mut self,
        ctx: &InitializeEscrow,
        amount_to_send: u64,
        amount_to_receive: u64,
    ) -> (r: Result<Vec<u8>, EscrowError>)
        requires
            old(self).wf(),
        ensures
            final(self).wf(),
            initialize_outcome(
                *old(self),
                *ctx,
                amount_to_send,
                amount_to_receive,
                *final(self),
                r,
            ),
    {
        // Declarative source-account checks, before anything else.
        let src = match self.ledger.token_account(&ctx.initializer_token_account) {
            Some(t) => t,
            None => {
                return Err(EscrowError::Unauthorized);
            },
        };
        if !bytes_eq(&src.owner, &ctx.initializer) || !bytes_eq(&src.mint, &ctx.mint) || bytes_eq(
            &src.owner,
            &src.address,
        ) {
            return Err(EscrowError::Unauthorized);
        }
        // One open escrow per seller: the record's address is a pure
        // function of the seller's identity, and an occupied address
        // refuses creation.
        let (escrow_addr, escrow_bump) = match derive_escrow_address(&ctx.initializer) {
            Some(p) => p,
            None => {
                return Err(EscrowError::DerivationFailed);
            },
        };
        match self.find_escrow(&escrow_addr) {
            Some(i) => {
                proof {
                    lemma_key_index(self.escrows@, i as int);
                }
                return Err(EscrowError::AddressCollision);
            },
            None => {},
        }
        let (vault_addr, vault_bump) = match derive_vault_address(&ctx.initializer) {
            Some(p) => p,
            None => {
                return Err(EscrowError::DerivationFailed);
            },
        };
        match self.ledger.token_account(&vault_addr) {
            Some(_) => {
                return Err(EscrowError::AddressCollision);
            },
            None => {},
        }
        if src.balance < amount_to_send {
            return Err(EscrowError::InsufficientBalance);
        }
        let ghost pre = *self;
        // Create the vault, custodied by its own address: no external key
        // ever signs for it.
        let cr = self.ledger.create_account(
            bytes_clone(&vault_addr),
            bytes_clone(&vault_addr),
            bytes_clone(&ctx.mint),
        );
        match cr {
            Ok(()) => {},
            Err(_) => {
                proof {
                    assert(false);
                }
                return Err(EscrowError::AddressCollision);
            },
        }
        let ghost mid = *self;
        // Fund it from the seller's source account, under the seller's own
        // authority.
        let tr = self.ledger.transfer_asset(
            &ctx.initializer_token_account,
            &vault_addr,
            amount_to_send,
            &TransferAuthority::Holder(bytes_clone(&ctx.initializer)),
        );
        match tr {
            Ok(()) => {},
            Err(_) => {
                proof {
                    assert(false);
                }
                return Err(EscrowError::InsufficientBalance);
            },
        }
        let stored = StoredEscrow {
            escrow_address: bytes_clone(&escrow_addr),
            vault_address: bytes_clone(&vault_addr),
            account: EscrowAccount {
                initializer: bytes_clone(&ctx.initializer),
                initializer_token_account: bytes_clone(&ctx.initializer_token_account),
                amount_to_send,
                amount_to_receive,
                mint: bytes_clone(&ctx.mint),
                escrow_bump,
                vault_bump,
                is_completed: false,
            },
        };
        proof {
            lemma_value_at_push(self.escrows@, stored);
        }
        self.escrows.push(stored);
        proof {
            let post = *self;
            let ea = escrow_addr@;
            let va = vault_addr@;
            let sa = ctx.initializer_token_account@;
            assert(post.escrow_at(ea) is Some);
            assert forall|a: Seq<u8>| (#[trigger] post.escrow_at(a)) is Some implies {
                let e = post.escrow_at(a)->Some_0;
                e.escrow_address == a && post.escrow_ok(e)
            } by {
                let e = post.escrow_at(a)->Some_0;
                if a == ea {
                    assert(e == stored@);
                    assert(post.token_at(va) is Some);
                    assert(post.token_at(sa) is Some);
                } else {
                    assert(post.escrow_at(a) == pre.escrow_at(a));
                    assert(pre.escrow_ok(e));
                    let v = pre.token_at(e.vault_address)->Some_0;
                    crate::ledger::lemma_token_at_address(pre.ledger, e.vault_address);
                    // The vault address is fresh and the debited source is
                    // externally owned, so this record's vault is untouched.
                    assert(e.vault_address != va);
                    assert(e.vault_address != sa);
                    assert(post.token_at(e.vault_address) == pre.token_at(e.vault_address));
                    if !e.account.is_completed {
                        let s = pre.token_at(e.account.initializer_token_account)->Some_0;
                        assert(e.account.initializer_token_account != va);
                        if e.account.initializer_token_account == sa {
                            assert(post.token_at(sa) is Some);
                            assert(post.token_at(sa)->Some_0.owner == s.owner);
                            assert(post.token_at(sa)->Some_0.mint == s.mint);
                            assert(post.token_at(sa)->Some_0.address == s.address);
                        } else {
                            assert(post.token_at(e.account.initializer_token_account)
                                == pre.token_at(e.account.initializer_token_account));
                        }
                    }
                }
            }
            assert forall|a1: Seq<u8>, a2: Seq<u8>|
                a1 != a2 && (#[trigger] post.escrow_at(a1)) is Some && (
                #[trigger] post.escrow_at(a2)) is Some implies post.escrow_at(
                a1,
            )->Some_0.vault_address != post.escrow_at(a2)->Some_0.vault_address by {
                let e1 = post.escrow_at(a1)->Some_0;
                let e2 = post.escrow_at(a2)->Some_0;
                if a1 == ea {
                    assert(pre.escrow_ok(e2));
                    assert(e2.vault_address != va);
                } else if a2 == ea {
                    assert(pre.escrow_ok(e1));
                    assert(e1.vault_address != va);
                } else {
                    assert(pre.escrow_at(a1) is Some && pre.escrow_at(a2) is Some);
                }
            }
            assert(post.wf());
        }
        Ok(escrow_addr)
    }

    /// Settles an escrow: the buyer pays the stored price to the stored
    /// seller, the vault's whole content moves to the buyer under the
    /// vault's derivation capability, and the record flips to completed.
    /// Both legs happen or neither does.
    pub fn exchange(&mut self, ctx: &Exchange) -> (r: Result<(), EscrowError>)
        requires
            old(self).wf(),
        ensures
            final(self).wf(),
            exchange_outcome(*old(self), *ctx, *final(self), r),
    {
        let ei = match self.find_escrow(&ctx.escrow_address) {
            Some(i) => i,
            None => {
                return Err(EscrowError::NotFound);
            },
        };
        proof {
            lemma_key_index(self.escrows@, ei as int);
        }
        // Declarative destination checks: the buyer owns the destination,
        // it matches the record's asset, and it is externally owned.
        let tta = match self.ledger.token_account(&ctx.taker_token_account) {
            Some(t) => t,
            None => {
                return Err(EscrowError::Unauthorized);
            },
        };
        if !bytes_eq(&tta.owner, &ctx.taker) || !bytes_eq(&tta.mint, &self.escrows[ei].account.mint)
            || bytes_eq(&tta.owner, &tta.address) {
            return Err(EscrowError::Unauthorized);
        }
        // The status check comes before any transfer and is never re-read
        // after one.
        if self.escrows[ei].account.is_completed {
            return Err(EscrowError::AlreadyCompleted);
        }
        let amount_to_receive = self.escrows[ei].account.amount_to_receive;
        let amount_to_send = self.escrows[ei].account.amount_to_send;
        let taker_bal = self.ledger.payment_balance(&ctx.taker);
        if taker_bal < amount_to_receive {
            return Err(EscrowError::InsufficientBalance);
        }
        if !bytes_eq(&ctx.taker, &self.escrows[ei].account.initializer) {
            let seller_bal = self.ledger.payment_balance(&self.escrows[ei].account.initializer);
            if seller_bal > u64::MAX - amount_to_receive {
                return Err(EscrowError::BalanceOverflow);
            }
        }
        if tta.balance > u64::MAX - amount_to_send {
            return Err(EscrowError::BalanceOverflow);
        }
        let ghost pre = *self;
        let ghost e = pre.escrow_at(ctx.escrow_address@)->Some_0;
        proof {
            // The vault is custodied by itself while the destination is
            // not, so the two are different accounts.
            crate::ledger::lemma_token_at_address(pre.ledger, e.vault_address);
            crate::ledger::lemma_token_at_address(pre.ledger, ctx.taker_token_account@);
        }
        // Leg one: payment from the buyer to the stored seller.
        let pr = self.ledger.transfer_payment(
            &ctx.taker,
            &self.escrows[ei].account.initializer,
            amount_to_receive,
        );
        match pr {
            Ok(()) => {},
            Err(_) => {
                proof {
                    assert(false);
                }
                return Err(EscrowError::InsufficientBalance);
            },
        }
        // Leg two: the locked asset from the vault to the buyer, released
        // by the vault's derivation capability.
        let cap = TransferAuthority::Capability(
            SigningCapability::sign_for(bytes_clone(&self.escrows[ei].vault_address)),
        );
        let ar = self.ledger.transfer_asset(
            &self.escrows[ei].vault_address,
            &ctx.taker_token_account,
            amount_to_send,
            &cap,
        );
        match ar {
            Ok(()) => {},
            Err(_) => {
                proof {
                    assert(false);
                }
                return Err(EscrowError::InsufficientBalance);
            },
        }
        let ghost escrows_before = self.escrows@;
        self.escrows[ei].account.is_completed = true;
        proof {
            lemma_value_at_update(escrows_before, ei as int, self.escrows@[ei as int]);
            let post = *self;
            let ea = ctx.escrow_address@;
            assert(self.escrows@[ei as int]@ == settled(e));
            assert(post.escrow_at(ea) == Some(settled(e)));
            assert forall|a: Seq<u8>| (#[trigger] post.escrow_at(a)) is Some implies {
                let e2 = post.escrow_at(a)->Some_0;
                e2.escrow_address == a && post.escrow_ok(e2)
            } by {
                let e2 = post.escrow_at(a)->Some_0;
                if a == ea {
                    assert(e2 == settled(e));
                    assert(post.token_at(e.vault_address) is Some);
                } else {
                    assert(post.escrow_at(a) == pre.escrow_at(a));
                    assert(pre.escrow_ok(e2));
                    crate::ledger::lemma_token_at_address(pre.ledger, e2.vault_address);
                    assert(e2.vault_address != e.vault_address);
                    assert(e2.vault_address != ctx.taker_token_account@);
                    assert(post.token_at(e2.vault_address) == pre.token_at(e2.vault_address));
                    if !e2.account.is_completed {
                        let s = pre.token_at(e2.account.initializer_token_account)->Some_0;
                        crate::ledger::lemma_token_at_address(
                            pre.ledger,
                            e2.account.initializer_token_account,
                        );
                        assert(e2.account.initializer_token_account != e.vault_address);
                        if e2.account.initializer_token_account == ctx.taker_token_account@ {
                            assert(post.token_at(ctx.taker_token_account@) is Some);
                        } else {
                            assert(post.token_at(e2.account.initializer_token_account)
                                == pre.token_at(e2.account.initializer_token_account));
                        }
                    }
                }
            }
            assert forall|a1: Seq<u8>, a2: Seq<u8>|
                a1 != a2 && (#[trigger] post.escrow_at(a1)) is Some && (
                #[trigger] post.escrow_at(a2)) is Some implies post.escrow_at(
                a1,
            )->Some_0.vault_address != post.escrow_at(a2)->Some_0.vault_address by {
                assert(pre.escrow_at(a1) is Some && pre.escrow_at(a2) is Some);
                assert(post.escrow_at(a1)->Some_0.vault_address == pre.escrow_at(
                    a1,
                )->Some_0.vault_address);
                assert(post.escrow_at(a2)->Some_0.vault_address == pre.escrow_at(
                    a2,
                )->Some_0.vault_address);
            }
            assert(post.wf());
        }
        Ok(())
    }

    /// Cancels an open escrow: only the original seller may, the vault's
    /// content returns to the stored source account under the vault's
    /// derivation capability, and both the vault and the record are
    /// retired.
    pub fn cancel(&mut self, ctx: &Cancel) -> (r: Result<(), EscrowError>)
        requires
            old(self).wf(),
        ensures
            final(self).wf(),
            cancel_outcome(*old(self), *ctx, *final(self), r),
    {
        let ei = match self.find_escrow(&ctx.escrow_address) {
            Some(i) => i,
            None => {
                return Err(EscrowError::NotFound);
            },
        };
        proof {
            lemma_key_index(self.escrows@, ei as int);
        }
        // The authorization gate: cancellation belongs to the seller who
        // opened the escrow, and to nobody else.
        if !bytes_eq(&ctx.initializer, &self.escrows[ei].account.initializer) {
            return Err(EscrowError::Unauthorized);
        }
        // The status check comes before any transfer and is never re-read
        // after one.
        if self.escrows[ei].account.is_completed {
            return Err(EscrowError::AlreadyCompleted);
        }
        let amount_to_send = self.escrows[ei].account.amount_to_send;
        let dest = match self.ledger.token_account(
            &self.escrows[ei].account.initializer_token_account,
        ) {
            Some(t) => t,
            None => {
                proof {
                    assert(old(self).escrow_at(ctx.escrow_address@) is Some);
                    assert(false);
                }
                return Err(EscrowError::NotFound);
            },
        };
        if dest.balance > u64::MAX - amount_to_send {
            return Err(EscrowError::BalanceOverflow);
        }
        let ghost pre = *self;
        let ghost e = pre.escrow_at(ctx.escrow_address@)->Some_0;
        proof {
            crate::ledger::lemma_token_at_address(pre.ledger, e.vault_address);
            crate::ledger::lemma_token_at_address(
                pre.ledger,
                e.account.initializer_token_account,
            );
        }
        // Return the locked asset, released by the vault's derivation
        // capability.
        let cap = TransferAuthority::Capability(
            SigningCapability::sign_for(bytes_clone(&self.escrows[ei].vault_address)),
        );
        let ar = self.ledger.transfer_asset(
            &self.escrows[ei].vault_address,
            &self.escrows[ei].account.initializer_token_account,
            amount_to_send,
            &cap,
        );
        match ar {
            Ok(()) => {},
            Err(_) => {
                proof {
                    assert(false);
                }
                return Err(EscrowError::InsufficientBalance);
            },
        }
        // Retire the emptied vault, then the record itself.
        self.ledger.close_account(&self.escrows[ei].vault_address);
        proof {
            lemma_value_at_remove(self.escrows@, ei as int);
        }
        self.escrows.remove(ei);
        proof {
            let post = *self;
            let ea = ctx.escrow_address@;
            assert(post.escrow_at(ea) is None);
            assert forall|a: Seq<u8>| (#[trigger] post.escrow_at(a)) is Some implies {
                let e2 = post.escrow_at(a)->Some_0;
                e2.escrow_address == a && post.escrow_ok(e2)
            } by {
                let e2 = post.escrow_at(a)->Some_0;
                assert(a != ea);
                assert(post.escrow_at(a) == pre.escrow_at(a));
                assert(pre.escrow_ok(e2));
                crate::ledger::lemma_token_at_address(pre.ledger, e2.vault_address);
                assert(e2.vault_address != e.vault_address);
                assert(e2.vault_address != e.account.initializer_token_account);
                assert(post.token_at(e2.vault_address) == pre.token_at(e2.vault_address));
                if !e2.account.is_completed {
                    let s = pre.token_at(e2.account.initializer_token_account)->Some_0;
                    crate::ledger::lemma_token_at_address(
                        pre.ledger,
                        e2.account.initializer_token_account,
                    );
                    assert(e2.account.initializer_token_account != e.vault_address);
                    if e2.account.initializer_token_account
                        == e.account.initializer_token_account {
                        assert(post.token_at(e2.account.initializer_token_account) is Some);
                    } else {
                        assert(post.token_at(e2.account.initializer_token_account)
                            == pre.token_at(e2.account.initializer_token_account));
                    }
                }
            }
            assert forall|a1: Seq<u8>, a2: Seq<u8>|
                a1 != a2 && (#[trigger] post.escrow_at(a1)) is Some && (
                #[trigger] post.escrow_at(a2)) is Some implies post.escrow_at(
                a1,
            )->Some_0.vault_address != post.escrow_at(a2)->Some_0.vault_address by {
                assert(pre.escrow_at(a1) is Some && pre.escrow_at(a2) is Some);
                assert(post.escrow_at(a1)->Some_0.vault_address == pre.escrow_at(
                    a1,
                )->Some_0.vault_address);
                assert(post.escrow_at(a2)->Some_0.vault_address == pre.escrow_at(
                    a2,
                )->Some_0.vault_address);
            }
            assert(post.wf());
        }
        Ok(())
    }

    /// The stored record at an escrow address, read out.
    pub fn escrow_record(&self, escrow_address: &Vec<u8>) -> (r: Option<EscrowAccount>)
        requires
            self.wf(),
        ensures
            match r {
                Some(acc) => (self.escrow_at(escrow_address@) matches Some(e) && e.account
                    == acc@),
                None => self.escrow_at(escrow_address@) is None,
            },
    {
        match self.find_escrow(escrow_address) {
            Some(i) => {
                proof {
                    lemma_key_index(self.escrows@, i as int);
                }
                let a = &self.escrows[i].account;
                Some(
                    EscrowAccount {
                        initializer: bytes_clone(&a.initializer),
                        initializer_token_account: bytes_clone(&a.initializer_token_account),
                        amount_to_send: a.amount_to_send,
                        amount_to_receive: a.amount_to_receive,
                        mint: bytes_clone(&a.mint),
                        escrow_bump: a.escrow_bump,
                        vault_bump: a.vault_bump,
                        is_completed: a.is_completed,
                    },
                )
            },
            None => None,
        }
    }

    /// The vault address an escrow record is bound to, read out.
    pub fn vault_address(&self, escrow_address: &Vec<u8>) -> (r: Option<Vec<u8>>)
        requires
            self.wf(),
        ensures
            match r {
                Some(v) => (self.escrow_at(escrow_address@) matches Some(e) && e.vault_address
                    == v@),
                None => self.escrow_at(escrow_address@) is None,
            },
    {
        match self.find_escrow(escrow_address) {
            Some(i) => {
                proof {
                    lemma_key_index(self.escrows@, i as int);
                }
                Some(bytes_clone(&self.escrows[i].vault_address))
            },
            None => None,
        }
    }

    /// The balance of the token account at an address, read out.
    pub fn token_balance(&self, address: &Vec<u8>) -> (r: Option<u64>)
        requires
            self.wf(),
        ensures
            match r {
                Some(b) => (self.token_at(address@) matches Some(t) && t.balance == b),
                None => self.token_at(address@) is None,
            },
    {
        match self.ledger.token_account(address) {
            Some(t) => Some(t.balance),
            None => None,
        }
    }

    /// An identity's payment balance, read out.
    pub fn payment_balance(&self, id: &Vec<u8>) -> (r: u64)
        requires
            self.wf(),
        ensures
            r == self.payment_of(id@),
    {
        self.ledger.payment_balance(id)
    }
}

/// Whether the seller's source account passes `initialize_escrow`'s
/// declarative checks: it exists, the seller owns it, it holds the offered
/// asset, and it is an ordinary externally-owned account.
pub open spec fn init_source_ok(pre: EscrowLifecycleManager, ctx: InitializeEscrow) -> bool {
    pre.token_at(ctx.initializer_token_account@) matches Some(src) && src.owner
        == ctx.initializer@ && src.mint == ctx.mint@ && src.owner != src.address
}

/// Everything `initialize_escrow` promises, for every input and outcome.
pub open spec fn initialize_outcome(
    pre: EscrowLifecycleManager,
    ctx: InitializeEscrow,
    amount_to_send: u64,
    amount_to_receive: u64,
    post: EscrowLifecycleManager,
    r: Result<Vec<u8>, EscrowError>,
) -> bool {
    match r {
        Ok(addr) => ({
            &&& init_source_ok(pre, ctx)
            &&& spec_escrow_derivation(ctx.initializer@) matches Some(ed)
            &&& spec_vault_derivation(ctx.initializer@) matches Some(vd)
            &&& addr@ == ed.0
            &&& pre.escrow_at(ed.0) is None
            &&& pre.token_at(vd.0) is None
            &&& pre.token_at(ctx.initializer_token_account@) matches Some(src)
            &&& src.balance >= amount_to_send
            &&& post.escrow_at(ed.0) == Some(
                StoredEscrowModel {
                    escrow_address: ed.0,
                    vault_address: vd.0,
                    account: EscrowModel {
                        initializer: ctx.initializer@,
                        initializer_token_account: ctx.initializer_token_account@,
                        amount_to_send,
                        amount_to_receive,
                        mint: ctx.mint@,
                        escrow_bump: ed.1,
                        vault_bump: vd.1,
                        is_completed: false,
                    },
                },
            )
            &&& forall|b: Seq<u8>| b != ed.0 ==> post.escrow_at(b) == pre.escrow_at(b)
            &&& post.token_at(vd.0) == Some(
                TokenAccountModel {
                    address: vd.0,
                    owner: vd.0,
                    mint: ctx.mint@,
                    balance: amount_to_send,
                },
            )
            &&& post.token_at(ctx.initializer_token_account@) == Some(
                TokenAccountModel {
                    address: src.address,
                    owner: src.owner,
                    mint: src.mint,
                    balance: (src.balance - amount_to_send) as u64,
                },
            )
            &&& forall|b: Seq<u8>|
                b != vd.0 && b != ctx.initializer_token_account@ ==> post.token_at(b)
                    == pre.token_at(b)
            &&& post.ledger.payments@ == pre.ledger.payments@
        }),
        Err(EscrowError::Unauthorized) => !init_source_ok(pre, ctx) && post == pre,
        Err(EscrowError::DerivationFailed) => ({
            &&& init_source_ok(pre, ctx)
            &&& (spec_escrow_derivation(ctx.initializer@) is None || (spec_escrow_derivation(
                ctx.initializer@,
            ) matches Some(ed) && pre.escrow_at(ed.0) is None && spec_vault_derivation(
                ctx.initializer@,
            ) is None))
            &&& post == pre
        }),
        Err(EscrowError::AddressCollision) => ({
            &&& init_source_ok(pre, ctx)
            &&& spec_escrow_derivation(ctx.initializer@) matches Some(ed)
            &&& (pre.escrow_at(ed.0) is Some || (pre.escrow_at(ed.0) is None && (
            spec_vault_derivation(ctx.initializer@) matches Some(vd) && pre.token_at(vd.0)
                is Some)))
            &&& post == pre
        }),
        Err(EscrowError::InsufficientBalance) => ({
            &&& init_source_ok(pre, ctx)
            &&& spec_escrow_derivation(ctx.initializer@) matches Some(ed)
            &&& pre.escrow_at(ed.0) is None
            &&& spec_vault_derivation(ctx.initializer@) matches Some(vd)
            &&& pre.token_at(vd.0) is None
            &&& pre.token_at(ctx.initializer_token_account@) matches Some(src)
            &&& src.balance < amount_to_send
            &&& post == pre
        }),
        Err(_) => false,
    }
}

/// Whether the buyer's destination account passes `exchange`'s declarative
/// checks against the record `e`.
pub open spec fn exchange_taker_ok(
    pre: EscrowLifecycleManager,
    ctx: Exchange,
    e: StoredEscrowModel,
) -> bool {
    pre.token_at(ctx.taker_token_account@) matches Some(t) && t.owner == ctx.taker@ && t.mint
        == e.account.mint && t.owner != t.address
}

/// Everything `exchange` promises, for every input and outcome.
pub open spec fn exchange_outcome(
    pre: EscrowLifecycleManager,
    ctx: Exchange,
    post: EscrowLifecycleManager,
    r: Result<(), EscrowError>,
) -> bool {
    match r {
        Ok(()) => ({
            &&& pre.escrow_at(ctx.escrow_address@) matches Some(e)
            &&& exchange_taker_ok(pre, ctx, e)
            &&& !e.account.is_completed
            &&& pre.payment_of(ctx.taker@) >= e.account.amount_to_receive
            &&& (ctx.taker@ != e.account.initializer ==> pre.payment_of(e.account.initializer)
                + e.account.amount_to_receive <= u64::MAX)
            &&& pre.token_at(ctx.taker_token_account@) matches Some(t)
            &&& t.balance + e.account.amount_to_send <= u64::MAX
            &&& post.escrow_at(ctx.escrow_address@) == Some(settled(e))
            &&& forall|b: Seq<u8>| b != ctx.escrow_address@ ==> post.escrow_at(b) == pre.escrow_at(b)
            &&& if ctx.taker@ == e.account.initializer {
                forall|id: Seq<u8>| post.payment_of(id) == pre.payment_of(id)
            } else {
                post.payment_of(ctx.taker@) == pre.payment_of(ctx.taker@)
                    - e.account.amount_to_receive && post.payment_of(e.account.initializer)
                    == pre.payment_of(e.account.initializer) + e.account.amount_to_receive && (
                forall|id: Seq<u8>|
                    id != ctx.taker@ && id != e.account.initializer ==> post.payment_of(id)
                        == pre.payment_of(id))
            }
            &&& post.token_at(e.vault_address) == Some(
                TokenAccountModel {
                    address: e.vault_address,
                    owner: e.vault_address,
                    mint: e.account.mint,
                    balance: 0,
                },
            )
            &&& post.token_at(ctx.taker_token_account@) == Some(
                TokenAccountModel {
                    address: t.address,
                    owner: t.owner,
                    mint: t.mint,
                    balance: (t.balance + e.account.amount_to_send) as u64,
                },
            )
            &&& forall|b: Seq<u8>|
                b != e.vault_address && b != ctx.taker_token_account@ ==> post.token_at(b)
                    == pre.token_at(b)
        }),
        Err(EscrowError::NotFound) => pre.escrow_at(ctx.escrow_address@) is None && post == pre,
        Err(EscrowError::Unauthorized) => ({
            &&& pre.escrow_at(ctx.escrow_address@) matches Some(e)
            &&& !exchange_taker_ok(pre, ctx, e)
            &&& post == pre
        }),
        Err(EscrowError::AlreadyCompleted) => ({
            &&& pre.escrow_at(ctx.escrow_address@) matches Some(e)
            &&& exchange_taker_ok(pre, ctx, e)
            &&& e.account.is_completed
            &&& post == pre
        }),
        Err(EscrowError::InsufficientBalance) => ({
            &&& pre.escrow_at(ctx.escrow_address@) matches Some(e)
            &&& exchange_taker_ok(pre, ctx, e)
            &&& !e.account.is_completed
            &&& pre.payment_of(ctx.taker@) < e.account.amount_to_receive
            &&& post == pre
        }),
        Err(EscrowError::BalanceOverflow) => ({
            &&& pre.escrow_at(ctx.escrow_address@) matches Some(e)
            &&& exchange_taker_ok(pre, ctx, e)
            &&& !e.account.is_completed
            &&& pre.payment_of(ctx.taker@) >= e.account.amount_to_receive
            &&& ((ctx.taker@ != e.account.initializer && pre.payment_of(e.account.initializer)
                + e.account.amount_to_receive > u64::MAX) || ((ctx.taker@ == e.account.initializer
                || pre.payment_of(e.account.initializer) + e.account.amount_to_receive
                <= u64::MAX) && (pre.token_at(ctx.taker_token_account@) matches Some(t)
                && t.balance + e.account.amount_to_send > u64::MAX)))
            &&& post == pre
        }),
        Err(_) => false,
    }
}

/// Everything `cancel` promises, for every input and outcome.
pub open spec fn cancel_outcome(
    pre: EscrowLifecycleManager,
    ctx: Cancel,
    post: EscrowLifecycleManager,
    r: Result<(), EscrowError>,
) -> bool {
    match r {
        Ok(()) => ({
            &&& pre.escrow_at(ctx.escrow_address@) matches Some(e)
            &&& ctx.initializer@ == e.account.initializer
            &&& !e.account.is_completed
            &&& pre.token_at(e.account.initializer_token_account) matches Some(d)
            &&& d.balance + e.account.amount_to_send <= u64::MAX
            &&& post.escrow_at(ctx.escrow_address@) is None
            &&& forall|b: Seq<u8>| b != ctx.escrow_address@ ==> post.escrow_at(b) == pre.escrow_at(b)
            &&& post.token_at(e.vault_address) is None
            &&& post.token_at(e.account.initializer_token_account) == Some(
                TokenAccountModel {
                    address: d.address,
                    owner: d.owner,
                    mint: d.mint,
                    balance: (d.balance + e.account.amount_to_send) as u64,
                },
            )
            &&& forall|b: Seq<u8>|
                b != e.vault_address && b != e.account.initializer_token_account ==> post.token_at(
                    b,
                ) == pre.token_at(b)
            &&& post.ledger.payments@ == pre.ledger.payments@
        }),
        Err(EscrowError::NotFound) => pre.escrow_at(ctx.escrow_address@) is None && post == pre,
        Err(EscrowError::Unauthorized) => ({
            &&& pre.escrow_at(ctx.escrow_address@) matches Some(e)
            &&& ctx.initializer@ != e.account.initializer
            &&& post == pre
        }),
        Err(EscrowError::AlreadyCompleted) => ({
            &&& pre.escrow_at(ctx.escrow_address@) matches Some(e)
            &&& ctx.initializer@ == e.account.initializer
            &&& e.account.is_completed
            &&& post == pre
        }),
        Err(EscrowError::BalanceOverflow) => ({
            &&& pre.escrow_at(ctx.escrow_address@) matches Some(e)
            &&& ctx.initializer@ == e.account.initializer
            &&& !e.account.is_completed
            &&& pre.token_at(e.account.initializer_token_account) matches Some(d)
            &&& d.balance + e.account.amount_to_send > u64::MAX
            &&& post == pre
        }),
        Err(_) => false,
    }
}

} // verus!
