//! The ledger model: token accounts, payment balances, and the transfer
//! primitives the lifecycle operations orchestrate.
//!
//! The escrow core assumes an external ledger that can move a fungible asset
//! between accounts under an authority, move the payment currency between
//! identities, and create or close accounts, all atomically and with a
//! distinguishable insufficient-balance failure.  This module is that
//! collaborator, modelled as plain state so that every one of its promises
//! is stated and proved.

use vstd::prelude::*;

use crate::bytes::{bytes_clone, bytes_eq};
use crate::errors::EscrowError;
use crate::keyed::{
    distinct_keys, has_key, key_index, lemma_key_index, lemma_value_at_push,
    lemma_value_at_remove, lemma_value_at_update, value_at, Keyed,
};

verus! {

/// An account holding a quantity of one fungible asset.
pub struct TokenAccount {
    /// Where the account lives.
    pub address: Vec<u8>,
    /// The identity whose signature releases the account's funds.  A vault
    /// holds its own address here: no external key signs for it.
    pub owner: Vec<u8>,
    /// Which asset the account holds.
    pub mint: Vec<u8>,
    /// How many units it holds.
    pub balance: u64,
}

/// The spec-level value of a [`TokenAccount`].
pub struct TokenAccountModel {
    pub address: Seq<u8>,
    pub owner: Seq<u8>,
    pub mint: Seq<u8>,
    pub balance: u64,
}

impl View for TokenAccount {
    type V = TokenAccountModel;

    open spec fn view(&self) -> TokenAccountModel {
        TokenAccountModel {
            address: self.address@,
            owner: self.owner@,
            mint: self.mint@,
            balance: self.balance,
        }
    }
}

impl Keyed for TokenAccount {
    open spec fn key(self) -> Seq<u8> {
        self.address@
    }
}

/// One identity's balance of the payment currency.
pub struct PaymentEntry {
    pub identity: Vec<u8>,
    pub balance: u64,
}

impl Keyed for PaymentEntry {
    open spec fn key(self) -> Seq<u8> {
        self.identity@
    }
}

/// A proof of authority to debit the account at one address, reconstructible
/// only from the protocol's derivation inputs.  Nothing outside this crate
/// can build one: it substitutes for a private key that nobody holds.
pub struct SigningCapability {
    address: Vec<u8>,
}

impl SigningCapability {
    /// The address this capability signs for.
    pub closed spec fn spec_address(self) -> Seq<u8> {
        self.address@
    }

    /// Only the lifecycle operations mint capabilities, for the vaults they
    /// themselves govern.
    pub(crate) fn sign_for(address: Vec<u8>) -> (c: SigningCapability)
        ensures
            c.spec_address() == address@,
    {
        SigningCapability { address }
    }

    fn signs_for(&self, a: &Vec<u8>) -> (r: bool)
        ensures
            r == (self.spec_address() == a@),
    {
        bytes_eq(&self.address, a)
    }
}

/// What authorizes an asset debit: the owner's signature, or a derivation
/// capability for the debited account itself.
pub enum TransferAuthority {
    /// The debited account's owner signs.  An account that owns itself (a
    /// vault) accepts no signature: no external key corresponds to it.
    Holder(Vec<u8>),
    /// A capability for the debited account's own address.
    Capability(SigningCapability),
}

/// Whether an authority releases funds from the account `f`.
pub open spec fn spec_asset_authorized(f: TokenAccountModel, authority: TransferAuthority) -> bool {
    match authority {
        TransferAuthority::Holder(id) => id@ == f.owner && f.owner != f.address,
        TransferAuthority::Capability(c) => c.spec_address() == f.address,
    }
}

/// A token account found at an address lives at that address.
pub proof fn lemma_token_at_address(l: Ledger, a: Seq<u8>)
    requires
        l.token_at(a) is Some,
    ensures
        l.token_at(a)->Some_0.address == a,
{
    assert(has_key(l.tokens@, a));
    let i = key_index(l.tokens@, a);
    assert(0 <= i < l.tokens@.len() && l.tokens@[i].key() == a);
}

/// The ledger: every token account and every payment balance.
pub struct Ledger {
    /// Token accounts, one per address.
    pub tokens: Vec<TokenAccount>,
    /// Payment balances, one entry per identity; an identity without an
    /// entry holds zero.
    pub payments: Vec<PaymentEntry>,
}

impl Ledger {
    /// Each address names at most one token account, each identity at most
    /// one payment entry.
    pub open spec fn wf(self) -> bool {
        &&& distinct_keys(self.tokens@)
        &&& distinct_keys(self.payments@)
    }

    /// The token account at an address, if any.
    pub open spec fn token_at(self, a: Seq<u8>) -> Option<TokenAccountModel> {
        match value_at(self.tokens@, a) {
            Some(t) => Some(t@),
            None => None,
        }
    }

    /// An identity's payment balance.
    pub open spec fn payment_of(self, id: Seq<u8>) -> u64 {
        match value_at(self.payments@, id) {
            Some(p) => p.balance,
            None => 0,
        }
    }

    /// An empty ledger.
    pub fn new() -> (r: Ledger)
        ensures
            r.wf(),
            forall|a: Seq<u8>| r.token_at(a) is None,
            forall|id: Seq<u8>| r.payment_of(id) == 0,
    {
        Ledger { tokens: Vec::new(), payments: Vec::new() }
    }

    /// The index of the token account at an address.
    fn find_token(&self, a: &Vec<u8>) -> (r: Option<usize>)
        ensures
            match r {
                Some(i) => i < self.tokens@.len() && self.tokens@[i as int].key() == a@,
                None => !has_key(self.tokens@, a@),
            },
    {
        let n = self.tokens.len();
        let mut i: usize = 0;
        while i < n
            invariant
                n == self.tokens@.len(),
                i <= n,
                forall|k: int| 0 <= k < i ==> #[trigger] self.tokens@[k].key() != a@,
            decreases n - i,
        {
            if bytes_eq(&self.tokens[i].address, a) {
                return Some(i);
            }
            i += 1;
        }
        proof {
            if has_key(self.tokens@, a@) {
                let w = key_index(self.tokens@, a@);
                assert(self.tokens@[w].key() == a@);
                assert(false);
            }
        }
        None
    }

    /// The index of an identity's payment entry.
    fn find_payment(&self, id: &Vec<u8>) -> (r: Option<usize>)
        ensures
            match r {
                Some(i) => i < self.payments@.len() && self.payments@[i as int].key() == id@,
                None => !has_key(self.payments@, id@),
            },
    {
        let n = self.payments.len();
        let mut i: usize = 0;
        while i < n
            invariant
                n == self.payments@.len(),
                i <= n,
                forall|k: int| 0 <= k < i ==> #[trigger] self.payments@[k].key() != id@,
            decreases n - i,
        {
            if bytes_eq(&self.payments[i].identity, id) {
                return Some(i);
            }
            i += 1;
        }
        proof {
            if has_key(self.payments@, id@) {
                let w = key_index(self.payments@, id@);
                assert(self.payments@[w].key() == id@);
                assert(false);
            }
        }
        None
    }

    /// The token account at an address, read out as plain values.
    pub fn token_account(&self, a: &Vec<u8>) -> (r: Option<TokenAccount>)
        requires
            self.wf(),
        ensures
            match r {
                Some(t) => self.token_at(a@) == Some(t@),
                None => self.token_at(a@) is None,
            },
    {
        match self.find_token(a) {
            Some(i) => {
                proof {
                    lemma_key_index(self.tokens@, i as int);
                }
                let t = &self.tokens[i];
                Some(
                    TokenAccount {
                        address: bytes_clone(&t.address),
                        owner: bytes_clone(&t.owner),
                        mint: bytes_clone(&t.mint),
                        balance: t.balance,
                    },
                )
            },
            None => None,
        }
    }

    /// An identity's payment balance, read out.
    pub fn payment_balance(&self, id: &Vec<u8>) -> (r: u64)
        requires
            self.wf(),
        ensures
            r == self.payment_of(id@),
    {
        match self.find_payment(id) {
            Some(i) => {
                proof {
                    lemma_key_index(self.payments@, i as int);
                }
                self.payments[i].balance
            },
            None => 0,
        }
    }

    /// Creates an empty token account at a fresh address.
    pub fn create_account(&mut self, address: Vec<u8>, owner: Vec<u8>, mint: Vec<u8>) -> (r: Result<
        (),
        EscrowError,
    >)
        requires
            old(self).wf(),
        ensures
            final(self).wf(),
            match r {
                Ok(()) => {
                    &&& old(self).token_at(address@) is None
                    &&& final(self).token_at(address@) == Some(
                        TokenAccountModel {
                            address: address@,
                            owner: owner@,
                            mint: mint@,
                            balance: 0,
                        },
                    )
                    &&& forall|b: Seq<u8>|
                        b != address@ ==> final(self).token_at(b) == old(self).token_at(b)
                    &&& final(self).payments@ == old(self).payments@
                },
                Err(EscrowError::AddressCollision) => {
                    &&& old(self).token_at(address@) is Some
                    &&& *final(self) == *old(self)
                },
                Err(_) => false,
            },
    {
        match self.find_token(&address) {
            Some(i) => {
                proof {
                    lemma_key_index(self.tokens@, i as int);
                }
                Err(EscrowError::AddressCollision)
            },
            None => {
                let entry = TokenAccount { address, owner, mint, balance: 0 };
                proof {
                    lemma_value_at_push(self.tokens@, entry);
                }
                self.tokens.push(entry);
                Ok(())
            },
        }
    }

    /// Issues `amount` fresh units of an account's asset to it, as the
    /// asset's mint would.
    pub fn credit_account(&mut self, address: &Vec<u8>, amount: u64) -> (r: Result<
        (),
        EscrowError,
    >)
        requires
            old(self).wf(),
        ensures
            final(self).wf(),
            match r {
                Ok(()) => {
                    &&& old(self).token_at(address@) matches Some(t)
                    &&& t.balance + amount <= u64::MAX
                    &&& final(self).token_at(address@) == Some(
                        TokenAccountModel {
                            address: t.address,
                            owner: t.owner,
                            mint: t.mint,
                            balance: (t.balance + amount) as u64,
                        },
                    )
                    &&& forall|b: Seq<u8>|
                        b != address@ ==> final(self).token_at(b) == old(self).token_at(b)
                    &&& final(self).payments@ == old(self).payments@
                },
                Err(EscrowError::NotFound) => {
                    &&& old(self).token_at(address@) is None
                    &&& *final(self) == *old(self)
                },
                Err(EscrowError::BalanceOverflow) => {
                    &&& old(self).token_at(address@) matches Some(t)
                    &&& t.balance + amount > u64::MAX
                    &&& *final(self) == *old(self)
                },
                Err(_) => false,
            },
    {
        let i = match self.find_token(address) {
            Some(i) => i,
            None => {
                return Err(EscrowError::NotFound);
            },
        };
        proof {
            lemma_key_index(self.tokens@, i as int);
        }
        let b = self.tokens[i].balance;
        if b > u64::MAX - amount {
            return Err(EscrowError::BalanceOverflow);
        }
        self.tokens[i].balance = b + amount;
        proof {
            lemma_value_at_update(old(self).tokens@, i as int, self.tokens@[i as int]);
        }
        Ok(())
    }

    /// Issues `amount` of the payment currency to an identity.
    pub fn credit_payment(&mut self, id: &Vec<u8>, amount: u64) -> (r: Result<(), EscrowError>)
        requires
            old(self).wf(),
        ensures
            final(self).wf(),
            match r {
                Ok(()) => {
                    &&& old(self).payment_of(id@) + amount <= u64::MAX
                    &&& final(self).payment_of(id@) == old(self).payment_of(id@) + amount
                    &&& forall|b: Seq<u8>|
                        b != id@ ==> final(self).payment_of(b) == old(self).payment_of(b)
                    &&& final(self).tokens@ == old(self).tokens@
                },
                Err(EscrowError::BalanceOverflow) => {
                    &&& old(self).payment_of(id@) + amount > u64::MAX
                    &&& *final(self) == *old(self)
                },
                Err(_) => false,
            },
    {
        let b = self.payment_balance(id);
        if b > u64::MAX - amount {
            return Err(EscrowError::BalanceOverflow);
        }
        self.set_payment(id, b + amount);
        Ok(())
    }

    /// Writes one identity's payment balance, leaving every other alone.
    fn set_payment(&mut self, id: &Vec<u8>, value: u64)
        requires
            old(self).wf(),
        ensures
            final(self).wf(),
            final(self).tokens@ == old(self).tokens@,
            final(self).payment_of(id@) == value,
            forall|b: Seq<u8>| b != id@ ==> final(self).payment_of(b) == old(self).payment_of(b),
    {
        match self.find_payment(id) {
            Some(i) => {
                proof {
                    lemma_key_index(self.payments@, i as int);
                }
                self.payments[i].balance = value;
                proof {
                    lemma_value_at_update(old(self).payments@, i as int, self.payments@[i as int]);
                }
            },
            None => {
                let entry = PaymentEntry { identity: bytes_clone(id), balance: value };
                proof {
                    lemma_value_at_push(self.payments@, entry);
                }
                self.payments.push(entry);
            },
        }
    }

    /// Moves `amount` units of an asset between token accounts, under an
    /// authority that must release the source.
    pub fn transfer_asset(
        &mut self,
        from: &Vec<u8>,
        to: &Vec<u8>,
        amount: u64,
        authority: &TransferAuthority,
    ) -> (r: Result<(), EscrowError>)
        requires
            old(self).wf(),
        ensures
            final(self).wf(),
            match r {
                Ok(()) => {
                    &&& old(self).token_at(from@) matches Some(f)
                    &&& old(self).token_at(to@) matches Some(t)
                    &&& spec_asset_authorized(f, *authority)
                    &&& f.mint == t.mint
                    &&& f.balance >= amount
                    &&& if from@ == to@ {
                        *final(self) == *old(self)
                    } else {
                        &&& t.balance + amount <= u64::MAX
                        &&& final(self).token_at(from@) == Some(
                            TokenAccountModel {
                                address: f.address,
                                owner: f.owner,
                                mint: f.mint,
                                balance: (f.balance - amount) as u64,
                            },
                        )
                        &&& final(self).token_at(to@) == Some(
                            TokenAccountModel {
                                address: t.address,
                                owner: t.owner,
                                mint: t.mint,
                                balance: (t.balance + amount) as u64,
                            },
                        )
                        &&& forall|b: Seq<u8>|
                            b != from@ && b != to@ ==> final(self).token_at(b) == old(
                                self,
                            ).token_at(b)
                        &&& final(self).payments@ == old(self).payments@
                    }
                },
                Err(e) => {
                    &&& *final(self) == *old(self)
                    &&& match e {
                        EscrowError::NotFound => old(self).token_at(from@) is None || old(
                            self,
                        ).token_at(to@) is None,
                        EscrowError::Unauthorized => {
                            &&& old(self).token_at(from@) matches Some(f)
                            &&& old(self).token_at(to@) matches Some(t)
                            &&& !(spec_asset_authorized(f, *authority) && f.mint == t.mint)
                        },
                        EscrowError::InsufficientBalance => {
                            &&& old(self).token_at(from@) matches Some(f)
                            &&& old(self).token_at(to@) matches Some(t)
                            &&& spec_asset_authorized(f, *authority)
                            &&& f.mint == t.mint
                            &&& f.balance < amount
                        },
                        EscrowError::BalanceOverflow => {
                            &&& old(self).token_at(from@) matches Some(f)
                            &&& old(self).token_at(to@) matches Some(t)
                            &&& spec_asset_authorized(f, *authority)
                            &&& f.mint == t.mint
                            &&& f.balance >= amount
                            &&& from@ != to@
                            &&& t.balance + amount > u64::MAX
                        },
                        _ => false,
                    }
                },
            },
    {
        let fi = match self.find_token(from) {
            Some(i) => i,
            None => {
                return Err(EscrowError::NotFound);
            },
        };
        let ti = match self.find_token(to) {
            Some(i) => i,
            None => {
                return Err(EscrowError::NotFound);
            },
        };
        proof {
            lemma_key_index(self.tokens@, fi as int);
            lemma_key_index(self.tokens@, ti as int);
        }
        let authorized = match authority {
            TransferAuthority::Holder(id) => {
                bytes_eq(&self.tokens[fi].owner, id) && !bytes_eq(
                    &self.tokens[fi].owner,
                    &self.tokens[fi].address,
                )
            },
            TransferAuthority::Capability(c) => c.signs_for(from),
        };
        if !authorized {
            return Err(EscrowError::Unauthorized);
        }
        if !bytes_eq(&self.tokens[fi].mint, &self.tokens[ti].mint) {
            return Err(EscrowError::Unauthorized);
        }
        if self.tokens[fi].balance < amount {
            return Err(EscrowError::InsufficientBalance);
        }
        if fi == ti {
            return Ok(());
        }
        proof {
            if from@ == to@ {
                assert(self.tokens@[fi as int].key() == self.tokens@[ti as int].key());
                if fi < ti {
                    assert(self.tokens@[fi as int].key() != self.tokens@[ti as int].key());
                } else {
                    assert(self.tokens@[ti as int].key() != self.tokens@[fi as int].key());
                }
            }
        }
        let tb = self.tokens[ti].balance;
        if tb > u64::MAX - amount {
            return Err(EscrowError::BalanceOverflow);
        }
        let fb = self.tokens[fi].balance;
        self.tokens[fi].balance = fb - amount;
        proof {
            lemma_value_at_update(old(self).tokens@, fi as int, self.tokens@[fi as int]);
        }
        let ghost mid = self.tokens@;
        self.tokens[ti].balance = tb + amount;
        proof {
            lemma_value_at_update(mid, ti as int, self.tokens@[ti as int]);
        }
        Ok(())
    }

    /// Moves `amount` of the payment currency from one identity to another.
    pub fn transfer_payment(&mut self, from: &Vec<u8>, to: &Vec<u8>, amount: u64) -> (r: Result<
        (),
        EscrowError,
    >)
        requires
            old(self).wf(),
        ensures
            final(self).wf(),
            match r {
                Ok(()) => {
                    &&& old(self).payment_of(from@) >= amount
                    &&& if from@ == to@ {
                        *final(self) == *old(self)
                    } else {
                        &&& old(self).payment_of(to@) + amount <= u64::MAX
                        &&& final(self).payment_of(from@) == old(self).payment_of(from@) - amount
                        &&& final(self).payment_of(to@) == old(self).payment_of(to@) + amount
                        &&& forall|b: Seq<u8>|
                            b != from@ && b != to@ ==> final(self).payment_of(b) == old(
                                self,
                            ).payment_of(b)
                        &&& final(self).tokens@ == old(self).tokens@
                    }
                },
                Err(e) => {
                    &&& *final(self) == *old(self)
                    &&& match e {
                        EscrowError::InsufficientBalance => old(self).payment_of(from@) < amount,
                        EscrowError::BalanceOverflow => {
                            &&& old(self).payment_of(from@) >= amount
                            &&& from@ != to@
                            &&& old(self).payment_of(to@) + amount > u64::MAX
                        },
                        _ => false,
                    }
                },
            },
    {
        let fb = self.payment_balance(from);
        if fb < amount {
            return Err(EscrowError::InsufficientBalance);
        }
        if bytes_eq(from, to) {
            return Ok(());
        }
        let tb = self.payment_balance(to);
        if tb > u64::MAX - amount {
            return Err(EscrowError::BalanceOverflow);
        }
        self.set_payment(from, fb - amount);
        self.set_payment(to, tb + amount);
        Ok(())
    }

    /// Retires an emptied token account, as the storage layer does when an
    /// account closes.
    pub(crate) fn close_account(&mut self, address: &Vec<u8>)
        requires
            old(self).wf(),
            old(self).token_at(address@) matches Some(t) && t.balance == 0,
        ensures
            final(self).wf(),
            final(self).token_at(address@) is None,
            forall|b: Seq<u8>| b != address@ ==> final(self).token_at(b) == old(self).token_at(b),
            final(self).payments@ == old(self).payments@,
    {
        let i = match self.find_token(address) {
            Some(i) => i,
            None => {
                proof {
                    let w = key_index(self.tokens@, address@);
                    assert(false);
                }
                return ;
            },
        };
        proof {
            lemma_key_index(self.tokens@, i as int);
            lemma_value_at_remove(self.tokens@, i as int);
        }
        self.tokens.remove(i);
    }
}

} // verus!
