//! Direct checks of the ledger's transfer primitives.

use token_escrow::errors::EscrowError;
use token_escrow::ledger::{Ledger, TransferAuthority};

fn acct_a() -> Vec<u8> {
    vec![101]
}

fn acct_b() -> Vec<u8> {
    vec![102]
}

fn owner_a() -> Vec<u8> {
    vec![1]
}

fn owner_b() -> Vec<u8> {
    vec![2]
}

fn mint() -> Vec<u8> {
    vec![9]
}

fn two_accounts() -> Ledger {
    let mut l = Ledger::new();
    l.create_account(acct_a(), owner_a(), mint()).unwrap();
    l.credit_account(&acct_a(), 10).unwrap();
    l.create_account(acct_b(), owner_b(), mint()).unwrap();
    l
}

#[test]
fn transfer_payment_moves_and_conserves() {
    let mut l = Ledger::new();
    l.credit_payment(&owner_a(), 10).unwrap();
    l.transfer_payment(&owner_a(), &owner_b(), 4).unwrap();
    assert_eq!(l.payment_balance(&owner_a()), 6);
    assert_eq!(l.payment_balance(&owner_b()), 4);
    // A self-transfer succeeds and changes nothing.
    l.transfer_payment(&owner_a(), &owner_a(), 3).unwrap();
    assert_eq!(l.payment_balance(&owner_a()), 6);
    // Moving more than is held is refused and changes nothing.
    let r = l.transfer_payment(&owner_b(), &owner_a(), 5);
    assert_eq!(r, Err(EscrowError::InsufficientBalance));
    assert_eq!(l.payment_balance(&owner_a()), 6);
    assert_eq!(l.payment_balance(&owner_b()), 4);
}

#[test]
fn transfer_asset_needs_the_owners_signature() {
    let mut l = two_accounts();
    // A stranger's signature does not release the source.
    let r = l.transfer_asset(&acct_a(), &acct_b(), 4, &TransferAuthority::Holder(owner_b()));
    assert_eq!(r, Err(EscrowError::Unauthorized));
    assert_eq!(l.token_account(&acct_a()).unwrap().balance, 10);
    // The owner's does.
    l.transfer_asset(&acct_a(), &acct_b(), 4, &TransferAuthority::Holder(owner_a())).unwrap();
    assert_eq!(l.token_account(&acct_a()).unwrap().balance, 6);
    assert_eq!(l.token_account(&acct_b()).unwrap().balance, 4);
}

#[test]
fn transfer_asset_refuses_mint_mismatch() {
    let mut l = two_accounts();
    let other = vec![103u8];
    l.create_account(other.clone(), owner_b(), vec![8]).unwrap();
    let r = l.transfer_asset(&acct_a(), &other, 1, &TransferAuthority::Holder(owner_a()));
    assert_eq!(r, Err(EscrowError::Unauthorized));
    assert_eq!(l.token_account(&acct_a()).unwrap().balance, 10);
    assert_eq!(l.token_account(&other).unwrap().balance, 0);
}

#[test]
fn create_account_refuses_an_occupied_address() {
    let mut l = two_accounts();
    let r = l.create_account(acct_a(), owner_b(), mint());
    assert_eq!(r, Err(EscrowError::AddressCollision));
    // The occupant is untouched.
    let t = l.token_account(&acct_a()).unwrap();
    assert_eq!(t.owner, owner_a());
    assert_eq!(t.balance, 10);
}

#[test]
fn self_owned_account_accepts_no_signature() {
    let mut l = Ledger::new();
    let held = vec![104u8];
    l.create_account(held.clone(), held.clone(), mint()).unwrap();
    l.credit_account(&held, 5).unwrap();
    l.create_account(acct_b(), owner_b(), mint()).unwrap();
    // Even a signature under the account's own address releases nothing:
    // only a capability can.
    let r = l.transfer_asset(&held, &acct_b(), 5, &TransferAuthority::Holder(held.clone()));
    assert_eq!(r, Err(EscrowError::Unauthorized));
    assert_eq!(l.token_account(&held).unwrap().balance, 5);
}
