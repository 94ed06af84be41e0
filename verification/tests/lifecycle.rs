//! End-to-end scenarios for the escrow lifecycle.

use token_escrow::errors::EscrowError;
use token_escrow::escrow::{Cancel, EscrowLifecycleManager, Exchange, InitializeEscrow};
use token_escrow::ledger::Ledger;

fn alice() -> Vec<u8> {
    vec![1]
}

fn bob() -> Vec<u8> {
    vec![2]
}

fn mallory() -> Vec<u8> {
    vec![3]
}

fn mint_x() -> Vec<u8> {
    vec![9]
}

fn alice_acct() -> Vec<u8> {
    vec![11]
}

fn bob_acct() -> Vec<u8> {
    vec![12]
}

/// A ledger where Alice holds `alice_tokens` of asset X and Bob holds
/// `bob_payment` of the payment currency.
fn setup(alice_tokens: u64, bob_payment: u64) -> EscrowLifecycleManager {
    let mut l = Ledger::new();
    l.create_account(alice_acct(), alice(), mint_x()).unwrap();
    l.credit_account(&alice_acct(), alice_tokens).unwrap();
    l.create_account(bob_acct(), bob(), mint_x()).unwrap();
    l.credit_payment(&bob(), bob_payment).unwrap();
    EscrowLifecycleManager::new(l)
}

fn open(m: &mut EscrowLifecycleManager, send: u64, receive: u64) -> Vec<u8> {
    m.initialize_escrow(
        &InitializeEscrow {
            initializer: alice(),
            mint: mint_x(),
            initializer_token_account: alice_acct(),
        },
        send,
        receive,
    )
    .unwrap()
}

fn bob_exchange(addr: &[u8]) -> Exchange {
    Exchange { taker: bob(), taker_token_account: bob_acct(), escrow_address: addr.to_vec() }
}

#[test]
fn open_locks_offered_amount() {
    let mut m = setup(1000, 0);
    let addr = open(&mut m, 1000, 5);
    let vault = m.vault_address(&addr).unwrap();
    assert_eq!(m.token_balance(&vault), Some(1000));
    assert_eq!(m.token_balance(&alice_acct()), Some(0));
    let rec = m.escrow_record(&addr).unwrap();
    assert!(!rec.is_completed);
    assert_eq!(rec.amount_to_send, 1000);
    assert_eq!(rec.amount_to_receive, 5);
    assert_eq!(rec.initializer, alice());
    assert_eq!(rec.initializer_token_account, alice_acct());
    assert_eq!(rec.mint, mint_x());
}

#[test]
fn open_with_zero_amount_is_permitted() {
    let mut m = setup(10, 0);
    let addr = open(&mut m, 0, 5);
    let vault = m.vault_address(&addr).unwrap();
    assert_eq!(m.token_balance(&vault), Some(0));
    assert_eq!(m.token_balance(&alice_acct()), Some(10));
}

#[test]
fn open_insufficient_balance_leaves_nothing_behind() {
    let mut m = setup(10, 0);
    let r = m.initialize_escrow(
        &InitializeEscrow {
            initializer: alice(),
            mint: mint_x(),
            initializer_token_account: alice_acct(),
        },
        11,
        5,
    );
    assert_eq!(r, Err(EscrowError::InsufficientBalance));
    assert_eq!(m.token_balance(&alice_acct()), Some(10));
    // The same seller can still open within their means.
    let addr = open(&mut m, 10, 5);
    assert_eq!(m.token_balance(&m.vault_address(&addr).unwrap()), Some(10));
}

#[test]
fn open_wrong_owner_is_unauthorized() {
    let mut m = setup(1000, 0);
    let r = m.initialize_escrow(
        &InitializeEscrow {
            initializer: bob(),
            mint: mint_x(),
            initializer_token_account: alice_acct(),
        },
        10,
        5,
    );
    assert_eq!(r, Err(EscrowError::Unauthorized));
}

#[test]
fn open_wrong_mint_is_unauthorized() {
    let mut m = setup(1000, 0);
    let r = m.initialize_escrow(
        &InitializeEscrow {
            initializer: alice(),
            mint: vec![8],
            initializer_token_account: alice_acct(),
        },
        10,
        5,
    );
    assert_eq!(r, Err(EscrowError::Unauthorized));
}

#[test]
fn reopen_before_retirement_collides() {
    let mut m = setup(1000, 0);
    let addr = open(&mut m, 600, 5);
    let r = m.initialize_escrow(
        &InitializeEscrow {
            initializer: alice(),
            mint: mint_x(),
            initializer_token_account: alice_acct(),
        },
        100,
        7,
    );
    assert_eq!(r, Err(EscrowError::AddressCollision));
    // The first escrow is untouched.
    let rec = m.escrow_record(&addr).unwrap();
    assert_eq!(rec.amount_to_send, 600);
    assert_eq!(rec.amount_to_receive, 5);
    assert!(!rec.is_completed);
    assert_eq!(m.token_balance(&m.vault_address(&addr).unwrap()), Some(600));
    assert_eq!(m.token_balance(&alice_acct()), Some(400));
}

#[test]
fn exchange_settles_both_legs() {
    let mut m = setup(1000, 5);
    let addr = open(&mut m, 1000, 5);
    let vault = m.vault_address(&addr).unwrap();
    m.exchange(&bob_exchange(&addr)).unwrap();
    assert_eq!(m.payment_balance(&bob()), 0);
    assert_eq!(m.payment_balance(&alice()), 5);
    assert_eq!(m.token_balance(&bob_acct()), Some(1000));
    assert_eq!(m.token_balance(&vault), Some(0));
    assert!(m.escrow_record(&addr).unwrap().is_completed);
}

#[test]
fn exchange_twice_fails_already_completed() {
    let mut m = setup(1000, 10);
    let addr = open(&mut m, 1000, 5);
    m.exchange(&bob_exchange(&addr)).unwrap();
    let r = m.exchange(&bob_exchange(&addr));
    assert_eq!(r, Err(EscrowError::AlreadyCompleted));
    // The second attempt moved nothing.
    assert_eq!(m.payment_balance(&bob()), 5);
    assert_eq!(m.payment_balance(&alice()), 5);
    assert_eq!(m.token_balance(&bob_acct()), Some(1000));
}

#[test]
fn cancel_after_exchange_fails_already_completed() {
    let mut m = setup(1000, 5);
    let addr = open(&mut m, 1000, 5);
    m.exchange(&bob_exchange(&addr)).unwrap();
    let r = m.cancel(&Cancel { initializer: alice(), escrow_address: addr.clone() });
    assert_eq!(r, Err(EscrowError::AlreadyCompleted));
    assert_eq!(m.token_balance(&bob_acct()), Some(1000));
}

#[test]
fn cancel_returns_funds_and_retires_everything() {
    let mut m = setup(1000, 0);
    let addr = open(&mut m, 1000, 5);
    let vault = m.vault_address(&addr).unwrap();
    m.cancel(&Cancel { initializer: alice(), escrow_address: addr.clone() }).unwrap();
    assert_eq!(m.token_balance(&alice_acct()), Some(1000));
    // The vault and the record both cease to exist.
    assert_eq!(m.token_balance(&vault), None);
    assert!(m.escrow_record(&addr).is_none());
}

#[test]
fn exchange_after_cancel_fails_not_found() {
    let mut m = setup(1000, 5);
    let addr = open(&mut m, 1000, 5);
    m.cancel(&Cancel { initializer: alice(), escrow_address: addr.clone() }).unwrap();
    let r = m.exchange(&bob_exchange(&addr));
    assert_eq!(r, Err(EscrowError::NotFound));
    assert_eq!(m.payment_balance(&bob()), 5);
    assert_eq!(m.token_balance(&bob_acct()), Some(0));
}

#[test]
fn cancel_by_stranger_is_unauthorized() {
    let mut m = setup(1000, 0);
    let addr = open(&mut m, 1000, 5);
    let vault = m.vault_address(&addr).unwrap();
    let r = m.cancel(&Cancel { initializer: mallory(), escrow_address: addr.clone() });
    assert_eq!(r, Err(EscrowError::Unauthorized));
    // Vault balance and status are unchanged.
    assert_eq!(m.token_balance(&vault), Some(1000));
    assert!(!m.escrow_record(&addr).unwrap().is_completed);
}

#[test]
fn exchange_with_insufficient_payment_aborts_whole() {
    let mut m = setup(1000, 4);
    let addr = open(&mut m, 1000, 5);
    let vault = m.vault_address(&addr).unwrap();
    let r = m.exchange(&bob_exchange(&addr));
    assert_eq!(r, Err(EscrowError::InsufficientBalance));
    assert_eq!(m.token_balance(&vault), Some(1000));
    assert!(!m.escrow_record(&addr).unwrap().is_completed);
    assert_eq!(m.payment_balance(&bob()), 4);
    assert_eq!(m.payment_balance(&alice()), 0);
    assert_eq!(m.token_balance(&bob_acct()), Some(0));
    // With the price paid in full, the same settlement succeeds.
    let mut m2 = setup(1000, 5);
    let addr2 = open(&mut m2, 1000, 5);
    assert!(m2.exchange(&bob_exchange(&addr2)).is_ok());
}

#[test]
fn exchange_unknown_address_fails_not_found() {
    let mut m = setup(1000, 5);
    let r = m.exchange(&bob_exchange(&[42u8, 43, 44]));
    assert_eq!(r, Err(EscrowError::NotFound));
}

#[test]
fn exchange_with_foreign_destination_is_unauthorized() {
    let mut m = setup(1000, 5);
    let addr = open(&mut m, 1000, 5);
    // Bob points the asset leg at Alice's account, which he does not own.
    let r = m.exchange(&Exchange {
        taker: bob(),
        taker_token_account: alice_acct(),
        escrow_address: addr,
    });
    assert_eq!(r, Err(EscrowError::Unauthorized));
}

#[test]
fn exchange_into_vault_is_unauthorized() {
    let mut m = setup(1000, 5);
    let addr = open(&mut m, 1000, 5);
    let vault = m.vault_address(&addr).unwrap();
    // Posing as the vault itself gets past no check: a self-custodied
    // account is no valid destination.
    let r = m.exchange(&Exchange {
        taker: vault.clone(),
        taker_token_account: vault,
        escrow_address: addr,
    });
    assert_eq!(r, Err(EscrowError::Unauthorized));
}

#[test]
fn open_from_vault_is_unauthorized() {
    let mut m = setup(1000, 0);
    let addr = open(&mut m, 1000, 5);
    let vault = m.vault_address(&addr).unwrap();
    // Posing as the vault to drain it into a new escrow is refused: the
    // vault owns itself, and a self-custodied account is no valid source.
    let r = m.initialize_escrow(
        &InitializeEscrow {
            initializer: vault.clone(),
            mint: mint_x(),
            initializer_token_account: vault,
        },
        1000,
        1,
    );
    assert_eq!(r, Err(EscrowError::Unauthorized));
}

#[test]
fn exchange_overflowing_seller_payment_aborts() {
    let mut l = Ledger::new();
    l.create_account(alice_acct(), alice(), mint_x()).unwrap();
    l.credit_account(&alice_acct(), 1000).unwrap();
    l.create_account(bob_acct(), bob(), mint_x()).unwrap();
    l.credit_payment(&bob(), 5).unwrap();
    l.credit_payment(&alice(), u64::MAX).unwrap();
    let mut m = EscrowLifecycleManager::new(l);
    let addr = open(&mut m, 1000, 5);
    let vault = m.vault_address(&addr).unwrap();
    let r = m.exchange(&bob_exchange(&addr));
    assert_eq!(r, Err(EscrowError::BalanceOverflow));
    assert_eq!(m.payment_balance(&bob()), 5);
    assert_eq!(m.payment_balance(&alice()), u64::MAX);
    assert_eq!(m.token_balance(&vault), Some(1000));
}

#[test]
fn cancel_overflowing_destination_aborts() {
    let mut m = setup(u64::MAX, 0);
    let addr = open(&mut m, 1000, 5);
    let vault = m.vault_address(&addr).unwrap();
    // Refill the source account to the brim while the escrow is open: the
    // returned amount no longer fits, and the cancellation aborts whole.
    m.ledger.credit_account(&alice_acct(), 1000).unwrap();
    let r = m.cancel(&Cancel { initializer: alice(), escrow_address: addr.clone() });
    assert_eq!(r, Err(EscrowError::BalanceOverflow));
    assert_eq!(m.token_balance(&vault), Some(1000));
    assert!(!m.escrow_record(&addr).unwrap().is_completed);
}

#[test]
fn open_with_oversized_identity_fails_derivation() {
    let seller = vec![7u8; 33];
    let acct = vec![21u8];
    let mut l = Ledger::new();
    l.create_account(acct.clone(), seller.clone(), mint_x()).unwrap();
    l.credit_account(&acct, 50).unwrap();
    let mut m = EscrowLifecycleManager::new(l);
    // A 33-byte identity exceeds what one derivation seed can carry, so no
    // address can be derived for it.
    let r = m.initialize_escrow(
        &InitializeEscrow { initializer: seller, mint: mint_x(), initializer_token_account: acct },
        10,
        5,
    );
    assert_eq!(r, Err(EscrowError::DerivationFailed));
}

#[test]
fn derivation_is_deterministic_and_fresh() {
    let mut m1 = setup(1000, 0);
    let mut m2 = setup(1000, 0);
    let a1 = open(&mut m1, 10, 5);
    let a2 = open(&mut m2, 999, 1);
    // The record's address depends on the seller alone: two runs derive
    // the same address, whatever the terms.
    assert_eq!(a1, a2);
    // And it is a real derived address, not any input echoed back.
    assert_eq!(a1.len(), 32);
    assert_ne!(a1, alice());
    let v1 = m1.vault_address(&a1).unwrap();
    assert_eq!(v1.len(), 32);
    assert_ne!(v1, a1);
    assert_ne!(v1, alice());
}
