//! Deterministic address derivation.
//!
//! The protocol addresses its escrow record and its vault by a program
//! derived address: a collision-resistant function of a purpose tag and the
//! seller's identity, computed under the protocol's fixed program id.  The
//! same inputs always derive the same address, which is what makes one open
//! escrow per seller a storage-level fact, and the bump seed that comes with
//! the address completes the vault's signing capability.

use vstd::prelude::*;

verus! {

/// What `Pubkey::try_find_program_address` returns for a given program id,
/// purpose tag and owner identity: the derived address and its bump seed, or
/// nothing when no bump seed yields a valid derived address.
pub uninterp spec fn derived_address(program_id: Seq<u8>, tag: Seq<u8>, owner: Seq<u8>) -> Option<
    (Seq<u8>, u8),
>;

/// Relies on `anchor_lang::prelude::Pubkey::try_find_program_address`: for a
/// fixed program id the derived address and bump seed are a function of the
/// seeds alone, and `None` comes exactly when no bump seed yields a valid
/// derived address for them (in particular when a seed is longer than the
/// derivation accepts).
#[verifier::external_body]
fn try_derive(program_id: &Vec<u8>, tag: &Vec<u8>, owner: &Vec<u8>) -> (r: Option<(Vec<u8>, u8)>)
    requires
        program_id@.len() == 32,
    ensures
        r is Some <==> derived_address(program_id@, tag@, owner@) is Some,
        r matches Some(p) ==> derived_address(program_id@, tag@, owner@) == Some((p.0@, p.1)),
{
    let mut id_bytes = [0u8; 32];
    id_bytes.copy_from_slice(program_id.as_slice());
    let pid = anchor_lang::prelude::Pubkey::new_from_array(id_bytes);
    let seeds: [&[u8]; 2] = [tag.as_slice(), owner.as_slice()];
    match anchor_lang::prelude::Pubkey::try_find_program_address(&seeds, &pid) {
        Some((address, bump)) => Some((address.to_bytes().to_vec(), bump)),
        None => None,
    }
}

/// The program id under which the protocol derives its addresses.
pub open spec fn spec_program_id() -> Seq<u8> {
    seq![
        187u8, 146, 121, 6, 187, 90, 105, 121, 60, 74, 49, 63, 251, 115, 224, 168, 172, 54, 125,
        106, 221, 189, 91, 223, 233, 251, 219, 60, 54, 220, 150, 113,
    ]
}

/// The purpose tag of the escrow record's address: the bytes of `"escrow"`.
pub open spec fn spec_escrow_tag() -> Seq<u8> {
    seq![101u8, 115, 99, 114, 111, 119]
}

/// The purpose tag of the vault's address: the bytes of `"vault"`.
pub open spec fn spec_vault_tag() -> Seq<u8> {
    seq![118u8, 97, 117, 108, 116]
}

/// Where the escrow record of the given seller lives, per derivation.
pub open spec fn spec_escrow_derivation(owner: Seq<u8>) -> Option<(Seq<u8>, u8)> {
    derived_address(spec_program_id(), spec_escrow_tag(), owner)
}

/// Where the vault of the given seller lives, per derivation.
pub open spec fn spec_vault_derivation(owner: Seq<u8>) -> Option<(Seq<u8>, u8)> {
    derived_address(spec_program_id(), spec_vault_tag(), owner)
}

fn program_id() -> (r: Vec<u8>)
    ensures
        r@ == spec_program_id(),
        r@.len() == 32,
{
    let r: Vec<u8> = vec![
        187u8, 146, 121, 6, 187, 90, 105, 121, 60, 74, 49, 63, 251, 115, 224, 168, 172, 54, 125,
        106, 221, 189, 91, 223, 233, 251, 219, 60, 54, 220, 150, 113,
    ];
    proof {
        assert(r@ =~= spec_program_id());
    }
    r
}

fn escrow_tag() -> (r: Vec<u8>)
    ensures
        r@ == spec_escrow_tag(),
{
    let r: Vec<u8> = vec![101u8, 115, 99, 114, 111, 119];
    proof {
        assert(r@ =~= spec_escrow_tag());
    }
    r
}

fn vault_tag() -> (r: Vec<u8>)
    ensures
        r@ == spec_vault_tag(),
{
    let r: Vec<u8> = vec![118u8, 97, 117, 108, 116];
    proof {
        assert(r@ =~= spec_vault_tag());
    }
    r
}

/// Derives the escrow record's address and bump for a seller identity.
pub fn derive_escrow_address(owner: &Vec<u8>) -> (r: Option<(Vec<u8>, u8)>)
    ensures
        r is Some <==> spec_escrow_derivation(owner@) is Some,
        r matches Some(p) ==> spec_escrow_derivation(owner@) == Some((p.0@, p.1)),
{
    try_derive(&program_id(), &escrow_tag(), owner)
}

/// Derives the vault's address and bump for a seller identity.
pub fn derive_vault_address(owner: &Vec<u8>) -> (r: Option<(Vec<u8>, u8)>)
    ensures
        r is Some <==> spec_vault_derivation(owner@) is Some,
        r matches Some(p) ==> spec_vault_derivation(owner@) == Some((p.0@, p.1)),
{
    try_derive(&program_id(), &vault_tag(), owner)
}

} // verus!
