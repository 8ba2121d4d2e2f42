//! Deterministic derivation of a record's storage address.
//!
//! The address is a pure function of the owner's key, the record name's
//! UTF-8 bytes and the capability holder's (program's) id.  The derivation
//! itself is the host's primitive; this module never trusts a caller-supplied
//! address and exposes the derivation so that callers can re-derive and
//! compare.

use vstd::prelude::*;
use vstd::utf8::encode_utf8;

verus! {

/// What the host's derivation primitive returns for a given owner key, name
/// seed and program id: the storage address and the disambiguation nonce, or
/// nothing when no viable nonce exists for these seeds (for example, a name
/// seed beyond the host's seed length limit).
pub uninterp spec fn derived_address(owner: Seq<u8>, name: Seq<u8>, program: Seq<u8>) -> Option<
    (Seq<u8>, u8),
>;

/// Relies on `Pubkey::try_find_program_address` of solana-program: for a
/// fixed seed list (here the owner's key bytes and the name's bytes) and
/// program id it is a pure function of its arguments, returning `None`
/// exactly when no bump seed yields a valid off-curve address.
#[verifier::external_body]
fn try_find_record_address(owner: &[u8; 32], name_seed: &[u8], program: &[u8; 32]) -> (r: Option<
    ([u8; 32], u8),
>)
    ensures
        match r {
            Some((a, bump)) => derived_address(owner@, name_seed@, program@) == Some((a@, bump)),
            None => derived_address(owner@, name_seed@, program@) is None,
        },
{
    let program_id = solana_program::pubkey::Pubkey::new_from_array(*program);
    let found = solana_program::pubkey::Pubkey::try_find_program_address(
        &[owner.as_slice(), name_seed],
        &program_id,
    );
    found.map(|(address, bump)| (address.to_bytes(), bump))
}

/// Derives the storage address and nonce for `(owner, name)` under `program`.
/// The result is a function of the three inputs alone, so repeated calls
/// agree.
pub fn derive_record_address(owner: &[u8; 32], name: &str, program: &[u8; 32]) -> (r: Option<
    ([u8; 32], u8),
>)
    ensures
        match r {
            Some((a, bump)) => derived_address(owner@, encode_utf8(name@), program@) == Some(
                (a@, bump),
            ),
            None => derived_address(owner@, encode_utf8(name@), program@) is None,
        },
{
    try_find_record_address(owner, name.as_bytes(), program)
}

} // verus!
