//! Keys: the identity of an account or of a program.

use solana_pubkey::Pubkey;
use vstd::prelude::*;

verus! {

/// `solana_pubkey::Pubkey`, a key of thirty-two bytes. Nothing of its inside
/// is known here but what `key_bytes` names.
#[verifier::external_type_specification]
#[verifier::external_body]
pub struct ExPubkey(Pubkey);

/// The thirty-two bytes that a key holds.
pub uninterp spec fn key_bytes(key: Pubkey) -> Seq<u8>;

/// `Pubkey::new_from_array` wraps the array it is given: the key holds those
/// bytes.
pub assume_specification[ Pubkey::new_from_array ](pubkey_array: [u8; 32]) -> (key: Pubkey)
    ensures
        key_bytes(key) == pubkey_array@,
;

/// `Pubkey::to_bytes` hands out the array that the key wraps.
pub assume_specification[ Pubkey::to_bytes ](key: Pubkey) -> (bytes: [u8; 32])
    ensures
        bytes@ == key_bytes(key),
;

} // verus!
