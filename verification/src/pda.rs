//! Addresses that a program derives from seeds, for the vault it owns.

use vstd::prelude::*;
use crate::pubkey::{lemma_key_eq_by_bytes, Pubkey};

verus! {

/// What `Pubkey::try_find_program_address` of the host library yields for
/// one seed and a program: the derived address with its bump seed, or nothing
/// where no bump seed gives an address off the curve.
pub uninterp spec fn program_address(seed: Seq<u8>, program_id: Seq<u8>) -> Option<(Seq<u8>, u8)>;

/// Calls `anchor_lang::prelude::Pubkey::try_find_program_address` with the
/// one seed. The address is a hash of the seed, a bump seed and the program's
/// identity, so the same arguments always give the same answer: the contract
/// names that answer and claims nothing else of it.
#[verifier::external_body]
pub(crate) fn find_program_address(seed: &Vec<u8>, program_id: &Pubkey) -> (found: Option<(Pubkey, u8)>)
    ensures
        match found {
            Some((address, bump)) => program_address(seed@, program_id@) == Some((address@, bump)),
            None => program_address(seed@, program_id@) is None,
        },
{
    let program = anchor_lang::prelude::Pubkey::new_from_array(program_id.bytes);
    match anchor_lang::prelude::Pubkey::try_find_program_address(&[seed.as_slice()], &program) {
        Some((address, bump)) => Some((Pubkey { bytes: address.to_bytes() }, bump)),
        None => None,
    }
}

/// The seed under which every program here derives its pooled vault: the
/// ASCII bytes of `vault`.
pub open spec fn vault_seed() -> Seq<u8> {
    seq![118u8, 97u8, 117u8, 108u8, 116u8]
}

/// The address of the pooled vault that belongs to `program_id`.
pub open spec fn vault_address(program_id: Seq<u8>) -> Option<(Seq<u8>, u8)> {
    program_address(vault_seed(), program_id)
}

/// The address alone of the pooled vault that belongs to `program_id`.
pub open spec fn derived_vault(program_id: Seq<u8>) -> Option<Seq<u8>> {
    match vault_address(program_id) {
        Some((address, _)) => Some(address),
        None => None,
    }
}

/// The bytes of an address that may be missing.
pub open spec fn address_bytes(address: Option<Pubkey>) -> Option<Seq<u8>> {
    match address {
        Some(key) => Some(key@),
        None => None,
    }
}

/// Whether `key` is the address that was derived.
pub fn is_derived(derived: &Option<Pubkey>, key: &Pubkey) -> (same: bool)
    ensures
        same == (address_bytes(*derived) == Some(key@)),
{
    match derived {
        Some(address) => {
            proof {
                lemma_key_eq_by_bytes(*address, *key);
            }
            *address == *key
        },
        None => false,
    }
}

/// Derives the address of the pooled vault of `program_id`, with its bump
/// seed.
pub fn find_vault_address(program_id: &Pubkey) -> (found: Option<(Pubkey, u8)>)
    ensures
        match found {
            Some((address, bump)) => vault_address(program_id@) == Some((address@, bump)),
            None => vault_address(program_id@) is None,
        },
{
    let mut seed: Vec<u8> = Vec::new();
    seed.push(118u8);
    seed.push(97u8);
    seed.push(117u8);
    seed.push(108u8);
    seed.push(116u8);
    assert(seed@ =~= vault_seed());
    find_program_address(&seed, program_id)
}

} // verus!
