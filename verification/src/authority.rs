//! The program-derived authority: a deterministic, key-less address, derived
//! from a fixed seed and the program's own identity, that holds custody over
//! every program-side token account.

use crate::address::Address;
use crate::state::{authority_seed, spec_authority_seed};
use vstd::prelude::*;

verus! {

/// The address, if any, that the host ledger derives for a program from one
/// seed: a pure function of the seed bytes and the program id alone.
pub uninterp spec fn spec_derived_authority(seed: Seq<u8>, program_id: Seq<u8>) -> Option<
    Seq<u8>,
>;

/// Relies on solana_program::pubkey::Pubkey::try_find_program_address: the
/// returned address, or the absence of one, is a deterministic function of
/// the seed bytes and the program id, and the call never panics.
#[verifier::external_body]
fn try_derive_authority(seed: &Vec<u8>, program_id: &Address) -> (r: Option<Address>)
    ensures
        r matches Some(a) ==> spec_derived_authority(seed@, program_id@) == Some(a@),
        r is None ==> spec_derived_authority(seed@, program_id@) is None,
{
    let pid = solana_program::pubkey::Pubkey::new_from_array(program_id.bytes);
    let found = solana_program::pubkey::Pubkey::try_find_program_address(
        &[seed.as_slice()],
        &pid,
    );
    found.map(|(pda, _bump)| Address { bytes: pda.to_bytes() })
}

/// The program-derived authority of `program_id` under the fixed seed.
pub open spec fn spec_program_authority(program_id: Seq<u8>) -> Option<Seq<u8>> {
    spec_derived_authority(spec_authority_seed(), program_id)
}

/// Derive the program authority for `program_id`. `None` only in the
/// statistically improbable event that no derived address exists for the
/// fixed seed.
pub fn program_authority(program_id: &Address) -> (r: Option<Address>)
    ensures
        r matches Some(a) ==> spec_program_authority(program_id@) == Some(a@),
        r is None ==> spec_program_authority(program_id@) is None,
{
    let seed = authority_seed();
    try_derive_authority(&seed, program_id)
}

} // verus!
