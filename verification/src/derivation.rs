//! Deterministic authority derivation.
//!
//! Given `(maker, seed)`, the protocol derives an address with no private
//! key, plus a small proof value ("bump") chosen so the derivation succeeds.
//! Whoever can reconstruct the same derivation inputs controls the derived
//! address, so custody is enforced by the protocol's rules alone.  The
//! derivation is a pure function of `(maker, seed)` and the fixed protocol
//! identity; it is recomputed at create, cancel and settle time and compared
//! against the stored proof.

use vstd::prelude::*;

use crate::state::AccountId;
use anchor_lang::solana_program::pubkey::Pubkey;

verus! {

/// The identity of this protocol: a fixed input of the authority derivation
/// alongside `(maker, seed)`.
pub const PROTOCOL_ID: [u8; 32] = [
    216, 68, 31, 149, 54, 34, 168, 72, 193, 91, 97, 129, 223, 115, 83, 162, 203, 207, 150, 181,
    246, 200, 227, 197, 25, 100, 86, 255, 129, 60, 170, 195,
];

/// What the authority derivation yields for `(maker, seed)` under the fixed
/// protocol identity: the derived custody address and the proof value that
/// produced it, or `None` in the statistically improbable case that no proof
/// value yields a valid address.
pub uninterp spec fn derived_authority(maker: Seq<u8>, seed: u64) -> Option<(Seq<u8>, u8)>;

/// Relies on `Pubkey::try_find_program_address` (anchor_lang's re-export of
/// solana_pubkey): a pure function of the seed slices and the program id,
/// returning a derived off-curve address with the bump that produced it, or
/// `None` when no bump works.  The seed slices here are a fixed prefix, the
/// maker's bytes and the little-endian seed, and the program id is
/// `PROTOCOL_ID`, so the result is a function of `(maker, seed)` alone.
#[verifier::external_body]
pub(crate) fn find_escrow_authority(maker: &AccountId, seed: u64) -> (r: Option<(AccountId, u8)>)
    ensures
        (match r {
            Some(p) => derived_authority(maker@, seed) == Some((p.0@, p.1)),
            None => derived_authority(maker@, seed) is None,
        }),
{
    let seed_bytes = seed.to_le_bytes();
    let seeds: [&[u8]; 3] = [b"escrow", &maker.bytes, &seed_bytes];
    match Pubkey::try_find_program_address(&seeds, &Pubkey::new_from_array(PROTOCOL_ID)) {
        Some((addr, bump)) => Some((AccountId { bytes: addr.to_bytes() }, bump)),
        None => None,
    }
}

} // verus!
