//! Program-derived addresses.
use vstd::prelude::*;

verus! {

/// The address that `Address::derive_address` computes from the seeds
/// (each taken by its bytes), the bump seed and the program id: the
/// SHA-256 hash of the seeds, the bump, the program id and the PDA marker.
pub uninterp spec fn derived_address(seeds: Seq<Seq<u8>>, bump: u8, program_id: Seq<u8>) -> Seq<u8>;

/// The bytes of each seed.
pub open spec fn seed_bytes<const N: usize>(seeds: &[&[u8]; N]) -> Seq<Seq<u8>> {
    seeds@.map_values(|s: &[u8]| s@)
}

/// Calls `pinocchio::Address::derive_address(seeds, Some(bump), program_id)`
/// (solana-address 2.9) and returns the address's bytes.  Its contract
/// claims only that the result is `derived_address` of the arguments'
/// bytes; the hash itself is not specified.  The function panics when a
/// seed is longer than `MAX_SEED_LEN` (32 bytes), so such seeds are left
/// out; `N < MAX_SEEDS` (16) is checked at compile time by the callee.
#[verifier::external_body]
pub(crate) fn derive_address<const N: usize>(
    seeds: &[&[u8]; N],
    bump: u8,
    program_id: &[u8; 32],
) -> (r: [u8; 32])
    requires
        N < 16,
        forall|i: int| 0 <= i < N ==> (#[trigger] seeds@[i])@.len() <= 32,
    ensures
        r@ == derived_address(seed_bytes(seeds), bump, program_id@),
{
    pinocchio::Address::derive_address(seeds, Some(bump), &pinocchio::Address::new_from_array(
        *program_id,
    )).to_bytes()
}

} // verus!
