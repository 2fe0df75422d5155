//! Account layouts and the constants they share.
pub mod arena_allocator;
pub mod asset_balance_ledger;
pub mod asset_order_status;
pub mod common;
pub mod market_config;
pub mod slab_allocator;

use vstd::prelude::*;
use crate::le::{le_u32, put_u32, read_u32, write_u32};

verus! {

/// Discriminator of accounts that are being closed; such an account must
/// not be used for normal operations.
pub const CLOSING_DISCRIMINATOR: u32 = 0xFFFF_FFFF;

/// Initial allocation size for arena and slab accounts (10 KiB).
pub const INITIAL_ACCOUNT_SIZE: u64 = 10240;

/// Allocation increment size (10 KiB).
pub const ALLOCATE_INCREMENT: u64 = 10240;

/// Maximum account size (10 MiB).
pub const MAX_ACCOUNT_SIZE: u64 = 10485760;

/// The u32 discriminator in the first four bytes of account data (little
/// endian); the data must hold at least four bytes.
pub fn read_discriminator(data: &[u8]) -> (r: u32)
    requires
        data@.len() >= 4,
    ensures
        r == le_u32(data@, 0),
{
    read_u32(data, 0)
}

/// Writes `disc` into the first four bytes of account data (little endian);
/// the data must hold at least four bytes.
pub fn write_discriminator(data: &mut [u8], disc: u32)
    requires
        old(data)@.len() >= 4,
    ensures
        final(data)@ == put_u32(old(data)@, 0, disc),
        final(data)@.len() == old(data)@.len(),
{
    write_u32(data, 0, disc);
}

} // verus!
