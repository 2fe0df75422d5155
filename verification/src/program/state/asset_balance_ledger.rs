//! AssetBalanceLedger: per-user cross-market balance tracking.
//!
//! Seeds: ["asset-balance-ledger", owner].  Layout:
//!   [0..4]   discriminator
//!   [4..36]  owner_address
//!   [36..]   asset entries of 56 bytes: mint (32), balance, credit, debit (u64)
use vstd::prelude::*;

verus! {

/// Discriminator of AssetBalanceLedger accounts ("ABLG").
pub const DISCRIMINATOR: u32 = 0x4142_4C47;

/// PDA seed prefix: "asset-balance-ledger".
pub const SEED_PREFIX: [u8; 20] = [
    97, 115, 115, 101, 116, 45, 98, 97, 108, 97, 110, 99, 101, 45, 108, 101, 100, 103, 101, 114,
];

/// Minimum data length: discriminator and owner.
pub const MIN_DATA_LEN: usize = 36;

/// Size of one asset entry.
pub const ASSET_ENTRY_SIZE: usize = 56;

} // verus!
