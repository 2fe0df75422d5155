//! AssetOrderStatus: per-user per-market order tracking.
//!
//! Seeds: ["asset-order-status", market_config, owner, ledger].  Layout:
//!   [0..4]   discriminator
//!   [4..36]  owner_address
//!   [36..68] asset_balance_ledger_address
//!   [68..72] base_asset_index
//!   [72..76] quote_asset_index
//!   [76..80] ledger_index
//!   [80..]   orders
use vstd::prelude::*;

verus! {

/// Discriminator of AssetOrderStatus accounts ("ASOS").
pub const DISCRIMINATOR: u32 = 0x4153_4F53;

/// PDA seed prefix: "asset-order-status".
pub const SEED_PREFIX: [u8; 18] = [
    97, 115, 115, 101, 116, 45, 111, 114, 100, 101, 114, 45, 115, 116, 97, 116, 117, 115,
];

/// Minimum data length.
pub const MIN_DATA_LEN: usize = 80;

} // verus!
