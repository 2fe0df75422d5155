//! MarketConfig: the root market account.
//!
//! Seeds: ["market-config", base_token_mint, quote_token_mint].  Layout:
//!   [0..4] discriminator, then ten 32-byte addresses: base and quote mints,
//!   base and quote pools, order book ledger, the three arenas and the two
//!   slabs.
use vstd::prelude::*;

verus! {

/// Discriminator of MarketConfig accounts ("MKTC").
pub const DISCRIMINATOR: u32 = 0x4D4B_5443;

/// PDA seed prefix: "market-config".
pub const SEED_PREFIX: [u8; 13] = [109, 97, 114, 107, 101, 116, 45, 99, 111, 110, 102, 105, 103];

/// Minimum data length.
pub const MIN_DATA_LEN: usize = 324;

} // verus!
