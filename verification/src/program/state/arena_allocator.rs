//! ArenaAllocator: linear allocator accounts for queues and aggregation.
//!
//! Three arena types exist per market (aggregate, limit-order queue,
//! market-order queue).  Seeds: ["arena-allocator", market_config,
//! arena_type].  Initialized at 10 KiB, grows in 10 KiB increments up to
//! 10 MiB.
//!
//! Header layout:
//!   [0..4]   discriminator
//!   [4..8]   write_offset: u32
//!   [8..12]  read_offset: u32
//!   [12..16] capacity: u32 — size of the data region
//!   [16..20] flags: u32
//!   [20..24] reserved: u32
use vstd::prelude::*;

verus! {

/// Discriminator of ArenaAllocator accounts ("ARNA").
pub const DISCRIMINATOR: u32 = 0x4152_4E41;

/// PDA seed prefix: "arena-allocator".
pub const SEED_PREFIX: [u8; 15] = [
    97, 114, 101, 110, 97, 45, 97, 108, 108, 111, 99, 97, 116, 111, 114,
];

pub const ARENA_TYPE_AGGREGATE: u8 = 0x01;
pub const ARENA_TYPE_LIMIT_ORDER_QUEUE: u8 = 0x02;
pub const ARENA_TYPE_MARKET_ORDER_QUEUE: u8 = 0x03;

/// Header size of an ArenaAllocator account.
pub const HEADER_SIZE: usize = 24;

} // verus!
