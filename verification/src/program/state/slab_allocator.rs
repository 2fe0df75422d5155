//! SlabAllocator accounts: raw byte buffers that hold fixed-size nodes.
//!
//! Two slab collections exist per market: the order-book collection
//! (price tree, price status, order blocks and their linked nodes) and the
//! ledger-status collection.  Seeds: ["slab-allocator", market_config,
//! slab_type, slab_index]; several slabs of one type make the order book
//! boundless.  Initialized at 10 KiB, grows in 10 KiB increments up to
//! 10 MiB.
use vstd::prelude::*;

verus! {

/// Discriminator of SlabAllocator accounts ("SLAB").
pub const DISCRIMINATOR: u32 = 0x534C_4142;

/// PDA seed prefix: "slab-allocator".
pub const SEED_PREFIX: [u8; 14] = [115, 108, 97, 98, 45, 97, 108, 108, 111, 99, 97, 116, 111, 114];

pub const SLAB_TYPE_PRICE_TREE: u8 = 0x10;
pub const SLAB_TYPE_PRICE_STATUS_NODE: u8 = 0x11;
pub const SLAB_TYPE_ORDER_BLOCK_NODE: u8 = 0x12;
pub const SLAB_TYPE_ORDER_BLOCK_LINKED_NODE: u8 = 0x13;
pub const SLAB_TYPE_LEDGER_STATUS: u8 = 0x20;
pub const SLAB_TYPE_ORDER_ENTRY_STATUS: u8 = 0x21;
pub const SLAB_TYPE_ENTRY_STATUS: u8 = 0x22;
pub const SLAB_TYPE_ORDER_ENTRY_STATUS_LINKED: u8 = 0x23;
pub const SLAB_TYPE_ENTRY_STATUS_LINKED: u8 = 0x24;

/// Header size of a slab account.
pub const HEADER_SIZE: usize = 24;

/// Size of one stack node.
pub const STACK_NODE_SIZE: usize = 16;

} // verus!
