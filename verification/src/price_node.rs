//! PriceNode: the 32-byte record that maps one price level to its
//! collection of order blocks.
//!
//! Layout:
//!   offset  0: last_slot_update           u64
//!   offset  8: price                      u64
//!   offset 16: parent_pointer             u32
//!   offset 20: order_block_pointer        u32
//!   offset 24: next_entry_offset          u8
//!   offset 25: next_match_offset          u8
//!   offset 26: num_order_blocks_produced  u16
//!   offset 28: num_order_blocks_consumed  u16
//!   offset 30: num_order_blocks_compacted u16
use vstd::prelude::*;
use crate::le::{le_u16, le_u32, le_u64, lemma_put_u16, lemma_put_u32, lemma_put_u64, read_u16, read_u32, read_u64, write_u16, write_u32, write_u64};

verus! {

/// The decoded fields of a `PriceNode`.
pub struct PriceNodeFields {
    pub last_slot_update: u64,
    pub price: u64,
    pub parent_pointer: u32,
    pub order_block_pointer: u32,
    pub next_entry_offset: u8,
    pub next_match_offset: u8,
    pub num_order_blocks_produced: u16,
    pub num_order_blocks_consumed: u16,
    pub num_order_blocks_compacted: u16,
}

pub struct PriceNode(pub [u8; 32]);

impl View for PriceNode {
    type V = PriceNodeFields;

    open spec fn view(&self) -> PriceNodeFields {
        let b = self.0@;
        PriceNodeFields {
            last_slot_update: le_u64(b, 0),
            price: le_u64(b, 8),
            parent_pointer: le_u32(b, 16),
            order_block_pointer: le_u32(b, 20),
            next_entry_offset: b[24],
            next_match_offset: b[25],
            num_order_blocks_produced: le_u16(b, 26),
            num_order_blocks_consumed: le_u16(b, 28),
            num_order_blocks_compacted: le_u16(b, 30),
        }
    }
}

impl PriceNode {
    pub fn last_slot_update(&self) -> (r: u64)
        ensures
            r == self@.last_slot_update,
    {
        read_u64(&self.0, 0)
    }

    pub fn set_last_slot_update(&mut self, val: u64)
        ensures
            final(self)@ == (PriceNodeFields { last_slot_update: val, ..old(self)@ }),
    {
        proof {
            lemma_put_u64(self.0@, 0, val);
        }
        write_u64(&mut self.0, 0, val);
    }

    pub fn price(&self) -> (r: u64)
        ensures
            r == self@.price,
    {
        read_u64(&self.0, 8)
    }

    pub fn set_price(&mut self, val: u64)
        ensures
            final(self)@ == (PriceNodeFields { price: val, ..old(self)@ }),
    {
        proof {
            lemma_put_u64(self.0@, 8, val);
        }
        write_u64(&mut self.0, 8, val);
    }

    pub fn parent_pointer(&self) -> (r: u32)
        ensures
            r == self@.parent_pointer,
    {
        read_u32(&self.0, 16)
    }

    pub fn set_parent_pointer(&mut self, val: u32)
        ensures
            final(self)@ == (PriceNodeFields { parent_pointer: val, ..old(self)@ }),
    {
        proof {
            lemma_put_u32(self.0@, 16, val);
        }
        write_u32(&mut self.0, 16, val);
    }

    pub fn order_block_pointer(&self) -> (r: u32)
        ensures
            r == self@.order_block_pointer,
    {
        read_u32(&self.0, 20)
    }

    pub fn set_order_block_pointer(&mut self, val: u32)
        ensures
            final(self)@ == (PriceNodeFields { order_block_pointer: val, ..old(self)@ }),
    {
        proof {
            lemma_put_u32(self.0@, 20, val);
        }
        write_u32(&mut self.0, 20, val);
    }

    pub fn next_entry_offset(&self) -> (r: u8)
        ensures
            r == self@.next_entry_offset,
    {
        self.0[24]
    }

    pub fn set_next_entry_offset(&mut self, val: u8)
        ensures
            final(self)@ == (PriceNodeFields { next_entry_offset: val, ..old(self)@ }),
    {
        self.0[24] = val;
    }

    pub fn next_match_offset(&self) -> (r: u8)
        ensures
            r == self@.next_match_offset,
    {
        self.0[25]
    }

    pub fn set_next_match_offset(&mut self, val: u8)
        ensures
            final(self)@ == (PriceNodeFields { next_match_offset: val, ..old(self)@ }),
    {
        self.0[25] = val;
    }

    pub fn num_order_blocks_produced(&self) -> (r: u16)
        ensures
            r == self@.num_order_blocks_produced,
    {
        read_u16(&self.0, 26)
    }

    pub fn set_num_order_blocks_produced(&mut self, val: u16)
        ensures
            final(self)@ == (PriceNodeFields { num_order_blocks_produced: val, ..old(self)@ }),
    {
        proof {
            lemma_put_u16(self.0@, 26, val);
        }
        write_u16(&mut self.0, 26, val);
    }

    pub fn num_order_blocks_consumed(&self) -> (r: u16)
        ensures
            r == self@.num_order_blocks_consumed,
    {
        read_u16(&self.0, 28)
    }

    pub fn set_num_order_blocks_consumed(&mut self, val: u16)
        ensures
            final(self)@ == (PriceNodeFields { num_order_blocks_consumed: val, ..old(self)@ }),
    {
        proof {
            lemma_put_u16(self.0@, 28, val);
        }
        write_u16(&mut self.0, 28, val);
    }

    pub fn num_order_blocks_compacted(&self) -> (r: u16)
        ensures
            r == self@.num_order_blocks_compacted,
    {
        read_u16(&self.0, 30)
    }

    pub fn set_num_order_blocks_compacted(&mut self, val: u16)
        ensures
            final(self)@ == (PriceNodeFields { num_order_blocks_compacted: val, ..old(self)@ }),
    {
        proof {
            lemma_put_u16(self.0@, 30, val);
        }
        write_u16(&mut self.0, 30, val);
    }

    /// Blocks still live: produced minus (consumed + compacted), floored at 0.
    /// The sum of consumed and compacted must fit in a `u16`.
    pub fn num_order_blocks_live(&self) -> (r: u16)
        requires
            self@.num_order_blocks_consumed + self@.num_order_blocks_compacted <= u16::MAX,
        ensures
            r == (if self@.num_order_blocks_produced >= self@.num_order_blocks_consumed
                + self@.num_order_blocks_compacted {
                self@.num_order_blocks_produced - (self@.num_order_blocks_consumed
                    + self@.num_order_blocks_compacted)
            } else {
                0
            }),
    {
        self.num_order_blocks_produced().saturating_sub(
            self.num_order_blocks_consumed() + self.num_order_blocks_compacted(),
        )
    }
}

} // verus!
