//! TrieNode (24 bytes) and the TrieLink (7 bytes) embedded in it.
//!
//! TrieNode layout:
//!   offset  0: quantity_delta  u64 — sum of open order quantities in the subtree
//!   offset  8: quote_delta     u64 — sum of open order quotes in the subtree
//!   offset 16: value           u8  — low nibble: digit (0–9), high nibble: depth
//!   offset 17: trie_link       TrieLink
//!
//! TrieLink layout:
//!   offset 0: size     u8  — number of direct TrieNode children (0–10)
//!   offset 1: flags    u16 — bits 0–9: digit bitmask; bit 11: pointer leads to a
//!                            TrieLinkNode; bit 12: to a TrieNode; bit 13: to a
//!                            PriceNode; bit 14: subtree active
//!   offset 3: pointer  u32 — raw byte address of the target
use vstd::prelude::*;
use crate::le::{
    le_u16, le_u32, le_u64, lemma_put_u16, lemma_put_u32, lemma_put_u64, read_u16, read_u32,
    read_u64, write_u16, write_u32, write_u64,
};
use crate::pointers::{Pointer, PriceNodePointer, TrieLinkNodePointer, TrieNodePointer};

verus! {

/// Flag bit: the pointer leads to a TrieLinkNode (several children).
pub const TRIE_LINK_NODE_PTR_FLAG: u16 = 0x0800;

/// Flag bit: the pointer leads to a TrieNode (a single child).
pub const TRIE_NODE_PTR_FLAG: u16 = 0x1000;

/// Flag bit: the pointer leads to a PriceNode.
pub const PRICE_NODE_PTR_FLAG: u16 = 0x2000;

/// Flag bit: the subtree below is active.
pub const IS_ACTIVE_FLAG: u16 = 0x4000;

/// The reserved flag bits (10 and 15), which no operation changes.
pub const RESERVED_FLAGS: u16 = 0x8400;

/// The three pointer-kind flag bits together.
pub const POINTER_KIND_MASK: u16 = 0x3800;

/// The decoded fields of a `TrieLink`.
pub struct TrieLinkFields {
    pub size: u8,
    pub flags: u16,
    pub pointer: u32,
}

/// The `TrieLink` fields stored in the seven bytes of `b` at `at`.
pub open spec fn link_fields_at(b: Seq<u8>, at: int) -> TrieLinkFields {
    TrieLinkFields { size: b[at], flags: le_u16(b, at + 1), pointer: le_u32(b, at + 3) }
}

/// The decoded fields of a `TrieNode`.
pub struct TrieNodeFields {
    pub quantity_delta: u64,
    pub quote_delta: u64,
    pub value: u8,
    pub link: TrieLinkFields,
}

pub struct TrieNode(pub [u8; 24]);

impl View for TrieNode {
    type V = TrieNodeFields;

    open spec fn view(&self) -> TrieNodeFields {
        let b = self.0@;
        TrieNodeFields {
            quantity_delta: le_u64(b, 0),
            quote_delta: le_u64(b, 8),
            value: b[16],
            link: link_fields_at(b, 17),
        }
    }
}

impl TrieNode {
    pub fn quantity_delta(&self) -> (r: u64)
        ensures
            r == self@.quantity_delta,
    {
        read_u64(&self.0, 0)
    }

    pub fn set_quantity_delta(&mut self, val: u64)
        ensures
            final(self)@ == (TrieNodeFields { quantity_delta: val, ..old(self)@ }),
    {
        proof {
            lemma_put_u64(self.0@, 0, val);
        }
        write_u64(&mut self.0, 0, val);
    }

    pub fn quote_delta(&self) -> (r: u64)
        ensures
            r == self@.quote_delta,
    {
        read_u64(&self.0, 8)
    }

    pub fn set_quote_delta(&mut self, val: u64)
        ensures
            final(self)@ == (TrieNodeFields { quote_delta: val, ..old(self)@ }),
    {
        proof {
            lemma_put_u64(self.0@, 8, val);
        }
        write_u64(&mut self.0, 8, val);
    }

    /// The decimal digit: low nibble of the value byte.
    pub fn digit(&self) -> (r: u8)
        ensures
            r == self@.value & 0x0F,
    {
        self.0[16] & 0x0F
    }

    /// The depth in the trie: high nibble of the value byte.
    pub fn depth(&self) -> (r: u8)
        ensures
            r == (self@.value & 0xF0) >> 4,
    {
        (self.0[16] & 0xF0) >> 4
    }

    /// Writes digit and depth at once; the caller packs the byte.
    pub fn set_value(&mut self, val: u8)
        ensures
            final(self)@ == (TrieNodeFields { value: val, ..old(self)@ }),
    {
        self.0[16] = val;
    }

    /// Replaces the low nibble with the low nibble of `val`.
    pub fn set_digit(&mut self, val: u8)
        ensures
            final(self)@ == (TrieNodeFields {
                value: (old(self)@.value & 0xF0) | (val & 0x0F),
                ..old(self)@
            }),
    {
        self.0[16] = (self.0[16] & 0xF0) | (val & 0x0F);
    }

    /// Replaces the high nibble with the low nibble of `val`.
    pub fn set_depth(&mut self, val: u8)
        ensures
            final(self)@ == (TrieNodeFields {
                value: (old(self)@.value & 0x0F) | ((val & 0x0F) << 4),
                ..old(self)@
            }),
    {
        self.0[16] = (self.0[16] & 0x0F) | ((val & 0x0F) << 4);
    }

    /// A copy of the embedded TrieLink.
    pub fn trie_link(&self) -> (r: TrieLink)
        ensures
            r@ == self@.link,
    {
        TrieLink([self.0[17], self.0[18], self.0[19], self.0[20], self.0[21], self.0[22], self.0[23]])
    }

    /// Stores `link` as the embedded TrieLink.
    pub fn set_trie_link(&mut self, link: &TrieLink)
        ensures
            final(self)@ == (TrieNodeFields { link: link@, ..old(self)@ }),
    {
        self.0[17] = link.0[0];
        self.0[18] = link.0[1];
        self.0[19] = link.0[2];
        self.0[20] = link.0[3];
        self.0[21] = link.0[4];
        self.0[22] = link.0[5];
        self.0[23] = link.0[6];
    }
}

pub struct TrieLink(pub [u8; 7]);

impl View for TrieLink {
    type V = TrieLinkFields;

    open spec fn view(&self) -> TrieLinkFields {
        link_fields_at(self.0@, 0)
    }
}

/// Whether the pointer-kind bits of `flags` name exactly one kind.
pub open spec fn pointer_kind_valid(flags: u16) -> bool {
    ||| flags & POINTER_KIND_MASK == TRIE_LINK_NODE_PTR_FLAG
    ||| flags & POINTER_KIND_MASK == TRIE_NODE_PTR_FLAG
    ||| flags & POINTER_KIND_MASK == PRICE_NODE_PTR_FLAG
}

impl TrieLink {
    pub fn size(&self) -> (r: u8)
        ensures
            r == self@.size,
    {
        self.0[0]
    }

    pub fn set_size(&mut self, val: u8)
        ensures
            final(self)@ == (TrieLinkFields { size: val, ..old(self)@ }),
    {
        self.0[0] = val;
    }

    pub fn flags(&self) -> (r: u16)
        ensures
            r == self@.flags,
    {
        read_u16(&self.0, 1)
    }

    pub fn set_flags(&mut self, val: u16)
        ensures
            final(self)@ == (TrieLinkFields { flags: val, ..old(self)@ }),
    {
        proof {
            lemma_put_u16(self.0@, 1, val);
        }
        write_u16(&mut self.0, 1, val);
    }

    /// The target, typed by the pointer-kind flag: exactly one kind flag is
    /// set, or none on a link without children, which points to a price
    /// node.
    pub fn pointer(&self) -> (r: Pointer)
        requires
            pointer_kind_valid(self@.flags) || (self@.flags & POINTER_KIND_MASK == 0 && self@.size
                == 0),
        ensures
            r.raw() == self@.pointer,
            r is PriceNode <==> (self@.flags & POINTER_KIND_MASK == PRICE_NODE_PTR_FLAG || (self@.flags
                & POINTER_KIND_MASK == 0 && self@.size == 0)),
            r is TrieLinkNode <==> self@.flags & POINTER_KIND_MASK == TRIE_LINK_NODE_PTR_FLAG,
            r is TrieNode <==> self@.flags & POINTER_KIND_MASK == TRIE_NODE_PTR_FLAG,
    {
        let raw = read_u32(&self.0, 3);
        let kind = self.flags() & POINTER_KIND_MASK;
        if kind == PRICE_NODE_PTR_FLAG || kind == 0 {
            Pointer::PriceNode(PriceNodePointer(raw))
        } else if kind == TRIE_LINK_NODE_PTR_FLAG {
            Pointer::TrieLinkNode(TrieLinkNodePointer(raw))
        } else {
            Pointer::TrieNode(TrieNodePointer(raw))
        }
    }

    /// The pointer field read as a link-node pointer.
    pub fn next_link_ptr(&self) -> (r: TrieLinkNodePointer)
        ensures
            r.0 == self@.pointer,
    {
        TrieLinkNodePointer(read_u32(&self.0, 3))
    }

    pub fn set_pointer(&mut self, val: u32)
        ensures
            final(self)@ == (TrieLinkFields { pointer: val, ..old(self)@ }),
    {
        proof {
            lemma_put_u32(self.0@, 3, val);
        }
        write_u32(&mut self.0, 3, val);
    }

    /// Marks the pointer as leading to a TrieLinkNode.
    pub fn set_as_trie_link_node_ptr(&mut self)
        ensures
            final(self)@ == (TrieLinkFields {
                flags: old(self)@.flags & !(TRIE_NODE_PTR_FLAG | PRICE_NODE_PTR_FLAG)
                    | TRIE_LINK_NODE_PTR_FLAG,
                ..old(self)@
            }),
    {
        let flags = self.flags() & !(TRIE_NODE_PTR_FLAG | PRICE_NODE_PTR_FLAG)
            | TRIE_LINK_NODE_PTR_FLAG;
        self.set_flags(flags)
    }

    /// Marks the pointer as leading to a PriceNode.
    pub fn set_as_price_node_ptr(&mut self)
        ensures
            final(self)@ == (TrieLinkFields {
                flags: old(self)@.flags & !(TRIE_NODE_PTR_FLAG | TRIE_LINK_NODE_PTR_FLAG)
                    | PRICE_NODE_PTR_FLAG,
                ..old(self)@
            }),
    {
        let flags = self.flags() & !(TRIE_NODE_PTR_FLAG | TRIE_LINK_NODE_PTR_FLAG)
            | PRICE_NODE_PTR_FLAG;
        self.set_flags(flags)
    }

    /// Marks the pointer as leading to a TrieNode.
    pub fn set_as_trie_node_ptr(&mut self)
        ensures
            final(self)@ == (TrieLinkFields {
                flags: old(self)@.flags & !(TRIE_LINK_NODE_PTR_FLAG | PRICE_NODE_PTR_FLAG)
                    | TRIE_NODE_PTR_FLAG,
                ..old(self)@
            }),
    {
        let flags = self.flags() & !(TRIE_LINK_NODE_PTR_FLAG | PRICE_NODE_PTR_FLAG)
            | TRIE_NODE_PTR_FLAG;
        self.set_flags(flags)
    }

    /// Whether the bit of `digit` is set in the digit bitmask.
    pub fn has_child_digit(&self, digit: u8) -> (r: bool)
        requires
            digit < 16,
        ensures
            r == (self@.flags & (1u16 << digit) != 0),
    {
        self.flags() & (1u16 << digit) != 0
    }

    pub fn set_child_digit(&mut self, digit: u8)
        requires
            digit < 16,
        ensures
            final(self)@ == (TrieLinkFields { flags: old(self)@.flags | (1u16 << digit), ..old(self)@ }),
    {
        let flags = self.flags() | (1u16 << digit);
        self.set_flags(flags);
    }

    pub fn clear_child_digit(&mut self, digit: u8)
        requires
            digit < 16,
        ensures
            final(self)@ == (TrieLinkFields {
                flags: old(self)@.flags & !(1u16 << digit),
                ..old(self)@
            }),
    {
        let flags = self.flags() & !(1u16 << digit);
        self.set_flags(flags);
    }

    pub fn is_trie_link_node_ptr(&self) -> (r: bool)
        ensures
            r == (self@.flags & TRIE_LINK_NODE_PTR_FLAG != 0),
    {
        self.flags() & TRIE_LINK_NODE_PTR_FLAG != 0
    }

    pub fn is_trie_node_ptr(&self) -> (r: bool)
        ensures
            r == (self@.flags & TRIE_NODE_PTR_FLAG != 0),
    {
        self.flags() & TRIE_NODE_PTR_FLAG != 0
    }

    pub fn is_price_node_prt(&self) -> (r: bool)
        ensures
            r == (self@.flags & PRICE_NODE_PTR_FLAG != 0),
    {
        self.flags() & PRICE_NODE_PTR_FLAG != 0
    }

    pub fn is_active(&self) -> (r: bool)
        ensures
            r == (self@.flags & IS_ACTIVE_FLAG != 0),
    {
        self.flags() & IS_ACTIVE_FLAG != 0
    }

    pub fn set_active(&mut self, active: bool)
        ensures
            final(self)@ == (TrieLinkFields {
                flags: if active {
                    old(self)@.flags | IS_ACTIVE_FLAG
                } else {
                    old(self)@.flags & !IS_ACTIVE_FLAG
                },
                ..old(self)@
            }),
    {
        let flags = if active {
            self.flags() | IS_ACTIVE_FLAG
        } else {
            self.flags() & !IS_ACTIVE_FLAG
        };
        self.set_flags(flags);
    }
}

} // verus!
