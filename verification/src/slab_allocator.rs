//! Slab allocator: a raw byte buffer (one account's data) that stores
//! fixed-size nodes, a 24-byte header at offset 0 and a stack of free-node
//! addresses managed through 16-byte stack nodes at the end of the buffer.
//!
//! Header (offset 0):
//!    0 -  3 : discriminator
//!    4 -  7 : root_node_pointer
//!    8 - 11 : stack_pointer      — byte address of the top of the stack
//!   12 - 15 : allocator_size     — total byte size
//!   16 - 19 : num_node_elements
//!   20 - 23 : flags
//!
//! Flags, one byte each: byte 3 resize interrupt, byte 2 fragmented stack,
//! byte 1 validation, byte 0 still growing.
//!
//! StackNode words (offsets 0, 4, 8, 12), by variant:
//!   TailNode:   FULL_FLAG, next_stack_node_pointer, TYPE_TAIL, FULL_FLAG
//!   LinkedNode: FULL_FLAG, next_stack_node_pointer, tail_stack_entry_pointer, FULL_FLAG
//!   HeadNode:   next_seq_index, stack_entry_cycle_pointer, TYPE_HEAD, stack_pointer_or_flag
//!   DefaultNode: next_seq_index, min_stack_node_pointer, unused, unused
use vstd::prelude::*;
use crate::le::{copy16, le_u32, lemma_put_u32, lemma_put_u32_apart, paste16, put_u32, read_u32, words4, write_u32};
use crate::price_node::PriceNode;
use crate::trie_link_node::TrieLinkNode;
use crate::trie_node::TrieNode;

verus! {

/// Header discriminator of a slab of `TrieLinkNode`s ("TLNK").  The three
/// node discriminators are this crate's own choice (the ASCII of a short
/// name); no other layout fixes them.  Each node type has its own, so that
/// a slab's header names the type it holds.
pub const TRIE_LINK_NODE_DISCRIMINATOR: u32 = 0x544C_4E4B;

/// Header discriminator of a slab of `TrieNode`s ("TRIE").
pub const TRIE_NODE_DISCRIMINATOR: u32 = 0x5452_4945;

/// Header discriminator of a slab of `PriceNode`s ("PRCE").
pub const PRICE_NODE_DISCRIMINATOR: u32 = 0x5052_4345;

/// Initial byte size of a slab account (10 KiB).
pub const INITIAL_ACCOUNT_SIZE: usize = 10240;

pub const NULL_POINTER: u32 = 0x0000_0000;
pub const FULL_FLAG: u32 = 0xFFFF_FFFF;
pub const FLAG_RESIZE_INTERRUPT: u32 = 0xFF00_0000;
pub const FLAG_FRAGMENTED_STACK: u32 = 0x00FF_0000;
pub const FLAG_VALIDATION: u32 = 0x0000_FF00;
pub const FLAG_STILL_GROWING: u32 = 0x0000_00FF;
pub const TYPE_HEAD: u32 = 0x0000_0000;
pub const TYPE_TAIL: u32 = 0xFFFF_FFFF;
pub const SINGLE_STACK_NODE: u32 = 0x0000_0000;

/// The header's decoded fields.
pub struct HeaderFields {
    pub discriminator: u32,
    pub root_node_pointer: u32,
    pub stack_pointer: u32,
    pub allocator_size: u32,
    pub num_node_elements: u32,
    pub flags: u32,
}

/// The header fields stored in the first 24 bytes of `b`.
pub open spec fn header_at(b: Seq<u8>) -> HeaderFields {
    HeaderFields {
        discriminator: le_u32(b, 0),
        root_node_pointer: le_u32(b, 4),
        stack_pointer: le_u32(b, 8),
        allocator_size: le_u32(b, 12),
        num_node_elements: le_u32(b, 16),
        flags: le_u32(b, 20),
    }
}

/// The header of a slab: 24 bytes at offset 0.
pub struct Header(pub [u8; 24]);

impl View for Header {
    type V = HeaderFields;

    open spec fn view(&self) -> HeaderFields {
        header_at(self.0@)
    }
}

/// The first multiple of `node_size` that is at least the header size.
pub open spec fn spec_node_section_start(node_size: int) -> int {
    if 24int % node_size == 0 {
        24
    } else {
        24 + (node_size - 24int % node_size)
    }
}

impl Header {
    pub const SIZE: usize = 24;

    /// A header holding a copy of `bytes`.
    pub fn from_bytes(bytes: &[u8; 24]) -> (r: Header)
        ensures
            r.0@ == bytes@,
    {
        Header(*bytes)
    }

    pub fn discriminator(&self) -> (r: u32)
        ensures
            r == self@.discriminator,
    {
        read_u32(&self.0, 0)
    }

    pub fn root_node_pointer(&self) -> (r: u32)
        ensures
            r == self@.root_node_pointer,
    {
        read_u32(&self.0, 4)
    }

    pub fn stack_pointer(&self) -> (r: u32)
        ensures
            r == self@.stack_pointer,
    {
        read_u32(&self.0, 8)
    }

    pub fn allocator_size(&self) -> (r: u32)
        ensures
            r == self@.allocator_size,
    {
        read_u32(&self.0, 12)
    }

    pub fn num_node_elements(&self) -> (r: u32)
        ensures
            r == self@.num_node_elements,
    {
        read_u32(&self.0, 16)
    }

    pub fn flags(&self) -> (r: u32)
        ensures
            r == self@.flags,
    {
        read_u32(&self.0, 20)
    }

    pub fn set_discriminator(&mut self, val: u32)
        ensures
            final(self)@ == (HeaderFields { discriminator: val, ..old(self)@ }),
            final(self).0@ == put_u32(old(self).0@, 0, val),
    {
        proof {
            lemma_put_u32(self.0@, 0, val);
        }
        write_u32(&mut self.0, 0, val);
    }

    pub fn set_root_node_pointer(&mut self, val: u32)
        ensures
            final(self)@ == (HeaderFields { root_node_pointer: val, ..old(self)@ }),
            final(self).0@ == put_u32(old(self).0@, 4, val),
    {
        proof {
            lemma_put_u32(self.0@, 4, val);
        }
        write_u32(&mut self.0, 4, val);
    }

    pub fn set_stack_pointer(&mut self, val: u32)
        ensures
            final(self)@ == (HeaderFields { stack_pointer: val, ..old(self)@ }),
            final(self).0@ == put_u32(old(self).0@, 8, val),
    {
        proof {
            lemma_put_u32(self.0@, 8, val);
        }
        write_u32(&mut self.0, 8, val);
    }

    pub fn set_allocator_size(&mut self, val: u32)
        ensures
            final(self)@ == (HeaderFields { allocator_size: val, ..old(self)@ }),
            final(self).0@ == put_u32(old(self).0@, 12, val),
    {
        proof {
            lemma_put_u32(self.0@, 12, val);
        }
        write_u32(&mut self.0, 12, val);
    }

    pub fn set_num_node_elements(&mut self, val: u32)
        ensures
            final(self)@ == (HeaderFields { num_node_elements: val, ..old(self)@ }),
            final(self).0@ == put_u32(old(self).0@, 16, val),
    {
        proof {
            lemma_put_u32(self.0@, 16, val);
        }
        write_u32(&mut self.0, 16, val);
    }

    pub fn set_flags(&mut self, val: u32)
        ensures
            final(self)@ == (HeaderFields { flags: val, ..old(self)@ }),
            final(self).0@ == put_u32(old(self).0@, 20, val),
    {
        proof {
            lemma_put_u32(self.0@, 20, val);
        }
        write_u32(&mut self.0, 20, val);
    }

    pub fn is_resize_interrupt(&self) -> (r: bool)
        ensures
            r == (self@.flags & FLAG_RESIZE_INTERRUPT != 0),
    {
        self.flags() & FLAG_RESIZE_INTERRUPT != 0
    }

    pub fn is_fragmented_stack(&self) -> (r: bool)
        ensures
            r == (self@.flags & FLAG_FRAGMENTED_STACK != 0),
    {
        self.flags() & FLAG_FRAGMENTED_STACK != 0
    }

    pub fn is_still_growing(&self) -> (r: bool)
        ensures
            r == (self@.flags & FLAG_STILL_GROWING != 0),
    {
        self.flags() & FLAG_STILL_GROWING != 0
    }

    pub fn set_resize_interrupt(&mut self)
        ensures
            final(self)@ == (HeaderFields { flags: old(self)@.flags | FLAG_RESIZE_INTERRUPT, ..old(self)@ }),
    {
        let f = self.flags();
        self.set_flags(f | FLAG_RESIZE_INTERRUPT);
    }

    pub fn clear_resize_interrupt(&mut self)
        ensures
            final(self)@ == (HeaderFields { flags: old(self)@.flags & !FLAG_RESIZE_INTERRUPT, ..old(self)@ }),
    {
        let f = self.flags();
        self.set_flags(f & !FLAG_RESIZE_INTERRUPT);
    }

    pub fn set_fragmented_stack(&mut self)
        ensures
            final(self)@ == (HeaderFields { flags: old(self)@.flags | FLAG_FRAGMENTED_STACK, ..old(self)@ }),
    {
        let f = self.flags();
        self.set_flags(f | FLAG_FRAGMENTED_STACK);
    }

    pub fn clear_fragmented_stack(&mut self)
        ensures
            final(self)@ == (HeaderFields { flags: old(self)@.flags & !FLAG_FRAGMENTED_STACK, ..old(self)@ }),
            final(self).0@ == put_u32(old(self).0@, 20, old(self)@.flags & !FLAG_FRAGMENTED_STACK),
    {
        let f = self.flags();
        self.set_flags(f & !FLAG_FRAGMENTED_STACK);
    }

    pub fn set_still_growing(&mut self)
        ensures
            final(self)@ == (HeaderFields { flags: old(self)@.flags | FLAG_STILL_GROWING, ..old(self)@ }),
            final(self).0@ == put_u32(old(self).0@, 20, old(self)@.flags | FLAG_STILL_GROWING),
    {
        let f = self.flags();
        self.set_flags(f | FLAG_STILL_GROWING);
    }

    pub fn clear_still_growing(&mut self)
        ensures
            final(self)@ == (HeaderFields { flags: old(self)@.flags & !FLAG_STILL_GROWING, ..old(self)@ }),
    {
        let f = self.flags();
        self.set_flags(f & !FLAG_STILL_GROWING);
    }

    /// The first multiple of `node_size` that is at least `Header::SIZE`:
    /// the offset of the first node.  Between the header and it lie
    /// `node_section_start(n) - 24` unused bytes.
    pub fn node_section_start(node_size: usize) -> (r: usize)
        requires
            0 < node_size,
        ensures
            r == spec_node_section_start(node_size as int),
            r % node_size == 0,
            24 <= r < 24 + node_size,
    {
        let rem = 24 % node_size;
        proof {
            if node_size > 24 {
                vstd::arithmetic::div_mod::lemma_small_mod(24, node_size as nat);
            }
        }
        let r = if rem == 0 {
            24
        } else {
            24 + (node_size - rem)
        };
        proof {
            let n = node_size as int;
            let q = 24int / n;
            let m = 24int % n;
            vstd::arithmetic::div_mod::lemma_fundamental_div_mod(24, n);
            vstd::arithmetic::div_mod::lemma_mod_multiples_basic(q + 1, n);
            vstd::arithmetic::div_mod::lemma_mod_bound(24, n);
            assert(24 + (n - m) == (q + 1) * n) by (nonlinear_arith)
                requires
                    24 == n * q + m,
            ;
            if m == 0 {
                vstd::arithmetic::div_mod::lemma_mod_multiples_basic(q, n);
                assert(24 == q * n) by (nonlinear_arith)
                    requires
                        24 == n * q + m,
                        m == 0,
                ;
            }
        }
        r
    }
}

/// A 16-byte stack node; its view is its four words.
pub struct StackNode(pub [u8; 16]);

impl View for StackNode {
    type V = Seq<u32>;

    open spec fn view(&self) -> Seq<u32> {
        words4(self.0@, 0)
    }
}

impl StackNode {
    pub const SIZE: usize = 16;

    /// A stack node holding a copy of `bytes`.
    pub fn from_bytes(bytes: &[u8; 16]) -> (r: StackNode)
        ensures
            r.0@ == bytes@,
    {
        StackNode(*bytes)
    }

    /// A copy of the stack node at byte address `addr` of `data`.
    pub fn at(data: &[u8], addr: u32) -> (r: StackNode)
        requires
            addr + 16 <= data@.len(),
        ensures
            r.0@ == data@.subrange(addr as int, addr + 16),
            r@ == words4(data@, addr as int),
    {
        StackNode(copy16(data, addr as usize))
    }

    /// The word at byte `offset` (0, 4, 8 or 12).
    fn read_u32(&self, offset: usize) -> (r: u32)
        requires
            offset % 4 == 0,
            offset <= 12,
        ensures
            r == self@[offset as int / 4],
    {
        read_u32(&self.0, offset)
    }

    /// Stores `val` as the word at byte `offset` (0, 4, 8 or 12).
    fn write_u32(&mut self, offset: usize, val: u32)
        requires
            offset % 4 == 0,
            offset <= 12,
        ensures
            final(self)@ == old(self)@.update(offset as int / 4, val),
            final(self).0@ == put_u32(old(self).0@, offset as int, val),
    {
        proof {
            lemma_put_u32(self.0@, offset as int, val);
        }
        write_u32(&mut self.0, offset, val);
        assert(self@ =~= old(self)@.update(offset as int / 4, val));
    }

    /// The type flag (word 2).
    pub fn stack_node_type_flag(&self) -> (r: u32)
        ensures
            r == self@[2],
    {
        self.read_u32(8)
    }

    pub fn is_head_node(&self) -> (r: bool)
        ensures
            r == (self@[2] == TYPE_HEAD),
    {
        self.stack_node_type_flag() == TYPE_HEAD
    }

    pub fn is_tail_node(&self) -> (r: bool)
        ensures
            r == (self@[2] == TYPE_TAIL && self@[3] == FULL_FLAG),
    {
        self.stack_node_type_flag() == TYPE_TAIL && self.read_u32(12) == FULL_FLAG
    }

    /// A linked node: its word 2 holds a stack-entry address (neither the
    /// head nor the tail type value) and word 3 is the bottom sentinel.
    pub fn is_linked_node(&self) -> (r: bool)
        ensures
            r == (self@[2] != TYPE_HEAD && self@[2] != TYPE_TAIL && self@[3] == FULL_FLAG),
    {
        let t = self.stack_node_type_flag();
        t != TYPE_HEAD && t != TYPE_TAIL && self.read_u32(12) == FULL_FLAG
    }

    /// Word 0: the top boundary sentinel of tail and linked nodes.
    pub fn top_boundary_flag(&self) -> (r: u32)
        ensures
            r == self@[0],
    {
        self.read_u32(0)
    }

    /// Word 1: the next stack node of tail and linked nodes.
    pub fn next_stack_node_pointer(&self) -> (r: u32)
        ensures
            r == self@[1],
    {
        self.read_u32(4)
    }

    pub fn set_next_stack_node_pointer(&mut self, val: u32)
        ensures
            final(self)@ == old(self)@.update(1, val),
    {
        self.write_u32(4, val);
    }

    pub fn set_stack_node_type_flag(&mut self, val: u32)
        ensures
            final(self)@ == old(self)@.update(2, val),
    {
        self.write_u32(8, val);
    }

    /// Word 3: the bottom boundary sentinel of tail nodes.
    pub fn bottom_boundary_flag(&self) -> (r: u32)
        ensures
            r == self@[3],
    {
        self.read_u32(12)
    }

    /// Word 2 of a linked node: the last stack entry of its section.
    pub fn tail_stack_entry_pointer(&self) -> (r: u32)
        ensures
            r == self@[2],
    {
        self.read_u32(8)
    }

    pub fn set_tail_stack_entry_pointer(&mut self, val: u32)
        ensures
            final(self)@ == old(self)@.update(2, val),
    {
        self.write_u32(8, val);
    }

    /// Word 0 of a head or default node: the next sequential write slot.
    pub fn next_seq_index(&self) -> (r: u32)
        ensures
            r == self@[0],
    {
        self.read_u32(0)
    }

    pub fn set_next_seq_index(&mut self, val: u32)
        ensures
            final(self)@ == old(self)@.update(0, val),
            final(self).0@ == put_u32(old(self).0@, 0, val),
    {
        self.write_u32(0, val);
    }

    /// Word 1 of a head node: the slot that the stack-entry cycle visits next.
    pub fn stack_entry_cycle_pointer(&self) -> (r: u32)
        ensures
            r == self@[1],
    {
        self.read_u32(4)
    }

    pub fn set_stack_entry_cycle_pointer(&mut self, val: u32)
        ensures
            final(self)@ == old(self)@.update(1, val),
    {
        self.write_u32(4, val);
    }

    /// Word 3 of a head node: the insert-side stack pointer while growing,
    /// the single-stack-node flag afterwards.
    pub fn stack_pointer_or_flag(&self) -> (r: u32)
        ensures
            r == self@[3],
    {
        self.read_u32(12)
    }

    pub fn set_stack_pointer_or_flag(&mut self, val: u32)
        ensures
            final(self)@ == old(self)@.update(3, val),
    {
        self.write_u32(12, val);
    }

    /// Word 1 of a default node: the minimum free-node address tracker.
    pub fn min_stack_node_pointer(&self) -> (r: u32)
        ensures
            r == self@[1],
    {
        self.read_u32(4)
    }

    pub fn set_min_stack_node_pointer(&mut self, val: u32)
        ensures
            final(self)@ == old(self)@.update(1, val),
    {
        self.write_u32(4, val);
    }

    /// Turns this node into a tail node: type flag and both sentinels; the
    /// next-node pointer is left as it is.
    pub fn become_tail_node(&mut self)
        ensures
            final(self)@ == seq![FULL_FLAG, old(self)@[1], TYPE_TAIL, FULL_FLAG],
    {
        self.write_u32(0, FULL_FLAG);
        self.write_u32(8, TYPE_TAIL);
        self.write_u32(12, FULL_FLAG);
        assert(self@ =~= seq![FULL_FLAG, old(self)@[1], TYPE_TAIL, FULL_FLAG]);
    }

    /// Turns this node into a linked node: both sentinels; the next-node
    /// and tail-entry pointers are left as they are.
    pub fn become_linked_node(&mut self)
        ensures
            final(self)@ == seq![FULL_FLAG, old(self)@[1], old(self)@[2], FULL_FLAG],
    {
        self.write_u32(0, FULL_FLAG);
        self.write_u32(12, FULL_FLAG);
        assert(self@ =~= seq![FULL_FLAG, old(self)@[1], old(self)@[2], FULL_FLAG]);
    }

    /// Clears the sentinels and type flag when a tail node is consumed.
    pub fn clear_node_flags(&mut self)
        ensures
            final(self)@ == seq![NULL_POINTER, old(self)@[1], NULL_POINTER, NULL_POINTER],
    {
        self.write_u32(0, NULL_POINTER);
        self.write_u32(8, NULL_POINTER);
        self.write_u32(12, NULL_POINTER);
        assert(self@ =~= seq![NULL_POINTER, old(self)@[1], NULL_POINTER, NULL_POINTER]);
    }
}

/// A fixed-size node type stored in a slab.
pub trait SlabNode: Sized {
    /// Byte size of one node.
    spec fn spec_size() -> nat;

    /// Account type tag written into the header of a slab of this node type.
    spec fn spec_discriminator() -> u32;

    /// The node's bytes.
    spec fn spec_bytes(&self) -> Seq<u8>;

    fn size() -> (r: usize)
        ensures
            r == Self::spec_size(),
    ;

    fn discriminator() -> (r: u32)
        ensures
            r == Self::spec_discriminator(),
    ;

    /// A copy of the node stored at byte address `addr` of `data`.
    fn from_bytes(data: &[u8], addr: u32) -> (r: Self)
        requires
            addr + Self::spec_size() <= data@.len(),
        ensures
            r.spec_bytes() == data@.subrange(addr as int, addr + Self::spec_size()),
    ;
}

impl SlabNode for TrieLinkNode {
    open spec fn spec_size() -> nat {
        16
    }

    open spec fn spec_discriminator() -> u32 {
        TRIE_LINK_NODE_DISCRIMINATOR
    }

    open spec fn spec_bytes(&self) -> Seq<u8> {
        self.0@
    }

    fn size() -> (r: usize) {
        16
    }

    fn discriminator() -> (r: u32) {
        TRIE_LINK_NODE_DISCRIMINATOR
    }

    fn from_bytes(data: &[u8], addr: u32) -> (r: Self) {
        TrieLinkNode(copy16(data, addr as usize))
    }
}

impl SlabNode for TrieNode {
    open spec fn spec_size() -> nat {
        24
    }

    open spec fn spec_discriminator() -> u32 {
        TRIE_NODE_DISCRIMINATOR
    }

    open spec fn spec_bytes(&self) -> Seq<u8> {
        self.0@
    }

    fn size() -> (r: usize) {
        24
    }

    fn discriminator() -> (r: u32) {
        TRIE_NODE_DISCRIMINATOR
    }

    fn from_bytes(data: &[u8], addr: u32) -> (r: Self) {
        let a = addr as usize;
        let r = TrieNode([
            data[a], data[a + 1], data[a + 2], data[a + 3], data[a + 4], data[a + 5], data[a + 6],
            data[a + 7], data[a + 8], data[a + 9], data[a + 10], data[a + 11], data[a + 12],
            data[a + 13], data[a + 14], data[a + 15], data[a + 16], data[a + 17], data[a + 18],
            data[a + 19], data[a + 20], data[a + 21], data[a + 22], data[a + 23],
        ]);
        assert(r.0@ =~= data@.subrange(a as int, a + 24));
        r
    }
}

impl SlabNode for PriceNode {
    open spec fn spec_size() -> nat {
        32
    }

    open spec fn spec_discriminator() -> u32 {
        PRICE_NODE_DISCRIMINATOR
    }

    open spec fn spec_bytes(&self) -> Seq<u8> {
        self.0@
    }

    fn size() -> (r: usize) {
        32
    }

    fn discriminator() -> (r: u32) {
        PRICE_NODE_DISCRIMINATOR
    }

    fn from_bytes(data: &[u8], addr: u32) -> (r: Self) {
        let a = addr as usize;
        let r = PriceNode([
            data[a], data[a + 1], data[a + 2], data[a + 3], data[a + 4], data[a + 5], data[a + 6],
            data[a + 7], data[a + 8], data[a + 9], data[a + 10], data[a + 11], data[a + 12],
            data[a + 13], data[a + 14], data[a + 15], data[a + 16], data[a + 17], data[a + 18],
            data[a + 19], data[a + 20], data[a + 21], data[a + 22], data[a + 23], data[a + 24],
            data[a + 25], data[a + 26], data[a + 27], data[a + 28], data[a + 29], data[a + 30],
            data[a + 31],
        ]);
        assert(r.0@ =~= data@.subrange(a as int, a + 32));
        r
    }
}

/// The byte address of the head stack node: the last 16 bytes of the
/// allocated size.
pub open spec fn head_node_addr(d: Seq<u8>) -> int {
    header_at(d).allocator_size - 16
}

/// The stack pointer after one insert has taken the slot that
/// `next_insert_pointer` named: the inputs on which the step is defined.
pub open spec fn stack_advance_defined(d: Seq<u8>, size: int) -> bool {
    let h = header_at(d);
    let sp = h.stack_pointer as int;
    let head = head_node_addr(d);
    &&& 24 <= d.len() <= u32::MAX
    &&& 16 <= h.allocator_size <= d.len()
    &&& sp == head ==> le_u32(d, head) + size <= u32::MAX
    &&& sp != head ==> {
        let a = sp + 4;
        &&& a <= u32::MAX
        &&& h.flags & FLAG_FRAGMENTED_STACK != 0 ==> {
            &&& a + 4 <= d.len()
            &&& le_u32(d, a) == FULL_FLAG ==> {
                let node = a - 16;
                let next = le_u32(d, node + 4) as int;
                &&& 0 <= node
                &&& node + 16 <= d.len()
                &&& next + 16 <= d.len()
            }
        }
    }
}

/// The bytes after the step: a head-node insert advances `next_seq_index`
/// by one node; otherwise the stack pointer moves down one entry, except
/// that at the boundary of a fragmented stack it jumps to the next stack
/// node (a linked node becomes a tail node), and when that next node is the
/// head node the stack collapses back into the head node and the
/// fragmented flag is cleared.
pub open spec fn stack_advanced(d: Seq<u8>, size: int) -> Seq<u8> {
    let h = header_at(d);
    let sp = h.stack_pointer as int;
    let head = head_node_addr(d);
    if sp == head {
        put_u32(d, head, (le_u32(d, head) + size) as u32)
    } else {
        let a = sp + 4;
        if h.flags & FLAG_FRAGMENTED_STACK == 0 || le_u32(d, a) != FULL_FLAG {
            put_u32(d, 8, a as u32)
        } else {
            let node = a - 16;
            let next = le_u32(d, node + 4) as int;
            let next_type = le_u32(d, next + 8);
            if next_type != TYPE_HEAD {
                put_u32(put_u32(d, next + 8, TYPE_TAIL), 8, next_type)
            } else {
                let head_insert_sp = le_u32(d, next + 12);
                let d1 = put_u32(put_u32(d, head + 4, head_insert_sp), head + 12, SINGLE_STACK_NODE);
                let d2 = put_u32(d1, 8, head_insert_sp);
                put_u32(d2, 20, le_u32(d2, 20) & !FLAG_FRAGMENTED_STACK)
            }
        }
    }
}

/// The bytes after laying out a fresh slab of nodes of `size` bytes:
/// discriminator, allocated size, stack pointer at the head node (the last
/// 16 of the first `INITIAL_ACCOUNT_SIZE` bytes), the still-growing flag,
/// and the head node's next sequential slot at the first node (the
/// truncation of `spec_node_section_start(size)` to 32 bits).
pub open spec fn slab_initialized(d: Seq<u8>, size: int, disc: u32) -> Seq<u8> {
    put_u32(
        put_u32(
            put_u32(
                put_u32(put_u32(d, 0, disc), 12, INITIAL_ACCOUNT_SIZE as u32),
                8,
                (INITIAL_ACCOUNT_SIZE - 16) as u32,
            ),
            20,
            header_at(d).flags | FLAG_STILL_GROWING,
        ),
        (INITIAL_ACCOUNT_SIZE - 16) as int,
        spec_node_section_start(size) as u32,
    )
}

/// A slab: the data of one account.
pub struct SlabAllocator {
    pub data: Vec<u8>,
}

impl View for SlabAllocator {
    type V = Seq<u8>;

    open spec fn view(&self) -> Seq<u8> {
        self.data@
    }
}

impl SlabAllocator {
    /// A slab over the given account data.
    pub fn from_account_data(data: Vec<u8>) -> (r: Self)
        ensures
            r@ == data@,
    {
        SlabAllocator { data }
    }

    /// The account data.
    pub fn data(&self) -> (r: &[u8])
        ensures
            r@ == self@,
    {
        self.data.as_slice()
    }

    /// The account data, for writing.
    pub fn data_mut(&mut self) -> (r: &mut [u8])
        ensures
            r@ == old(self)@,
            final(r)@ == final(self)@,
    {
        self.data.as_mut_slice()
    }

    /// Gives the account data back.
    pub fn into_data(self) -> (r: Vec<u8>)
        ensures
            r@ == self@,
    {
        self.data
    }

    /// The allocated size recorded in the header.
    fn alloc_size(&self) -> (r: usize)
        requires
            24 <= self@.len(),
        ensures
            r == header_at(self@).allocator_size,
    {
        read_u32(self.data.as_slice(), 12) as usize
    }

    /// A copy of the header.
    fn header(&self) -> (r: Header)
        requires
            24 <= self@.len(),
        ensures
            r@ == header_at(self@),
    {
        let d = self.data.as_slice();
        Header([
            d[0], d[1], d[2], d[3], d[4], d[5], d[6], d[7], d[8], d[9], d[10], d[11], d[12], d[13],
            d[14], d[15], d[16], d[17], d[18], d[19], d[20], d[21], d[22], d[23],
        ])
    }

    /// A copy of the head stack node (the last 16 allocated bytes).
    fn head_node(&self) -> (r: StackNode)
        requires
            24 <= self@.len(),
            16 <= header_at(self@).allocator_size <= self@.len(),
        ensures
            r@ == words4(self@, head_node_addr(self@)),
    {
        let addr = self.alloc_size() - StackNode::SIZE;
        StackNode::at(self.data.as_slice(), addr as u32)
    }

    /// The word at byte address `addr`.
    fn read_addr(&self, addr: u32) -> (r: u32)
        requires
            addr + 4 <= self@.len(),
        ensures
            r == le_u32(self@, addr as int),
    {
        read_u32(self.data.as_slice(), addr as usize)
    }

    /// Stores `val` as the word at byte address `addr`.
    fn write_addr(&mut self, addr: u32, val: u32)
        requires
            addr + 4 <= old(self)@.len(),
        ensures
            final(self)@ == put_u32(old(self)@, addr as int, val),
            final(self)@.len() == old(self)@.len(),
    {
        proof {
            lemma_put_u32(self@, addr as int, val);
        }
        write_u32(self.data.as_mut_slice(), addr as usize, val);
    }

    /// Lays out a fresh slab of node type `N` in the first
    /// `INITIAL_ACCOUNT_SIZE` bytes: discriminator, allocated size, stack
    /// pointer at the head node (the last 16 bytes), the still-growing
    /// flag, and the head node's next sequential slot at the first node.
    #[verifier::rlimit(50)]
    pub fn initialize<N: SlabNode>(&mut self)
        requires
            INITIAL_ACCOUNT_SIZE <= old(self)@.len(),
            0 < N::spec_size(),
        ensures
            final(self)@ == slab_initialized(old(self)@, N::spec_size() as int, N::spec_discriminator()),
    {
        let flags = self.header().flags();
        self.write_addr(0, N::discriminator());
        self.write_addr(12, INITIAL_ACCOUNT_SIZE as u32);
        let first_node = Header::node_section_start(N::size()) as u32;
        let stack_top = (INITIAL_ACCOUNT_SIZE - StackNode::SIZE) as u32;
        self.write_addr(8, stack_top);
        self.write_addr(20, flags | FLAG_STILL_GROWING);
        self.write_addr(stack_top, first_node);
    }

    /// The address of the slot that the next insert fills: the word at the
    /// stack pointer.
    pub fn next_insert_pointer(&mut self) -> (r: u32)
        requires
            24 <= old(self)@.len(),
            header_at(old(self)@).stack_pointer + 4 <= old(self)@.len(),
        ensures
            r == le_u32(old(self)@, header_at(old(self)@).stack_pointer as int),
            final(self)@ == old(self)@,
    {
        let addr = self.header().stack_pointer();
        self.read_addr(addr)
    }

    /// Consumes the slot named by `next_insert_pointer` (see `stack_advanced`).
    #[verifier::rlimit(50)]
    pub fn set_next_stack_pointer<N: SlabNode>(&mut self)
        requires
            stack_advance_defined(old(self)@, N::spec_size() as int),
        ensures
            final(self)@ == stack_advanced(old(self)@, N::spec_size() as int),
    {
        let addr = self.header().stack_pointer();
        let head_node_addr = (self.alloc_size() - StackNode::SIZE) as u32;

        if addr == head_node_addr {
            let next_seq = self.head_node().next_seq_index();
            self.write_addr(head_node_addr, next_seq + N::size() as u32);
            return;
        }
        let addr = addr + 4;

        if !self.header().is_fragmented_stack() {
            self.write_addr(8, addr);
            return;
        }
        let next_dest = self.read_addr(addr);

        if next_dest != FULL_FLAG {
            self.write_addr(8, addr);
            return;
        }
        self.cross_stack_node(addr, head_node_addr);
    }

    /// The fragmented-stack boundary step of `set_next_stack_pointer`: the
    /// entry at `addr` is the sentinel that ends a stack node's section, so
    /// the stack pointer moves on to the next stack node.
    fn cross_stack_node(&mut self, addr: u32, head: u32)
        requires
            24 <= old(self)@.len() <= u32::MAX,
            head == head_node_addr(old(self)@),
            16 <= header_at(old(self)@).allocator_size <= old(self)@.len(),
            16 <= addr,
            addr + 4 <= old(self)@.len(),
            ({
                let next = le_u32(old(self)@, addr - 16 + 4) as int;
                next + 16 <= old(self)@.len()
            }),
        ensures
            final(self)@ == ({
                let d = old(self)@;
                let next = le_u32(d, addr - 16 + 4) as int;
                let next_type = le_u32(d, next + 8);
                if next_type != TYPE_HEAD {
                    put_u32(put_u32(d, next + 8, TYPE_TAIL), 8, next_type)
                } else {
                    let head_insert_sp = le_u32(d, next + 12);
                    let d1 = put_u32(put_u32(d, head + 4, head_insert_sp), head + 12, SINGLE_STACK_NODE);
                    let d2 = put_u32(d1, 8, head_insert_sp);
                    put_u32(d2, 20, le_u32(d2, 20) & !FLAG_FRAGMENTED_STACK)
                }
            }),
    {
        let node_addr = addr - StackNode::SIZE as u32;
        let next_node_ptr = StackNode::at(self.data.as_slice(), node_addr).next_stack_node_pointer();
        let next_node = StackNode::at(self.data.as_slice(), next_node_ptr);
        let next_type = next_node.stack_node_type_flag();

        if next_type != TYPE_HEAD {
            let linked_insert_sp = next_node.read_u32(8);
            self.write_addr(next_node_ptr + 8, TYPE_TAIL);
            self.write_addr(8, linked_insert_sp);
            return;
        }
        // The next node is the head node: the stack collapses back into it,
        // restoring the insert-side stack pointer saved at its word 3.

        let head_insert_sp = next_node.stack_pointer_or_flag();
        self.write_addr(head + 4, head_insert_sp);
        self.write_addr(head + 12, SINGLE_STACK_NODE);
        self.write_addr(8, head_insert_sp);
        let flags = self.header().flags();
        self.write_addr(20, flags & !FLAG_FRAGMENTED_STACK);
    }

    /// A copy of the link node stored at byte address `addr`.
    pub fn get_node(&self, addr: u32) -> (r: TrieLinkNode)
        requires
            addr + 16 <= self@.len(),
        ensures
            r@ == words4(self@, addr as int),
    {
        TrieLinkNode(copy16(self.data.as_slice(), addr as usize))
    }

    /// Stores `node` at byte address `addr`.
    pub fn set_node(&mut self, addr: u32, node: &TrieLinkNode)
        requires
            addr + 16 <= old(self)@.len(),
        ensures
            final(self)@.len() == old(self)@.len(),
            words4(final(self)@, addr as int) == node@,
            forall|i: int|
                0 <= i < old(self)@.len() && !(addr <= i < addr + 16) ==> final(self)@[i] == old(
                    self,
                )@[i],
    {
        paste16(self.data.as_mut_slice(), addr as usize, &node.0);
    }

    /// Deletion entry point; it performs no work.
    pub fn delete() {
    }

    /// Stack-growth entry point; it performs no work.
    pub fn increment_stack() {
    }
}


/// In the sequential state (the stack pointer on the head node), an insert
/// leaves the header as it is and moves the next sequential slot on by one
/// node, so that successive inserts are handed successive, distinct slots.
pub proof fn law_sequential_insert(d: Seq<u8>, size: int)
    requires
        0 < size,
        stack_advance_defined(d, size),
        header_at(d).stack_pointer == head_node_addr(d),
        40 <= header_at(d).allocator_size,
    ensures
        stack_advanced(d, size).len() == d.len(),
        header_at(stack_advanced(d, size)) == header_at(d),
        le_u32(stack_advanced(d, size), header_at(d).stack_pointer as int) == le_u32(
            d,
            header_at(d).stack_pointer as int,
        ) + size,
{
    let head = head_node_addr(d);
    let v = (le_u32(d, head) + size) as u32;
    lemma_put_u32(d, head, v);
    let e = put_u32(d, head, v);
    assert(forall|i: int| 0 <= i < 24 ==> e[i] == d[i]);
    assert(header_at(e) == header_at(d));
}

/// A laid-out slab, field by field: its discriminator, allocated size
/// `INITIAL_ACCOUNT_SIZE`, stack pointer on the head node, the
/// still-growing flag added to the flags, and the head node's next
/// sequential slot at `node_section_start(size)` (as a 32-bit word), so
/// that its first insert gets the first node slot after the header; every
/// other byte is as it was.
pub proof fn law_initialize_first_slot(d: Seq<u8>, size: int, disc: u32)
    requires
        INITIAL_ACCOUNT_SIZE <= d.len(),
        0 < size,
    ensures
        slab_initialized(d, size, disc).len() == d.len(),
        header_at(slab_initialized(d, size, disc)).discriminator == disc,
        header_at(slab_initialized(d, size, disc)).stack_pointer == INITIAL_ACCOUNT_SIZE - 16,
        header_at(slab_initialized(d, size, disc)).allocator_size == INITIAL_ACCOUNT_SIZE,
        header_at(slab_initialized(d, size, disc)).flags == header_at(d).flags | FLAG_STILL_GROWING,
        le_u32(slab_initialized(d, size, disc), INITIAL_ACCOUNT_SIZE - 16)
            == spec_node_section_start(size) as u32,
        forall|i: int|
            0 <= i < d.len() && !(0 <= i < 4) && !(8 <= i < 16) && !(20 <= i < 24) && !(
            INITIAL_ACCOUNT_SIZE - 16 <= i < INITIAL_ACCOUNT_SIZE - 12) ==> #[trigger] slab_initialized(
                d,
                size,
                disc,
            )[i] == d[i],
{
    let head = (INITIAL_ACCOUNT_SIZE - 16) as int;
    let d1 = put_u32(d, 0, disc);
    let d2 = put_u32(d1, 12, INITIAL_ACCOUNT_SIZE as u32);
    let d3 = put_u32(d2, 8, (INITIAL_ACCOUNT_SIZE - 16) as u32);
    let d4 = put_u32(d3, 20, header_at(d).flags | FLAG_STILL_GROWING);
    let v = spec_node_section_start(size) as u32;
    lemma_put_u32(d, 0, disc);
    lemma_put_u32(d1, 12, INITIAL_ACCOUNT_SIZE as u32);
    lemma_put_u32(d2, 8, (INITIAL_ACCOUNT_SIZE - 16) as u32);
    lemma_put_u32(d3, 20, header_at(d).flags | FLAG_STILL_GROWING);
    lemma_put_u32(d4, head, v);
    lemma_put_u32_apart(d2, 8, (INITIAL_ACCOUNT_SIZE - 16) as u32, 12);
    lemma_put_u32_apart(d3, 20, header_at(d).flags | FLAG_STILL_GROWING, 12);
    lemma_put_u32_apart(d3, 20, header_at(d).flags | FLAG_STILL_GROWING, 8);
    lemma_put_u32_apart(d4, head, v, 12);
    lemma_put_u32_apart(d4, head, v, 8);
    lemma_put_u32_apart(d1, 12, INITIAL_ACCOUNT_SIZE as u32, 0);
    lemma_put_u32_apart(d2, 8, (INITIAL_ACCOUNT_SIZE - 16) as u32, 0);
    lemma_put_u32_apart(d3, 20, header_at(d).flags | FLAG_STILL_GROWING, 0);
    lemma_put_u32_apart(d4, head, v, 0);
    lemma_put_u32_apart(d4, head, v, 20);
}

/// Off the head node, and away from a fragmented stack's boundary, an
/// insert moves the stack pointer down one entry (4 bytes) and changes no
/// other byte.
pub proof fn law_stack_moves_down(d: Seq<u8>, size: int)
    requires
        stack_advance_defined(d, size),
        header_at(d).stack_pointer != head_node_addr(d),
        header_at(d).flags & FLAG_FRAGMENTED_STACK == 0 || le_u32(d, header_at(d).stack_pointer + 4)
            != FULL_FLAG,
    ensures
        stack_advanced(d, size).len() == d.len(),
        header_at(stack_advanced(d, size)) == (HeaderFields {
            stack_pointer: (header_at(d).stack_pointer + 4) as u32,
            ..header_at(d)
        }),
        forall|i: int| 0 <= i < d.len() && !(8 <= i < 12) ==> #[trigger] stack_advanced(d, size)[i] == d[i],
{
    let sp = header_at(d).stack_pointer as int;
    lemma_put_u32(d, 8, (sp + 4) as u32);
    lemma_put_u32_apart(d, 8, (sp + 4) as u32, 0);
    lemma_put_u32_apart(d, 8, (sp + 4) as u32, 4);
    lemma_put_u32_apart(d, 8, (sp + 4) as u32, 12);
    lemma_put_u32_apart(d, 8, (sp + 4) as u32, 16);
    lemma_put_u32_apart(d, 8, (sp + 4) as u32, 20);
}

} // verus!
