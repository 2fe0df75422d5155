//! Typed 32-bit addresses into the slabs that hold the price trie.
//!
//! A pointer is a raw byte address in its slab.  The upper byte of a
//! `TrieLinkNodePointer` is free for type flags, since no slab grows beyond
//! 10 MiB (`0x00A0_0000`), so every address fits in the lower three bytes.
use vstd::prelude::*;

verus! {

/// Mask of the address part of a pointer (the lower three bytes).
pub const ADDRESS_MASK: u32 = 0x00FF_FFFF;

/// Flag of a `TrieLinkNodePointer` that leads to another `TrieLinkNode`.
pub const TRIE_LINK_NODE_FLAG: u32 = 0x0100_0000;

/// Flag of a `TrieLinkNodePointer` that leads to a `TrieNode` (the last
/// child of a chain).
pub const TRIE_NODE_FLAG: u32 = 0x0200_0000;

/// Flag of a `TrieLinkNodePointer` that leads to the next link node of a
/// chain that continues past it.  This crate gives it bit 26, the next free
/// bit above the node flags; no other layout fixes its value.
pub const NEXT_TRIE_LINK_NODE_FLAG: u32 = 0x0400_0000;

/// A raw byte address into the TrieNode slab; 0 means "no child".
pub struct TrieNodePointer(pub u32);

impl From<u32> for TrieNodePointer {
    fn from(val: u32) -> (r: Self)
        ensures
            r.0 == val,
    {
        TrieNodePointer(val)
    }
}

impl vstd::std_specs::convert::FromSpecImpl<u32> for TrieNodePointer {
    open spec fn obeys_from_spec() -> bool {
        true
    }

    open spec fn from_spec(v: u32) -> Self {
        TrieNodePointer(v)
    }
}

impl TrieNodePointer {
    /// The address part: the lower three bytes.
    pub fn address(&self) -> (r: u32)
        ensures
            r == self.0 & ADDRESS_MASK,
    {
        self.0 & ADDRESS_MASK
    }

    pub fn is_null(&self) -> (r: bool)
        ensures
            r == (self.0 == 0),
    {
        self.0 == 0
    }
}

/// A pointer into the TrieLinkNode slab whose upper byte tells what it
/// leads to: `TRIE_LINK_NODE_FLAG` for another link node, `TRIE_NODE_FLAG`
/// for a child TrieNode.
pub struct TrieLinkNodePointer(pub u32);

impl From<u32> for TrieLinkNodePointer {
    fn from(val: u32) -> (r: Self)
        ensures
            r.0 == val,
    {
        TrieLinkNodePointer(val)
    }
}

impl vstd::std_specs::convert::FromSpecImpl<u32> for TrieLinkNodePointer {
    open spec fn obeys_from_spec() -> bool {
        true
    }

    open spec fn from_spec(v: u32) -> Self {
        TrieLinkNodePointer(v)
    }
}

impl TrieLinkNodePointer {
    /// The address part: the lower three bytes, flags removed.
    pub fn address(&self) -> (r: u32)
        ensures
            r == self.0 & ADDRESS_MASK,
    {
        self.0 & ADDRESS_MASK
    }

    pub fn is_null(&self) -> (r: bool)
        ensures
            r == (self.0 == 0),
    {
        self.0 == 0
    }

    /// Whether the pointer leads to another link node.
    pub fn is_trie_link_node(&self) -> (r: bool)
        ensures
            r == (self.0 & TRIE_LINK_NODE_FLAG != 0),
    {
        self.0 & TRIE_LINK_NODE_FLAG != 0
    }

    /// Whether the pointer leads to a link node, either flag form.
    pub fn is_next_trie_link_node(&self) -> (r: bool)
        ensures
            r == (self.0 & (TRIE_LINK_NODE_FLAG | NEXT_TRIE_LINK_NODE_FLAG) != 0),
    {
        self.0 & (TRIE_LINK_NODE_FLAG | NEXT_TRIE_LINK_NODE_FLAG) != 0
    }

    /// Whether the pointer leads to a TrieNode.
    pub fn is_trie_node(&self) -> (r: bool)
        ensures
            r == (self.0 & TRIE_NODE_FLAG != 0),
    {
        self.0 & TRIE_NODE_FLAG != 0
    }

    /// The pointer to the link node at `address`.
    pub fn set_link(address: u32) -> (r: Self)
        ensures
            r.0 == address | TRIE_LINK_NODE_FLAG,
    {
        TrieLinkNodePointer(address | TRIE_LINK_NODE_FLAG)
    }

    /// The pointer to the link node at `address`, marked as continuing.
    pub fn set_next_link(address: u32) -> (r: Self)
        ensures
            r.0 == address | TRIE_LINK_NODE_FLAG | NEXT_TRIE_LINK_NODE_FLAG,
    {
        TrieLinkNodePointer(address | TRIE_LINK_NODE_FLAG | NEXT_TRIE_LINK_NODE_FLAG)
    }

    /// The pointer to the link node at `address` (same encoding as `set_link`).
    pub fn from_link(address: u32) -> (r: Self)
        ensures
            r.0 == address | TRIE_LINK_NODE_FLAG,
    {
        TrieLinkNodePointer(address | TRIE_LINK_NODE_FLAG)
    }

    /// The pointer to the TrieNode at `address`.
    pub fn from_node(address: u32) -> (r: Self)
        ensures
            r.0 == address | TRIE_NODE_FLAG,
    {
        TrieLinkNodePointer(address | TRIE_NODE_FLAG)
    }
}

/// A raw byte address into the PriceNode slab; 0 means "no price node".
pub struct PriceNodePointer(pub u32);

impl From<u32> for PriceNodePointer {
    fn from(val: u32) -> (r: Self)
        ensures
            r.0 == val,
    {
        PriceNodePointer(val)
    }
}

impl vstd::std_specs::convert::FromSpecImpl<u32> for PriceNodePointer {
    open spec fn obeys_from_spec() -> bool {
        true
    }

    open spec fn from_spec(v: u32) -> Self {
        PriceNodePointer(v)
    }
}

impl PriceNodePointer {
    /// The address part: the lower three bytes.
    pub fn address(&self) -> (r: u32)
        ensures
            r == self.0 & ADDRESS_MASK,
    {
        self.0 & ADDRESS_MASK
    }

    pub fn is_null(&self) -> (r: bool)
        ensures
            r == (self.0 == 0),
    {
        self.0 == 0
    }
}

/// A resolved pointer: exactly one kind of target.
pub enum Pointer {
    TrieNode(TrieNodePointer),
    TrieLinkNode(TrieLinkNodePointer),
    PriceNode(PriceNodePointer),
}

impl Pointer {
    /// The raw value, whatever the kind.
    pub open spec fn raw(self) -> u32 {
        match self {
            Pointer::TrieNode(p) => p.0,
            Pointer::TrieLinkNode(p) => p.0,
            Pointer::PriceNode(p) => p.0,
        }
    }

    pub fn address(&self) -> (r: u32)
        ensures
            r == self.raw() & ADDRESS_MASK,
    {
        match self {
            Pointer::TrieNode(p) => p.address(),
            Pointer::TrieLinkNode(p) => p.address(),
            Pointer::PriceNode(p) => p.address(),
        }
    }

    pub fn is_null(&self) -> (r: bool)
        ensures
            r == (self.raw() == 0),
    {
        match self {
            Pointer::TrieNode(p) => p.is_null(),
            Pointer::TrieLinkNode(p) => p.is_null(),
            Pointer::PriceNode(p) => p.is_null(),
        }
    }

    pub fn is_trie_node(&self) -> (r: bool)
        ensures
            r == (*self is TrieNode),
    {
        match self {
            Pointer::TrieNode(_) => true,
            _ => false,
        }
    }

    pub fn is_trie_link_node(&self) -> (r: bool)
        ensures
            r == (*self is TrieLinkNode),
    {
        match self {
            Pointer::TrieLinkNode(_) => true,
            _ => false,
        }
    }

    pub fn is_price_node(&self) -> (r: bool)
        ensures
            r == (*self is PriceNode),
    {
        match self {
            Pointer::PriceNode(_) => true,
            _ => false,
        }
    }
}

} // verus!
