//! TrieLinkNode: 16-byte support node that holds the children of a
//! TrieNode once it has more than one.
//!
//! Layout:
//!   offset  0: child[0]  u32 — first child TrieNode address
//!   offset  4: child[1]  u32 — second child TrieNode address
//!   offset  8: child[2]  u32 — third child TrieNode address
//!   offset 12: variant   u32 — a `TrieLinkNodePointer`: either the next
//!                              TrieLinkNode (link flag) or the fourth child
//!                              TrieNode (node flag)
use vstd::prelude::*;
use crate::le::{le_u32, lemma_put_u32, read_u32, words4, write_u32};
use crate::pointers::{
    ADDRESS_MASK, Pointer, TRIE_LINK_NODE_FLAG, TrieLinkNodePointer, TrieNodePointer,
};

verus! {

pub struct TrieLinkNode(pub [u8; 16]);

impl View for TrieLinkNode {
    /// The four stored words, slot 0 first.
    type V = Seq<u32>;

    open spec fn view(&self) -> Seq<u32> {
        words4(self.0@, 0)
    }
}

impl TrieLinkNode {
    /// The pointer in slot `index`: slots 0–2 always hold a child TrieNode;
    /// slot 3 holds the next link node when its link flag is set, and the
    /// fourth child TrieNode otherwise.
    pub fn pointer(&self, index: usize) -> (r: Pointer)
        requires
            index < 4,
        ensures
            index < 3 ==> r == Pointer::TrieNode(TrieNodePointer(self@[index as int])),
            index == 3 && self@[3] & TRIE_LINK_NODE_FLAG != 0 ==> r == Pointer::TrieLinkNode(
                TrieLinkNodePointer(self@[3]),
            ),
            index == 3 && self@[3] & TRIE_LINK_NODE_FLAG == 0 ==> r == Pointer::TrieNode(
                TrieNodePointer(self@[3] & ADDRESS_MASK),
            ),
    {
        let offset = index * 4;
        let raw = read_u32(&self.0, offset);
        let link_ptr = TrieLinkNodePointer::from(raw);
        if index <= 2 {
            Pointer::TrieNode(TrieNodePointer::from(raw))
        } else if link_ptr.is_trie_link_node() {
            Pointer::TrieLinkNode(link_ptr)
        } else {
            Pointer::TrieNode(TrieNodePointer::from(link_ptr.address()))
        }
    }

    /// The raw word in slot `index`.
    pub fn get(&self, index: usize) -> (r: u32)
        requires
            index < 4,
        ensures
            r == self@[index as int],
    {
        read_u32(&self.0, index * 4)
    }

    /// Slot 3 as a link-node pointer.
    pub fn next_link_ptr(&self) -> (r: TrieLinkNodePointer)
        ensures
            r.0 == self@[3],
    {
        TrieLinkNodePointer::from(read_u32(&self.0, 12))
    }

    /// Stores `val` in slot `index`.
    pub fn set(&mut self, index: usize, val: u32)
        requires
            index < 4,
        ensures
            final(self)@ == old(self)@.update(index as int, val),
    {
        let offset = index * 4;
        proof {
            lemma_put_u32(self.0@, offset as int, val);
        }
        write_u32(&mut self.0, offset, val);
        assert(self@ =~= old(self)@.update(index as int, val));
    }
}

/// Free-standing entry point of the module; it performs no work, since
/// chains are built by `TrieLink::insert`.
pub fn insert() {
}

} // verus!
