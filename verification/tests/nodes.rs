//! Fixed-layout nodes and pointer encodings.
use incognitus::pointers::{Pointer, PriceNodePointer, TrieLinkNodePointer, TrieNodePointer};
use incognitus::price_node::PriceNode;
use incognitus::trie_link_node::TrieLinkNode;
use incognitus::trie_node::{TrieLink, TrieNode};

#[test]
fn pointer_address_and_flags() {
    let p = TrieLinkNodePointer::set_link(0x12_3456);
    assert_eq!(p.0, 0x0112_3456);
    assert!(p.is_trie_link_node());
    assert!(p.is_next_trie_link_node());
    assert!(!p.is_trie_node());
    assert_eq!(p.address(), 0x12_3456);
    let q = TrieLinkNodePointer::set_next_link(0x40);
    assert!(q.is_trie_link_node() && q.is_next_trie_link_node());
    assert_eq!(q.address(), 0x40);
    assert!(TrieLinkNodePointer::from(0).is_null());
    assert!(TrieNodePointer::from(0).is_null());
    assert_eq!(TrieNodePointer::from(0x0300_0010).address(), 0x10);
    assert_eq!(PriceNodePointer::from(0xFF12_3456).address(), 0x12_3456);
    assert!(PriceNodePointer::from(0).is_null());
}

#[test]
fn resolved_pointer_kinds() {
    let p = Pointer::TrieLinkNode(TrieLinkNodePointer(0x0100_0020));
    assert!(p.is_trie_link_node() && !p.is_trie_node() && !p.is_price_node());
    assert_eq!(p.address(), 0x20);
    let q = Pointer::PriceNode(PriceNodePointer(0));
    assert!(q.is_price_node() && q.is_null());
    let r = Pointer::TrieNode(TrieNodePointer(5));
    assert!(r.is_trie_node() && !r.is_null());
}

#[test]
fn price_node_fields() {
    let mut n = PriceNode([0u8; 32]);
    n.set_last_slot_update(0x0102_0304_0506_0708);
    n.set_price(42_000);
    n.set_parent_pointer(0x100);
    n.set_order_block_pointer(0x200);
    n.set_next_entry_offset(3);
    n.set_next_match_offset(15);
    n.set_num_order_blocks_produced(10);
    n.set_num_order_blocks_consumed(4);
    n.set_num_order_blocks_compacted(2);
    assert_eq!(n.last_slot_update(), 0x0102_0304_0506_0708);
    assert_eq!(n.0[0], 0x08);
    assert_eq!(n.price(), 42_000);
    assert_eq!(n.parent_pointer(), 0x100);
    assert_eq!(n.order_block_pointer(), 0x200);
    assert_eq!(n.next_entry_offset(), 3);
    assert_eq!(n.next_match_offset(), 15);
    assert_eq!(n.num_order_blocks_produced(), 10);
    assert_eq!(n.num_order_blocks_consumed(), 4);
    assert_eq!(n.num_order_blocks_compacted(), 2);
    assert_eq!(n.num_order_blocks_live(), 4);
    assert_eq!(&n.0[26..32], &[10, 0, 4, 0, 2, 0]);
}

#[test]
fn trie_node_fields() {
    let mut n = TrieNode([0u8; 24]);
    n.set_quantity_delta(500);
    n.set_quote_delta(u64::MAX);
    n.set_digit(7);
    n.set_depth(3);
    assert_eq!(n.quantity_delta(), 500);
    assert_eq!(n.quote_delta(), u64::MAX);
    assert_eq!(n.digit(), 7);
    assert_eq!(n.depth(), 3);
    assert_eq!(n.0[16], 0x37);
    n.set_digit(0x1F);
    assert_eq!(n.digit(), 0xF);
    assert_eq!(n.depth(), 3);
    n.set_value(0x52);
    assert_eq!((n.digit(), n.depth()), (2, 5));
}

#[test]
fn trie_node_link_bytes() {
    let mut n = TrieNode([0u8; 24]);
    let mut link = TrieLink([0u8; 7]);
    link.set_size(2);
    link.set_pointer(0xAABB_CCDD);
    link.set_as_trie_link_node_ptr();
    n.set_trie_link(&link);
    assert_eq!(&n.0[17..24], &link.0);
    let back = n.trie_link();
    assert_eq!(back.size(), 2);
    assert_eq!(back.next_link_ptr().0, 0xAABB_CCDD);
}

#[test]
fn trie_link_flags() {
    let mut link = TrieLink([0u8; 7]);
    link.set_child_digit(0);
    link.set_child_digit(9);
    assert!(link.has_child_digit(0) && link.has_child_digit(9) && !link.has_child_digit(5));
    link.clear_child_digit(0);
    assert!(!link.has_child_digit(0));
    link.set_as_price_node_ptr();
    assert!(link.is_price_node_prt());
    link.set_as_trie_node_ptr();
    assert!(link.is_trie_node_ptr() && !link.is_price_node_prt() && !link.is_trie_link_node_ptr());
    link.set_pointer(0x30);
    assert!(link.pointer().is_trie_node());
    assert_eq!(link.pointer().address(), 0x30);
    link.set_as_trie_link_node_ptr();
    assert!(link.pointer().is_trie_link_node());
    link.set_active(true);
    assert!(link.is_active());
    assert_eq!(link.flags(), 0x0200 | 0x0800 | 0x4000);
    link.set_active(false);
    assert!(!link.is_active());
    link.set_flags(0x2000);
    assert!(link.pointer().is_price_node());
}

#[test]
fn trie_link_node_slots() {
    let mut n = TrieLinkNode([0u8; 16]);
    n.set(0, 0x10);
    n.set(3, 0x0100_0040);
    assert_eq!(n.get(0), 0x10);
    assert!(n.pointer(0).is_trie_node());
    assert!(n.pointer(3).is_trie_link_node());
    assert_eq!(n.next_link_ptr().address(), 0x40);
    n.set(3, 0x0000_0050);
    assert!(n.pointer(3).is_trie_node());
    assert_eq!(n.pointer(3).address(), 0x50);
}

#[test]
fn childless_link_without_kind_flag_points_to_a_price_node() {
    let mut link = TrieLink([0u8; 7]);
    link.set_pointer(0x60);
    let p = link.pointer();
    assert!(p.is_price_node());
    assert_eq!(p.address(), 0x60);
}
