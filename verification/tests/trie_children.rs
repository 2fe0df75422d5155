//! Children of a TrieLink: insert, lookup and removal in price-priority order.
use incognitus::pointers::TrieNodePointer;
use incognitus::program::instructions::initialize::write_slab_allocator_header;
use incognitus::program::state::common::OrderSide;
use incognitus::slab_allocator::SlabAllocator;
use incognitus::trie_children::is_slab_sequential;
use incognitus::trie_node::TrieLink;

fn fresh_slab() -> SlabAllocator {
    let mut data = vec![0u8; 10240];
    write_slab_allocator_header(&mut data);
    SlabAllocator::from_account_data(data)
}

fn child(d: u8) -> u32 {
    0x100 * (d as u32 + 1)
}

fn lookup(link: &TrieLink, side: OrderSide, d: u8, slab: &SlabAllocator) -> Option<u32> {
    link.get_child(side, d, slab).map(|p| p.0)
}

#[test]
fn empty_link_has_no_children() {
    let slab = fresh_slab();
    let link = TrieLink([0u8; 7]);
    for d in 0..10u8 {
        assert_eq!(lookup(&link, OrderSide::Ask, d, &slab), None);
        assert_eq!(lookup(&link, OrderSide::Bid, d, &slab), None);
    }
}

#[test]
fn insert_then_lookup_every_digit() {
    for side in [OrderSide::Ask, OrderSide::Bid] {
        let mut slab = fresh_slab();
        let mut link = TrieLink([0u8; 7]);
        let order = [5u8, 2, 9, 0, 7, 3, 8, 1, 6, 4];
        for (n, d) in order.iter().enumerate() {
            link.insert(side, *d, TrieNodePointer(child(*d)), &mut slab);
            assert_eq!(link.size() as usize, n + 1);
            for e in 0..10u8 {
                let expected = if order[..=n].contains(&e) { Some(child(e)) } else { None };
                assert_eq!(lookup(&link, side, e, &slab), expected);
            }
        }
    }
}

#[test]
fn child_index_follows_price_priority() {
    let mut slab = fresh_slab();
    let mut link = TrieLink([0u8; 7]);
    for d in [1u8, 4, 6, 9] {
        link.insert(OrderSide::Ask, d, TrieNodePointer(child(d)), &mut slab);
    }
    // Asks count the present digits below; bids those above.
    assert_eq!(link.child_index(OrderSide::Ask, 1), 0);
    assert_eq!(link.child_index(OrderSide::Ask, 6), 2);
    assert_eq!(link.child_index(OrderSide::Ask, 9), 3);
    assert_eq!(link.child_index(OrderSide::Bid, 9), 0);
    assert_eq!(link.child_index(OrderSide::Bid, 6), 1);
    assert_eq!(link.child_index(OrderSide::Bid, 1), 3);
    assert_eq!(link.child_index(OrderSide::Ask, 5), 2);
}

#[test]
fn chain_nodes_hold_children_in_ask_order() {
    let mut slab = fresh_slab();
    let mut link = TrieLink([0u8; 7]);
    for d in [3u8, 0, 2, 1, 4] {
        link.insert(OrderSide::Ask, d, TrieNodePointer(child(d)), &mut slab);
    }
    // Five children: two chain nodes, taken from the first sequential slots.
    assert!(link.is_trie_link_node_ptr());
    let first = link.next_link_ptr().address();
    assert_eq!(first, 24);
    let node = slab.get_node(first);
    assert_eq!(node.get(0), child(0));
    assert_eq!(node.get(1), child(1));
    assert_eq!(node.get(2), child(2));
    assert!(node.next_link_ptr().is_trie_link_node());
    let second = slab.get_node(node.next_link_ptr().address());
    assert_eq!(second.get(0), child(3));
    assert_eq!(second.get(1), child(4));
}

#[test]
fn single_child_is_the_link_pointer() {
    let mut slab = fresh_slab();
    let mut link = TrieLink([0u8; 7]);
    link.insert(OrderSide::Bid, 7, TrieNodePointer(0x4321), &mut slab);
    assert_eq!(link.size(), 1);
    assert!(link.is_trie_node_ptr());
    assert_eq!(link.next_link_ptr().0, 0x4321);
    assert!(link.has_child_digit(7));
}

#[test]
fn insert_replaces_an_existing_child() {
    let mut slab = fresh_slab();
    let mut link = TrieLink([0u8; 7]);
    for d in [2u8, 5, 8] {
        link.insert(OrderSide::Ask, d, TrieNodePointer(child(d)), &mut slab);
    }
    link.insert(OrderSide::Ask, 5, TrieNodePointer(0xABCD), &mut slab);
    assert_eq!(link.size(), 3);
    assert_eq!(lookup(&link, OrderSide::Ask, 5, &slab), Some(0xABCD));
    assert_eq!(lookup(&link, OrderSide::Ask, 2, &slab), Some(child(2)));
    assert_eq!(lookup(&link, OrderSide::Ask, 8, &slab), Some(child(8)));
}

#[test]
fn insert_keeps_only_the_address_bits() {
    let mut slab = fresh_slab();
    let mut link = TrieLink([0u8; 7]);
    link.insert(OrderSide::Ask, 3, TrieNodePointer(0x0300_1234), &mut slab);
    assert_eq!(lookup(&link, OrderSide::Ask, 3, &slab), Some(0x1234));
}

#[test]
fn remove_then_lookup() {
    for side in [OrderSide::Ask, OrderSide::Bid] {
        let mut slab = fresh_slab();
        let mut link = TrieLink([0u8; 7]);
        for d in 0..10u8 {
            link.insert(side, d, TrieNodePointer(child(d)), &mut slab);
        }
        let removed = [9u8, 0, 4, 5, 1, 8, 2, 7, 3, 6];
        for (n, d) in removed.iter().enumerate() {
            link.remove(side, *d, &mut slab);
            assert_eq!(link.size() as usize, 9 - n);
            for e in 0..10u8 {
                let expected = if removed[..=n].contains(&e) { None } else { Some(child(e)) };
                assert_eq!(lookup(&link, side, e, &slab), expected);
            }
        }
        assert!(!link.is_trie_node_ptr() && !link.is_trie_link_node_ptr());
    }
}

#[test]
fn remove_absent_digit_changes_nothing() {
    let mut slab = fresh_slab();
    let mut link = TrieLink([0u8; 7]);
    for d in [1u8, 2] {
        link.insert(OrderSide::Ask, d, TrieNodePointer(child(d)), &mut slab);
    }
    let before = link.0;
    let data_before = slab.data().to_vec();
    link.remove(OrderSide::Ask, 6, &mut slab);
    assert_eq!(link.0, before);
    assert_eq!(slab.data(), &data_before[..]);
}

#[test]
fn remove_undoes_insert() {
    let mut slab = fresh_slab();
    let mut link = TrieLink([0u8; 7]);
    for d in [0u8, 3, 6, 9] {
        link.insert(OrderSide::Bid, d, TrieNodePointer(child(d)), &mut slab);
    }
    let size = link.size();
    link.insert(OrderSide::Bid, 4, TrieNodePointer(0x7777), &mut slab);
    link.remove(OrderSide::Bid, 4, &mut slab);
    assert_eq!(link.size(), size);
    for e in 0..10u8 {
        let expected = if [0u8, 3, 6, 9].contains(&e) { Some(child(e)) } else { None };
        assert_eq!(lookup(&link, OrderSide::Bid, e, &slab), expected);
    }
}

#[test]
fn inserts_commute() {
    let mut slab_a = fresh_slab();
    let mut a = TrieLink([0u8; 7]);
    a.insert(OrderSide::Ask, 2, TrieNodePointer(0x22), &mut slab_a);
    a.insert(OrderSide::Ask, 7, TrieNodePointer(0x77), &mut slab_a);
    let mut slab_b = fresh_slab();
    let mut b = TrieLink([0u8; 7]);
    b.insert(OrderSide::Ask, 7, TrieNodePointer(0x77), &mut slab_b);
    b.insert(OrderSide::Ask, 2, TrieNodePointer(0x22), &mut slab_b);
    for e in 0..10u8 {
        assert_eq!(lookup(&a, OrderSide::Ask, e, &slab_a), lookup(&b, OrderSide::Ask, e, &slab_b));
    }
}

#[test]
fn active_flag_survives_insert_and_remove() {
    let mut slab = fresh_slab();
    let mut link = TrieLink([0u8; 7]);
    link.set_active(true);
    link.insert(OrderSide::Ask, 1, TrieNodePointer(child(1)), &mut slab);
    link.insert(OrderSide::Ask, 2, TrieNodePointer(child(2)), &mut slab);
    assert!(link.is_active());
    link.remove(OrderSide::Ask, 1, &mut slab);
    assert!(link.is_active());
}

#[test]
fn chain_nodes_hold_children_in_bid_order() {
    let mut slab = fresh_slab();
    let mut link = TrieLink([0u8; 7]);
    for d in [3u8, 0, 9, 6] {
        link.insert(OrderSide::Bid, d, TrieNodePointer(child(d)), &mut slab);
    }
    // Four children fit in one chain node, highest digit first.
    let node = slab.get_node(link.next_link_ptr().address());
    assert_eq!(node.get(0), child(9));
    assert_eq!(node.get(1), child(6));
    assert_eq!(node.get(2), child(3));
    // The last slot of the last node holds a child, marked as a node.
    assert_eq!(node.get(3), 0x0200_0000 | child(0));
    assert!(node.pointer(3).is_trie_node());
    assert_eq!(node.pointer(3).address(), child(0));
    assert!(!node.next_link_ptr().is_trie_link_node());
}

#[test]
fn links_sharing_a_slab_do_not_disturb_each_other() {
    let mut slab = fresh_slab();
    let mut a = TrieLink([0u8; 7]);
    let mut b = TrieLink([0u8; 7]);
    for d in [1u8, 5, 7] {
        a.insert(OrderSide::Ask, d, TrieNodePointer(child(d)), &mut slab);
    }
    for d in [0u8, 2, 4, 6, 8] {
        b.insert(OrderSide::Bid, d, TrieNodePointer(0x9000 + d as u32), &mut slab);
    }
    for d in [0u8, 2, 3, 9] {
        a.insert(OrderSide::Ask, d, TrieNodePointer(child(d)), &mut slab);
    }
    a.remove(OrderSide::Ask, 5, &mut slab);
    for e in 0..10u8 {
        let expected = if e % 2 == 0 { Some(0x9000 + e as u32) } else { None };
        assert_eq!(lookup(&b, OrderSide::Bid, e, &slab), expected);
        let in_a = [0u8, 1, 2, 3, 7, 9].contains(&e);
        assert_eq!(lookup(&a, OrderSide::Ask, e, &slab), if in_a { Some(child(e)) } else { None });
    }
}

#[test]
fn insert_into_empty_link_needs_no_slab_layout() {
    // Any slab will do: no chain node is read or taken.
    let mut slab = SlabAllocator::from_account_data(vec![0x77u8; 64]);
    let mut link = TrieLink([0u8; 7]);
    link.insert(OrderSide::Ask, 5, TrieNodePointer(0x40), &mut slab);
    assert_eq!(link.size(), 1);
    assert_eq!(link.flags(), 0x1020);
    assert!(link.has_child_digit(5) && !link.has_child_digit(0));
    assert_eq!(link.next_link_ptr().0, 0x40);
    assert!(link.pointer().is_trie_node());
    assert_eq!(link.pointer().address(), 0x40);
    assert_eq!(slab.data(), &vec![0x77u8; 64][..]);
    assert_eq!(lookup(&link, OrderSide::Ask, 5, &slab), Some(0x40));
}

#[test]
fn removing_the_last_child_clears_the_pointer() {
    let mut slab = fresh_slab();
    let mut link = TrieLink([0u8; 7]);
    link.insert(OrderSide::Bid, 2, TrieNodePointer(0x88), &mut slab);
    link.remove(OrderSide::Bid, 2, &mut slab);
    assert_eq!(link.size(), 0);
    assert_eq!(link.next_link_ptr().0, 0);
    assert_eq!(link.flags() & 0x1800, 0);
    // With no kind flag and no children, the pointer reads as a price node.
    assert!(link.pointer().is_price_node());
}

#[test]
fn reserved_flag_bits_are_kept() {
    let mut slab = fresh_slab();
    let mut link = TrieLink([0u8; 7]);
    link.set_flags(0x8400);
    for d in [3u8, 1, 4, 9, 8] {
        link.insert(OrderSide::Ask, d, TrieNodePointer(child(d)), &mut slab);
        assert_eq!(link.flags() & 0x8400, 0x8400);
    }
    for d in [1u8, 9, 3, 8, 4] {
        link.remove(OrderSide::Ask, d, &mut slab);
        assert_eq!(link.flags() & 0x8400, 0x8400);
    }
    assert_eq!(link.flags(), 0x8400);
}

#[test]
fn room_for_insert_is_checked_before_calling() {
    let mut slab = fresh_slab();
    assert!(is_slab_sequential(&slab));
    let mut link = TrieLink([0u8; 7]);
    // An empty link takes no chain node, whatever the slab.
    let any = SlabAllocator::from_account_data(vec![0u8; 8]);
    assert!(!is_slab_sequential(&any));
    assert!(link.insert_has_room(3, &any));
    link.insert(OrderSide::Ask, 3, TrieNodePointer(child(3)), &mut slab);
    // The second child takes a chain node: it needs a sequential slab.
    assert!(!link.insert_has_room(4, &any));
    assert!(link.insert_has_room(4, &slab));
    // Replacing the existing child takes none.
    assert!(link.insert_has_room(3, &any));
    // A full slab has no room: move its next slot up to the head node.
    let mut data = slab.into_data();
    data[10224..10228].copy_from_slice(&10216u32.to_le_bytes());
    let full = SlabAllocator::from_account_data(data);
    assert!(is_slab_sequential(&full));
    assert!(!link.insert_has_room(4, &full));
}
