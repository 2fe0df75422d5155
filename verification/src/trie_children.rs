//! The children of a TrieNode, reached through its TrieLink.
//!
//! A TrieLink with `size` children keeps them in price-priority order:
//! ascending digit for asks, descending digit for bids.  Bit `d` (0–9) of
//! its flags says that a child with digit `d` exists.
//!
//!   size 0:     no child
//!   size 1:     the link's pointer is the child (TrieNode pointer kind)
//!   size 2..10: the pointer leads to a chain of up to three TrieLinkNodes
//!               (TrieLinkNode pointer kind).  Every chain node keeps three
//!               children in slots 0–2; slot 3 of every node but the last
//!               leads on to the next node (link flag), and slot 3 of the
//!               last one holds one more child (node flag).  So the chain
//!               holds 3 + 3 + 4 children at most, and a chain node is
//!               added when the count grows past 1, 4 and 7.
//!
//! Chain nodes live in a slab of TrieLinkNodes that is filled sequentially:
//! a new node takes the head node's next sequential slot.
use vstd::prelude::*;
use crate::le::{le_u32, read_u32, words4};
use crate::pointers::{
    ADDRESS_MASK, Pointer, TRIE_LINK_NODE_FLAG, TRIE_NODE_FLAG, TrieLinkNodePointer,
    TrieNodePointer,
};
use crate::program::state::common::OrderSide;
use crate::slab_allocator::{header_at, head_node_addr, SlabAllocator};
use crate::trie_link_node::TrieLinkNode;
use crate::trie_node::{
    IS_ACTIVE_FLAG, POINTER_KIND_MASK, RESERVED_FLAGS, TRIE_LINK_NODE_PTR_FLAG, TRIE_NODE_PTR_FLAG, TrieLink,
    TrieLinkFields,
};

verus! {

/// Whether bit `e` of the digit bitmask is set.
pub open spec fn digit_bit(flags: u16, e: int) -> bool {
    flags & (1u16 << (e as u16)) != 0
}

/// The number of digits in `[lo, hi)` whose bit is set.
pub open spec fn bits_in(flags: u16, lo: int, hi: int) -> nat
    decreases hi - lo,
{
    if lo >= hi {
        0
    } else {
        bits_in(flags, lo, hi - 1) + if digit_bit(flags, hi - 1) {
            1nat
        } else {
            0nat
        }
    }
}

/// The position of digit `d` among the present digits in the priority
/// order of `side`: the number of present digits that come before it.
pub open spec fn rank(side: OrderSide, flags: u16, d: int) -> int {
    match side {
        OrderSide::Ask => bits_in(flags, 0, d) as int,
        OrderSide::Bid => bits_in(flags, d + 1, 10) as int,
    }
}

/// Index of the last chain node for `size` children.
pub open spec fn chain_last(size: int) -> int {
    if size <= 4 {
        0
    } else if size <= 7 {
        1
    } else {
        2
    }
}

/// Number of chain nodes for `size` children.
pub open spec fn chain_nodes(size: int) -> int {
    if size <= 1 {
        0
    } else {
        chain_last(size) + 1
    }
}

/// Byte address of chain node `j`.
pub open spec fn chain_node(link: TrieLinkFields, d: Seq<u8>, j: int) -> int
    decreases j,
{
    if j <= 0 {
        (link.pointer & ADDRESS_MASK) as int
    } else {
        (words4(d, chain_node(link, d, j - 1))[3] & ADDRESS_MASK) as int
    }
}

/// Child `k` in priority order.
pub open spec fn child_at(link: TrieLinkFields, d: Seq<u8>, k: int) -> u32 {
    let n = link.size as int;
    if n == 1 {
        link.pointer
    } else {
        let j = if k / 3 < chain_last(n) {
            k / 3
        } else {
            chain_last(n)
        };
        let local = k - 3 * j;
        let w = words4(d, chain_node(link, d, j));
        if local < 3 {
            w[local]
        } else {
            w[3] & ADDRESS_MASK
        }
    }
}

/// All children in priority order.
pub open spec fn children(link: TrieLinkFields, d: Seq<u8>) -> Seq<u32> {
    Seq::new(link.size as nat, |k: int| child_at(link, d, k))
}

/// The children keyed by digit, for a link ordered by `side`.
pub open spec fn child_map(side: OrderSide, link: TrieLinkFields, d: Seq<u8>) -> Map<int, u32> {
    Map::new(
        |e: int| 0 <= e < 10 && digit_bit(link.flags, e),
        |e: int| children(link, d)[rank(side, link.flags, e)],
    )
}

/// The slot that the next sequential insert fills.
pub open spec fn next_seq(d: Seq<u8>) -> int {
    le_u32(d, head_node_addr(d)) as int
}

/// A link-node slab in its sequential state: its size fits the address
/// bits, the header records it, the stack pointer rests on the head node,
/// and the next sequential slot lies between the header and the head node.
pub open spec fn slab_sequential(d: Seq<u8>) -> bool {
    let h = header_at(d);
    &&& 40 <= d.len() <= 0x0100_0000
    &&& h.allocator_size == d.len()
    &&& h.stack_pointer == head_node_addr(d)
    &&& 24 <= next_seq(d) <= head_node_addr(d)
}

/// Node address `a` lies in the filled part of the slab.
pub open spec fn node_in_use(d: Seq<u8>, a: int) -> bool {
    24 <= a && a + 16 <= next_seq(d)
}

/// The invariant of a TrieLink and its chain: its shape, and one digit bit
/// per child.
pub open spec fn chain_wf(link: TrieLinkFields, d: Seq<u8>) -> bool {
    &&& chain_shape(link, d)
    &&& bits_in(link.flags, 0, 10) == link.size
}

/// The layout part of `chain_wf`: pointer kind, chain nodes in use and
/// apart, link flags along the chain, and children that fit the address
/// bits.
#[verifier::opaque]
pub open spec fn chain_shape(link: TrieLinkFields, d: Seq<u8>) -> bool {
    let n = link.size as int;
    let kind = link.flags & POINTER_KIND_MASK;
    let last = chain_last(n);
    &&& n >= 2 ==> slab_sequential(d)
    &&& n <= 10
    &&& n == 0 ==> link.flags & (TRIE_LINK_NODE_PTR_FLAG | TRIE_NODE_PTR_FLAG) == 0
    &&& n == 1 ==> kind == TRIE_NODE_PTR_FLAG
    &&& n >= 2 ==> {
        &&& kind == TRIE_LINK_NODE_PTR_FLAG
        &&& forall|j: int| 0 <= j < chain_nodes(n) ==> node_in_use(d, #[trigger] chain_node(link, d, j))
        &&& forall|j: int|
            0 <= j < last ==> #[trigger] words4(d, chain_node(link, d, j))[3] & TRIE_LINK_NODE_FLAG != 0
        &&& n == 3 * last + 4 ==> words4(d, chain_node(link, d, last))[3] & TRIE_LINK_NODE_FLAG == 0
        &&& forall|i: int, j: int|
            0 <= i < j < chain_nodes(n) ==> #[trigger] chain_node(link, d, i) + 16 <= #[trigger] chain_node(link, d, j)
                || chain_node(link, d, j) + 16 <= chain_node(link, d, i)
    }
    &&& forall|k: int| 0 <= k < n ==> #[trigger] child_at(link, d, k) < 0x0100_0000
}

// ── bit facts ────────────────────────────────────────────────────────────────

proof fn lemma_bit_or(f: u16, d: u16, e: u16)
    requires
        d < 16,
        e < 16,
    ensures
        ((f | (1u16 << d)) & (1u16 << e) != 0) == ((f & (1u16 << e) != 0) || d == e),
{
    assert(((f | (1u16 << d)) & (1u16 << e) != 0) == ((f & (1u16 << e) != 0) || d == e))
        by (bit_vector)
        requires
            d < 16,
            e < 16,
    ;
}

proof fn lemma_bit_and_not(f: u16, d: u16, e: u16)
    requires
        d < 16,
        e < 16,
    ensures
        ((f & !(1u16 << d)) & (1u16 << e) != 0) == ((f & (1u16 << e) != 0) && d != e),
{
    assert(((f & !(1u16 << d)) & (1u16 << e) != 0) == ((f & (1u16 << e) != 0) && d != e))
        by (bit_vector)
        requires
            d < 16,
            e < 16,
    ;
}

/// Two flag words that agree on the digits of `[lo, hi)` count alike there.
proof fn lemma_bits_in_agree(f: u16, g: u16, lo: int, hi: int)
    requires
        forall|e: int| lo <= e < hi ==> digit_bit(f, e) == digit_bit(g, e),
    ensures
        bits_in(f, lo, hi) == bits_in(g, lo, hi),
    decreases hi - lo,
{
    if lo < hi {
        lemma_bits_in_agree(f, g, lo, hi - 1);
    }
}

/// Counting splits at any midpoint.
proof fn lemma_bits_in_split(f: u16, lo: int, mid: int, hi: int)
    requires
        lo <= mid <= hi,
    ensures
        bits_in(f, lo, hi) == bits_in(f, lo, mid) + bits_in(f, mid, hi),
    decreases hi - mid,
{
    if mid < hi {
        lemma_bits_in_split(f, lo, mid, hi - 1);
    }
}

/// Setting bit `d` adds one to every range that holds `d`, unless it was set.
proof fn lemma_bits_in_set(f: u16, d: int, lo: int, hi: int)
    requires
        0 <= d < 10,
        0 <= lo,
        hi <= 10,
    ensures
        bits_in(f | (1u16 << (d as u16)), lo, hi) == bits_in(f, lo, hi) + if lo <= d < hi
            && !digit_bit(f, d) {
            1int
        } else {
            0int
        },
    decreases hi - lo,
{
    if lo < hi {
        lemma_bits_in_set(f, d, lo, hi - 1);
        lemma_bit_or(f, d as u16, (hi - 1) as u16);
    }
}

/// Clearing bit `d` takes one from every range that holds `d`, if it was set.
proof fn lemma_bits_in_clear(f: u16, d: int, lo: int, hi: int)
    requires
        0 <= d < 10,
        0 <= lo,
        hi <= 10,
    ensures
        bits_in(f & !(1u16 << (d as u16)), lo, hi) + if lo <= d < hi && digit_bit(f, d) {
            1int
        } else {
            0int
        } == bits_in(f, lo, hi),
    decreases hi - lo,
{
    if lo < hi {
        lemma_bits_in_clear(f, d, lo, hi - 1);
        lemma_bit_and_not(f, d as u16, (hi - 1) as u16);
    }
}

/// A present digit ranks below the number of present digits.
proof fn lemma_rank_bound(side: OrderSide, f: u16, d: int)
    requires
        0 <= d < 10,
        digit_bit(f, d),
    ensures
        0 <= rank(side, f, d) < bits_in(f, 0, 10),
{
    lemma_bits_in_split(f, 0, d, 10);
    lemma_bits_in_split(f, d, d + 1, 10);
}

/// Setting bit `d` moves every other present digit one place later exactly
/// when `d` comes before it in `side` order (and was absent).
proof fn lemma_rank_set(side: OrderSide, f: u16, d: int, e: int)
    requires
        0 <= d < 10,
        0 <= e < 10,
    ensures
        rank(side, f | (1u16 << (d as u16)), e) == rank(side, f, e) + if !digit_bit(f, d) && d
            != e && (match side {
            OrderSide::Ask => d < e,
            OrderSide::Bid => d > e,
        }) {
            1int
        } else {
            0int
        },
{
    match side {
        OrderSide::Ask => lemma_bits_in_set(f, d, 0, e),
        OrderSide::Bid => lemma_bits_in_set(f, d, e + 1, 10),
    }
}

/// Clearing bit `d` moves every later present digit one place earlier.
proof fn lemma_rank_clear(side: OrderSide, f: u16, d: int, e: int)
    requires
        0 <= d < 10,
        0 <= e < 10,
    ensures
        rank(side, f & !(1u16 << (d as u16)), e) + if digit_bit(f, d) && d != e && (match side {
            OrderSide::Ask => d < e,
            OrderSide::Bid => d > e,
        }) {
            1int
        } else {
            0int
        } == rank(side, f, e),
{
    match side {
        OrderSide::Ask => lemma_bits_in_clear(f, d, 0, e),
        OrderSide::Bid => lemma_bits_in_clear(f, d, e + 1, 10),
    }
}

/// A present digit that comes before another in `side` order ranks lower.
proof fn lemma_rank_order(side: OrderSide, f: u16, d: int, e: int)
    requires
        0 <= d < 10,
        0 <= e < 10,
        digit_bit(f, d),
        match side {
            OrderSide::Ask => d < e,
            OrderSide::Bid => d > e,
        },
    ensures
        rank(side, f, d) < rank(side, f, e),
{
    match side {
        OrderSide::Ask => {
            lemma_bits_in_split(f, 0, d, e);
            lemma_bits_in_split(f, d, d + 1, e);
        },
        OrderSide::Bid => {
            lemma_bits_in_split(f, e + 1, d, 10);
            lemma_bits_in_split(f, d, d + 1, 10);
        },
    }
}

proof fn lemma_bits_in_bound(f: u16, lo: int, hi: int)
    requires
        lo <= hi,
    ensures
        bits_in(f, lo, hi) <= hi - lo,
    decreases hi - lo,
{
    if lo < hi {
        lemma_bits_in_bound(f, lo, hi - 1);
    }
}

/// The rank of a digit depends on the digit bits alone.
proof fn lemma_rank_agree(side: OrderSide, f: u16, g: u16, e: int)
    requires
        0 <= e < 10,
        forall|x: int| 0 <= x < 10 ==> digit_bit(f, x) == digit_bit(g, x),
    ensures
        rank(side, f, e) == rank(side, g, e),
{
    match side {
        OrderSide::Ask => lemma_bits_in_agree(f, g, 0, e),
        OrderSide::Bid => lemma_bits_in_agree(f, g, e + 1, 10),
    }
}

/// The children keyed by digit, for digit bits `f` and children `c`.
pub open spec fn keyed(side: OrderSide, f: u16, c: Seq<u32>) -> Map<int, u32> {
    Map::new(|e: int| 0 <= e < 10 && digit_bit(f, e), |e: int| c[rank(side, f, e)])
}

/// Inserting a child at the rank of its digit, and setting the digit's bit,
/// inserts it into the keyed children.
proof fn lemma_insert_keyed(side: OrderSide, f: u16, g: u16, d: int, c0: Seq<u32>, c1: Seq<u32>, v: u32)
    requires
        0 <= d < 10,
        bits_in(f, 0, 10) == c0.len(),
        forall|x: int| 0 <= x < 10 ==> digit_bit(g, x) == (digit_bit(f, x) || x == d),
        c1 == if digit_bit(f, d) {
            c0.update(rank(side, f, d), v)
        } else {
            c0.insert(rank(side, f, d), v)
        },
    ensures
        keyed(side, g, c1) == keyed(side, f, c0).insert(d, v),
{
    let h = f | (1u16 << (d as u16));
    assert forall|x: int| 0 <= x < 10 implies digit_bit(h, x) == digit_bit(g, x) by {
        lemma_bit_or(f, d as u16, x as u16);
    }
    let idx = rank(side, f, d);
    if digit_bit(f, d) {
        lemma_rank_bound(side, f, d);
    } else {
        lemma_bits_in_split(f, 0, d, 10);
        lemma_bits_in_split(f, d, d + 1, 10);
        assert(bits_in(f, d, d) == 0);
    }
    assert forall|e: int| #[trigger] keyed(side, g, c1).contains_key(e) implies keyed(side, g, c1)[e]
        == keyed(side, f, c0).insert(d, v)[e] by {
        lemma_rank_agree(side, g, h, e);
        lemma_rank_set(side, f, d, e);
        if e == d {
        } else {
            lemma_rank_bound(side, f, e);
            if (match side {
                OrderSide::Ask => d < e,
                OrderSide::Bid => d > e,
            }) {
                if digit_bit(f, d) {
                    lemma_rank_order(side, f, d, e);
                } else {
                    match side {
                        OrderSide::Ask => lemma_bits_in_split(f, 0, d, e),
                        OrderSide::Bid => lemma_bits_in_split(f, e + 1, d + 1, 10),
                    }
                }
            } else {
                lemma_rank_order(side, f, e, d);
            }
        }
    }
    assert(keyed(side, g, c1) =~= keyed(side, f, c0).insert(d, v));
}

/// Removing the child at the rank of a present digit, and clearing the
/// digit's bit, removes it from the keyed children.
proof fn lemma_remove_keyed(side: OrderSide, f: u16, g: u16, d: int, c0: Seq<u32>, c1: Seq<u32>)
    requires
        0 <= d < 10,
        digit_bit(f, d),
        bits_in(f, 0, 10) == c0.len(),
        forall|x: int| 0 <= x < 10 ==> digit_bit(g, x) == (digit_bit(f, x) && x != d),
        c1 == c0.remove(rank(side, f, d)),
    ensures
        keyed(side, g, c1) == keyed(side, f, c0).remove(d),
{
    let h = f & !(1u16 << (d as u16));
    assert forall|x: int| 0 <= x < 10 implies digit_bit(h, x) == digit_bit(g, x) by {
        lemma_bit_and_not(f, d as u16, x as u16);
    }
    lemma_rank_bound(side, f, d);
    assert forall|e: int| #[trigger] keyed(side, g, c1).contains_key(e) implies keyed(side, g, c1)[e]
        == keyed(side, f, c0).remove(d)[e] by {
        lemma_rank_agree(side, g, h, e);
        lemma_rank_clear(side, f, d, e);
        lemma_rank_bound(side, f, e);
        if (match side {
            OrderSide::Ask => d < e,
            OrderSide::Bid => d > e,
        }) {
            lemma_rank_order(side, f, d, e);
        } else {
            lemma_rank_order(side, f, e, d);
        }
    }
    assert(keyed(side, g, c1) =~= keyed(side, f, c0).remove(d));
}

proof fn lemma_mask_facts(x: u32)
    requires
        x < 0x0100_0000,
    ensures
        x & ADDRESS_MASK == x,
        (x | TRIE_LINK_NODE_FLAG) & ADDRESS_MASK == x,
        (x | TRIE_LINK_NODE_FLAG) & TRIE_LINK_NODE_FLAG != 0,
        (x | TRIE_NODE_FLAG) & ADDRESS_MASK == x,
        (x | TRIE_NODE_FLAG) & TRIE_LINK_NODE_FLAG == 0,
{
    assert(x & 0x00FF_FFFFu32 == x) by (bit_vector)
        requires
            x < 0x0100_0000u32,
    ;
    assert((x | 0x0100_0000u32) & 0x00FF_FFFFu32 == x) by (bit_vector)
        requires
            x < 0x0100_0000u32,
    ;
    assert((x | 0x0100_0000u32) & 0x0100_0000u32 != 0) by (bit_vector);
    assert((x | 0x0200_0000u32) & 0x00FF_FFFFu32 == x) by (bit_vector)
        requires
            x < 0x0100_0000u32,
    ;
    assert((x | 0x0200_0000u32) & 0x0100_0000u32 == 0) by (bit_vector)
        requires
            x < 0x0100_0000u32,
    ;
}

/// The words of chain node `j` when the children `c` are stored over the
/// nodes at `addrs`.
pub open spec fn packed_node(c: Seq<u32>, addrs: Seq<u32>, j: int) -> Seq<u32> {
    let n = c.len() as int;
    let w = |s: int| if 3 * j + s < n {
        c[3 * j + s]
    } else {
        0u32
    };
    let w3 = if j < addrs.len() - 1 {
        addrs[j + 1] | TRIE_LINK_NODE_FLAG
    } else if 3 * j + 3 < n {
        c[3 * j + 3] | TRIE_NODE_FLAG
    } else {
        0u32
    };
    seq![w(0), w(1), w(2), w3]
}

/// Node addresses that a chain can use: in the filled part of the slab and
/// pairwise apart.
pub open spec fn addrs_ok(d: Seq<u8>, addrs: Seq<u32>) -> bool {
    &&& forall|j: int| 0 <= j < addrs.len() ==> node_in_use(d, #[trigger] addrs[j] as int)
    &&& forall|i: int, j: int|
        0 <= i < j < addrs.len() ==> #[trigger] addrs[i] + 16 <= #[trigger] addrs[j] || addrs[j]
            + 16 <= addrs[i]
}

/// Byte `i` lies in none of the nodes at `addrs`.
pub open spec fn outside_nodes(addrs: Seq<u32>, i: int) -> bool {
    forall|j: int| 0 <= j < addrs.len() ==> !(#[trigger] addrs[j] <= i < addrs[j] + 16)
}

proof fn lemma_digit_bits_keep_kind(f: u16, d: u16)
    requires
        d < 10,
    ensures
        (f | (1u16 << d)) & POINTER_KIND_MASK == f & POINTER_KIND_MASK,
        (f | (1u16 << d)) & (TRIE_LINK_NODE_PTR_FLAG | TRIE_NODE_PTR_FLAG) == f & (
        TRIE_LINK_NODE_PTR_FLAG | TRIE_NODE_PTR_FLAG),
        (f | (1u16 << d)) & IS_ACTIVE_FLAG == f & IS_ACTIVE_FLAG,
        (f & !(1u16 << d)) & POINTER_KIND_MASK == f & POINTER_KIND_MASK,
        (f & !(1u16 << d)) & (TRIE_LINK_NODE_PTR_FLAG | TRIE_NODE_PTR_FLAG) == f & (
        TRIE_LINK_NODE_PTR_FLAG | TRIE_NODE_PTR_FLAG),
        (f & !(1u16 << d)) & IS_ACTIVE_FLAG == f & IS_ACTIVE_FLAG,
        (f | (1u16 << d)) & RESERVED_FLAGS == f & RESERVED_FLAGS,
        (f & !(1u16 << d)) & RESERVED_FLAGS == f & RESERVED_FLAGS,
        f & (1u16 << d) != 0 ==> f | (1u16 << d) == f,
{
    assert((f | (1u16 << d)) & 0x8400u16 == f & 0x8400u16 && (f & !(1u16 << d)) & 0x8400u16 == f
        & 0x8400u16) by (bit_vector)
        requires
            d < 10,
    ;
    assert(0x0800u16 | 0x1000u16 == 0x1800u16) by (bit_vector);
    assert((f | (1u16 << d)) & 0x3800u16 == f & 0x3800u16) by (bit_vector)
        requires
            d < 10,
    ;
    assert((f | (1u16 << d)) & 0x1800u16 == f & 0x1800u16) by (bit_vector)
        requires
            d < 10,
    ;
    assert((f | (1u16 << d)) & 0x4000u16 == f & 0x4000u16) by (bit_vector)
        requires
            d < 10,
    ;
    assert((f & !(1u16 << d)) & 0x3800u16 == f & 0x3800u16) by (bit_vector)
        requires
            d < 10,
    ;
    assert((f & !(1u16 << d)) & 0x1800u16 == f & 0x1800u16) by (bit_vector)
        requires
            d < 10,
    ;
    assert((f & !(1u16 << d)) & 0x4000u16 == f & 0x4000u16) by (bit_vector)
        requires
            d < 10,
    ;
    assert(f & (1u16 << d) != 0 ==> f | (1u16 << d) == f) by (bit_vector);
}

/// The pointer-kind rewrites of `store_children` keep the digit bits and
/// the active bit, and leave exactly the wanted kind.
proof fn lemma_kind_rewrites(f: u16)
    ensures
        forall|e: int| 0 <= e < 10 ==> digit_bit(f & !(TRIE_NODE_PTR_FLAG | TRIE_LINK_NODE_PTR_FLAG), e) == digit_bit(f, e),
        forall|e: int| 0 <= e < 10 ==> digit_bit(f & !(TRIE_LINK_NODE_PTR_FLAG | crate::trie_node::PRICE_NODE_PTR_FLAG) | TRIE_NODE_PTR_FLAG, e) == digit_bit(f, e),
        forall|e: int| 0 <= e < 10 ==> digit_bit(f & !(TRIE_NODE_PTR_FLAG | crate::trie_node::PRICE_NODE_PTR_FLAG) | TRIE_LINK_NODE_PTR_FLAG, e) == digit_bit(f, e),
        (f & !(TRIE_NODE_PTR_FLAG | TRIE_LINK_NODE_PTR_FLAG)) & (TRIE_LINK_NODE_PTR_FLAG | TRIE_NODE_PTR_FLAG) == 0,
        (f & !(TRIE_LINK_NODE_PTR_FLAG | crate::trie_node::PRICE_NODE_PTR_FLAG) | TRIE_NODE_PTR_FLAG) & POINTER_KIND_MASK == TRIE_NODE_PTR_FLAG,
        (f & !(TRIE_NODE_PTR_FLAG | crate::trie_node::PRICE_NODE_PTR_FLAG) | TRIE_LINK_NODE_PTR_FLAG) & POINTER_KIND_MASK == TRIE_LINK_NODE_PTR_FLAG,
        (f & !(TRIE_NODE_PTR_FLAG | TRIE_LINK_NODE_PTR_FLAG)) & IS_ACTIVE_FLAG == f & IS_ACTIVE_FLAG,
        (f & !(TRIE_LINK_NODE_PTR_FLAG | crate::trie_node::PRICE_NODE_PTR_FLAG) | TRIE_NODE_PTR_FLAG) & IS_ACTIVE_FLAG == f & IS_ACTIVE_FLAG,
        (f & !(TRIE_NODE_PTR_FLAG | crate::trie_node::PRICE_NODE_PTR_FLAG) | TRIE_LINK_NODE_PTR_FLAG) & IS_ACTIVE_FLAG == f & IS_ACTIVE_FLAG,
        (f & !(TRIE_NODE_PTR_FLAG | TRIE_LINK_NODE_PTR_FLAG)) & RESERVED_FLAGS == f & RESERVED_FLAGS,
        (f & !(TRIE_LINK_NODE_PTR_FLAG | crate::trie_node::PRICE_NODE_PTR_FLAG) | TRIE_NODE_PTR_FLAG) & RESERVED_FLAGS == f & RESERVED_FLAGS,
        (f & !(TRIE_NODE_PTR_FLAG | crate::trie_node::PRICE_NODE_PTR_FLAG) | TRIE_LINK_NODE_PTR_FLAG) & RESERVED_FLAGS == f & RESERVED_FLAGS,
{
    assert forall|e: int| 0 <= e < 10 implies digit_bit(f & !(TRIE_NODE_PTR_FLAG | TRIE_LINK_NODE_PTR_FLAG), e) == digit_bit(f, e) by {
        let x = e as u16;
        assert((f & !(0x1000u16 | 0x0800u16)) & (1u16 << x) == f & (1u16 << x)) by (bit_vector)
            requires
                x < 10,
        ;
    }
    assert forall|e: int| 0 <= e < 10 implies digit_bit(f & !(TRIE_LINK_NODE_PTR_FLAG | crate::trie_node::PRICE_NODE_PTR_FLAG) | TRIE_NODE_PTR_FLAG, e) == digit_bit(f, e) by {
        let x = e as u16;
        assert((f & !(0x0800u16 | 0x2000u16) | 0x1000u16) & (1u16 << x) == f & (1u16 << x)) by (bit_vector)
            requires
                x < 10,
        ;
    }
    assert forall|e: int| 0 <= e < 10 implies digit_bit(f & !(TRIE_NODE_PTR_FLAG | crate::trie_node::PRICE_NODE_PTR_FLAG) | TRIE_LINK_NODE_PTR_FLAG, e) == digit_bit(f, e) by {
        let x = e as u16;
        assert((f & !(0x1000u16 | 0x2000u16) | 0x0800u16) & (1u16 << x) == f & (1u16 << x)) by (bit_vector)
            requires
                x < 10,
        ;
    }
    assert((f & !(0x1000u16 | 0x0800u16)) & (0x0800u16 | 0x1000u16) == 0) by (bit_vector);
    assert(0x0800u16 | 0x1000u16 == 0x1800u16) by (bit_vector);
    assert(0x1000u16 | 0x0800u16 == 0x1800u16) by (bit_vector);
    assert((f & !(0x0800u16 | 0x2000u16) | 0x1000u16) & 0x3800u16 == 0x1000u16) by (bit_vector);
    assert((f & !(0x1000u16 | 0x2000u16) | 0x0800u16) & 0x3800u16 == 0x0800u16) by (bit_vector);
    assert((f & !(0x1000u16 | 0x0800u16)) & 0x4000u16 == f & 0x4000u16) by (bit_vector);
    assert((f & !(0x0800u16 | 0x2000u16) | 0x1000u16) & 0x4000u16 == f & 0x4000u16) by (bit_vector);
    assert((f & !(0x1000u16 | 0x2000u16) | 0x0800u16) & 0x4000u16 == f & 0x4000u16) by (bit_vector);
    assert((f & !(0x1000u16 | 0x0800u16)) & 0x8400u16 == f & 0x8400u16) by (bit_vector);
    assert((f & !(0x0800u16 | 0x2000u16) | 0x1000u16) & 0x8400u16 == f & 0x8400u16) by (bit_vector);
    assert((f & !(0x1000u16 | 0x2000u16) | 0x0800u16) & 0x8400u16 == f & 0x8400u16) by (bit_vector);
}

/// Following the chain from a link whose pointer names `addrs[0]`, and
/// whose nodes name each next address, visits `addrs`.
proof fn lemma_chain_follows(link: TrieLinkFields, d: Seq<u8>, addrs: Seq<u32>, j: int)
    requires
        addrs.len() >= 1,
        0 <= j < addrs.len(),
        link.pointer & ADDRESS_MASK == addrs[0],
        forall|i: int| 0 <= i < addrs.len() - 1 ==> #[trigger] words4(d, addrs[i] as int)[3] & ADDRESS_MASK == addrs[i + 1],
    ensures
        chain_node(link, d, j) == addrs[j],
    decreases j,
{
    if j > 0 {
        lemma_chain_follows(link, d, addrs, j - 1);
    }
}

/// Writes the chain nodes that hold the children `c` at `addrs`.
fn write_chain_nodes(slab: &mut SlabAllocator, c: &Vec<u32>, addrs: &Vec<u32>)
    requires
        addrs@.len() > 0 ==> slab_sequential(old(slab)@),
        c@.len() <= 10,
        addrs@.len() == chain_nodes(c@.len() as int),
        addrs_ok(old(slab)@, addrs@),
    ensures
        final(slab)@.len() == old(slab)@.len(),
        forall|i: int|
            0 <= i < addrs@.len() ==> words4(final(slab)@, #[trigger] addrs@[i] as int)
                == packed_node(c@, addrs@, i),
        forall|i: int|
            0 <= i < old(slab)@.len() && !(24 <= i < next_seq(old(slab)@)) ==> final(slab)@[i]
                == old(slab)@[i],
        header_at(final(slab)@) == header_at(old(slab)@),
        next_seq(final(slab)@) == next_seq(old(slab)@),
        forall|i: int|
            0 <= i < old(slab)@.len() && outside_nodes(addrs@, i) ==> final(slab)@[i] == old(slab)@[i],
{
    let n = c.len();
    let k = addrs.len();
    let ghost d0 = slab@;
    let mut j: usize = 0;
    while j < k
        invariant
            k > 0 ==> slab_sequential(d0),
            k == 0 ==> slab@ == d0,
            n == c@.len() <= 10,
            k == addrs@.len() == chain_nodes(n as int),
            addrs_ok(d0, addrs@),
            j <= k,
            slab@.len() == d0.len(),
            forall|i: int|
                0 <= i < j ==> words4(slab@, #[trigger] addrs@[i] as int) == packed_node(
                    c@,
                    addrs@,
                    i,
                ),
            forall|i: int| 0 <= i < d0.len() && !(24 <= i < next_seq(d0)) ==> slab@[i] == d0[i],
            forall|i: int| 0 <= i < d0.len() && outside_nodes(addrs@, i) ==> slab@[i] == d0[i],
        decreases k - j,
    {
        let base = 3 * j;
        let mut node = TrieLinkNode([0u8; 16]);
        if base < n {
            node.set(0, c[base]);
        }
        if base + 1 < n {
            node.set(1, c[base + 1]);
        }
        if base + 2 < n {
            node.set(2, c[base + 2]);
        }
        if j + 1 < k {
            node.set(3, addrs[j + 1] | TRIE_LINK_NODE_FLAG);
        } else if base + 3 < n {
            node.set(3, c[base + 3] | TRIE_NODE_FLAG);
        }
        assert(node@ =~= packed_node(c@, addrs@, j as int));
        assert(node_in_use(d0, addrs@[j as int] as int));
        let ghost before = slab@;
        slab.set_node(addrs[j], &node);
        assert forall|i: int| 0 <= i < d0.len() && outside_nodes(addrs@, i) implies slab@[i] == d0[i] by {
            assert(!(addrs@[j as int] <= i < addrs@[j as int] + 16));
        }
        assert forall|i: int| 0 <= i < j implies words4(slab@, #[trigger] addrs@[i] as int)
            == packed_node(c@, addrs@, i) by {
            assert(words4(before, addrs@[i] as int) == packed_node(c@, addrs@, i));
        }
        j = j + 1;
    }
    assert(header_at(slab@) == header_at(d0));
    assert(next_seq(slab@) == next_seq(d0));
}

/// After `write_chain_nodes` and the link update, the link has the shape of
/// a chain and holds the children `c`.
#[verifier::spinoff_prover]
#[verifier::rlimit(50)]
proof fn lemma_stored_shape(link: TrieLinkFields, d: Seq<u8>, c: Seq<u32>, addrs: Seq<u32>)
    requires
        c.len() >= 2 ==> slab_sequential(d),
        c.len() <= 10,
        link.size == c.len(),
        addrs.len() == chain_nodes(c.len() as int),
        addrs_ok(d, addrs),
        forall|k: int| 0 <= k < c.len() ==> #[trigger] c[k] < 0x0100_0000,
        forall|i: int| 0 <= i < addrs.len() ==> words4(d, #[trigger] addrs[i] as int) == packed_node(c, addrs, i),
        c.len() == 0 ==> link.flags & (TRIE_LINK_NODE_PTR_FLAG | TRIE_NODE_PTR_FLAG) == 0,
        c.len() == 1 ==> link.flags & POINTER_KIND_MASK == TRIE_NODE_PTR_FLAG && link.pointer == c[0],
        c.len() >= 2 ==> link.flags & POINTER_KIND_MASK == TRIE_LINK_NODE_PTR_FLAG && link.pointer == addrs[0],
    ensures
        chain_shape(link, d),
        children(link, d) == c,
{
    reveal(chain_shape);
    let n = c.len() as int;
    let k = addrs.len() as int;
    if n >= 2 {
        assert forall|i: int| 0 <= i < k - 1 implies #[trigger] words4(d, addrs[i] as int)[3]
            & ADDRESS_MASK == addrs[i + 1] by {
            assert(words4(d, addrs[i] as int) == packed_node(c, addrs, i));
            lemma_mask_facts(addrs[i + 1]);
        }
        lemma_mask_facts(addrs[0]);
        assert forall|j2: int| 0 <= j2 < k implies #[trigger] chain_node(link, d, j2) == addrs[j2] by {
            lemma_chain_follows(link, d, addrs, j2);
        }
        let last = chain_last(n);
        assert forall|j2: int| 0 <= j2 < last implies #[trigger] words4(d, chain_node(link, d, j2))[3]
            & TRIE_LINK_NODE_FLAG != 0 by {
            assert(chain_node(link, d, j2) == addrs[j2]);
            assert(words4(d, addrs[j2] as int) == packed_node(c, addrs, j2));
            lemma_mask_facts(addrs[j2 + 1]);
        }
        if n == 3 * last + 4 {
            assert(chain_node(link, d, last) == addrs[last]);
            assert(words4(d, addrs[last] as int) == packed_node(c, addrs, last));
            lemma_mask_facts(c[n - 1]);
        }
        assert forall|j2: int| 0 <= j2 < chain_nodes(n) implies node_in_use(d, #[trigger] chain_node(link, d, j2)) by {
            assert(chain_node(link, d, j2) == addrs[j2]);
        }
        assert forall|i: int, j: int|
            0 <= i < j < chain_nodes(n) implies #[trigger] chain_node(link, d, i) + 16 <= #[trigger] chain_node(link, d, j)
                || chain_node(link, d, j) + 16 <= chain_node(link, d, i) by {
            assert(chain_node(link, d, i) == addrs[i]);
            assert(chain_node(link, d, j) == addrs[j]);
        }
    }
    assert forall|i: int| 0 <= i < n implies #[trigger] child_at(link, d, i) == c[i] by {
        if n >= 2 {
            let last = chain_last(n);
            let jj = if i / 3 < last {
                i / 3
            } else {
                last
            };
            let local = i - 3 * jj;
            assert(chain_node(link, d, jj) == addrs[jj]);
            assert(words4(d, addrs[jj] as int) == packed_node(c, addrs, jj));
            if local == 3 {
                lemma_mask_facts(c[i]);
            }
        }
    }
    assert(children(link, d) =~= c);
}

/// The addresses of a well-shaped chain can be written over.
proof fn lemma_chain_addrs_ok(link: TrieLinkFields, d: Seq<u8>, addrs: Seq<u32>)
    requires
        chain_shape(link, d),
        addrs.len() == chain_nodes(link.size as int),
        forall|j: int| 0 <= j < addrs.len() ==> addrs[j] == chain_node(link, d, j),
    ensures
        addrs_ok(d, addrs),
        link.size >= 2 ==> slab_sequential(d),
        link.size <= 10,
        forall|k: int| 0 <= k < link.size ==> #[trigger] child_at(link, d, k) < 0x0100_0000,
{
    reveal(chain_shape);
    assert forall|j: int| 0 <= j < addrs.len() implies node_in_use(d, #[trigger] addrs[j] as int) by {
        assert(node_in_use(d, chain_node(link, d, j)));
    }
    assert forall|i: int, j: int|
        0 <= i < j < addrs.len() implies #[trigger] addrs[i] + 16 <= #[trigger] addrs[j] || addrs[j]
            + 16 <= addrs[i] by {
        assert(chain_node(link, d, i) + 16 <= chain_node(link, d, j) || chain_node(link, d, j) + 16
            <= chain_node(link, d, i));
    }
}

/// Changing only digit bits keeps the shape of a chain.
proof fn lemma_shape_digit_change(link: TrieLinkFields, d: Seq<u8>, g: u16)
    requires
        chain_shape(link, d),
        g & POINTER_KIND_MASK == link.flags & POINTER_KIND_MASK,
        g & (TRIE_LINK_NODE_PTR_FLAG | TRIE_NODE_PTR_FLAG) == link.flags & (TRIE_LINK_NODE_PTR_FLAG
            | TRIE_NODE_PTR_FLAG),
    ensures
        chain_shape(TrieLinkFields { flags: g, ..link }, d),
        children(TrieLinkFields { flags: g, ..link }, d) == children(link, d),
{
    reveal(chain_shape);
    let link2 = TrieLinkFields { flags: g, ..link };
    assert forall|j: int| #[trigger] chain_node(link2, d, j) == chain_node(link, d, j) by {
        lemma_chain_node_flags(link, d, g, j);
    }
    assert forall|k: int| #[trigger] child_at(link2, d, k) == child_at(link, d, k) by {
        let n = link.size as int;
        let jj = if k / 3 < chain_last(n) { k / 3 } else { chain_last(n) };
        assert(chain_node(link2, d, jj) == chain_node(link, d, jj));
    }
    assert(children(link2, d) =~= children(link, d));
    let n = link.size as int;
    if n >= 2 {
        assert forall|j: int| 0 <= j < chain_nodes(n) implies node_in_use(d, #[trigger] chain_node(link2, d, j)) by {
            assert(node_in_use(d, chain_node(link, d, j)));
        }
        assert forall|j: int|
            0 <= j < chain_last(n) implies #[trigger] words4(d, chain_node(link2, d, j))[3] & TRIE_LINK_NODE_FLAG != 0 by {
            assert(words4(d, chain_node(link, d, j))[3] & TRIE_LINK_NODE_FLAG != 0);
        }
        assert(chain_node(link2, d, chain_last(n)) == chain_node(link, d, chain_last(n)));
        assert forall|i: int, j: int|
            0 <= i < j < chain_nodes(n) implies #[trigger] chain_node(link2, d, i) + 16 <= #[trigger] chain_node(link2, d, j)
                || chain_node(link2, d, j) + 16 <= chain_node(link2, d, i) by {
            assert(chain_node(link, d, i) + 16 <= chain_node(link, d, j) || chain_node(link, d, j) + 16
                <= chain_node(link, d, i));
        }
    }
    assert forall|k: int| 0 <= k < n implies #[trigger] child_at(link2, d, k) < 0x0100_0000 by {
        assert(child_at(link, d, k) < 0x0100_0000);
    }
}

proof fn lemma_chain_node_flags(link: TrieLinkFields, d: Seq<u8>, g: u16, j: int)
    ensures
        chain_node(TrieLinkFields { flags: g, ..link }, d, j) == chain_node(link, d, j),
    decreases j,
{
    if j > 0 {
        lemma_chain_node_flags(link, d, g, j - 1);
    }
}

/// Takes the slab's next sequential slot for a new chain node and appends
/// its address to `addrs`.
fn take_chain_node(slab: &mut SlabAllocator, addrs: &mut Vec<u32>)
    requires
        slab_sequential(old(slab)@),
        addrs_ok(old(slab)@, old(addrs)@),
        next_seq(old(slab)@) + 16 <= head_node_addr(old(slab)@),
    ensures
        slab_sequential(final(slab)@),
        addrs_ok(final(slab)@, final(addrs)@),
        final(addrs)@ == old(addrs)@.push(next_seq(old(slab)@) as u32),
        header_at(final(slab)@) == header_at(old(slab)@),
        next_seq(final(slab)@) == next_seq(old(slab)@) + 16,
        final(slab)@.len() == old(slab)@.len(),
        forall|i: int|
            0 <= i < old(slab)@.len() && !(head_node_addr(old(slab)@) <= i < head_node_addr(
                old(slab)@,
            ) + 4) ==> final(slab)@[i] == old(slab)@[i],
{
    let ghost d0 = slab@;
    let p = slab.next_insert_pointer();
    slab.set_next_stack_pointer::<TrieLinkNode>();
    proof {
        crate::le::lemma_put_u32(d0, head_node_addr(d0), (p + 16) as u32);
        assert(header_at(slab@) == header_at(d0));
    }
    addrs.push(p);
}

/// Byte `i` lies in one of the chain nodes of `link`.
pub open spec fn in_chain(link: TrieLinkFields, d: Seq<u8>, i: int) -> bool {
    exists|j: int|
        0 <= j < chain_nodes(link.size as int) && #[trigger] chain_node(link, d, j) <= i < chain_node(
            link,
            d,
            j,
        ) + 16
}

/// Whether inserting under `digit` takes a new chain node from the slab: a
/// digit without a child, when the link holds 1, 4 or 7 children.
pub open spec fn insert_takes_node(link: TrieLinkFields, digit: int) -> bool {
    !digit_bit(link.flags, digit) && (link.size == 1 || link.size == 4 || link.size == 7)
}

/// Whether `slab` is in its sequential state (see `slab_sequential`).
pub fn is_slab_sequential(slab: &SlabAllocator) -> (r: bool)
    ensures
        r == slab_sequential(slab@),
{
    let d = slab.data();
    let len = d.len();
    if len < 40 || len > 0x0100_0000 {
        return false;
    }
    if read_u32(d, 12) as usize != len {
        return false;
    }
    let head = len - 16;
    if read_u32(d, 8) as usize != head {
        return false;
    }
    let next = read_u32(d, head) as usize;
    24 <= next && next <= head
}

impl TrieLink {
    /// Whether `insert` under `digit` may be called on `slab`: when it takes
    /// a new chain node, the slab must be in its sequential state with room
    /// for one more node before the head node.
    pub fn insert_has_room(&self, digit: u8, slab: &SlabAllocator) -> (r: bool)
        requires
            digit < 10,
        ensures
            r == (insert_takes_node(self@, digit as int) ==> slab_sequential(slab@) && next_seq(slab@)
                + 16 <= head_node_addr(slab@)),
    {
        let size = self.size();
        let takes = !self.has_child_digit(digit) && (size == 1 || size == 4 || size == 7);
        if !takes {
            return true;
        }
        if !is_slab_sequential(slab) {
            return false;
        }
        let d = slab.data();
        let head = d.len() - 16;
        let next = read_u32(d, head) as usize;
        next + 16 <= head
    }
}

// ── lookups ──────────────────────────────────────────────────────────────────

impl TrieLink {
    /// The priority position of `digit` among the present digits: how many
    /// present digits come before it in `side` order.
    pub fn child_index(&self, side: OrderSide, digit: u8) -> (r: u8)
        requires
            digit < 10,
        ensures
            r == rank(side, self@.flags, digit as int),
    {
        let mut index: u8 = 0;
        match side {
            OrderSide::Ask => {
                let mut i: u8 = 0;
                while i < digit
                    invariant
                        i <= digit < 10,
                        index == bits_in(self@.flags, 0, i as int),
                        index <= i,
                    decreases digit - i,
                {
                    if self.has_child_digit(i) {
                        index = index + 1;
                    }
                    i = i + 1;
                }
            },
            OrderSide::Bid => {
                let mut i: u8 = 10;
                while i > digit + 1
                    invariant
                        digit + 1 <= i <= 10,
                        digit < 10,
                        index == bits_in(self@.flags, i as int, 10),
                        index <= 10 - i,
                    decreases i,
                {
                    proof {
                        lemma_bits_in_split(self@.flags, i - 1, i as int, 10);
                        assert(bits_in(self@.flags, i - 1, i - 1) == 0);
                        assert(bits_in(self@.flags, i - 1, i as int) == if digit_bit(
                            self@.flags,
                            i - 1,
                        ) {
                            1nat
                        } else {
                            0nat
                        });
                    }
                    if self.has_child_digit(i - 1) {
                        index = index + 1;
                    }
                    i = i - 1;
                }
            },
        }
        index
    }

    /// The raw pointer field.
    fn pointer_raw(&self) -> (r: u32)
        ensures
            r == self@.pointer,
    {
        self.next_link_ptr().0
    }

    /// The addresses of the chain nodes, first node first.
    fn chain_addrs(&self, slab: &SlabAllocator) -> (r: Vec<u32>)
        requires
            chain_shape(self@, slab@),
        ensures
            r@.len() == chain_nodes(self@.size as int),
            forall|j: int| 0 <= j < r@.len() ==> r@[j] == chain_node(self@, slab@, j),
    {
        proof {
            reveal(chain_shape);
        }
        let mut r: Vec<u32> = Vec::new();
        let size = self.size();
        if size < 2 {
            return r;
        }
        let count: usize = if size <= 4 {
            1
        } else if size <= 7 {
            2
        } else {
            3
        };
        let mut a = self.pointer().address();
        r.push(a);
        while r.len() < count
            invariant
                chain_shape(self@, slab@),
                2 <= self@.size <= 10,
                count == chain_nodes(self@.size as int),
                1 <= r@.len() <= count,
                forall|j: int| 0 <= j < r@.len() ==> r@[j] == chain_node(self@, slab@, j),
                a == r@[r@.len() - 1],
            decreases count - r@.len(),
        {
            proof {
                reveal(chain_shape);
            }
            let ghost j = r@.len() - 1;
            assert(node_in_use(slab@, chain_node(self@, slab@, j)));
            let node = slab.get_node(a);
            a = node.next_link_ptr().address();
            r.push(a);
        }
        r
    }

    /// All children in priority order.
    fn read_children(&self, slab: &SlabAllocator) -> (r: Vec<u32>)
        requires
            chain_shape(self@, slab@),
        ensures
            r@ == children(self@, slab@),
    {
        proof {
            reveal(chain_shape);
        }
        let size = self.size() as usize;
        let mut r: Vec<u32> = Vec::new();
        if size == 0 {
            assert(r@ =~= children(self@, slab@));
            return r;
        }
        if size == 1 {
            r.push(self.pointer_raw());
            assert(r@ =~= children(self@, slab@));
            return r;
        }
        let addrs = self.chain_addrs(slab);
        let last = addrs.len() - 1;
        let mut k: usize = 0;
        while k < size
            invariant
                chain_shape(self@, slab@),
                2 <= size == self@.size <= 10,
                last == chain_last(size as int),
                addrs@.len() == last + 1,
                forall|j: int| 0 <= j < addrs@.len() ==> addrs@[j] == chain_node(self@, slab@, j),
                k <= size,
                r@.len() == k,
                forall|i: int| 0 <= i < k ==> r@[i] == child_at(self@, slab@, i),
            decreases size - k,
        {
            proof {
                reveal(chain_shape);
            }
            let j = if k / 3 < last {
                k / 3
            } else {
                last
            };
            let local = k - 3 * j;
            assert(node_in_use(slab@, chain_node(self@, slab@, j as int)));
            let node = slab.get_node(addrs[j]);
            let w = if local < 3 {
                node.get(local)
            } else {
                node.get(3) & ADDRESS_MASK
            };
            r.push(w);
            k = k + 1;
        }
        assert(r@ =~= children(self@, slab@));
        r
    }

    /// Stores the children `c` over the chain nodes at `addrs` and sets size,
    /// pointer and pointer kind to match; the digit bits are left to the
    /// caller.
    fn store_children(&mut self, slab: &mut SlabAllocator, c: &Vec<u32>, addrs: &Vec<u32>)
        requires
            c@.len() >= 2 ==> slab_sequential(old(slab)@),
            c@.len() <= 10,
            addrs@.len() == chain_nodes(c@.len() as int),
            addrs_ok(old(slab)@, addrs@),
            forall|k: int| 0 <= k < c@.len() ==> #[trigger] c@[k] < 0x0100_0000,
        ensures
            chain_shape(final(self)@, final(slab)@),
            children(final(self)@, final(slab)@) == c@,
            final(self)@.size == c@.len(),
            forall|e: int|
                0 <= e < 10 ==> digit_bit(final(self)@.flags, e) == digit_bit(old(self)@.flags, e),
            final(self)@.flags & IS_ACTIVE_FLAG == old(self)@.flags & IS_ACTIVE_FLAG,
            final(self)@.flags & RESERVED_FLAGS == old(self)@.flags & RESERVED_FLAGS,
            c@.len() == 0 ==> final(self)@.pointer == 0 && final(self)@.flags & (TRIE_LINK_NODE_PTR_FLAG
                | TRIE_NODE_PTR_FLAG) == 0,
            header_at(final(slab)@) == header_at(old(slab)@),
            next_seq(final(slab)@) == next_seq(old(slab)@),
            final(slab)@.len() == old(slab)@.len(),
            forall|i: int|
                0 <= i < old(slab)@.len() && !(24 <= i < next_seq(old(slab)@)) ==> final(slab)@[i]
                    == old(slab)@[i],
            forall|i: int|
                0 <= i < old(slab)@.len() && outside_nodes(addrs@, i) ==> final(slab)@[i] == old(
                    slab,
                )@[i],
    {
        write_chain_nodes(slab, c, addrs);
        let n = c.len();
        self.set_size(n as u8);
        if n == 0 {
            self.set_pointer(0);
            let f = self.flags() & !(TRIE_NODE_PTR_FLAG | TRIE_LINK_NODE_PTR_FLAG);
            self.set_flags(f);
        } else if n == 1 {
            self.set_pointer(c[0]);
            self.set_as_trie_node_ptr();
        } else {
            self.set_pointer(addrs[0]);
            self.set_as_trie_link_node_ptr();
        }
        proof {
            lemma_kind_rewrites(old(self)@.flags);
            lemma_stored_shape(self@, slab@, c@, addrs@);
        }
    }

    /// Adds `insert_ptr` as the child with digit `digit`, keeping the
    /// children in `side` priority order; a child already stored under
    /// `digit` is replaced.  Growing past 1, 4 or 7 children takes a new
    /// chain node from the slab's next sequential slot.  The slab changes
    /// only in the link's chain nodes and, when a node is taken, in that
    /// node and the head node's next-slot word.
    pub fn insert(
        &mut self,
        side: OrderSide,
        digit: u8,
        insert_ptr: TrieNodePointer,
        slab: &mut SlabAllocator,
    )
        requires
            digit < 10,
            chain_wf(old(self)@, old(slab)@),
            insert_takes_node(old(self)@, digit as int) ==> slab_sequential(old(slab)@) && next_seq(
                old(slab)@,
            ) + 16 <= head_node_addr(old(slab)@),
        ensures
            chain_wf(final(self)@, final(slab)@),
            child_map(side, final(self)@, final(slab)@) == child_map(side, old(self)@, old(slab)@).insert(
                digit as int,
                insert_ptr.0 & ADDRESS_MASK,
            ),
            final(self)@.size == old(self)@.size + if digit_bit(old(self)@.flags, digit as int) {
                0int
            } else {
                1int
            },
            final(self)@.flags & IS_ACTIVE_FLAG == old(self)@.flags & IS_ACTIVE_FLAG,
            final(self)@.flags & RESERVED_FLAGS == old(self)@.flags & RESERVED_FLAGS,
            header_at(final(slab)@) == header_at(old(slab)@),
            final(slab)@.len() == old(slab)@.len(),
            next_seq(final(slab)@) == next_seq(old(slab)@) + if insert_takes_node(
                old(self)@,
                digit as int,
            ) {
                16int
            } else {
                0int
            },
            forall|i: int|
                0 <= i < old(slab)@.len() && !in_chain(old(self)@, old(slab)@, i) && !(
                insert_takes_node(old(self)@, digit as int) && (next_seq(old(slab)@) <= i
                    < next_seq(old(slab)@) + 16 || head_node_addr(old(slab)@) <= i < head_node_addr(
                    old(slab)@,
                ) + 4)) ==> #[trigger] final(slab)@[i] == old(slab)@[i],
    {
        let size = self.size();
        let present = self.has_child_digit(digit);
        let index = self.child_index(side, digit) as usize;
        let mut c = self.read_children(slab);
        let mut addrs = self.chain_addrs(slab);
        let value = insert_ptr.address();
        let ghost f = old(self)@.flags;
        let ghost c0 = c@;
        proof {
            lemma_chain_addrs_ok(old(self)@, old(slab)@, addrs@);
            let raw = insert_ptr.0;
            assert(value < 0x0100_0000) by (bit_vector)
                requires
                    value == raw & 0x00FF_FFFFu32,
            ;
            if present {
                lemma_rank_bound(side, f, digit as int);
            } else {
                lemma_bits_in_split(f, 0, digit as int, 10);
                lemma_bits_in_split(f, digit as int, digit as int + 1, 10);
                assert(bits_in(f, digit as int, digit as int + 1) == 0) by {
                    assert(bits_in(f, digit as int, digit as int) == 0);
                }
            }
        }
        let ghost addrs0 = addrs@;
        if present {
            c.set(index, value);
        } else {
            c.insert(index, value);
            if size == 1 || size == 4 || size == 7 {
                take_chain_node(slab, &mut addrs);
            }
        }
        let ghost d_mid = slab@;
        proof {
            assert forall|i: int|
                0 <= i < old(slab)@.len() && !in_chain(old(self)@, old(slab)@, i) && !(
                insert_takes_node(old(self)@, digit as int) && (next_seq(old(slab)@) <= i
                    < next_seq(old(slab)@) + 16 || head_node_addr(old(slab)@) <= i
                    < head_node_addr(old(slab)@) + 4)) implies outside_nodes(addrs@, i)
                && d_mid[i] == old(slab)@[i] by {
                assert forall|j: int| 0 <= j < addrs@.len() implies !(#[trigger] addrs@[j] <= i
                    < addrs@[j] + 16) by {
                    if j < addrs0.len() {
                        assert(addrs@[j] == chain_node(old(self)@, old(slab)@, j));
                    }
                }
            }
        }
        proof {
            if !present {
                lemma_bits_in_bound(f, 0, digit as int);
                lemma_bits_in_bound(f, digit as int + 1, 10);
            }
        }
        self.store_children(slab, &c, &addrs);
        let ghost link1 = self@;
        let ghost d1 = slab@;
        self.set_child_digit(digit);
        proof {
            let g = self@.flags;
            lemma_digit_bits_keep_kind(link1.flags, digit as u16);
            assert forall|x: int| 0 <= x < 10 implies digit_bit(g, x) == (digit_bit(f, x) || x == digit) by {
                lemma_bit_or(link1.flags, digit as u16, x as u16);
            }
            lemma_shape_digit_change(link1, d1, g);
            lemma_bits_in_agree(link1.flags, f, 0, 10);
            lemma_bits_in_set(link1.flags, digit as int, 0, 10);
            lemma_insert_keyed(side, f, g, digit as int, c0, c@, value);
            assert(child_map(side, self@, d1) =~= keyed(side, g, c@));
            assert(child_map(side, old(self)@, old(slab)@) =~= keyed(side, f, c0));
        }
    }

    /// Removes the child with digit `digit`, keeping the others in order; a
    /// digit without a child leaves everything as it is.  Shrinking to 1, 4
    /// or 7 children drops the last chain node from the chain (its slot is
    /// not handed back to the slab).  The slab changes only in the link's
    /// chain nodes.
    pub fn remove(&mut self, side: OrderSide, digit: u8, slab: &mut SlabAllocator)
        requires
            digit < 10,
            chain_wf(old(self)@, old(slab)@),
        ensures
            chain_wf(final(self)@, final(slab)@),
            child_map(side, final(self)@, final(slab)@) == child_map(side, old(self)@, old(slab)@).remove(
                digit as int,
            ),
            final(self)@.size == old(self)@.size - if digit_bit(old(self)@.flags, digit as int) {
                1int
            } else {
                0int
            },
            final(self)@.flags & IS_ACTIVE_FLAG == old(self)@.flags & IS_ACTIVE_FLAG,
            final(self)@.flags & RESERVED_FLAGS == old(self)@.flags & RESERVED_FLAGS,
            old(self)@.size == 1 && digit_bit(old(self)@.flags, digit as int) ==> final(self)@.pointer
                == 0 && final(self)@.flags & (TRIE_LINK_NODE_PTR_FLAG | TRIE_NODE_PTR_FLAG) == 0,
            header_at(final(slab)@) == header_at(old(slab)@),
            final(slab)@.len() == old(slab)@.len(),
            next_seq(final(slab)@) == next_seq(old(slab)@),
            forall|i: int|
                0 <= i < old(slab)@.len() && !in_chain(old(self)@, old(slab)@, i)
                    ==> #[trigger] final(slab)@[i] == old(slab)@[i],
            !digit_bit(old(self)@.flags, digit as int) ==> final(self)@ == old(self)@ && final(slab)@
                == old(slab)@,
    {
        let size = self.size();
        if size == 0 || !self.has_child_digit(digit) {
            proof {
                if size == 0 && digit_bit(old(self)@.flags, digit as int) {
                    lemma_rank_bound(side, old(self)@.flags, digit as int);
                }
                assert(child_map(side, old(self)@, old(slab)@) =~= child_map(side, old(self)@, old(slab)@).remove(digit as int));
            }
            return;
        }
        let index = self.child_index(side, digit) as usize;
        let mut c = self.read_children(slab);
        let mut addrs = self.chain_addrs(slab);
        let ghost f = old(self)@.flags;
        let ghost c0 = c@;
        proof {
            lemma_chain_addrs_ok(old(self)@, old(slab)@, addrs@);
            lemma_rank_bound(side, f, digit as int);
        }
        let ghost addrs0 = addrs@;
        c.remove(index);
        if size == 2 || size == 5 || size == 8 {
            addrs.pop();
        }
        proof {
            assert(addrs_ok(old(slab)@, addrs@));
            assert forall|i: int|
                0 <= i < old(slab)@.len() && !in_chain(old(self)@, old(slab)@, i) implies outside_nodes(
                addrs@,
                i,
            ) by {
                assert forall|j: int| 0 <= j < addrs@.len() implies !(#[trigger] addrs@[j] <= i
                    < addrs@[j] + 16) by {
                    assert(addrs@[j] == addrs0[j]);
                    assert(addrs0[j] == chain_node(old(self)@, old(slab)@, j));
                }
            }
        }
        self.store_children(slab, &c, &addrs);
        let ghost link1 = self@;
        let ghost d1 = slab@;
        self.clear_child_digit(digit);
        proof {
            let g = self@.flags;
            lemma_digit_bits_keep_kind(link1.flags, digit as u16);
            assert forall|x: int| 0 <= x < 10 implies digit_bit(g, x) == (digit_bit(f, x) && x != digit) by {
                lemma_bit_and_not(link1.flags, digit as u16, x as u16);
            }
            lemma_shape_digit_change(link1, d1, g);
            lemma_bits_in_agree(link1.flags, f, 0, 10);
            lemma_bits_in_clear(link1.flags, digit as int, 0, 10);
            lemma_remove_keyed(side, f, g, digit as int, c0, c@);
            assert(child_map(side, self@, d1) =~= keyed(side, g, c@));
            assert(child_map(side, old(self)@, old(slab)@) =~= keyed(side, f, c0));
            assert forall|i: int|
                0 <= i < old(slab)@.len() && !in_chain(old(self)@, old(slab)@, i) implies #[trigger] slab@[i]
                == old(slab)@[i] by {
                assert(outside_nodes(addrs@, i));
            }
        }
    }

    /// The child with digit `digit`, if there is one.
    pub fn get_child(&self, side: OrderSide, digit: u8, slab: &SlabAllocator) -> (r: Option<
        TrieNodePointer,
    >)
        requires
            digit < 10,
            chain_wf(self@, slab@),
        ensures
            r == (if digit_bit(self@.flags, digit as int) {
                Some(TrieNodePointer(children(self@, slab@)[rank(side, self@.flags, digit as int)]))
            } else {
                None
            }),
            r == match child_lookup(side, self@, slab@, digit as int) {
                Some(v) => Some(TrieNodePointer(v)),
                None => None,
            },
    {
        proof {
            reveal(chain_shape);
            assert(child_lookup(side, self@, slab@, digit as int) == (if digit_bit(self@.flags, digit as int) {
                Some(children(self@, slab@)[rank(side, self@.flags, digit as int)])
            } else {
                None
            }));
        }
        if !self.has_child_digit(digit) {
            return None;
        }
        let size = self.size();
        proof {
            lemma_rank_bound(side, self@.flags, digit as int);
        }
        if size == 0 {
            return None;
        }
        let index = self.child_index(side, digit);

        if size == 1 {
            return match self.pointer() {
                Pointer::TrieNode(p) => Some(p),
                _ => None,
            };
        }
        let mut current_link_ptr = self.pointer().address();
        let mut cursor = index as usize;
        let ghost mut j: int = 0;
        let ghost n = size as int;
        let ghost k = index as int;

        loop
            invariant
                chain_wf(self@, slab@),
                2 <= n == self@.size <= 10,
                0 <= k < n,
                k == rank(side, self@.flags, digit as int),
                digit_bit(self@.flags, digit as int),
                0 <= j <= chain_last(n),
                current_link_ptr == chain_node(self@, slab@, j),
                cursor == k - 3 * j,
                k >= 3 * j,
                child_lookup(side, self@, slab@, digit as int) == Some(children(self@, slab@)[k]),
            decreases cursor,
        {
            proof {
                reveal(chain_shape);
            }
            if current_link_ptr == 0 {
                return None;
            }
            let node = slab.get_node(current_link_ptr);

            if cursor < 3 {
                return match node.pointer(cursor) {
                    Pointer::TrieNode(p) => Some(p),
                    _ => None,
                };
            }
            let next = node.next_link_ptr();
            if next.is_trie_link_node() {
                current_link_ptr = next.address();
                cursor = cursor - 3;
                proof {
                    j = j + 1;
                }
            } else if cursor == 3 {
                return match node.pointer(3) {
                    Pointer::TrieNode(p) => Some(p),
                    _ => None,
                };
            } else {
                return None;
            }
        }
    }
}


// ── laws ─────────────────────────────────────────────────────────────────────

/// The child stored under `digit`, if any: what `get_child` answers.
pub open spec fn child_lookup(side: OrderSide, link: TrieLinkFields, d: Seq<u8>, digit: int) -> Option<u32> {
    if child_map(side, link, d).contains_key(digit) {
        Some(child_map(side, link, d)[digit])
    } else {
        None
    }
}

/// The digits that have a child, counted over `[lo, hi)`.
proof fn lemma_digit_set(f: u16, lo: int, hi: int)
    requires
        lo <= hi,
    ensures
        Set::new(|e: int| lo <= e < hi && digit_bit(f, e)).finite(),
        Set::new(|e: int| lo <= e < hi && digit_bit(f, e)).len() == bits_in(f, lo, hi),
    decreases hi - lo,
{
    let s = Set::new(|e: int| lo <= e < hi && digit_bit(f, e));
    if lo == hi {
        assert(s =~= Set::empty());
    } else {
        lemma_digit_set(f, lo, hi - 1);
        let t = Set::new(|e: int| lo <= e < hi - 1 && digit_bit(f, e));
        if digit_bit(f, hi - 1) {
            assert(s =~= t.insert(hi - 1));
        } else {
            assert(s =~= t);
        }
    }
}

/// After `insert(digit, ptr)`, looking `digit` up gives the inserted child
/// (its address bits), and every other digit gives what it gave before.
pub proof fn law_lookup_after_insert(
    side: OrderSide,
    link0: TrieLinkFields,
    d0: Seq<u8>,
    link1: TrieLinkFields,
    d1: Seq<u8>,
    digit: int,
    ptr: TrieNodePointer,
    other: int,
)
    requires
        0 <= digit < 10,
        child_map(side, link1, d1) == child_map(side, link0, d0).insert(digit, ptr.0 & ADDRESS_MASK),
    ensures
        child_lookup(side, link1, d1, digit) == Some(ptr.0 & ADDRESS_MASK),
        other != digit ==> child_lookup(side, link1, d1, other) == child_lookup(side, link0, d0, other),
{
}

/// After `remove(digit)`, looking `digit` up gives nothing, and every other
/// digit gives what it gave before.
pub proof fn law_lookup_after_remove(
    side: OrderSide,
    link0: TrieLinkFields,
    d0: Seq<u8>,
    link1: TrieLinkFields,
    d1: Seq<u8>,
    digit: int,
    other: int,
)
    requires
        child_map(side, link1, d1) == child_map(side, link0, d0).remove(digit),
    ensures
        child_lookup(side, link1, d1, digit) is None,
        other != digit ==> child_lookup(side, link1, d1, other) == child_lookup(side, link0, d0, other),
{
}

/// Removing a digit that was just inserted where it had no child gives back
/// the children that the link had before, and its size.
pub proof fn law_remove_undoes_insert(
    side: OrderSide,
    link0: TrieLinkFields,
    d0: Seq<u8>,
    link1: TrieLinkFields,
    d1: Seq<u8>,
    link2: TrieLinkFields,
    d2: Seq<u8>,
    digit: int,
    child: u32,
)
    requires
        0 <= digit < 10,
        chain_wf(link0, d0),
        chain_wf(link2, d2),
        child_lookup(side, link0, d0, digit) is None,
        child_map(side, link1, d1) == child_map(side, link0, d0).insert(digit, child),
        child_map(side, link2, d2) == child_map(side, link1, d1).remove(digit),
    ensures
        child_map(side, link2, d2) == child_map(side, link0, d0),
        link2.size == link0.size,
{
    assert(child_map(side, link2, d2) =~= child_map(side, link0, d0));
    law_size_counts_children(side, link0, d0);
    law_size_counts_children(side, link2, d2);
}

/// Inserting under two different digits gives the same children in either
/// order.
pub proof fn law_inserts_commute(
    side: OrderSide,
    link0: TrieLinkFields,
    d0: Seq<u8>,
    a: int,
    x: u32,
    b: int,
    y: u32,
)
    requires
        a != b,
    ensures
        child_map(side, link0, d0).insert(a, x).insert(b, y) == child_map(side, link0, d0).insert(
            b,
            y,
        ).insert(a, x),
{
    assert(child_map(side, link0, d0).insert(a, x).insert(b, y) =~= child_map(side, link0, d0).insert(
        b,
        y,
    ).insert(a, x));
}

/// A well-formed link's size is the number of digits that have a child.
pub proof fn law_size_counts_children(side: OrderSide, link: TrieLinkFields, d: Seq<u8>)
    requires
        chain_wf(link, d),
    ensures
        child_map(side, link, d).dom().finite(),
        child_map(side, link, d).dom().len() == link.size,
{
    lemma_digit_set(link.flags, 0, 10);
    assert(child_map(side, link, d).dom() =~= Set::new(|e: int| 0 <= e < 10 && digit_bit(link.flags, e)));
}

/// The children are kept in price-priority order: of two digits with a
/// child, the lower digit's child comes first for asks and last for bids;
/// each sits at its rank among the link's children.
pub proof fn law_priority_order(side: OrderSide, link: TrieLinkFields, d: Seq<u8>, a: int, b: int)
    requires
        chain_wf(link, d),
        0 <= a < b < 10,
        digit_bit(link.flags, a),
        digit_bit(link.flags, b),
    ensures
        0 <= rank(side, link.flags, a) < link.size,
        0 <= rank(side, link.flags, b) < link.size,
        side is Ask ==> rank(side, link.flags, a) < rank(side, link.flags, b),
        side is Bid ==> rank(side, link.flags, b) < rank(side, link.flags, a),
        children(link, d)[rank(side, link.flags, a)] == child_map(side, link, d)[a],
        children(link, d)[rank(side, link.flags, b)] == child_map(side, link, d)[b],
{
    lemma_rank_bound(side, link.flags, a);
    lemma_rank_bound(side, link.flags, b);
    match side {
        OrderSide::Ask => lemma_rank_order(side, link.flags, a, b),
        OrderSide::Bid => lemma_rank_order(side, link.flags, b, a),
    }
}

/// Two slabs agree on the sixteen bytes at `a`.
pub open spec fn node_agrees(d0: Seq<u8>, d1: Seq<u8>, a: int) -> bool {
    forall|i: int| a <= i < a + 16 ==> d1[i] == d0[i]
}

/// The four words at `a` read alike in two slabs that agree there.
proof fn lemma_words4_agree(d0: Seq<u8>, d1: Seq<u8>, a: int)
    requires
        node_agrees(d0, d1, a),
    ensures
        words4(d1, a) == words4(d0, a),
{
    assert(d1[a] == d0[a] && d1[a + 1] == d0[a + 1] && d1[a + 2] == d0[a + 2] && d1[a + 3] == d0[a + 3]);
    assert(d1[a + 4] == d0[a + 4] && d1[a + 5] == d0[a + 5] && d1[a + 6] == d0[a + 6] && d1[a + 7] == d0[a + 7]);
    assert(d1[a + 8] == d0[a + 8] && d1[a + 9] == d0[a + 9] && d1[a + 10] == d0[a + 10] && d1[a + 11] == d0[a + 11]);
    assert(d1[a + 12] == d0[a + 12] && d1[a + 13] == d0[a + 13] && d1[a + 14] == d0[a + 14] && d1[a + 15] == d0[a + 15]);
    assert(words4(d1, a) =~= words4(d0, a));
}

/// The chain nodes of a link read alike in two slabs that agree on them.
proof fn lemma_chain_node_agree(link: TrieLinkFields, d0: Seq<u8>, d1: Seq<u8>, j: int)
    requires
        0 <= j,
        forall|j2: int| 0 <= j2 <= j ==> node_agrees(d0, d1, #[trigger] chain_node(link, d0, j2)),
    ensures
        chain_node(link, d1, j) == chain_node(link, d0, j),
        words4(d1, chain_node(link, d0, j)) == words4(d0, chain_node(link, d0, j)),
    decreases j,
{
    if j > 0 {
        lemma_chain_node_agree(link, d0, d1, j - 1);
    }
    lemma_words4_agree(d0, d1, chain_node(link, d0, j));
}

/// A link's children depend on its own chain nodes alone: when the slab
/// changes elsewhere (keeping its header, and handing out sequential slots
/// only further on), the link stays well formed with the same children.
/// With the frames of `insert` and `remove`, this says that changing one
/// link leaves every link whose chain lies apart from the changed bytes as
/// it was.
pub proof fn law_children_local(side: OrderSide, link: TrieLinkFields, d0: Seq<u8>, d1: Seq<u8>)
    requires
        chain_wf(link, d0),
        d1.len() == d0.len(),
        header_at(d1) == header_at(d0),
        next_seq(d0) <= next_seq(d1) <= head_node_addr(d1),
        forall|i: int| 0 <= i < d0.len() && in_chain(link, d0, i) ==> d1[i] == d0[i],
    ensures
        chain_wf(link, d1),
        children(link, d1) == children(link, d0),
        child_map(side, link, d1) == child_map(side, link, d0),
{
    reveal(chain_shape);
    let n = link.size as int;
    assert forall|j: int| 0 <= j < chain_nodes(n) implies node_agrees(d0, d1, #[trigger] chain_node(link, d0, j)) by {
        assert(node_in_use(d0, chain_node(link, d0, j)));
        assert forall|i: int| chain_node(link, d0, j) <= i < chain_node(link, d0, j) + 16 implies d1[i]
            == d0[i] by {
            assert(in_chain(link, d0, i));
        }
    }
    assert forall|j: int| 0 <= j < chain_nodes(n) implies #[trigger] chain_node(link, d1, j)
        == chain_node(link, d0, j) && words4(d1, chain_node(link, d0, j)) == words4(
        d0,
        chain_node(link, d0, j),
    ) by {
        lemma_chain_node_agree(link, d0, d1, j);
    }
    assert forall|k: int| 0 <= k < n implies #[trigger] child_at(link, d1, k) == child_at(link, d0, k) by {
        if n >= 2 {
            let j = if k / 3 < chain_last(n) {
                k / 3
            } else {
                chain_last(n)
            };
            assert(0 <= j < chain_nodes(n));
            assert(chain_node(link, d1, j) == chain_node(link, d0, j));
        }
    }
    assert(children(link, d1) =~= children(link, d0));
    assert(chain_shape(link, d1));
    assert(child_map(side, link, d1) =~= child_map(side, link, d0));
}

} // verus!
