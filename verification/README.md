# incognitus

The account logic of an on-chain central limit order book for Solana,
written in Verus and proved against its contracts.

- `src/le.rs` — little-endian field encoding shared by all layouts.
- `src/pointers.rs`, `src/trie_node.rs`, `src/trie_link_node.rs`,
  `src/price_node.rs` — the fixed-layout nodes of the price trie.
- `src/slab_allocator.rs` — the slab of fixed-size nodes: header, stack
  nodes, the insert-side stack.
- `src/trie_children.rs` — the children of a trie node, kept in price
  priority (ascending digits for asks, descending for bids) over a chain of
  link nodes, with insert, lookup and removal.
- `src/program/` — the program: instruction decoding, account checks and
  program-derived addresses for initialize / allocate / close, the new and
  grown account layouts, and the chunked close.
- `app/lib.rs` — the Solana entry point around the library: account views,
  system-program calls, rent, resizes.
