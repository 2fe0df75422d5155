pub mod le;
pub mod pointers;
pub mod price_node;
pub mod trie_node;
pub mod trie_link_node;
pub mod slab_allocator;
pub mod trie_children;
pub mod program;
