pub mod bytes;
pub mod feed;
pub mod hash;
pub mod names;
pub mod path;
pub mod sort;
pub mod text;
pub mod tree;
pub mod tree_exact;
pub mod unambiguous;
pub mod xxh3;
