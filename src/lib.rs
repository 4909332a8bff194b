//! Incremental HTML document-tree construction with ordered discovery of
//! auxiliary resources, plus a tiny 32-bit Bloom filter.

pub mod bloom;
pub mod element;
pub mod tree;
pub mod builder;
pub mod discovery;
pub mod driver;
pub mod stream;
