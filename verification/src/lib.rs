//! A verified hierarchical indexing and projection layer for a portfolio
//! dataset (signer -> account -> chain -> asset).
//!
//! The portfolio is browsed through two alternate tree groupings built from
//! the same records: a signer-rooted projection and a chain-rooted
//! projection. Every node carries a stable path of integer indices back into
//! the source arrays, and a detail resolver reconstructs a description for
//! any node purely from its path.

pub mod chain_tree;
pub mod details;
pub mod laws;
pub mod model;
pub mod names;
pub mod order;
pub mod session;
pub mod signer_tree;
pub mod tree;
