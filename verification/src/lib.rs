//! Conversion of a grammar-produced parse tree for a human-readable
//! boolean access policy (attributes combined with `and` / `or`) into the
//! typed policy value tree that downstream attribute-based-encryption
//! logic consumes.

pub mod parse_tree;
pub mod policy;
pub mod builder;
pub mod canonical;
pub mod laws;
