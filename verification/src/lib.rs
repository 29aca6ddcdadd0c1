//! Workspace tree indexing for a Markdown note workspace.
//!
//! The crate builds an ordered tree of the Markdown documents under a
//! workspace root, excluding the reserved `assets` subtree, offers a strict
//! text codec for document contents, and models the life cycle of a
//! supervised background server process.  All filesystem and process I/O is
//! left to the embedding program, which feeds plain values in and out.

pub mod document;
pub mod greeting;
pub mod laws;
pub mod name_order;
pub mod node;
pub mod scan;
pub mod supervisor;
pub mod tree_sort;
pub mod workspace;
