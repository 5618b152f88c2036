//! Reconstructs an approximate Dockerfile from the layer history of a built
//! container image.
//!
//! The heart of the library is the history-entry classifier: each image layer
//! carries a free-form "created by" command string, and the classifier maps
//! that string to zero or one reconstructed build instruction. The assembler
//! walks the history records in reverse (oldest layer first, the original
//! build order) and collects the classified instructions.

pub mod assemble;
pub mod classify;
pub mod history;
pub mod text;
