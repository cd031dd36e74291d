//! Overwrite-and-obscure engine for destroying the contents of regular files.
//!
//! The library decides everything that can be decided on plain values: which
//! paths are admitted, how a pass is cut into writes, what each write holds,
//! and the order of the steps that remove a file's entry. The program around
//! it performs the reads, writes, flushes and renames.

pub mod error;
pub mod overwrite;
pub mod plan;
pub mod obscure;
pub mod validate;
