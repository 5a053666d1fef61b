//! A user-space loader for static, position-dependent ELF64 executables.
//!
//! The library decides everything about a load that can be decided from the
//! bytes of the image: which segments are mapped, where, with which
//! permissions, and in which order the address space is built. The caller
//! performs the mappings and reports how each one went.

pub mod error;
pub mod image;
pub mod layout;
pub mod loader;
pub mod memory;
pub mod parse;
pub mod segment;
pub mod select;
pub mod stack;
