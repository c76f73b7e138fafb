//! Verified core of a font-name indexing tool.
//!
//! Given the raw bytes of a file, the library decides which face indices the
//! file offers ([`collection`]), extracts and filters the name records of a
//! single face ([`extract`]), and assembles the rows of the relational store
//! that a run persists ([`store`]). Reading files and writing the store are
//! left to the surrounding program; everything here is a pure function of the
//! bytes it is given.

pub mod collection;
pub mod extract;
pub mod platform;
pub mod store;
