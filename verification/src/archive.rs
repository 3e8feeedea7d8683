//! Backing a profile directory up into an archive.
//!
//! The library decides what goes into the archive and in what order. The
//! caller lists directories and writes the archive, and reports after each
//! step how it went.

pub mod laws;
pub mod naming;
pub mod skip;
pub mod tree;
pub mod walk;
