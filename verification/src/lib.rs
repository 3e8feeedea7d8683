//! Profile discovery and backup planning for browser clean-up.
//!
//! The library locates browser profile directories from the metadata that a
//! browser keeps on disk, settles their order, decides which of them are worth
//! offering, and drives the walk that copies a profile into a backup archive.
//! Everything here works on plain values; reading directories, writing
//! archives and talking to the user are left to the caller.

pub mod archive;
pub mod args;
pub mod brave;
pub mod browser_profile;
pub mod environment;
pub mod firefox;
pub mod installation;
pub mod json;
pub mod metadata;
pub mod overwrite;
pub mod paths;
pub mod processes;
pub mod profiles;
pub mod text;
pub mod zen;
