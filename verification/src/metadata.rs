//! Decoding the two kinds of profile metadata that browsers keep on disk.

pub mod chromium;
pub mod gecko;
pub mod ini;
pub mod store;
