//! JSON documents: reading them, looking into them, changing and writing
//! them.

pub mod edit;
pub mod tree;
