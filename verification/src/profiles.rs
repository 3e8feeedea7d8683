//! From a browser's profile metadata to the list of profiles on offer.

pub mod discovery;
pub mod laws;
pub mod preselect;
pub mod record;
pub mod resolver;
pub mod validator;
