//! What stands between a request and a change of the live state.

pub mod gate;
pub mod prefs;
pub mod resolver;
pub mod restore;
pub mod rules;
pub mod session;
pub mod token;
pub mod touchid;
