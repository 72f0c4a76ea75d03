//! The stack machine and its execution profile.

pub mod profile;
pub mod machine;
pub mod laws;
