//! Declarative setting schemas and the flag sets resolved from them.

pub mod schema;
pub mod value;
pub mod flags;
pub mod laws;
