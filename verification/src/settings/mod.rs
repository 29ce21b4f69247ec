//! Settings documents and their schema.

pub mod merge;
pub mod plugin;
pub mod schema;
pub mod validate;
