//! The rows of the settings screen: built from the schema and the current documents, edited,
//! and applied back.

pub mod apply;
pub mod rows;
pub mod values;
