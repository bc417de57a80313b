//! Arrays on the C data interface.
pub mod array;
pub mod export;
pub mod export_laws;
pub mod import;
pub mod import_laws;
pub mod laws;
pub mod schema;
