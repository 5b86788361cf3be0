//! The local library: its tables, and how a book is taken into them.

pub mod laws;
pub mod queries;
pub mod types;
