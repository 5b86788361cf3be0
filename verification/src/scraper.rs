//! Finding books in the catalog and reading their records.

pub mod errors;
pub mod goodreads_id_fetcher;
pub mod metadata_fetcher;
pub mod request_builder;
pub mod sorting;
