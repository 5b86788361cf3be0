//! Bibliographic metadata for a personal digital library: finding a book in
//! a remote catalog, reading its record, and taking it into the local
//! library without duplicates.

pub mod database;
pub mod html;
pub mod json;
pub mod numbers;
pub mod scraper;
pub mod text;
