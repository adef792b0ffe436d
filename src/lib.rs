//! A log-structured key-value store: commands are appended to numbered
//! segment files and an in-memory index maps each live key to the place of
//! its latest `Set` record.
pub mod command;
pub mod error;
pub mod filename;
pub mod laws;
pub mod store;
