//! A shared counter store and the request handler that reports and advances it.
pub mod handler;
pub mod laws;
pub mod repository;

pub use repository::{OperationData, SharedData};
