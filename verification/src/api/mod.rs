//! The interface of the cache service: its messages and its requests.

pub mod client;
pub mod types;

pub use crate::api::client::ApiClient;
