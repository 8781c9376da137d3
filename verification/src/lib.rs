//! Typed building blocks for a GitHub automation client: requests, the reading
//! of their answers, lazy pagination and contributor exclusions.
//!
//! The library performs no transfer itself. It says which request to send and
//! what an answer means; the caller owns the HTTP client.

pub mod block;
pub mod exclusions;
pub mod follow;
pub mod models;
pub mod pager;
pub mod repo;
pub mod report;
pub mod request;
pub mod session;
pub mod streams;
pub mod text;
pub mod users;
