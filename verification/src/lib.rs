//! A verified SDK core for an HTTP API client: validation and sanitizing,
//! rate limiting, caching, query building, the client's request logic and
//! the error model.

pub mod string_map;
pub mod text;
pub mod error;
pub mod validation;
pub mod database;
pub mod models;
pub mod clock;
pub mod rate_limit;
pub mod cache;
pub mod utils;
pub mod config;
pub mod middleware;
pub mod client;
mod lru_list;

pub use client::Client;
pub use config::Config;
pub use error::{Result, SdkError};
