//! A versioned article store over an embedded sorted key-value engine.

pub mod allocator;
pub mod articles;
pub mod cache;
pub mod clock;
pub mod config;
pub mod engine;
pub mod error;
pub mod forms;
pub mod id;
pub mod order;
pub mod search;
pub mod store;
pub mod text;
pub mod users;
