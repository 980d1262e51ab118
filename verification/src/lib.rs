//! Persistence-facing domain layer of a chat platform: canonical entity
//! shapes (messages, servers, roles, bots), sparse patch shapes with a
//! closed enumeration of removable fields, and a storage-agnostic
//! repository contract with verified in-memory implementations.

pub mod error;
pub mod laws;
pub mod message;
pub mod patch;
pub mod repo;
pub mod server;
pub mod store;
pub mod users;

pub use message::if_false;
