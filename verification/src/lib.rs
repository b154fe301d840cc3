//! Wire-level request descriptors for 1C Element RPC and the session-side
//! rules of the bugboard tool server.
pub mod config;
pub mod element;
pub mod error;
pub mod failure;
pub mod handles;
pub mod http;
pub mod json;
pub mod response;
pub mod text;
pub mod write_safety;
