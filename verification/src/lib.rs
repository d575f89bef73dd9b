//! Response-envelope layer of a JSON-RPC 2.0 server.
//!
//! The library models JSON documents with its own [`json::Json`] tree,
//! represents a single call's outcome ([`response::ResponseResult`]),
//! wraps it into a protocol envelope ([`response::RpcResponse`]) and
//! serializes one envelope or an ordered batch ([`response::Response`])
//! into wire bytes, with the strict decoding rules of the protocol
//! proved as contracts.

pub mod error;
pub mod json;
pub mod response;
pub mod text;

pub use error::{DecodeError, RpcError};
pub use json::Json;
pub use response::{Id, Response, ResponseResult, RpcResponse, Version};
