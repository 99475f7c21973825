//! Verified client logic for a block-builder bundle relay: JSON-RPC envelope
//! construction, strict response decoding, request-id sequencing, and the
//! bundle middleware built on top of them. Network transport lives outside
//! this crate; every function here is pure computation with a contract.

pub mod bundle;
pub mod jsonrpc;
pub mod middleware;
pub mod relay;
pub mod text;
