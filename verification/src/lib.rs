//! Verified core of an Onshape REST API client and MCP tool layer.
//!
//! Everything here is pure computation over plain data: request construction,
//! path encoding, credential and token bookkeeping, configuration parsing,
//! OpenAPI catalogue queries and tool input validation. Network, file system
//! and clock access belong to the caller.
use vstd::prelude::*;

pub mod text;
pub mod encoding;
pub mod auth;
pub mod json;
pub mod request;
pub mod endpoints;
pub mod time;
pub mod config;
pub mod oauth;
pub mod status;
pub mod tools;
pub mod openapi;
pub mod transport;

verus! {

} // verus!
