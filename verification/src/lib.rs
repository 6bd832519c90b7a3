//! Core of an MCP (Model Context Protocol) server framework: resource URI
//! patterns, JSON parsing and JSON-RPC framing, the shared registry, the
//! servers and the request dispatcher, with contracts checked by Verus.

pub mod dispatch;
pub mod hooks;
pub mod json;
pub mod laws;
pub mod listing;
pub mod registry;
pub mod rpc;
pub mod schema;
pub mod server;
pub mod types;
pub mod uri;
