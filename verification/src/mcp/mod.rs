//! Local MCP (Model Context Protocol) server: JSON-RPC over HTTP on
//! 127.0.0.1, gated by a bearer token, exposing the two end-to-end
//! automation flows as tools.

pub mod server;
pub mod state;
pub mod tools;
