//! Core logic of the cyberflow desktop helper: the local MCP server's
//! JSON-RPC handling, its runtime state and auth token, the tool catalogue,
//! and the decisions taken while driving the Sangfor VDI and Remote Desktop
//! (mstsc) dialogs.

pub mod text;
pub mod json;
pub mod mcp;
pub mod commands;
