//! What the desktop commands decide: the MCP server's status report, and
//! the steps of the Sangfor and Remote Desktop dialog automations.

pub mod dialog;
pub mod mcp;
pub mod mstsc;
pub mod sangfor;
