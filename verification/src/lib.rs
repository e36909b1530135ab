//! Verified core of an MCP server for the Jaeger v3 HTTP API.
pub mod config;
pub mod jaeger;
pub mod server;
pub mod text;
