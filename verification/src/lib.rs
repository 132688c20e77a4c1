//! Verified core of an AI-agent toolkit: an in-memory expense API, the
//! request planning of its MCP bridge, MCP client configuration, and the
//! response handling of the LLM helpers.

pub mod action_plan;
pub mod chat;
pub mod expense_api;
pub mod expense_laws;
pub mod expense_mcp;
pub mod gaia;
pub mod mcp_client;
pub mod text;
