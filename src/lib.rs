use vstd::prelude::*;

pub mod approvals;
pub mod assoc;
pub mod claude;
pub mod claude_log;
pub mod claude_tools;
pub mod codex;
pub mod codex_log;
pub mod diff;
pub mod entry;
pub mod executors;
pub mod index;
pub mod lines;
pub mod mcp_types;
pub mod path;
pub mod session;
pub mod streaming;
pub mod text;
pub mod tool_result;

