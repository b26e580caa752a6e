//! Agent sessions: chat model, terminal-agent management, tool catalogue.
pub mod chat;
pub mod command;
pub mod commit;
pub mod file_edit;
pub mod id;
pub mod json;
pub mod manager;
pub mod memory;
pub mod state;
pub mod status;
pub mod stream;
pub mod tool_executor;
pub mod tool_output;
pub mod tools;
pub mod wire;

pub use chat::{AgentProvider, ChatMessage, ChatSession, ContentBlock, MessageRole, ToolResult, ToolUse};
pub use command::{agent_display_name, agent_launch_spec, AgentLaunchSpec};
pub use id::AgentId;
pub use state::AgentState;
pub use status::AgentStatus;
pub use manager::{AgentManager, AgentManagerError, IssueNumber, ManagedAgentSession, DEFAULT_MAX_AGENTS};
