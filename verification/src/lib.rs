//! A lightweight, low-bulk interface for LLM providers.
//!
//! One [`Request`] type, one [`Response`] type, swap providers with a single line. This
//! crate decides what is sent and what an answer means; sending and receiving is left to
//! its caller.

pub mod client;
pub mod error;
pub mod json;
pub mod provider;
pub mod providers;
pub mod text;
pub mod tool;
pub mod transport;
pub mod types;

pub use client::AlpineClient;
pub use error::ProviderError;
pub use tool::{Tool, ToolError, ToolRun, Toolbox};
pub use types::{
    ContentBlock, EmbedRequest, Embedding, FinishReason, Message, ModelId, Request, Response, Role,
    StreamChunk, ToolDefinition, ToolUse, Usage,
};
