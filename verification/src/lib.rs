//! The per-conversation orchestration engine of a chat agent: routing of
//! messages to tools, assembly of the model context, a decaying affect
//! model and a bounded history, all with machine-checked contracts.

pub mod agents;
pub mod clock;
pub mod config;
pub mod history;
pub mod hormones;
pub mod llm_client;
pub mod memory;
pub mod orchestrator;
pub mod presence;
pub mod prompts;
pub mod text;
