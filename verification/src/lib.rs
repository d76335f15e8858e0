//! Verified core of the boomerang agent: conversation turns, message
//! conversion, pruning decisions, memory index bookkeeping, the text/JSON
//! shaping around provider calls, the tools' arguments and answers, and the
//! decisions of the chat, task and scheduling services.

pub mod adapters;
pub mod agent_config;
pub mod ai;
pub mod chat;
pub mod clock;
pub mod config;
pub mod server;
pub mod task_execution;
pub mod tasks;
pub mod executor;
pub mod json;
pub mod memory;
pub mod message;
pub mod notifications;
pub mod pruning;
pub mod restate;
pub mod telemetry;
pub mod temporal;
pub mod text;
pub mod tools;
pub mod turn;
