//! A verified core for a tool-using agent loop.
//!
//! The crate reconstructs streamed tool calls from fragments, renders the
//! action/observation history into prompt messages, decides each step of the
//! bounded plan/act/observe loop, and shapes the outgoing streaming wire
//! protocol. All decision logic is verified; network, model and tool I/O
//! live outside the library and drive the state machines defined here.

pub mod accumulator;
pub mod json_text;
pub mod log_codec;
pub mod outside;
pub mod executor;
pub mod planner;
pub mod rmcp_tool;
pub mod scratchpad;
pub mod stream;
pub mod text;
pub mod types;
