//! Decision logic of the Pi coding-agent bridge: the RPC protocol's
//! commands, the interpretation of its JSONL event stream, the model list
//! and the CLI probes, with the process and file handling left to callers.

pub mod chat;
pub mod cli;
pub mod commands;
pub mod json;
pub mod levels;
pub mod model;
pub mod one_shot;
pub mod rpc;
pub mod text;
