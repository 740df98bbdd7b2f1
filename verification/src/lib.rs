//! Core logic of a natural-language-to-shell-command assistant: the safety
//! state machine that gates execution, the fixed-layout terminal renderer,
//! the line-delimited IPC protocol between the client and a warm daemon,
//! and the prompt/response handling for the remote resolver and explainer.
//!
//! Network, socket, terminal and file I/O live outside this crate; every
//! decision those edges act on is made here, under contract.

pub mod auth;
pub mod cli;
pub mod daemon;
pub mod edge;
pub mod highlight;
pub mod ipc;
pub mod prompt;
pub mod json;
pub mod logs;
pub mod render;
pub mod safety;
pub mod text;
pub mod tui;
