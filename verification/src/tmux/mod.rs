//! tmux bindings: command construction, output parsing and control mode.
pub mod client;
pub mod control;
pub mod types;
