//! Terminal session group management built on tmux: the verified core.
pub mod commands;
pub mod config;
pub mod emulator;
pub mod error;
pub mod inspect;
pub mod notify;
pub mod session;
pub mod text;
pub mod tmux;
