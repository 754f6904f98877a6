//! Rope, the command-line companion: its trigger detection, tool executor,
//! file-sitter and terminal orchestration decisions, and argument handling.

pub mod interactive;
pub mod executor;
pub mod tmux_orchestration;
pub mod cli;
