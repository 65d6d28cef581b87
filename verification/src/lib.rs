//! Session-tree model, tmux output parsing, hook planning and sidecar
//! reconciliation logic for a tmux session manager.
pub mod text;
pub mod path;
pub mod input;
pub mod order;
pub mod domain;
pub mod model;
pub mod projection;
pub mod ipc;
pub mod cli;
pub mod query;
pub mod tmux;
pub mod server;
pub mod ui;
pub mod controls;
pub mod client;
