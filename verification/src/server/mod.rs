//! The sidecar daemon's decisions: what hook events make stale, how bell
//! alerts are kept and cleared, which working directory a new window gets, how
//! actions run against tmux and when their effect shows.
pub mod scopes;
pub mod effects;
pub mod bells;
pub mod workdirs;
pub mod actions;
pub mod daemon;
pub mod connection;
