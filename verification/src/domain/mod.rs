pub mod rows;
pub mod state;

pub use rows::{Focus, TreeRow, TreeRowKind};
pub use state::{
    ClientName, ClientNode, DomainState, SessionId, SessionNode, SessionState, WindowAlert,
    WindowId, WindowState, WinlinkKey,
};
