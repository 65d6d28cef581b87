//! The protocol of one client connection: a hello first, then hook events,
//! subscriptions, snapshot and action requests, until a shutdown. The socket
//! work is the caller's; each message here gives the step to take.
use vstd::prelude::*;

use crate::ipc::{ClientMessage, ErrorMessage};
use crate::path::{path_equiv, paths_equal};
use crate::text::{push_str, to_owned_string};

verus! {

/// What a connection has been through: its hello, and its subscription.
#[derive(Debug, Clone, Copy, Default, PartialEq, Eq, Structural)]
pub struct ConnectionState {
    pub hello_complete: bool,
    pub subscribed: bool,
}

/// What the daemon does with one client message.
#[derive(Debug, Clone, PartialEq, Eq)]
pub enum ConnectionStep {
    /// Answer the hello with the protocol version.
    AcknowledgeHello,
    /// Send the error and keep reading.
    Reject(String),
    /// Send the error and close the connection.
    RejectAndClose(String),
    /// Handle the hook event, then acknowledge it.
    HandleHook,
    /// Register the connection as a subscriber and send it the current state.
    Subscribe,
    /// Send the current state to a connection that already subscribes.
    SendCurrentState,
    /// Refresh from tmux and send the state.
    RefreshSnapshot,
    /// Run the action request and send its result.
    RunAction,
    /// Shut the daemon down, acknowledge, and close the connection.
    Shutdown,
}

/// `step` is what a connection in state `s` does with `message` on the daemon
/// of tmux socket `socket`, and `after` the state it is left in: a hello must
/// come first and only once, hook events must name this daemon's socket, and
/// the first subscription registers while later ones only get the state.
pub open spec fn step_taken(
    s: ConnectionState,
    message: ClientMessage,
    socket: Seq<char>,
    step: ConnectionStep,
    after: ConnectionState,
) -> bool {
    if !s.hello_complete {
        match message {
            ClientMessage::Hello(_) => step == ConnectionStep::AcknowledgeHello && after == ConnectionState {
                hello_complete: true,
                ..s
            },
            _ => after == s && (step matches ConnectionStep::RejectAndClose(m) && m@
                == "expected hello before any other IPC message"@),
        }
    } else {
        match message {
            ClientMessage::Hello(_) => after == s && (step matches ConnectionStep::Reject(m) && m@
                == "duplicate hello is not allowed"@),
            ClientMessage::HookEvent(e) => after == s && if path_equiv(e.tmux_socket_path@, socket) {
                step == ConnectionStep::HandleHook
            } else {
                (step matches ConnectionStep::Reject(m) && m@ == "hook event tmux socket path did not match this server"@)
            },
            ClientMessage::Subscribe(_) => if s.subscribed {
                step == ConnectionStep::SendCurrentState && after == s
            } else {
                step == ConnectionStep::Subscribe && after == ConnectionState { subscribed: true, ..s }
            },
            ClientMessage::SnapshotRequest => step == ConnectionStep::RefreshSnapshot && after == s,
            ClientMessage::ActionRequest(_) => step == ConnectionStep::RunAction && after == s,
            ClientMessage::Shutdown => step == ConnectionStep::Shutdown && after == s,
        }
    }
}

impl ConnectionState {
    /// A connection that has sent nothing yet.
    pub fn new() -> (s: Self)
        ensures
            !s.hello_complete,
            !s.subscribed,
    {
        ConnectionState { hello_complete: false, subscribed: false }
    }

    /// The step for one client message.
    pub fn on_message(&mut self, message: &ClientMessage, tmux_socket_path: &str) -> (step: ConnectionStep)
        ensures
            step_taken(*old(self), *message, tmux_socket_path@, step, *final(self)),
    {
        if !self.hello_complete {
            return match message {
                ClientMessage::Hello(_) => {
                    self.hello_complete = true;
                    ConnectionStep::AcknowledgeHello
                },
                _ => ConnectionStep::RejectAndClose(to_owned_string("expected hello before any other IPC message")),
            };
        }
        match message {
            ClientMessage::Hello(_) => ConnectionStep::Reject(to_owned_string("duplicate hello is not allowed")),
            ClientMessage::HookEvent(event) => {
                if paths_equal(event.tmux_socket_path.as_str(), tmux_socket_path) {
                    ConnectionStep::HandleHook
                } else {
                    ConnectionStep::Reject(to_owned_string("hook event tmux socket path did not match this server"))
                }
            },
            ClientMessage::Subscribe(_) => {
                if self.subscribed {
                    ConnectionStep::SendCurrentState
                } else {
                    self.subscribed = true;
                    ConnectionStep::Subscribe
                }
            },
            ClientMessage::SnapshotRequest => ConnectionStep::RefreshSnapshot,
            ClientMessage::ActionRequest(_) => ConnectionStep::RunAction,
            ClientMessage::Shutdown => ConnectionStep::Shutdown,
        }
    }
}

/// The error sent when a snapshot request could not refresh the state.
pub fn refresh_failure(chain: &str) -> (e: ErrorMessage)
    ensures
        e.message@ == "failed to refresh state: "@ + chain@,
{
    let mut message = to_owned_string("failed to refresh state: ");
    push_str(&mut message, chain);
    ErrorMessage { message }
}

/// The error sent when an action request could not be processed.
pub fn action_request_failure(chain: &str) -> (e: ErrorMessage)
    ensures
        e.message@ == "failed to process action request: "@ + chain@,
{
    let mut message = to_owned_string("failed to process action request: ");
    push_str(&mut message, chain);
    ErrorMessage { message }
}

} // verus!
