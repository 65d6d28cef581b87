//! What a client of the daemon makes of the daemon's replies, of tmux's answer
//! for its socket path, and of a cached state's version. Connecting, reading
//! and writing are the caller's.
use vstd::prelude::*;

use crate::ipc::{AckKind, ActionResult, ServerMessage, PROTOCOL_VERSION};
use crate::text::{decimal, push_decimal, push_str, to_owned_string};
use crate::tmux::{first_line_value, single_line_value};

verus! {

/// What a reply means to the client that waited for it.
#[derive(Debug, Clone, PartialEq, Eq)]
pub enum ReplyCheck {
    /// The reply that was asked for.
    Accepted,
    /// The daemon refused, with this message.
    Failed(String),
    /// Some other message came back.
    Unexpected,
}

/// The answer to a hello: an acknowledgement of this protocol version; an
/// acknowledgement of another version or an error fails.
pub fn check_handshake(reply: &ServerMessage) -> (c: ReplyCheck)
    ensures
        match *reply {
            ServerMessage::HelloAck(ack) => if ack.protocol_version == PROTOCOL_VERSION {
                c == ReplyCheck::Accepted
            } else {
                c matches ReplyCheck::Failed(m) && m@ == "protocol mismatch: client expects "@ + decimal(
                    PROTOCOL_VERSION as nat,
                ) + ", server replied with "@ + decimal(ack.protocol_version as nat)
            },
            ServerMessage::Error(e) => c == ReplyCheck::Failed(e.message),
            _ => c == ReplyCheck::Unexpected,
        },
{
    match reply {
        ServerMessage::HelloAck(ack) => {
            if ack.protocol_version == PROTOCOL_VERSION {
                ReplyCheck::Accepted
            } else {
                let mut m = to_owned_string("protocol mismatch: client expects ");
                push_decimal(&mut m, PROTOCOL_VERSION as u64);
                push_str(&mut m, ", server replied with ");
                push_decimal(&mut m, ack.protocol_version as u64);
                ReplyCheck::Failed(m)
            }
        },
        ServerMessage::Error(e) => ReplyCheck::Failed(e.message.clone()),
        _ => ReplyCheck::Unexpected,
    }
}

/// The answer to a message that expects the acknowledgement `kind`.
pub fn check_ack(reply: &ServerMessage, kind: AckKind) -> (c: ReplyCheck)
    ensures
        match *reply {
            ServerMessage::Ack(ack) => if ack.kind == kind {
                c == ReplyCheck::Accepted
            } else {
                c == ReplyCheck::Unexpected
            },
            ServerMessage::Error(e) => c == ReplyCheck::Failed(e.message),
            _ => c == ReplyCheck::Unexpected,
        },
{
    match reply {
        ServerMessage::Ack(ack) => {
            if ack.kind == kind {
                ReplyCheck::Accepted
            } else {
                ReplyCheck::Unexpected
            }
        },
        ServerMessage::Error(e) => ReplyCheck::Failed(e.message.clone()),
        _ => ReplyCheck::Unexpected,
    }
}

/// The tmux socket path from the output of `display-message -p
/// '#{socket_path}'`: its first line, trimmed; an empty one is an error.
pub fn socket_path_from_output(output: &str) -> (r: Result<String, String>)
    ensures
        match r {
            Ok(p) => p@ == first_line_value(output@) && p@.len() > 0,
            Err(m) => first_line_value(output@).len() == 0 && m@ == "tmux returned an empty socket path"@,
        },
{
    match single_line_value(output, "display-message") {
        Ok(path) => Ok(path),
        Err(_) => Err(to_owned_string("tmux returned an empty socket path")),
    }
}

/// The version of the state cache this build writes and reads.
pub const CACHE_VERSION: u32 = 1;

/// A cached state is read only when it has this build's version.
pub fn check_cache_version(version: u32, path: &str) -> (r: Result<(), String>)
    ensures
        match r {
            Ok(()) => version == CACHE_VERSION,
            Err(m) => version != CACHE_VERSION && m@ == "unsupported sidecar state cache version "@ + decimal(
                version as nat,
            ) + " in `"@ + path@ + "`"@,
        },
{
    if version == CACHE_VERSION {
        return Ok(());
    }
    let mut m = to_owned_string("unsupported sidecar state cache version ");
    push_decimal(&mut m, version as u64);
    push_str(&mut m, " in `");
    push_str(&mut m, path);
    push_str(&mut m, "`");
    Err(m)
}


/// What a read from the daemon gave: a message, nothing yet (the read timed
/// out), or the end of the connection.
#[derive(Debug, Clone, PartialEq, Eq)]
pub enum ReadStatus {
    Message(ServerMessage),
    Pending,
    Closed,
}

/// What a client waiting for the result of request `request_id` does with
/// what it read.
#[derive(Debug, Clone, PartialEq, Eq)]
pub enum ActionWait {
    /// The result it waited for.
    Done(ActionResult),
    /// Another message: handle it and keep waiting.
    Other(ServerMessage),
    /// Stop waiting with this error.
    Fail(String),
}

/// The step of waiting for the result of request `request_id`: its result
/// ends the wait, another request's result, a timeout or a closed connection
/// fail it, any other message is handled on the way.
pub fn await_action_result(request_id: &str, status: ReadStatus) -> (w: ActionWait)
    ensures
        match status {
            ReadStatus::Message(ServerMessage::ActionResult(r)) => if r.request_id@ == request_id@ {
                w == ActionWait::Done(r)
            } else {
                w matches ActionWait::Fail(m) && m@ == "received unexpected action result `"@ + r.request_id@
                    + "` while waiting for `"@ + request_id@ + "`"@
            },
            ReadStatus::Message(m) => w == ActionWait::Other(m),
            ReadStatus::Pending => w matches ActionWait::Fail(m) && m@ == "timed out waiting for action result `"@
                + request_id@ + "`"@,
            ReadStatus::Closed => w matches ActionWait::Fail(m) && m@ == "sidecar server disconnected"@,
        },
{
    match status {
        ReadStatus::Message(ServerMessage::ActionResult(r)) => {
            if crate::text::str_eq(r.request_id.as_str(), request_id) {
                ActionWait::Done(r)
            } else {
                let mut m = to_owned_string("received unexpected action result `");
                push_str(&mut m, r.request_id.as_str());
                push_str(&mut m, "` while waiting for `");
                push_str(&mut m, request_id);
                push_str(&mut m, "`");
                ActionWait::Fail(m)
            }
        },
        ReadStatus::Message(m) => ActionWait::Other(m),
        ReadStatus::Pending => {
            let mut m = to_owned_string("timed out waiting for action result `");
            push_str(&mut m, request_id);
            push_str(&mut m, "`");
            ActionWait::Fail(m)
        },
        ReadStatus::Closed => ActionWait::Fail(to_owned_string("sidecar server disconnected")),
    }
}

/// The value that `display-message -p` printed for a pane: the output trimmed,
/// none when that is empty.
pub fn pane_value_from_output(output: &str) -> (v: Option<String>)
    ensures
        match v {
            Some(s) => s@ == crate::text::trim_spec(output@) && s@.len() > 0,
            None => crate::text::trim_spec(output@).len() == 0,
        },
{
    let value = crate::text::trim(output);
    if value.unicode_len() == 0 {
        None
    } else {
        Some(value)
    }
}
} // verus!
