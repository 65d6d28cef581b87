//! The messages that the UI, hook and control clients exchange with the sidecar
//! daemon, and the files that the daemon keeps next to its socket.
use vstd::prelude::*;

use crate::path::{is_relative_name, join_spec, parent_of, path_join, path_parent};
use crate::text::{hex16, push_char, push_decimal, push_hex16, decimal};

pub use crate::projection::{ProjectionClient, ProjectionSession, ProjectionState, ProjectionWindow};

verus! {

/// Version of the newline-delimited JSON protocol.
pub const PROTOCOL_VERSION: u32 = 2;

#[derive(Debug, Clone, Copy, PartialEq, Eq, Structural)]
pub enum ClientKind {
    Ui,
    Hook,
    Control,
}

/// The tmux hook (or command) that a hook event reports.
#[derive(Debug, Clone, Copy, PartialEq, Eq, Structural)]
pub enum HookName {
    SessionCreated,
    SessionClosed,
    SessionRenamed,
    SessionWindowChanged,
    WindowLinked,
    WindowUnlinked,
    WindowRenamed,
    WindowPaneChanged,
    WindowLayoutChanged,
    AlertActivity,
    AlertBell,
    AlertSilence,
    ClientAttached,
    ClientDetached,
    ClientSessionChanged,
    AfterNewSession,
    AfterNewWindow,
    AfterRenameSession,
    AfterRenameWindow,
    AfterKillPane,
    AfterSelectWindow,
}

#[derive(Debug, Clone, PartialEq, Eq)]
pub struct Hello {
    pub client_kind: ClientKind,
    pub protocol_version: u32,
}

#[derive(Debug, Clone, PartialEq, Eq)]
pub struct HelloAck {
    pub protocol_version: u32,
    pub server_id: String,
}

/// What a tmux hook reports: the event and the ids, index, path, client and
/// time that tmux interpolated into the hook command.
#[derive(Debug, Clone, PartialEq, Eq)]
pub struct HookEvent {
    pub tmux_socket_path: String,
    pub event: HookName,
    pub session_id: Option<String>,
    pub window_id: Option<String>,
    pub window_index: Option<u32>,
    pub pane_id: Option<String>,
    pub pane_current_path: Option<String>,
    pub client_name: Option<String>,
    pub timestamp_ms: Option<u64>,
}

#[derive(Debug, Clone, Default, PartialEq, Eq)]
pub struct Subscribe {
    pub target_client: Option<String>,
}

#[derive(Debug, Clone, PartialEq, Eq)]
pub struct ActionRequest {
    pub request_id: String,
    pub target_client: Option<String>,
    pub action: Action,
}

#[derive(Debug, Clone, PartialEq, Eq)]
pub enum Action {
    SwitchSession { session_id: String },
    SwitchWindow { session_id: String, window_id: String },
    CreateSession { name: Option<String> },
    CreateWindow { session_id: String, name: Option<String> },
    RenameSession { session_id: String, name: String },
    RenameWindow { window_id: String, name: String },
    CloseSession { session_id: String },
    CloseWindow { session_id: String, window_id: String },
}

/// The id of the request with sequence number `n`: `req-` and `n` in decimal.
pub open spec fn request_id_text(n: nat) -> Seq<char> {
    seq!['r', 'e', 'q', '-'] + decimal(n)
}

impl ActionRequest {
    /// The request numbered `request_number` (the caller keeps the counter).
    pub fn new(request_number: u64, target_client: Option<String>, action: Action) -> (r: Self)
        ensures
            r.request_id@ == request_id_text(request_number as nat),
            r.target_client == target_client,
            r.action == action,
    {
        let mut request_id = String::new();
        push_char(&mut request_id, 'r');
        push_char(&mut request_id, 'e');
        push_char(&mut request_id, 'q');
        push_char(&mut request_id, '-');
        push_decimal(&mut request_id, request_number);
        assert(request_id@ =~= request_id_text(request_number as nat));
        ActionRequest { request_id, target_client, action }
    }
}

#[derive(Debug, Clone, PartialEq, Eq)]
pub struct ActionResult {
    pub request_id: String,
    /// Projection generation after the action's reconcile attempt.
    pub generation: u64,
    pub result: ActionResultKind,
}

#[derive(Debug, Clone, PartialEq, Eq)]
pub enum ActionResultKind {
    Completed { outcome: Option<ActionOutcome> },
    Error { message: String },
}

#[derive(Debug, Clone, PartialEq, Eq)]
pub enum ActionOutcome {
    CreatedSession { session_id: String },
    CreatedWindow { session_id: String, window_id: String },
}

#[derive(Debug, Clone, PartialEq, Eq)]
pub struct StateUpdated {
    pub generation: u64,
    pub state: ProjectionState,
}

#[derive(Debug, Clone, PartialEq, Eq)]
pub struct Ack {
    pub kind: AckKind,
}

#[derive(Debug, Clone, Copy, PartialEq, Eq, Structural)]
pub enum AckKind {
    HookEvent,
    Shutdown,
}

#[derive(Debug, Clone, PartialEq, Eq)]
pub struct ErrorMessage {
    pub message: String,
}

/// A client-to-server message.
#[derive(Debug, Clone, PartialEq, Eq)]
pub enum ClientMessage {
    Hello(Hello),
    HookEvent(HookEvent),
    Subscribe(Subscribe),
    ActionRequest(ActionRequest),
    SnapshotRequest,
    Shutdown,
}

/// A server-to-client message.
#[derive(Debug, Clone, PartialEq, Eq)]
pub enum ServerMessage {
    HelloAck(HelloAck),
    Ack(Ack),
    StateUpdated(StateUpdated),
    ActionResult(ActionResult),
    Error(ErrorMessage),
}

/// The files of the daemon that serves one tmux socket.
#[derive(Debug, Clone, PartialEq, Eq)]
pub struct SidecarPaths {
    pub runtime_dir: String,
    pub socket_path: String,
    pub lock_path: String,
    pub pid_path: String,
}

pub const FNV_OFFSET: u64 = 0xcbf2_9ce4_8422_2325;

pub const FNV_PRIME: u64 = 0x0000_0100_0000_01b3;

/// 64-bit FNV-1a over the first `n` bytes.
pub open spec fn fnv1a(bytes: Seq<u8>, n: nat) -> u64
    decreases n,
{
    if n == 0 {
        FNV_OFFSET
    } else {
        (fnv1a(bytes, (n - 1) as nat) ^ (bytes[n - 1] as u64)).wrapping_mul(FNV_PRIME)
    }
}

/// The name of the directory that holds the daemon files.
pub open spec fn sidecar_dir_name() -> Seq<char> {
    seq!['t', 'm', 'u', 'x', '-', 's', 'i', 'd', 'e', 'c', 'a', 'r']
}

/// The common stem of the daemon file names: the FNV-1a digest of the tmux
/// socket path's UTF-8 bytes, as 16 hexadecimal digits.
pub open spec fn file_stem(tmux_socket_path: Seq<char>) -> Seq<char> {
    hex16(fnv1a(vstd::utf8::encode_utf8(tmux_socket_path), vstd::utf8::encode_utf8(tmux_socket_path).len()))
}

/// The directory of the daemon files: `tmux-sidecar` under the runtime root, or
/// else under the directory of the tmux socket (the current directory when the
/// socket path has none).
pub open spec fn runtime_dir_of(tmux_socket_path: Seq<char>, runtime_root: Option<Seq<char>>) -> Seq<char> {
    let base = match runtime_root {
        Some(root) => root,
        None => match path_parent(tmux_socket_path) {
            Some(parent) => parent,
            None => seq!['.'],
        },
    };
    join_spec(base, sidecar_dir_name())
}

fn stable_path_digest(tmux_socket_path: &str) -> (d: u64)
    ensures
        d == fnv1a(vstd::utf8::encode_utf8(tmux_socket_path@), vstd::utf8::encode_utf8(tmux_socket_path@).len()),
{
    let bytes = tmux_socket_path.as_bytes();
    let mut digest: u64 = FNV_OFFSET;
    let mut i: usize = 0;
    while i < bytes.len()
        invariant
            i <= bytes@.len(),
            bytes@ == vstd::utf8::encode_utf8(tmux_socket_path@),
            digest == fnv1a(bytes@, i as nat),
        decreases bytes@.len() - i,
    {
        digest = (digest ^ (bytes[i] as u64)).wrapping_mul(FNV_PRIME);
        i = i + 1;
    }
    digest
}

fn dir_name() -> (s: String)
    ensures
        s@ == sidecar_dir_name(),
{
    let mut s = String::new();
    push_char(&mut s, 't');
    push_char(&mut s, 'm');
    push_char(&mut s, 'u');
    push_char(&mut s, 'x');
    push_char(&mut s, '-');
    push_char(&mut s, 's');
    push_char(&mut s, 'i');
    push_char(&mut s, 'd');
    push_char(&mut s, 'e');
    push_char(&mut s, 'c');
    push_char(&mut s, 'a');
    push_char(&mut s, 'r');
    assert(s@ =~= sidecar_dir_name());
    s
}

/// `stem` followed by `.` and the three characters `a`, `b`, `c`.
fn file_name(stem: &String, a: char, b: char, c: char) -> (s: String)
    ensures
        s@ == stem@ + seq!['.', a, b, c],
{
    let mut s = stem.clone();
    push_char(&mut s, '.');
    push_char(&mut s, a);
    push_char(&mut s, b);
    push_char(&mut s, c);
    assert(s@ =~= stem@ + seq!['.', a, b, c]);
    s
}

fn file_name4(stem: &String, a: char, b: char, c: char, d: char) -> (s: String)
    ensures
        s@ == stem@ + seq!['.', a, b, c, d],
{
    let mut s = file_name(stem, a, b, c);
    push_char(&mut s, d);
    assert(s@ =~= stem@ + seq!['.', a, b, c, d]);
    s
}

impl SidecarPaths {
    /// The daemon files for a tmux socket, using `xdg_runtime_dir` as the runtime
    /// root when it is an absolute path.
    pub fn from_tmux_socket_path(tmux_socket_path: &str, xdg_runtime_dir: Option<&str>) -> (p: Self)
        ensures
            Self::holds_paths_for(
                p,
                tmux_socket_path@,
                match xdg_runtime_dir {
                    Some(root) => if root@.len() > 0 && root@[0] == '/' { Some(root@) } else { None },
                    None => None,
                },
            ),
    {
        let root = match xdg_runtime_dir {
            Some(root) => if crate::path::is_absolute(root) { Some(root) } else { None },
            None => None,
        };
        Self::from_runtime_dir(tmux_socket_path, root)
    }

    /// `p` holds the daemon files for the tmux socket and runtime root: the runtime
    /// directory, and in it the socket, lock and pid files named by the stem.
    pub open spec fn holds_paths_for(p: Self, tmux_socket_path: Seq<char>, runtime_root: Option<Seq<char>>) -> bool {
        let dir = runtime_dir_of(tmux_socket_path, runtime_root);
        let stem = file_stem(tmux_socket_path);
        &&& p.runtime_dir@ == dir
        &&& p.socket_path@ == join_spec(dir, stem + seq!['.', 's', 'o', 'c', 'k'])
        &&& p.lock_path@ == join_spec(dir, stem + seq!['.', 'l', 'o', 'c', 'k'])
        &&& p.pid_path@ == join_spec(dir, stem + seq!['.', 'p', 'i', 'd'])
    }

    pub fn from_runtime_dir(tmux_socket_path: &str, runtime_root: Option<&str>) -> (p: Self)
        ensures
            Self::holds_paths_for(
                p,
                tmux_socket_path@,
                match runtime_root {
                    Some(root) => Some(root@),
                    None => None,
                },
            ),
    {
        let name = dir_name();
        let runtime_dir = match runtime_root {
            Some(root) => path_join(root, name.as_str()),
            None => {
                let parent = match parent_of(tmux_socket_path) {
                    Some(parent) => parent,
                    None => {
                        let mut dot = String::new();
                        push_char(&mut dot, '.');
                        assert(dot@ =~= seq!['.']);
                        dot
                    },
                };
                path_join(parent.as_str(), name.as_str())
            },
        };
        let digest = stable_path_digest(tmux_socket_path);
        let mut stem = String::new();
        push_hex16(&mut stem, digest);
        assert(stem@ =~= file_stem(tmux_socket_path@));
        proof {
            let n0 = crate::text::nibble(digest, 0);
            assert(n0 < 16) by (bit_vector)
                requires
                    n0 == (digest >> 60u64) & 0xf,
            ;
            assert(stem@[0] == crate::text::hex_digit(n0 as int));
        }
        assert(stem@[0] != '/');
        let socket_name = file_name4(&stem, 's', 'o', 'c', 'k');
        let lock_name = file_name4(&stem, 'l', 'o', 'c', 'k');
        let pid_name = file_name(&stem, 'p', 'i', 'd');
        let socket_path = path_join(runtime_dir.as_str(), socket_name.as_str());
        let lock_path = path_join(runtime_dir.as_str(), lock_name.as_str());
        let pid_path = path_join(runtime_dir.as_str(), pid_name.as_str());
        SidecarPaths { runtime_dir, socket_path, lock_path, pid_path }
    }
}

} // verus!
