//! Assembling a tmux snapshot from the records of `list-sessions`,
//! `list-windows -a` and `list-clients`, and turning it into a `TmuxState`.
use vstd::prelude::*;

use crate::domain::state::{clone_opt_string, ClientName, WindowAlert};
use crate::model::{Client, Session, TmuxState, Window};
use crate::order::{all_positions, positions_upto, sort_positions, sort_positions_exec, usize_seq_as_int, KeyOrder};
use crate::text::{push_str, str_eq, to_owned_string};
use super::TmuxError;
use super::parse::{
    client_views, clients_spec, opt_view, parse_clients, parse_sessions, parse_windows, session_views, sessions_spec,
    window_views, windows_spec, ClientRecord, ClientRecordView, ParseErrorView, SessionRecord, SessionRecordView,
    WindowFlags, WindowRecord, WindowRecordView,
};
use crate::text::lines_spec;

verus! {

/// The sessions (each with its windows and attached clients) and the clients
/// of one tmux snapshot.
#[derive(Debug, Clone, PartialEq, Eq, Default)]
pub struct SnapshotData {
    pub sessions: Vec<SnapshotSession>,
    pub clients: Vec<ClientRecord>,
}

#[derive(Debug, Clone, PartialEq, Eq)]
pub struct SnapshotSession {
    pub id: String,
    pub name: String,
    pub attached_count: u32,
    pub active_window_id: Option<String>,
    pub attached_clients: Vec<ClientName>,
    pub windows: Vec<SnapshotWindow>,
}

#[derive(Debug, PartialEq, Eq)]
pub struct SnapshotWindow {
    pub id: String,
    pub index: u32,
    pub name: String,
    pub active: bool,
    pub flags: WindowFlags,
}

fn clone_flags(f: &WindowFlags) -> (r: WindowFlags)
    ensures
        r == *f,
{
    WindowFlags { raw: f.raw.clone(), has_activity: f.has_activity, has_bell: f.has_bell, has_silence: f.has_silence }
}

impl Clone for SnapshotWindow {
    fn clone(&self) -> (r: Self)
        ensures
            r == *self,
    {
        SnapshotWindow {
            id: self.id.clone(),
            index: self.index,
            name: self.name.clone(),
            active: self.active,
            flags: clone_flags(&self.flags),
        }
    }
}

impl KeyOrder for SnapshotWindow {
    open spec fn key_lt(&self, other: &Self) -> bool {
        self.index < other.index
    }

    fn key_less(&self, other: &Self) -> (r: bool) {
        self.index < other.index
    }
}

/// The snapshot window of a window record.
pub open spec fn snapshot_window(w: WindowRecord) -> SnapshotWindow {
    SnapshotWindow { id: w.id, index: w.index, name: w.name, active: w.active, flags: w.flags }
}

/// Position of the last session record with id `sid` (a later record with the
/// same id replaces an earlier one), or -1.
pub open spec fn last_session_pos(recs: Seq<SessionRecord>, sid: Seq<char>) -> int
    decreases recs.len(),
{
    if recs.len() == 0 {
        -1
    } else if recs.last().id@ == sid {
        recs.len() - 1
    } else {
        last_session_pos(recs.drop_last(), sid)
    }
}

/// Position of the first of the first `n` window records whose session is not
/// among the session records, or -1.
pub open spec fn first_unknown_window(recs: Seq<SessionRecord>, ws: Seq<WindowRecord>, n: nat) -> int
    decreases n,
{
    if n == 0 {
        -1
    } else {
        let p = first_unknown_window(recs, ws, (n - 1) as nat);
        if p >= 0 {
            p
        } else if last_session_pos(recs, ws[n - 1].session_id@) < 0 {
            n - 1
        } else {
            -1
        }
    }
}

/// The windows of session `i` among the first `n` window records, in order.
pub open spec fn windows_upto(recs: Seq<SessionRecord>, ws: Seq<WindowRecord>, i: int, n: nat) -> Seq<SnapshotWindow>
    decreases n,
{
    if n == 0 {
        Seq::empty()
    } else {
        let prev = windows_upto(recs, ws, i, (n - 1) as nat);
        if last_session_pos(recs, ws[n - 1].session_id@) == i {
            prev.push(snapshot_window(ws[n - 1]))
        } else {
            prev
        }
    }
}

/// The name of session `i` after the first `n` window records: its own name,
/// or, while that is empty, the first non-empty session name a window of it
/// reports.
pub open spec fn name_upto(recs: Seq<SessionRecord>, ws: Seq<WindowRecord>, i: int, n: nat) -> Seq<char>
    decreases n,
{
    if n == 0 {
        recs[i].name@
    } else {
        let prev = name_upto(recs, ws, i, (n - 1) as nat);
        if last_session_pos(recs, ws[n - 1].session_id@) == i && prev.len() == 0 && ws[n - 1].session_name@.len() > 0 {
            ws[n - 1].session_name@
        } else {
            prev
        }
    }
}

/// The active window of session `i` after the first `n` window records: the
/// last of its windows marked active, or else the one its record names.
pub open spec fn active_upto(recs: Seq<SessionRecord>, ws: Seq<WindowRecord>, i: int, n: nat) -> Option<Seq<char>>
    decreases n,
{
    if n == 0 {
        opt_view(recs[i].active_window_id)
    } else if last_session_pos(recs, ws[n - 1].session_id@) == i && ws[n - 1].active {
        Some(ws[n - 1].id@)
    } else {
        active_upto(recs, ws, i, (n - 1) as nat)
    }
}

/// The names of the clients among the first `n` attached to session `i`, each
/// name once, in client order.
pub open spec fn attached_upto(recs: Seq<SessionRecord>, cs: Seq<ClientRecord>, i: int, n: nat) -> Seq<Seq<char>>
    decreases n,
{
    if n == 0 {
        Seq::empty()
    } else {
        let prev = attached_upto(recs, cs, i, (n - 1) as nat);
        if last_session_pos(recs, cs[n - 1].session_id@) == i && !prev.contains(cs[n - 1].name.0@) {
            prev.push(cs[n - 1].name.0@)
        } else {
            prev
        }
    }
}

/// The clients attached to session record `i` are named once each: a name is
/// listed exactly when some client with that name belongs to the session.
pub proof fn law_attached_clients_are_distinct(recs: Seq<SessionRecord>, cs: Seq<ClientRecord>, i: int, n: nat)
    requires
        n <= cs.len(),
    ensures
        attached_upto(recs, cs, i, n).no_duplicates(),
        forall|name: Seq<char>| #[trigger] attached_upto(recs, cs, i, n).contains(name) <==> exists|c: int|
            0 <= c < n && (#[trigger] cs[c]).name.0@ == name && last_session_pos(recs, cs[c].session_id@) == i,
    decreases n,
{
    if n > 0 {
        law_attached_clients_are_distinct(recs, cs, i, (n - 1) as nat);
        let prev = attached_upto(recs, cs, i, (n - 1) as nat);
        let cur = attached_upto(recs, cs, i, n);
        assert forall|name: Seq<char>| #[trigger] cur.contains(name) <==> exists|c: int|
            0 <= c < n && (#[trigger] cs[c]).name.0@ == name && last_session_pos(recs, cs[c].session_id@) == i by {
            if cur.contains(name) {
                if prev.contains(name) {
                    let c = choose|c: int| 0 <= c < n - 1 && (#[trigger] cs[c]).name.0@ == name && last_session_pos(
                        recs,
                        cs[c].session_id@,
                    ) == i;
                } else {
                    let k = choose|k: int| 0 <= k < cur.len() && cur[k] == name;
                    assert(cur[k] == cs[n - 1].name.0@);
                }
            }
            if exists|c: int| 0 <= c < n && (#[trigger] cs[c]).name.0@ == name && last_session_pos(recs, cs[c].session_id@) == i {
                let c = choose|c: int| 0 <= c < n && (#[trigger] cs[c]).name.0@ == name && last_session_pos(
                    recs,
                    cs[c].session_id@,
                ) == i;
                if c < n - 1 {
                    assert(prev.contains(name));
                    let k = choose|k: int| 0 <= k < prev.len() && prev[k] == name;
                    assert(cur[k] == name);
                } else if !prev.contains(name) {
                    assert(cur[cur.len() - 1] == name);
                } else {
                    let k = choose|k: int| 0 <= k < prev.len() && prev[k] == name;
                    assert(cur[k] == name);
                }
            }
        }
    }
}

/// The windows stably sorted by index.
pub open spec fn sorted_windows(raw: Seq<SnapshotWindow>) -> Seq<SnapshotWindow> {
    let ps = sort_positions(raw, all_positions(raw.len()));
    Seq::new(ps.len(), |k: int| raw[ps[k]])
}

pub open spec fn client_names(v: Seq<ClientName>) -> Seq<Seq<char>> {
    v.map_values(|c: ClientName| c.0@)
}

/// `s` is session `i` of the snapshot assembled from the records.
pub open spec fn snapshot_session_of(
    recs: Seq<SessionRecord>,
    ws: Seq<WindowRecord>,
    cs: Seq<ClientRecord>,
    i: int,
    s: SnapshotSession,
) -> bool {
    &&& s.id@ == recs[i].id@
    &&& s.name@ == name_upto(recs, ws, i, ws.len())
    &&& s.attached_count == recs[i].attached_count
    &&& opt_view(s.active_window_id) == active_upto(recs, ws, i, ws.len())
    &&& client_names(s.attached_clients@) == attached_upto(recs, cs, i, cs.len())
    &&& s.windows@ == sorted_windows(windows_upto(recs, ws, i, ws.len()))
}

/// The message of a window whose session is unknown.
pub open spec fn unknown_session_message(w: WindowRecord) -> Seq<char> {
    "window "@ + w.id@ + " references unknown session "@ + w.session_id@
}

/// Position of the last session record with id `sid`.
fn last_session_index(recs: &Vec<SessionRecord>, sid: &str) -> (r: Option<usize>)
    ensures
        match r {
            Some(p) => p as int == last_session_pos(recs@, sid@) && p < recs@.len(),
            None => last_session_pos(recs@, sid@) == -1,
        },
{
    let mut i: usize = recs.len();
    assert(recs@.subrange(0, i as int) == recs@);
    while i > 0
        invariant
            i <= recs@.len(),
            last_session_pos(recs@, sid@) == last_session_pos(recs@.subrange(0, i as int), sid@),
        decreases i,
    {
        let ghost pre = recs@.subrange(0, i as int);
        assert(pre.drop_last() == recs@.subrange(0, i - 1));
        if str_eq(recs[i - 1].id.as_str(), sid) {
            return Some(i - 1);
        }
        i = i - 1;
    }
    assert(recs@.subrange(0, 0) == Seq::<SessionRecord>::empty());
    None
}

fn snapshot_window_of(w: &WindowRecord) -> (s: SnapshotWindow)
    ensures
        s == snapshot_window(*w),
{
    SnapshotWindow {
        id: w.id.clone(),
        index: w.index,
        name: w.name.clone(),
        active: w.active,
        flags: clone_flags(&w.flags),
    }
}

fn has_client_name(v: &Vec<ClientName>, name: &str) -> (b: bool)
    ensures
        b == client_names(v@).contains(name@),
{
    let mut k: usize = 0;
    while k < v.len()
        invariant
            k <= v@.len(),
            forall|j: int| 0 <= j < k ==> v@[j].0@ != name@,
        decreases v@.len() - k,
    {
        if str_eq(v[k].0.as_str(), name) {
            assert(client_names(v@)[k as int] == name@);
            return true;
        }
        k = k + 1;
    }
    proof {
        if client_names(v@).contains(name@) {
            let j = choose|j: int| 0 <= j < client_names(v@).len() && client_names(v@)[j] == name@;
            assert(v@[j].0@ == name@);
        }
    }
    false
}

/// The session of the snapshot at position `i`, given the session owning each
/// window and each client.
fn assemble_session(
    recs: &Vec<SessionRecord>,
    ws: &Vec<WindowRecord>,
    cs: &Vec<ClientRecord>,
    window_owner: &Vec<usize>,
    client_owner: &Vec<Option<usize>>,
    i: usize,
) -> (s: SnapshotSession)
    requires
        i < recs@.len(),
        window_owner@.len() == ws@.len(),
        forall|j: int| 0 <= j < ws@.len() ==> #[trigger] window_owner@[j] as int == last_session_pos(recs@, ws@[j].session_id@),
        client_owner@.len() == cs@.len(),
        forall|j: int| 0 <= j < cs@.len() ==> match #[trigger] client_owner@[j] {
            Some(p) => p as int == last_session_pos(recs@, cs@[j].session_id@),
            None => last_session_pos(recs@, cs@[j].session_id@) == -1,
        },
    ensures
        snapshot_session_of(recs@, ws@, cs@, i as int, s),
{
    let rec = &recs[i];
    let mut name = rec.name.clone();
    let mut active = clone_opt_string(&rec.active_window_id);
    let mut raw: Vec<SnapshotWindow> = Vec::new();
    let mut j: usize = 0;
    while j < ws.len()
        invariant
            i < recs@.len(),
            j <= ws@.len(),
            window_owner@.len() == ws@.len(),
            forall|k: int| 0 <= k < ws@.len() ==> #[trigger] window_owner@[k] as int == last_session_pos(recs@, ws@[k].session_id@),
            name@ == name_upto(recs@, ws@, i as int, j as nat),
            opt_view(active) == active_upto(recs@, ws@, i as int, j as nat),
            raw@ == windows_upto(recs@, ws@, i as int, j as nat),
        decreases ws@.len() - j,
    {
        let w = &ws[j];
        if window_owner[j] == i {
            if name.unicode_len() == 0 && w.session_name.unicode_len() > 0 {
                name = w.session_name.clone();
            }
            if w.active {
                active = Some(w.id.clone());
            }
            raw.push(snapshot_window_of(w));
        }
        j = j + 1;
    }
    let mut attached: Vec<ClientName> = Vec::new();
    let mut c: usize = 0;
    while c < cs.len()
        invariant
            c <= cs@.len(),
            client_owner@.len() == cs@.len(),
            forall|k: int| 0 <= k < cs@.len() ==> match #[trigger] client_owner@[k] {
                Some(p) => p as int == last_session_pos(recs@, cs@[k].session_id@),
                None => last_session_pos(recs@, cs@[k].session_id@) == -1,
            },
            client_names(attached@) == attached_upto(recs@, cs@, i as int, c as nat),
        decreases cs@.len() - c,
    {
        let owned = match client_owner[c] {
            Some(p) => p == i,
            None => false,
        };
        if owned && !has_client_name(&attached, cs[c].name.0.as_str()) {
            attached.push(ClientName(cs[c].name.0.clone()));
            assert(client_names(attached@) =~= attached_upto(recs@, cs@, i as int, (c + 1) as nat));
        }
        c = c + 1;
    }
    let order = sort_positions_exec(raw.as_slice(), &positions_upto(raw.len()));
    let mut windows: Vec<SnapshotWindow> = Vec::new();
    let mut k: usize = 0;
    while k < order.len()
        invariant
            k <= order@.len(),
            order@.len() == raw@.len(),
            usize_seq_as_int(order@) == sort_positions(raw@, all_positions(raw@.len())),
            forall|q: int| 0 <= q < order@.len() ==> #[trigger] order@[q] < raw@.len(),
            windows@.len() == k,
            forall|q: int| 0 <= q < k ==> #[trigger] windows@[q] == raw@[order@[q] as int],
        decreases order@.len() - k,
    {
        windows.push(raw[order[k]].clone());
        k = k + 1;
    }
    proof {
        let ps = sort_positions(raw@, all_positions(raw@.len()));
        assert forall|q: int| 0 <= q < windows@.len() implies windows@[q] == raw@[ps[q]] by {
            assert(usize_seq_as_int(order@)[q] == order@[q] as int);
        }
        assert(windows@ =~= sorted_windows(raw@));
    }
    SnapshotSession {
        id: rec.id.clone(),
        name,
        attached_count: rec.attached_count,
        active_window_id: active,
        attached_clients: attached,
        windows,
    }
}

/// Assembles the snapshot: each window goes to the last session record with
/// its session id (filling in an empty session name and the active window),
/// each client is attached to its session once, and every session's windows
/// are stably sorted by index. A window of an unknown session is an error.
pub fn assemble_snapshot(
    session_records: &Vec<SessionRecord>,
    window_records: &Vec<WindowRecord>,
    clients: Vec<ClientRecord>,
) -> (r: Result<SnapshotData, TmuxError>)
    ensures
        ({
            let bad = first_unknown_window(session_records@, window_records@, window_records@.len());
            match r {
                Err(e) => {
                    &&& bad >= 0
                    &&& e matches TmuxError::SnapshotInvariant(m)
                    &&& m@ == unknown_session_message(window_records@[bad])
                },
                Ok(d) => {
                    &&& bad == -1
                    &&& d.clients == clients
                    &&& d.sessions@.len() == session_records@.len()
                    &&& forall|i: int| 0 <= i < d.sessions@.len() ==> snapshot_session_of(
                        session_records@,
                        window_records@,
                        clients@,
                        i,
                        #[trigger] d.sessions@[i],
                    )
                },
            }
        }),
{
    let mut window_owner: Vec<usize> = Vec::new();
    let mut j: usize = 0;
    while j < window_records.len()
        invariant
            j <= window_records@.len(),
            window_owner@.len() == j,
            first_unknown_window(session_records@, window_records@, j as nat) == -1,
            forall|k: int| 0 <= k < j ==> #[trigger] window_owner@[k] as int == last_session_pos(
                session_records@,
                window_records@[k].session_id@,
            ),
        decreases window_records@.len() - j,
    {
        let w = &window_records[j];
        match last_session_index(session_records, w.session_id.as_str()) {
            Some(p) => {
                window_owner.push(p);
            },
            None => {
                let mut message = to_owned_string("window ");
                push_str(&mut message, w.id.as_str());
                push_str(&mut message, " references unknown session ");
                push_str(&mut message, w.session_id.as_str());
                proof {
                    assert(first_unknown_window(session_records@, window_records@, (j + 1) as nat) == j);
                    lemma_first_unknown_stays(session_records@, window_records@, (j + 1) as nat, window_records@.len());
                }
                return Err(TmuxError::SnapshotInvariant(message));
            },
        }
        j = j + 1;
    }
    let mut client_owner: Vec<Option<usize>> = Vec::new();
    let mut c: usize = 0;
    while c < clients.len()
        invariant
            c <= clients@.len(),
            client_owner@.len() == c,
            forall|k: int| 0 <= k < c ==> match #[trigger] client_owner@[k] {
                Some(p) => p as int == last_session_pos(session_records@, clients@[k].session_id@),
                None => last_session_pos(session_records@, clients@[k].session_id@) == -1,
            },
        decreases clients@.len() - c,
    {
        client_owner.push(last_session_index(session_records, clients[c].session_id.as_str()));
        c = c + 1;
    }
    let mut sessions: Vec<SnapshotSession> = Vec::new();
    let mut i: usize = 0;
    while i < session_records.len()
        invariant
            i <= session_records@.len(),
            sessions@.len() == i,
            window_owner@.len() == window_records@.len(),
            forall|k: int| 0 <= k < window_records@.len() ==> #[trigger] window_owner@[k] as int == last_session_pos(
                session_records@,
                window_records@[k].session_id@,
            ),
            client_owner@.len() == clients@.len(),
            forall|k: int| 0 <= k < clients@.len() ==> match #[trigger] client_owner@[k] {
                Some(p) => p as int == last_session_pos(session_records@, clients@[k].session_id@),
                None => last_session_pos(session_records@, clients@[k].session_id@) == -1,
            },
            forall|q: int| 0 <= q < i ==> snapshot_session_of(
                session_records@,
                window_records@,
                clients@,
                q,
                #[trigger] sessions@[q],
            ),
        decreases session_records@.len() - i,
    {
        sessions.push(assemble_session(session_records, window_records, &clients, &window_owner, &client_owner, i));
        i = i + 1;
    }
    Ok(SnapshotData { sessions, clients })
}

proof fn lemma_first_unknown_stays(recs: Seq<SessionRecord>, ws: Seq<WindowRecord>, n: nat, m: nat)
    requires
        n <= m,
        first_unknown_window(recs, ws, n) >= 0,
    ensures
        first_unknown_window(recs, ws, m) == first_unknown_window(recs, ws, n),
    decreases m - n,
{
    if n < m {
        lemma_first_unknown_stays(recs, ws, n, (m - 1) as nat);
    }
}

/// The session records of `list-sessions` output; none is an error.
pub fn session_records_from_output(output: &str) -> (r: Result<Vec<SessionRecord>, TmuxError>)
    ensures
        match sessions_spec(lines_spec(output@), lines_spec(output@).len()) {
            Err(e) => {
                &&& r matches Err(TmuxError::Parse { command, source })
                &&& command@ == "list-sessions"@
                &&& source@ == e
            },
            Ok(v) => if v.len() == 0 {
                r == Err::<Vec<SessionRecord>, TmuxError>(TmuxError::NoSessions)
            } else {
                &&& r matches Ok(recs)
                &&& session_views(recs@) == v
            },
        },
{
    match parse_sessions(output) {
        Err(source) => Err(TmuxError::Parse { command: "list-sessions", source }),
        Ok(records) => {
            if records.len() == 0 {
                Err(TmuxError::NoSessions)
            } else {
                Ok(records)
            }
        },
    }
}

/// The window records of `list-windows -a` output.
pub fn window_records_from_output(output: &str) -> (r: Result<Vec<WindowRecord>, TmuxError>)
    ensures
        match windows_spec(lines_spec(output@), lines_spec(output@).len()) {
            Err(e) => {
                &&& r matches Err(TmuxError::Parse { command, source })
                &&& command@ == "list-windows"@
                &&& source@ == e
            },
            Ok(v) => {
                &&& r matches Ok(recs)
                &&& window_views(recs@) == v
            },
        },
{
    match parse_windows(output) {
        Err(source) => Err(TmuxError::Parse { command: "list-windows", source }),
        Ok(records) => Ok(records),
    }
}

/// The client records of `list-clients` output.
pub fn client_records_from_output(output: &str) -> (r: Result<Vec<ClientRecord>, TmuxError>)
    ensures
        match clients_spec(lines_spec(output@), lines_spec(output@).len()) {
            Err(e) => {
                &&& r matches Err(TmuxError::Parse { command, source })
                &&& command@ == "list-clients"@
                &&& source@ == e
            },
            Ok(v) => {
                &&& r matches Ok(recs)
                &&& client_views(recs@) == v
            },
        },
{
    match parse_clients(output) {
        Err(source) => Err(TmuxError::Parse { command: "list-clients", source }),
        Ok(records) => Ok(records),
    }
}

/// The model window of a snapshot window: its raw flags kept, the bell alert
/// they announce, their activity and silence indicators, and no activity time.
pub open spec fn window_of_snapshot(r: Window, w: SnapshotWindow) -> bool {
    &&& r.id == w.id
    &&& r.index == w.index
    &&& r.name == w.name
    &&& r.active == w.active
    &&& r.flags == w.flags.raw
    &&& r.alert == (if w.flags.raw@.contains('!') { WindowAlert::Bell } else { WindowAlert::Clear })
    &&& r.activity == 0
    &&& r.activity_flag == w.flags.has_activity
    &&& r.silence_flag == w.flags.has_silence
}

/// The model session of a snapshot session: attached at least as often as it
/// has attached clients.
pub open spec fn session_of_snapshot(r: Session, s: SnapshotSession) -> bool {
    &&& r.id == s.id
    &&& r.name == s.name
    &&& r.attached_count == (if s.attached_count >= (s.attached_clients@.len() as u32) {
        s.attached_count
    } else {
        s.attached_clients@.len() as u32
    })
    &&& r.active_window_id == s.active_window_id
    &&& r.windows@.len() == s.windows@.len()
    &&& forall|k: int| 0 <= k < s.windows@.len() ==> window_of_snapshot(#[trigger] r.windows@[k], s.windows@[k])
}

/// A session's attached count is the larger of what tmux reported and the
/// number of clients found attached to it: at least each of them, and equal
/// to one of them (never their sum).
pub proof fn law_attached_count_is_the_larger(r: Session, s: SnapshotSession)
    requires
        session_of_snapshot(r, s),
    ensures
        r.attached_count >= s.attached_count,
        r.attached_count >= s.attached_clients@.len() as u32,
        r.attached_count == s.attached_count || r.attached_count == s.attached_clients@.len() as u32,
{
}

/// A session of the snapshot keeps its id, name and active window, and its
/// windows in order with their ids, indexes, names and active marks; a window
/// carries the bell alert exactly when its flags hold `!`, and no other alert.
pub proof fn law_snapshot_session_keeps_its_fields(r: Session, s: SnapshotSession)
    requires
        session_of_snapshot(r, s),
    ensures
        r.id == s.id,
        r.name == s.name,
        r.active_window_id == s.active_window_id,
        r.windows@.len() == s.windows@.len(),
        forall|k: int| 0 <= k < s.windows@.len() ==> {
            let (x, w) = (#[trigger] r.windows@[k], s.windows@[k]);
            &&& x.id == w.id && x.index == w.index && x.name == w.name && x.active == w.active
            &&& (x.alert == WindowAlert::Bell <==> w.flags.raw@.contains('!'))
            &&& (x.alert == WindowAlert::Bell || x.alert == WindowAlert::Clear)
        },
{
    assert forall|k: int| 0 <= k < s.windows@.len() implies {
        let (x, w) = (#[trigger] r.windows@[k], s.windows@[k]);
        &&& x.id == w.id && x.index == w.index && x.name == w.name && x.active == w.active
        &&& (x.alert == WindowAlert::Bell <==> w.flags.raw@.contains('!'))
        &&& (x.alert == WindowAlert::Bell || x.alert == WindowAlert::Clear)
    } by {
        assert(window_of_snapshot(r.windows@[k], s.windows@[k]));
    }
}

/// The model client of a client record.
pub open spec fn client_of_record(r: Client, c: ClientRecord) -> bool {
    &&& r.name == c.name
    &&& r.session_id == c.session_id
    &&& r.current_window_id == c.current_window_id
    &&& r.activity == c.activity
    &&& r.tty == c.tty
}

fn window_from_snapshot(w: &SnapshotWindow) -> (r: Window)
    ensures
        window_of_snapshot(r, *w),
{
    let flags = w.flags.raw.clone();
    Window {
        id: w.id.clone(),
        index: w.index,
        name: w.name.clone(),
        active: w.active,
        alert: WindowAlert::from_flags(flags.as_str()),
        flags,
        activity: 0,
        activity_flag: w.flags.has_activity,
        silence_flag: w.flags.has_silence,
    }
}

fn session_from_snapshot(s: &SnapshotSession) -> (r: Session)
    ensures
        session_of_snapshot(r, *s),
{
    let mut windows: Vec<Window> = Vec::new();
    let mut k: usize = 0;
    while k < s.windows.len()
        invariant
            k <= s.windows@.len(),
            windows@.len() == k,
            forall|q: int| 0 <= q < k ==> window_of_snapshot(#[trigger] windows@[q], s.windows@[q]),
        decreases s.windows@.len() - k,
    {
        windows.push(window_from_snapshot(&s.windows[k]));
        k = k + 1;
    }
    let clients = s.attached_clients.len() as u32;
    Session {
        id: s.id.clone(),
        name: s.name.clone(),
        attached_count: if s.attached_count >= clients { s.attached_count } else { clients },
        active_window_id: clone_opt_string(&s.active_window_id),
        windows,
    }
}

impl SnapshotData {
    /// The tmux state of the snapshot.
    pub fn into_state(self) -> (t: TmuxState)
        ensures
            t.sessions@.len() == self.sessions@.len(),
            forall|i: int| 0 <= i < self.sessions@.len() ==> session_of_snapshot(#[trigger] t.sessions@[i], self.sessions@[i]),
            forall|i: int| 0 <= i < self.sessions@.len() ==> {
                let (r, x) = (#[trigger] t.sessions@[i], self.sessions@[i]);
                &&& r.attached_count >= x.attached_count
                &&& r.attached_count >= x.attached_clients@.len() as u32
                &&& (r.attached_count == x.attached_count || r.attached_count == x.attached_clients@.len() as u32)
            },
            t.clients@.len() == self.clients@.len(),
            forall|i: int| 0 <= i < self.clients@.len() ==> client_of_record(#[trigger] t.clients@[i], self.clients@[i]),
    {
        let mut sessions: Vec<Session> = Vec::new();
        let mut i: usize = 0;
        while i < self.sessions.len()
            invariant
                i <= self.sessions@.len(),
                sessions@.len() == i,
                forall|q: int| 0 <= q < i ==> session_of_snapshot(#[trigger] sessions@[q], self.sessions@[q]),
            decreases self.sessions@.len() - i,
        {
            sessions.push(session_from_snapshot(&self.sessions[i]));
            i = i + 1;
        }
        let mut clients: Vec<Client> = Vec::new();
        let mut c: usize = 0;
        while c < self.clients.len()
            invariant
                c <= self.clients@.len(),
                clients@.len() == c,
                forall|q: int| 0 <= q < c ==> client_of_record(#[trigger] clients@[q], self.clients@[q]),
            decreases self.clients@.len() - c,
        {
            let r = &self.clients[c];
            clients.push(
                Client {
                    name: ClientName(r.name.0.clone()),
                    session_id: r.session_id.clone(),
                    current_window_id: clone_opt_string(&r.current_window_id),
                    activity: r.activity,
                    tty: r.tty.clone(),
                },
            );
            c = c + 1;
        }
        TmuxState { sessions, clients }
    }
}

} // verus!
