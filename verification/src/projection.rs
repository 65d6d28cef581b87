//! The projection of the domain state that the server publishes to clients:
//! sessions in order, each with its windows in order, and the clients.
use vstd::prelude::*;

use crate::domain::state::{
    bell_count, law_bell_count_counts_bells, client_pos, clone_opt_string, session_pos, session_winlink_positions, winlink_pos, find_client, find_session, find_winlink, lemma_client_pos_range,
    lemma_session_pos_range, lemma_winlink_pos_range, ClientName, ClientNode, DomainState, domain_wf,
    sessions_distinct, winlinks_distinct, clients_distinct,
    DomainView, SessionNode, WindowState, WinlinkKey,
};
use crate::model::{
    insert_client, insert_session, insert_winlink, lemma_insert_client_distinct, lemma_insert_session_distinct,
    lemma_insert_winlink_distinct, session_from_domain, client_from_node, TmuxState,
};
use crate::input::min_usize;
use crate::order::{all_positions, lemma_sort_positions_sorted, usize_seq_as_int, KeyOrder};
use crate::text::{text_lt, to_owned_string};

verus! {

#[derive(Debug, Clone, Default, PartialEq, Eq)]
pub struct ProjectionState {
    pub tmux_socket_path: String,
    pub sessions: Vec<ProjectionSession>,
    pub clients: Vec<ProjectionClient>,
}

#[derive(Debug, Clone, PartialEq, Eq)]
pub struct ProjectionSession {
    pub id: String,
    pub name: String,
    pub attached_count: u32,
    pub active_window_id: Option<String>,
    pub windows: Vec<ProjectionWindow>,
}

#[derive(Debug, Clone, PartialEq, Eq)]
pub struct ProjectionWindow {
    pub id: String,
    pub index: u32,
    pub name: String,
    pub active: bool,
    pub activity: u64,
    pub activity_flag: bool,
    pub bell_flag: bool,
    pub silence_flag: bool,
}

#[derive(Debug, Clone, PartialEq, Eq)]
pub struct ProjectionClient {
    pub name: String,
    pub session_id: String,
    pub current_window_id: Option<String>,
    pub activity: u64,
    pub tty: String,
}

/// The domain window that a projected window stands for.
pub open spec fn window_state_of(w: ProjectionWindow) -> WindowState {
    WindowState {
        id: w.id,
        index: w.index,
        name: w.name,
        active: w.active,
        activity: w.activity,
        activity_flag: w.activity_flag,
        bell_flag: w.bell_flag,
        silence_flag: w.silence_flag,
    }
}

/// The domain node of projected session `s` at position `order`.
pub open spec fn session_node_of(s: ProjectionSession, order: usize) -> SessionNode {
    SessionNode {
        id: s.id,
        name: s.name,
        attached_count: s.attached_count,
        active_window_id: s.active_window_id,
        order,
    }
}

/// The domain node of projected client `c` at position `order`.
pub open spec fn client_node_of(c: ProjectionClient, order: usize) -> ClientNode {
    ClientNode {
        name: ClientName(c.name),
        session_id: c.session_id,
        current_window_id: c.current_window_id,
        activity: c.activity,
        tty: c.tty,
        order,
    }
}

/// The winlink key of window `w` of the session with id `sid`.
pub open spec fn key_in(sid: String, w: ProjectionWindow) -> WinlinkKey {
    WinlinkKey { session_id: sid, window_id: w.id }
}

/// The session map after inserting the first `n` projected sessions.
pub open spec fn sessions_upto(ss: Seq<ProjectionSession>, n: nat) -> Seq<SessionNode>
    decreases n,
{
    if n == 0 {
        Seq::empty()
    } else {
        insert_session(sessions_upto(ss, (n - 1) as nat), session_node_of(ss[n - 1], (n - 1) as usize))
    }
}

/// `acc` after inserting the first `m` windows of projected session `s`.
pub open spec fn session_winlinks(
    acc: Seq<(WinlinkKey, WindowState)>,
    s: ProjectionSession,
    m: nat,
) -> Seq<(WinlinkKey, WindowState)>
    decreases m,
{
    if m == 0 {
        acc
    } else {
        let w = s.windows@[m - 1];
        insert_winlink(session_winlinks(acc, s, (m - 1) as nat), key_in(s.id, w), window_state_of(w))
    }
}

/// The winlink map after inserting the windows of the first `n` projected sessions.
pub open spec fn winlinks_upto(ss: Seq<ProjectionSession>, n: nat) -> Seq<(WinlinkKey, WindowState)>
    decreases n,
{
    if n == 0 {
        Seq::empty()
    } else {
        session_winlinks(winlinks_upto(ss, (n - 1) as nat), ss[n - 1], ss[n - 1].windows@.len())
    }
}

/// The client map after inserting the first `n` projected clients.
pub open spec fn clients_upto(cs: Seq<ProjectionClient>, n: nat) -> Seq<ClientNode>
    decreases n,
{
    if n == 0 {
        Seq::empty()
    } else {
        insert_client(clients_upto(cs, (n - 1) as nat), client_node_of(cs[n - 1], (n - 1) as usize))
    }
}

proof fn lemma_projected_sessions_distinct(ss: Seq<ProjectionSession>, n: nat)
    ensures
        sessions_distinct(sessions_upto(ss, n)),
    decreases n,
{
    if n > 0 {
        lemma_projected_sessions_distinct(ss, (n - 1) as nat);
        lemma_insert_session_distinct(sessions_upto(ss, (n - 1) as nat), session_node_of(ss[n - 1], (n - 1) as usize));
    }
}

proof fn lemma_projected_session_winlinks_distinct(acc: Seq<(WinlinkKey, WindowState)>, s: ProjectionSession, m: nat)
    requires
        winlinks_distinct(acc),
    ensures
        winlinks_distinct(session_winlinks(acc, s, m)),
    decreases m,
{
    if m > 0 {
        lemma_projected_session_winlinks_distinct(acc, s, (m - 1) as nat);
        let w = s.windows@[m - 1];
        lemma_insert_winlink_distinct(session_winlinks(acc, s, (m - 1) as nat), key_in(s.id, w), window_state_of(w));
    }
}

proof fn lemma_projected_winlinks_distinct(ss: Seq<ProjectionSession>, n: nat)
    ensures
        winlinks_distinct(winlinks_upto(ss, n)),
    decreases n,
{
    if n > 0 {
        lemma_projected_winlinks_distinct(ss, (n - 1) as nat);
        lemma_projected_session_winlinks_distinct(winlinks_upto(ss, (n - 1) as nat), ss[n - 1], ss[n - 1].windows@.len());
    }
}

proof fn lemma_projected_clients_distinct(cs: Seq<ProjectionClient>, n: nat)
    ensures
        clients_distinct(clients_upto(cs, n)),
    decreases n,
{
    if n > 0 {
        lemma_projected_clients_distinct(cs, (n - 1) as nat);
        lemma_insert_client_distinct(clients_upto(cs, (n - 1) as nat), client_node_of(cs[n - 1], (n - 1) as usize));
    }
}

/// The projected window with the fields of `w`.
pub open spec fn window_from_fields(w: WindowState) -> ProjectionWindow {
    ProjectionWindow {
        id: w.id,
        index: w.index,
        name: w.name,
        active: w.active,
        activity: w.activity,
        activity_flag: w.activity_flag,
        bell_flag: w.bell_flag,
        silence_flag: w.silence_flag,
    }
}

/// `r` is the projection of session `n` of `d`, with its windows in window order.
pub open spec fn session_of_node(r: ProjectionSession, d: DomainView, n: SessionNode) -> bool {
    &&& r.id == n.id
    &&& r.name == n.name
    &&& r.attached_count == n.attached_count
    &&& r.active_window_id == n.active_window_id
    &&& r.windows@.len() == d.window_order(n.id@).len()
    &&& forall|j: int|
        0 <= j < r.windows@.len() ==> #[trigger] r.windows@[j] == window_from_fields(
            d.winlinks[d.window_order(n.id@)[j]].1,
        )
}

/// `r` is the projection of client `n`.
pub open spec fn client_of_node(r: ProjectionClient, n: ClientNode) -> bool {
    r == (ProjectionClient {
        name: n.name.0,
        session_id: n.session_id,
        current_window_id: n.current_window_id,
        activity: n.activity,
        tty: n.tty,
    })
}

/// `r` is the projection of `d`: sessions in session order and clients in client
/// order.
pub open spec fn projection_of(r: ProjectionState, d: DomainView) -> bool {
    &&& r.tmux_socket_path@ == d.tmux_socket_path
    &&& r.sessions@.len() == d.session_order().len()
    &&& forall|k: int|
        0 <= k < r.sessions@.len() ==> session_of_node(#[trigger] r.sessions@[k], d, d.sessions[d.session_order()[k]])
    &&& r.clients@.len() == d.client_order().len()
    &&& forall|k: int|
        0 <= k < r.clients@.len() ==> client_of_node(#[trigger] r.clients@[k], d.clients[d.client_order()[k]])
}

/// Number of windows with a bell among the windows of the first `n` sessions.
pub open spec fn bells_upto(ss: Seq<ProjectionSession>, n: nat) -> nat
    decreases n,
{
    if n == 0 {
        0
    } else {
        bells_upto(ss, (n - 1) as nat) + window_bells(ss[n - 1].windows@, ss[n - 1].windows@.len())
    }
}

/// Number of windows with a bell among the first `m` windows.
pub open spec fn window_bells(ws: Seq<ProjectionWindow>, m: nat) -> nat
    decreases m,
{
    if m == 0 {
        0
    } else {
        window_bells(ws, (m - 1) as nat) + if ws[m - 1].bell_flag { 1nat } else { 0nat }
    }
}

/// `t` is the snapshot that projection `p` stands for: sessions in session
/// order, each with its windows, and clients in client order.
pub open spec fn tmux_of_projection(p: ProjectionState, t: TmuxState) -> bool {
    &&& t.sessions@.len() == p.domain().session_order().len()
    &&& forall|k: int| 0 <= k < t.sessions@.len() ==> session_from_domain(
        #[trigger] t.sessions@[k],
        p.domain(),
        p.domain().sessions[p.domain().session_order()[k]],
    )
    &&& t.clients@.len() == p.domain().client_order().len()
    &&& forall|k: int| 0 <= k < t.clients@.len() ==> client_from_node(
        #[trigger] t.clients@[k],
        p.domain().clients[p.domain().client_order()[k]],
    )
}

impl ProjectionState {
    /// The domain form of the projection: sessions keyed by id, winlinks keyed by
    /// (session, window) and clients keyed by name, a later entry replacing an
    /// earlier one under the same key; each node keeps its position as its order.
    pub open spec fn domain(self) -> DomainView {
        DomainView {
            tmux_socket_path: self.tmux_socket_path@,
            sessions: sessions_upto(self.sessions@, self.sessions@.len()),
            winlinks: winlinks_upto(self.sessions@, self.sessions@.len()),
            clients: clients_upto(self.clients@, self.clients@.len()),
        }
    }

    pub fn empty(tmux_socket_path: &str) -> (p: Self)
        ensures
            p.tmux_socket_path@ == tmux_socket_path@,
            p.sessions@.len() == 0,
            p.clients@.len() == 0,
    {
        ProjectionState { tmux_socket_path: to_owned_string(tmux_socket_path), sessions: Vec::new(), clients: Vec::new() }
    }

    /// The projection of a tmux snapshot taken on the socket `tmux_socket_path`.
    pub fn from_tmux(tmux_socket_path: &str, tmux_state: TmuxState) -> (p: Self)
        ensures
            projection_of(p, DomainView { tmux_socket_path: tmux_socket_path@, ..tmux_state.domain() }),
    {
        let mut state = tmux_state.to_domain_state();
        state.tmux_socket_path = to_owned_string(tmux_socket_path);
        Self::from_domain(&state)
    }

    pub fn from_domain(state: &DomainState) -> (p: Self)
        ensures
            projection_of(p, state@),
    {
        let order = state.session_positions();
        let mut sessions: Vec<ProjectionSession> = Vec::new();
        let mut k: usize = 0;
        while k < order.len()
            invariant
                k <= order@.len(),
                usize_seq_as_int(order@) == state@.session_order(),
                forall|j: int| 0 <= j < order@.len() ==> #[trigger] order@[j] < state.sessions@.len(),
                sessions@.len() == k,
                forall|j: int| 0 <= j < k ==> session_of_node(
                    #[trigger] sessions@[j],
                    state@,
                    state.sessions@[state@.session_order()[j]],
                ),
            decreases order@.len() - k,
        {
            let p = order[k];
            assert(usize_seq_as_int(order@)[k as int] == p as int);
            let node = &state.sessions[p];
            let worder = state.window_positions(node.id.as_str());
            let mut windows: Vec<ProjectionWindow> = Vec::new();
            let mut j: usize = 0;
            while j < worder.len()
                invariant
                    j <= worder@.len(),
                    usize_seq_as_int(worder@) == state@.window_order(node.id@),
                    forall|m: int| 0 <= m < worder@.len() ==> #[trigger] worder@[m] < state.winlinks@.len(),
                    windows@.len() == j,
                    forall|m: int| 0 <= m < j ==> #[trigger] windows@[m] == window_from_fields(
                        state@.winlinks[state@.window_order(node.id@)[m]].1,
                    ),
                decreases worder@.len() - j,
            {
                let q = worder[j];
                assert(usize_seq_as_int(worder@)[j as int] == q as int);
                let w = &state.winlinks[q].1;
                windows.push(ProjectionWindow {
                    id: w.id.clone(),
                    index: w.index,
                    name: w.name.clone(),
                    active: w.active,
                    activity: w.activity,
                    activity_flag: w.activity_flag,
                    bell_flag: w.bell_flag,
                    silence_flag: w.silence_flag,
                });
                j = j + 1;
            }
            sessions.push(ProjectionSession {
                id: node.id.clone(),
                name: node.name.clone(),
                attached_count: node.attached_count,
                active_window_id: clone_opt_string(&node.active_window_id),
                windows,
            });
            k = k + 1;
        }
        let corder = state.client_positions();
        let mut clients: Vec<ProjectionClient> = Vec::new();
        let mut k: usize = 0;
        while k < corder.len()
            invariant
                k <= corder@.len(),
                usize_seq_as_int(corder@) == state@.client_order(),
                forall|j: int| 0 <= j < corder@.len() ==> #[trigger] corder@[j] < state.clients@.len(),
                clients@.len() == k,
                forall|j: int| 0 <= j < k ==> client_of_node(
                    #[trigger] clients@[j],
                    state.clients@[state@.client_order()[j]],
                ),
            decreases corder@.len() - k,
        {
            let p = corder[k];
            assert(usize_seq_as_int(corder@)[k as int] == p as int);
            let node = &state.clients[p];
            clients.push(ProjectionClient {
                name: node.name.0.clone(),
                session_id: node.session_id.clone(),
                current_window_id: clone_opt_string(&node.current_window_id),
                activity: node.activity,
                tty: node.tty.clone(),
            });
            k = k + 1;
        }
        ProjectionState { tmux_socket_path: state.tmux_socket_path.clone(), sessions, clients }
    }

    pub fn to_domain_state(&self) -> (d: DomainState)
        ensures
            d@ == self.domain(),
            domain_wf(d@),
    {
        proof {
            lemma_projected_sessions_distinct(self.sessions@, self.sessions@.len());
            lemma_projected_winlinks_distinct(self.sessions@, self.sessions@.len());
            lemma_projected_clients_distinct(self.clients@, self.clients@.len());
        }
        let mut state = DomainState {
            tmux_socket_path: self.tmux_socket_path.clone(),
            sessions: Vec::new(),
            winlinks: Vec::new(),
            clients: Vec::new(),
        };
        let mut i: usize = 0;
        while i < self.sessions.len()
            invariant
                i <= self.sessions@.len(),
                state.tmux_socket_path@ == self.tmux_socket_path@,
                state.sessions@ == sessions_upto(self.sessions@, i as nat),
                state.winlinks@ == winlinks_upto(self.sessions@, i as nat),
                state.clients@.len() == 0,
            decreases self.sessions@.len() - i,
        {
            let session = &self.sessions[i];
            let node = SessionNode {
                id: session.id.clone(),
                name: session.name.clone(),
                attached_count: session.attached_count,
                active_window_id: clone_opt_string(&session.active_window_id),
                order: i,
            };
            assert(node == session_node_of(self.sessions@[i as int], i));
            match find_session(&state.sessions, session.id.as_str()) {
                Some(p) => {
                    proof { lemma_session_pos_range(state.sessions@, session.id@); }
                    state.sessions.set(p, node);
                },
                None => {
                    state.sessions.push(node);
                },
            }
            assert(state.sessions@ == sessions_upto(self.sessions@, (i + 1) as nat));
            let ghost base = winlinks_upto(self.sessions@, i as nat);
            let mut j: usize = 0;
            while j < session.windows.len()
                invariant
                    j <= session.windows@.len(),
                    i < self.sessions@.len(),
                    *session == self.sessions@[i as int],
                    state.tmux_socket_path@ == self.tmux_socket_path@,
                    state.sessions@ == sessions_upto(self.sessions@, (i + 1) as nat),
                    state.clients@.len() == 0,
                    base == winlinks_upto(self.sessions@, i as nat),
                    state.winlinks@ == session_winlinks(base, *session, j as nat),
                decreases session.windows@.len() - j,
            {
                let window = &session.windows[j];
                let key = WinlinkKey { session_id: session.id.clone(), window_id: window.id.clone() };
                let ws = WindowState {
                    id: window.id.clone(),
                    index: window.index,
                    name: window.name.clone(),
                    active: window.active,
                    activity: window.activity,
                    activity_flag: window.activity_flag,
                    bell_flag: window.bell_flag,
                    silence_flag: window.silence_flag,
                };
                match find_winlink(&state.winlinks, session.id.as_str(), window.id.as_str()) {
                    Some(p) => {
                        proof { lemma_winlink_pos_range(state.winlinks@, session.id@, window.id@); }
                        let k = state.winlinks[p].0.clone();
                        state.winlinks.set(p, (k, ws));
                    },
                    None => {
                        state.winlinks.push((key, ws));
                    },
                }
                j = j + 1;
            }
            i = i + 1;
        }
        let mut c: usize = 0;
        while c < self.clients.len()
            invariant
                c <= self.clients@.len(),
                state.tmux_socket_path@ == self.tmux_socket_path@,
                state.sessions@ == sessions_upto(self.sessions@, self.sessions@.len()),
                state.winlinks@ == winlinks_upto(self.sessions@, self.sessions@.len()),
                state.clients@ == clients_upto(self.clients@, c as nat),
            decreases self.clients@.len() - c,
        {
            let client = &self.clients[c];
            let node = ClientNode {
                name: ClientName(client.name.clone()),
                session_id: client.session_id.clone(),
                current_window_id: clone_opt_string(&client.current_window_id),
                activity: client.activity,
                tty: client.tty.clone(),
                order: c,
            };
            assert(node == client_node_of(self.clients@[c as int], c));
            match find_client(&state.clients, client.name.as_str()) {
                Some(p) => {
                    proof { lemma_client_pos_range(state.clients@, client.name@); }
                    state.clients.set(p, node);
                },
                None => {
                    state.clients.push(node);
                },
            }
            c = c + 1;
        }
        state
    }

    pub fn into_domain_state(self) -> (d: DomainState)
        ensures
            d@ == self.domain(),
            domain_wf(d@),
    {
        self.to_domain_state()
    }

    /// The snapshot that the projection stands for.
    pub fn into_tmux_state(self) -> (t: TmuxState)
        ensures
            tmux_of_projection(self, t),
    {
        TmuxState::from_domain_state(self.into_domain_state())
    }

    /// Number of projected windows with a bell (saturating at `usize::MAX`).
    pub fn active_alert_count(&self) -> (n: usize)
        ensures
            n == min_usize(bells_upto(self.sessions@, self.sessions@.len())),
            n == min_usize(
                flat(self.sessions@, self.sessions@.len()).filter(|e: (WinlinkKey, WindowState)| e.1.bell_flag).len(),
            ),
    {
        proof {
            law_projection_alert_count_counts_bells(self.sessions@);
        }
        let mut n: usize = 0;
        let mut i: usize = 0;
        while i < self.sessions.len()
            invariant
                i <= self.sessions@.len(),
                n == min_usize(bells_upto(self.sessions@, i as nat)),
            decreases self.sessions@.len() - i,
        {
            let windows = &self.sessions[i].windows;
            let ghost before = bells_upto(self.sessions@, i as nat);
            let mut j: usize = 0;
            while j < windows.len()
                invariant
                    j <= windows@.len(),
                    i < self.sessions@.len(),
                    *windows == self.sessions@[i as int].windows,
                    before == bells_upto(self.sessions@, i as nat),
                    n == min_usize(before + window_bells(windows@, j as nat)),
                decreases windows@.len() - j,
            {
                if windows[j].bell_flag {
                    n = n.saturating_add(1);
                }
                j = j + 1;
            }
            i = i + 1;
        }
        n
    }
}

/// Session ids are distinct, and so are the window ids within each session.
pub open spec fn keys_distinct(p: ProjectionState) -> bool {
    let ss = p.sessions@;
    &&& forall|a: int, b: int| 0 <= a < b < ss.len() ==> (#[trigger] ss[a]).id@ != (#[trigger] ss[b]).id@
    &&& forall|i: int, a: int, b: int|
        0 <= i < ss.len() && 0 <= a < b < ss[i].windows@.len() ==> (#[trigger] ss[i].windows@[a]).id@
            != (#[trigger] ss[i].windows@[b]).id@
}

/// The canonical form that projecting a domain state produces: distinct keys,
/// distinct client names, and each session's windows listed by window index,
/// then window id.
pub open spec fn projection_wf(p: ProjectionState) -> bool {
    let ss = p.sessions@;
    let cs = p.clients@;
    &&& keys_distinct(p)
    &&& forall|i: int, a: int, b: int|
        0 <= i < ss.len() && 0 <= a < b < ss[i].windows@.len() ==> window_key_le(
            #[trigger] ss[i].windows@[a],
            #[trigger] ss[i].windows@[b],
        )
    &&& forall|a: int, b: int| 0 <= a < b < cs.len() ==> (#[trigger] cs[a]).name@ != (#[trigger] cs[b]).name@
}

/// `a` does not sort after `b` by (window index, window id).
pub open spec fn window_key_le(a: ProjectionWindow, b: ProjectionWindow) -> bool {
    a.index < b.index || (a.index == b.index && !text_lt(b.id@, a.id@))
}

/// The winlink entries of one projected session, in its window order.
pub open spec fn entries(s: ProjectionSession) -> Seq<(WinlinkKey, WindowState)> {
    Seq::new(s.windows@.len(), |j: int| (key_in(s.id, s.windows@[j]), window_state_of(s.windows@[j])))
}

/// The entries of the first `n` sessions, one session after another.
pub open spec fn flat(ss: Seq<ProjectionSession>, n: nat) -> Seq<(WinlinkKey, WindowState)>
    decreases n,
{
    if n == 0 {
        Seq::empty()
    } else {
        flat(ss, (n - 1) as nat) + entries(ss[n - 1])
    }
}

proof fn lemma_session_pos_absent(s: Seq<SessionNode>, id: Seq<char>)
    requires
        forall|j: int| 0 <= j < s.len() ==> (#[trigger] s[j]).id@ != id,
    ensures
        session_pos(s, id) == -1,
    decreases s.len(),
{
    if s.len() > 0 {
        assert forall|j: int| 0 <= j < s.drop_last().len() implies (#[trigger] s.drop_last()[j]).id@ != id by {
            assert(s.drop_last()[j] == s[j]);
        }
        lemma_session_pos_absent(s.drop_last(), id);
    }
}

proof fn lemma_client_pos_absent(s: Seq<ClientNode>, name: Seq<char>)
    requires
        forall|j: int| 0 <= j < s.len() ==> (#[trigger] s[j]).name.0@ != name,
    ensures
        client_pos(s, name) == -1,
    decreases s.len(),
{
    if s.len() > 0 {
        assert forall|j: int| 0 <= j < s.drop_last().len() implies (#[trigger] s.drop_last()[j]).name.0@ != name by {
            assert(s.drop_last()[j] == s[j]);
        }
        lemma_client_pos_absent(s.drop_last(), name);
    }
}

proof fn lemma_winlink_pos_absent(s: Seq<(WinlinkKey, WindowState)>, sid: Seq<char>, wid: Seq<char>)
    requires
        forall|j: int| 0 <= j < s.len() ==> !((#[trigger] s[j]).0.session_id@ == sid && s[j].0.window_id@ == wid),
    ensures
        winlink_pos(s, sid, wid) == -1,
    decreases s.len(),
{
    if s.len() > 0 {
        assert forall|j: int| 0 <= j < s.drop_last().len() implies !((#[trigger] s.drop_last()[j]).0.session_id@ == sid
            && s.drop_last()[j].0.window_id@ == wid) by {
            assert(s.drop_last()[j] == s[j]);
        }
        lemma_winlink_pos_absent(s.drop_last(), sid, wid);
    }
}

proof fn lemma_sessions_upto(ss: Seq<ProjectionSession>, n: nat)
    requires
        n <= ss.len(),
        forall|a: int, b: int| 0 <= a < b < ss.len() ==> (#[trigger] ss[a]).id@ != (#[trigger] ss[b]).id@,
    ensures
        sessions_upto(ss, n) == Seq::new(n, |i: int| session_node_of(ss[i], i as usize)),
    decreases n,
{
    if n > 0 {
        lemma_sessions_upto(ss, (n - 1) as nat);
        let prev = sessions_upto(ss, (n - 1) as nat);
        assert forall|j: int| 0 <= j < prev.len() implies (#[trigger] prev[j]).id@ != ss[n - 1].id@ by {
            assert(prev[j] == session_node_of(ss[j], j as usize));
            assert(ss[j].id@ != ss[n - 1].id@);
        }
        lemma_session_pos_absent(prev, ss[n - 1].id@);
        assert(sessions_upto(ss, n) =~= Seq::new(n, |i: int| session_node_of(ss[i], i as usize)));
    }
}

proof fn lemma_clients_upto(cs: Seq<ProjectionClient>, n: nat)
    requires
        n <= cs.len(),
        forall|a: int, b: int| 0 <= a < b < cs.len() ==> (#[trigger] cs[a]).name@ != (#[trigger] cs[b]).name@,
    ensures
        clients_upto(cs, n) == Seq::new(n, |i: int| client_node_of(cs[i], i as usize)),
    decreases n,
{
    if n > 0 {
        lemma_clients_upto(cs, (n - 1) as nat);
        let prev = clients_upto(cs, (n - 1) as nat);
        assert forall|j: int| 0 <= j < prev.len() implies (#[trigger] prev[j]).name.0@ != cs[n - 1].name@ by {
            assert(prev[j] == client_node_of(cs[j], j as usize));
            assert(cs[j].name@ != cs[n - 1].name@);
        }
        lemma_client_pos_absent(prev, cs[n - 1].name@);
        assert(clients_upto(cs, n) =~= Seq::new(n, |i: int| client_node_of(cs[i], i as usize)));
    }
}

proof fn lemma_session_winlinks(acc: Seq<(WinlinkKey, WindowState)>, s: ProjectionSession, m: nat)
    requires
        m <= s.windows@.len(),
        forall|q: int| 0 <= q < acc.len() ==> (#[trigger] acc[q]).0.session_id@ != s.id@,
        forall|a: int, b: int| 0 <= a < b < s.windows@.len() ==> (#[trigger] s.windows@[a]).id@ != (#[trigger] s.windows@[b]).id@,
    ensures
        session_winlinks(acc, s, m) == acc + entries(s).take(m as int),
    decreases m,
{
    if m > 0 {
        lemma_session_winlinks(acc, s, (m - 1) as nat);
        let prev = acc + entries(s).take(m - 1);
        let w = s.windows@[m - 1];
        assert forall|q: int| 0 <= q < prev.len() implies !((#[trigger] prev[q]).0.session_id@ == s.id@
            && prev[q].0.window_id@ == w.id@) by {
            if q < acc.len() {
                assert(prev[q] == acc[q]);
            } else {
                let j = q - acc.len();
                assert(prev[q] == entries(s)[j]);
                assert(s.windows@[j].id@ != s.windows@[m - 1].id@);
            }
        }
        lemma_winlink_pos_absent(prev, s.id@, w.id@);
        assert(session_winlinks(acc, s, m) =~= acc + entries(s).take(m as int));
    }
}

proof fn lemma_flat_ids(ss: Seq<ProjectionSession>, n: nat, id: Seq<char>)
    requires
        n <= ss.len(),
        forall|i: int| 0 <= i < n ==> (#[trigger] ss[i]).id@ != id,
    ensures
        forall|q: int| 0 <= q < flat(ss, n).len() ==> (#[trigger] flat(ss, n)[q]).0.session_id@ != id,
    decreases n,
{
    if n > 0 {
        lemma_flat_ids(ss, (n - 1) as nat, id);
        let prev = flat(ss, (n - 1) as nat);
        assert forall|q: int| 0 <= q < flat(ss, n).len() implies (#[trigger] flat(ss, n)[q]).0.session_id@ != id by {
            if q < prev.len() {
                assert(flat(ss, n)[q] == prev[q]);
            } else {
                assert(flat(ss, n)[q] == entries(ss[n - 1])[q - prev.len()]);
                assert(ss[n - 1].id@ != id);
            }
        }
    }
}

proof fn lemma_winlinks_flat(p: ProjectionState, n: nat)
    requires
        n <= p.sessions@.len(),
        keys_distinct(p),
    ensures
        winlinks_upto(p.sessions@, n) == flat(p.sessions@, n),
    decreases n,
{
    let ss = p.sessions@;
    if n > 0 {
        lemma_winlinks_flat(p, (n - 1) as nat);
        assert forall|i: int| 0 <= i < n - 1 implies (#[trigger] ss[i]).id@ != ss[n - 1].id@ by {
            assert(ss[i].id@ != ss[n - 1].id@);
        }
        lemma_flat_ids(ss, (n - 1) as nat, ss[n - 1].id@);
        let s = ss[n - 1];
        assert forall|a: int, b: int| 0 <= a < b < s.windows@.len() implies (#[trigger] s.windows@[a]).id@
            != (#[trigger] s.windows@[b]).id@ by {
            assert(ss[n - 1].windows@[a].id@ != ss[n - 1].windows@[b].id@);
        }
        lemma_session_winlinks(flat(ss, (n - 1) as nat), s, s.windows@.len());
        assert(entries(s).take(s.windows@.len() as int) =~= entries(s));
    }
}

proof fn lemma_flat_prefix(ss: Seq<ProjectionSession>, k: nat, n: nat)
    requires
        k <= n <= ss.len(),
    ensures
        flat(ss, k).len() <= flat(ss, n).len(),
        flat(ss, n).subrange(0, flat(ss, k).len() as int) == flat(ss, k),
    decreases n,
{
    if n > k {
        lemma_flat_prefix(ss, k, (n - 1) as nat);
        let prev = flat(ss, (n - 1) as nat);
        assert(flat(ss, n).subrange(0, flat(ss, k).len() as int) =~= prev.subrange(0, flat(ss, k).len() as int));
    } else {
        assert(flat(ss, n).subrange(0, flat(ss, n).len() as int) =~= flat(ss, n));
    }
}

proof fn lemma_flat_blocks(ss: Seq<ProjectionSession>, n: nat, i: int)
    requires
        n <= ss.len(),
        0 <= i < n,
        forall|a: int, b: int| 0 <= a < b < ss.len() ==> (#[trigger] ss[a]).id@ != (#[trigger] ss[b]).id@,
    ensures
        forall|q: int| 0 <= q < flat(ss, n).len() ==> (((#[trigger] flat(ss, n)[q]).0.session_id@ == ss[i].id@) <==> (
            flat(ss, i as nat).len() <= q < flat(ss, (i + 1) as nat).len())),
    decreases n,
{
    let prev = flat(ss, (n - 1) as nat);
    if n - 1 == i {
        assert forall|j: int| 0 <= j < i implies (#[trigger] ss[j]).id@ != ss[i].id@ by {
            assert(ss[j].id@ != ss[i].id@);
        }
        lemma_flat_ids(ss, i as nat, ss[i].id@);
        assert forall|q: int| 0 <= q < flat(ss, n).len() implies (((#[trigger] flat(ss, n)[q]).0.session_id@ == ss[i].id@)
            <==> (flat(ss, i as nat).len() <= q < flat(ss, (i + 1) as nat).len())) by {
            if q < prev.len() {
                assert(flat(ss, n)[q] == prev[q]);
            } else {
                assert(flat(ss, n)[q] == entries(ss[n - 1])[q - prev.len()]);
            }
        }
    } else {
        lemma_flat_blocks(ss, (n - 1) as nat, i);
        lemma_flat_prefix(ss, (i + 1) as nat, (n - 1) as nat);
        assert forall|q: int| 0 <= q < flat(ss, n).len() implies (((#[trigger] flat(ss, n)[q]).0.session_id@ == ss[i].id@)
            <==> (flat(ss, i as nat).len() <= q < flat(ss, (i + 1) as nat).len())) by {
            if q < prev.len() {
                assert(flat(ss, n)[q] == prev[q]);
            } else {
                assert(flat(ss, n)[q] == entries(ss[n - 1])[q - prev.len()]);
                assert(ss[i].id@ != ss[n - 1].id@);
            }
        }
    }
}

/// Positions with a given session id that form one block `lo..hi`.
proof fn lemma_block_positions(s: Seq<(WinlinkKey, WindowState)>, sid: Seq<char>, n: nat, lo: int, hi: int)
    requires
        n <= s.len(),
        0 <= lo <= hi <= s.len(),
        forall|q: int| 0 <= q < s.len() ==> (((#[trigger] s[q]).0.session_id@ == sid) <==> (lo <= q < hi)),
    ensures
        session_winlink_positions(s, sid, n) == Seq::new(
            (if n <= lo { 0 } else if n >= hi { hi - lo } else { n - lo }) as nat,
            |j: int| lo + j,
        ),
    decreases n,
{
    if n > 0 {
        lemma_block_positions(s, sid, (n - 1) as nat, lo, hi);
        assert(s[n - 1].0.session_id@ == sid <==> lo <= n - 1 < hi);
        assert(session_winlink_positions(s, sid, n) =~= Seq::new(
            (if n <= lo { 0 } else if n >= hi { hi - lo } else { n - lo }) as nat,
            |j: int| lo + j,
        ));
    }
}

/// For a projection with distinct keys, the domain form lists each session at
/// its position and each session's windows as one block in projection order.
proof fn lemma_domain_layout(p: ProjectionState, i: int)
    requires
        keys_distinct(p),
        0 <= i < p.sessions@.len(),
    ensures
        p.domain().sessions == Seq::new(p.sessions@.len(), |k: int| session_node_of(p.sessions@[k], k as usize)),
        p.domain().winlinks == flat(p.sessions@, p.sessions@.len()),
        session_winlink_positions(p.domain().winlinks, p.sessions@[i].id@, p.domain().winlinks.len()) == Seq::new(
            p.sessions@[i].windows@.len(),
            |j: int| flat(p.sessions@, i as nat).len() + j,
        ),
        forall|j: int| 0 <= j < p.sessions@[i].windows@.len() ==> p.domain().winlinks[flat(p.sessions@, i as nat).len() + j]
            == #[trigger] entries(p.sessions@[i])[j],
{
    let ss = p.sessions@;
    let n = ss.len();
    lemma_sessions_upto(ss, n);
    lemma_winlinks_flat(p, n);
    lemma_flat_blocks(ss, n, i);
    lemma_flat_prefix(ss, (i + 1) as nat, n);
    let lo = flat(ss, i as nat).len() as int;
    let hi = flat(ss, (i + 1) as nat).len() as int;
    assert(hi == lo + ss[i].windows@.len());
    lemma_block_positions(flat(ss, n), ss[i].id@, flat(ss, n).len(), lo, hi);
    assert forall|j: int| 0 <= j < ss[i].windows@.len() implies flat(ss, n)[lo + j] == #[trigger] entries(ss[i])[j] by {
        assert(flat(ss, n).subrange(0, hi)[lo + j] == flat(ss, (i + 1) as nat)[lo + j]);
    }
}

/// Projecting the domain form of a projection in canonical form gives back that
/// same projection.
pub proof fn law_projection_round_trip(p: ProjectionState)
    requires
        projection_wf(p),
    ensures
        projection_of(p, p.domain()),
{
    let ss = p.sessions@;
    let cs = p.clients@;
    let d = p.domain();
    let n = ss.len();
    assert(p.sessions.len() == n && p.clients.len() == cs.len());
    lemma_sessions_upto(ss, n);
    lemma_clients_upto(cs, cs.len());
    assert(d.sessions.len() == n);
    assert forall|a: int, b: int| #![trigger all_positions(n)[a], all_positions(n)[b]]
        0 <= a < b < all_positions(n).len() implies !d.sessions[all_positions(n)[b]].key_lt(&d.sessions[all_positions(n)[a]]) by {
        assert(d.sessions[a] == session_node_of(ss[a], a as usize));
        assert(d.sessions[b] == session_node_of(ss[b], b as usize));
    }
    lemma_sort_positions_sorted(d.sessions, all_positions(n));
    assert forall|a: int, b: int| #![trigger all_positions(cs.len())[a], all_positions(cs.len())[b]]
        0 <= a < b < all_positions(cs.len()).len() implies !d.clients[all_positions(cs.len())[b]].key_lt(
            &d.clients[all_positions(cs.len())[a]],
        ) by {
        assert(d.clients[a] == client_node_of(cs[a], a as usize));
        assert(d.clients[b] == client_node_of(cs[b], b as usize));
    }
    lemma_sort_positions_sorted(d.clients, all_positions(cs.len()));
    assert forall|k: int| 0 <= k < n implies session_of_node(#[trigger] ss[k], d, d.sessions[d.session_order()[k]]) by {
        lemma_domain_layout(p, k);
        assert(d.session_order()[k] == k);
        let node = d.sessions[k];
        assert(node == session_node_of(ss[k], k as usize));
        let lo = flat(ss, k as nat).len() as int;
        let block = Seq::new(ss[k].windows@.len(), |j: int| lo + j);
        assert forall|a: int, b: int| #![trigger block[a], block[b]] 0 <= a < b < block.len() implies !d.winlinks[block[b]].key_lt(
            &d.winlinks[block[a]],
        ) by {
            assert(d.winlinks[lo + a] == entries(ss[k])[a]);
            assert(d.winlinks[lo + b] == entries(ss[k])[b]);
            assert(window_key_le(ss[k].windows@[a], ss[k].windows@[b]));
        }
        lemma_sort_positions_sorted(d.winlinks, block);
        assert(d.window_order(node.id@) == block);
        assert forall|j: int| 0 <= j < ss[k].windows@.len() implies #[trigger] ss[k].windows@[j] == window_from_fields(
            d.winlinks[d.window_order(node.id@)[j]].1,
        ) by {
            assert(d.winlinks[lo + j] == entries(ss[k])[j]);
        }
    }
    assert forall|k: int| 0 <= k < cs.len() implies client_of_node(#[trigger] cs[k], d.clients[d.client_order()[k]]) by {
        assert(d.client_order()[k] == k);
        assert(d.clients[k] == client_node_of(cs[k], k as usize));
    }
}

proof fn lemma_bell_count_append(a: Seq<(WinlinkKey, WindowState)>, b: Seq<(WinlinkKey, WindowState)>)
    ensures
        bell_count(a + b) == bell_count(a) + bell_count(b),
    decreases b.len(),
{
    if b.len() > 0 {
        lemma_bell_count_append(a, b.drop_last());
        assert((a + b).drop_last() =~= a + b.drop_last());
    } else {
        assert(a + b =~= a);
    }
}

proof fn lemma_entries_bells(s: ProjectionSession, m: nat)
    requires
        m <= s.windows@.len(),
    ensures
        bell_count(entries(s).take(m as int)) == window_bells(s.windows@, m),
    decreases m,
{
    if m > 0 {
        lemma_entries_bells(s, (m - 1) as nat);
        assert(entries(s).take(m as int).drop_last() =~= entries(s).take(m - 1));
    }
}

proof fn lemma_flat_bells(ss: Seq<ProjectionSession>, n: nat)
    requires
        n <= ss.len(),
    ensures
        bell_count(flat(ss, n)) == bells_upto(ss, n),
    decreases n,
{
    if n > 0 {
        lemma_flat_bells(ss, (n - 1) as nat);
        lemma_bell_count_append(flat(ss, (n - 1) as nat), entries(ss[n - 1]));
        lemma_entries_bells(ss[n - 1], ss[n - 1].windows@.len());
        assert(entries(ss[n - 1]).take(ss[n - 1].windows@.len() as int) =~= entries(ss[n - 1]));
    }
}

/// The alert count of a projection is the number of its windows, over all
/// sessions one after another, whose bell flag is set; whether a window is
/// active, or has activity or silence, does not count.
pub proof fn law_projection_alert_count_counts_bells(ss: Seq<ProjectionSession>)
    ensures
        bells_upto(ss, ss.len()) == flat(ss, ss.len()).filter(|e: (WinlinkKey, WindowState)| e.1.bell_flag).len(),
        forall|k: int| 0 <= k < ss.len() ==> forall|j: int| 0 <= j < (#[trigger] ss[k]).windows@.len() ==> (#[trigger] entries(
            ss[k],
        )[j]).1.bell_flag == ss[k].windows@[j].bell_flag,
{
    lemma_flat_bells(ss, ss.len());
    law_bell_count_counts_bells(flat(ss, ss.len()));
}

/// `a` and `b` hold the same projection: the same socket path, the same
/// sessions with the same windows in the same order, and the same clients.
pub open spec fn same_projection(a: ProjectionState, b: ProjectionState) -> bool {
    &&& a.tmux_socket_path@ == b.tmux_socket_path@
    &&& a.sessions@.len() == b.sessions@.len()
    &&& forall|k: int| 0 <= k < a.sessions@.len() ==> {
        let (x, y) = (#[trigger] a.sessions@[k], b.sessions@[k]);
        &&& x.id == y.id
        &&& x.name == y.name
        &&& x.attached_count == y.attached_count
        &&& x.active_window_id == y.active_window_id
        &&& x.windows@ == y.windows@
    }
    &&& a.clients@ == b.clients@
}

/// A domain state has one projection: any two projections of it are the same.
pub proof fn law_projection_unique(a: ProjectionState, b: ProjectionState, d: DomainView)
    requires
        projection_of(a, d),
        projection_of(b, d),
    ensures
        same_projection(a, b),
{
    assert forall|k: int| 0 <= k < a.sessions@.len() implies {
        let (x, y) = (#[trigger] a.sessions@[k], b.sessions@[k]);
        &&& x.id == y.id
        &&& x.name == y.name
        &&& x.attached_count == y.attached_count
        &&& x.active_window_id == y.active_window_id
        &&& x.windows@ == y.windows@
    } by {
        let (x, y) = (a.sessions@[k], b.sessions@[k]);
        assert(session_of_node(x, d, d.sessions[d.session_order()[k]]));
        assert(session_of_node(y, d, d.sessions[d.session_order()[k]]));
        assert(x.windows@ =~= y.windows@);
    }
    assert forall|k: int| 0 <= k < a.clients@.len() implies a.clients@[k] == b.clients@[k] by {
        assert(client_of_node(a.clients@[k], d.clients[d.client_order()[k]]));
        assert(client_of_node(b.clients@[k], d.clients[d.client_order()[k]]));
    }
    assert(a.clients@ =~= b.clients@);
}

/// A projection in canonical form comes back the same from its domain form:
/// whatever projects that domain state (`from_domain` does) is the projection.
pub proof fn law_projection_round_trip_exact(p: ProjectionState, r: ProjectionState)
    requires
        projection_wf(p),
        projection_of(r, p.domain()),
    ensures
        same_projection(r, p),
{
    law_projection_round_trip(p);
    law_projection_unique(r, p, p.domain());
}

/// With distinct keys, the projection counts as many bell alerts as its domain
/// form does.
pub proof fn law_alert_count_agrees(p: ProjectionState)
    requires
        keys_distinct(p),
    ensures
        bells_upto(p.sessions@, p.sessions@.len()) == bell_count(p.domain().winlinks),
{
    lemma_winlinks_flat(p, p.sessions@.len());
    lemma_flat_bells(p.sessions@, p.sessions@.len());
}

} // verus!
