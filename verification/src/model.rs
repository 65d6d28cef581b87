//! The client-side model: the tmux snapshot as the UI receives it, its
//! normalized domain form, and the navigation state of the tree view.
use vstd::prelude::*;

use crate::domain::rows::{tree_rows_spec, Focus, FocusView, TreeRow};
use crate::domain::state::{
    active_key_of, alert_of, clone_opt_string, client_pos, find_client, find_session,
    find_winlink, lemma_client_pos_range, lemma_session_pos_range, lemma_winlink_pos_range,
    lemma_client_pos_absent, lemma_session_pos_absent, lemma_winlink_pos_absent, lemma_same_keys_keep_distinct,
    sessions_distinct, winlinks_distinct, clients_distinct, domain_wf,
    session_pos, session_state_of, target_view, winlink_pos, ClientName, ClientNode, DomainState, DomainView,
    SessionId, SessionNode, SessionState, WindowAlert, WindowId, WindowState, WinlinkKey,
};
use crate::input::InputBuffer;
use crate::order::usize_seq_as_int;
use crate::text::{contains_char, push_char, str_eq, to_owned_string};

verus! {

/// A tmux snapshot: sessions (each with its windows) and clients, in tmux order.
#[derive(Debug, Clone, Default, PartialEq, Eq)]
pub struct TmuxState {
    pub sessions: Vec<Session>,
    pub clients: Vec<Client>,
}

#[derive(Debug, Clone, Default, PartialEq, Eq)]
pub struct Session {
    pub id: SessionId,
    pub name: String,
    pub attached_count: u32,
    pub active_window_id: Option<WindowId>,
    pub windows: Vec<Window>,
}

#[derive(Debug, Clone, Default, PartialEq, Eq)]
pub struct Window {
    pub id: WindowId,
    pub index: u32,
    pub name: String,
    pub active: bool,
    pub flags: String,
    pub alert: WindowAlert,
    pub activity: u64,
    pub activity_flag: bool,
    pub silence_flag: bool,
}

#[derive(Debug, Clone, PartialEq, Eq)]
pub struct Client {
    pub name: ClientName,
    pub session_id: SessionId,
    pub current_window_id: Option<WindowId>,
    pub activity: u64,
    pub tty: String,
}

/// The domain state of a window: each indicator is set by its field or by its
/// tmux flag (`#` activity, `!` bell, `~` silence).
pub open spec fn window_state_of(w: Window) -> WindowState {
    WindowState {
        id: w.id,
        index: w.index,
        name: w.name,
        active: w.active,
        activity: w.activity,
        activity_flag: w.activity_flag || w.flags@.contains('#'),
        bell_flag: w.alert == WindowAlert::Bell || w.flags@.contains('!'),
        silence_flag: w.silence_flag || w.flags@.contains('~'),
    }
}

/// The tmux flags text of a window state: `*` active, `#` activity, `!` bell,
/// `~` silence, in that order.
pub open spec fn flags_text(w: WindowState) -> Seq<char> {
    (if w.active { seq!['*'] } else { Seq::empty() }) + (if w.activity_flag {
        seq!['#']
    } else {
        Seq::empty()
    }) + (if w.bell_flag { seq!['!'] } else { Seq::empty() }) + (if w.silence_flag {
        seq!['~']
    } else {
        Seq::empty()
    })
}

/// `r` is the snapshot window that stands for the domain window `w`.
pub open spec fn window_from_state(r: Window, w: WindowState) -> bool {
    &&& r.id == w.id
    &&& r.index == w.index
    &&& r.name == w.name
    &&& r.active == w.active
    &&& r.flags@ == flags_text(w)
    &&& r.alert == alert_of(w)
    &&& r.activity == w.activity
    &&& r.activity_flag == w.activity_flag
    &&& r.silence_flag == w.silence_flag
}

/// The winlink key of window `w` in the session with id `sid`.
pub open spec fn key_in(sid: String, w: Window) -> WinlinkKey {
    WinlinkKey { session_id: sid, window_id: w.id }
}

impl Window {
    pub fn winlink_key(&self, session_id: &str) -> (k: WinlinkKey)
        ensures
            k@ == (session_id@, self.id@),
    {
        WinlinkKey { session_id: to_owned_string(session_id), window_id: self.id.clone() }
    }

    pub fn window_state(&self) -> (s: WindowState)
        ensures
            s == window_state_of(*self),
    {
        let activity_flag = self.activity_flag || contains_char(self.flags.as_str(), '#');
        let bell_flag = self.alert.is_alerting() || contains_char(self.flags.as_str(), '!');
        let silence_flag = self.silence_flag || contains_char(self.flags.as_str(), '~');
        WindowState {
            id: self.id.clone(),
            index: self.index,
            name: self.name.clone(),
            active: self.active,
            activity: self.activity,
            activity_flag,
            bell_flag,
            silence_flag,
        }
    }

    fn from_window_state(window: &WindowState) -> (r: Self)
        ensures
            window_from_state(r, *window),
    {
        let mut flags = String::new();
        let ghost w = *window;
        if window.active {
            push_char(&mut flags, '*');
        }
        assert(flags@ =~= (if w.active { seq!['*'] } else { Seq::<char>::empty() }));
        let ghost f1 = flags@;
        if window.activity_flag {
            push_char(&mut flags, '#');
        }
        assert(flags@ =~= f1 + (if w.activity_flag { seq!['#'] } else { Seq::<char>::empty() }));
        let ghost f2 = flags@;
        if window.bell_flag {
            push_char(&mut flags, '!');
        }
        assert(flags@ =~= f2 + (if w.bell_flag { seq!['!'] } else { Seq::<char>::empty() }));
        let ghost f3 = flags@;
        if window.silence_flag {
            push_char(&mut flags, '~');
        }
        assert(flags@ =~= f3 + (if w.silence_flag { seq!['~'] } else { Seq::<char>::empty() }));
        assert(flags@ =~= flags_text(w));
        Window {
            id: window.id.clone(),
            index: window.index,
            name: window.name.clone(),
            active: window.active,
            flags,
            alert: window.alert(),
            activity: window.activity,
            activity_flag: window.activity_flag,
            silence_flag: window.silence_flag,
        }
    }

    /// Replaces the flags text and derives the indicators from it.
    pub fn set_flags(&mut self, flags: &str)
        ensures
            final(self).flags@ == flags@,
            final(self).activity_flag == flags@.contains('#'),
            final(self).silence_flag == flags@.contains('~'),
            final(self).alert == (if flags@.contains('!') { WindowAlert::Bell } else { WindowAlert::Clear }),
            final(self).id == old(self).id,
            final(self).index == old(self).index,
            final(self).name == old(self).name,
            final(self).active == old(self).active,
            final(self).activity == old(self).activity,
    {
        self.flags = to_owned_string(flags);
        self.activity_flag = contains_char(flags, '#');
        self.silence_flag = contains_char(flags, '~');
        self.alert = WindowAlert::from_flags(flags);
    }

    pub fn has_alert(&self) -> (b: bool)
        ensures
            b == (self.alert == WindowAlert::Bell),
    {
        self.alert.is_alerting()
    }
}

impl Session {
    pub fn active_window_key(&self) -> (k: Option<WinlinkKey>)
        ensures
            k == active_key_of(self.id, self.active_window_id),
    {
        match &self.active_window_id {
            Some(window_id) => Some(WinlinkKey { session_id: self.id.clone(), window_id: window_id.clone() }),
            None => None,
        }
    }

    /// The session with its windows keyed by winlink, in snapshot order.
    pub fn session_state(&self) -> (s: SessionState)
        ensures
            s.id == self.id,
            s.name == self.name,
            s.attached_count == self.attached_count,
            s.active_window_id == self.active_window_id,
            s.windows@.len() == self.windows@.len(),
            forall|i: int| 0 <= i < self.windows@.len() ==> #[trigger] s.windows@[i] == (
                key_in(self.id, self.windows@[i]),
                window_state_of(self.windows@[i]),
            ),
    {
        let mut windows: Vec<(WinlinkKey, WindowState)> = Vec::new();
        let mut i: usize = 0;
        while i < self.windows.len()
            invariant
                i <= self.windows@.len(),
                windows@.len() == i,
                forall|j: int| 0 <= j < i ==> #[trigger] windows@[j] == (
                    key_in(self.id, self.windows@[j]),
                    window_state_of(self.windows@[j]),
                ),
            decreases self.windows@.len() - i,
        {
            let w = &self.windows[i];
            windows.push((WinlinkKey { session_id: self.id.clone(), window_id: w.id.clone() }, w.window_state()));
            i = i + 1;
        }
        SessionState {
            id: self.id.clone(),
            name: self.name.clone(),
            attached_count: self.attached_count,
            active_window_id: clone_opt_string(&self.active_window_id),
            windows,
        }
    }
}

/// The domain node of snapshot session `s` at position `order`.
pub open spec fn session_node_of(s: Session, order: usize) -> SessionNode {
    SessionNode {
        id: s.id,
        name: s.name,
        attached_count: s.attached_count,
        active_window_id: s.active_window_id,
        order,
    }
}

/// The domain node of snapshot client `c` at position `order`.
pub open spec fn client_node_of(c: Client, order: usize) -> ClientNode {
    ClientNode {
        name: c.name,
        session_id: c.session_id,
        current_window_id: c.current_window_id,
        activity: c.activity,
        tty: c.tty,
        order,
    }
}

/// Map insertion by session id: replaces the node with that id, or appends.
pub open spec fn insert_session(s: Seq<SessionNode>, n: SessionNode) -> Seq<SessionNode> {
    let p = session_pos(s, n.id@);
    if p >= 0 {
        s.update(p, n)
    } else {
        s.push(n)
    }
}

/// Map insertion by winlink key: replaces the window under that key, or appends.
pub open spec fn insert_winlink(
    s: Seq<(WinlinkKey, WindowState)>,
    k: WinlinkKey,
    w: WindowState,
) -> Seq<(WinlinkKey, WindowState)> {
    let p = winlink_pos(s, k.session_id@, k.window_id@);
    if p >= 0 {
        s.update(p, (s[p].0, w))
    } else {
        s.push((k, w))
    }
}

/// Map insertion by client name: replaces the node with that name, or appends.
pub open spec fn insert_client(s: Seq<ClientNode>, n: ClientNode) -> Seq<ClientNode> {
    let p = client_pos(s, n.name.0@);
    if p >= 0 {
        s.update(p, n)
    } else {
        s.push(n)
    }
}

/// The session map after inserting the first `n` snapshot sessions.
pub open spec fn sessions_upto(ss: Seq<Session>, n: nat) -> Seq<SessionNode>
    decreases n,
{
    if n == 0 {
        Seq::empty()
    } else {
        insert_session(sessions_upto(ss, (n - 1) as nat), session_node_of(ss[n - 1], (n - 1) as usize))
    }
}

/// `acc` after inserting the first `m` windows of session `s`.
pub open spec fn session_winlinks(
    acc: Seq<(WinlinkKey, WindowState)>,
    s: Session,
    m: nat,
) -> Seq<(WinlinkKey, WindowState)>
    decreases m,
{
    if m == 0 {
        acc
    } else {
        let w = s.windows@[m - 1];
        insert_winlink(session_winlinks(acc, s, (m - 1) as nat), key_in(s.id, w), window_state_of(w))
    }
}

/// The winlink map after inserting the windows of the first `n` snapshot sessions.
pub open spec fn winlinks_upto(ss: Seq<Session>, n: nat) -> Seq<(WinlinkKey, WindowState)>
    decreases n,
{
    if n == 0 {
        Seq::empty()
    } else {
        session_winlinks(winlinks_upto(ss, (n - 1) as nat), ss[n - 1], ss[n - 1].windows@.len())
    }
}

/// The client map after inserting the first `n` snapshot clients.
pub open spec fn clients_upto(cs: Seq<Client>, n: nat) -> Seq<ClientNode>
    decreases n,
{
    if n == 0 {
        Seq::empty()
    } else {
        insert_client(clients_upto(cs, (n - 1) as nat), client_node_of(cs[n - 1], (n - 1) as usize))
    }
}

pub(crate) proof fn lemma_insert_session_distinct(s: Seq<SessionNode>, n: SessionNode)
    requires
        sessions_distinct(s),
    ensures
        sessions_distinct(insert_session(s, n)),
{
    lemma_session_pos_range(s, n.id@);
    lemma_session_pos_absent(s, n.id@);
    let r = insert_session(s, n);
    let p = session_pos(s, n.id@);
    assert forall|a: int, b: int| 0 <= a < b < r.len() implies (#[trigger] r[a]).id@ != (#[trigger] r[b]).id@ by {
        if p >= 0 {
            assert(r[a].id@ == s[a].id@ && r[b].id@ == s[b].id@);
        } else if b == s.len() {
            assert(r[a] == s[a] && r[b] == n);
        } else {
            assert(r[a] == s[a] && r[b] == s[b]);
        }
    }
}

pub(crate) proof fn lemma_insert_winlink_distinct(s: Seq<(WinlinkKey, WindowState)>, k: WinlinkKey, w: WindowState)
    requires
        winlinks_distinct(s),
    ensures
        winlinks_distinct(insert_winlink(s, k, w)),
{
    lemma_winlink_pos_range(s, k.session_id@, k.window_id@);
    lemma_winlink_pos_absent(s, k.session_id@, k.window_id@);
    let r = insert_winlink(s, k, w);
    let p = winlink_pos(s, k.session_id@, k.window_id@);
    if p >= 0 {
        lemma_same_keys_keep_distinct(s, r);
    } else {
        assert forall|a: int, b: int| 0 <= a < b < r.len() implies (#[trigger] r[a]).0@ != (#[trigger] r[b]).0@ by {
            if b == s.len() {
                assert(r[a] == s[a] && r[b] == (k, w));
            } else {
                assert(r[a] == s[a] && r[b] == s[b]);
            }
        }
    }
}

pub(crate) proof fn lemma_insert_client_distinct(s: Seq<ClientNode>, n: ClientNode)
    requires
        clients_distinct(s),
    ensures
        clients_distinct(insert_client(s, n)),
{
    lemma_client_pos_range(s, n.name.0@);
    lemma_client_pos_absent(s, n.name.0@);
    let r = insert_client(s, n);
    let p = client_pos(s, n.name.0@);
    assert forall|a: int, b: int| 0 <= a < b < r.len() implies (#[trigger] r[a]).name.0@ != (#[trigger] r[b]).name.0@ by {
        if p >= 0 {
            assert(r[a].name.0@ == s[a].name.0@ && r[b].name.0@ == s[b].name.0@);
        } else if b == s.len() {
            assert(r[a] == s[a] && r[b] == n);
        } else {
            assert(r[a] == s[a] && r[b] == s[b]);
        }
    }
}

proof fn lemma_snapshot_sessions_distinct(ss: Seq<Session>, n: nat)
    ensures
        sessions_distinct(sessions_upto(ss, n)),
    decreases n,
{
    if n > 0 {
        lemma_snapshot_sessions_distinct(ss, (n - 1) as nat);
        lemma_insert_session_distinct(sessions_upto(ss, (n - 1) as nat), session_node_of(ss[n - 1], (n - 1) as usize));
    }
}

proof fn lemma_snapshot_session_winlinks_distinct(acc: Seq<(WinlinkKey, WindowState)>, s: Session, m: nat)
    requires
        winlinks_distinct(acc),
    ensures
        winlinks_distinct(session_winlinks(acc, s, m)),
    decreases m,
{
    if m > 0 {
        lemma_snapshot_session_winlinks_distinct(acc, s, (m - 1) as nat);
        let w = s.windows@[m - 1];
        lemma_insert_winlink_distinct(session_winlinks(acc, s, (m - 1) as nat), key_in(s.id, w), window_state_of(w));
    }
}

proof fn lemma_snapshot_winlinks_distinct(ss: Seq<Session>, n: nat)
    ensures
        winlinks_distinct(winlinks_upto(ss, n)),
    decreases n,
{
    if n > 0 {
        lemma_snapshot_winlinks_distinct(ss, (n - 1) as nat);
        lemma_snapshot_session_winlinks_distinct(winlinks_upto(ss, (n - 1) as nat), ss[n - 1], ss[n - 1].windows@.len());
    }
}

proof fn lemma_snapshot_clients_distinct(cs: Seq<Client>, n: nat)
    ensures
        clients_distinct(clients_upto(cs, n)),
    decreases n,
{
    if n > 0 {
        lemma_snapshot_clients_distinct(cs, (n - 1) as nat);
        lemma_insert_client_distinct(clients_upto(cs, (n - 1) as nat), client_node_of(cs[n - 1], (n - 1) as usize));
    }
}

/// The normalized form of every snapshot is well formed: whatever a snapshot
/// repeats, each session id, winlink key and client name is kept once.
pub proof fn law_snapshot_domain_is_wf(t: TmuxState)
    ensures
        domain_wf(t.domain()),
{
    lemma_snapshot_sessions_distinct(t.sessions@, t.sessions@.len());
    lemma_snapshot_winlinks_distinct(t.sessions@, t.sessions@.len());
    lemma_snapshot_clients_distinct(t.clients@, t.clients@.len());
}

/// The snapshot session `r` stands for the domain session `n` of `d`, with its
/// windows in window order.
pub open spec fn session_from_domain(r: Session, d: DomainView, n: SessionNode) -> bool {
    &&& r.id == n.id
    &&& r.name == n.name
    &&& r.attached_count == n.attached_count
    &&& r.active_window_id == n.active_window_id
    &&& r.windows@.len() == d.window_order(n.id@).len()
    &&& forall|j: int|
        0 <= j < r.windows@.len() ==> window_from_state(
            #[trigger] r.windows@[j],
            d.winlinks[d.window_order(n.id@)[j]].1,
        )
}

/// The snapshot client `r` stands for the domain client `n`.
pub open spec fn client_from_node(r: Client, n: ClientNode) -> bool {
    &&& r.name == n.name
    &&& r.session_id == n.session_id
    &&& r.current_window_id == n.current_window_id
    &&& r.activity == n.activity
    &&& r.tty == n.tty
}

/// `p` is the first snapshot session with id `id`.
pub open spec fn first_session_at(ss: Seq<Session>, id: Seq<char>, p: int) -> bool {
    0 <= p < ss.len() && ss[p].id@ == id && forall|j: int| 0 <= j < p ==> (#[trigger] ss[j]).id@ != id
}

/// `p` is the first window with id `id`.
pub open spec fn first_window_at(ws: Seq<Window>, id: Seq<char>, p: int) -> bool {
    0 <= p < ws.len() && ws[p].id@ == id && forall|j: int| 0 <= j < p ==> (#[trigger] ws[j]).id@ != id
}

pub(crate) fn find_snapshot_session(ss: &Vec<Session>, id: &str) -> (r: Option<usize>)
    ensures
        match r {
            Some(p) => first_session_at(ss@, id@, p as int),
            None => forall|j: int| 0 <= j < ss@.len() ==> (#[trigger] ss@[j]).id@ != id@,
        },
{
    let mut i: usize = 0;
    while i < ss.len()
        invariant
            i <= ss@.len(),
            forall|j: int| 0 <= j < i ==> (#[trigger] ss@[j]).id@ != id@,
        decreases ss@.len() - i,
    {
        if str_eq(ss[i].id.as_str(), id) {
            return Some(i);
        }
        i = i + 1;
    }
    None
}

pub(crate) fn find_snapshot_window(ws: &Vec<Window>, id: &str) -> (r: Option<usize>)
    ensures
        match r {
            Some(p) => first_window_at(ws@, id@, p as int),
            None => forall|j: int| 0 <= j < ws@.len() ==> (#[trigger] ws@[j]).id@ != id@,
        },
{
    let mut i: usize = 0;
    while i < ws.len()
        invariant
            i <= ws@.len(),
            forall|j: int| 0 <= j < i ==> (#[trigger] ws@[j]).id@ != id@,
        decreases ws@.len() - i,
    {
        if str_eq(ws[i].id.as_str(), id) {
            return Some(i);
        }
        i = i + 1;
    }
    None
}

impl TmuxState {
    /// The normalized form of the snapshot: sessions keyed by id, winlinks keyed by
    /// (session, window) and clients keyed by name, a later entry replacing an
    /// earlier one under the same key; each node keeps its snapshot position as
    /// its order.
    pub open spec fn domain(self) -> DomainView {
        DomainView {
            tmux_socket_path: Seq::empty(),
            sessions: sessions_upto(self.sessions@, self.sessions@.len()),
            winlinks: winlinks_upto(self.sessions@, self.sessions@.len()),
            clients: clients_upto(self.clients@, self.clients@.len()),
        }
    }

    pub fn to_domain_state(&self) -> (d: DomainState)
        ensures
            d@ == self.domain(),
            domain_wf(d@),
    {
        proof {
            law_snapshot_domain_is_wf(*self);
        }
        let mut state = DomainState {
            tmux_socket_path: String::new(),
            sessions: Vec::new(),
            winlinks: Vec::new(),
            clients: Vec::new(),
        };
        let mut i: usize = 0;
        while i < self.sessions.len()
            invariant
                i <= self.sessions@.len(),
                state.tmux_socket_path@ == Seq::<char>::empty(),
                state.sessions@ == sessions_upto(self.sessions@, i as nat),
                state.winlinks@ == winlinks_upto(self.sessions@, i as nat),
                state.clients@.len() == 0,
            decreases self.sessions@.len() - i,
        {
            let session = &self.sessions[i];
            let node = SessionNode {
                id: session.id.clone(),
                name: session.name.clone(),
                attached_count: session.attached_count,
                active_window_id: clone_opt_string(&session.active_window_id),
                order: i,
            };
            assert(node == session_node_of(self.sessions@[i as int], i));
            match find_session(&state.sessions, session.id.as_str()) {
                Some(p) => {
                    proof { lemma_session_pos_range(state.sessions@, session.id@); }
                    state.sessions.set(p, node);
                },
                None => {
                    state.sessions.push(node);
                },
            }
            assert(state.sessions@ == sessions_upto(self.sessions@, (i + 1) as nat));
            let ghost base = winlinks_upto(self.sessions@, i as nat);
            let mut j: usize = 0;
            while j < session.windows.len()
                invariant
                    j <= session.windows@.len(),
                    i < self.sessions@.len(),
                    *session == self.sessions@[i as int],
                    state.tmux_socket_path@ == Seq::<char>::empty(),
                    state.sessions@ == sessions_upto(self.sessions@, (i + 1) as nat),
                    state.clients@.len() == 0,
                    base == winlinks_upto(self.sessions@, i as nat),
                    state.winlinks@ == session_winlinks(base, *session, j as nat),
                decreases session.windows@.len() - j,
            {
                let window = &session.windows[j];
                let key = WinlinkKey { session_id: session.id.clone(), window_id: window.id.clone() };
                let ws = window.window_state();
                match find_winlink(&state.winlinks, session.id.as_str(), window.id.as_str()) {
                    Some(p) => {
                        proof { lemma_winlink_pos_range(state.winlinks@, session.id@, window.id@); }
                        let k = state.winlinks[p].0.clone();
                        state.winlinks.set(p, (k, ws));
                    },
                    None => {
                        state.winlinks.push((key, ws));
                    },
                }
                j = j + 1;
            }
            i = i + 1;
        }
        let mut c: usize = 0;
        while c < self.clients.len()
            invariant
                c <= self.clients@.len(),
                state.tmux_socket_path@ == Seq::<char>::empty(),
                state.sessions@ == sessions_upto(self.sessions@, self.sessions@.len()),
                state.winlinks@ == winlinks_upto(self.sessions@, self.sessions@.len()),
                state.clients@ == clients_upto(self.clients@, c as nat),
            decreases self.clients@.len() - c,
        {
            let client = &self.clients[c];
            let node = ClientNode {
                name: ClientName(client.name.0.clone()),
                session_id: client.session_id.clone(),
                current_window_id: clone_opt_string(&client.current_window_id),
                activity: client.activity,
                tty: client.tty.clone(),
                order: c,
            };
            assert(node == client_node_of(self.clients@[c as int], c));
            match find_client(&state.clients, client.name.0.as_str()) {
                Some(p) => {
                    proof { lemma_client_pos_range(state.clients@, client.name.0@); }
                    state.clients.set(p, node);
                },
                None => {
                    state.clients.push(node);
                },
            }
            c = c + 1;
        }
        state
    }

    /// The snapshot that lists the sessions of `state` in session order, each with
    /// its windows in window order, and the clients in client order.
    pub fn from_domain_state(state: DomainState) -> (t: Self)
        ensures
            t.sessions@.len() == state@.session_order().len(),
            forall|k: int| 0 <= k < t.sessions@.len() ==> session_from_domain(
                #[trigger] t.sessions@[k],
                state@,
                state.sessions@[state@.session_order()[k]],
            ),
            t.clients@.len() == state@.client_order().len(),
            forall|k: int| 0 <= k < t.clients@.len() ==> client_from_node(
                #[trigger] t.clients@[k],
                state.clients@[state@.client_order()[k]],
            ),
    {
        let order = state.session_positions();
        let mut sessions: Vec<Session> = Vec::new();
        let mut k: usize = 0;
        while k < order.len()
            invariant
                k <= order@.len(),
                usize_seq_as_int(order@) == state@.session_order(),
                forall|j: int| 0 <= j < order@.len() ==> #[trigger] order@[j] < state.sessions@.len(),
                sessions@.len() == k,
                forall|j: int| 0 <= j < k ==> session_from_domain(
                    #[trigger] sessions@[j],
                    state@,
                    state.sessions@[state@.session_order()[j]],
                ),
            decreases order@.len() - k,
        {
            let p = order[k];
            assert(usize_seq_as_int(order@)[k as int] == p as int);
            let node = &state.sessions[p];
            let worder = state.window_positions(node.id.as_str());
            let mut windows: Vec<Window> = Vec::new();
            let mut j: usize = 0;
            while j < worder.len()
                invariant
                    j <= worder@.len(),
                    usize_seq_as_int(worder@) == state@.window_order(node.id@),
                    forall|m: int| 0 <= m < worder@.len() ==> #[trigger] worder@[m] < state.winlinks@.len(),
                    windows@.len() == j,
                    forall|m: int| 0 <= m < j ==> window_from_state(
                        #[trigger] windows@[m],
                        state@.winlinks[state@.window_order(node.id@)[m]].1,
                    ),
                decreases worder@.len() - j,
            {
                let q = worder[j];
                assert(usize_seq_as_int(worder@)[j as int] == q as int);
                windows.push(Window::from_window_state(&state.winlinks[q].1));
                j = j + 1;
            }
            sessions.push(Session {
                id: node.id.clone(),
                name: node.name.clone(),
                attached_count: node.attached_count,
                active_window_id: clone_opt_string(&node.active_window_id),
                windows,
            });
            k = k + 1;
        }
        let corder = state.client_positions();
        let mut clients: Vec<Client> = Vec::new();
        let mut k: usize = 0;
        while k < corder.len()
            invariant
                k <= corder@.len(),
                usize_seq_as_int(corder@) == state@.client_order(),
                forall|j: int| 0 <= j < corder@.len() ==> #[trigger] corder@[j] < state.clients@.len(),
                clients@.len() == k,
                forall|j: int| 0 <= j < k ==> client_from_node(
                    #[trigger] clients@[j],
                    state.clients@[state@.client_order()[j]],
                ),
            decreases corder@.len() - k,
        {
            let p = corder[k];
            assert(usize_seq_as_int(corder@)[k as int] == p as int);
            let node = &state.clients[p];
            clients.push(Client {
                name: ClientName(node.name.0.clone()),
                session_id: node.session_id.clone(),
                current_window_id: clone_opt_string(&node.current_window_id),
                activity: node.activity,
                tty: node.tty.clone(),
            });
            k = k + 1;
        }
        TmuxState { sessions, clients }
    }

    /// One state per session of the domain form, in session order.
    pub fn session_states(&self) -> (r: Vec<SessionState>)
        ensures
            r@.len() == self.domain().session_order().len(),
            forall|k: int| 0 <= k < r@.len() ==> session_state_of(
                #[trigger] r@[k],
                self.domain(),
                self.domain().sessions[self.domain().session_order()[k]],
            ),
    {
        self.to_domain_state().session_states()
    }

    pub fn tree_rows(&self) -> (rows: Vec<TreeRow>)
        ensures
            rows@ == tree_rows_spec(self.domain(), None),
    {
        self.to_domain_state().tree_rows()
    }

    pub fn tree_rows_for_client(&self, target_client: Option<&ClientName>) -> (rows: Vec<TreeRow>)
        ensures
            rows@ == tree_rows_spec(self.domain(), target_view(target_client)),
    {
        self.to_domain_state().tree_rows_for_client(target_client)
    }

    pub fn visible_window_key(&self, target_client: Option<&ClientName>) -> (r: Option<WinlinkKey>)
        ensures
            match r {
                Some(k) => self.domain().visible_key(target_view(target_client)) == Some(k@),
                None => self.domain().visible_key(target_view(target_client)) == None::<(Seq<char>, Seq<char>)>,
            },
    {
        self.to_domain_state().visible_window_key(target_client)
    }

    /// The snapshot session and window that the target client shows: the first
    /// session with the visible key's session id and its first window with the
    /// key's window id.
    pub fn visible_window(&self, target_client: Option<&ClientName>) -> (r: Option<(&Session, &Window)>)
        ensures
            match self.domain().visible_key(target_view(target_client)) {
                None => r.is_none(),
                Some(k) => match r {
                    Some((s, w)) => exists|p: int, q: int|
                        first_session_at(self.sessions@, k.0, p) && first_window_at(
                            self.sessions@[p].windows@,
                            k.1,
                            q,
                        ) && *s == self.sessions@[p] && *w == self.sessions@[p].windows@[q],
                    None => (forall|j: int| 0 <= j < self.sessions@.len() ==> (#[trigger] self.sessions@[j]).id@ != k.0)
                        || exists|p: int| first_session_at(self.sessions@, k.0, p)
                        && forall|j: int| 0 <= j < self.sessions@[p].windows@.len()
                        ==> (#[trigger] self.sessions@[p].windows@[j]).id@ != k.1,
                },
            },
    {
        let key = match self.visible_window_key(target_client) {
            Some(k) => k,
            None => return None,
        };
        let p = match find_snapshot_session(&self.sessions, key.session_id.as_str()) {
            Some(p) => p,
            None => return None,
        };
        let session = &self.sessions[p];
        match find_snapshot_window(&session.windows, key.window_id.as_str()) {
            Some(q) => Some((session, &session.windows[q])),
            None => None,
        }
    }

    /// The snapshot session that the target client shows: the first session with
    /// the id of the domain's visible session.
    pub fn visible_session(&self, target_client: Option<&ClientName>) -> (r: Option<&Session>)
        ensures
            match self.domain().visible_session_id(target_view(target_client)) {
                None => r.is_none(),
                Some(id) => match r {
                    Some(s) => exists|p: int| first_session_at(self.sessions@, id, p) && *s == self.sessions@[p],
                    None => forall|j: int| 0 <= j < self.sessions@.len() ==> (#[trigger] self.sessions@[j]).id@ != id,
                },
            },
    {
        let domain = self.to_domain_state();
        let id = match domain.visible_session(target_client) {
            Some(session) => session.id.clone(),
            None => return None,
        };
        match find_snapshot_session(&self.sessions, id.as_str()) {
            Some(p) => Some(&self.sessions[p]),
            None => None,
        }
    }
}

/// The labels offered for jumping to rows, one per row from the top.
pub open spec fn jump_labels() -> Seq<char> {
    seq![
        'a', 's', 'd', 'f', 'g', 'h', 'j', 'k', 'l', 'q', 'w', 'e', 'r', 't', 'y', 'u', 'i', 'o',
        'p', 'z', 'x', 'c', 'v', 'b', 'n', 'm', 'A', 'S', 'D', 'F', 'G', 'H', 'J', 'K', 'L', 'Q',
        'W', 'E', 'R', 'T', 'Y', 'U', 'I', 'O', 'P', 'Z', 'X', 'C', 'V', 'B', 'N', 'M',
    ]
}

pub(crate) fn jump_label(i: usize) -> (c: char)
    requires
        i < jump_labels().len(),
    ensures
        c == jump_labels()[i as int],
{
    let labels = "asdfghjklqwertyuiopzxcvbnmASDFGHJKLQWERTYUIOPZXCVBNM";
    proof {
        reveal_strlit("asdfghjklqwertyuiopzxcvbnmASDFGHJKLQWERTYUIOPZXCVBNM");
    }
    assert(labels@ =~= jump_labels());
    labels.get_char(i)
}

/// The editor state of the UI.
#[derive(Debug, Clone, Default, PartialEq, Eq)]
pub enum Mode {
    #[default]
    Normal,
    Help,
    RenameSession { id: SessionId, original_name: String, input: InputBuffer },
    RenameWindow { session_id: SessionId, id: WindowId, original_name: String, input: InputBuffer },
    CreateSessionName { input: InputBuffer },
    CreateWindowName { session_id: SessionId, input: InputBuffer },
}

/// The text field of a mode that edits one.
pub open spec fn mode_input(m: Mode) -> Option<InputBuffer> {
    match m {
        Mode::RenameSession { input, .. } => Some(input),
        Mode::RenameWindow { input, .. } => Some(input),
        Mode::CreateSessionName { input } => Some(input),
        Mode::CreateWindowName { input, .. } => Some(input),
        Mode::Normal => None,
        Mode::Help => None,
    }
}

/// The mode `m` with its text field replaced by `b` (unchanged when it has none).
pub open spec fn with_input(m: Mode, b: InputBuffer) -> Mode {
    match m {
        Mode::RenameSession { id, original_name, .. } => Mode::RenameSession { id, original_name, input: b },
        Mode::RenameWindow { session_id, id, original_name, .. } => Mode::RenameWindow {
            session_id,
            id,
            original_name,
            input: b,
        },
        Mode::CreateSessionName { .. } => Mode::CreateSessionName { input: b },
        Mode::CreateWindowName { session_id, .. } => Mode::CreateWindowName { session_id, input: b },
        Mode::Normal => Mode::Normal,
        Mode::Help => Mode::Help,
    }
}

impl Mode {
    pub fn input_buffer(&self) -> (r: Option<&InputBuffer>)
        ensures
            match r {
                Some(b) => mode_input(*self) == Some(*b),
                None => mode_input(*self).is_none(),
            },
    {
        match self {
            Mode::RenameSession { input, .. } => Some(input),
            Mode::RenameWindow { input, .. } => Some(input),
            Mode::CreateSessionName { input } => Some(input),
            Mode::CreateWindowName { input, .. } => Some(input),
            Mode::Normal | Mode::Help => None,
        }
    }

    pub fn input_buffer_mut(&mut self) -> (r: Option<&mut InputBuffer>)
        ensures
            match r {
                Some(b) => mode_input(*old(self)) == Some(*b) && *final(self) == with_input(*old(self), *final(b)),
                None => mode_input(*old(self)).is_none() && *final(self) == *old(self),
            },
    {
        match self {
            Mode::RenameSession { input, .. } => Some(input),
            Mode::RenameWindow { input, .. } => Some(input),
            Mode::CreateSessionName { input } => Some(input),
            Mode::CreateWindowName { input, .. } => Some(input),
            Mode::Normal | Mode::Help => None,
        }
    }
}

#[derive(Debug, Clone, PartialEq, Eq)]
pub enum WindowTarget {
    Session(SessionId),
    Window { session_id: SessionId, window_id: WindowId },
}

#[derive(Debug, Clone, PartialEq, Eq)]
pub struct ActionError {
    pub message: String,
}

#[derive(Debug, Clone, PartialEq, Eq)]
pub struct Toast {
    pub message: String,
}

#[derive(Debug, Clone, Default, PartialEq, Eq)]
pub struct NavigationState {
    pub pending_g: bool,
    pub jumping: bool,
}

#[derive(Debug, Clone, PartialEq, Eq)]
pub struct JumpTarget {
    pub focus: Focus,
    pub label: char,
}

#[derive(Debug, Clone, Copy, PartialEq, Eq, Structural)]
pub enum FocusMove {
    Up,
    Down,
}

#[derive(Debug, Clone, Copy, PartialEq, Eq, Structural)]
pub enum EditAction {
    Insert(char),
    Backspace,
    Delete,
    MoveLeft,
    MoveRight,
    MoveHome,
    MoveEnd,
    Clear,
}

#[derive(Debug, Clone, Copy, PartialEq, Eq, Structural)]
pub enum FocusRecovery {
    Preserved,
    NearestRow,
}

#[derive(Debug, Clone, PartialEq, Eq)]
pub struct FocusReconcile {
    pub recovery: FocusRecovery,
    pub row_index: usize,
    pub focus: Focus,
}

/// The state of the tree view: the snapshot it shows, the focused row, the
/// editor mode and the pending navigation keys.
#[derive(Debug, Clone)]
pub struct AppState {
    pub tmux: TmuxState,
    pub focus: Focus,
    pub mode: Mode,
    pub navigation: NavigationState,
    pub target_client: Option<ClientName>,
    pub last_error: Option<ActionError>,
    pub toast: Option<Toast>,
    pub tree_loading: bool,
}

/// The name of an optional client, as text.
pub open spec fn target_of(t: Option<ClientName>) -> Option<Seq<char>> {
    match t {
        Some(n) => Some(n.0@),
        None => None,
    }
}

/// `p` is the first row focused on `f`.
pub open spec fn first_row_at(rows: Seq<TreeRow>, f: FocusView, p: int) -> bool {
    0 <= p < rows.len() && rows[p].focus@ == f && forall|j: int| 0 <= j < p ==> (#[trigger] rows[j]).focus@ != f
}

/// Position of the first row focused on `f`, or -1.
pub open spec fn focused_pos(rows: Seq<TreeRow>, f: FocusView) -> int {
    if exists|p: int| first_row_at(rows, f, p) {
        choose|p: int| first_row_at(rows, f, p)
    } else {
        -1
    }
}

proof fn lemma_first_row_unique(rows: Seq<TreeRow>, f: FocusView, p: int, q: int)
    requires
        first_row_at(rows, f, p),
        first_row_at(rows, f, q),
    ensures
        p == q,
{
    if p < q {
        assert(rows[p].focus@ == f);
    } else if q < p {
        assert(rows[q].focus@ == f);
    }
}

fn find_row(rows: &Vec<TreeRow>, f: &Focus) -> (r: Option<usize>)
    ensures
        match r {
            Some(p) => p as int == focused_pos(rows@, f@) && p < rows@.len(),
            None => focused_pos(rows@, f@) == -1,
        },
{
    let mut i: usize = 0;
    while i < rows.len()
        invariant
            i <= rows@.len(),
            forall|j: int| 0 <= j < i ==> (#[trigger] rows@[j]).focus@ != f@,
        decreases rows@.len() - i,
    {
        if rows[i].focus.same_as(f) {
            proof {
                assert(first_row_at(rows@, f@, i as int));
                let c = choose|p: int| first_row_at(rows@, f@, p);
                lemma_first_row_unique(rows@, f@, i as int, c);
            }
            return Some(i);
        }
        i = i + 1;
    }
    None
}

/// The row that a move from the focused row (or the top row when none is focused)
/// reaches: one up or one down, staying within the rows.
pub open spec fn move_target(rows: Seq<TreeRow>, f: FocusView, m: FocusMove) -> int {
    let cur = if focused_pos(rows, f) >= 0 { focused_pos(rows, f) } else { 0 };
    match m {
        FocusMove::Up => if cur > 0 { cur - 1 } else { 0 },
        FocusMove::Down => if cur + 1 < rows.len() { cur + 1 } else { rows.len() - 1 },
    }
}

/// `p` is the first of the `n` labels equal to `label`.
pub open spec fn first_label_at(label: char, n: int, p: int) -> bool {
    0 <= p < n && p < jump_labels().len() && jump_labels()[p] == label && forall|j: int|
        0 <= j < p ==> #[trigger] jump_labels()[j] != label
}

/// The number of jump targets for `n` rows: one label per row, as far as labels go.
pub open spec fn jump_count(n: int) -> int {
    if n < jump_labels().len() { n } else { jump_labels().len() as int }
}

/// The focus that the visible target of `t` gives: the visible window row, or else
/// the row of the visible session when the snapshot lists it.
pub open spec fn visible_focus(t: TmuxState, target: Option<Seq<char>>) -> Option<FocusView> {
    match t.domain().visible_key(target) {
        Some(k) => Some(FocusView::Window(k.0, k.1)),
        None => match t.domain().visible_session_id(target) {
            Some(id) => if exists|j: int| 0 <= j < t.sessions@.len() && (#[trigger] t.sessions@[j]).id@ == id {
                Some(FocusView::Session(id))
            } else {
                None
            },
            None => None,
        },
    }
}

/// The effect of an edit action on a text field: the new field and whether it
/// changed.
pub open spec fn edit_step(v: crate::input::InputView, a: EditAction) -> (crate::input::InputView, bool) {
    let c = v.cursor;
    let t = v.text;
    match a {
        EditAction::Insert(ch) => if ch == '\n' || ch == '\r' {
            (v, false)
        } else {
            (crate::input::InputView { text: t.insert(c as int, ch), cursor: c + 1 }, true)
        },
        EditAction::Backspace => if c > 0 {
            (crate::input::InputView { text: t.remove(c - 1), cursor: (c - 1) as nat }, true)
        } else {
            (v, false)
        },
        EditAction::Delete => if c < t.len() {
            (crate::input::InputView { text: t.remove(c as int), cursor: c }, true)
        } else {
            (v, false)
        },
        EditAction::MoveLeft => if c > 0 {
            (crate::input::InputView { text: t, cursor: (c - 1) as nat }, true)
        } else {
            (v, false)
        },
        EditAction::MoveRight => if c < t.len() {
            (crate::input::InputView { text: t, cursor: c + 1 }, true)
        } else {
            (v, false)
        },
        EditAction::MoveHome => (crate::input::InputView { text: t, cursor: 0 }, c > 0),
        EditAction::MoveEnd => (crate::input::InputView { text: t, cursor: t.len() }, c != t.len()),
        EditAction::Clear => if t.len() == 0 {
            (v, false)
        } else {
            (crate::input::InputView { text: Seq::empty(), cursor: 0 }, true)
        },
    }
}

fn edit_input(b: &mut InputBuffer, a: EditAction) -> (changed: bool)
    ensures
        (final(b)@, changed) == edit_step(old(b)@, a),
{
    match a {
        EditAction::Insert(ch) => b.insert_char(ch),
        EditAction::Backspace => b.backspace(),
        EditAction::Delete => b.delete(),
        EditAction::MoveLeft => b.move_left(),
        EditAction::MoveRight => b.move_right(),
        EditAction::MoveHome => b.move_home(),
        EditAction::MoveEnd => b.move_end(),
        EditAction::Clear => {
            if b.is_empty() {
                false
            } else {
                b.clear();
                true
            }
        },
    }
}

/// Replacing the snapshot of `before` by `tmux` gave `after` and `r`: the
/// focus stays on its row when the row is still there, and otherwise moves to
/// the row nearest to where it was.
pub open spec fn reconciled(before: AppState, tmux: TmuxState, after: AppState, r: FocusReconcile) -> bool {
    &&& after.tmux == tmux
    &&& ({
        let prev_rows = before.rows();
        let prev_pos = focused_pos(prev_rows, before.focus@);
        let prev_index = if prev_pos >= 0 { prev_pos } else if prev_rows.len() > 0 { prev_rows.len() - 1 } else { 0 };
        let rows = after.rows();
        let pos = focused_pos(rows, before.focus@);
        let last = if rows.len() > 0 { rows.len() - 1 } else { 0 };
        let index = if pos >= 0 { pos } else if prev_index < last { prev_index } else { last };
        &&& r.recovery == (if pos >= 0 { FocusRecovery::Preserved } else { FocusRecovery::NearestRow })
        &&& r.row_index == index
        &&& after.focus == (if index < rows.len() { rows[index].focus } else { Focus::CreateSession })
        &&& r.focus == after.focus
        &&& pos >= 0 ==> after.focus@ == before.focus@
    })
    &&& after.mode == before.mode
    &&& after.navigation == before.navigation
    &&& after.target_client == before.target_client
    &&& after.last_error == before.last_error
    &&& after.toast == before.toast
    &&& after.tree_loading == before.tree_loading
}

proof fn lemma_some_first_row(rows: Seq<TreeRow>, f: FocusView, q: int)
    requires
        0 <= q < rows.len(),
        rows[q].focus@ == f,
    ensures
        exists|p: int| first_row_at(rows, f, p),
    decreases q,
{
    if exists|j: int| 0 <= j < q && (#[trigger] rows[j]).focus@ == f {
        let j = choose|j: int| 0 <= j < q && (#[trigger] rows[j]).focus@ == f;
        lemma_some_first_row(rows, f, j);
    } else {
        assert(first_row_at(rows, f, q));
    }
}

/// Reconciling keeps the focus on its row while some row of the new tree
/// still has that focus; otherwise the focus moves to the row at its old
/// position, or to the last row when the tree got shorter than that, and never
/// farther away. The focus always names a row of the new tree.
pub proof fn law_reconcile_keeps_focus_nearby(before: AppState, tmux: TmuxState, after: AppState, r: FocusReconcile)
    requires
        reconciled(before, tmux, after, r),
    ensures
        ({
            let prev = before.rows();
            let rows = after.rows();
            let old_pos = focused_pos(prev, before.focus@);
            let was = if old_pos >= 0 { old_pos } else { prev.len() - 1 };
            let kept = exists|q: int| 0 <= q < rows.len() && (#[trigger] rows[q]).focus@ == before.focus@;
            &&& prev.len() >= 1 && rows.len() >= 1
            &&& 0 <= r.row_index < rows.len()
            &&& after.focus == rows[r.row_index as int].focus
            &&& r.focus == after.focus
            &&& kept ==> r.recovery == FocusRecovery::Preserved && after.focus@ == before.focus@
            &&& !kept ==> r.recovery == FocusRecovery::NearestRow && r.row_index <= was && r.row_index <= rows.len() - 1
                && (r.row_index == was || r.row_index == rows.len() - 1)
        }),
{
    let prev = before.rows();
    let rows = after.rows();
    let f = before.focus@;
    assert(prev.len() >= 1);
    assert(rows.len() >= 1);
    if exists|q: int| 0 <= q < rows.len() && (#[trigger] rows[q]).focus@ == f {
        let q = choose|q: int| 0 <= q < rows.len() && (#[trigger] rows[q]).focus@ == f;
        lemma_some_first_row(rows, f, q);
        assert(focused_pos(rows, f) >= 0);
    } else {
        if focused_pos(rows, f) >= 0 {
            let p = focused_pos(rows, f);
            assert(first_row_at(rows, f, p));
            assert(rows[p].focus@ == f);
        }
    }
    if focused_pos(prev, f) >= 0 {
        assert(first_row_at(prev, f, focused_pos(prev, f)));
    }
    if focused_pos(rows, f) >= 0 {
        assert(first_row_at(rows, f, focused_pos(rows, f)));
    }
}

/// Focusing the visible target took `before` to `after`: the row of the
/// window (or else the session) that the target client shows, when there is
/// one and it is not focused already.
pub open spec fn visible_targeted(before: AppState, after: AppState, changed: bool) -> bool {
    &&& changed == (match visible_focus(before.tmux, target_of(before.target_client)) {
        Some(v) => v != before.focus@,
        None => false,
    })
    &&& changed ==> Some(after.focus@) == visible_focus(before.tmux, target_of(before.target_client))
    &&& !changed ==> after.focus == before.focus
    &&& AppState::same_but_focus(after, before)
}

impl AppState {
    /// The rows of the tree as the target client sees it.
    pub open spec fn rows(self) -> Seq<TreeRow> {
        tree_rows_spec(self.tmux.domain(), target_of(self.target_client))
    }

    /// `a` and `b` differ at most in their focus.
    pub open spec fn same_but_focus(a: AppState, b: AppState) -> bool {
        &&& a.tmux == b.tmux
        &&& a.mode == b.mode
        &&& a.navigation == b.navigation
        &&& a.target_client == b.target_client
        &&& a.last_error == b.last_error
        &&& a.toast == b.toast
        &&& a.tree_loading == b.tree_loading
    }

    /// `a` and `b` differ at most in their navigation keys.
    pub open spec fn same_but_navigation(a: AppState, b: AppState) -> bool {
        &&& a.tmux == b.tmux
        &&& a.focus == b.focus
        &&& a.mode == b.mode
        &&& a.target_client == b.target_client
        &&& a.last_error == b.last_error
        &&& a.toast == b.toast
        &&& a.tree_loading == b.tree_loading
    }

    pub fn from_tmux(tmux: TmuxState) -> (s: Self)
        ensures
            s.tmux == tmux,
            s.focus == Focus::CreateSession,
            s.mode == Mode::Normal,
            s.navigation == (NavigationState { pending_g: false, jumping: false }),
            s.target_client.is_none(),
            s.last_error.is_none(),
            s.toast.is_none(),
            !s.tree_loading,
    {
        AppState {
            tmux,
            focus: Focus::CreateSession,
            mode: Mode::Normal,
            navigation: NavigationState { pending_g: false, jumping: false },
            target_client: None,
            last_error: None,
            toast: None,
            tree_loading: false,
        }
    }

    /// Whether the tree is still waiting for its first snapshot.
    pub fn is_tree_loading(&self) -> (b: bool)
        ensures
            b == (self.tree_loading || (self.target_client.is_some() && self.tmux.sessions@.len() == 0)),
    {
        self.tree_loading || (self.target_client.is_some() && self.tmux.sessions.len() == 0)
    }

    pub fn tree_rows(&self) -> (rows: Vec<TreeRow>)
        ensures
            rows@ == self.rows(),
    {
        let target: Option<&ClientName> = match &self.target_client {
            Some(n) => Some(n),
            None => None,
        };
        self.tmux.tree_rows_for_client(target)
    }

    pub fn focused_row_index(&self) -> (r: Option<usize>)
        ensures
            match r {
                Some(p) => p as int == focused_pos(self.rows(), self.focus@),
                None => focused_pos(self.rows(), self.focus@) == -1,
            },
    {
        let rows = self.tree_rows();
        find_row(&rows, &self.focus)
    }

    fn focus_row_index(&mut self, index: usize) -> (changed: bool)
        ensures
            changed == (index < old(self).rows().len() && old(self).rows()[index as int].focus@ != old(self).focus@),
            final(self).focus == (if changed { old(self).rows()[index as int].focus } else { old(self).focus }),
            Self::same_but_focus(*final(self), *old(self)),
    {
        let rows = self.tree_rows();
        if index >= rows.len() {
            return false;
        }
        if rows[index].focus.same_as(&self.focus) {
            return false;
        }
        self.focus = rows[index].focus.clone();
        true
    }

    /// Focuses the top row.
    pub fn focus_first_row(&mut self) -> (changed: bool)
        ensures
            changed == (old(self).rows().len() > 0 && old(self).rows()[0].focus@ != old(self).focus@),
            final(self).focus == (if changed { old(self).rows()[0].focus } else { old(self).focus }),
            Self::same_but_focus(*final(self), *old(self)),
    {
        self.focus_row_index(0)
    }

    /// Focuses the bottom row.
    pub fn focus_last_row(&mut self) -> (changed: bool)
        ensures
            changed == (old(self).rows().len() > 0 && old(self).rows().last().focus@ != old(self).focus@),
            final(self).focus == (if changed { old(self).rows().last().focus } else { old(self).focus }),
            Self::same_but_focus(*final(self), *old(self)),
    {
        let rows = self.tree_rows();
        if rows.len() == 0 {
            return false;
        }
        self.focus_row_index(rows.len() - 1)
    }

    /// Moves the focus one row up or down.
    pub fn move_focus(&mut self, movement: FocusMove) -> (changed: bool)
        ensures
            changed == (old(self).rows().len() > 0 && old(self).rows()[move_target(
                old(self).rows(),
                old(self).focus@,
                movement,
            )].focus@ != old(self).focus@),
            final(self).focus == (if changed {
                old(self).rows()[move_target(old(self).rows(), old(self).focus@, movement)].focus
            } else {
                old(self).focus
            }),
            Self::same_but_focus(*final(self), *old(self)),
    {
        let rows = self.tree_rows();
        if rows.len() == 0 {
            return false;
        }
        let current = match find_row(&rows, &self.focus) {
            Some(p) => p,
            None => 0,
        };
        let target = match movement {
            FocusMove::Up => if current > 0 { current - 1 } else { 0 },
            FocusMove::Down => if current + 1 < rows.len() { current + 1 } else { rows.len() - 1 },
        };
        if rows[target].focus.same_as(&self.focus) {
            return false;
        }
        self.focus = rows[target].focus.clone();
        true
    }

    /// Starts a `g` key prefix, unless one is pending.
    pub fn start_g_prefix(&mut self) -> (changed: bool)
        ensures
            changed == !old(self).navigation.pending_g,
            final(self).navigation == (if changed {
                NavigationState { pending_g: true, jumping: false }
            } else {
                old(self).navigation
            }),
            Self::same_but_navigation(*final(self), *old(self)),
    {
        if self.navigation.pending_g {
            return false;
        }
        self.navigation.pending_g = true;
        self.navigation.jumping = false;
        true
    }

    pub fn clear_g_prefix(&mut self) -> (changed: bool)
        ensures
            changed == old(self).navigation.pending_g,
            final(self).navigation == (NavigationState { pending_g: false, jumping: old(self).navigation.jumping }),
            Self::same_but_navigation(*final(self), *old(self)),
    {
        if !self.navigation.pending_g {
            return false;
        }
        self.navigation.pending_g = false;
        true
    }

    /// Enters jump mode, unless the tree has no row.
    pub fn start_jump(&mut self) -> (changed: bool)
        ensures
            changed == (old(self).rows().len() > 0),
            final(self).navigation == (if changed {
                NavigationState { pending_g: false, jumping: true }
            } else {
                old(self).navigation
            }),
            Self::same_but_navigation(*final(self), *old(self)),
    {
        let rows = self.tree_rows();
        if rows.len() == 0 {
            return false;
        }
        self.navigation.pending_g = false;
        self.navigation.jumping = true;
        true
    }

    pub fn cancel_jump(&mut self) -> (changed: bool)
        ensures
            changed == old(self).navigation.jumping,
            final(self).navigation == (NavigationState { pending_g: old(self).navigation.pending_g, jumping: false }),
            Self::same_but_navigation(*final(self), *old(self)),
    {
        if !self.navigation.jumping {
            return false;
        }
        self.navigation.jumping = false;
        true
    }

    pub fn clear_navigation(&mut self)
        ensures
            final(self).navigation == (NavigationState { pending_g: false, jumping: false }),
            Self::same_but_navigation(*final(self), *old(self)),
    {
        self.navigation = NavigationState { pending_g: false, jumping: false };
    }

    /// The labelled rows while jumping: the first rows of the tree, one per label.
    pub fn jump_targets(&self) -> (targets: Vec<JumpTarget>)
        ensures
            targets@.len() == (if self.navigation.jumping { jump_count(self.rows().len() as int) } else { 0 }),
            forall|i: int| 0 <= i < targets@.len() ==> (#[trigger] targets@[i]).focus == self.rows()[i].focus
                && targets@[i].label == jump_labels()[i],
    {
        if !self.navigation.jumping {
            return Vec::new();
        }
        jump_targets_for_rows(&self.tree_rows())
    }

    /// Focuses the row that carries `label`, while jumping.
    pub fn focus_jump_label(&mut self, label: char) -> (found: bool)
        ensures
            found == (old(self).navigation.jumping && exists|p: int| first_label_at(label, jump_count(old(self).rows().len() as int), p)),
            found ==> exists|p: int| first_label_at(label, jump_count(old(self).rows().len() as int), p)
                && final(self).focus == old(self).rows()[p].focus,
            !found ==> final(self).focus == old(self).focus,
            Self::same_but_focus(*final(self), *old(self)),
    {
        let targets = self.jump_targets();
        let ghost n = jump_count(self.rows().len() as int);
        let mut i: usize = 0;
        while i < targets.len()
            invariant
                i <= targets@.len(),
                *self == *old(self),
                n == jump_count(self.rows().len() as int),
                self.navigation.jumping ==> targets@.len() == n,
                !self.navigation.jumping ==> targets@.len() == 0,
                forall|k: int| 0 <= k < targets@.len() ==> (#[trigger] targets@[k]).focus == self.rows()[k].focus
                    && targets@[k].label == jump_labels()[k],
                forall|j: int| 0 <= j < i ==> #[trigger] jump_labels()[j] != label,
            decreases targets@.len() - i,
        {
            if targets[i].label == label {
                assert(first_label_at(label, n, i as int));
                self.focus = targets[i].focus.clone();
                return true;
            }
            i = i + 1;
        }
        proof {
            if self.navigation.jumping {
                assert forall|p: int| !first_label_at(label, n, p) by {
                    if first_label_at(label, n, p) {
                        assert(jump_labels()[p] == label);
                    }
                }
            }
        }
        false
    }

    /// Replaces the snapshot and keeps the focus on the same row when it still
    /// exists; otherwise focuses the row nearest to where the focus was.
    pub fn reconcile_tmux(&mut self, tmux: TmuxState) -> (r: FocusReconcile)
        ensures
            reconciled(*old(self), tmux, *final(self), r),
    {
        let previous_rows = self.tree_rows();
        let previous_index = match find_row(&previous_rows, &self.focus) {
            Some(p) => p,
            None => if previous_rows.len() > 0 { previous_rows.len() - 1 } else { 0 },
        };
        self.tmux = tmux;
        let rows = self.tree_rows();
        let (recovery, row_index) = match find_row(&rows, &self.focus) {
            Some(p) => {
                proof {
                    assert(first_row_at(rows@, old(self).focus@, p as int));
                }
                (FocusRecovery::Preserved, p)
            },
            None => {
                let last = if rows.len() > 0 { rows.len() - 1 } else { 0 };
                (FocusRecovery::NearestRow, if previous_index < last { previous_index } else { last })
            },
        };
        self.focus = if row_index < rows.len() { rows[row_index].focus.clone() } else { Focus::CreateSession };
        FocusReconcile { recovery, row_index, focus: self.focus.clone() }
    }

    /// Focuses the row of the window (or else the session) that the target client
    /// shows.
    pub fn focus_visible_target(&mut self) -> (changed: bool)
        ensures
            visible_targeted(*old(self), *final(self), changed),
    {
        let target: Option<&ClientName> = match &self.target_client {
            Some(n) => Some(n),
            None => None,
        };
        let next = match self.tmux.visible_window_key(target) {
            Some(key) => Focus::winlink(key),
            None => match self.tmux.visible_session(target) {
                Some(session) => Focus::Session(session.id.clone()),
                None => return false,
            },
        };
        if next.same_as(&self.focus) {
            return false;
        }
        self.focus = next;
        true
    }

    pub fn edit_buffer(&self) -> (r: Option<&InputBuffer>)
        ensures
            match r {
                Some(b) => mode_input(self.mode) == Some(*b),
                None => mode_input(self.mode).is_none(),
            },
    {
        self.mode.input_buffer()
    }

    pub fn edit_buffer_mut(&mut self) -> (r: Option<&mut InputBuffer>)
        ensures
            match r {
                Some(b) => mode_input(old(self).mode) == Some(*b) && final(self).mode == with_input(old(self).mode, *final(b)),
                None => mode_input(old(self).mode).is_none() && final(self).mode == old(self).mode,
            },
            final(self).tmux == old(self).tmux,
            final(self).focus == old(self).focus,
            final(self).navigation == old(self).navigation,
            final(self).target_client == old(self).target_client,
            final(self).last_error == old(self).last_error,
            final(self).toast == old(self).toast,
            final(self).tree_loading == old(self).tree_loading,
    {
        self.mode.input_buffer_mut()
    }

    /// Applies an edit action to the text field of the current mode.
    pub fn apply_edit_action(&mut self, action: EditAction) -> (changed: bool)
        ensures
            match mode_input(old(self).mode) {
                None => !changed && final(self).mode == old(self).mode,
                Some(b) => mode_input(final(self).mode) matches Some(b2) && final(self).mode == with_input(old(self).mode, b2)
                    && (b2@, changed) == edit_step(b@, action),
            },
            final(self).tmux == old(self).tmux,
            final(self).focus == old(self).focus,
            final(self).navigation == old(self).navigation,
            final(self).target_client == old(self).target_client,
            final(self).last_error == old(self).last_error,
            final(self).toast == old(self).toast,
            final(self).tree_loading == old(self).tree_loading,
    {
        match &mut self.mode {
            Mode::RenameSession { input, .. } => edit_input(input, action),
            Mode::RenameWindow { input, .. } => edit_input(input, action),
            Mode::CreateSessionName { input } => edit_input(input, action),
            Mode::CreateWindowName { input, .. } => edit_input(input, action),
            Mode::Normal | Mode::Help => false,
        }
    }
}

impl Default for AppState {
    fn default() -> (s: Self)
        ensures
            s.tmux.sessions@.len() == 0,
            s.tmux.clients@.len() == 0,
            s.focus == Focus::CreateSession,
            s.mode == Mode::Normal,
            s.navigation == (NavigationState { pending_g: false, jumping: false }),
            s.target_client.is_none(),
            s.last_error.is_none(),
            s.toast.is_none(),
            !s.tree_loading,
    {
        AppState::from_tmux(TmuxState { sessions: Vec::new(), clients: Vec::new() })
    }
}

/// One jump target per row from the top, as far as labels go.
fn jump_targets_for_rows(rows: &Vec<TreeRow>) -> (targets: Vec<JumpTarget>)
    ensures
        targets@.len() == jump_count(rows@.len() as int),
        forall|i: int| 0 <= i < targets@.len() ==> (#[trigger] targets@[i]).focus == rows@[i].focus
            && targets@[i].label == jump_labels()[i],
{
    let mut targets: Vec<JumpTarget> = Vec::new();
    let mut i: usize = 0;
    while i < rows.len() && i < 52
        invariant
            i <= rows@.len(),
            i <= 52,
            jump_labels().len() == 52,
            targets@.len() == i,
            forall|k: int| 0 <= k < i ==> (#[trigger] targets@[k]).focus == rows@[k].focus
                && targets@[k].label == jump_labels()[k],
        decreases rows@.len() - i,
    {
        targets.push(JumpTarget { focus: rows[i].focus.clone(), label: jump_label(i) });
        i = i + 1;
    }
    targets
}

} // verus!
