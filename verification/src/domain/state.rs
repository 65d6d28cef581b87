//! Normalized tmux state: sessions, session-local winlinks and clients.
use vstd::prelude::*;

use crate::order::{
    all_positions, positions_upto, sort_positions, sort_positions_exec, usize_seq_as_int, KeyOrder,
};
use crate::text::{contains_char, str_eq, str_lt, text_lt, to_owned_string};

verus! {

pub type SessionId = String;

pub type WindowId = String;

#[derive(Debug, Clone, Default, PartialEq, Eq, PartialOrd, Ord, Hash)]
pub struct ClientName(pub String);

/// A window as linked into one session: linked windows get one key per session.
#[derive(Debug, PartialEq, Eq, PartialOrd, Ord, Hash)]
pub struct WinlinkKey {
    pub session_id: SessionId,
    pub window_id: WindowId,
}

impl View for WinlinkKey {
    type V = (Seq<char>, Seq<char>);

    open spec fn view(&self) -> (Seq<char>, Seq<char>) {
        (self.session_id@, self.window_id@)
    }
}

impl Clone for WinlinkKey {
    fn clone(&self) -> (k: Self)
        ensures
            k == *self,
    {
        WinlinkKey { session_id: self.session_id.clone(), window_id: self.window_id.clone() }
    }
}

impl WinlinkKey {
    pub fn new(session_id: &str, window_id: &str) -> (k: Self)
        ensures
            k.session_id@ == session_id@,
            k.window_id@ == window_id@,
    {
        WinlinkKey { session_id: to_owned_string(session_id), window_id: to_owned_string(window_id) }
    }

    /// Whether both keys name the same winlink.
    pub fn same_as(&self, other: &WinlinkKey) -> (b: bool)
        ensures
            b == (self@ == other@),
    {
        self.session_id == other.session_id && self.window_id == other.window_id
    }
}

/// The alert state shown for a window: only bell alerts are surfaced.
#[derive(Debug, Clone, Copy, Default, PartialEq, Eq, Structural)]
pub enum WindowAlert {
    #[default]
    Clear,
    Bell,
}

impl WindowAlert {
    pub fn from_indicators(_has_activity: bool, has_bell: bool, _has_silence: bool) -> (a: Self)
        ensures
            a == (if has_bell { WindowAlert::Bell } else { WindowAlert::Clear }),
    {
        if has_bell {
            WindowAlert::Bell
        } else {
            WindowAlert::Clear
        }
    }

    /// The alert that tmux window flags announce (`!` marks a bell).
    pub fn from_flags(flags: &str) -> (a: Self)
        ensures
            a == (if flags@.contains('!') { WindowAlert::Bell } else { WindowAlert::Clear }),
    {
        let activity = contains_char(flags, '#');
        let bell = contains_char(flags, '!');
        let silence = contains_char(flags, '~');
        WindowAlert::from_indicators(activity, bell, silence)
    }

    pub fn is_alerting(self) -> (b: bool)
        ensures
            b == (self == WindowAlert::Bell),
    {
        match self {
            WindowAlert::Bell => true,
            WindowAlert::Clear => false,
        }
    }
}

#[derive(Debug, Default, PartialEq, Eq)]
pub struct SessionNode {
    pub id: SessionId,
    pub name: String,
    pub attached_count: u32,
    pub active_window_id: Option<WindowId>,
    pub order: usize,
}

pub fn clone_opt_string(s: &Option<String>) -> (r: Option<String>)
    ensures
        r == *s,
{
    match s {
        Some(v) => Some(v.clone()),
        None => None,
    }
}

impl Clone for SessionNode {
    fn clone(&self) -> (r: Self)
        ensures
            r == *self,
    {
        SessionNode {
            id: self.id.clone(),
            name: self.name.clone(),
            attached_count: self.attached_count,
            active_window_id: clone_opt_string(&self.active_window_id),
            order: self.order,
        }
    }
}

/// The key of the session's active window, if it has one.
pub open spec fn active_key_of(id: String, active: Option<String>) -> Option<WinlinkKey> {
    match active {
        Some(w) => Some(WinlinkKey { session_id: id, window_id: w }),
        None => None,
    }
}

impl SessionNode {
    pub fn active_window_key(&self) -> (k: Option<WinlinkKey>)
        ensures
            k == active_key_of(self.id, self.active_window_id),
    {
        match &self.active_window_id {
            Some(window_id) => Some(WinlinkKey { session_id: self.id.clone(), window_id: window_id.clone() }),
            None => None,
        }
    }
}

impl KeyOrder for SessionNode {
    open spec fn key_lt(&self, other: &Self) -> bool {
        self.order < other.order || (self.order == other.order && text_lt(self.id@, other.id@))
    }

    fn key_less(&self, other: &Self) -> (r: bool) {
        self.order < other.order || (self.order == other.order && str_lt(self.id.as_str(), other.id.as_str()))
    }
}

#[derive(Debug, Default, PartialEq, Eq)]
pub struct WindowState {
    pub id: WindowId,
    pub index: u32,
    pub name: String,
    pub active: bool,
    pub activity: u64,
    pub activity_flag: bool,
    pub bell_flag: bool,
    pub silence_flag: bool,
}

impl Clone for WindowState {
    fn clone(&self) -> (r: Self)
        ensures
            r == *self,
    {
        WindowState {
            id: self.id.clone(),
            index: self.index,
            name: self.name.clone(),
            active: self.active,
            activity: self.activity,
            activity_flag: self.activity_flag,
            bell_flag: self.bell_flag,
            silence_flag: self.silence_flag,
        }
    }
}

/// The alert a window shows: a bell when its bell flag is set.
pub open spec fn alert_of(w: WindowState) -> WindowAlert {
    if w.bell_flag { WindowAlert::Bell } else { WindowAlert::Clear }
}

impl WindowState {
    pub fn alert(&self) -> (a: WindowAlert)
        ensures
            a == alert_of(*self),
    {
        WindowAlert::from_indicators(self.activity_flag, self.bell_flag, self.silence_flag)
    }
}

/// A winlink entry: its key and the window state it holds.
pub type Winlink = (WinlinkKey, WindowState);

impl KeyOrder for (WinlinkKey, WindowState) {
    open spec fn key_lt(&self, other: &Self) -> bool {
        self.1.index < other.1.index || (self.1.index == other.1.index && text_lt(
            self.0.window_id@,
            other.0.window_id@,
        ))
    }

    fn key_less(&self, other: &Self) -> (r: bool) {
        self.1.index < other.1.index || (self.1.index == other.1.index && str_lt(
            self.0.window_id.as_str(),
            other.0.window_id.as_str(),
        ))
    }
}

#[derive(Debug, Default, PartialEq, Eq)]
pub struct ClientNode {
    pub name: ClientName,
    pub session_id: SessionId,
    pub current_window_id: Option<WindowId>,
    pub activity: u64,
    pub tty: String,
    pub order: usize,
}

impl Clone for ClientNode {
    fn clone(&self) -> (r: Self)
        ensures
            r == *self,
    {
        ClientNode {
            name: ClientName(self.name.0.clone()),
            session_id: self.session_id.clone(),
            current_window_id: clone_opt_string(&self.current_window_id),
            activity: self.activity,
            tty: self.tty.clone(),
            order: self.order,
        }
    }
}

impl KeyOrder for ClientNode {
    open spec fn key_lt(&self, other: &Self) -> bool {
        self.order < other.order || (self.order == other.order && text_lt(self.name.0@, other.name.0@))
    }

    fn key_less(&self, other: &Self) -> (r: bool) {
        self.order < other.order || (self.order == other.order && str_lt(
            self.name.0.as_str(),
            other.name.0.as_str(),
        ))
    }
}

/// A session with its windows, in window order.
#[derive(Debug, Default, PartialEq, Eq)]
pub struct SessionState {
    pub id: SessionId,
    pub name: String,
    pub attached_count: u32,
    pub active_window_id: Option<WindowId>,
    pub windows: Vec<(WinlinkKey, WindowState)>,
}

impl SessionState {
    pub fn active_window_key(&self) -> (k: Option<WinlinkKey>)
        ensures
            k == active_key_of(self.id, self.active_window_id),
    {
        match &self.active_window_id {
            Some(window_id) => Some(WinlinkKey { session_id: self.id.clone(), window_id: window_id.clone() }),
            None => None,
        }
    }
}

/// Canonical normalized tmux snapshot state.
///
/// Linked windows are represented as session-local winlinks in `winlinks`, keyed by the
/// `(session_id, window_id)` pair. Each list stands for a map from its key: lookups take
/// the first entry with a matching key.
#[derive(Debug, Default, PartialEq, Eq)]
pub struct DomainState {
    pub tmux_socket_path: String,
    pub sessions: Vec<SessionNode>,
    pub winlinks: Vec<(WinlinkKey, WindowState)>,
    pub clients: Vec<ClientNode>,
}

/// Position of the first session with id `id`, or -1.
pub open spec fn session_pos(s: Seq<SessionNode>, id: Seq<char>) -> int
    decreases s.len(),
{
    if s.len() == 0 {
        -1
    } else {
        let p = session_pos(s.drop_last(), id);
        if p >= 0 {
            p
        } else if s.last().id@ == id {
            s.len() - 1
        } else {
            -1
        }
    }
}

/// Position of the first client named `name`, or -1.
pub open spec fn client_pos(s: Seq<ClientNode>, name: Seq<char>) -> int
    decreases s.len(),
{
    if s.len() == 0 {
        -1
    } else {
        let p = client_pos(s.drop_last(), name);
        if p >= 0 {
            p
        } else if s.last().name.0@ == name {
            s.len() - 1
        } else {
            -1
        }
    }
}

/// Position of the first winlink with key `(sid, wid)`, or -1.
pub open spec fn winlink_pos(s: Seq<(WinlinkKey, WindowState)>, sid: Seq<char>, wid: Seq<char>) -> int
    decreases s.len(),
{
    if s.len() == 0 {
        -1
    } else {
        let p = winlink_pos(s.drop_last(), sid, wid);
        if p >= 0 {
            p
        } else if s.last().0.session_id@ == sid && s.last().0.window_id@ == wid {
            s.len() - 1
        } else {
            -1
        }
    }
}

/// `a` ranks at or below `b` by (activity, order, name).
pub open spec fn client_rank_le(a: ClientNode, b: ClientNode) -> bool {
    a.activity < b.activity || (a.activity == b.activity && (a.order < b.order || (a.order == b.order
        && !text_lt(b.name.0@, a.name.0@))))
}

/// Position of the client that ranks highest by (activity, order, name), the later one
/// on a full tie; -1 when there is no client.
pub open spec fn best_client(s: Seq<ClientNode>) -> int
    decreases s.len(),
{
    if s.len() == 0 {
        -1
    } else {
        let b = best_client(s.drop_last());
        if b < 0 || client_rank_le(s[b], s.last()) {
            s.len() - 1
        } else {
            b
        }
    }
}

/// Positions of the winlinks among the first `n` that belong to session `sid`, in order.
pub open spec fn session_winlink_positions(s: Seq<(WinlinkKey, WindowState)>, sid: Seq<char>, n: nat) -> Seq<int>
    decreases n,
{
    if n == 0 {
        Seq::empty()
    } else {
        let prev = session_winlink_positions(s, sid, (n - 1) as nat);
        if s[n - 1].0.session_id@ == sid {
            prev.push(n - 1)
        } else {
            prev
        }
    }
}

/// The keys as pairs of texts.
pub open spec fn key_views(s: Seq<WinlinkKey>) -> Seq<(Seq<char>, Seq<char>)> {
    s.map_values(|k: WinlinkKey| k@)
}

/// Number of winlinks with a bell alert.
pub open spec fn bell_count(s: Seq<(WinlinkKey, WindowState)>) -> nat
    decreases s.len(),
{
    if s.len() == 0 {
        0
    } else {
        bell_count(s.drop_last()) + if s.last().1.bell_flag { 1nat } else { 0nat }
    }
}

/// The alert count of winlinks is the number of them whose bell flag is set;
/// whether a window is active, or has activity or silence, does not count.
pub proof fn law_bell_count_counts_bells(s: Seq<(WinlinkKey, WindowState)>)
    ensures
        bell_count(s) == s.filter(|e: (WinlinkKey, WindowState)| e.1.bell_flag).len(),
    decreases s.len(),
{
    reveal(Seq::filter);
    if s.len() > 0 {
        law_bell_count_counts_bells(s.drop_last());
    }
}

/// `r` is the state of session `n` of `d`, with its winlinks in window order.
pub open spec fn session_state_of(r: SessionState, d: DomainView, n: SessionNode) -> bool {
    &&& r.id == n.id
    &&& r.name == n.name
    &&& r.attached_count == n.attached_count
    &&& r.active_window_id == n.active_window_id
    &&& r.windows@.len() == d.window_order(n.id@).len()
    &&& forall|j: int| 0 <= j < r.windows@.len() ==> #[trigger] r.windows@[j] == d.winlinks[d.window_order(n.id@)[j]]
}

/// Abstract contents of a [`DomainState`]: its lists as sequences.
pub struct DomainView {
    pub tmux_socket_path: Seq<char>,
    pub sessions: Seq<SessionNode>,
    pub winlinks: Seq<(WinlinkKey, WindowState)>,
    pub clients: Seq<ClientNode>,
}

impl View for DomainState {
    type V = DomainView;

    open spec fn view(&self) -> DomainView {
        DomainView {
            tmux_socket_path: self.tmux_socket_path@,
            sessions: self.sessions@,
            winlinks: self.winlinks@,
            clients: self.clients@,
        }
    }
}

impl DomainView {
    /// The winlink that client `c` shows: its current window, or else the active window
    /// of its session.
    pub open spec fn viewed_key_of(self, c: int) -> Option<(Seq<char>, Seq<char>)> {
        let client = self.clients[c];
        match client.current_window_id {
            Some(w) => Some((client.session_id@, w@)),
            None => {
                let sp = session_pos(self.sessions, client.session_id@);
                if sp < 0 {
                    None
                } else {
                    match self.sessions[sp].active_window_id {
                        Some(w) => Some((client.session_id@, w@)),
                        None => None,
                    }
                }
            },
        }
    }

    /// The winlinks shown by the first `n` clients, in client order.
    pub open spec fn viewed_keys_upto(self, n: nat) -> Seq<(Seq<char>, Seq<char>)>
        decreases n,
    {
        if n == 0 {
            Seq::empty()
        } else {
            let prev = self.viewed_keys_upto((n - 1) as nat);
            match self.viewed_key_of(n - 1) {
                Some(k) => prev.push(k),
                None => prev,
            }
        }
    }

    /// Position of the client shown by `target`: the named client, or else the client
    /// with the highest (activity, order, name); -1 when there is none.
    pub open spec fn visible_client_pos(self, target: Option<Seq<char>>) -> int {
        match target {
            Some(name) => client_pos(self.clients, name),
            None => best_client(self.clients),
        }
    }

    /// The winlink that the target client shows: its current window, or else its
    /// session's active window, when that winlink exists.
    pub open spec fn visible_key(self, target: Option<Seq<char>>) -> Option<(Seq<char>, Seq<char>)> {
        let c = self.visible_client_pos(target);
        if c < 0 {
            None
        } else {
            let client = self.clients[c];
            let sp = session_pos(self.sessions, client.session_id@);
            if sp < 0 {
                None
            } else {
                let session = self.sessions[sp];
                let wid = match client.current_window_id {
                    Some(w) => Some(w@),
                    None => match session.active_window_id {
                        Some(w) => Some(w@),
                        None => None,
                    },
                };
                match wid {
                    Some(w) => if winlink_pos(self.winlinks, session.id@, w) >= 0 {
                        Some((session.id@, w))
                    } else {
                        None
                    },
                    None => None,
                }
            }
        }
    }

    /// The id of the session that the target client shows: the session of the
    /// visible winlink, or else the target client's session when it exists.
    pub open spec fn visible_session_id(self, target: Option<Seq<char>>) -> Option<Seq<char>> {
        match self.visible_key(target) {
            Some(k) => Some(k.0),
            None => {
                let c = self.visible_client_pos(target);
                if c < 0 {
                    None
                } else if session_pos(self.sessions, self.clients[c].session_id@) < 0 {
                    None
                } else {
                    Some(self.clients[c].session_id@)
                }
            },
        }
    }

    /// `p` is the position of the first window (in window order) of session `sid`
    /// with index `index`.
    pub open spec fn is_index_position(self, sid: Seq<char>, index: u32, p: int) -> bool {
        exists|k: int| 0 <= k < self.window_order(sid).len() && #[trigger] self.window_order(sid)[k] == p
            && self.winlinks[p].1.index == index
            && (forall|j: int| 0 <= j < k ==> self.winlinks[#[trigger] self.window_order(sid)[j]].1.index != index)
    }

    /// No window of session `sid` has index `index`.
    pub open spec fn no_index(self, sid: Seq<char>, index: u32) -> bool {
        forall|j: int| 0 <= j < self.window_order(sid).len() ==> self.winlinks[#[trigger] self.window_order(sid)[j]].1.index != index
    }

    /// Positions of the sessions ordered by (order, id).
    pub open spec fn session_order(self) -> Seq<int> {
        sort_positions(self.sessions, all_positions(self.sessions.len()))
    }

    /// Positions of the clients ordered by (order, name).
    pub open spec fn client_order(self) -> Seq<int> {
        sort_positions(self.clients, all_positions(self.clients.len()))
    }

    /// Positions of the winlinks of session `sid` ordered by (index, window id).
    pub open spec fn window_order(self, sid: Seq<char>) -> Seq<int> {
        sort_positions(self.winlinks, session_winlink_positions(self.winlinks, sid, self.winlinks.len()))
    }
}

pub(crate) proof fn lemma_session_winlink_positions_bounds(s: Seq<(WinlinkKey, WindowState)>, sid: Seq<char>, n: nat)
    requires
        n <= s.len(),
    ensures
        forall|k: int| 0 <= k < session_winlink_positions(s, sid, n).len() ==> {
            let p = #[trigger] session_winlink_positions(s, sid, n)[k];
            0 <= p < n && s[p].0.session_id@ == sid
        },
    decreases n,
{
    if n > 0 {
        lemma_session_winlink_positions_bounds(s, sid, (n - 1) as nat);
        let prev = session_winlink_positions(s, sid, (n - 1) as nat);
        if s[n - 1].0.session_id@ == sid {
            assert forall|k: int| 0 <= k < prev.push(n - 1).len() implies {
                let p = #[trigger] prev.push(n - 1)[k];
                0 <= p < n && s[p].0.session_id@ == sid
            } by {
                if k < prev.len() {
                    assert(prev.push(n - 1)[k] == prev[k]);
                }
            }
        }
    }
}

pub(crate) fn find_session(sessions: &Vec<SessionNode>, id: &str) -> (r: Option<usize>)
    ensures
        match r {
            Some(p) => p as int == session_pos(sessions@, id@),
            None => session_pos(sessions@, id@) == -1,
        },
        session_pos(sessions@, id@) < sessions@.len(),
{
    let mut i: usize = 0;
    while i < sessions.len()
        invariant
            i <= sessions@.len(),
            session_pos(sessions@.subrange(0, i as int), id@) == -1,
        decreases sessions@.len() - i,
    {
        assert(sessions@.subrange(0, i + 1).drop_last() == sessions@.subrange(0, i as int));
        if str_eq(sessions[i].id.as_str(), id) {
            proof { lemma_session_pos_prefix(sessions@, id@, i as int); }
            return Some(i);
        }
        i = i + 1;
    }
    assert(sessions@.subrange(0, i as int) == sessions@);
    None
}

proof fn lemma_session_pos_prefix(s: Seq<SessionNode>, id: Seq<char>, i: int)
    requires
        0 <= i < s.len(),
        session_pos(s.subrange(0, i), id) == -1,
        s[i].id@ == id,
    ensures
        session_pos(s, id) == i,
    decreases s.len(),
{
    if s.len() == i + 1 {
        assert(s.drop_last() == s.subrange(0, i));
    } else {
        assert(s.drop_last().subrange(0, i) == s.subrange(0, i));
        lemma_session_pos_prefix(s.drop_last(), id, i);
    }
}

pub(crate) proof fn lemma_session_pos_range(s: Seq<SessionNode>, id: Seq<char>)
    ensures
        -1 <= session_pos(s, id) < s.len(),
        session_pos(s, id) >= 0 ==> s[session_pos(s, id)].id@ == id,
    decreases s.len(),
{
    if s.len() > 0 {
        lemma_session_pos_range(s.drop_last(), id);
    }
}

pub(crate) fn find_client(clients: &Vec<ClientNode>, name: &str) -> (r: Option<usize>)
    ensures
        match r {
            Some(p) => p as int == client_pos(clients@, name@),
            None => client_pos(clients@, name@) == -1,
        },
{
    let mut i: usize = 0;
    while i < clients.len()
        invariant
            i <= clients@.len(),
            client_pos(clients@.subrange(0, i as int), name@) == -1,
        decreases clients@.len() - i,
    {
        assert(clients@.subrange(0, i + 1).drop_last() == clients@.subrange(0, i as int));
        if str_eq(clients[i].name.0.as_str(), name) {
            proof { lemma_client_pos_prefix(clients@, name@, i as int); }
            return Some(i);
        }
        i = i + 1;
    }
    assert(clients@.subrange(0, i as int) == clients@);
    None
}

proof fn lemma_client_pos_prefix(s: Seq<ClientNode>, name: Seq<char>, i: int)
    requires
        0 <= i < s.len(),
        client_pos(s.subrange(0, i), name) == -1,
        s[i].name.0@ == name,
    ensures
        client_pos(s, name) == i,
    decreases s.len(),
{
    if s.len() == i + 1 {
        assert(s.drop_last() == s.subrange(0, i));
    } else {
        assert(s.drop_last().subrange(0, i) == s.subrange(0, i));
        lemma_client_pos_prefix(s.drop_last(), name, i);
    }
}

pub(crate) fn find_winlink(winlinks: &Vec<(WinlinkKey, WindowState)>, sid: &str, wid: &str) -> (r: Option<usize>)
    ensures
        match r {
            Some(p) => p as int == winlink_pos(winlinks@, sid@, wid@),
            None => winlink_pos(winlinks@, sid@, wid@) == -1,
        },
{
    let mut i: usize = 0;
    while i < winlinks.len()
        invariant
            i <= winlinks@.len(),
            winlink_pos(winlinks@.subrange(0, i as int), sid@, wid@) == -1,
        decreases winlinks@.len() - i,
    {
        assert(winlinks@.subrange(0, i + 1).drop_last() == winlinks@.subrange(0, i as int));
        if str_eq(winlinks[i].0.session_id.as_str(), sid) && str_eq(winlinks[i].0.window_id.as_str(), wid) {
            proof { lemma_winlink_pos_prefix(winlinks@, sid@, wid@, i as int); }
            return Some(i);
        }
        i = i + 1;
    }
    assert(winlinks@.subrange(0, i as int) == winlinks@);
    None
}

proof fn lemma_winlink_pos_prefix(s: Seq<(WinlinkKey, WindowState)>, sid: Seq<char>, wid: Seq<char>, i: int)
    requires
        0 <= i < s.len(),
        winlink_pos(s.subrange(0, i), sid, wid) == -1,
        s[i].0.session_id@ == sid && s[i].0.window_id@ == wid,
    ensures
        winlink_pos(s, sid, wid) == i,
    decreases s.len(),
{
    if s.len() == i + 1 {
        assert(s.drop_last() == s.subrange(0, i));
    } else {
        assert(s.drop_last().subrange(0, i) == s.subrange(0, i));
        lemma_winlink_pos_prefix(s.drop_last(), sid, wid, i);
    }
}

pub(crate) fn client_rank_le_exec(a: &ClientNode, b: &ClientNode) -> (r: bool)
    ensures
        r == client_rank_le(*a, *b),
{
    a.activity < b.activity || (a.activity == b.activity && (a.order < b.order || (a.order == b.order
        && !str_lt(b.name.0.as_str(), a.name.0.as_str()))))
}

fn find_best_client(clients: &Vec<ClientNode>) -> (r: Option<usize>)
    ensures
        match r {
            Some(p) => p as int == best_client(clients@) && p < clients@.len(),
            None => best_client(clients@) == -1,
        },
{
    let mut best: Option<usize> = None;
    let mut i: usize = 0;
    while i < clients.len()
        invariant
            i <= clients@.len(),
            match best {
                Some(p) => p as int == best_client(clients@.subrange(0, i as int)) && p < i,
                None => best_client(clients@.subrange(0, i as int)) == -1,
            },
        decreases clients@.len() - i,
    {
        let ghost pre = clients@.subrange(0, i as int);
        assert(clients@.subrange(0, i + 1).drop_last() == pre);
        match best {
            Some(p) => {
                assert(pre[p as int] == clients@[p as int]);
                if client_rank_le_exec(&clients[p], &clients[i]) {
                    best = Some(i);
                }
            },
            None => {
                best = Some(i);
            },
        }
        i = i + 1;
    }
    assert(clients@.subrange(0, i as int) == clients@);
    best
}

pub(crate) proof fn lemma_winlink_pos_range(s: Seq<(WinlinkKey, WindowState)>, sid: Seq<char>, wid: Seq<char>)
    ensures
        -1 <= winlink_pos(s, sid, wid) < s.len(),
        winlink_pos(s, sid, wid) >= 0 ==> s[winlink_pos(s, sid, wid)].0.session_id@ == sid
            && s[winlink_pos(s, sid, wid)].0.window_id@ == wid,
    decreases s.len(),
{
    if s.len() > 0 {
        lemma_winlink_pos_range(s.drop_last(), sid, wid);
    }
}

pub(crate) proof fn lemma_client_pos_range(s: Seq<ClientNode>, name: Seq<char>)
    ensures
        -1 <= client_pos(s, name) < s.len(),
        client_pos(s, name) >= 0 ==> s[client_pos(s, name)].name.0@ == name,
    decreases s.len(),
{
    if s.len() > 0 {
        lemma_client_pos_range(s.drop_last(), name);
    }
}

/// No two sessions share an id.
pub open spec fn sessions_distinct(s: Seq<SessionNode>) -> bool {
    forall|a: int, b: int| 0 <= a < b < s.len() ==> (#[trigger] s[a]).id@ != (#[trigger] s[b]).id@
}

/// No two winlinks share a key.
pub open spec fn winlinks_distinct(s: Seq<(WinlinkKey, WindowState)>) -> bool {
    forall|a: int, b: int| 0 <= a < b < s.len() ==> (#[trigger] s[a]).0@ != (#[trigger] s[b]).0@
}

/// No two clients share a name.
pub open spec fn clients_distinct(s: Seq<ClientNode>) -> bool {
    forall|a: int, b: int| 0 <= a < b < s.len() ==> (#[trigger] s[a]).name.0@ != (#[trigger] s[b]).name.0@
}

/// A state as the maps it stands for: each session id, winlink key and client
/// name occurs at most once.
pub open spec fn domain_wf(d: DomainView) -> bool {
    &&& sessions_distinct(d.sessions)
    &&& winlinks_distinct(d.winlinks)
    &&& clients_distinct(d.clients)
}

pub(crate) proof fn lemma_session_pos_absent(s: Seq<SessionNode>, id: Seq<char>)
    ensures
        session_pos(s, id) == -1 ==> forall|a: int| 0 <= a < s.len() ==> (#[trigger] s[a]).id@ != id,
    decreases s.len(),
{
    if s.len() > 0 {
        lemma_session_pos_absent(s.drop_last(), id);
        if session_pos(s, id) == -1 {
            assert forall|a: int| 0 <= a < s.len() implies (#[trigger] s[a]).id@ != id by {
                if a < s.len() - 1 {
                    assert(s[a] == s.drop_last()[a]);
                }
            }
        }
    }
}

pub(crate) proof fn lemma_winlink_pos_absent(s: Seq<(WinlinkKey, WindowState)>, sid: Seq<char>, wid: Seq<char>)
    ensures
        winlink_pos(s, sid, wid) == -1 ==> forall|a: int| 0 <= a < s.len() ==> (#[trigger] s[a]).0@ != (sid, wid),
    decreases s.len(),
{
    if s.len() > 0 {
        lemma_winlink_pos_absent(s.drop_last(), sid, wid);
        if winlink_pos(s, sid, wid) == -1 {
            assert forall|a: int| 0 <= a < s.len() implies (#[trigger] s[a]).0@ != (sid, wid) by {
                if a < s.len() - 1 {
                    assert(s[a] == s.drop_last()[a]);
                }
            }
        }
    }
}

pub(crate) proof fn lemma_client_pos_absent(s: Seq<ClientNode>, name: Seq<char>)
    ensures
        client_pos(s, name) == -1 ==> forall|a: int| 0 <= a < s.len() ==> (#[trigger] s[a]).name.0@ != name,
    decreases s.len(),
{
    if s.len() > 0 {
        lemma_client_pos_absent(s.drop_last(), name);
        if client_pos(s, name) == -1 {
            assert forall|a: int| 0 <= a < s.len() implies (#[trigger] s[a]).name.0@ != name by {
                if a < s.len() - 1 {
                    assert(s[a] == s.drop_last()[a]);
                }
            }
        }
    }
}

/// Winlinks with the keys of `a`, position by position, are as distinct as `a`.
pub proof fn lemma_same_keys_keep_distinct(a: Seq<(WinlinkKey, WindowState)>, b: Seq<(WinlinkKey, WindowState)>)
    requires
        winlinks_distinct(a),
        a.len() == b.len(),
        forall|q: int| 0 <= q < a.len() ==> (#[trigger] b[q]).0@ == a[q].0@,
    ensures
        winlinks_distinct(b),
{
    assert forall|x: int, y: int| 0 <= x < y < b.len() implies (#[trigger] b[x]).0@ != (#[trigger] b[y]).0@ by {
        assert(a[x].0@ != a[y].0@);
    }
}

proof fn lemma_value_update_keeps_wf(d: DomainView, p: int)
    requires
        0 <= p < d.winlinks.len(),
    ensures
        forall|w: WindowState|
            domain_wf(d) ==> domain_wf(DomainView { winlinks: #[trigger] d.winlinks.update(p, (d.winlinks[p].0, w)), ..d }),
{
    assert forall|w: WindowState| domain_wf(d) implies domain_wf(
        DomainView { winlinks: #[trigger] d.winlinks.update(p, (d.winlinks[p].0, w)), ..d },
    ) by {
        let u = d.winlinks.update(p, (d.winlinks[p].0, w));
        lemma_same_keys_keep_distinct(d.winlinks, u);
    }
}

/// In a well-formed state, looking up the id, key or name of an entry finds
/// that entry: the first match is the only one.
pub proof fn law_lookups_find_the_only_entry(d: DomainView, i: int)
    requires
        domain_wf(d),
    ensures
        0 <= i < d.sessions.len() ==> session_pos(d.sessions, d.sessions[i].id@) == i,
        0 <= i < d.winlinks.len() ==> winlink_pos(d.winlinks, d.winlinks[i].0.session_id@, d.winlinks[i].0.window_id@)
            == i,
        0 <= i < d.clients.len() ==> client_pos(d.clients, d.clients[i].name.0@) == i,
{
    if 0 <= i < d.sessions.len() {
        let id = d.sessions[i].id@;
        lemma_session_pos_range(d.sessions, id);
        lemma_session_pos_absent(d.sessions, id);
        let p = session_pos(d.sessions, id);
        if p >= 0 && p != i {
            if p < i {
                assert(d.sessions[p].id@ != d.sessions[i].id@);
            } else {
                assert(d.sessions[i].id@ != d.sessions[p].id@);
            }
        }
    }
    if 0 <= i < d.winlinks.len() {
        let k = d.winlinks[i].0;
        lemma_winlink_pos_range(d.winlinks, k.session_id@, k.window_id@);
        lemma_winlink_pos_absent(d.winlinks, k.session_id@, k.window_id@);
        let p = winlink_pos(d.winlinks, k.session_id@, k.window_id@);
        if p >= 0 && p != i {
            if p < i {
                assert(d.winlinks[p].0@ != d.winlinks[i].0@);
            } else {
                assert(d.winlinks[i].0@ != d.winlinks[p].0@);
            }
        }
    }
    if 0 <= i < d.clients.len() {
        let n = d.clients[i].name.0@;
        lemma_client_pos_range(d.clients, n);
        lemma_client_pos_absent(d.clients, n);
        let p = client_pos(d.clients, n);
        if p >= 0 && p != i {
            if p < i {
                assert(d.clients[p].name.0@ != d.clients[i].name.0@);
            } else {
                assert(d.clients[i].name.0@ != d.clients[p].name.0@);
            }
        }
    }
}

/// The view of an optional client name.
impl Clone for DomainState {
    fn clone(&self) -> (r: Self)
        ensures
            r@ == self@,
    {
        let mut sessions: Vec<SessionNode> = Vec::new();
        let mut i: usize = 0;
        while i < self.sessions.len()
            invariant
                i <= self.sessions@.len(),
                sessions@ == self.sessions@.subrange(0, i as int),
            decreases self.sessions@.len() - i,
        {
            sessions.push(self.sessions[i].clone());
            assert(sessions@ =~= self.sessions@.subrange(0, i + 1));
            i = i + 1;
        }
        let mut winlinks: Vec<(WinlinkKey, WindowState)> = Vec::new();
        let mut k: usize = 0;
        while k < self.winlinks.len()
            invariant
                k <= self.winlinks@.len(),
                winlinks@ == self.winlinks@.subrange(0, k as int),
            decreases self.winlinks@.len() - k,
        {
            winlinks.push((self.winlinks[k].0.clone(), self.winlinks[k].1.clone()));
            assert(winlinks@ =~= self.winlinks@.subrange(0, k + 1));
            k = k + 1;
        }
        let mut clients: Vec<ClientNode> = Vec::new();
        let mut c: usize = 0;
        while c < self.clients.len()
            invariant
                c <= self.clients@.len(),
                clients@ == self.clients@.subrange(0, c as int),
            decreases self.clients@.len() - c,
        {
            clients.push(self.clients[c].clone());
            assert(clients@ =~= self.clients@.subrange(0, c + 1));
            c = c + 1;
        }
        assert(sessions@ =~= self.sessions@);
        assert(winlinks@ =~= self.winlinks@);
        assert(clients@ =~= self.clients@);
        DomainState { tmux_socket_path: self.tmux_socket_path.clone(), sessions, winlinks, clients }
    }
}

pub open spec fn target_view(t: Option<&ClientName>) -> Option<Seq<char>> {
    match t {
        Some(n) => Some(n.0@),
        None => None,
    }
}

impl DomainState {
    pub fn empty(tmux_socket_path: &str) -> (d: Self)
        ensures
            d.tmux_socket_path@ == tmux_socket_path@,
            d.sessions@.len() == 0,
            d.winlinks@.len() == 0,
            d.clients@.len() == 0,
            domain_wf(d@),
    {
        DomainState {
            tmux_socket_path: to_owned_string(tmux_socket_path),
            sessions: Vec::new(),
            winlinks: Vec::new(),
            clients: Vec::new(),
        }
    }

    pub fn session(&self, session_id: &str) -> (r: Option<&SessionNode>)
        ensures
            match r {
                Some(n) => session_pos(self.sessions@, session_id@) >= 0 && *n == self.sessions@[session_pos(self.sessions@, session_id@)],
                None => session_pos(self.sessions@, session_id@) == -1,
            },
    {
        match find_session(&self.sessions, session_id) {
            Some(p) => Some(&self.sessions[p]),
            None => None,
        }
    }

    pub fn client_named(&self, client_name: &str) -> (r: Option<&ClientNode>)
        ensures
            match r {
                Some(c) => client_pos(self.clients@, client_name@) >= 0 && *c == self.clients@[client_pos(self.clients@, client_name@)],
                None => client_pos(self.clients@, client_name@) == -1,
            },
    {
        match find_client(&self.clients, client_name) {
            Some(p) => {
                proof { lemma_client_pos_range(self.clients@, client_name@); }
                Some(&self.clients[p])
            },
            None => None,
        }
    }

    fn visible_client_index(&self, target_client: Option<&ClientName>) -> (r: Option<usize>)
        ensures
            match r {
                Some(p) => p as int == self@.visible_client_pos(target_view(target_client)) && p < self.clients@.len(),
                None => self@.visible_client_pos(target_view(target_client)) == -1,
            },
    {
        match target_client {
            Some(name) => {
                let r = find_client(&self.clients, name.0.as_str());
                proof { lemma_client_pos_range(self.clients@, name.0@); }
                r
            },
            None => find_best_client(&self.clients),
        }
    }

    /// The client shown by `target_client`: that client, or else the most recently
    /// active one.
    pub fn visible_client(&self, target_client: Option<&ClientName>) -> (r: Option<&ClientNode>)
        ensures
            match r {
                Some(c) => self@.visible_client_pos(target_view(target_client)) >= 0
                    && *c == self.clients@[self@.visible_client_pos(target_view(target_client))],
                None => self@.visible_client_pos(target_view(target_client)) == -1,
            },
    {
        match self.visible_client_index(target_client) {
            Some(p) => Some(&self.clients[p]),
            None => None,
        }
    }

    /// The winlink that the target client shows.
    pub fn visible_window_key(&self, target_client: Option<&ClientName>) -> (r: Option<WinlinkKey>)
        ensures
            match r {
                Some(k) => self@.visible_key(target_view(target_client)) == Some(k@),
                None => self@.visible_key(target_view(target_client)) == None::<(Seq<char>, Seq<char>)>,
            },
    {
        let c = match self.visible_client_index(target_client) {
            Some(c) => c,
            None => return None,
        };
        let client = &self.clients[c];
        let sp = match find_session(&self.sessions, client.session_id.as_str()) {
            Some(sp) => sp,
            None => return None,
        };
        proof { lemma_session_pos_range(self.sessions@, client.session_id@); }
        let session = &self.sessions[sp];
        let window_id: &String = match &client.current_window_id {
            Some(w) => w,
            None => match &session.active_window_id {
                Some(w) => w,
                None => return None,
            },
        };
        match find_winlink(&self.winlinks, session.id.as_str(), window_id.as_str()) {
            Some(_) => Some(WinlinkKey { session_id: session.id.clone(), window_id: window_id.clone() }),
            None => None,
        }
    }

    /// The session that the target client shows.
    pub fn visible_session(&self, target_client: Option<&ClientName>) -> (r: Option<&SessionNode>)
        ensures
            match r {
                Some(s) => self@.visible_session_id(target_view(target_client)) == Some(s.id@),
                None => self@.visible_session_id(target_view(target_client)) == None::<Seq<char>>,
            },
            match self@.visible_key(target_view(target_client)) {
                Some(k) => r == Some(&self.sessions@[session_pos(self.sessions@, k.0)]),
                None => {
                    let c = self@.visible_client_pos(target_view(target_client));
                    if c < 0 {
                        r.is_none()
                    } else {
                        let sp = session_pos(self.sessions@, self.clients@[c].session_id@);
                        if sp < 0 { r.is_none() } else { r == Some(&self.sessions@[sp]) }
                    }
                },
            },
    {
        if let Some(window_key) = self.visible_window_key(target_client) {
            return match find_session(&self.sessions, window_key.session_id.as_str()) {
                Some(p) => {
                    proof { lemma_session_pos_range(self.sessions@, window_key.session_id@); }
                    Some(&self.sessions[p])
                },
                None => {
                    proof {
                        // the visible key names an existing session
                        let c = self@.visible_client_pos(target_view(target_client));
                        lemma_session_pos_range(self.sessions@, self.clients@[c].session_id@);
                    }
                    None
                },
            };
        }
        let c = match self.visible_client_index(target_client) {
            Some(c) => c,
            None => return None,
        };
        match find_session(&self.sessions, self.clients[c].session_id.as_str()) {
            Some(p) => {
                proof { lemma_session_pos_range(self.sessions@, self.clients@[c as int].session_id@); }
                Some(&self.sessions[p])
            },
            None => None,
        }
    }

    /// The winlinks of session `session_id`, ordered by window index, then window id.
    pub fn session_windows(&self, session_id: &str) -> (r: Vec<(WinlinkKey, &WindowState)>)
        ensures
            r@.len() == self@.window_order(session_id@).len(),
            forall|k: int| 0 <= k < r@.len() ==> {
                let p = #[trigger] self@.window_order(session_id@)[k];
                0 <= p < self.winlinks@.len() && r@[k].0 == self.winlinks@[p].0 && *r@[k].1 == self.winlinks@[p].1
            },
    {
        let order = self.window_positions(session_id);
        let mut r: Vec<(WinlinkKey, &WindowState)> = Vec::new();
        let mut k: usize = 0;
        while k < order.len()
            invariant
                k <= order@.len(),
                usize_seq_as_int(order@) == self@.window_order(session_id@),
                forall|j: int| 0 <= j < order@.len() ==> #[trigger] order@[j] < self.winlinks@.len(),
                r@.len() == k,
                forall|j: int| 0 <= j < k ==> {
                    let p = #[trigger] self@.window_order(session_id@)[j];
                    0 <= p < self.winlinks@.len() && r@[j].0 == self.winlinks@[p].0 && *r@[j].1 == self.winlinks@[p].1
                },
            decreases order@.len() - k,
        {
            let p = order[k];
            assert(usize_seq_as_int(order@)[k as int] == p as int);
            r.push((self.winlinks[p].0.clone(), &self.winlinks[p].1));
            k = k + 1;
        }
        r
    }

    /// Positions of the winlinks of session `session_id`, ordered by window index, then id.
    pub(crate) fn window_positions(&self, session_id: &str) -> (r: Vec<usize>)
        ensures
            usize_seq_as_int(r@) == self@.window_order(session_id@),
            forall|j: int| 0 <= j < r@.len() ==> #[trigger] r@[j] < self.winlinks@.len(),
    {
        let mut idx: Vec<usize> = Vec::new();
        let mut i: usize = 0;
        while i < self.winlinks.len()
            invariant
                i <= self.winlinks@.len(),
                usize_seq_as_int(idx@) == session_winlink_positions(self.winlinks@, session_id@, i as nat),
                forall|j: int| 0 <= j < idx@.len() ==> #[trigger] idx@[j] < i,
            decreases self.winlinks@.len() - i,
        {
            if str_eq(self.winlinks[i].0.session_id.as_str(), session_id) {
                idx.push(i);
            }
            proof {
                assert(usize_seq_as_int(idx@) =~= session_winlink_positions(self.winlinks@, session_id@, (i + 1) as nat));
            }
            i = i + 1;
        }
        sort_positions_exec(self.winlinks.as_slice(), &idx)
    }

    pub fn session_window(&self, session_id: &str, window_id: &str) -> (r: Option<&WindowState>)
        ensures
            match r {
                Some(w) => winlink_pos(self.winlinks@, session_id@, window_id@) >= 0
                    && *w == self.winlinks@[winlink_pos(self.winlinks@, session_id@, window_id@)].1,
                None => winlink_pos(self.winlinks@, session_id@, window_id@) == -1,
            },
    {
        match find_winlink(&self.winlinks, session_id, window_id) {
            Some(p) => {
                proof { lemma_winlink_pos_range(self.winlinks@, session_id@, window_id@); }
                Some(&self.winlinks[p].1)
            },
            None => None,
        }
    }

    pub fn session_window_mut(&mut self, session_id: &str, window_id: &str) -> (r: Option<&mut WindowState>)
        ensures
            ({
                let p = winlink_pos(old(self).winlinks@, session_id@, window_id@);
                match r {
                    Some(w) => p >= 0 && *w == old(self).winlinks@[p].1 && final(self).winlinks@ == old(
                        self,
                    ).winlinks@.update(p, (old(self).winlinks@[p].0, *final(w))),
                    None => p == -1 && final(self).winlinks@ == old(self).winlinks@,
                }
            }),
            final(self).tmux_socket_path == old(self).tmux_socket_path,
            final(self).sessions == old(self).sessions,
            final(self).clients == old(self).clients,
            domain_wf(old(self)@) ==> domain_wf(final(self)@),
    {
        match find_winlink(&self.winlinks, session_id, window_id) {
            Some(p) => {
                proof {
                    lemma_winlink_pos_range(self.winlinks@, session_id@, window_id@);
                    lemma_value_update_keeps_wf(self@, p as int);
                }
                Some(&mut self.winlinks[p].1)
            },
            None => None,
        }
    }

    /// Position in `winlinks` of the first window (in window order) of session
    /// `session_id` with index `window_index`.
    pub fn session_window_index_position(&self, session_id: &str, window_index: u32) -> (r: Option<usize>)
        ensures
            match r {
                Some(p) => exists|k: int| 0 <= k < self@.window_order(session_id@).len()
                    && #[trigger] self@.window_order(session_id@)[k] == p as int
                    && self.winlinks@[p as int].1.index == window_index
                    && (forall|j: int| 0 <= j < k ==> self.winlinks@[#[trigger] self@.window_order(session_id@)[j]].1.index != window_index),
                None => forall|j: int| 0 <= j < self@.window_order(session_id@).len()
                    ==> self.winlinks@[#[trigger] self@.window_order(session_id@)[j]].1.index != window_index,
            },
            match r {
                Some(p) => p < self.winlinks@.len(),
                None => true,
            },
    {
        let order = self.window_positions(session_id);
        let mut k: usize = 0;
        while k < order.len()
            invariant
                k <= order@.len(),
                usize_seq_as_int(order@) == self@.window_order(session_id@),
                forall|j: int| 0 <= j < order@.len() ==> #[trigger] order@[j] < self.winlinks@.len(),
                forall|j: int| 0 <= j < k ==> self.winlinks@[#[trigger] self@.window_order(session_id@)[j]].1.index != window_index,
            decreases order@.len() - k,
        {
            let p = order[k];
            assert(self@.window_order(session_id@)[k as int] == p as int);
            if self.winlinks[p].1.index == window_index {
                return Some(p);
            }
            k = k + 1;
        }
        None
    }

    /// The first window (in window order) of session `session_id` with index `window_index`.
    pub fn session_window_by_index(&self, session_id: &str, window_index: u32) -> (r: Option<(WinlinkKey, &WindowState)>)
        ensures
            match r {
                Some(kw) => exists|k: int| 0 <= k < self@.window_order(session_id@).len()
                    && {
                        let p = #[trigger] self@.window_order(session_id@)[k];
                        &&& kw.0 == self.winlinks@[p].0
                        &&& *kw.1 == self.winlinks@[p].1
                        &&& self.winlinks@[p].1.index == window_index
                    }
                    && (forall|j: int| 0 <= j < k ==> self.winlinks@[#[trigger] self@.window_order(session_id@)[j]].1.index != window_index),
                None => forall|j: int| 0 <= j < self@.window_order(session_id@).len()
                    ==> self.winlinks@[#[trigger] self@.window_order(session_id@)[j]].1.index != window_index,
            },
    {
        match self.session_window_index_position(session_id, window_index) {
            Some(p) => Some((self.winlinks[p].0.clone(), &self.winlinks[p].1)),
            None => None,
        }
    }

    /// One state per session, in session order, each with its windows in window
    /// order.
    pub fn session_states(&self) -> (r: Vec<SessionState>)
        ensures
            r@.len() == self@.session_order().len(),
            forall|k: int| 0 <= k < r@.len() ==> session_state_of(
                #[trigger] r@[k],
                self@,
                self.sessions@[self@.session_order()[k]],
            ),
    {
        let order = self.session_positions();
        let mut r: Vec<SessionState> = Vec::new();
        let mut k: usize = 0;
        while k < order.len()
            invariant
                k <= order@.len(),
                usize_seq_as_int(order@) == self@.session_order(),
                forall|j: int| 0 <= j < order@.len() ==> #[trigger] order@[j] < self.sessions@.len(),
                r@.len() == k,
                forall|j: int| 0 <= j < k ==> session_state_of(
                    #[trigger] r@[j],
                    self@,
                    self.sessions@[self@.session_order()[j]],
                ),
            decreases order@.len() - k,
        {
            let p = order[k];
            assert(usize_seq_as_int(order@)[k as int] == p as int);
            let node = &self.sessions[p];
            let worder = self.window_positions(node.id.as_str());
            let mut windows: Vec<(WinlinkKey, WindowState)> = Vec::new();
            let mut j: usize = 0;
            while j < worder.len()
                invariant
                    j <= worder@.len(),
                    usize_seq_as_int(worder@) == self@.window_order(node.id@),
                    forall|m: int| 0 <= m < worder@.len() ==> #[trigger] worder@[m] < self.winlinks@.len(),
                    windows@.len() == j,
                    forall|m: int| 0 <= m < j ==> #[trigger] windows@[m] == self.winlinks@[self@.window_order(node.id@)[m]],
                decreases worder@.len() - j,
            {
                let q = worder[j];
                assert(usize_seq_as_int(worder@)[j as int] == q as int);
                windows.push((self.winlinks[q].0.clone(), self.winlinks[q].1.clone()));
                j = j + 1;
            }
            r.push(SessionState {
                id: node.id.clone(),
                name: node.name.clone(),
                attached_count: node.attached_count,
                active_window_id: clone_opt_string(&node.active_window_id),
                windows,
            });
            k = k + 1;
        }
        r
    }

    pub fn session_window_by_index_mut(&mut self, session_id: &str, window_index: u32) -> (r: Option<&mut WindowState>)
        ensures
            match r {
                Some(w) => exists|p: int| old(self)@.is_index_position(session_id@, window_index, p) && 0 <= p < old(self).winlinks@.len()
                    && *w == old(self).winlinks@[p].1 && final(self).winlinks@ == old(self).winlinks@.update(
                    p,
                    (old(self).winlinks@[p].0, *final(w)),
                ),
                None => old(self)@.no_index(session_id@, window_index) && final(self).winlinks@ == old(self).winlinks@,
            },
            final(self).tmux_socket_path == old(self).tmux_socket_path,
            final(self).sessions == old(self).sessions,
            final(self).clients == old(self).clients,
            domain_wf(old(self)@) ==> domain_wf(final(self)@),
    {
        match self.session_window_index_position(session_id, window_index) {
            Some(p) => {
                assert(self@.is_index_position(session_id@, window_index, p as int));
                proof {
                    lemma_value_update_keeps_wf(self@, p as int);
                }
                Some(&mut self.winlinks[p].1)
            },
            None => None,
        }
    }

    /// Sessions ordered by (order, id).
    pub fn ordered_sessions(&self) -> (r: Vec<&SessionNode>)
        ensures
            r@.len() == self@.session_order().len(),
            forall|k: int| 0 <= k < r@.len() ==> {
                let p = #[trigger] self@.session_order()[k];
                0 <= p < self.sessions@.len() && *r@[k] == self.sessions@[p]
            },
    {
        let order = self.session_positions();
        let mut r: Vec<&SessionNode> = Vec::new();
        let mut k: usize = 0;
        while k < order.len()
            invariant
                k <= order@.len(),
                usize_seq_as_int(order@) == self@.session_order(),
                forall|j: int| 0 <= j < order@.len() ==> #[trigger] order@[j] < self.sessions@.len(),
                r@.len() == k,
                forall|j: int| 0 <= j < k ==> {
                    let p = #[trigger] self@.session_order()[j];
                    0 <= p < self.sessions@.len() && *r@[j] == self.sessions@[p]
                },
            decreases order@.len() - k,
        {
            let p = order[k];
            assert(usize_seq_as_int(order@)[k as int] == p as int);
            r.push(&self.sessions[p]);
            k = k + 1;
        }
        r
    }

    /// Positions of the sessions ordered by (order, id).
    pub(crate) fn session_positions(&self) -> (r: Vec<usize>)
        ensures
            usize_seq_as_int(r@) == self@.session_order(),
            r@.len() == self.sessions@.len(),
            forall|j: int| 0 <= j < r@.len() ==> #[trigger] r@[j] < self.sessions@.len(),
    {
        let idx = positions_upto(self.sessions.len());
        sort_positions_exec(self.sessions.as_slice(), &idx)
    }

    /// Positions of the clients ordered by (order, name).
    pub(crate) fn client_positions(&self) -> (r: Vec<usize>)
        ensures
            usize_seq_as_int(r@) == self@.client_order(),
            r@.len() == self.clients@.len(),
            forall|j: int| 0 <= j < r@.len() ==> #[trigger] r@[j] < self.clients@.len(),
    {
        let idx = positions_upto(self.clients.len());
        sort_positions_exec(self.clients.as_slice(), &idx)
    }

    /// Clients ordered by (order, name).
    pub fn ordered_clients(&self) -> (r: Vec<&ClientNode>)
        ensures
            r@.len() == self@.client_order().len(),
            forall|k: int| 0 <= k < r@.len() ==> {
                let p = #[trigger] self@.client_order()[k];
                0 <= p < self.clients@.len() && *r@[k] == self.clients@[p]
            },
    {
        let order = self.client_positions();
        let mut r: Vec<&ClientNode> = Vec::new();
        let mut k: usize = 0;
        while k < order.len()
            invariant
                k <= order@.len(),
                usize_seq_as_int(order@) == self@.client_order(),
                forall|j: int| 0 <= j < order@.len() ==> #[trigger] order@[j] < self.clients@.len(),
                r@.len() == k,
                forall|j: int| 0 <= j < k ==> {
                    let p = #[trigger] self@.client_order()[j];
                    0 <= p < self.clients@.len() && *r@[j] == self.clients@[p]
                },
            decreases order@.len() - k,
        {
            let p = order[k];
            assert(usize_seq_as_int(order@)[k as int] == p as int);
            r.push(&self.clients[p]);
            k = k + 1;
        }
        r
    }

    /// Number of winlinks with a bell alert.
    pub fn active_alert_count(&self) -> (n: usize)
        ensures
            n == bell_count(self.winlinks@),
            n == self.winlinks@.filter(|e: (WinlinkKey, WindowState)| e.1.bell_flag).len(),
    {
        proof {
            law_bell_count_counts_bells(self.winlinks@);
        }
        let mut n: usize = 0;
        let mut i: usize = 0;
        while i < self.winlinks.len()
            invariant
                i <= self.winlinks@.len(),
                n == bell_count(self.winlinks@.subrange(0, i as int)),
                n <= i,
            decreases self.winlinks@.len() - i,
        {
            assert(self.winlinks@.subrange(0, i + 1).drop_last() == self.winlinks@.subrange(0, i as int));
            if self.winlinks[i].1.bell_flag {
                n = n + 1;
            }
            i = i + 1;
        }
        assert(self.winlinks@.subrange(0, i as int) == self.winlinks@);
        n
    }

    /// The winlinks that some client currently shows, one per client that shows one, in
    /// client order: the client's current window, or else its session's active window.
    pub fn viewed_window_keys(&self) -> (keys: Vec<WinlinkKey>)
        ensures
            key_views(keys@) == self@.viewed_keys_upto(self.clients@.len()),
    {
        let mut keys: Vec<WinlinkKey> = Vec::new();
        let mut i: usize = 0;
        while i < self.clients.len()
            invariant
                i <= self.clients@.len(),
                key_views(keys@) == self@.viewed_keys_upto(i as nat),
            decreases self.clients@.len() - i,
        {
            let client = &self.clients[i];
            let window_id: Option<&String> = match &client.current_window_id {
                Some(w) => Some(w),
                None => match find_session(&self.sessions, client.session_id.as_str()) {
                    Some(p) => {
                        proof { lemma_session_pos_range(self.sessions@, client.session_id@); }
                        match &self.sessions[p].active_window_id {
                            Some(w) => Some(w),
                            None => None,
                        }
                    },
                    None => None,
                },
            };
            match window_id {
                Some(w) => {
                    keys.push(WinlinkKey { session_id: client.session_id.clone(), window_id: w.clone() });
                },
                None => {},
            }
            assert(key_views(keys@) =~= self@.viewed_keys_upto((i + 1) as nat));
            i = i + 1;
        }
        keys
    }

    pub fn window_count(&self) -> (n: usize)
        ensures
            n == self.winlinks@.len(),
    {
        self.winlinks.len()
    }
}

} // verus!
