//! What a hook event makes stale: the dirty scopes that decide whether and how
//! the daemon reconciles with tmux, and the bell alerts that a selection clears.
use vstd::prelude::*;

use crate::domain::state::WinlinkKey;
use crate::ipc::{HookEvent, HookName};
use crate::text::str_eq;

verus! {

/// A part of the state that a hook made stale.
#[derive(Debug, Clone, PartialEq, Eq)]
pub enum DirtyScope {
    All,
    Alerts,
    Clients,
    Session(String),
    Winlink(WinlinkKey),
}

/// The parts of the state that hooks made stale since the last reconcile.
/// Once everything is stale, the finer scopes are dropped.
#[derive(Debug, Clone, PartialEq, Eq)]
pub struct DirtyScopes {
    all: bool,
    alerts: bool,
    clients: bool,
    sessions: Vec<String>,
    winlinks: Vec<WinlinkKey>,
}

pub struct DirtyView {
    pub all: bool,
    pub alerts: bool,
    pub clients: bool,
    pub sessions: Set<Seq<char>>,
    pub winlinks: Set<(Seq<char>, Seq<char>)>,
}

impl View for DirtyScopes {
    type V = DirtyView;

    closed spec fn view(&self) -> DirtyView {
        DirtyView {
            all: self.all,
            alerts: self.alerts,
            clients: self.clients,
            sessions: self.sessions@.map_values(|s: String| s@).to_set(),
            winlinks: self.winlinks@.map_values(|k: WinlinkKey| k@).to_set(),
        }
    }
}

/// A dirty scope with its ids as texts.
pub enum ScopeView {
    All,
    Alerts,
    Clients,
    Session(Seq<char>),
    Winlink((Seq<char>, Seq<char>)),
}

impl View for DirtyScope {
    type V = ScopeView;

    open spec fn view(&self) -> ScopeView {
        match self {
            DirtyScope::All => ScopeView::All,
            DirtyScope::Alerts => ScopeView::Alerts,
            DirtyScope::Clients => ScopeView::Clients,
            DirtyScope::Session(id) => ScopeView::Session(id@),
            DirtyScope::Winlink(k) => ScopeView::Winlink(k@),
        }
    }
}

/// The view in which everything is stale.
pub open spec fn all_dirty() -> DirtyView {
    DirtyView { all: true, alerts: false, clients: false, sessions: Set::empty(), winlinks: Set::empty() }
}

/// The view in which nothing is stale.
pub open spec fn nothing_dirty() -> DirtyView {
    DirtyView { all: false, alerts: false, clients: false, sessions: Set::empty(), winlinks: Set::empty() }
}

/// `v` after marking `scope` stale.
pub open spec fn mark_spec(v: DirtyView, scope: ScopeView) -> DirtyView {
    if v.all {
        v
    } else {
        match scope {
            ScopeView::All => all_dirty(),
            ScopeView::Alerts => DirtyView { alerts: true, ..v },
            ScopeView::Clients => DirtyView { clients: true, ..v },
            ScopeView::Session(id) => DirtyView { sessions: v.sessions.insert(id), ..v },
            ScopeView::Winlink(k) => DirtyView { winlinks: v.winlinks.insert(k), ..v },
        }
    }
}

/// `a` after merging in `b`.
pub open spec fn merge_spec(a: DirtyView, b: DirtyView) -> DirtyView {
    if a.all {
        a
    } else if b.all {
        all_dirty()
    } else {
        DirtyView {
            all: false,
            alerts: a.alerts || b.alerts,
            clients: a.clients || b.clients,
            sessions: a.sessions.union(b.sessions),
            winlinks: a.winlinks.union(b.winlinks),
        }
    }
}

/// A view that marking produces: when everything is stale, nothing finer is kept.
pub open spec fn dirty_wf(v: DirtyView) -> bool {
    v.all ==> v == all_dirty()
}

impl DirtyScopes {
    /// Nothing stale.
    pub fn new() -> (d: Self)
        ensures
            d@ == nothing_dirty(),
    {
        let d = DirtyScopes { all: false, alerts: false, clients: false, sessions: Vec::new(), winlinks: Vec::new() };
        assert(d@.sessions =~= Set::<Seq<char>>::empty());
        assert(d@.winlinks =~= Set::<(Seq<char>, Seq<char>)>::empty());
        d
    }

    pub fn is_empty(&self) -> (b: bool)
        ensures
            b == (!self@.all && !self@.alerts && !self@.clients && self@.sessions.is_empty() && self@.winlinks.is_empty()),
    {
        let b = !self.all && !self.alerts && !self.clients && self.sessions.len() == 0 && self.winlinks.len() == 0;
        proof {
            if self.sessions@.len() > 0 {
                assert(self.sessions@.map_values(|s: String| s@)[0] == self.sessions@[0]@);
                assert(self@.sessions.contains(self.sessions@[0]@));
            }
            if self.winlinks@.len() > 0 {
                assert(self.winlinks@.map_values(|w: WinlinkKey| w@)[0] == self.winlinks@[0]@);
                assert(self@.winlinks.contains(self.winlinks@[0]@));
            }
            if self.sessions@.len() == 0 {
                assert(self@.sessions =~= Set::<Seq<char>>::empty());
            }
            if self.winlinks@.len() == 0 {
                assert(self@.winlinks =~= Set::<(Seq<char>, Seq<char>)>::empty());
            }
        }
        b
    }

    /// Whether a reconcile that changes nothing should be retried: true when
    /// more than alerts is stale.
    pub fn requires_confirmation(&self) -> (b: bool)
        ensures
            b == (self@.all || self@.clients || !self@.sessions.is_empty() || !self@.winlinks.is_empty()),
    {
        let b = self.all || self.clients || self.sessions.len() > 0 || self.winlinks.len() > 0;
        proof {
            if self.sessions@.len() > 0 {
                assert(self.sessions@.map_values(|s: String| s@)[0] == self.sessions@[0]@);
                assert(self@.sessions.contains(self.sessions@[0]@));
            } else {
                assert(self@.sessions =~= Set::<Seq<char>>::empty());
            }
            if self.winlinks@.len() > 0 {
                assert(self.winlinks@.map_values(|w: WinlinkKey| w@)[0] == self.winlinks@[0]@);
                assert(self@.winlinks.contains(self.winlinks@[0]@));
            } else {
                assert(self@.winlinks =~= Set::<(Seq<char>, Seq<char>)>::empty());
            }
        }
        b
    }

    pub fn mark(&mut self, scope: DirtyScope)
        ensures
            final(self)@ == mark_spec(old(self)@, scope@),
    {
        if self.all {
            return;
        }
        match scope {
            DirtyScope::All => {
                self.alerts = false;
                self.clients = false;
                self.sessions = Vec::new();
                self.winlinks = Vec::new();
                self.all = true;
                assert(self@.sessions =~= Set::<Seq<char>>::empty());
                assert(self@.winlinks =~= Set::<(Seq<char>, Seq<char>)>::empty());
            },
            DirtyScope::Alerts => {
                self.alerts = true;
            },
            DirtyScope::Clients => {
                self.clients = true;
            },
            DirtyScope::Session(session_id) => {
                let ghost before = self.sessions@;
                let mut found = false;
                let mut i: usize = 0;
                while i < self.sessions.len()
                    invariant
                        i <= self.sessions@.len(),
                        found == exists|j: int| 0 <= j < i && self.sessions@[j]@ == session_id@,
                    decreases self.sessions@.len() - i,
                {
                    if str_eq(self.sessions[i].as_str(), session_id.as_str()) {
                        found = true;
                    }
                    i = i + 1;
                }
                let ghost id = session_id@;
                if !found {
                    self.sessions.push(session_id);
                    assert(self.sessions@.map_values(|s: String| s@) =~= before.map_values(|s: String| s@).push(id));
                    proof { before.map_values(|s: String| s@).lemma_push_to_set_commute(id); }
                    assert(self@.sessions =~= old(self)@.sessions.insert(id));
                } else {
                    assert(self@.sessions =~= old(self)@.sessions.insert(id)) by {
                        let j = choose|j: int| 0 <= j < before.len() && before[j]@ == id;
                        assert(before.map_values(|s: String| s@)[j] == id);
                        assert(old(self)@.sessions.contains(id));
                    }
                }
            },
            DirtyScope::Winlink(key) => {
                let ghost before = self.winlinks@;
                let mut found = false;
                let mut i: usize = 0;
                while i < self.winlinks.len()
                    invariant
                        i <= self.winlinks@.len(),
                        found == exists|j: int| 0 <= j < i && self.winlinks@[j]@ == key@,
                    decreases self.winlinks@.len() - i,
                {
                    if self.winlinks[i].same_as(&key) {
                        found = true;
                    }
                    i = i + 1;
                }
                let ghost k = key@;
                if !found {
                    self.winlinks.push(key);
                    assert(self.winlinks@.map_values(|w: WinlinkKey| w@) =~= before.map_values(|w: WinlinkKey| w@).push(k));
                    proof { before.map_values(|w: WinlinkKey| w@).lemma_push_to_set_commute(k); }
                    assert(self@.winlinks =~= old(self)@.winlinks.insert(k));
                } else {
                    assert(self@.winlinks =~= old(self)@.winlinks.insert(k)) by {
                        let j = choose|j: int| 0 <= j < before.len() && before[j]@ == k;
                        assert(before.map_values(|w: WinlinkKey| w@)[j] == k);
                        assert(old(self)@.winlinks.contains(k));
                    }
                }
            },
        }
    }
}

impl DirtyScopes {
    /// Merges `other` in: everything stale absorbs the rest, otherwise the flags
    /// and id sets are united.
    pub fn merge(&mut self, other: Self)
        ensures
            final(self)@ == merge_spec(old(self)@, other@),
    {
        if self.all {
            return;
        }
        if other.all {
            self.mark(DirtyScope::All);
            return;
        }
        self.alerts = self.alerts || other.alerts;
        self.clients = self.clients || other.clients;
        let ghost start = self@;
        let ghost os = other.sessions@.map_values(|x: String| x@);
        let mut i: usize = 0;
        while i < other.sessions.len()
            invariant
                i <= other.sessions@.len(),
                !self.all,
                os == other.sessions@.map_values(|x: String| x@),
                self@.alerts == start.alerts,
                self@.clients == start.clients,
                self@.winlinks == start.winlinks,
                self@.sessions == start.sessions.union(os.take(i as int).to_set()),
            decreases other.sessions@.len() - i,
        {
            self.mark(DirtyScope::Session(other.sessions[i].clone()));
            assert(os.take(i + 1) =~= os.take(i as int).push(os[i as int]));
            proof { os.take(i as int).lemma_push_to_set_commute(os[i as int]); }
            assert(self@.sessions =~= start.sessions.union(os.take(i + 1).to_set()));
            i = i + 1;
        }
        assert(os.take(os.len() as int) =~= os);
        let ghost mid = self@;
        let ghost ow = other.winlinks@.map_values(|k: WinlinkKey| k@);
        let mut j: usize = 0;
        while j < other.winlinks.len()
            invariant
                j <= other.winlinks@.len(),
                !self.all,
                ow == other.winlinks@.map_values(|k: WinlinkKey| k@),
                self@.alerts == mid.alerts,
                self@.clients == mid.clients,
                self@.sessions == mid.sessions,
                self@.winlinks == mid.winlinks.union(ow.take(j as int).to_set()),
            decreases other.winlinks@.len() - j,
        {
            self.mark(DirtyScope::Winlink(other.winlinks[j].clone()));
            assert(ow.take(j + 1) =~= ow.take(j as int).push(ow[j as int]));
            proof { ow.take(j as int).lemma_push_to_set_commute(ow[j as int]); }
            assert(self@.winlinks =~= mid.winlinks.union(ow.take(j + 1).to_set()));
            j = j + 1;
        }
        assert(ow.take(ow.len() as int) =~= ow);
    }
}

/// Merging dirty scopes is commutative: either order gives the same scopes.
pub proof fn law_merge_commutes(a: DirtyView, b: DirtyView)
    requires
        dirty_wf(a),
        dirty_wf(b),
    ensures
        merge_spec(a, b) == merge_spec(b, a),
{
    if !a.all && !b.all {
        assert(a.sessions.union(b.sessions) =~= b.sessions.union(a.sessions));
        assert(a.winlinks.union(b.winlinks) =~= b.winlinks.union(a.winlinks));
    }
}

/// Once everything is stale, marking any scope changes nothing.
pub proof fn law_all_absorbs(v: DirtyView, scope: ScopeView)
    requires
        v.all,
    ensures
        mark_spec(v, scope) == v,
        merge_spec(v, v) == v,
{
}

/// An id that is present and non-empty.
pub open spec fn non_empty_spec(o: Option<String>) -> Option<Seq<char>> {
    match o {
        Some(s) => if s@.len() > 0 { Some(s@) } else { None },
        None => None,
    }
}

/// The winlink that a hook names: its session and window ids, both non-empty.
pub open spec fn hook_key_spec(e: HookEvent) -> Option<(Seq<char>, Seq<char>)> {
    match (non_empty_spec(e.session_id), non_empty_spec(e.window_id)) {
        (Some(s), Some(w)) => Some((s, w)),
        _ => None,
    }
}

/// The scope to mark when a hook names a winlink, else its session, else
/// nothing finer than everything.
pub open spec fn narrowest_scope(e: HookEvent) -> ScopeView {
    match hook_key_spec(e) {
        Some(k) => ScopeView::Winlink(k),
        None => match non_empty_spec(e.session_id) {
            Some(s) => ScopeView::Session(s),
            None => ScopeView::All,
        },
    }
}

/// What a hook event makes stale.
pub open spec fn dirty_for_hook_spec(e: HookEvent) -> DirtyView {
    let d0 = nothing_dirty();
    match e.event {
        HookName::AlertBell => mark_spec(d0, ScopeView::Alerts),
        HookName::ClientAttached | HookName::ClientDetached | HookName::ClientSessionChanged => {
            let d1 = mark_spec(d0, ScopeView::Clients);
            let d2 = match non_empty_spec(e.session_id) {
                Some(s) => mark_spec(d1, ScopeView::Session(s)),
                None => d1,
            };
            match hook_key_spec(e) {
                Some(k) => mark_spec(d2, ScopeView::Winlink(k)),
                None => d2,
            }
        },
        HookName::SessionWindowChanged | HookName::AfterSelectWindow => mark_spec(
            mark_spec(d0, ScopeView::Clients),
            narrowest_scope(e),
        ),
        HookName::SessionRenamed | HookName::AfterRenameSession => match non_empty_spec(e.session_id) {
            Some(s) => mark_spec(d0, ScopeView::Session(s)),
            None => mark_spec(d0, ScopeView::All),
        },
        HookName::WindowRenamed | HookName::AfterRenameWindow => mark_spec(d0, narrowest_scope(e)),
        HookName::SessionCreated | HookName::SessionClosed | HookName::WindowLinked | HookName::WindowUnlinked
        | HookName::AfterNewSession | HookName::AfterNewWindow | HookName::AfterKillPane => mark_spec(d0, ScopeView::All),
        HookName::WindowPaneChanged | HookName::WindowLayoutChanged | HookName::AlertActivity
        | HookName::AlertSilence => d0,
    }
}

/// Hooks that report a change of which sessions or windows exist.
pub open spec fn structural_hook(n: HookName) -> bool {
    n == HookName::SessionCreated || n == HookName::SessionClosed || n == HookName::WindowLinked || n
        == HookName::WindowUnlinked || n == HookName::AfterNewSession || n == HookName::AfterNewWindow || n
        == HookName::AfterKillPane
}

/// Hooks that report a client moving, attaching or leaving.
pub open spec fn client_hook(n: HookName) -> bool {
    n == HookName::ClientAttached || n == HookName::ClientDetached || n == HookName::ClientSessionChanged
}

/// Hooks that report a window being selected.
pub open spec fn select_hook(n: HookName) -> bool {
    n == HookName::SessionWindowChanged || n == HookName::AfterSelectWindow
}

/// Hooks that report a rename.
pub open spec fn rename_hook(n: HookName) -> bool {
    n == HookName::SessionRenamed || n == HookName::AfterRenameSession || n == HookName::WindowRenamed || n
        == HookName::AfterRenameWindow
}

/// Hooks that report a window rename or selection, narrowed to the winlink.
pub open spec fn winlink_hook(n: HookName) -> bool {
    n == HookName::WindowRenamed || n == HookName::AfterRenameWindow || select_hook(n)
}

/// What each hook makes stale, field by field: everything on a structural
/// change, or on a rename or selection that names no session; the alerts only
/// on a bell; the clients on a client hook, or a selection that names its
/// session; the named session on a client hook, a session rename, or a window
/// rename or selection that names no window; the named winlink on a client
/// hook, a window rename or a selection. Pane, layout, activity and silence
/// hooks make nothing stale, and everything stale never comes with a finer
/// scope.
pub proof fn law_hook_dirty_scopes(e: HookEvent)
    ensures
        ({
            let d = dirty_for_hook_spec(e);
            let n = e.event;
            let sid = non_empty_spec(e.session_id);
            let key = hook_key_spec(e);
            &&& dirty_wf(d)
            &&& d.all == (structural_hook(n) || ((rename_hook(n) || select_hook(n)) && sid is None))
            &&& d.alerts == (n == HookName::AlertBell)
            &&& d.clients == (client_hook(n) || (select_hook(n) && sid is Some))
            &&& d.sessions == if sid is Some && (client_hook(n) || n == HookName::SessionRenamed || n
                == HookName::AfterRenameSession || (winlink_hook(n) && key is None)) {
                set![sid->0]
            } else {
                Set::empty()
            }
            &&& d.winlinks == if key is Some && (client_hook(n) || winlink_hook(n)) {
                set![key->0]
            } else {
                Set::empty()
            }
            &&& (n == HookName::WindowPaneChanged || n == HookName::WindowLayoutChanged || n == HookName::AlertActivity
                || n == HookName::AlertSilence) ==> d == nothing_dirty()
        }),
{
    let d = dirty_for_hook_spec(e);
    let sid = non_empty_spec(e.session_id);
    let key = hook_key_spec(e);
    assert(key is Some ==> sid is Some);
    assert(d.sessions =~= if sid is Some && (client_hook(e.event) || e.event == HookName::SessionRenamed || e.event
        == HookName::AfterRenameSession || (winlink_hook(e.event) && key is None)) {
        set![sid->0]
    } else {
        Set::empty()
    });
    assert(d.winlinks =~= if key is Some && (client_hook(e.event) || winlink_hook(e.event)) {
        set![key->0]
    } else {
        Set::empty()
    });
}

/// The non-empty id, copied.
pub fn non_empty(value: &Option<String>) -> (r: Option<String>)
    ensures
        match r {
            Some(s) => non_empty_spec(*value) == Some(s@),
            None => non_empty_spec(*value).is_none(),
        },
{
    match value {
        Some(s) => if s.unicode_len() > 0 { Some(s.clone()) } else { None },
        None => None,
    }
}

/// The winlink that a hook names, when it names both ids.
pub fn hook_window_key(event: &HookEvent) -> (k: Option<WinlinkKey>)
    ensures
        match k {
            Some(k) => hook_key_spec(*event) == Some(k@),
            None => hook_key_spec(*event).is_none(),
        },
{
    let session_id = match non_empty(&event.session_id) {
        Some(s) => s,
        None => return None,
    };
    let window_id = match non_empty(&event.window_id) {
        Some(w) => w,
        None => return None,
    };
    Some(WinlinkKey { session_id, window_id })
}

fn narrowest_scope_of(event: &HookEvent) -> (s: DirtyScope)
    ensures
        s@ == narrowest_scope(*event),
{
    match hook_window_key(event) {
        Some(k) => DirtyScope::Winlink(k),
        None => match non_empty(&event.session_id) {
            Some(s) => DirtyScope::Session(s),
            None => DirtyScope::All,
        },
    }
}

/// What a hook event makes stale.
pub fn dirty_scopes_for_hook(event: &HookEvent) -> (d: DirtyScopes)
    ensures
        d@ == dirty_for_hook_spec(*event),
{
    let mut dirty = DirtyScopes::new();
    match event.event {
        HookName::AlertBell => {
            dirty.mark(DirtyScope::Alerts);
        },
        HookName::ClientAttached | HookName::ClientDetached | HookName::ClientSessionChanged => {
            dirty.mark(DirtyScope::Clients);
            if let Some(session_id) = non_empty(&event.session_id) {
                dirty.mark(DirtyScope::Session(session_id));
            }
            if let Some(key) = hook_window_key(event) {
                dirty.mark(DirtyScope::Winlink(key));
            }
        },
        HookName::SessionWindowChanged | HookName::AfterSelectWindow => {
            dirty.mark(DirtyScope::Clients);
            dirty.mark(narrowest_scope_of(event));
        },
        HookName::SessionRenamed | HookName::AfterRenameSession => {
            match non_empty(&event.session_id) {
                Some(session_id) => dirty.mark(DirtyScope::Session(session_id)),
                None => dirty.mark(DirtyScope::All),
            }
        },
        HookName::WindowRenamed | HookName::AfterRenameWindow => {
            dirty.mark(narrowest_scope_of(event));
        },
        HookName::SessionCreated | HookName::SessionClosed | HookName::WindowLinked | HookName::WindowUnlinked
        | HookName::AfterNewSession | HookName::AfterNewWindow | HookName::AfterKillPane => {
            dirty.mark(DirtyScope::All);
        },
        HookName::WindowPaneChanged | HookName::WindowLayoutChanged | HookName::AlertActivity
        | HookName::AlertSilence => {},
    }
    dirty
}

/// A selection that clears the bell alert of a window: by window id or by
/// window index, within one session.
#[derive(Debug, Clone, PartialEq, Eq)]
pub struct BellClearHint {
    pub session_id: String,
    pub window_id: Option<String>,
    pub window_index: Option<u32>,
}

/// Whether the hint names the winlink `key` at window index `index`.
pub open spec fn hint_matches(h: BellClearHint, key: (Seq<char>, Seq<char>), index: u32) -> bool {
    h.session_id@ == key.0 && ((h.window_id matches Some(w) && w@ == key.1) || h.window_index == Some(index))
}

impl BellClearHint {
    pub fn matches(&self, key: &WinlinkKey, window_index: u32) -> (b: bool)
        ensures
            b == hint_matches(*self, key@, window_index),
    {
        if !str_eq(self.session_id.as_str(), key.session_id.as_str()) {
            return false;
        }
        let by_id = match &self.window_id {
            Some(w) => str_eq(w.as_str(), key.window_id.as_str()),
            None => false,
        };
        let by_index = match self.window_index {
            Some(i) => i == window_index,
            None => false,
        };
        by_id || by_index
    }
}

/// The bell-clearing hint of a selection hook: a window selection or client
/// session change that names a session and a window (by id or index).
pub open spec fn clear_hint_spec(e: HookEvent) -> Option<(Seq<char>, Option<Seq<char>>, Option<u32>)> {
    if !(e.event == HookName::AfterSelectWindow || e.event == HookName::ClientSessionChanged || e.event
        == HookName::SessionWindowChanged) {
        None
    } else {
        match non_empty_spec(e.session_id) {
            None => None,
            Some(s) => if non_empty_spec(e.window_id).is_none() && e.window_index.is_none() {
                None
            } else {
                Some((s, non_empty_spec(e.window_id), e.window_index))
            },
        }
    }
}

pub fn bell_clear_hint_for_hook(event: &HookEvent) -> (h: Option<BellClearHint>)
    ensures
        match h {
            Some(h) => clear_hint_spec(*event) == Some((h.session_id@, match h.window_id {
                Some(w) => Some(w@),
                None => None::<Seq<char>>,
            }, h.window_index)),
            None => clear_hint_spec(*event).is_none(),
        },
{
    match event.event {
        HookName::AfterSelectWindow | HookName::ClientSessionChanged | HookName::SessionWindowChanged => {},
        _ => return None,
    }
    let session_id = match non_empty(&event.session_id) {
        Some(s) => s,
        None => return None,
    };
    let window_id = non_empty(&event.window_id);
    let window_index = event.window_index;
    if window_id.is_none() && window_index.is_none() {
        return None;
    }
    Some(BellClearHint { session_id, window_id, window_index })
}

} // verus!
