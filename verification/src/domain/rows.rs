//! The visible session tree: one row per session and window, plus create rows.
use vstd::prelude::*;

use super::state::{
    alert_of, lemma_session_winlink_positions_bounds, session_winlink_positions, target_view, ClientName, DomainState, DomainView, SessionId, SessionNode, WindowAlert, WindowId,
    WindowState, WinlinkKey,
};
use crate::order::{lemma_sort_positions_bounds, positions_below, usize_seq_as_int};
use crate::text::to_owned_string;

verus! {

/// A row of the tree that can hold focus.
#[derive(Debug, Default, PartialEq, Eq, Hash)]
pub enum Focus {
    #[default]
    CreateSession,
    Session(SessionId),
    Window { session_id: SessionId, window_id: WindowId },
    CreateWindow(SessionId),
}

/// A focus target with its ids taken as texts.
#[verifier::ext_equal]
pub enum FocusView {
    CreateSession,
    Session(Seq<char>),
    Window(Seq<char>, Seq<char>),
    CreateWindow(Seq<char>),
}

impl View for Focus {
    type V = FocusView;

    open spec fn view(&self) -> FocusView {
        match self {
            Focus::CreateSession => FocusView::CreateSession,
            Focus::Session(id) => FocusView::Session(id@),
            Focus::Window { session_id, window_id } => FocusView::Window(session_id@, window_id@),
            Focus::CreateWindow(id) => FocusView::CreateWindow(id@),
        }
    }
}

impl Clone for Focus {
    fn clone(&self) -> (f: Self)
        ensures
            f == *self,
    {
        match self {
            Focus::CreateSession => Focus::CreateSession,
            Focus::Session(id) => Focus::Session(id.clone()),
            Focus::Window { session_id, window_id } => Focus::Window {
                session_id: session_id.clone(),
                window_id: window_id.clone(),
            },
            Focus::CreateWindow(id) => Focus::CreateWindow(id.clone()),
        }
    }
}

/// The focus on the window row of a winlink.
pub open spec fn winlink_focus(key: WinlinkKey) -> Focus {
    Focus::Window { session_id: key.session_id, window_id: key.window_id }
}

impl Focus {
    pub fn window(session_id: &str, window_id: &str) -> (f: Self)
        ensures
            f@ == FocusView::Window(session_id@, window_id@),
    {
        Focus::Window { session_id: to_owned_string(session_id), window_id: to_owned_string(window_id) }
    }

    pub fn winlink(key: WinlinkKey) -> (f: Self)
        ensures
            f == winlink_focus(key),
    {
        Focus::Window { session_id: key.session_id, window_id: key.window_id }
    }

    /// Whether both name the same row.
    pub fn same_as(&self, other: &Focus) -> (b: bool)
        ensures
            b == (self@ == other@),
    {
        match self {
            Focus::CreateSession => match other {
                Focus::CreateSession => true,
                _ => false,
            },
            Focus::Session(a) => match other {
                Focus::Session(b) => *a == *b,
                _ => false,
            },
            Focus::Window { session_id: a, window_id: b } => match other {
                Focus::Window { session_id: c, window_id: d } => *a == *c && *b == *d,
                _ => false,
            },
            Focus::CreateWindow(a) => match other {
                Focus::CreateWindow(b) => *a == *b,
                _ => false,
            },
        }
    }
}

#[allow(inconsistent_fields)]
#[derive(Debug, PartialEq, Eq)]
pub enum TreeRowKind {
    CreateSession,
    Session { id: SessionId, name: String, attached_count: u32 },
    Window {
        session_id: SessionId,
        id: WindowId,
        index: u32,
        name: String,
        active: bool,
        alert: WindowAlert,
    },
    CreateWindow { session_id: SessionId },
}

#[derive(Debug, PartialEq, Eq)]
pub struct TreeRow {
    pub focus: Focus,
    pub depth: u8,
    pub kind: TreeRowKind,
}

/// The row of a session.
pub open spec fn session_row(s: SessionNode) -> TreeRow {
    TreeRow {
        focus: Focus::Session(s.id),
        depth: 0,
        kind: TreeRowKind::Session { id: s.id, name: s.name, attached_count: s.attached_count },
    }
}

/// The row of a window, marked active or not.
pub open spec fn window_row(key: WinlinkKey, w: WindowState, active: bool) -> TreeRow {
    TreeRow {
        focus: winlink_focus(key),
        depth: 1,
        kind: TreeRowKind::Window {
            session_id: key.session_id,
            id: w.id,
            index: w.index,
            name: w.name,
            active,
            alert: alert_of(w),
        },
    }
}

/// The "new window" row under a session.
pub open spec fn create_window_row(id: String) -> TreeRow {
    TreeRow { focus: Focus::CreateWindow(id), depth: 1, kind: TreeRowKind::CreateWindow { session_id: id } }
}

/// The "new session" row at the end of the tree.
pub open spec fn create_session_row() -> TreeRow {
    TreeRow { focus: Focus::CreateSession, depth: 0, kind: TreeRowKind::CreateSession }
}

/// The window rows for the winlinks at positions `order`; the winlink `vis` is active.
pub open spec fn window_rows(d: DomainView, order: Seq<int>, vis: Option<(Seq<char>, Seq<char>)>) -> Seq<TreeRow> {
    order.map_values(|p: int| window_row(d.winlinks[p].0, d.winlinks[p].1, vis == Some(d.winlinks[p].0@)))
}

/// The rows of one session: its row, its window rows and its "new window" row.
pub open spec fn session_block(d: DomainView, s: SessionNode, vis: Option<(Seq<char>, Seq<char>)>) -> Seq<TreeRow> {
    seq![session_row(s)] + window_rows(d, d.window_order(s.id@), vis) + seq![create_window_row(s.id)]
}

/// The blocks of the sessions at positions `order`, one after another.
pub open spec fn session_blocks(d: DomainView, order: Seq<int>, vis: Option<(Seq<char>, Seq<char>)>) -> Seq<TreeRow>
    decreases order.len(),
{
    if order.len() == 0 {
        Seq::empty()
    } else {
        session_blocks(d, order.drop_last(), vis) + session_block(d, d.sessions[order.last()], vis)
    }
}

/// The tree as the target client sees it: sessions in order, each followed by its
/// windows and a "new window" row, then the "new session" row. Only the winlink that
/// the target client shows is active.
pub open spec fn tree_rows_spec(d: DomainView, target: Option<Seq<char>>) -> Seq<TreeRow> {
    session_blocks(d, d.session_order(), d.visible_key(target)) + seq![create_session_row()]
}

/// A window row shows the bell badge exactly when its window has the bell
/// flag; the activity and silence flags never give it an alert.
pub proof fn law_window_row_alert_is_the_bell(key: WinlinkKey, w: WindowState, active: bool)
    ensures
        window_row(key, w, active).kind matches TreeRowKind::Window { alert, .. } && (alert == WindowAlert::Bell
            <==> w.bell_flag) && (alert == WindowAlert::Bell || alert == WindowAlert::Clear),
{
}

/// Whether `r` is the row of winlink `p` of `d` when winlink `vis` is the
/// visible one: its focus names that winlink, it shows the window's id, index
/// and name, it is marked active exactly when it is the visible winlink, and it
/// carries the bell badge exactly when that winlink has the bell flag.
pub open spec fn shows_winlink(d: DomainView, vis: Option<(Seq<char>, Seq<char>)>, r: TreeRow, p: int) -> bool {
    &&& 0 <= p < d.winlinks.len()
    &&& r.focus == winlink_focus(d.winlinks[p].0)
    &&& r.kind matches TreeRowKind::Window { session_id, id, index, name, active, alert } && session_id
        == d.winlinks[p].0.session_id && id == d.winlinks[p].1.id && index == d.winlinks[p].1.index && name
        == d.winlinks[p].1.name && (active <==> vis == Some(d.winlinks[p].0@)) && (alert == WindowAlert::Bell
        <==> d.winlinks[p].1.bell_flag) && (alert == WindowAlert::Bell || alert == WindowAlert::Clear)
}

proof fn lemma_window_order_in_range(d: DomainView, sid: Seq<char>)
    ensures
        positions_below(d.window_order(sid), d.winlinks.len() as int),
{
    let ps = session_winlink_positions(d.winlinks, sid, d.winlinks.len());
    lemma_session_winlink_positions_bounds(d.winlinks, sid, d.winlinks.len());
    assert(positions_below(ps, d.winlinks.len() as int)) by {
        assert forall|k: int| 0 <= k < ps.len() implies 0 <= #[trigger] ps[k] < d.winlinks.len() by {}
    }
    lemma_sort_positions_bounds(d.winlinks, ps, d.winlinks.len() as int);
}

proof fn lemma_blocks_show_winlinks(d: DomainView, order: Seq<int>, vis: Option<(Seq<char>, Seq<char>)>)
    ensures
        forall|i: int| 0 <= i < session_blocks(d, order, vis).len() && (#[trigger] session_blocks(d, order, vis)[i]).kind is Window
            ==> exists|p: int| shows_winlink(d, vis, session_blocks(d, order, vis)[i], p),
    decreases order.len(),
{
    if order.len() > 0 {
        let pre = session_blocks(d, order.drop_last(), vis);
        let sn = d.sessions[order.last()];
        let wo = d.window_order(sn.id@);
        let blk = session_block(d, sn, vis);
        let all = session_blocks(d, order, vis);
        lemma_blocks_show_winlinks(d, order.drop_last(), vis);
        lemma_window_order_in_range(d, sn.id@);
        assert(all == pre + blk);
        assert forall|i: int| 0 <= i < all.len() && (#[trigger] all[i]).kind is Window implies exists|p: int|
            shows_winlink(d, vis, all[i], p) by {
            if i < pre.len() {
                assert(all[i] == pre[i]);
            } else {
                let j = i - pre.len();
                assert(all[i] == blk[j]);
                let wr = window_rows(d, wo, vis);
                if 1 <= j < 1 + wr.len() {
                    let q = wo[j - 1];
                    assert(blk[j] == wr[j - 1]);
                    assert(0 <= q < d.winlinks.len());
                    assert(shows_winlink(d, vis, all[i], q));
                }
            }
        }
    }
}

/// Every window row of the tree is the row of one of the state's winlinks:
/// it shows that window, is marked active exactly when it is the winlink that
/// the target client sees, and shows the bell badge exactly when that winlink
/// has the bell flag.
pub proof fn law_tree_window_rows_show_bells(d: DomainView, target: Option<Seq<char>>, i: int)
    requires
        0 <= i < tree_rows_spec(d, target).len(),
        tree_rows_spec(d, target)[i].kind is Window,
    ensures
        exists|p: int| shows_winlink(d, d.visible_key(target), tree_rows_spec(d, target)[i], p),
{
    let vis = d.visible_key(target);
    let blocks = session_blocks(d, d.session_order(), vis);
    lemma_blocks_show_winlinks(d, d.session_order(), vis);
    assert(i < blocks.len());
    assert(tree_rows_spec(d, target)[i] == blocks[i]);
}

impl TreeRow {
    fn create_session() -> (r: Self)
        ensures
            r == create_session_row(),
    {
        TreeRow { focus: Focus::CreateSession, depth: 0, kind: TreeRowKind::CreateSession }
    }

    fn session(session: &SessionNode) -> (r: Self)
        ensures
            r == session_row(*session),
    {
        TreeRow {
            focus: Focus::Session(session.id.clone()),
            depth: 0,
            kind: TreeRowKind::Session {
                id: session.id.clone(),
                name: session.name.clone(),
                attached_count: session.attached_count,
            },
        }
    }

    fn window(key: WinlinkKey, window: &WindowState, active: bool) -> (r: Self)
        ensures
            r == window_row(key, *window, active),
    {
        let sid = key.session_id.clone();
        TreeRow {
            focus: Focus::winlink(key),
            depth: 1,
            kind: TreeRowKind::Window {
                session_id: sid,
                id: window.id.clone(),
                index: window.index,
                name: window.name.clone(),
                active,
                alert: window.alert(),
            },
        }
    }

    fn create_window(session_id: SessionId) -> (r: Self)
        ensures
            r == create_window_row(session_id),
    {
        TreeRow {
            focus: Focus::CreateWindow(session_id.clone()),
            depth: 1,
            kind: TreeRowKind::CreateWindow { session_id },
        }
    }

    /// Whether the row is the window row that the target client shows.
    pub fn active(&self) -> (b: bool)
        ensures
            b == match self.kind {
                TreeRowKind::Window { active, .. } => active,
                _ => false,
            },
    {
        match &self.kind {
            TreeRowKind::Window { active, .. } => *active,
            _ => false,
        }
    }

    /// The alert shown on the row: only window rows with a bell show one.
    pub fn alert(&self) -> (a: Option<WindowAlert>)
        ensures
            a == match self.kind {
                TreeRowKind::Window { alert, .. } => if alert == WindowAlert::Bell {
                    Some(WindowAlert::Bell)
                } else {
                    None
                },
                _ => None,
            },
    {
        match &self.kind {
            TreeRowKind::Window { alert, .. } => {
                if alert.is_alerting() {
                    Some(*alert)
                } else {
                    None
                }
            },
            _ => None,
        }
    }
}

/// The visible key as an optional pair of texts.
pub open spec fn key_view_opt(k: Option<WinlinkKey>) -> Option<(Seq<char>, Seq<char>)> {
    match k {
        Some(k) => Some(k@),
        None => None,
    }
}

impl DomainState {
    pub fn tree_rows(&self) -> (rows: Vec<TreeRow>)
        ensures
            rows@ == tree_rows_spec(self@, None),
    {
        self.tree_rows_for_client(None)
    }

    /// The tree as `target_client` sees it.
    pub fn tree_rows_for_client(&self, target_client: Option<&ClientName>) -> (rows: Vec<TreeRow>)
        ensures
            rows@ == tree_rows_spec(self@, target_view(target_client)),
    {
        let visible_window = self.visible_window_key(target_client);
        let ghost vis = self@.visible_key(target_view(target_client));
        assert(key_view_opt(visible_window) == vis);
        let order = self.session_positions();
        let mut rows: Vec<TreeRow> = Vec::new();
        let mut i: usize = 0;
        assert(usize_seq_as_int(order@).subrange(0, 0) =~= Seq::<int>::empty());
        while i < order.len()
            invariant
                i <= order@.len(),
                usize_seq_as_int(order@) == self@.session_order(),
                forall|j: int| 0 <= j < order@.len() ==> #[trigger] order@[j] < self.sessions@.len(),
                key_view_opt(visible_window) == vis,
                rows@ == session_blocks(self@, usize_seq_as_int(order@).subrange(0, i as int), vis),
            decreases order@.len() - i,
        {
            let p = order[i];
            let session = &self.sessions[p];
            let ghost before = rows@;
            rows.push(TreeRow::session(session));
            let worder = self.window_positions(session.id.as_str());
            let mut j: usize = 0;
            assert(usize_seq_as_int(worder@).subrange(0, 0) =~= Seq::<int>::empty());
            while j < worder.len()
                invariant
                    j <= worder@.len(),
                    usize_seq_as_int(worder@) == self@.window_order(session.id@),
                    forall|m: int| 0 <= m < worder@.len() ==> #[trigger] worder@[m] < self.winlinks@.len(),
                    key_view_opt(visible_window) == vis,
                    rows@ == before + seq![session_row(*session)] + window_rows(self@, usize_seq_as_int(worder@).subrange(0, j as int), vis),
                decreases worder@.len() - j,
            {
                let q = worder[j];
                let key = self.winlinks[q].0.clone();
                let active = match &visible_window {
                    Some(v) => v.same_as(&key),
                    None => false,
                };
                let row = TreeRow::window(key, &self.winlinks[q].1, active);
                let ghost prev_rows = window_rows(self@, usize_seq_as_int(worder@).subrange(0, j as int), vis);
                rows.push(row);
                proof {
                    assert(usize_seq_as_int(worder@)[j as int] == q as int);
                    assert(window_rows(self@, usize_seq_as_int(worder@).subrange(0, j + 1), vis)
                        =~= prev_rows.push(window_row(self.winlinks@[q as int].0, self.winlinks@[q as int].1, vis == Some(self.winlinks@[q as int].0@))));
                }
                j = j + 1;
            }
            assert(usize_seq_as_int(worder@).subrange(0, worder@.len() as int) == usize_seq_as_int(worder@));
            rows.push(TreeRow::create_window(session.id.clone()));
            proof {
                let pre = usize_seq_as_int(order@).subrange(0, i as int);
                let nxt = usize_seq_as_int(order@).subrange(0, i + 1);
                assert(nxt.drop_last() == pre);
                assert(nxt.last() == p as int);
                assert(rows@ =~= before + session_block(self@, *session, vis));
            }
            i = i + 1;
        }
        assert(usize_seq_as_int(order@).subrange(0, order@.len() as int) == usize_seq_as_int(order@));
        rows.push(TreeRow::create_session());
        rows
    }
}

} // verus!
