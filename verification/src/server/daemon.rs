//! The daemon's state and its decisions: publishing a new state (and which
//! bells to ring), reacting to hook events, scheduling and retrying reconciles,
//! and answering action requests. Timers, sockets and tmux calls are the
//! caller's; each step here takes what they produced.
use vstd::prelude::*;

use crate::domain::state::{
    client_rank_le, client_rank_le_exec, domain_wf, target_view, ClientName, ClientNode, DomainState, DomainView, SessionNode,
    WindowState, WinlinkKey,
};
use crate::ipc::{Action, ActionOutcome, ActionRequest, ActionResultKind, HookEvent, HookName, StateUpdated};
use crate::projection::{projection_of, ProjectionState};
use crate::server::actions::{opt_view, ActionExecutionOptions, CloseSessionClientSwitch};
use crate::server::bells::{
    apply_hook_event_overlay, bell_notification_ttys, count_new_bell_transitions, hook_activity, hook_target_pos,
    new_bells_upto, preserve_cached_bell_overlays, rings_ttys, tty_set, with_carried_bell,
};
use crate::server::effects::{effect_shown, unsatisfied_text, ActionEffect};
use crate::server::scopes::{
    bell_clear_hint_for_hook, clear_hint_spec, dirty_for_hook_spec, dirty_scopes_for_hook, merge_spec, non_empty_spec,
    BellClearHint, DirtyScopes, DirtyView,
};
use crate::server::workdirs::{
    bump, pruned, record_view, session_path_spec, session_workdirs_recorded, SessionWorkdirTracker, TrackedView,
};
use crate::text::{push_str, str_eq, string_views, to_owned_string};
use crate::tmux::WindowWorkdir;

verus! {

/// Delay before a hook's reconcile runs, letting related hooks arrive.
pub const HOOK_RECONCILE_SETTLE_DELAY_MS: u64 = 50;

/// Delay before a reconcile that changed nothing is retried.
pub const HOOK_RECONCILE_RETRY_DELAY_MS: u64 = 25;

/// How many reconciles a hook may take before the daemon gives up on a change.
pub const HOOK_RECONCILE_ATTEMPTS: usize = 6;

/// How many refreshes an action may take to show its effect.
pub const ACTION_RECONCILE_ATTEMPTS: usize = 10;

/// Delay between the refreshes after an action.
pub const ACTION_RECONCILE_RETRY_DELAY_MS: u64 = 25;

/// Whether two optional texts are equal as texts.
pub open spec fn opt_same(a: Option<String>, b: Option<String>) -> bool {
    match (a, b) {
        (Some(x), Some(y)) => x@ == y@,
        (None, None) => true,
        _ => false,
    }
}

pub open spec fn session_same(a: SessionNode, b: SessionNode) -> bool {
    a.id@ == b.id@ && a.name@ == b.name@ && a.attached_count == b.attached_count && opt_same(
        a.active_window_id,
        b.active_window_id,
    ) && a.order == b.order
}

pub open spec fn window_same(a: WindowState, b: WindowState) -> bool {
    a.id@ == b.id@ && a.index == b.index && a.name@ == b.name@ && a.active == b.active && a.activity == b.activity
        && a.activity_flag == b.activity_flag && a.bell_flag == b.bell_flag && a.silence_flag == b.silence_flag
}

pub open spec fn client_same(a: ClientNode, b: ClientNode) -> bool {
    a.name.0@ == b.name.0@ && a.session_id@ == b.session_id@ && opt_same(a.current_window_id, b.current_window_id)
        && a.activity == b.activity && a.tty@ == b.tty@ && a.order == b.order
}

/// The two states hold the same texts and values, entry for entry.
pub open spec fn domain_same(a: DomainView, b: DomainView) -> bool {
    &&& a.tmux_socket_path == b.tmux_socket_path
    &&& a.sessions.len() == b.sessions.len()
    &&& forall|i: int| 0 <= i < a.sessions.len() ==> session_same(#[trigger] a.sessions[i], b.sessions[i])
    &&& a.winlinks.len() == b.winlinks.len()
    &&& forall|i: int| 0 <= i < a.winlinks.len() ==> (#[trigger] a.winlinks[i]).0@ == b.winlinks[i].0@
        && window_same(a.winlinks[i].1, b.winlinks[i].1)
    &&& a.clients.len() == b.clients.len()
    &&& forall|i: int| 0 <= i < a.clients.len() ==> client_same(#[trigger] a.clients[i], b.clients[i])
}

fn opt_eq(a: &Option<String>, b: &Option<String>) -> (r: bool)
    ensures
        r == opt_same(*a, *b),
{
    match (a, b) {
        (Some(x), Some(y)) => str_eq(x.as_str(), y.as_str()),
        (None, None) => true,
        _ => false,
    }
}

/// Whether two states hold the same entries.
pub fn domain_states_equal(a: &DomainState, b: &DomainState) -> (r: bool)
    ensures
        r == domain_same(a@, b@),
{
    if !str_eq(a.tmux_socket_path.as_str(), b.tmux_socket_path.as_str()) {
        return false;
    }
    if a.sessions.len() != b.sessions.len() || a.winlinks.len() != b.winlinks.len() || a.clients.len() != b.clients.len() {
        return false;
    }
    let mut i: usize = 0;
    while i < a.sessions.len()
        invariant
            i <= a.sessions@.len(),
            a.sessions@.len() == b.sessions@.len(),
            forall|j: int| 0 <= j < i ==> session_same(#[trigger] a.sessions@[j], b.sessions@[j]),
        decreases a.sessions@.len() - i,
    {
        let (x, y) = (&a.sessions[i], &b.sessions[i]);
        if !(str_eq(x.id.as_str(), y.id.as_str()) && str_eq(x.name.as_str(), y.name.as_str())
            && x.attached_count == y.attached_count && opt_eq(&x.active_window_id, &y.active_window_id)
            && x.order == y.order) {
            return false;
        }
        i = i + 1;
    }
    let mut k: usize = 0;
    while k < a.winlinks.len()
        invariant
            k <= a.winlinks@.len(),
            a.winlinks@.len() == b.winlinks@.len(),
            forall|j: int| 0 <= j < k ==> (#[trigger] a.winlinks@[j]).0@ == b.winlinks@[j].0@ && window_same(
                a.winlinks@[j].1,
                b.winlinks@[j].1,
            ),
        decreases a.winlinks@.len() - k,
    {
        let (x, y) = (&a.winlinks[k], &b.winlinks[k]);
        if !(x.0.same_as(&y.0) && str_eq(x.1.id.as_str(), y.1.id.as_str()) && x.1.index == y.1.index && str_eq(
            x.1.name.as_str(),
            y.1.name.as_str(),
        ) && x.1.active == y.1.active && x.1.activity == y.1.activity && x.1.activity_flag == y.1.activity_flag
            && x.1.bell_flag == y.1.bell_flag && x.1.silence_flag == y.1.silence_flag) {
            return false;
        }
        k = k + 1;
    }
    let mut c: usize = 0;
    while c < a.clients.len()
        invariant
            c <= a.clients@.len(),
            a.clients@.len() == b.clients@.len(),
            forall|j: int| 0 <= j < c ==> client_same(#[trigger] a.clients@[j], b.clients@[j]),
        decreases a.clients@.len() - c,
    {
        let (x, y) = (&a.clients[c], &b.clients[c]);
        if !(str_eq(x.name.0.as_str(), y.name.0.as_str()) && str_eq(x.session_id.as_str(), y.session_id.as_str())
            && opt_eq(&x.current_window_id, &y.current_window_id) && x.activity == y.activity && str_eq(
            x.tty.as_str(),
            y.tty.as_str(),
        ) && x.order == y.order) {
            return false;
        }
        c = c + 1;
    }
    true
}

/// The ttys to ring and how many times (once per new bell).
#[derive(Debug, Clone, PartialEq, Eq)]
pub struct BellNotification {
    pub tty_paths: Vec<String>,
    pub repeat_count: usize,
}

/// What publishing a state gave: the update for subscribers, whether the state
/// changed, and the bells to ring.
#[derive(Debug)]
pub struct PublishOutcome {
    pub update: StateUpdated,
    pub changed: bool,
    pub bells: Option<BellNotification>,
}

/// A reconcile that hooks asked for: what is stale, the bells that selections
/// cleared, when it is due and how many attempts remain.
#[derive(Debug)]
pub struct PendingReconcile {
    pub dirty_scopes: DirtyScopes,
    pub clear_bell_hints: Vec<BellClearHint>,
    pub deadline_ms: u64,
    pub attempts_remaining: usize,
}

/// The daemon's state: the published domain state and its generation, the
/// recorded working directories and the pending reconcile.
#[derive(Debug)]
pub struct ServerCoreState {
    pub tmux_socket_path: String,
    pub generation: u64,
    pub state: DomainState,
    pub workdirs: SessionWorkdirTracker,
    pub pending_reconcile: Option<PendingReconcile>,
}

/// `now + delay`, saturating.
pub open spec fn later(now: u64, delay: u64) -> u64 {
    if now + delay > u64::MAX { u64::MAX } else { (now + delay) as u64 }
}

/// The bells that a publish announces when the state moves from winlinks
/// `previous` to `next`: with `notify`, one ring per newly alerted winlink, on
/// every client tty of `next` (each path once, in path order); none when there is nothing to ring or nobody to
/// ring it to.
pub open spec fn bells_announced(
    b: Option<BellNotification>,
    notify: bool,
    previous: Seq<(WinlinkKey, WindowState)>,
    next: DomainView,
) -> bool {
    let new_bells = new_bells_upto(previous, next.winlinks, next.winlinks.len());
    match b {
        Some(b) => notify && new_bells > 0 && b.repeat_count == new_bells && b.tty_paths@.len() > 0 && rings_ttys(
            next,
            string_views(b.tty_paths@),
        ),
        None => !notify || new_bells == 0 || tty_set(next).is_empty(),
    }
}

/// Publishing `next` took the daemon from `before` to `after` and gave `o`: a
/// state with the same entries changes nothing; another state becomes the
/// current one at the next generation, with the workdirs of vanished windows
/// dropped and its new bells announced.
pub open spec fn publishes(
    before: ServerCoreState,
    after: ServerCoreState,
    next: DomainView,
    notify: bool,
    o: PublishOutcome,
) -> bool {
    &&& after.tmux_socket_path == before.tmux_socket_path
    &&& after.pending_reconcile == before.pending_reconcile
    &&& if domain_same(next, before.state@) {
        &&& !o.changed
        &&& o.bells.is_none()
        &&& after.generation == before.generation
        &&& after.state == before.state
        &&& after.workdirs@ == before.workdirs@
    } else {
        &&& o.changed
        &&& after.generation == before.generation + 1
        &&& after.state@ == next
        &&& after.workdirs@.next_observed_order == before.workdirs@.next_observed_order
        &&& after.workdirs@.sessions == pruned(before.workdirs@.sessions, next)
        &&& bells_announced(o.bells, notify, before.state.winlinks@, next)
    }
    &&& o.update.generation == after.generation
    &&& projection_of(o.update.state, after.state@)
}

/// What a refresh from a snapshot publishes: the snapshot, with the bells that
/// `previous` had and the snapshot lost carried over (unless some client views
/// the winlink or a hint clears it).
pub open spec fn carried_view(previous: DomainView, snapshot: DomainView, hints: Seq<BellClearHint>) -> DomainView {
    DomainView {
        winlinks: Seq::new(
            snapshot.winlinks.len(),
            |q: int|
                with_carried_bell(
                    previous.winlinks,
                    snapshot.winlinks,
                    snapshot.viewed_keys_upto(snapshot.clients.len()),
                    hints,
                    q,
                    previous.winlinks.len(),
                ),
        ),
        ..snapshot
    }
}

/// Whether a bell hook changes the winlink it names: it marks a bell not yet
/// shown, or moves the activity time.
pub open spec fn overlay_changes(d: DomainView, e: HookEvent) -> bool {
    let p = hook_target_pos(d, e);
    &&& e.event == HookName::AlertBell
    &&& 0 <= p < d.winlinks.len()
    &&& (!d.winlinks[p].1.bell_flag || hook_activity(e, d.winlinks[p].1.activity) != d.winlinks[p].1.activity)
}

/// `d` with the bell that hook `e` reports marked on the winlink it names.
pub open spec fn overlay_view(d: DomainView, e: HookEvent) -> DomainView {
    let p = hook_target_pos(d, e);
    let w = d.winlinks[p].1;
    DomainView {
        winlinks: d.winlinks.update(
            p,
            (d.winlinks[p].0, WindowState { bell_flag: true, activity: hook_activity(e, w.activity), ..w }),
        ),
        ..d
    }
}

/// A hint as plain values: session, window id, window index.
pub open spec fn hint_view(h: BellClearHint) -> (Seq<char>, Option<Seq<char>>, Option<u32>) {
    (h.session_id@, opt_view(h.window_id), h.window_index)
}

/// The hints hold no two equal ones.
pub open spec fn hints_distinct(hs: Seq<BellClearHint>) -> bool {
    forall|a: int, b: int| 0 <= a < b < hs.len() ==> hint_view(#[trigger] hs[a]) != hint_view(#[trigger] hs[b])
}

/// The hints hold `v`.
pub open spec fn hints_hold(hs: Seq<BellClearHint>, v: (Seq<char>, Option<Seq<char>>, Option<u32>)) -> bool {
    exists|k: int| 0 <= k < hs.len() && hint_view(#[trigger] hs[k]) == v
}

/// The maximum of two times.
pub open spec fn max_u64(a: u64, b: u64) -> u64 {
    if a >= b { a } else { b }
}

/// The reconcile that hook `e` leaves pending when `old` was pending and the
/// hook makes `dirty` stale at time `now`: the stale scopes merged, the hook's
/// bell hint added, the later deadline kept and the attempts renewed.
pub open spec fn scheduled_after(old: Option<PendingReconcile>, e: HookEvent, now: u64, p: PendingReconcile) -> bool {
    let dirty = dirty_for_hook_spec(e);
    let deadline = later(now, HOOK_RECONCILE_SETTLE_DELAY_MS);
    &&& p.attempts_remaining == HOOK_RECONCILE_ATTEMPTS
    &&& (old matches Some(q) ==> hints_distinct(q.clear_bell_hints@)) ==> hints_distinct(p.clear_bell_hints@)
    &&& match old {
        Some(q) => {
            &&& p.dirty_scopes@ == merge_spec(q.dirty_scopes@, dirty)
            &&& p.deadline_ms == max_u64(q.deadline_ms, deadline)
            &&& forall|v: (Seq<char>, Option<Seq<char>>, Option<u32>)| hints_hold(p.clear_bell_hints@, v) <==> (hints_hold(q.clear_bell_hints@, v) || clear_hint_spec(e) == Some(v))
        },
        None => {
            &&& p.dirty_scopes@ == dirty
            &&& p.deadline_ms == deadline
            &&& forall|v: (Seq<char>, Option<Seq<char>>, Option<u32>)| hints_hold(p.clear_bell_hints@, v) <==> clear_hint_spec(e) == Some(v)
        },
    }
}

/// Whether hook `e` makes anything stale.
pub open spec fn hook_dirties(e: HookEvent) -> bool {
    let d = dirty_for_hook_spec(e);
    d.all || d.alerts || d.clients || !d.sessions.is_empty() || !d.winlinks.is_empty()
}

/// The pending reconcile after a scheduled one ran: retried after a short delay,
/// with one attempt fewer, when it changed nothing, the snapshot showed nothing
/// new, more than alerts was stale and attempts remain; else none.
pub open spec fn retried(p: PendingReconcile, changed: bool, snapshot_changed: bool, now: u64) -> Option<PendingReconcile> {
    let d = p.dirty_scopes@;
    if !changed && !snapshot_changed && (d.all || d.clients || !d.sessions.is_empty() || !d.winlinks.is_empty())
        && p.attempts_remaining > 1 {
        Some(
            PendingReconcile {
                attempts_remaining: (p.attempts_remaining - 1) as usize,
                deadline_ms: later(now, HOOK_RECONCILE_RETRY_DELAY_MS),
                ..p
            },
        )
    } else {
        None
    }
}

/// Position of the client ranking highest by (activity, order, name) among
/// those whose session is not `sid`; -1 when there is none.
pub open spec fn best_client_outside(s: Seq<ClientNode>, sid: Seq<char>) -> int
    decreases s.len(),
{
    if s.len() == 0 {
        -1
    } else {
        let b = best_client_outside(s.drop_last(), sid);
        if s.last().session_id@ == sid {
            b
        } else if b < 0 || client_rank_le(s[b], s.last()) {
            s.len() - 1
        } else {
            b
        }
    }
}

/// The id of the first session from position `k` of `order` on whose id is not `sid`.
pub open spec fn first_other_session(sessions: Seq<SessionNode>, order: Seq<int>, sid: Seq<char>, k: int) -> Option<Seq<char>>
    decreases order.len() - k,
{
    if k < 0 || k >= order.len() {
        None
    } else if sessions[order[k]].id@ != sid {
        Some(sessions[order[k]].id@)
    } else {
        first_other_session(sessions, order, sid, k + 1)
    }
}

/// Where a client leaving session `sid` goes: the session of the most recently
/// active client elsewhere, or else the first other session.
pub open spec fn fallback_session(d: DomainView, sid: Seq<char>) -> Option<Seq<char>> {
    let b = best_client_outside(d.clients, sid);
    if b >= 0 {
        Some(d.clients[b].session_id@)
    } else {
        first_other_session(d.sessions, d.session_order(), sid, 0)
    }
}

/// Recording hook `e` took the daemon from `before` to `after`: only the
/// workdirs moved, by the pane path that the hook reports.
pub open spec fn hook_recorded(before: ServerCoreState, after: ServerCoreState, e: HookEvent) -> bool {
    &&& after.tmux_socket_path == before.tmux_socket_path
    &&& after.generation == before.generation
    &&& after.state == before.state
    &&& after.pending_reconcile == before.pending_reconcile
    &&& match (non_empty_spec(e.session_id), non_empty_spec(e.window_id), non_empty_spec(e.pane_current_path)) {
        (Some(s), Some(w), Some(p)) => after.workdirs@.next_observed_order == bump(before.workdirs@.next_observed_order)
            && after.workdirs@.sessions == record_view(
            before.workdirs@.sessions,
            s,
            w,
            TrackedView { path: p, window_index: e.window_index, observed_order: before.workdirs@.next_observed_order },
        ),
        _ => after.workdirs@ == before.workdirs@,
    }
}

/// Applying the bell of hook `e` took the daemon from `before` to `after`: a
/// hook that changes nothing leaves it as it was; else the marked state is
/// published, with its bells rung.
pub open spec fn overlay_applied(before: ServerCoreState, after: ServerCoreState, e: HookEvent, o: Option<PublishOutcome>) -> bool {
    match o {
        None => !overlay_changes(before.state@, e) && after == before,
        Some(o) => overlay_changes(before.state@, e) && publishes(before, after, overlay_view(before.state@, e), true, o),
    }
}

/// Scheduling the reconcile for hook `e` at time `now` took the daemon from
/// `before` to `after`: only the pending reconcile moved, and only when
/// refreshing from tmux and the hook makes something stale.
pub open spec fn reconcile_scheduled(before: ServerCoreState, after: ServerCoreState, e: HookEvent, refresh: bool, now: u64) -> bool {
    &&& after.tmux_socket_path == before.tmux_socket_path
    &&& after.generation == before.generation
    &&& after.state == before.state
    &&& after.workdirs == before.workdirs
    &&& if !refresh || !hook_dirties(e) {
        after.pending_reconcile == before.pending_reconcile
    } else {
        after.pending_reconcile matches Some(p) && scheduled_after(before.pending_reconcile, e, now, p)
    }
}

/// An error as text: its own message, and the message with its causes.
#[derive(Debug, Clone, PartialEq, Eq)]
pub struct ErrorText {
    pub message: String,
    pub chain: String,
}

/// What a refresh from a snapshot gave: the publish, and whether the snapshot
/// itself differed from the state before.
#[derive(Debug)]
pub struct ReconcileResult {
    pub published: PublishOutcome,
    pub snapshot_changed: bool,
}

fn later_exec(now: u64, delay: u64) -> (r: u64)
    ensures
        r == later(now, delay),
{
    if now > u64::MAX - delay { u64::MAX } else { now + delay }
}

fn same_hint(a: &BellClearHint, b: &BellClearHint) -> (r: bool)
    ensures
        r == (hint_view(*a) == hint_view(*b)),
{
    let window = match (&a.window_id, &b.window_id) {
        (Some(x), Some(y)) => str_eq(x.as_str(), y.as_str()),
        (None, None) => true,
        _ => false,
    };
    let r = str_eq(a.session_id.as_str(), b.session_id.as_str()) && window && a.window_index == b.window_index;
    proof {
        if r {
            assert(opt_view(a.window_id) == opt_view(b.window_id));
        }
    }
    r
}

/// Adds `hint` to `hints` unless an equal one is there.
fn add_hint(hints: &mut Vec<BellClearHint>, hint: BellClearHint)
    ensures
        hints_distinct(old(hints)@) ==> hints_distinct(final(hints)@),
        forall|v: (Seq<char>, Option<Seq<char>>, Option<u32>)| hints_hold(final(hints)@, v) <==> (hints_hold(old(hints)@, v) || v == hint_view(hint)),
{
    let mut i: usize = 0;
    while i < hints.len()
        invariant
            i <= hints@.len(),
            hints@ == old(hints)@,
            forall|j: int| 0 <= j < i ==> hint_view(#[trigger] hints@[j]) != hint_view(hint),
        decreases hints@.len() - i,
    {
        if same_hint(&hints[i], &hint) {
            assert forall|v: (Seq<char>, Option<Seq<char>>, Option<u32>)| hints_hold(hints@, v) <==> (hints_hold(hints@, v) || v == hint_view(hint)) by {
                if v == hint_view(hint) {
                    assert(hint_view(hints@[i as int]) == v);
                }
            }
            return;
        }
        i = i + 1;
    }
    let ghost before = hints@;
    let ghost after = before.push(hint);
    assert forall|v: (Seq<char>, Option<Seq<char>>, Option<u32>)| hints_hold(after, v) <==> (hints_hold(before, v) || v == hint_view(hint)) by {
        if hints_hold(after, v) {
            let k = choose|k: int| 0 <= k < after.len() && hint_view(#[trigger] after[k]) == v;
            if k < before.len() {
                assert(hint_view(before[k]) == v);
            }
        }
        if hints_hold(before, v) {
            let k = choose|k: int| 0 <= k < before.len() && hint_view(#[trigger] before[k]) == v;
            assert(hint_view(after[k]) == v);
        }
        if v == hint_view(hint) {
            assert(hint_view(after[before.len() as int]) == v);
        }
    }
    hints.push(hint);
    assert(hints@ == after);
}

fn find_best_client_outside(clients: &Vec<ClientNode>, sid: &str) -> (r: Option<usize>)
    ensures
        match r {
            Some(p) => p as int == best_client_outside(clients@, sid@) && p < clients@.len(),
            None => best_client_outside(clients@, sid@) == -1,
        },
{
    let mut best: Option<usize> = None;
    let mut i: usize = 0;
    while i < clients.len()
        invariant
            i <= clients@.len(),
            match best {
                Some(p) => p as int == best_client_outside(clients@.subrange(0, i as int), sid@) && p < i,
                None => best_client_outside(clients@.subrange(0, i as int), sid@) == -1,
            },
        decreases clients@.len() - i,
    {
        let ghost pre = clients@.subrange(0, i as int);
        assert(clients@.subrange(0, i + 1).drop_last() == pre);
        if !str_eq(clients[i].session_id.as_str(), sid) {
            match best {
                Some(p) => {
                    assert(pre[p as int] == clients@[p as int]);
                    if client_rank_le_exec(&clients[p], &clients[i]) {
                        best = Some(i);
                    }
                },
                None => {
                    best = Some(i);
                },
            }
        }
        i = i + 1;
    }
    assert(clients@.subrange(0, i as int) == clients@);
    best
}

/// The result of an action from how it ran and how the refresh after it went:
/// success only when both succeeded; else the action's error, the refresh's, or
/// both.
pub open spec fn action_result_spec(
    action: Result<Option<ActionOutcome>, ErrorText>,
    refresh: Result<(), ErrorText>,
    r: ActionResultKind,
) -> bool {
    match (action, refresh) {
        (Ok(outcome), Ok(_)) => r == ActionResultKind::Completed { outcome },
        (Err(a), Ok(_)) => r is Error && r->message@ == a.message@,
        (Ok(_), Err(f)) => r is Error && r->message@ == "action succeeded but failed to refresh state: "@ + f.chain@,
        (Err(a), Err(f)) => r is Error && r->message@ == a.chain@ + "; additionally failed to refresh state: "@
            + f.chain@,
    }
}

/// The answer to an action from how it ran and how the refresh after it went.
pub fn action_result_kind(action: Result<Option<ActionOutcome>, ErrorText>, refresh: Result<(), ErrorText>) -> (r:
    ActionResultKind)
    ensures
        action_result_spec(action, refresh, r),
{
    match (action, refresh) {
        (Ok(outcome), Ok(_)) => ActionResultKind::Completed { outcome },
        (Err(a), Ok(_)) => ActionResultKind::Error { message: a.message },
        (Ok(_), Err(f)) => {
            let mut message = to_owned_string("action succeeded but failed to refresh state: ");
            push_str(&mut message, f.chain.as_str());
            ActionResultKind::Error { message }
        },
        (Err(a), Err(f)) => {
            let mut message = a.chain;
            push_str(&mut message, "; additionally failed to refresh state: ");
            push_str(&mut message, f.chain.as_str());
            ActionResultKind::Error { message }
        },
    }
}

/// The answer to a window creation whose working directory could not be found.
pub fn workdir_resolution_failed(error: &ErrorText) -> (r: ActionResultKind)
    ensures
        r is Error && r->message@ == "failed to resolve working directory: "@ + error.chain@,
{
    let mut message = to_owned_string("failed to resolve working directory: ");
    push_str(&mut message, error.chain.as_str());
    ActionResultKind::Error { message }
}

/// The bells to ring when the state moves from `previous` to `next`.
fn bells_for(previous: &DomainState, next: &DomainState, notify: bool) -> (b: Option<BellNotification>)
    ensures
        bells_announced(b, notify, previous.winlinks@, next@),
{
    if !notify {
        return None;
    }
    let repeat_count = count_new_bell_transitions(previous, next);
    if repeat_count == 0 {
        return None;
    }
    let tty_paths = bell_notification_ttys(next);
    if tty_paths.len() == 0 {
        assert(tty_set(next@) =~= Set::<Seq<char>>::empty()) by {
            assert forall|t: Seq<char>| !tty_set(next@).contains(t) by {}
        }
        return None;
    }
    Some(BellNotification { tty_paths, repeat_count })
}

/// The move that closing session `closing` asks of the request's target
/// client: when the client is in that session, to the session of the most
/// recently active client elsewhere, or else the first other session; none
/// when there is no target client or it is elsewhere.
pub open spec fn close_switch_for(
    s: ServerCoreState,
    request: ActionRequest,
    closing: Seq<char>,
    r: Option<CloseSessionClientSwitch>,
) -> bool {
    match r {
        Some(sw) => {
            &&& request.target_client matches Some(t)
            &&& s.state@.visible_client_pos(Some(t@)) >= 0
            &&& s.state.clients@[s.state@.visible_client_pos(Some(t@))].session_id@ == closing
            &&& opt_view(sw.fallback_session_id) == fallback_session(s.state@, closing)
        },
        None => match request.target_client {
            None => true,
            Some(t) => {
                let c = s.state@.visible_client_pos(Some(t@));
                c < 0 || s.state.clients@[c].session_id@ != closing
            },
        },
    }
}

/// What an action request needs before it runs.
#[derive(Debug, Clone, PartialEq, Eq)]
pub enum ActionPreparation {
    /// Look up the working directories of the session's windows, then run
    /// with the path that `resolve_create_window_path` picks.
    InspectWorkdirs { session_id: String },
    /// Run with these options.
    Run(ActionExecutionOptions),
}

/// Options that ask nothing beyond the request.
pub open spec fn plain_options() -> ActionExecutionOptions {
    ActionExecutionOptions { create_window_path: None, close_session_client_switch: None }
}

/// A new window needs its session's working directories; closing a session
/// moves a target client that is in it; other actions need nothing.
pub open spec fn prepared(s: ServerCoreState, request: ActionRequest, p: ActionPreparation) -> bool {
    match request.action {
        Action::CreateWindow { session_id, .. } => p == ActionPreparation::InspectWorkdirs { session_id },
        Action::CloseSession { session_id } => p matches ActionPreparation::Run(o) && o.create_window_path.is_none()
            && close_switch_for(s, request, session_id@, o.close_session_client_switch),
        _ => p == ActionPreparation::Run(plain_options()),
    }
}

/// What follows one refresh after an action ran.
#[derive(Debug, Clone, PartialEq, Eq)]
pub enum ActionRefreshStep {
    /// The state shows the action.
    Done,
    /// Refresh again after the retry delay.
    Retry,
    /// Give up with this message.
    Fail(String),
}

/// After refresh number `attempt` (from 0): done when the state shows the
/// effect, another try while attempts remain, else the unsatisfied message.
pub fn action_refresh_step(effect: &ActionEffect, state: &DomainState, attempt: usize) -> (s: ActionRefreshStep)
    ensures
        if effect_shown(*effect, state@) {
            s == ActionRefreshStep::Done
        } else if attempt + 1 < ACTION_RECONCILE_ATTEMPTS {
            s == ActionRefreshStep::Retry
        } else {
            s matches ActionRefreshStep::Fail(m) && m@ == unsatisfied_text(*effect)
        },
{
    if effect.is_satisfied(state) {
        return ActionRefreshStep::Done;
    }
    if attempt < ACTION_RECONCILE_ATTEMPTS - 1 {
        ActionRefreshStep::Retry
    } else {
        ActionRefreshStep::Fail(effect.unsatisfied_message())
    }
}

impl ServerCoreState {
    /// The state that the daemon starts from, at generation 1.
    pub fn new(tmux_socket_path: String, initial: DomainState) -> (s: Self)
        ensures
            s.tmux_socket_path == tmux_socket_path,
            s.generation == 1,
            s.state == initial,
            s.workdirs@.next_observed_order == 0,
            s.workdirs@.sessions.len() == 0,
            s.pending_reconcile.is_none(),
    {
        ServerCoreState {
            tmux_socket_path,
            generation: 1,
            state: initial,
            workdirs: SessionWorkdirTracker::new(),
            pending_reconcile: None,
        }
    }

    /// The current generation and projection.
    pub fn current_state_update(&self) -> (u: StateUpdated)
        ensures
            u.generation == self.generation,
            projection_of(u.state, self.state@),
    {
        StateUpdated { generation: self.generation, state: ProjectionState::from_domain(&self.state) }
    }

    /// Publishes `next_state`: when it differs from the current state, the
    /// generation moves on, recorded workdirs of vanished windows are dropped, and
    /// (when asked) the new bells are counted for the clients' ttys.
    pub fn publish_state_update(&mut self, next_state: DomainState, notify_bells: bool) -> (o: PublishOutcome)
        requires
            old(self).generation < u64::MAX,
        ensures
            publishes(*old(self), *final(self), next_state@, notify_bells, o),
            domain_wf(old(self).state@) && domain_wf(next_state@) ==> domain_wf(final(self).state@),
    {
        if domain_states_equal(&next_state, &self.state) {
            return PublishOutcome { update: self.current_state_update(), changed: false, bells: None };
        }
        let bells = bells_for(&self.state, &next_state, notify_bells);
        self.generation = self.generation + 1;
        self.workdirs.prune_to_projection(&next_state);
        self.state = next_state;
        let update = StateUpdated { generation: self.generation, state: ProjectionState::from_domain(&self.state) };
        PublishOutcome { update, changed: true, bells }
    }

    /// Marks the bell that a hook reports and publishes the state when that
    /// changed it.
    pub fn apply_hook_overlay(&mut self, event: &HookEvent) -> (o: Option<PublishOutcome>)
        requires
            old(self).generation < u64::MAX,
        ensures
            overlay_applied(*old(self), *final(self), *event, o),
            domain_wf(old(self).state@) ==> domain_wf(final(self).state@),
    {
        let mut next_state = self.state.clone();
        if !apply_hook_event_overlay(&mut next_state, event) {
            return None;
        }
        assert(next_state@ =~= overlay_view(self.state@, *event));
        Some(self.publish_state_update(next_state, true))
    }

    /// Schedules the reconcile that a hook asks for: its stale scopes merged
    /// into the pending ones, its bell hint kept, the later deadline and fresh
    /// attempts.
    pub fn schedule_hook_reconciliation(&mut self, event: &HookEvent, refresh_from_tmux: bool, now_ms: u64)
        ensures
            reconcile_scheduled(*old(self), *final(self), *event, refresh_from_tmux, now_ms),
            final(self).state == old(self).state,
    {
        if !refresh_from_tmux {
            return;
        }
        let dirty_scopes = dirty_scopes_for_hook(event);
        if dirty_scopes.is_empty() {
            return;
        }
        let deadline = later_exec(now_ms, HOOK_RECONCILE_SETTLE_DELAY_MS);
        let hint = bell_clear_hint_for_hook(event);
        let ghost hint_spec = clear_hint_spec(*event);
        let ghost old_pending = self.pending_reconcile;
        match self.pending_reconcile.take() {
            Some(mut pending) => {
                pending.dirty_scopes.merge(dirty_scopes);
                match hint {
                    Some(h) => {
                        assert(hint_view(h) == hint_spec->0);
                        add_hint(&mut pending.clear_bell_hints, h);
                    },
                    None => {},
                }
                if deadline > pending.deadline_ms {
                    pending.deadline_ms = deadline;
                }
                pending.attempts_remaining = HOOK_RECONCILE_ATTEMPTS;
                self.pending_reconcile = Some(pending);
            },
            None => {
                let mut clear_bell_hints: Vec<BellClearHint> = Vec::new();
                match hint {
                    Some(h) => {
                        assert(hint_view(h) == hint_spec->0);
                        clear_bell_hints.push(h);
                        assert forall|v: (Seq<char>, Option<Seq<char>>, Option<u32>)| hints_hold(clear_bell_hints@, v) <==> hint_spec == Some(v) by {
                            if v == hint_view(h) {
                                assert(hint_view(clear_bell_hints@[0]) == v);
                            }
                        }
                    },
                    None => {},
                }
                self.pending_reconcile = Some(
                    PendingReconcile {
                        dirty_scopes,
                        clear_bell_hints,
                        deadline_ms: deadline,
                        attempts_remaining: HOOK_RECONCILE_ATTEMPTS,
                    },
                );
            },
        }
    }

    /// Handles a hook event: records the pane path it reports, marks its bell
    /// (publishing when that changed the state) and schedules its reconcile.
    pub fn handle_hook_event(&mut self, event: &HookEvent, refresh_from_tmux: bool, now_ms: u64) -> (o: Option<
        PublishOutcome,
    >)
        requires
            old(self).generation < u64::MAX,
        ensures
            exists|recorded: ServerCoreState, overlaid: ServerCoreState|
                hook_recorded(*old(self), recorded, *event) && overlay_applied(recorded, overlaid, *event, o)
                    && reconcile_scheduled(overlaid, *final(self), *event, refresh_from_tmux, now_ms),
            domain_wf(old(self).state@) ==> domain_wf(final(self).state@),
    {
        self.workdirs.record_hook(event);
        let ghost recorded = *self;
        let o = self.apply_hook_overlay(event);
        let ghost overlaid = *self;
        self.schedule_hook_reconciliation(event, refresh_from_tmux, now_ms);
        assert(hook_recorded(*old(self), recorded, *event));
        o
    }

    /// How long until the pending reconcile is due, when one is pending.
    pub fn reconcile_timeout(&self, now_ms: u64) -> (r: Option<u64>)
        ensures
            match self.pending_reconcile {
                Some(p) => r == Some(if p.deadline_ms > now_ms { (p.deadline_ms - now_ms) as u64 } else { 0 }),
                None => r.is_none(),
            },
    {
        match &self.pending_reconcile {
            Some(p) => Some(if p.deadline_ms > now_ms { p.deadline_ms - now_ms } else { 0 }),
            None => None,
        }
    }

    /// Takes the pending reconcile out.
    pub fn take_pending_reconcile(&mut self) -> (p: Option<PendingReconcile>)
        ensures
            p == old(self).pending_reconcile,
            final(self).pending_reconcile.is_none(),
            final(self).tmux_socket_path == old(self).tmux_socket_path,
            final(self).generation == old(self).generation,
            final(self).state == old(self).state,
            final(self).workdirs == old(self).workdirs,
    {
        self.pending_reconcile.take()
    }

    /// Refreshes from a tmux snapshot: the bells that the snapshot lost are
    /// carried over (unless viewed or cleared by a hint), and the result is
    /// published.
    pub fn reconcile_from_snapshot(&mut self, snapshot: DomainState, clear_bell_hints: &Vec<BellClearHint>, notify_bells: bool) -> (r: ReconcileResult)
        requires
            old(self).generation < u64::MAX,
        ensures
            r.snapshot_changed == !domain_same(snapshot@, old(self).state@),
            publishes(
                *old(self),
                *final(self),
                carried_view(old(self).state@, snapshot@, clear_bell_hints@),
                notify_bells,
                r.published,
            ),
            domain_wf(old(self).state@) && domain_wf(snapshot@) ==> domain_wf(final(self).state@),
    {
        let snapshot_changed = !domain_states_equal(&snapshot, &self.state);
        let ghost snap = snapshot@;
        let mut next_state = snapshot;
        preserve_cached_bell_overlays(&self.state, &mut next_state, clear_bell_hints);
        assert(next_state.winlinks@ =~= carried_view(self.state@, snap, clear_bell_hints@).winlinks);
        assert(next_state@ == carried_view(self.state@, snap, clear_bell_hints@));
        let published = self.publish_state_update(next_state, notify_bells);
        ReconcileResult { published, snapshot_changed }
    }

    /// Runs a scheduled reconcile on a fresh snapshot and, when it changed
    /// nothing that should have changed, schedules it again.
    pub fn run_scheduled_reconcile(&mut self, pending: PendingReconcile, snapshot: DomainState, now_ms: u64) -> (r:
        ReconcileResult)
        requires
            old(self).generation < u64::MAX,
        ensures
            r.snapshot_changed == !domain_same(snapshot@, old(self).state@),
            publishes(
                *old(self),
                ServerCoreState { pending_reconcile: old(self).pending_reconcile, ..*final(self) },
                carried_view(old(self).state@, snapshot@, pending.clear_bell_hints@),
                true,
                r.published,
            ),
            final(self).pending_reconcile == match retried(pending, r.published.changed, r.snapshot_changed, now_ms) {
                Some(q) => Some(q),
                None => old(self).pending_reconcile,
            },
            domain_wf(old(self).state@) && domain_wf(snapshot@) ==> domain_wf(final(self).state@),
    {
        let r = self.reconcile_from_snapshot(snapshot, &pending.clear_bell_hints, true);
        if !r.published.changed && !r.snapshot_changed && pending.dirty_scopes.requires_confirmation()
            && pending.attempts_remaining > 1 {
            let mut pending = pending;
            pending.attempts_remaining = pending.attempts_remaining - 1;
            pending.deadline_ms = later_exec(now_ms, HOOK_RECONCILE_RETRY_DELAY_MS);
            self.pending_reconcile = Some(pending);
        }
        r
    }

    /// Records the path that a created window reports.
    pub fn record_action_effect(&mut self, effect: &ActionEffect)
        ensures
            final(self).tmux_socket_path == old(self).tmux_socket_path,
            final(self).generation == old(self).generation,
            final(self).state == old(self).state,
            final(self).pending_reconcile == old(self).pending_reconcile,
            match effect {
                ActionEffect::CreatedWindow { session_id, window_id, current_path: Some(path) } => {
                    &&& final(self).workdirs@.next_observed_order == bump(old(self).workdirs@.next_observed_order)
                    &&& final(self).workdirs@.sessions == record_view(
                        old(self).workdirs@.sessions,
                        session_id@,
                        window_id@,
                        TrackedView { path: path@, window_index: None, observed_order: old(self).workdirs@.next_observed_order },
                    )
                },
                _ => final(self).workdirs@ == old(self).workdirs@,
            },
    {
        match effect {
            ActionEffect::CreatedWindow { session_id, window_id, current_path: Some(path) } => {
                self.workdirs.record_created_window(session_id.as_str(), window_id.as_str(), path.clone());
            },
            _ => {},
        }
    }

    /// The working directory for a window created in `session_id`: the live
    /// workdirs are recorded first, then the path is resolved from them or from
    /// what was recorded before.
    pub fn resolve_create_window_path(&mut self, session_id: &str, live_workdirs: &Vec<WindowWorkdir>) -> (r: Option<String>)
        ensures
            final(self).tmux_socket_path == old(self).tmux_socket_path,
            final(self).generation == old(self).generation,
            final(self).state == old(self).state,
            final(self).pending_reconcile == old(self).pending_reconcile,
            session_workdirs_recorded(old(self).workdirs@, final(self).workdirs@, session_id@, live_workdirs@),
            opt_view(r) == session_path_spec(final(self).workdirs@, old(self).state@, session_id@, live_workdirs@),
    {
        self.workdirs.record_session_workdirs(session_id, live_workdirs);
        self.workdirs.resolve_session_path(&self.state, session_id, live_workdirs)
    }

    /// What the request needs before it runs.
    pub fn prepare_action(&self, request: &ActionRequest) -> (p: ActionPreparation)
        ensures
            prepared(*self, *request, p),
    {
        match &request.action {
            Action::CreateWindow { session_id, .. } => ActionPreparation::InspectWorkdirs {
                session_id: session_id.clone(),
            },
            Action::CloseSession { session_id } => {
                let close_session_client_switch = self.resolve_close_session_client_switch(
                    request,
                    session_id.as_str(),
                );
                ActionPreparation::Run(ActionExecutionOptions { create_window_path: None, close_session_client_switch })
            },
            _ => ActionPreparation::Run(
                ActionExecutionOptions { create_window_path: None, close_session_client_switch: None },
            ),
        }
    }

    /// Where the target client goes when it closes the session it is in: the
    /// session of the most recently active client elsewhere, or else the first
    /// other session. None when there is no target client or it is elsewhere.
    pub fn resolve_close_session_client_switch(&self, request: &ActionRequest, closing_session_id: &str) -> (r: Option<
        CloseSessionClientSwitch,
    >)
        ensures
            close_switch_for(*self, *request, closing_session_id@, r),
    {
        let target = match &request.target_client {
            Some(t) => ClientName(t.clone()),
            None => return None,
        };
        let client = match self.state.visible_client(Some(&target)) {
            Some(c) => c,
            None => return None,
        };
        if !str_eq(client.session_id.as_str(), closing_session_id) {
            return None;
        }
        let fallback_session_id = match find_best_client_outside(&self.state.clients, closing_session_id) {
            Some(b) => Some(self.state.clients[b].session_id.clone()),
            None => self.first_other_session(closing_session_id),
        };
        Some(CloseSessionClientSwitch { fallback_session_id })
    }

    fn first_other_session(&self, closing_session_id: &str) -> (r: Option<String>)
        ensures
            opt_view(r) == first_other_session(self.state.sessions@, self.state@.session_order(), closing_session_id@, 0),
    {
        let ordered = self.state.ordered_sessions();
        let ghost order = self.state@.session_order();
        let mut k: usize = 0;
        while k < ordered.len()
            invariant
                k <= ordered@.len(),
                ordered@.len() == order.len(),
                order == self.state@.session_order(),
                forall|j: int| 0 <= j < ordered@.len() ==> {
                    let p = #[trigger] order[j];
                    0 <= p < self.state.sessions@.len() && *ordered@[j] == self.state.sessions@[p]
                },
                first_other_session(self.state.sessions@, order, closing_session_id@, 0) == first_other_session(
                    self.state.sessions@,
                    order,
                    closing_session_id@,
                    k as int,
                ),
            decreases ordered@.len() - k,
        {
            proof {
                let _ = order[k as int];
            }
            if !str_eq(ordered[k].id.as_str(), closing_session_id) {
                return Some(ordered[k].id.clone());
            }
            k = k + 1;
        }
        None
    }
}

} // verus!
