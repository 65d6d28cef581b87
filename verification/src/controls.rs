//! How the tree view answers keys and the mouse: the state it moves to and the
//! request it hands to the daemon, and what it does when the answer comes back.
//! Reading the terminal and talking to the daemon are the caller's.
use vstd::prelude::*;

use crate::domain::rows::{Focus, FocusView, TreeRow, TreeRowKind};
use crate::domain::state::{ClientName, WindowAlert};
use crate::input::{strip_line_breaks, InputBuffer};
use crate::ipc::{Action, ActionOutcome, ActionResultKind};
use crate::projection::ProjectionState;
use crate::model::{
    first_label_at, first_session_at, first_window_at, find_snapshot_session, find_snapshot_window, jump_count,
    move_target, reconciled, target_of, visible_targeted, ActionError, FocusReconcile, AppState, EditAction, FocusMove, Mode, NavigationState, Session, TmuxState,
};
use crate::domain::state::target_view;
use crate::text::{push_str, str_eq, to_owned_string};
use crate::ui::{alert_digits, tree_index_for_terminal_row, tree_index_spec};

verus! {

/// A key as the tree view reads it.
#[derive(Debug, Clone, Copy, PartialEq, Eq, Structural)]
pub enum Key {
    Char(char),
    Up,
    Down,
    Left,
    Right,
    Home,
    End,
    Enter,
    Esc,
    Backspace,
    Delete,
    Other,
}

/// A key event: the key, its modifiers, and whether it was pressed (or
/// repeated) rather than released.
#[derive(Debug, Clone, Copy, PartialEq, Eq, Structural)]
pub struct KeyInput {
    pub key: Key,
    pub ctrl: bool,
    pub alt: bool,
    pub pressed: bool,
}

/// A mouse event as the tree view reads it.
#[derive(Debug, Clone, Copy, PartialEq, Eq, Structural)]
pub enum MouseInput {
    LeftDown { row: u16 },
    ScrollUp,
    ScrollDown,
    Other,
}

/// What the view does once the daemon has answered a request.
#[derive(Debug, Clone, PartialEq, Eq)]
pub enum FollowUp {
    /// Nothing more.
    Nothing,
    /// Quit when the view quits after switching.
    QuitIfAutoQuit,
    /// Focus the renamed session.
    FocusSession(String),
    /// Focus the renamed window (session id, window id).
    FocusWindow(String, String),
    /// Switch the client to the session just created.
    SwitchToCreatedSession(ClientName),
    /// Switch the client to the window just created in the session.
    SwitchToCreatedWindow(ClientName, String),
    /// After switching to a created target: quit when the view quits after
    /// switching, else focus the target.
    FocusAfterSwitch(Focus),
}

/// What the caller does after a key, a mouse event or an answer.
#[derive(Debug, Clone, PartialEq, Eq)]
pub enum UiCommand {
    Nothing,
    Quit,
    /// Send the action to the daemon, then hand its answer to `after_action`
    /// with `then`.
    Send { target_client: Option<String>, action: Action, then: FollowUp },
}

/// `a` and `b` differ at most in their focus and mode.
pub open spec fn same_but_focus_mode(a: AppState, b: AppState) -> bool {
    &&& a.tmux == b.tmux
    &&& a.navigation == b.navigation
    &&& a.target_client == b.target_client
    &&& a.last_error == b.last_error
    &&& a.toast == b.toast
    &&& a.tree_loading == b.tree_loading
}

/// An empty text field.
pub open spec fn empty_input(b: InputBuffer) -> bool {
    b@.text == Seq::<char>::empty() && b@.cursor == 0
}

/// Naming a new session began: the new-session row focused, an empty field.
pub open spec fn session_naming_begun(before: AppState, after: AppState) -> bool {
    &&& same_but_focus_mode(after, before)
    &&& after.focus == Focus::CreateSession
    &&& after.mode matches Mode::CreateSessionName { input } && empty_input(input)
}

/// Naming a new window of session `sid` began: its new-window row focused, an
/// empty field.
pub open spec fn window_naming_begun(before: AppState, after: AppState, sid: Seq<char>) -> bool {
    &&& same_but_focus_mode(after, before)
    &&& after.focus@ == FocusView::CreateWindow(sid)
    &&& after.mode matches Mode::CreateWindowName { session_id, input } && session_id@ == sid && empty_input(input)
}

/// Activating the focused row: a session or window row switches the target
/// client there (nothing without a target client); a new-session or new-window
/// row starts naming it.
pub open spec fn activated(before: AppState, after: AppState, cmd: UiCommand) -> bool {
    match before.focus {
        Focus::Session(sid) => after == before && match before.target_client {
            None => cmd == UiCommand::Nothing,
            Some(c) => cmd == UiCommand::Send {
                target_client: Some(c.0),
                action: Action::SwitchSession { session_id: sid },
                then: FollowUp::QuitIfAutoQuit,
            },
        },
        Focus::Window { session_id, window_id } => after == before && match before.target_client {
            None => cmd == UiCommand::Nothing,
            Some(c) => cmd == UiCommand::Send {
                target_client: Some(c.0),
                action: Action::SwitchWindow { session_id, window_id },
                then: FollowUp::QuitIfAutoQuit,
            },
        },
        Focus::CreateSession => cmd == UiCommand::Nothing && session_naming_begun(before, after),
        Focus::CreateWindow(sid) => cmd == UiCommand::Nothing && window_naming_begun(before, after, sid@),
    }
}

/// The session that a new window goes to from the focused row: the focused
/// row's session, or, on the new-session row, the session that the target
/// client shows (when the snapshot lists it).
pub open spec fn new_window_session(s: AppState) -> Option<Seq<char>> {
    match s.focus {
        Focus::Session(sid) => Some(sid@),
        Focus::CreateWindow(sid) => Some(sid@),
        Focus::Window { session_id, .. } => Some(session_id@),
        Focus::CreateSession => match s.tmux.domain().visible_session_id(target_of(s.target_client)) {
            Some(id) => if exists|p: int| first_session_at(s.tmux.sessions@, id, p) {
                Some(id)
            } else {
                None
            },
            None => None,
        },
    }
}

/// Closing the focused row: a session row closes the session for the target
/// client, a window row closes the window; other rows do nothing.
pub open spec fn closed(before: AppState, after: AppState, cmd: UiCommand) -> bool {
    &&& after == before
    &&& match before.focus {
        Focus::Session(sid) => cmd == UiCommand::Send {
            target_client: match before.target_client {
                Some(c) => Some(c.0),
                None => None,
            },
            action: Action::CloseSession { session_id: sid },
            then: FollowUp::Nothing,
        },
        Focus::Window { session_id, window_id } => cmd == UiCommand::Send {
            target_client: None,
            action: Action::CloseWindow { session_id, window_id },
            then: FollowUp::Nothing,
        },
        _ => cmd == UiCommand::Nothing,
    }
}

/// `after` renames with a field that holds `name`, cursor at the end.
pub open spec fn rename_field(input: InputBuffer, name: String) -> bool {
    input@.text == strip_line_breaks(name@) && input@.cursor == input@.text.len()
}

/// Starting a rename of the focused session or window: its current name in
/// the field; nothing when the snapshot does not list it.
pub open spec fn rename_started(before: AppState, after: AppState) -> bool {
    let ss = before.tmux.sessions@;
    match before.focus {
        Focus::Session(id) => if exists|p: int| first_session_at(ss, id@, p) {
            exists|p: int|
                first_session_at(ss, id@, p) && same_but_focus_mode(after, before) && after.focus == before.focus
                    && (after.mode matches Mode::RenameSession { id: i, original_name, input } && i == id && original_name
                    == ss[p].name && rename_field(input, ss[p].name))
        } else {
            after == before
        },
        Focus::Window { session_id, window_id } => if exists|p: int, q: int|
            first_session_at(ss, session_id@, p) && first_window_at(ss[p].windows@, window_id@, q) {
            exists|p: int, q: int|
                first_session_at(ss, session_id@, p) && first_window_at(ss[p].windows@, window_id@, q)
                    && same_but_focus_mode(after, before) && after.focus == before.focus && (after.mode matches Mode::RenameWindow {
                    session_id: s,
                    id,
                    original_name,
                    input,
                } && s == session_id && id == window_id && original_name == ss[p].windows@[q].name && rename_field(
                    input,
                    ss[p].windows@[q].name,
                ))
        } else {
            after == before
        },
        _ => after == before,
    }
}

/// The name a create request gives: none for an empty field.
pub open spec fn requested_name(name: Option<String>, text: Seq<char>) -> bool {
    if text.len() == 0 {
        name.is_none()
    } else {
        name matches Some(n) && n@ == text
    }
}

/// Submitting the edit field: back to normal mode, and the request of the mode
/// (rename, or create for the target client; nothing without one).
pub open spec fn submitted(before: AppState, after: AppState, cmd: UiCommand) -> bool {
    &&& after == AppState { mode: Mode::Normal, ..before }
    &&& match before.mode {
        Mode::RenameSession { id, input, .. } => cmd matches UiCommand::Send { target_client, action, then } && target_client.is_none()
            && (action matches Action::RenameSession { session_id, name } && session_id == id && name@ == input@.text)
            && then == FollowUp::FocusSession(id),
        Mode::RenameWindow { session_id, id, input, .. } => cmd matches UiCommand::Send { target_client, action, then }
            && target_client.is_none() && (action matches Action::RenameWindow { window_id, name } && window_id == id
            && name@ == input@.text) && then == FollowUp::FocusWindow(session_id, id),
        Mode::CreateSessionName { input } => match before.target_client {
            None => cmd == UiCommand::Nothing,
            Some(c) => cmd matches UiCommand::Send { target_client, action, then } && target_client.is_none()
                && (action matches Action::CreateSession { name } && requested_name(name, input@.text))
                && then == FollowUp::SwitchToCreatedSession(c),
        },
        Mode::CreateWindowName { session_id, input } => match before.target_client {
            None => cmd == UiCommand::Nothing,
            Some(c) => cmd matches UiCommand::Send { target_client, action, then } && target_client.is_none()
                && (action matches Action::CreateWindow { session_id: s, name } && s == session_id && requested_name(
                name,
                input@.text,
            )) && then == FollowUp::SwitchToCreatedWindow(c, session_id),
        },
        Mode::Normal => cmd == UiCommand::Nothing,
        Mode::Help => cmd == UiCommand::Nothing,
    }
}

/// Submitting a rename sends the text of the edit field as it stands at
/// submission, for the session or window being renamed, and focuses that row
/// when it is done; submitting a name for a new session or window sends the
/// field's text (no name when it is empty). The edit ends either way.
pub proof fn law_submit_sends_the_field_text(before: AppState, after: AppState, cmd: UiCommand)
    requires
        submitted(before, after, cmd),
    ensures
        after.mode == Mode::Normal,
        before.mode matches Mode::RenameSession { id, input, .. } ==> cmd matches UiCommand::Send { action, then, .. }
            && action matches Action::RenameSession { session_id, name } && session_id == id && name@ == input@.text
            && then == FollowUp::FocusSession(id),
        before.mode matches Mode::RenameWindow { session_id, id, input, .. } ==> cmd matches UiCommand::Send {
            action,
            then,
            ..
        } && action matches Action::RenameWindow { window_id, name } && window_id == id && name@ == input@.text
            && then == FollowUp::FocusWindow(session_id, id),
        before.target_client is Some ==> (before.mode matches Mode::CreateSessionName { input } ==> cmd matches UiCommand::Send {
            action,
            ..
        } && action matches Action::CreateSession { name } && (if input@.text.len() == 0 {
            name is None
        } else {
            name matches Some(n) && n@ == input@.text
        })),
        before.target_client is Some ==> (before.mode matches Mode::CreateWindowName { session_id, input } ==> cmd matches UiCommand::Send {
            action,
            ..
        } && action matches Action::CreateWindow { session_id: s, name } && s == session_id && (if input@.text.len() == 0 {
            name is None
        } else {
            name matches Some(n) && n@ == input@.text
        })),
{
}

pub open spec fn nav_cleared(s: AppState) -> AppState {
    AppState { navigation: NavigationState { pending_g: false, jumping: false }, ..s }
}

pub open spec fn g_cleared(s: AppState) -> AppState {
    AppState { navigation: NavigationState { pending_g: false, jumping: s.navigation.jumping }, ..s }
}

pub open spec fn g_started(s: AppState) -> AppState {
    if s.navigation.pending_g {
        s
    } else {
        AppState { navigation: NavigationState { pending_g: true, jumping: false }, ..s }
    }
}

pub open spec fn jump_started(s: AppState) -> AppState {
    if s.rows().len() > 0 {
        AppState { navigation: NavigationState { pending_g: false, jumping: true }, ..s }
    } else {
        s
    }
}

pub open spec fn jump_cancelled(s: AppState) -> AppState {
    AppState { navigation: NavigationState { pending_g: s.navigation.pending_g, jumping: false }, ..s }
}

/// `s` with row `i` focused (unchanged when there is no such row or it is focused).
pub open spec fn row_focused(s: AppState, i: int) -> AppState {
    if 0 <= i < s.rows().len() && s.rows()[i].focus@ != s.focus@ {
        AppState { focus: s.rows()[i].focus, ..s }
    } else {
        s
    }
}

pub open spec fn moved(s: AppState, m: FocusMove) -> AppState {
    if s.rows().len() > 0 {
        row_focused(s, move_target(s.rows(), s.focus@, m))
    } else {
        s
    }
}

/// The position of the row that jump label `label` picks, or -1.
pub open spec fn label_row(s: AppState, label: char) -> int {
    let n = jump_count(s.rows().len() as int);
    if exists|p: int| first_label_at(label, n, p) {
        choose|p: int| first_label_at(label, n, p)
    } else {
        -1
    }
}

/// The position among the alerted rows that digit `d` names: `1`-`9` the
/// first nine, `0` the tenth.
pub open spec fn alert_label_index(d: char) -> int {
    match d {
        '1' => 0,
        '2' => 1,
        '3' => 2,
        '4' => 3,
        '5' => 4,
        '6' => 5,
        '7' => 6,
        '8' => 7,
        '9' => 8,
        '0' => 9,
        _ => -1,
    }
}

/// Whether a row shows an alert.
pub open spec fn row_alerted(r: TreeRow) -> bool {
    r.kind matches TreeRowKind::Window { alert, .. } && alert == WindowAlert::Bell
}

/// The positions of the rows among the first `n` that show an alert, in order.
pub open spec fn alert_rows(rows: Seq<TreeRow>, n: nat) -> Seq<int>
    decreases n,
{
    if n == 0 {
        Seq::empty()
    } else if row_alerted(rows[n - 1]) {
        alert_rows(rows, (n - 1) as nat).push(n - 1)
    } else {
        alert_rows(rows, (n - 1) as nat)
    }
}

/// The row that digit `d` picks among the alerted rows, or -1.
pub open spec fn alert_row(s: AppState, d: char) -> int {
    let alerts = alert_rows(s.rows(), s.rows().len());
    let k = alert_label_index(d);
    if 0 <= k < alerts.len() {
        alerts[k]
    } else {
        -1
    }
}

/// The edit action applied to the field of the mode (nothing without one).
pub open spec fn edited(before: AppState, a: EditAction, after: AppState) -> bool {
    match crate::model::mode_input(before.mode) {
        None => after == before,
        Some(b) => crate::model::mode_input(after.mode) matches Some(b2) && after.mode == crate::model::with_input(
            before.mode,
            b2,
        ) && b2@ == crate::model::edit_step(b@, a).0 && after == AppState { mode: after.mode, ..before },
    }
}

/// The view's answer to a key in normal mode, from state `s`.
pub open spec fn normal_key(s: AppState, key: KeyInput, after: AppState, cmd: UiCommand) -> bool {
    let c = nav_cleared(s);
    match key.key {
        Key::Char('q') => after == s && cmd == UiCommand::Quit,
        Key::Char('c') if key.ctrl => after == s && cmd == UiCommand::Quit,
        Key::Char('?') => after == AppState { mode: Mode::Help, ..s } && cmd == UiCommand::Nothing,
        Key::Char('g') => after == g_started(s) && cmd == UiCommand::Nothing,
        Key::Char('G') => after == row_focused(c, c.rows().len() - 1) && cmd == UiCommand::Nothing,
        Key::Char('n') => session_naming_begun(c, after) && cmd == UiCommand::Nothing,
        Key::Char('s') => after == jump_started(s) && cmd == UiCommand::Nothing,
        Key::Char('c') => cmd == UiCommand::Nothing && match new_window_session(c) {
            None => after == c,
            Some(sid) => window_naming_begun(c, after, sid),
        },
        Key::Char(d) if alert_label_index(d) >= 0 => {
            let p = alert_row(c, d);
            if p >= 0 {
                activated(AppState { focus: c.rows()[p].focus, ..c }, after, cmd)
            } else {
                after == c && cmd == UiCommand::Nothing
            }
        },
        Key::Up | Key::Char('k') => after == moved(c, FocusMove::Up) && cmd == UiCommand::Nothing,
        Key::Down | Key::Char('j') => after == moved(c, FocusMove::Down) && cmd == UiCommand::Nothing,
        Key::Char('x') => closed(c, after, cmd),
        Key::Char('r') => rename_started(c, after) && cmd == UiCommand::Nothing,
        Key::Enter => activated(c, after, cmd),
        _ => after == c && cmd == UiCommand::Nothing,
    }
}

/// The view's answer to a key while a `g` is pending: `g` focuses the top row;
/// any other key is handled as in normal mode.
pub open spec fn g_key(s: AppState, key: KeyInput, after: AppState, cmd: UiCommand) -> bool {
    let c = g_cleared(s);
    if key.key == Key::Char('g') {
        after == row_focused(c, 0) && cmd == UiCommand::Nothing
    } else {
        normal_key(c, key, after, cmd)
    }
}

/// The view's answer to a key while jumping: a label focuses its row and
/// activates it; any key ends the jump.
pub open spec fn jump_key(s: AppState, key: KeyInput, after: AppState, cmd: UiCommand) -> bool {
    match key.key {
        Key::Char(label) => {
            let p = label_row(s, label);
            if p >= 0 {
                activated(jump_cancelled(AppState { focus: s.rows()[p].focus, ..s }), after, cmd)
            } else {
                after == jump_cancelled(s) && cmd == UiCommand::Nothing
            }
        },
        _ => after == jump_cancelled(s) && cmd == UiCommand::Nothing,
    }
}

/// The view's answer to a key in help mode.
pub open spec fn help_key(s: AppState, key: KeyInput, after: AppState, cmd: UiCommand) -> bool {
    match key.key {
        Key::Esc | Key::Char('?') => after == AppState { mode: Mode::Normal, ..s } && cmd == UiCommand::Nothing,
        Key::Char('q') => after == s && cmd == UiCommand::Quit,
        Key::Char('c') if key.ctrl => after == s && cmd == UiCommand::Quit,
        _ => after == s && cmd == UiCommand::Nothing,
    }
}

/// The view's answer to a key while editing a name.
pub open spec fn edit_key(s: AppState, key: KeyInput, after: AppState, cmd: UiCommand) -> bool {
    match key.key {
        Key::Esc => after == AppState { mode: Mode::Normal, ..s } && cmd == UiCommand::Nothing,
        Key::Enter => submitted(s, after, cmd),
        Key::Backspace => edited(s, EditAction::Backspace, after) && cmd == UiCommand::Nothing,
        Key::Delete => edited(s, EditAction::Delete, after) && cmd == UiCommand::Nothing,
        Key::Left => edited(s, EditAction::MoveLeft, after) && cmd == UiCommand::Nothing,
        Key::Right => edited(s, EditAction::MoveRight, after) && cmd == UiCommand::Nothing,
        Key::Home => edited(s, EditAction::MoveHome, after) && cmd == UiCommand::Nothing,
        Key::End => edited(s, EditAction::MoveEnd, after) && cmd == UiCommand::Nothing,
        Key::Char('u') if key.ctrl => edited(s, EditAction::Clear, after) && cmd == UiCommand::Nothing,
        Key::Char(ch) if !key.ctrl && !key.alt => edited(s, EditAction::Insert(ch), after) && cmd == UiCommand::Nothing,
        _ => after == s && cmd == UiCommand::Nothing,
    }
}

/// The view's answer to a key: released keys are ignored; help, editing,
/// jumping and a pending `g` each take the key before normal mode.
pub open spec fn key_handled(s: AppState, key: KeyInput, after: AppState, cmd: UiCommand) -> bool {
    if !key.pressed {
        after == s && cmd == UiCommand::Nothing
    } else {
        match s.mode {
            Mode::Help => help_key(s, key, after, cmd),
            Mode::Normal => if s.navigation.jumping {
                jump_key(s, key, after, cmd)
            } else if s.navigation.pending_g {
                g_key(s, key, after, cmd)
            } else {
                normal_key(s, key, after, cmd)
            },
            _ => edit_key(s, key, after, cmd),
        }
    }
}

/// The view's answer to the mouse, in normal mode only: a click on a row
/// focuses and activates it, the wheel moves the focus.
pub open spec fn mouse_handled(s: AppState, m: MouseInput, after: AppState, cmd: UiCommand) -> bool {
    if s.mode != Mode::Normal {
        after == s && cmd == UiCommand::Nothing
    } else {
        let c = g_cleared(s);
        if c.navigation.jumping {
            after == c && cmd == UiCommand::Nothing
        } else {
            match m {
                MouseInput::LeftDown { row } => match tree_index_spec(row) {
                    Some(i) if i < c.rows().len() => activated(AppState { focus: c.rows()[i as int].focus, ..c }, after, cmd),
                    _ => after == c && cmd == UiCommand::Nothing,
                },
                MouseInput::ScrollUp => after == moved(c, FocusMove::Up) && cmd == UiCommand::Nothing,
                MouseInput::ScrollDown => after == moved(c, FocusMove::Down) && cmd == UiCommand::Nothing,
                MouseInput::Other => after == c && cmd == UiCommand::Nothing,
            }
        }
    }
}

/// The view after the daemon answered a request sent with `then`: a failure
/// is shown and ends any editing (a failed switch to a target just created
/// still focuses that target); a success clears the shown failure and goes on
/// as `then` says.
pub open spec fn action_followed(
    before: AppState,
    result: ActionResultKind,
    then: FollowUp,
    auto_quit: bool,
    after: AppState,
    r: Result<UiCommand, String>,
) -> bool {
    match result {
        ActionResultKind::Error { message } => after == AppState {
            last_error: Some(ActionError { message }),
            mode: Mode::Normal,
            focus: match then {
                FollowUp::FocusAfterSwitch(f) => f,
                _ => before.focus,
            },
            ..before
        } && r == Ok::<UiCommand, String>(UiCommand::Nothing),
        ActionResultKind::Completed { outcome } => {
            let s1 = AppState { last_error: None, ..before };
            match then {
                FollowUp::Nothing => after == s1 && r == Ok::<UiCommand, String>(UiCommand::Nothing),
                FollowUp::QuitIfAutoQuit => after == s1 && r == Ok::<UiCommand, String>(
                    if auto_quit { UiCommand::Quit } else { UiCommand::Nothing },
                ),
                FollowUp::FocusSession(id) => after == AppState { focus: Focus::Session(id), ..s1 } && r == Ok::<
                    UiCommand,
                    String,
                >(UiCommand::Nothing),
                FollowUp::FocusWindow(sid, wid) => after == AppState {
                    focus: Focus::Window { session_id: sid, window_id: wid },
                    ..s1
                } && r == Ok::<UiCommand, String>(UiCommand::Nothing),
                FollowUp::SwitchToCreatedSession(c) => after == s1 && match outcome {
                    Some(ActionOutcome::CreatedSession { session_id }) => r == Ok::<UiCommand, String>(
                        UiCommand::Send {
                            target_client: Some(c.0),
                            action: Action::SwitchSession { session_id },
                            then: FollowUp::FocusAfterSwitch(Focus::Session(session_id)),
                        },
                    ),
                    _ => r matches Err(m) && m@ == "create-session action completed without a created session id"@,
                },
                FollowUp::SwitchToCreatedWindow(c, sid) => after == s1 && match outcome {
                    Some(ActionOutcome::CreatedWindow { session_id, window_id }) if session_id@ == sid@ => r == Ok::<
                        UiCommand,
                        String,
                    >(
                        UiCommand::Send {
                            target_client: Some(c.0),
                            action: Action::SwitchWindow { session_id: sid, window_id },
                            then: FollowUp::FocusAfterSwitch(Focus::Window { session_id: sid, window_id }),
                        },
                    ),
                    _ => r matches Err(m) && m@ == "create-window action completed without a created window id for session `"@
                        + sid@ + "`"@,
                },
                FollowUp::FocusAfterSwitch(f) => if auto_quit {
                    after == s1 && r == Ok::<UiCommand, String>(UiCommand::Quit)
                } else {
                    after == AppState { focus: f, ..s1 } && r == Ok::<UiCommand, String>(UiCommand::Nothing)
                },
            }
        },
    }
}

/// Showing the published state `projection` took the view from `before` to
/// `after`: the tree stopped loading, the focus was reconciled with the new
/// rows, and the first state (while loading) focused the target's window.
pub open spec fn state_update_applied(before: AppState, projection: ProjectionState, after: AppState) -> bool {
    exists|tmux: TmuxState, mid: AppState, r: FocusReconcile|
        #![trigger crate::projection::tmux_of_projection(projection, tmux), reconciled(unloaded(before), tmux, mid, r)]
        {
            &&& crate::projection::tmux_of_projection(projection, tmux)
            &&& reconciled(unloaded(before), tmux, mid, r)
            &&& if before.tree_loading || (before.target_client.is_some() && before.tmux.sessions@.len() == 0) {
                visible_targeted(mid, after, visible_target_changes(mid))
            } else {
                after == mid
            }
        }
}

/// `s` no longer loading.
pub open spec fn unloaded(s: AppState) -> AppState {
    AppState { tree_loading: false, ..s }
}

/// Whether focusing the visible target of `s` moves its focus.
pub open spec fn visible_target_changes(s: AppState) -> bool {
    match crate::model::visible_focus(s.tmux, target_of(s.target_client)) {
        Some(v) => v != s.focus@,
        None => false,
    }
}

pub open spec fn opt_text(o: Option<String>) -> Option<Seq<char>> {
    match o {
        Some(s) => Some(s@),
        None => None,
    }
}

proof fn lemma_first_label_unique(label: char, n: int, p: int, q: int)
    requires
        first_label_at(label, n, p),
        first_label_at(label, n, q),
    ensures
        p == q,
{
    if p < q {
        assert(crate::model::jump_labels()[p] != label);
    } else if q < p {
        assert(crate::model::jump_labels()[q] != label);
    }
}

proof fn lemma_alert_rows_prefix(rows: Seq<TreeRow>, n: nat, m: nat)
    requires
        n <= m <= rows.len(),
    ensures
        alert_rows(rows, n).len() <= alert_rows(rows, m).len(),
        forall|k: int| 0 <= k < alert_rows(rows, n).len() ==> #[trigger] alert_rows(rows, m)[k] == alert_rows(rows, n)[k],
        forall|k: int| 0 <= k < alert_rows(rows, m).len() ==> 0 <= #[trigger] alert_rows(rows, m)[k] < m,
    decreases m - n,
{
    if n < m {
        lemma_alert_rows_prefix(rows, n, (m - 1) as nat);
    } else {
        lemma_alert_rows_bounded(rows, m);
    }
}

/// The digit drawn beside an alert badge is the digit that jumps to that row:
/// for the `k`-th alerted row (from 0, `k` below ten), digit `k` of `1`-`9`,
/// `0` picks that row.
pub proof fn law_alert_digit_jumps_to_its_row(s: AppState, i: int)
    requires
        0 <= i < s.rows().len(),
        row_alerted(s.rows()[i]),
        alert_rows(s.rows(), i as nat).len() < 10,
    ensures
        alert_row(s, alert_digits()[alert_rows(s.rows(), i as nat).len() as int]) == i,
{
    let rows = s.rows();
    let k = alert_rows(rows, i as nat).len() as int;
    assert(alert_rows(rows, (i + 1) as nat) == alert_rows(rows, i as nat).push(i));
    lemma_alert_rows_prefix(rows, (i + 1) as nat, rows.len());
    assert(alert_rows(rows, rows.len())[k] == i);
    let d = alert_digits()[k];
    assert(alert_label_index(d) == k) by {
        if k == 0 { assert(d == '1'); }
        else if k == 1 { assert(d == '2'); }
        else if k == 2 { assert(d == '3'); }
        else if k == 3 { assert(d == '4'); }
        else if k == 4 { assert(d == '5'); }
        else if k == 5 { assert(d == '6'); }
        else if k == 6 { assert(d == '7'); }
        else if k == 7 { assert(d == '8'); }
        else if k == 8 { assert(d == '9'); }
        else { assert(d == '0'); }
    }
}

proof fn lemma_alert_rows_bounded(rows: Seq<TreeRow>, m: nat)
    ensures
        forall|k: int| 0 <= k < alert_rows(rows, m).len() ==> 0 <= #[trigger] alert_rows(rows, m)[k] < m,
    decreases m,
{
    if m > 0 {
        lemma_alert_rows_bounded(rows, (m - 1) as nat);
        let prev = alert_rows(rows, (m - 1) as nat);
        if row_alerted(rows[m - 1]) {
            assert forall|k: int| 0 <= k < alert_rows(rows, m).len() implies 0 <= #[trigger] alert_rows(rows, m)[k] < m by {
                if k < prev.len() {
                    assert(alert_rows(rows, m)[k] == prev[k]);
                }
            }
        }
    }
}

fn alert_label_index_exec(d: char) -> (k: Option<usize>)
    ensures
        match k {
            Some(i) => i as int == alert_label_index(d),
            None => alert_label_index(d) == -1,
        },
{
    match d {
        '1' => Some(0),
        '2' => Some(1),
        '3' => Some(2),
        '4' => Some(3),
        '5' => Some(4),
        '6' => Some(5),
        '7' => Some(6),
        '8' => Some(7),
        '9' => Some(8),
        '0' => Some(9),
        _ => None,
    }
}

pub(crate) fn is_alerted_row(r: &TreeRow) -> (b: bool)
    ensures
        b == row_alerted(*r),
{
    match &r.kind {
        TreeRowKind::Window { alert, .. } => *alert == WindowAlert::Bell,
        _ => false,
    }
}

impl AppState {
    /// Starts naming a new session: the new-session row focused, an empty field.
    pub fn begin_create_session_naming(&mut self)
        ensures
            session_naming_begun(*old(self), *final(self)),
    {
        self.focus = Focus::CreateSession;
        self.mode = Mode::CreateSessionName { input: InputBuffer::new() };
    }

    /// Starts naming a new window of session `session_id`.
    pub fn begin_create_window_naming(&mut self, session_id: String)
        ensures
            window_naming_begun(*old(self), *final(self), session_id@),
    {
        self.focus = Focus::CreateWindow(session_id.clone());
        self.mode = Mode::CreateWindowName { session_id, input: InputBuffer::new() };
    }

    /// The session that a new window goes to from the focused row.
    pub fn focused_session_id_for_new_window(&self) -> (r: Option<String>)
        ensures
            opt_text(r) == new_window_session(*self),
    {
        match &self.focus {
            Focus::Session(sid) => Some(sid.clone()),
            Focus::CreateWindow(sid) => Some(sid.clone()),
            Focus::Window { session_id, .. } => Some(session_id.clone()),
            Focus::CreateSession => {
                let target: Option<&ClientName> = match &self.target_client {
                    Some(n) => Some(n),
                    None => None,
                };
                match self.tmux.visible_session(target) {
                    Some(session) => Some(session.id.clone()),
                    None => None,
                }
            },
        }
    }

    /// Starts naming a new window in the session of the focused row.
    pub fn begin_create_window_from_focus(&mut self)
        ensures
            match new_window_session(*old(self)) {
                None => *final(self) == *old(self),
                Some(sid) => window_naming_begun(*old(self), *final(self), sid),
            },
    {
        match self.focused_session_id_for_new_window() {
            Some(session_id) => self.begin_create_window_naming(session_id),
            None => {},
        }
    }

    /// Activates the focused row.
    pub fn activate_focused_target(&mut self) -> (cmd: UiCommand)
        ensures
            activated(*old(self), *final(self), cmd),
    {
        let focus = self.focus.clone();
        match focus {
            Focus::Session(sid) => match &self.target_client {
                None => UiCommand::Nothing,
                Some(c) => UiCommand::Send {
                    target_client: Some(c.0.clone()),
                    action: Action::SwitchSession { session_id: sid },
                    then: FollowUp::QuitIfAutoQuit,
                },
            },
            Focus::Window { session_id, window_id } => match &self.target_client {
                None => UiCommand::Nothing,
                Some(c) => UiCommand::Send {
                    target_client: Some(c.0.clone()),
                    action: Action::SwitchWindow { session_id, window_id },
                    then: FollowUp::QuitIfAutoQuit,
                },
            },
            Focus::CreateSession => {
                self.begin_create_session_naming();
                UiCommand::Nothing
            },
            Focus::CreateWindow(sid) => {
                self.begin_create_window_naming(sid);
                UiCommand::Nothing
            },
        }
    }

    /// The request that closes the focused session or window.
    pub fn close_focused_target(&self) -> (cmd: UiCommand)
        ensures
            closed(*self, *self, cmd),
    {
        match &self.focus {
            Focus::Session(sid) => UiCommand::Send {
                target_client: match &self.target_client {
                    Some(c) => Some(c.0.clone()),
                    None => None,
                },
                action: Action::CloseSession { session_id: sid.clone() },
                then: FollowUp::Nothing,
            },
            Focus::Window { session_id, window_id } => UiCommand::Send {
                target_client: None,
                action: Action::CloseWindow { session_id: session_id.clone(), window_id: window_id.clone() },
                then: FollowUp::Nothing,
            },
            _ => UiCommand::Nothing,
        }
    }

    /// Starts renaming the focused session or window, with its current name.
    pub fn start_rename(&mut self)
        ensures
            rename_started(*old(self), *final(self)),
    {
        let focus = self.focus.clone();
        match focus {
            Focus::Session(id) => {
                let p = match find_snapshot_session(&self.tmux.sessions, id.as_str()) {
                    Some(p) => p,
                    None => return,
                };
                let name = self.tmux.sessions[p].name.clone();
                let input = InputBuffer::from_text(name.as_str());
                self.mode = Mode::RenameSession { id, original_name: name, input };
                assert(first_session_at(old(self).tmux.sessions@, old(self).focus->Session_0@, p as int));
            },
            Focus::Window { session_id, window_id } => {
                let p = match find_snapshot_session(&self.tmux.sessions, session_id.as_str()) {
                    Some(p) => p,
                    None => {
                        assert forall|p: int, q: int| !(first_session_at(self.tmux.sessions@, session_id@, p) && first_window_at(self.tmux.sessions@[p].windows@, window_id@, q)) by {}
                        return;
                    },
                };
                let q = match find_snapshot_window(&self.tmux.sessions[p].windows, window_id.as_str()) {
                    Some(q) => q,
                    None => {
                        assert forall|p2: int, q: int| !(first_session_at(self.tmux.sessions@, session_id@, p2) && first_window_at(self.tmux.sessions@[p2].windows@, window_id@, q)) by {
                            if first_session_at(self.tmux.sessions@, session_id@, p2) {
                                assert(p2 == p);
                            }
                        }
                        return;
                    },
                };
                let name = self.tmux.sessions[p].windows[q].name.clone();
                let input = InputBuffer::from_text(name.as_str());
                self.mode = Mode::RenameWindow { session_id, id: window_id, original_name: name, input };
                assert(first_window_at(old(self).tmux.sessions@[p as int].windows@, window_id@, q as int));
            },
            _ => {},
        }
    }

    /// Leaves the edit mode with the request it asks for.
    pub fn submit_edit_mode(&mut self) -> (cmd: UiCommand)
        ensures
            submitted(*old(self), *final(self), cmd),
    {
        let mut mode = Mode::Normal;
        std::mem::swap(&mut mode, &mut self.mode);
        match mode {
            Mode::RenameSession { id, input, .. } => UiCommand::Send {
                target_client: None,
                action: Action::RenameSession { session_id: id.clone(), name: to_owned_string(input.as_str()) },
                then: FollowUp::FocusSession(id),
            },
            Mode::RenameWindow { session_id, id, input, .. } => UiCommand::Send {
                target_client: None,
                action: Action::RenameWindow { window_id: id.clone(), name: to_owned_string(input.as_str()) },
                then: FollowUp::FocusWindow(session_id, id),
            },
            Mode::CreateSessionName { input } => match &self.target_client {
                None => UiCommand::Nothing,
                Some(c) => {
                    let text = input.as_str();
                    let name = if text.unicode_len() == 0 { None } else { Some(to_owned_string(text)) };
                    UiCommand::Send {
                        target_client: None,
                        action: Action::CreateSession { name },
                        then: FollowUp::SwitchToCreatedSession(ClientName(c.0.clone())),
                    }
                },
            },
            Mode::CreateWindowName { session_id, input } => match &self.target_client {
                None => UiCommand::Nothing,
                Some(c) => {
                    let text = input.as_str();
                    let name = if text.unicode_len() == 0 { None } else { Some(to_owned_string(text)) };
                    UiCommand::Send {
                        target_client: None,
                        action: Action::CreateWindow { session_id: session_id.clone(), name },
                        then: FollowUp::SwitchToCreatedWindow(ClientName(c.0.clone()), session_id),
                    }
                },
            },
            Mode::Normal => UiCommand::Nothing,
            Mode::Help => UiCommand::Nothing,
        }
    }

    /// Focuses the alerted row that digit `label` names (`1`-`9`, `0` the tenth).
    pub fn focus_alert_jump_label(&mut self, label: char) -> (found: bool)
        ensures
            found == (alert_row(*old(self), label) >= 0),
            *final(self) == (if found {
                AppState { focus: old(self).rows()[alert_row(*old(self), label)].focus, ..*old(self) }
            } else {
                *old(self)
            }),
    {
        let k = match alert_label_index_exec(label) {
            Some(k) => k,
            None => return false,
        };
        let rows = self.tree_rows();
        let ghost n = rows@.len();
        let mut seen: usize = 0;
        let mut i: usize = 0;
        while i < rows.len()
            invariant
                i <= rows@.len(),
                rows@ == self.rows(),
                *self == *old(self),
                k as int == alert_label_index(label),
                seen as int == alert_rows(rows@, i as nat).len(),
                seen <= i,
                seen <= k,
            decreases rows@.len() - i,
        {
            if is_alerted_row(&rows[i]) {
                if seen == k {
                    proof {
                        assert(alert_rows(rows@, (i + 1) as nat)[k as int] == i);
                        lemma_alert_rows_prefix(rows@, (i + 1) as nat, rows@.len());
                    }
                    self.focus = rows[i].focus.clone();
                    return true;
                }
                seen = seen + 1;
            }
            i = i + 1;
        }
        false
    }

    /// The answer to a key in normal mode.
    fn handle_normal_key(&mut self, key: KeyInput) -> (cmd: UiCommand)
        ensures
            normal_key(*old(self), key, *final(self), cmd),
    {
        match key.key {
            Key::Char('q') => UiCommand::Quit,
            Key::Char('c') if key.ctrl => UiCommand::Quit,
            Key::Char('?') => {
                self.mode = Mode::Help;
                UiCommand::Nothing
            },
            Key::Char('g') => {
                self.start_g_prefix();
                UiCommand::Nothing
            },
            Key::Char('G') => {
                self.clear_navigation();
                self.focus_last_row();
                UiCommand::Nothing
            },
            Key::Char('n') => {
                self.clear_navigation();
                self.begin_create_session_naming();
                UiCommand::Nothing
            },
            Key::Char('s') => {
                self.start_jump();
                UiCommand::Nothing
            },
            Key::Char('c') => {
                self.clear_navigation();
                self.begin_create_window_from_focus();
                UiCommand::Nothing
            },
            Key::Char(d) if alert_label_index_exec(d).is_some() => {
                self.clear_navigation();
                if self.focus_alert_jump_label(d) {
                    self.activate_focused_target()
                } else {
                    UiCommand::Nothing
                }
            },
            Key::Up | Key::Char('k') => {
                self.clear_navigation();
                self.move_focus(FocusMove::Up);
                UiCommand::Nothing
            },
            Key::Down | Key::Char('j') => {
                self.clear_navigation();
                self.move_focus(FocusMove::Down);
                UiCommand::Nothing
            },
            Key::Char('x') => {
                self.clear_navigation();
                self.close_focused_target()
            },
            Key::Char('r') => {
                self.clear_navigation();
                self.start_rename();
                UiCommand::Nothing
            },
            Key::Enter => {
                self.clear_navigation();
                self.activate_focused_target()
            },
            _ => {
                self.clear_navigation();
                UiCommand::Nothing
            },
        }
    }

    /// The answer to a key while a `g` is pending.
    fn handle_pending_g_key(&mut self, key: KeyInput) -> (cmd: UiCommand)
        ensures
            g_key(*old(self), key, *final(self), cmd),
    {
        self.clear_g_prefix();
        match key.key {
            Key::Char('g') => {
                self.focus_first_row();
                UiCommand::Nothing
            },
            _ => self.handle_normal_key(key),
        }
    }

    /// The answer to a key while jumping.
    fn handle_jump_key(&mut self, key: KeyInput) -> (cmd: UiCommand)
        requires
            old(self).navigation.jumping,
        ensures
            jump_key(*old(self), key, *final(self), cmd),
    {
        let selected = match key.key {
            Key::Esc => {
                self.cancel_jump();
                return UiCommand::Nothing;
            },
            Key::Char(label) => {
                let found = self.focus_jump_label(label);
                proof {
                    let n = jump_count(old(self).rows().len() as int);
                    if found {
                        let p = choose|p: int| first_label_at(label, n, p) && self.focus == old(self).rows()[p].focus;
                        lemma_first_label_unique(label, n, p, label_row(*old(self), label));
                    }
                }
                found
            },
            _ => false,
        };
        self.cancel_jump();
        if selected {
            self.activate_focused_target()
        } else {
            UiCommand::Nothing
        }
    }

    /// The answer to a key in help mode.
    fn handle_help_key(&mut self, key: KeyInput) -> (cmd: UiCommand)
        ensures
            help_key(*old(self), key, *final(self), cmd),
    {
        let (leave, cmd) = match key.key {
            Key::Esc | Key::Char('?') => (true, UiCommand::Nothing),
            Key::Char('q') => (false, UiCommand::Quit),
            Key::Char('c') if key.ctrl => (false, UiCommand::Quit),
            _ => (false, UiCommand::Nothing),
        };
        if leave {
            self.mode = Mode::Normal;
        }
        cmd
    }

    /// The answer to a key while editing a name.
    fn handle_edit_key(&mut self, key: KeyInput) -> (cmd: UiCommand)
        ensures
            edit_key(*old(self), key, *final(self), cmd),
    {
        if key.key == Key::Esc {
            self.mode = Mode::Normal;
            return UiCommand::Nothing;
        }
        if key.key == Key::Enter {
            return self.submit_edit_mode();
        }
        let action = match key.key {
            Key::Backspace => Some(EditAction::Backspace),
            Key::Delete => Some(EditAction::Delete),
            Key::Left => Some(EditAction::MoveLeft),
            Key::Right => Some(EditAction::MoveRight),
            Key::Home => Some(EditAction::MoveHome),
            Key::End => Some(EditAction::MoveEnd),
            Key::Char('u') if key.ctrl => Some(EditAction::Clear),
            Key::Char(ch) if !key.ctrl && !key.alt => Some(EditAction::Insert(ch)),
            _ => None,
        };
        if let Some(a) = action {
            self.apply_edit_action(a);
        }
        UiCommand::Nothing
    }

    /// The answer to a key: released keys are ignored; help, editing, jumping
    /// and a pending `g` each take the key before normal mode.
    pub fn handle_key(&mut self, key: KeyInput) -> (cmd: UiCommand)
        ensures
            key_handled(*old(self), key, *final(self), cmd),
    {
        if !key.pressed {
            return UiCommand::Nothing;
        }
        let (help, normal) = match &self.mode {
            Mode::Help => (true, false),
            Mode::Normal => (false, true),
            _ => (false, false),
        };
        if help {
            return self.handle_help_key(key);
        }
        if !normal {
            return self.handle_edit_key(key);
        }
        if self.navigation.jumping {
            return self.handle_jump_key(key);
        }
        if self.navigation.pending_g {
            return self.handle_pending_g_key(key);
        }
        self.handle_normal_key(key)
    }

    /// Focuses the row shown on terminal row `row`; whether there is one.
    fn focus_row_at_terminal_row(&mut self, row: u16) -> (found: bool)
        ensures
            found == (tree_index_spec(row) matches Some(i) && i < old(self).rows().len()),
            *final(self) == (if found {
                AppState { focus: old(self).rows()[tree_index_spec(row)->0 as int].focus, ..*old(self) }
            } else {
                *old(self)
            }),
    {
        let index = match tree_index_for_terminal_row(row) {
            Some(i) => i,
            None => return false,
        };
        let rows = self.tree_rows();
        if index >= rows.len() {
            return false;
        }
        self.focus = rows[index].focus.clone();
        true
    }

    /// The answer to the mouse, in normal mode only.
    pub fn handle_mouse(&mut self, mouse: MouseInput) -> (cmd: UiCommand)
        ensures
            mouse_handled(*old(self), mouse, *final(self), cmd),
    {
        let normal = match &self.mode {
            Mode::Normal => true,
            _ => false,
        };
        if !normal {
            return UiCommand::Nothing;
        }
        self.clear_g_prefix();
        if self.navigation.jumping {
            return UiCommand::Nothing;
        }
        match mouse {
            MouseInput::LeftDown { row } => {
                if self.focus_row_at_terminal_row(row) {
                    self.activate_focused_target()
                } else {
                    UiCommand::Nothing
                }
            },
            MouseInput::ScrollUp => {
                self.move_focus(FocusMove::Up);
                UiCommand::Nothing
            },
            MouseInput::ScrollDown => {
                self.move_focus(FocusMove::Down);
                UiCommand::Nothing
            },
            MouseInput::Other => UiCommand::Nothing,
        }
    }

    /// Waits for the first state of the target client: the tree shows that it
    /// is loading until a state arrives.
    pub fn prepare_first_paint(&mut self, target_client: ClientName)
        ensures
            *final(self) == (AppState { tree_loading: true, target_client: Some(target_client), ..*old(self) }),
    {
        self.tree_loading = true;
        self.target_client = Some(target_client);
    }

    /// Shows a state that the daemon published: the tree stops loading, the
    /// focus is reconciled with the new rows, and the first state focuses the
    /// target client's window.
    pub fn apply_state_update(&mut self, projection: ProjectionState)
        ensures
            state_update_applied(*old(self), projection, *final(self)),
    {
        let should_focus_visible_target = self.is_tree_loading();
        self.tree_loading = false;
        let ghost before = *old(self);
        let tmux = projection.into_tmux_state();
        let ghost t = tmux;
        let r = self.reconcile_tmux(tmux);
        let ghost mid = *self;
        if should_focus_visible_target {
            self.focus_visible_target();
        }
        assert(crate::projection::tmux_of_projection(projection, t));
        assert(reconciled(unloaded(before), t, mid, r));
    }

    /// A result that arrives outside a round trip only shows or clears the
    /// failure note.
    pub fn note_action_result(&mut self, result: &ActionResultKind)
        ensures
            *final(self) == (AppState {
                last_error: match *result {
                    ActionResultKind::Completed { .. } => None,
                    ActionResultKind::Error { message } => Some(ActionError { message }),
                },
                ..*old(self)
            }),
    {
        self.last_error = match result {
            ActionResultKind::Completed { .. } => None,
            ActionResultKind::Error { message } => Some(ActionError { message: message.clone() }),
        };
    }

    /// Takes the daemon's answer to a request sent with `then`.
    pub fn after_action(&mut self, result: ActionResultKind, then: FollowUp, auto_quit: bool) -> (r: Result<
        UiCommand,
        String,
    >)
        ensures
            action_followed(*old(self), result, then, auto_quit, *final(self), r),
    {
        let outcome = match result {
            ActionResultKind::Error { message } => {
                self.last_error = Some(ActionError { message });
                self.mode = Mode::Normal;
                if let FollowUp::FocusAfterSwitch(f) = then {
                    self.focus = f;
                }
                return Ok(UiCommand::Nothing);
            },
            ActionResultKind::Completed { outcome } => outcome,
        };
        self.last_error = None;
        match then {
            FollowUp::Nothing => Ok(UiCommand::Nothing),
            FollowUp::QuitIfAutoQuit => Ok(if auto_quit { UiCommand::Quit } else { UiCommand::Nothing }),
            FollowUp::FocusSession(id) => {
                self.focus = Focus::Session(id);
                Ok(UiCommand::Nothing)
            },
            FollowUp::FocusWindow(sid, wid) => {
                self.focus = Focus::Window { session_id: sid, window_id: wid };
                Ok(UiCommand::Nothing)
            },
            FollowUp::SwitchToCreatedSession(c) => match outcome {
                Some(ActionOutcome::CreatedSession { session_id }) => Ok(
                    UiCommand::Send {
                        target_client: Some(c.0),
                        action: Action::SwitchSession { session_id: session_id.clone() },
                        then: FollowUp::FocusAfterSwitch(Focus::Session(session_id)),
                    },
                ),
                _ => Err(to_owned_string("create-session action completed without a created session id")),
            },
            FollowUp::SwitchToCreatedWindow(c, sid) => {
                let created = match &outcome {
                    Some(ActionOutcome::CreatedWindow { session_id, window_id }) => {
                        if str_eq(session_id.as_str(), sid.as_str()) {
                            Some(window_id.clone())
                        } else {
                            None
                        }
                    },
                    _ => None,
                };
                match created {
                    Some(window_id) => Ok(
                        UiCommand::Send {
                            target_client: Some(c.0),
                            action: Action::SwitchWindow { session_id: sid.clone(), window_id: window_id.clone() },
                            then: FollowUp::FocusAfterSwitch(Focus::Window { session_id: sid, window_id }),
                        },
                    ),
                    None => {
                        let mut message = to_owned_string(
                            "create-window action completed without a created window id for session `",
                        );
                        push_str(&mut message, sid.as_str());
                        push_str(&mut message, "`");
                        Err(message)
                    },
                }
            },
            FollowUp::FocusAfterSwitch(f) => {
                if auto_quit {
                    Ok(UiCommand::Quit)
                } else {
                    self.focus = f;
                    Ok(UiCommand::Nothing)
                }
            },
        }
    }
}

} // verus!
