use tmux_sidecar::controls::{FollowUp, Key, KeyInput, MouseInput, UiCommand};
use tmux_sidecar::domain::rows::Focus;
use tmux_sidecar::domain::state::{ClientName, WindowAlert, WinlinkKey};
use tmux_sidecar::ipc::{Action, ActionOutcome, ActionResultKind};
use tmux_sidecar::model::{ActionError, AppState, Client, Mode, Session, TmuxState, Window};
use tmux_sidecar::projection::{ProjectionClient, ProjectionSession, ProjectionState, ProjectionWindow};

fn projection_state(session_names: &[(&str, &str, &[(&str, &str, bool)])]) -> ProjectionState {
    ProjectionState {
        tmux_socket_path: "/tmux.sock".into(),
        sessions: session_names
            .iter()
            .map(|(session_id, session_name, windows)| ProjectionSession {
                id: (*session_id).to_string(),
                name: (*session_name).to_string(),
                attached_count: 1,
                active_window_id: windows.iter().find(|(_, _, active)| *active).map(|(window_id, _, _)| (*window_id).to_string()),
                windows: windows
                    .iter()
                    .enumerate()
                    .map(|(index, (window_id, window_name, active))| ProjectionWindow {
                        id: (*window_id).to_string(),
                        index: index as u32,
                        name: (*window_name).to_string(),
                        active: *active,
                        activity: 0,
                        activity_flag: false,
                        bell_flag: false,
                        silence_flag: false,
                    })
                    .collect(),
            })
            .collect(),
        clients: vec![ProjectionClient {
            name: String::from("client-1"),
            session_id: String::from("$1"),
            current_window_id: Some(String::from("@1")),
            activity: 1,
            tty: String::from("/dev/pts/1"),
        }],
    }
}

#[test]
fn initial_server_state_focuses_visible_target() {
    let mut state = AppState::default();
    state.target_client = Some(ClientName(String::from("client-1")));
    state.tree_loading = true;

    state.apply_state_update(projection_state(&[("$1", "main", &[("@1", "win", true)])]));

    assert_eq!(state.focus, Focus::window("$1", "@1"));
    assert!(!state.is_tree_loading());
}

#[test]
fn prepare_first_paint_state_uses_loading_state_until_subscription() {
    let mut state = AppState::default();
    let target_client = ClientName(String::from("client-1"));

    state.prepare_first_paint(target_client.clone());

    assert_eq!(state.target_client, Some(target_client));
    assert!(state.is_tree_loading());
    assert!(state.tmux.sessions.is_empty());
}

#[test]
fn pushed_state_updates_reconcile_removed_focus() {
    let mut state = AppState::default();
    state.target_client = Some(ClientName(String::from("client-1")));
    state.apply_state_update(projection_state(&[
        ("$1", "main", &[("@1", "win-1", true)]),
        ("$2", "other", &[("@2", "win-2", false)]),
    ]));
    state.focus = Focus::Session(String::from("$2"));

    state.apply_state_update(projection_state(&[("$1", "main", &[("@1", "win-1", true)])]));

    assert_ne!(state.focus, Focus::Session(String::from("$2")));
    assert!(state.tree_rows().iter().any(|row| row.focus == state.focus));
}

#[test]
fn pushed_state_updates_visible_target_without_manual_sync() {
    let mut state = AppState::default();
    state.target_client = Some(ClientName(String::from("client-1")));
    state.apply_state_update(projection_state(&[
        ("$1", "main", &[("@1", "win-1", true)]),
        ("$2", "other", &[("@2", "win-2", true)]),
    ]));

    let mut switched_target =
        projection_state(&[("$1", "main", &[("@1", "win-1", true)]), ("$2", "other", &[("@2", "win-2", true)])]);
    switched_target.clients[0].session_id = String::from("$2");
    switched_target.clients[0].current_window_id = Some(String::from("@2"));
    state.apply_state_update(switched_target);

    let rows = state.tree_rows();
    let initial_window = rows.iter().find(|row| row.focus == Focus::window("$1", "@1")).expect("expected initial target row");
    let switched_window = rows.iter().find(|row| row.focus == Focus::window("$2", "@2")).expect("expected switched target row");

    assert!(!initial_window.active());
    assert!(switched_window.active());
    assert_eq!(state.tmux.visible_window_key(state.target_client.as_ref()), Some(WinlinkKey::new("$2", "@2")));
}

#[test]
fn action_result_errors_surface_in_ui_state() {
    let mut state = AppState::default();

    let next = state.after_action(ActionResultKind::Error { message: String::from("boom") }, FollowUp::Nothing, false);

    assert_eq!(next, Ok(UiCommand::Nothing));
    assert_eq!(state.last_error.as_ref().map(|error| error.message.as_str()), Some("boom"));
}

#[test]
fn successful_action_results_clear_previous_errors() {
    let mut state = AppState::default();
    state.last_error = Some(ActionError { message: String::from("stale") });

    let next = state.after_action(ActionResultKind::Completed { outcome: None }, FollowUp::Nothing, false);

    assert_eq!(next, Ok(UiCommand::Nothing));
    assert!(state.last_error.is_none());
}

fn key(key: Key) -> KeyInput {
    KeyInput { key, ctrl: false, alt: false, pressed: true }
}

fn ch(c: char) -> KeyInput {
    key(Key::Char(c))
}

fn window(id: &str, index: u32, name: &str, active: bool, alert: WindowAlert) -> Window {
    Window {
        id: id.to_string(),
        index,
        name: name.to_string(),
        active,
        flags: String::new(),
        alert,
        activity: 0,
        activity_flag: false,
        silence_flag: false,
    }
}

fn sample_state() -> AppState {
    let tmux = TmuxState {
        sessions: vec![
            Session {
                id: String::from("$1"),
                name: String::from("work"),
                attached_count: 1,
                active_window_id: Some(String::from("@11")),
                windows: vec![window("@10", 0, "shell", false, WindowAlert::Clear), window("@11", 1, "editor", true, WindowAlert::Bell)],
            },
            Session {
                id: String::from("$2"),
                name: String::from("notes"),
                attached_count: 0,
                active_window_id: Some(String::from("@20")),
                windows: vec![window("@20", 0, "scratch", true, WindowAlert::Bell)],
            },
        ],
        clients: vec![Client {
            name: ClientName(String::from("client-1")),
            session_id: String::from("$1"),
            current_window_id: Some(String::from("@11")),
            activity: 10,
            tty: String::from("/dev/pts/1"),
        }],
    };
    let mut state = AppState::from_tmux(tmux);
    state.target_client = Some(ClientName(String::from("client-1")));
    state
}

#[test]
fn vim_keys_move_and_g_prefix_jumps_to_the_top() {
    let mut state = sample_state();
    state.focus = Focus::window("$1", "@10");

    assert_eq!(state.handle_key(ch('j')), UiCommand::Nothing);
    assert_eq!(state.focus, Focus::window("$1", "@11"));
    assert_eq!(state.handle_key(key(Key::Up)), UiCommand::Nothing);
    assert_eq!(state.focus, Focus::window("$1", "@10"));

    state.handle_key(ch('g'));
    assert!(state.navigation.pending_g);
    state.handle_key(ch('g'));
    assert!(!state.navigation.pending_g);
    assert_eq!(state.focus, Focus::Session(String::from("$1")));

    state.handle_key(ch('G'));
    assert_eq!(state.focus, Focus::CreateSession);
}

#[test]
fn released_keys_are_ignored() {
    let mut state = sample_state();
    let before = state.focus.clone();
    let released = KeyInput { key: Key::Char('j'), ctrl: false, alt: false, pressed: false };
    assert_eq!(state.handle_key(released), UiCommand::Nothing);
    assert_eq!(state.focus, before);
}

#[test]
fn q_and_ctrl_c_quit_and_help_toggles() {
    let mut state = sample_state();
    assert_eq!(state.handle_key(ch('q')), UiCommand::Quit);
    let ctrl_c = KeyInput { key: Key::Char('c'), ctrl: true, alt: false, pressed: true };
    assert_eq!(state.handle_key(ctrl_c), UiCommand::Quit);

    state.handle_key(ch('?'));
    assert_eq!(state.mode, Mode::Help);
    assert_eq!(state.handle_key(ch('j')), UiCommand::Nothing);
    assert_eq!(state.mode, Mode::Help);
    state.handle_key(key(Key::Esc));
    assert_eq!(state.mode, Mode::Normal);
}

#[test]
fn enter_on_a_window_switches_the_target_client() {
    let mut state = sample_state();
    state.focus = Focus::window("$2", "@20");

    let command = state.handle_key(key(Key::Enter));

    assert_eq!(
        command,
        UiCommand::Send {
            target_client: Some(String::from("client-1")),
            action: Action::SwitchWindow { session_id: String::from("$2"), window_id: String::from("@20") },
            then: FollowUp::QuitIfAutoQuit,
        }
    );
    assert_eq!(state.after_action(ActionResultKind::Completed { outcome: None }, FollowUp::QuitIfAutoQuit, true), Ok(UiCommand::Quit));
}

#[test]
fn digits_activate_the_numbered_alert_window() {
    let mut state = sample_state();

    let command = state.handle_key(ch('2'));

    assert_eq!(state.focus, Focus::window("$2", "@20"));
    assert_eq!(
        command,
        UiCommand::Send {
            target_client: Some(String::from("client-1")),
            action: Action::SwitchWindow { session_id: String::from("$2"), window_id: String::from("@20") },
            then: FollowUp::QuitIfAutoQuit,
        }
    );
    let before = state.focus.clone();
    assert_eq!(state.handle_key(ch('3')), UiCommand::Nothing);
    assert_eq!(state.focus, before);
}

#[test]
fn jump_labels_pick_a_row_and_activate_it() {
    let mut state = sample_state();
    state.handle_key(ch('s'));
    assert!(state.navigation.jumping);
    let label = state
        .jump_targets()
        .iter()
        .find(|target| target.focus == Focus::Session(String::from("$2")))
        .map(|target| target.label)
        .expect("label for the notes session");

    let command = state.handle_key(ch(label));

    assert!(!state.navigation.jumping);
    assert_eq!(state.focus, Focus::Session(String::from("$2")));
    assert_eq!(
        command,
        UiCommand::Send {
            target_client: Some(String::from("client-1")),
            action: Action::SwitchSession { session_id: String::from("$2") },
            then: FollowUp::QuitIfAutoQuit,
        }
    );

    state.handle_key(ch('s'));
    assert_eq!(state.handle_key(key(Key::Esc)), UiCommand::Nothing);
    assert!(!state.navigation.jumping);
}

#[test]
fn creating_a_session_names_it_then_switches_and_focuses_it() {
    let mut state = sample_state();
    state.handle_key(ch('n'));
    assert_eq!(state.focus, Focus::CreateSession);
    for c in "dev".chars() {
        state.handle_key(ch(c));
    }

    let command = state.handle_key(key(Key::Enter));

    assert_eq!(state.mode, Mode::Normal);
    assert_eq!(
        command,
        UiCommand::Send {
            target_client: None,
            action: Action::CreateSession { name: Some(String::from("dev")) },
            then: FollowUp::SwitchToCreatedSession(ClientName(String::from("client-1"))),
        }
    );
    let switch = state
        .after_action(
            ActionResultKind::Completed { outcome: Some(ActionOutcome::CreatedSession { session_id: String::from("$9") }) },
            FollowUp::SwitchToCreatedSession(ClientName(String::from("client-1"))),
            false,
        )
        .expect("the created session is switched to");
    assert_eq!(
        switch,
        UiCommand::Send {
            target_client: Some(String::from("client-1")),
            action: Action::SwitchSession { session_id: String::from("$9") },
            then: FollowUp::FocusAfterSwitch(Focus::Session(String::from("$9"))),
        }
    );
    assert_eq!(
        state.after_action(ActionResultKind::Completed { outcome: None }, FollowUp::FocusAfterSwitch(Focus::Session(String::from("$9"))), false),
        Ok(UiCommand::Nothing)
    );
    assert_eq!(state.focus, Focus::Session(String::from("$9")));
}

#[test]
fn a_create_answer_without_the_new_id_is_an_error() {
    let mut state = sample_state();
    let result = state.after_action(
        ActionResultKind::Completed { outcome: None },
        FollowUp::SwitchToCreatedWindow(ClientName(String::from("client-1")), String::from("$1")),
        false,
    );
    assert_eq!(result, Err(String::from("create-window action completed without a created window id for session `$1`")));
}

#[test]
fn creating_a_window_uses_the_focused_session_and_empty_names_are_omitted() {
    let mut state = sample_state();
    state.focus = Focus::window("$2", "@20");
    state.handle_key(ch('c'));
    assert_eq!(state.focus, Focus::CreateWindow(String::from("$2")));

    let command = state.handle_key(key(Key::Enter));

    assert_eq!(
        command,
        UiCommand::Send {
            target_client: None,
            action: Action::CreateWindow { session_id: String::from("$2"), name: None },
            then: FollowUp::SwitchToCreatedWindow(ClientName(String::from("client-1")), String::from("$2")),
        }
    );
}

#[test]
fn rename_starts_with_the_current_name_and_esc_cancels() {
    let mut state = sample_state();
    state.focus = Focus::window("$1", "@11");
    state.handle_key(ch('r'));
    assert_eq!(state.edit_buffer().map(|buffer| buffer.as_str()), Some("editor"));
    state.handle_key(key(Key::Backspace));
    state.handle_key(ch('X'));

    let command = state.handle_key(key(Key::Enter));

    assert_eq!(
        command,
        UiCommand::Send {
            target_client: None,
            action: Action::RenameWindow { window_id: String::from("@11"), name: String::from("editoX") },
            then: FollowUp::FocusWindow(String::from("$1"), String::from("@11")),
        }
    );

    state.handle_key(ch('r'));
    assert!(matches!(state.mode, Mode::RenameWindow { .. }));
    state.handle_key(key(Key::Esc));
    assert_eq!(state.mode, Mode::Normal);
}

#[test]
fn x_closes_the_focused_session_for_the_target_client() {
    let mut state = sample_state();
    state.focus = Focus::Session(String::from("$1"));
    assert_eq!(
        state.handle_key(ch('x')),
        UiCommand::Send {
            target_client: Some(String::from("client-1")),
            action: Action::CloseSession { session_id: String::from("$1") },
            then: FollowUp::Nothing,
        }
    );
}

#[test]
fn clicking_a_row_focuses_and_activates_it() {
    let mut state = sample_state();
    // Terminal row 1 is the first tree row: the work session.
    let command = state.handle_mouse(MouseInput::LeftDown { row: 1 });
    assert_eq!(state.focus, Focus::Session(String::from("$1")));
    assert!(matches!(command, UiCommand::Send { action: Action::SwitchSession { .. }, .. }));
    assert_eq!(state.handle_mouse(MouseInput::LeftDown { row: 0 }), UiCommand::Nothing);
    state.handle_mouse(MouseInput::ScrollDown);
    assert_eq!(state.focus, Focus::window("$1", "@10"));
}

#[test]
fn a_failed_action_ends_editing_and_shows_the_error() {
    let mut state = sample_state();
    state.handle_key(ch('n'));
    let result = state.after_action(ActionResultKind::Error { message: String::from("nope") }, FollowUp::Nothing, false);
    assert_eq!(result, Ok(UiCommand::Nothing));
    assert_eq!(state.mode, Mode::Normal);
    assert_eq!(state.last_error, Some(ActionError { message: String::from("nope") }));
}

#[test]
fn results_outside_a_round_trip_only_touch_the_failure_note() {
    let mut state = tmux_sidecar::model::AppState::default();
    state.note_action_result(&tmux_sidecar::ipc::ActionResultKind::Error { message: String::from("boom") });
    assert_eq!(state.last_error.as_ref().map(|e| e.message.as_str()), Some("boom"));
    assert_eq!(state.mode, tmux_sidecar::model::Mode::Normal);
    state.note_action_result(&tmux_sidecar::ipc::ActionResultKind::Completed { outcome: None });
    assert!(state.last_error.is_none());
}

#[test]
fn a_failed_switch_to_a_created_window_still_focuses_it() {
    let mut state = sample_state();
    let target = Focus::Window { session_id: String::from("$1"), window_id: String::from("@9") };
    let result = state.after_action(
        ActionResultKind::Error { message: String::from("switch failed") },
        FollowUp::FocusAfterSwitch(target.clone()),
        true,
    );
    assert_eq!(result, Ok(UiCommand::Nothing));
    assert_eq!(state.focus, target);
    assert_eq!(state.mode, Mode::Normal);
    assert!(state.last_error.is_some());
}
