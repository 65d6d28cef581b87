use tmux_sidecar::domain::state::DomainState;
use tmux_sidecar::ipc::{Action, ActionRequest, HookEvent, HookName};
use tmux_sidecar::projection::{ProjectionClient, ProjectionSession, ProjectionState, ProjectionWindow};
use tmux_sidecar::server::actions::{ActionExecutionOptions, CloseSessionClientSwitch};
use tmux_sidecar::server::daemon::{
    action_refresh_step, domain_states_equal, ActionPreparation, ActionRefreshStep, ServerCoreState,
    ACTION_RECONCILE_ATTEMPTS, HOOK_RECONCILE_ATTEMPTS, HOOK_RECONCILE_RETRY_DELAY_MS, HOOK_RECONCILE_SETTLE_DELAY_MS,
};
use tmux_sidecar::server::effects::ActionEffect;
use tmux_sidecar::server::workdirs::SessionWorkdirTracker;

const SOCKET: &str = "/tmp/tmux.sock";

fn window(id: &str, index: u32, name: &str, active: bool) -> ProjectionWindow {
    ProjectionWindow {
        id: id.to_owned(),
        index,
        name: name.to_owned(),
        active,
        activity: 0,
        activity_flag: false,
        bell_flag: false,
        silence_flag: false,
    }
}

fn projection_with_window(session_id: &str, window_id: &str) -> ProjectionState {
    ProjectionState {
        tmux_socket_path: SOCKET.to_owned(),
        sessions: vec![ProjectionSession {
            id: session_id.to_owned(),
            name: String::from("work"),
            attached_count: 0,
            active_window_id: Some(window_id.to_owned()),
            windows: vec![window(window_id, 0, "build", true)],
        }],
        clients: Vec::new(),
    }
}

fn add_client(state: &mut ProjectionState, name: &str, session_id: &str, window_id: &str, tty: &str) {
    state.clients.push(ProjectionClient {
        name: name.to_owned(),
        session_id: session_id.to_owned(),
        current_window_id: Some(window_id.to_owned()),
        activity: 0,
        tty: tty.to_owned(),
    });
}

fn hook(event: HookName, session_id: &str, window_id: &str, window_index: u32) -> HookEvent {
    HookEvent {
        tmux_socket_path: SOCKET.to_owned(),
        event,
        session_id: Some(session_id.to_owned()),
        window_id: Some(window_id.to_owned()),
        window_index: Some(window_index),
        pane_id: Some(String::from("%1")),
        pane_current_path: None,
        client_name: None,
        timestamp_ms: None,
    }
}

fn core_with(state: &ProjectionState) -> ServerCoreState {
    ServerCoreState::new(SOCKET.to_owned(), state.to_domain_state())
}

fn two_session_state() -> ProjectionState {
    let mut state = projection_with_window("$1", "@1");
    state.sessions.push(ProjectionSession {
        id: String::from("$2"),
        name: String::from("other"),
        attached_count: 0,
        active_window_id: Some(String::from("@2")),
        windows: vec![window("@2", 0, "logs", true)],
    });
    state
}

#[test]
fn alert_hook_rings_all_unique_client_ttys_on_new_bell_transition() {
    let mut initial = projection_with_window("$1", "@1");
    add_client(&mut initial, "client-1", "$1", "@1", "/dev/pts/1");
    add_client(&mut initial, "client-2", "$1", "@1", "/dev/pts/1");
    add_client(&mut initial, "client-3", "$1", "@1", "/dev/pts/2");
    let mut core = core_with(&initial);

    let published = core
        .handle_hook_event(&hook(HookName::AlertBell, "$1", "@1", 0), false, 0)
        .expect("the bell changes the state");

    let mut alerted = initial;
    alerted.sessions[0].windows[0].bell_flag = true;
    assert!(published.changed);
    assert_eq!(published.update.generation, 2);
    assert_eq!(published.update.state, alerted);
    let bells = published.bells.expect("a new bell rings");
    assert_eq!(bells.tty_paths, vec![String::from("/dev/pts/1"), String::from("/dev/pts/2")]);
    assert_eq!(bells.repeat_count, 1);
}

#[test]
fn alert_hook_does_not_ring_for_already_latched_bell() {
    let mut initial = projection_with_window("$1", "@1");
    initial.sessions[0].windows[0].bell_flag = true;
    add_client(&mut initial, "client-1", "$1", "@1", "/dev/pts/1");
    let mut core = core_with(&initial);

    let published = core.handle_hook_event(&hook(HookName::AlertBell, "$1", "@1", 0), false, 0);

    assert!(published.is_none());
    assert_eq!(core.generation, 1);
}

#[test]
fn alert_hook_with_a_later_timestamp_moves_the_activity_without_a_new_bell() {
    let mut initial = projection_with_window("$1", "@1");
    initial.sessions[0].windows[0].bell_flag = true;
    add_client(&mut initial, "client-1", "$1", "@1", "/dev/pts/1");
    let mut core = core_with(&initial);
    let mut event = hook(HookName::AlertBell, "$1", "@1", 0);
    event.timestamp_ms = Some(5000);

    let published = core.handle_hook_event(&event, false, 0).expect("the activity moves");

    assert!(published.changed);
    assert!(published.bells.is_none());
    assert_eq!(published.update.state.sessions[0].windows[0].activity, 5);
}

#[test]
fn retained_bell_alert_survives_later_non_alert_hook_refresh() {
    let mut alerted = projection_with_window("$1", "@1");
    alerted.sessions[0].windows[0].bell_flag = true;
    let mut core = core_with(&alerted);

    let snapshot = projection_with_window("$1", "@1").to_domain_state();
    let result = core.reconcile_from_snapshot(snapshot, &Vec::new(), true);

    assert!(result.snapshot_changed);
    assert!(!result.published.changed);
    assert!(ProjectionState::from_domain(&core.state).sessions[0].windows[0].bell_flag);
}

#[test]
fn retained_bell_alert_clears_on_select_hook_when_snapshot_has_no_alert() {
    let mut alerted = projection_with_window("$1", "@1");
    alerted.sessions[0].windows[0].bell_flag = true;
    let mut core = core_with(&alerted);

    core.schedule_hook_reconciliation(&hook(HookName::AfterSelectWindow, "$1", "@1", 0), true, 100);
    let pending = core.take_pending_reconcile().expect("the selection schedules a reconcile");
    assert_eq!(pending.clear_bell_hints.len(), 1);
    assert_eq!(pending.deadline_ms, 100 + HOOK_RECONCILE_SETTLE_DELAY_MS);

    let snapshot = projection_with_window("$1", "@1").to_domain_state();
    let result = core.run_scheduled_reconcile(pending, snapshot, 200);

    assert!(result.published.changed);
    assert_eq!(core.generation, 2);
    assert!(!ProjectionState::from_domain(&core.state).sessions[0].windows[0].bell_flag);
}

#[test]
fn retained_bell_alert_clears_when_a_client_views_the_window() {
    let mut alerted = projection_with_window("$1", "@1");
    alerted.sessions[0].windows[0].bell_flag = true;
    let mut core = core_with(&alerted);

    let mut snapshot = projection_with_window("$1", "@1");
    add_client(&mut snapshot, "client-1", "$1", "@1", "/dev/pts/1");
    let result = core.reconcile_from_snapshot(snapshot.to_domain_state(), &Vec::new(), true);

    assert!(result.published.changed);
    assert!(result.published.bells.is_none());
    assert!(!ProjectionState::from_domain(&core.state).sessions[0].windows[0].bell_flag);
}

#[test]
fn hook_reconciliation_coalesces_multiple_dirty_scopes() {
    let mut core = core_with(&two_session_state());

    core.schedule_hook_reconciliation(&hook(HookName::WindowRenamed, "$1", "@1", 0), true, 10);
    core.schedule_hook_reconciliation(&hook(HookName::AfterSelectWindow, "$2", "@2", 0), true, 5);
    core.schedule_hook_reconciliation(&hook(HookName::AfterSelectWindow, "$2", "@2", 0), true, 7);

    let pending = core.pending_reconcile.as_ref().expect("a reconcile is pending");
    assert_eq!(pending.deadline_ms, 10 + HOOK_RECONCILE_SETTLE_DELAY_MS);
    assert_eq!(pending.attempts_remaining, HOOK_RECONCILE_ATTEMPTS);
    assert_eq!(pending.clear_bell_hints.len(), 1);
    assert!(pending.dirty_scopes.requires_confirmation());
    assert_eq!(core.reconcile_timeout(20), Some(10 + HOOK_RECONCILE_SETTLE_DELAY_MS - 20));
    assert_eq!(core.reconcile_timeout(1000), Some(0));
}

#[test]
fn hooks_schedule_nothing_without_refreshing_from_tmux() {
    let mut core = core_with(&two_session_state());
    core.schedule_hook_reconciliation(&hook(HookName::WindowRenamed, "$1", "@1", 0), false, 10);
    assert!(core.pending_reconcile.is_none());
    assert_eq!(core.reconcile_timeout(0), None);
}

#[test]
fn hook_refresh_retries_when_first_lifecycle_snapshot_is_unchanged() {
    let state = two_session_state();
    let mut core = core_with(&state);
    core.schedule_hook_reconciliation(&hook(HookName::WindowLinked, "$1", "@1", 0), true, 0);
    let pending = core.take_pending_reconcile().expect("pending");

    let result = core.run_scheduled_reconcile(pending, state.to_domain_state(), 100);

    assert!(!result.published.changed);
    assert!(!result.snapshot_changed);
    let retry = core.pending_reconcile.as_ref().expect("the reconcile is retried");
    assert_eq!(retry.attempts_remaining, HOOK_RECONCILE_ATTEMPTS - 1);
    assert_eq!(retry.deadline_ms, 100 + HOOK_RECONCILE_RETRY_DELAY_MS);
}

#[test]
fn alert_only_reconcile_is_not_retried() {
    let state = two_session_state();
    let mut core = core_with(&state);
    core.schedule_hook_reconciliation(&hook(HookName::AlertBell, "$1", "@1", 0), true, 0);
    let pending = core.take_pending_reconcile().expect("pending");
    assert!(!pending.dirty_scopes.requires_confirmation());

    core.run_scheduled_reconcile(pending, state.to_domain_state(), 100);

    assert!(core.pending_reconcile.is_none());
}

#[test]
fn publishing_the_same_state_keeps_the_generation() {
    let state = two_session_state();
    let mut core = core_with(&state);
    let outcome = core.publish_state_update(state.to_domain_state(), true);
    assert!(!outcome.changed);
    assert_eq!(outcome.update.generation, 1);
    assert!(domain_states_equal(&core.state, &state.to_domain_state()));

    let other = projection_with_window("$1", "@1");
    let outcome = core.publish_state_update(other.to_domain_state(), true);
    assert!(outcome.changed);
    assert_eq!(outcome.update.generation, 2);
    assert_eq!(outcome.update.state, other);
}

#[test]
fn tracked_session_workdirs_prefer_active_window_paths() {
    let mut tracker = SessionWorkdirTracker::new();
    let mut projection = projection_with_window("$1", "@1");
    projection.sessions[0].windows[0].active = false;
    projection.sessions[0].active_window_id = Some(String::from("@2"));
    projection.sessions[0].windows.push(window("@2", 1, "editor", true));
    let mut first = hook(HookName::AfterSelectWindow, "$1", "@1", 0);
    first.pane_current_path = Some(String::from("/tmp/one"));
    tracker.record_hook(&first);
    let mut second = hook(HookName::AfterSelectWindow, "$1", "@2", 1);
    second.pane_current_path = Some(String::from("/tmp/two"));
    tracker.record_hook(&second);

    let domain: DomainState = projection.to_domain_state();
    assert_eq!(tracker.resolve_session_path(&domain, "$1", &Vec::new()), Some(String::from("/tmp/two")));
}

#[test]
fn closing_the_viewed_session_falls_back_to_the_most_recent_other_client() {
    let mut state = two_session_state();
    add_client(&mut state, "client-1", "$1", "@1", "/dev/pts/1");
    add_client(&mut state, "client-2", "$2", "@2", "/dev/pts/2");
    let core = core_with(&state);
    let request = ActionRequest {
        request_id: String::from("req-1"),
        target_client: Some(String::from("client-1")),
        action: Action::CloseSession { session_id: String::from("$1") },
    };

    let switch = core.resolve_close_session_client_switch(&request, "$1").expect("the client must move");
    assert_eq!(switch.fallback_session_id, Some(String::from("$2")));
    assert!(core.resolve_close_session_client_switch(&request, "$2").is_none());

    let untargeted = ActionRequest { target_client: None, ..request };
    assert!(core.resolve_close_session_client_switch(&untargeted, "$1").is_none());
}

#[test]
fn closing_the_viewed_session_falls_back_to_the_first_other_session() {
    let mut state = two_session_state();
    add_client(&mut state, "client-1", "$1", "@1", "/dev/pts/1");
    let core = core_with(&state);
    let request = ActionRequest {
        request_id: String::from("req-1"),
        target_client: Some(String::from("client-1")),
        action: Action::CloseSession { session_id: String::from("$1") },
    };

    let switch = core.resolve_close_session_client_switch(&request, "$1").expect("the client must move");
    assert_eq!(switch.fallback_session_id, Some(String::from("$2")));
}

#[test]
fn actions_are_prepared_by_kind() {
    let mut state = two_session_state();
    add_client(&mut state, "client-1", "$1", "@1", "/dev/pts/1");
    let core = core_with(&state);
    let request = |action: Action| ActionRequest {
        request_id: String::from("req-1"),
        target_client: Some(String::from("client-1")),
        action,
    };

    assert_eq!(
        core.prepare_action(&request(Action::CreateWindow { session_id: String::from("$2"), name: None })),
        ActionPreparation::InspectWorkdirs { session_id: String::from("$2") }
    );
    assert_eq!(
        core.prepare_action(&request(Action::CloseSession { session_id: String::from("$1") })),
        ActionPreparation::Run(ActionExecutionOptions {
            create_window_path: None,
            close_session_client_switch: Some(CloseSessionClientSwitch { fallback_session_id: Some(String::from("$2")) }),
        })
    );
    assert_eq!(
        core.prepare_action(&request(Action::CloseSession { session_id: String::from("$2") })),
        ActionPreparation::Run(ActionExecutionOptions::default())
    );
    assert_eq!(
        core.prepare_action(&request(Action::RenameSession { session_id: String::from("$1"), name: String::from("x") })),
        ActionPreparation::Run(ActionExecutionOptions::default())
    );
}

#[test]
fn action_refreshes_retry_until_the_effect_shows_or_attempts_run_out() {
    let state = two_session_state().to_domain_state();
    let shown = ActionEffect::ClosedSession { session_id: String::from("$3") };
    let missing = ActionEffect::CreatedSession { session_id: String::from("$3") };

    assert_eq!(action_refresh_step(&shown, &state, 0), ActionRefreshStep::Done);
    assert_eq!(action_refresh_step(&missing, &state, 0), ActionRefreshStep::Retry);
    assert_eq!(action_refresh_step(&missing, &state, ACTION_RECONCILE_ATTEMPTS - 2), ActionRefreshStep::Retry);
    assert_eq!(
        action_refresh_step(&missing, &state, ACTION_RECONCILE_ATTEMPTS - 1),
        ActionRefreshStep::Fail(String::from("refreshed state did not include created session `$3`"))
    );
}

#[test]
fn bell_ttys_are_rung_in_path_order_once_each() {
    let mut state = projection_with_window("$1", "@1");
    add_client(&mut state, "client-1", "$1", "@1", "/dev/pts/9");
    add_client(&mut state, "client-2", "$1", "@1", "/dev/pts/10");
    add_client(&mut state, "client-3", "$1", "@1", "/dev/pts/9");
    add_client(&mut state, "client-4", "$1", "@1", "");
    let ttys = tmux_sidecar::server::bells::bell_notification_ttys(&state.to_domain_state());
    assert_eq!(ttys, vec![String::from("/dev/pts/10"), String::from("/dev/pts/9")]);
}

#[test]
fn bell_ttys_naming_one_path_are_rung_once() {
    let mut state = projection_with_window("$1", "@1");
    add_client(&mut state, "client-1", "$1", "@1", "/dev/pts/1/");
    add_client(&mut state, "client-2", "$1", "@1", "/dev/pts/2");
    add_client(&mut state, "client-3", "$1", "@1", "/dev//pts/1");
    add_client(&mut state, "client-4", "$1", "@1", "/dev/pts/1");
    let ttys = tmux_sidecar::server::bells::bell_notification_ttys(&state.to_domain_state());
    assert_eq!(ttys.len(), 2);
    assert_eq!(std::path::Path::new(&ttys[0]), std::path::Path::new("/dev/pts/1"));
    assert_eq!(ttys[1], "/dev/pts/2");
}
