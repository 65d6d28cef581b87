use std::cell::RefCell;

use tmux_sidecar::domain::state::{ClientName, SessionId, WindowId};
use tmux_sidecar::ipc::{Action, ActionOutcome, ActionRequest, ActionResultKind};
use tmux_sidecar::model::{TmuxState, WindowTarget};
use tmux_sidecar::server::actions::{
    action_step, execute_action_request, ActionExecutionOptions, ActionStep, CloseSessionClientSwitch, TmuxCall,
};
use tmux_sidecar::server::daemon::{action_result_kind, workdir_resolution_failed, ErrorText};
use tmux_sidecar::server::effects::ActionEffect;
use tmux_sidecar::tmux::{Tmux, TmuxError};

#[derive(Debug, Clone, PartialEq, Eq)]
enum RecordedTmuxCall {
    ResolveTargetClient(Option<String>),
    SwitchClientToLastSession { client: String },
    SwitchTo { client: String, target: WindowTarget },
    CreateSession { name: Option<String> },
    CreateWindow { session_id: String, name: Option<String>, current_path: Option<String> },
    RenameSession { session_id: String, name: String },
    RenameWindow { window_id: String, name: String },
    CloseSession { session_id: String },
    CloseWindow { session_id: String, window_id: String },
}

#[derive(Debug, Default)]
struct RecordingTmux {
    calls: RefCell<Vec<RecordedTmuxCall>>,
    fail_switch: bool,
    fail_last_session: bool,
}

impl RecordingTmux {
    fn calls(&self) -> Vec<RecordedTmuxCall> {
        self.calls.borrow().clone()
    }

    fn record(&self, call: RecordedTmuxCall) {
        self.calls.borrow_mut().push(call);
    }
}

impl RecordingTmux {
    fn resolve_target_client(&self, cli_override: Option<&str>) -> Result<ClientName, TmuxError> {
        self.record(RecordedTmuxCall::ResolveTargetClient(cli_override.map(str::to_owned)));
        Ok(ClientName(String::from("resolved-client")))
    }

    fn switch_to(&self, client: &ClientName, target: WindowTarget) -> Result<(), TmuxError> {
        self.record(RecordedTmuxCall::SwitchTo { client: client.0.clone(), target });
        if self.fail_switch {
            return Err(TmuxError::NoTargetClient);
        }
        Ok(())
    }

    fn switch_client_to_last_session(&self, client: &ClientName) -> Result<(), TmuxError> {
        self.record(RecordedTmuxCall::SwitchClientToLastSession { client: client.0.clone() });
        if self.fail_last_session {
            return Err(TmuxError::NoTargetClient);
        }
        Ok(())
    }

    fn create_session(&self, name: Option<&str>) -> Result<SessionId, TmuxError> {
        self.record(RecordedTmuxCall::CreateSession { name: name.map(str::to_owned) });
        Ok(String::from("$new"))
    }

    fn create_window(&self, session: &SessionId, name: Option<&str>, current_path: Option<&str>) -> Result<WindowId, TmuxError> {
        self.record(RecordedTmuxCall::CreateWindow {
            session_id: session.clone(),
            name: name.map(str::to_owned),
            current_path: current_path.map(str::to_owned),
        });
        Ok(String::from("@new"))
    }

    fn close_session(&self, session: &SessionId) -> Result<(), TmuxError> {
        self.record(RecordedTmuxCall::CloseSession { session_id: session.clone() });
        Ok(())
    }

    fn close_window(&self, session: &SessionId, window: &WindowId) -> Result<(), TmuxError> {
        self.record(RecordedTmuxCall::CloseWindow { session_id: session.clone(), window_id: window.clone() });
        Ok(())
    }

    fn rename_session(&self, session: &SessionId, name: &str) -> Result<(), TmuxError> {
        self.record(RecordedTmuxCall::RenameSession { session_id: session.clone(), name: name.to_owned() });
        Ok(())
    }

    fn rename_window(&self, window: &WindowId, name: &str) -> Result<(), TmuxError> {
        self.record(RecordedTmuxCall::RenameWindow { window_id: window.clone(), name: name.to_owned() });
        Ok(())
    }
}

impl Tmux for RecordingTmux {
    fn snapshot(&self) -> Result<TmuxState, TmuxError> {
        panic!("snapshot should not be called in this test");
    }

    fn perform(&self, call: &TmuxCall) -> Result<String, TmuxError> {
        match call {
            TmuxCall::ResolveTargetClient { cli_override } => {
                self.resolve_target_client(cli_override.as_deref()).map(|client| client.0)
            }
            TmuxCall::SwitchClientToLastSession { client } => {
                self.switch_client_to_last_session(client).map(|()| String::new())
            }
            TmuxCall::SwitchTo { client, target } => self.switch_to(client, target.clone()).map(|()| String::new()),
            TmuxCall::CreateSession { name } => self.create_session(name.as_deref()),
            TmuxCall::CreateWindow { session, name, current_path } => {
                self.create_window(session, name.as_deref(), current_path.as_deref())
            }
            TmuxCall::CloseSession { session } => self.close_session(session).map(|()| String::new()),
            TmuxCall::CloseWindow { session, window } => self.close_window(session, window).map(|()| String::new()),
            TmuxCall::RenameSession { session, name } => self.rename_session(session, name).map(|()| String::new()),
            TmuxCall::RenameWindow { window, name } => self.rename_window(window, name).map(|()| String::new()),
        }
    }
}

fn request(id: &str, target_client: Option<&str>, action: Action) -> ActionRequest {
    ActionRequest { request_id: String::from(id), target_client: target_client.map(String::from), action }
}

#[test]
fn execute_action_request_dispatches_supported_actions() {
    let tmux = RecordingTmux::default();
    let requests = [
        request("req-1", Some("client-1"), Action::SwitchSession { session_id: String::from("$1") }),
        request("req-2", None, Action::SwitchWindow { session_id: String::from("$2"), window_id: String::from("@2") }),
        request("req-3", None, Action::CreateSession { name: Some(String::from("dev")) }),
        request("req-4", None, Action::CreateWindow { session_id: String::from("$2"), name: Some(String::from("shell")) }),
        request("req-5", None, Action::RenameSession { session_id: String::from("$2"), name: String::from("renamed") }),
        request("req-6", None, Action::RenameWindow { window_id: String::from("@2"), name: String::from("editor") }),
        request("req-7", None, Action::CloseSession { session_id: String::from("$3") }),
        request("req-8", None, Action::CloseWindow { session_id: String::from("$4"), window_id: String::from("@4") }),
    ];

    let effects = requests
        .iter()
        .map(|request| execute_action_request(&tmux, request, &ActionExecutionOptions::default()))
        .collect::<Result<Vec<_>, _>>()
        .expect("every action succeeds");

    assert_eq!(
        tmux.calls(),
        vec![
            RecordedTmuxCall::ResolveTargetClient(Some(String::from("client-1"))),
            RecordedTmuxCall::SwitchTo {
                client: String::from("resolved-client"),
                target: WindowTarget::Session(String::from("$1")),
            },
            RecordedTmuxCall::ResolveTargetClient(None),
            RecordedTmuxCall::SwitchTo {
                client: String::from("resolved-client"),
                target: WindowTarget::Window { session_id: String::from("$2"), window_id: String::from("@2") },
            },
            RecordedTmuxCall::CreateSession { name: Some(String::from("dev")) },
            RecordedTmuxCall::CreateWindow {
                session_id: String::from("$2"),
                name: Some(String::from("shell")),
                current_path: None,
            },
            RecordedTmuxCall::RenameSession { session_id: String::from("$2"), name: String::from("renamed") },
            RecordedTmuxCall::RenameWindow { window_id: String::from("@2"), name: String::from("editor") },
            RecordedTmuxCall::CloseSession { session_id: String::from("$3") },
            RecordedTmuxCall::CloseWindow { session_id: String::from("$4"), window_id: String::from("@4") },
        ]
    );
    assert_eq!(
        effects,
        vec![
            ActionEffect::SwitchedSession { client_name: String::from("resolved-client"), session_id: String::from("$1") },
            ActionEffect::SwitchedWindow {
                client_name: String::from("resolved-client"),
                session_id: String::from("$2"),
                window_id: String::from("@2"),
            },
            ActionEffect::CreatedSession { session_id: String::from("$new") },
            ActionEffect::CreatedWindow { session_id: String::from("$2"), window_id: String::from("@new"), current_path: None },
            ActionEffect::RenamedSession { session_id: String::from("$2"), name: String::from("renamed") },
            ActionEffect::RenamedWindow { window_id: String::from("@2"), name: String::from("editor") },
            ActionEffect::ClosedSession { session_id: String::from("$3") },
            ActionEffect::ClosedWindow { session_id: String::from("$4"), window_id: String::from("@4") },
        ]
    );
}

#[test]
fn execute_action_request_switches_target_client_before_closing_session() {
    let tmux = RecordingTmux::default();
    let request = request("req-close-active", Some("client-1"), Action::CloseSession { session_id: String::from("$1") });

    let effect = execute_action_request(
        &tmux,
        &request,
        &ActionExecutionOptions {
            create_window_path: None,
            close_session_client_switch: Some(CloseSessionClientSwitch { fallback_session_id: Some(String::from("$2")) }),
        },
    )
    .expect("close succeeds");

    assert_eq!(
        tmux.calls(),
        vec![
            RecordedTmuxCall::ResolveTargetClient(Some(String::from("client-1"))),
            RecordedTmuxCall::SwitchClientToLastSession { client: String::from("resolved-client") },
            RecordedTmuxCall::CloseSession { session_id: String::from("$1") },
        ]
    );
    assert_eq!(effect, ActionEffect::ClosedSession { session_id: String::from("$1") });
}

#[test]
fn create_window_passes_the_resolved_working_directory() {
    let tmux = RecordingTmux::default();
    let request = request("req-9", None, Action::CreateWindow { session_id: String::from("$2"), name: None });
    let options = ActionExecutionOptions { create_window_path: Some(String::from("/work/repo")), close_session_client_switch: None };

    let effect = execute_action_request(&tmux, &request, &options).expect("create succeeds");

    assert_eq!(
        tmux.calls(),
        vec![RecordedTmuxCall::CreateWindow {
            session_id: String::from("$2"),
            name: None,
            current_path: Some(String::from("/work/repo")),
        }]
    );
    assert_eq!(
        effect,
        ActionEffect::CreatedWindow {
            session_id: String::from("$2"),
            window_id: String::from("@new"),
            current_path: Some(String::from("/work/repo")),
        }
    );
    assert_eq!(
        effect.outcome(),
        Some(ActionOutcome::CreatedWindow { session_id: String::from("$2"), window_id: String::from("@new") })
    );
}

#[test]
fn failed_switch_reports_the_failed_operation() {
    let tmux = RecordingTmux { fail_switch: true, ..RecordingTmux::default() };
    let request = request("req-10", Some("client-1"), Action::SwitchSession { session_id: String::from("$1") });

    let failure = execute_action_request(&tmux, &request, &ActionExecutionOptions::default()).expect_err("switch fails");

    assert_eq!(failure.context, "failed to switch client `resolved-client` to session `$1`");
    assert_eq!(failure.source, TmuxError::NoTargetClient);
}

fn error_text(message: &str, chain: &str) -> ErrorText {
    ErrorText { message: String::from(message), chain: String::from(chain) }
}

#[test]
fn action_results_combine_the_action_and_the_refresh() {
    let ok = action_result_kind(Ok(None), Ok(()));
    assert_eq!(ok, ActionResultKind::Completed { outcome: None });

    let failed = action_result_kind(Err(error_text("switch failed", "switch failed: no client")), Ok(()));
    assert_eq!(failed, ActionResultKind::Error { message: String::from("switch failed") });

    let unrefreshed = action_result_kind(Ok(None), Err(error_text("snapshot", "snapshot: tmux gone")));
    assert_eq!(
        unrefreshed,
        ActionResultKind::Error { message: String::from("action succeeded but failed to refresh state: snapshot: tmux gone") }
    );

    let both = action_result_kind(Err(error_text("a", "a: b")), Err(error_text("c", "c: d")));
    assert_eq!(both, ActionResultKind::Error { message: String::from("a: b; additionally failed to refresh state: c: d") });

    assert_eq!(
        workdir_resolution_failed(&error_text("x", "x: y")),
        ActionResultKind::Error { message: String::from("failed to resolve working directory: x: y") }
    );
}

fn closing_request() -> (ActionRequest, ActionExecutionOptions) {
    (
        request("req-close", Some("client-1"), Action::CloseSession { session_id: String::from("$1") }),
        ActionExecutionOptions {
            create_window_path: None,
            close_session_client_switch: Some(CloseSessionClientSwitch { fallback_session_id: Some(String::from("$2")) }),
        },
    )
}

#[test]
fn closing_a_session_moves_the_client_off_it_first() {
    let (request, options) = closing_request();
    let mut replies: Vec<Result<String, TmuxError>> = Vec::new();
    assert_eq!(
        action_step(&request, &options, &replies),
        ActionStep::Call(TmuxCall::ResolveTargetClient { cli_override: Some(String::from("client-1")) })
    );
    replies.push(Ok(String::from("c")));
    assert_eq!(
        action_step(&request, &options, &replies),
        ActionStep::Call(TmuxCall::SwitchClientToLastSession { client: ClientName(String::from("c")) })
    );
    replies.push(Err(TmuxError::NoTargetClient));
    assert_eq!(
        action_step(&request, &options, &replies),
        ActionStep::Call(TmuxCall::SwitchTo {
            client: ClientName(String::from("c")),
            target: WindowTarget::Session(String::from("$2")),
        })
    );
    let mut refused = replies.clone();
    refused.push(Err(TmuxError::NoSessions));
    assert_eq!(
        action_step(&request, &options, &refused),
        ActionStep::Fail { context: String::from("failed to switch client `c` away from closing session `$1`"), reply: 2 }
    );
    replies.push(Ok(String::new()));
    assert_eq!(
        action_step(&request, &options, &replies),
        ActionStep::Call(TmuxCall::CloseSession { session: String::from("$1") })
    );
    replies.push(Ok(String::new()));
    assert_eq!(
        action_step(&request, &options, &replies),
        ActionStep::Done(ActionEffect::ClosedSession { session_id: String::from("$1") })
    );
}

#[test]
fn a_refused_fallback_switch_stops_the_close() {
    let (request, options) = closing_request();
    let tmux = RecordingTmux { fail_switch: true, fail_last_session: true, ..RecordingTmux::default() };

    let failure = execute_action_request(&tmux, &request, &options).expect_err("the close must stop");
    assert_eq!(failure.context, "failed to switch client `resolved-client` away from closing session `$1`");
    assert_eq!(failure.source, TmuxError::NoTargetClient);
    assert_eq!(
        tmux.calls(),
        vec![
            RecordedTmuxCall::ResolveTargetClient(Some(String::from("client-1"))),
            RecordedTmuxCall::SwitchClientToLastSession { client: String::from("resolved-client") },
            RecordedTmuxCall::SwitchTo {
                client: String::from("resolved-client"),
                target: WindowTarget::Session(String::from("$2")),
            },
        ]
    );
}

#[test]
fn created_ids_come_from_tmux() {
    let create = request("req-1", None, Action::CreateSession { name: None });
    let options = ActionExecutionOptions::default();
    let replies: Vec<Result<String, TmuxError>> = vec![Ok(String::from("$9"))];
    assert_eq!(
        action_step(&create, &options, &replies),
        ActionStep::Done(ActionEffect::CreatedSession { session_id: String::from("$9") })
    );
}
