use tmux_sidecar::client::{await_action_result, pane_value_from_output, ActionWait, ReadStatus};
use tmux_sidecar::ipc::{ActionResult, ActionResultKind};
use tmux_sidecar::client::{check_ack, check_cache_version, check_handshake, socket_path_from_output, ReplyCheck};
use tmux_sidecar::ipc::{
    Ack, AckKind, Action, ActionRequest, ClientKind, ClientMessage, ErrorMessage, Hello, HelloAck, HookEvent, HookName,
    ServerMessage, Subscribe, PROTOCOL_VERSION,
};
use tmux_sidecar::server::connection::{action_request_failure, refresh_failure, ConnectionState, ConnectionStep};
use tmux_sidecar::tmux::hooks::window_ids_from_output;
use tmux_sidecar::tmux::{
    kill_window_args, last_session_args, new_session_args, new_window_args, rename_session_args, switch_to_commands,
};
use tmux_sidecar::domain::state::ClientName;
use tmux_sidecar::model::WindowTarget;

fn hello() -> ClientMessage {
    ClientMessage::Hello(Hello { client_kind: ClientKind::Ui, protocol_version: PROTOCOL_VERSION })
}

fn hook(socket: &str) -> ClientMessage {
    ClientMessage::HookEvent(HookEvent {
        tmux_socket_path: socket.to_owned(),
        event: HookName::AlertBell,
        session_id: None,
        window_id: None,
        window_index: None,
        pane_id: None,
        pane_current_path: None,
        client_name: None,
        timestamp_ms: None,
    })
}

#[test]
fn connections_need_a_hello_first_and_only_once() {
    let mut connection = ConnectionState::new();
    assert_eq!(
        connection.on_message(&ClientMessage::Shutdown, "/tmux.sock"),
        ConnectionStep::RejectAndClose(String::from("expected hello before any other IPC message"))
    );
    assert_eq!(connection.on_message(&hello(), "/tmux.sock"), ConnectionStep::AcknowledgeHello);
    assert_eq!(
        connection.on_message(&hello(), "/tmux.sock"),
        ConnectionStep::Reject(String::from("duplicate hello is not allowed"))
    );
}

#[test]
fn connections_check_hook_sockets_and_subscribe_once() {
    let mut connection = ConnectionState::new();
    connection.on_message(&hello(), "/tmux.sock");
    assert_eq!(connection.on_message(&hook("/tmux.sock"), "/tmux.sock"), ConnectionStep::HandleHook);
    assert_eq!(
        connection.on_message(&hook("/other.sock"), "/tmux.sock"),
        ConnectionStep::Reject(String::from("hook event tmux socket path did not match this server"))
    );
    let subscribe = ClientMessage::Subscribe(Subscribe::default());
    assert_eq!(connection.on_message(&subscribe, "/tmux.sock"), ConnectionStep::Subscribe);
    assert_eq!(connection.on_message(&subscribe, "/tmux.sock"), ConnectionStep::SendCurrentState);
    assert_eq!(connection.on_message(&ClientMessage::SnapshotRequest, "/tmux.sock"), ConnectionStep::RefreshSnapshot);
    let request = ClientMessage::ActionRequest(ActionRequest {
        request_id: String::from("req-1"),
        target_client: None,
        action: Action::CloseSession { session_id: String::from("$1") },
    });
    assert_eq!(connection.on_message(&request, "/tmux.sock"), ConnectionStep::RunAction);
    assert_eq!(connection.on_message(&ClientMessage::Shutdown, "/tmux.sock"), ConnectionStep::Shutdown);
    assert_eq!(refresh_failure("boom").message, "failed to refresh state: boom");
    assert_eq!(action_request_failure("gone").message, "failed to process action request: gone");
}

#[test]
fn clients_check_the_daemons_replies() {
    let ack = ServerMessage::HelloAck(HelloAck { protocol_version: PROTOCOL_VERSION, server_id: String::from("s") });
    assert_eq!(check_handshake(&ack), ReplyCheck::Accepted);
    let old = ServerMessage::HelloAck(HelloAck { protocol_version: 1, server_id: String::from("s") });
    assert_eq!(check_handshake(&old), ReplyCheck::Failed(String::from("protocol mismatch: client expects 2, server replied with 1")));
    let error = ServerMessage::Error(ErrorMessage { message: String::from("nope") });
    assert_eq!(check_handshake(&error), ReplyCheck::Failed(String::from("nope")));
    let hook_ack = ServerMessage::Ack(Ack { kind: AckKind::HookEvent });
    assert_eq!(check_ack(&hook_ack, AckKind::HookEvent), ReplyCheck::Accepted);
    assert_eq!(check_ack(&hook_ack, AckKind::Shutdown), ReplyCheck::Unexpected);
    assert_eq!(check_ack(&ack, AckKind::Shutdown), ReplyCheck::Unexpected);
}

#[test]
fn socket_path_and_cache_version_checks() {
    assert_eq!(socket_path_from_output("  /tmp/tmux-1000/default \nextra\n"), Ok(String::from("/tmp/tmux-1000/default")));
    assert_eq!(socket_path_from_output("\n"), Err(String::from("tmux returned an empty socket path")));
    assert_eq!(check_cache_version(1, "/c.json"), Ok(()));
    assert_eq!(check_cache_version(3, "/c.json"), Err(String::from("unsupported sidecar state cache version 3 in `/c.json`")));
}

#[test]
fn window_ids_are_listed_once_in_order() {
    assert_eq!(window_ids_from_output("@3\n @1 \n\n@3\n@10\n"), vec!["@1", "@10", "@3"]);
    assert!(window_ids_from_output("").is_empty());
}

#[test]
fn tmux_arguments_of_the_daemons_operations() {
    let client = ClientName(String::from("c1"));
    assert_eq!(
        switch_to_commands(&client, &WindowTarget::Window { session_id: String::from("$1"), window_id: String::from("@2") }),
        vec![vec!["select-window", "-t", "$1:@2"], vec!["switch-client", "-c", "c1", "-t", "$1"]]
    );
    assert_eq!(switch_to_commands(&client, &WindowTarget::Session(String::from("$1"))), vec![vec!["switch-client", "-c", "c1", "-t", "$1"]]);
    assert_eq!(last_session_args(&client), vec!["switch-client", "-c", "c1", "-l"]);
    assert_eq!(new_session_args(Some("dev")), vec!["new-session", "-d", "-P", "-F", "#{session_id}", "-s", "dev"]);
    assert_eq!(
        new_window_args("$1", Some("shell"), Some("/work")),
        vec!["new-window", "-d", "-P", "-F", "#{window_id}", "-t", "$1:", "-c", "/work", "-n", "shell"]
    );
    assert_eq!(kill_window_args("$1", "@2"), vec!["kill-window", "-t", "$1:@2"]);
    assert_eq!(rename_session_args("$1", "x y"), vec!["rename-session", "-t", "$1", "x y"]);
}

#[test]
fn waiting_for_an_action_result() {
    let result = ActionResult { request_id: String::from("req-1"), generation: 3, result: ActionResultKind::Completed { outcome: None } };
    assert_eq!(await_action_result("req-1", ReadStatus::Message(ServerMessage::ActionResult(result.clone()))), ActionWait::Done(result.clone()));
    assert_eq!(
        await_action_result("req-2", ReadStatus::Message(ServerMessage::ActionResult(result))),
        ActionWait::Fail(String::from("received unexpected action result `req-1` while waiting for `req-2`"))
    );
    assert_eq!(await_action_result("req-2", ReadStatus::Pending), ActionWait::Fail(String::from("timed out waiting for action result `req-2`")));
    assert_eq!(await_action_result("req-2", ReadStatus::Closed), ActionWait::Fail(String::from("sidecar server disconnected")));
    let ack = ServerMessage::Ack(Ack { kind: AckKind::HookEvent });
    assert_eq!(await_action_result("req-2", ReadStatus::Message(ack.clone())), ActionWait::Other(ack));
    assert_eq!(pane_value_from_output("  client-3\n"), Some(String::from("client-3")));
    assert_eq!(pane_value_from_output(" \n"), None);
}

#[test]
fn hook_socket_paths_are_compared_as_paths() {
    let mut connection = ConnectionState::new();
    assert_eq!(connection.on_message(&hello(), "/tmp/tmux-0/default"), ConnectionStep::AcknowledgeHello);
    assert_eq!(connection.on_message(&hook("/tmp//tmux-0/default/"), "/tmp/tmux-0/default"), ConnectionStep::HandleHook);
    assert_eq!(
        connection.on_message(&hook("/tmp/tmux-0/other"), "/tmp/tmux-0/default"),
        ConnectionStep::Reject(String::from("hook event tmux socket path did not match this server"))
    );
}
