use tmux_sidecar::domain::state::WinlinkKey;
use tmux_sidecar::ipc::{HookEvent, HookName};
use tmux_sidecar::server::scopes::{dirty_scopes_for_hook, DirtyScope, DirtyScopes};

fn hook(event: HookName, session_id: Option<&str>, window_id: Option<&str>) -> HookEvent {
    HookEvent {
        tmux_socket_path: String::from("/tmp/tmux.sock"),
        event,
        session_id: session_id.map(str::to_owned),
        window_id: window_id.map(str::to_owned),
        window_index: None,
        pane_id: None,
        pane_current_path: None,
        client_name: None,
        timestamp_ms: None,
    }
}

fn marked(scopes: &[DirtyScope]) -> DirtyScopes {
    let mut dirty = DirtyScopes::new();
    for scope in scopes {
        dirty.mark(scope.clone());
    }
    dirty
}

fn winlink(session_id: &str, window_id: &str) -> DirtyScope {
    DirtyScope::Winlink(WinlinkKey { session_id: session_id.to_owned(), window_id: window_id.to_owned() })
}

#[test]
fn quiet_hooks_make_nothing_stale() {
    for name in [HookName::WindowPaneChanged, HookName::WindowLayoutChanged, HookName::AlertActivity, HookName::AlertSilence] {
        assert!(dirty_scopes_for_hook(&hook(name, Some("$1"), Some("@1"))).is_empty());
    }
}

#[test]
fn a_bell_makes_only_the_alerts_stale() {
    assert_eq!(dirty_scopes_for_hook(&hook(HookName::AlertBell, Some("$1"), Some("@1"))), marked(&[DirtyScope::Alerts]));
}

#[test]
fn renames_and_selections_narrow_to_what_they_name() {
    assert_eq!(
        dirty_scopes_for_hook(&hook(HookName::WindowRenamed, Some("$1"), Some("@2"))),
        marked(&[winlink("$1", "@2")])
    );
    assert_eq!(
        dirty_scopes_for_hook(&hook(HookName::WindowRenamed, Some("$1"), Some(""))),
        marked(&[DirtyScope::Session(String::from("$1"))])
    );
    assert_eq!(dirty_scopes_for_hook(&hook(HookName::AfterRenameSession, None, None)), marked(&[DirtyScope::All]));
    assert_eq!(
        dirty_scopes_for_hook(&hook(HookName::AfterSelectWindow, Some("$1"), Some("@2"))),
        marked(&[DirtyScope::Clients, winlink("$1", "@2")])
    );
    assert_eq!(dirty_scopes_for_hook(&hook(HookName::SessionWindowChanged, None, None)), marked(&[DirtyScope::All]));
}

#[test]
fn client_hooks_mark_clients_session_and_winlink() {
    assert_eq!(
        dirty_scopes_for_hook(&hook(HookName::ClientSessionChanged, Some("$1"), Some("@2"))),
        marked(&[DirtyScope::Clients, DirtyScope::Session(String::from("$1")), winlink("$1", "@2")])
    );
    assert_eq!(dirty_scopes_for_hook(&hook(HookName::ClientDetached, None, None)), marked(&[DirtyScope::Clients]));
}

#[test]
fn structural_hooks_make_everything_stale() {
    assert_eq!(dirty_scopes_for_hook(&hook(HookName::AfterNewWindow, Some("$1"), Some("@2"))), marked(&[DirtyScope::All]));
}
