use std::path::Path;

use tmux_sidecar::cli::{QueryArgs, QueryCommand};
use tmux_sidecar::domain::state::WinlinkKey;
use tmux_sidecar::ipc::SidecarPaths;
use tmux_sidecar::projection::{ProjectionClient, ProjectionSession, ProjectionState, ProjectionWindow};
use tmux_sidecar::query::write_result;

fn pwindow(id: &str, index: u32, name: &str, active: bool, activity: u64, activity_flag: bool, bell_flag: bool, silence_flag: bool) -> ProjectionWindow {
    ProjectionWindow {
        id: String::from(id),
        index,
        name: String::from(name),
        active,
        activity,
        activity_flag,
        bell_flag,
        silence_flag,
    }
}

#[test]
fn sidecar_paths_are_deterministic_from_tmux_socket_path() {
    let tmux_socket = "/private/tmux-1000/default";
    let first = SidecarPaths::from_runtime_dir(tmux_socket, Some("/run/user/1000"));
    let second = SidecarPaths::from_runtime_dir(tmux_socket, Some("/run/user/2000"));
    let fallback = SidecarPaths::from_runtime_dir(tmux_socket, None);

    assert_eq!(
        Path::new(&first.socket_path).file_name(),
        Path::new(&second.socket_path).file_name(),
        "hash stem should depend only on the tmux socket path"
    );
    assert_eq!(Path::new(&first.lock_path).file_name(), Path::new(&second.lock_path).file_name());
    assert_eq!(Path::new(&first.pid_path).file_name(), Path::new(&second.pid_path).file_name());
    assert_eq!(Path::new(&first.runtime_dir), Path::new("/run/user/1000").join("tmux-sidecar"));
    assert_eq!(Path::new(&fallback.runtime_dir), Path::new("/private/tmux-1000").join("tmux-sidecar"));
}

#[test]
fn sidecar_file_names_use_the_fnv_hash_of_the_socket_path() {
    let paths = SidecarPaths::from_runtime_dir("", Some("/run"));
    // FNV-1a of no bytes is the offset basis.
    assert_eq!(paths.socket_path, "/run/tmux-sidecar/cbf29ce484222325.sock");
    assert_eq!(paths.lock_path, "/run/tmux-sidecar/cbf29ce484222325.lock");
    assert_eq!(paths.pid_path, "/run/tmux-sidecar/cbf29ce484222325.pid");
    let other = SidecarPaths::from_runtime_dir("a", Some("/run"));
    assert_eq!(other.socket_path, "/run/tmux-sidecar/af63dc4c8601ec8c.sock");
}

#[test]
fn sidecar_paths_prefer_an_absolute_xdg_runtime_dir() {
    let with_xdg = SidecarPaths::from_tmux_socket_path("/tmp/tmux-1000/default", Some("/run/user/1000"));
    assert_eq!(with_xdg.runtime_dir, "/run/user/1000/tmux-sidecar");
    let relative = SidecarPaths::from_tmux_socket_path("/tmp/tmux-1000/default", Some("relative"));
    assert_eq!(relative.runtime_dir, "/tmp/tmux-1000/tmux-sidecar");
    let unset = SidecarPaths::from_tmux_socket_path("/tmp/tmux-1000/default", None);
    assert_eq!(unset.runtime_dir, "/tmp/tmux-1000/tmux-sidecar");
}

#[test]
fn projection_state_counts_active_bell_alerts() {
    let state = ProjectionState {
        tmux_socket_path: String::from("/tmp/tmux/default"),
        sessions: vec![
            ProjectionSession {
                id: String::from("$1"),
                name: String::from("work"),
                attached_count: 1,
                active_window_id: Some(String::from("@1")),
                windows: vec![
                    pwindow("@1", 0, "shell", true, 0, true, false, false),
                    pwindow("@2", 1, "tests", false, 0, false, true, false),
                ],
            },
            ProjectionSession {
                id: String::from("$2"),
                name: String::from("notes"),
                attached_count: 0,
                active_window_id: Some(String::from("@3")),
                windows: vec![pwindow("@3", 0, "scratch", false, 0, false, true, true)],
            },
        ],
        clients: Vec::new(),
    };

    assert_eq!(state.active_alert_count(), 2);
}

fn linked_projection() -> ProjectionState {
    ProjectionState {
        tmux_socket_path: String::from("/socket"),
        sessions: vec![
            ProjectionSession {
                id: String::from("$1"),
                name: String::from("current"),
                attached_count: 1,
                active_window_id: Some(String::from("@shared")),
                windows: vec![pwindow("@shared", 0, "shared", true, 10, false, false, false)],
            },
            ProjectionSession {
                id: String::from("$2"),
                name: String::from("other"),
                attached_count: 0,
                active_window_id: Some(String::from("@20")),
                windows: vec![
                    pwindow("@20", 0, "own", true, 11, false, false, false),
                    pwindow("@shared", 5, "shared", false, 12, false, true, false),
                ],
            },
        ],
        clients: vec![ProjectionClient {
            name: String::from("client-1"),
            session_id: String::from("$1"),
            current_window_id: Some(String::from("@shared")),
            activity: 10,
            tty: String::from("/dev/pts/1"),
        }],
    }
}

#[test]
fn linked_windows_round_trip_as_session_local_winlinks() {
    let projection = linked_projection();

    let domain = projection.clone().into_domain_state();

    assert!(domain.winlinks.iter().any(|(key, _)| *key == WinlinkKey::new("$1", "@shared")));
    assert!(domain.winlinks.iter().any(|(key, _)| *key == WinlinkKey::new("$2", "@shared")));
    assert_eq!(ProjectionState::from_domain(&domain), projection);
}

#[test]
fn domain_alert_count_matches_projection_alert_count() {
    let projection = linked_projection();
    let domain = projection.clone().into_domain_state();
    assert_eq!(domain.active_alert_count(), projection.active_alert_count());
    assert_eq!(projection.active_alert_count(), 1);
}

#[test]
fn query_alerts_writes_plain_count_for_status_lines() {
    let args = QueryArgs { command: Some(QueryCommand::Alerts), ..QueryArgs::default() };
    let state = ProjectionState {
        tmux_socket_path: String::from("/tmp/tmux/default"),
        sessions: vec![ProjectionSession {
            id: String::from("$1"),
            name: String::from("work"),
            attached_count: 1,
            active_window_id: None,
            windows: vec![
                pwindow("@1", 0, "shell", true, 0, true, false, false),
                pwindow("@2", 1, "tests", false, 0, false, true, false),
            ],
        }],
        clients: Vec::new(),
    };

    let output = write_result(&args, &state);

    assert_eq!(output.as_deref(), Some("1\n"));
}

#[test]
fn query_defaults_to_the_alert_count_and_leaves_full_state_to_the_caller() {
    let state = ProjectionState::default();
    assert_eq!(write_result(&QueryArgs::default(), &state).as_deref(), Some("0\n"));
    let all = QueryArgs { command: Some(QueryCommand::All), ..QueryArgs::default() };
    assert_eq!(write_result(&all, &state), None);
}
