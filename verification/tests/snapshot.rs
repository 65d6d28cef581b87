use tmux_sidecar::domain::state::{ClientName, WindowAlert};
use tmux_sidecar::tmux::parse::{ClientRecord, SessionRecord, WindowFlags, WindowRecord, FIELD_SEPARATOR};
use tmux_sidecar::tmux::snapshot::{
    assemble_snapshot, client_records_from_output, session_records_from_output, window_records_from_output,
};
use tmux_sidecar::tmux::TmuxError;

fn session_record(id: &str, name: &str, attached_count: u32) -> SessionRecord {
    SessionRecord { id: id.to_owned(), name: name.to_owned(), attached_count, active_window_id: None }
}

fn window_record(session_id: &str, session_name: &str, id: &str, index: u32, active: bool, flags: &str) -> WindowRecord {
    WindowRecord {
        session_id: session_id.to_owned(),
        session_name: session_name.to_owned(),
        id: id.to_owned(),
        index,
        name: format!("win{index}"),
        active,
        flags: WindowFlags::from_raw(flags.to_owned()),
    }
}

fn client_record(name: &str, session_id: &str, activity: u64) -> ClientRecord {
    ClientRecord {
        name: ClientName(name.to_owned()),
        session_id: session_id.to_owned(),
        current_window_id: None,
        activity,
        tty: format!("/dev/pts/{activity}"),
    }
}

#[test]
fn snapshot_assembly_sorts_windows_and_fills_session_details() {
    let sessions = vec![session_record("$1", "", 0), session_record("$2", "notes", 5)];
    let windows = vec![
        window_record("$1", "work", "@3", 2, false, ""),
        window_record("$1", "ignored", "@1", 0, true, "*"),
        window_record("$2", "notes", "@9", 1, false, "!"),
        window_record("$1", "work", "@2", 1, false, "#"),
    ];
    let clients = vec![client_record("c1", "$1", 1), client_record("c2", "$1", 2), client_record("c1", "$1", 3), client_record("c3", "$9", 4)];

    let snapshot = assemble_snapshot(&sessions, &windows, clients.clone()).expect("snapshot assembles");

    let first = &snapshot.sessions[0];
    assert_eq!(first.name, "work");
    assert_eq!(first.active_window_id.as_deref(), Some("@1"));
    let ids: Vec<_> = first.windows.iter().map(|window| window.id.as_str()).collect();
    assert_eq!(ids, vec!["@1", "@2", "@3"]);
    let attached: Vec<_> = first.attached_clients.iter().map(|client| client.0.as_str()).collect();
    assert_eq!(attached, vec!["c1", "c2"]);
    assert_eq!(snapshot.sessions[1].name, "notes");
    assert!(snapshot.sessions[1].attached_clients.is_empty());
    assert_eq!(snapshot.clients, clients);

    let state = snapshot.into_state();
    assert_eq!(state.sessions[0].attached_count, 2);
    assert_eq!(state.sessions[1].attached_count, 5);
    assert_eq!(state.sessions[1].windows[0].alert, WindowAlert::Bell);
    assert!(state.sessions[0].windows[1].activity_flag);
    assert_eq!(state.sessions[0].windows[1].flags, "#");
    assert_eq!(state.clients.len(), 4);
}

#[test]
fn snapshot_assembly_keeps_equal_indexes_in_list_order() {
    let sessions = vec![session_record("$1", "work", 0)];
    let windows = vec![
        window_record("$1", "work", "@b", 1, false, ""),
        window_record("$1", "work", "@a", 1, false, ""),
        window_record("$1", "work", "@c", 0, false, ""),
    ];
    let snapshot = assemble_snapshot(&sessions, &windows, Vec::new()).expect("snapshot assembles");
    let ids: Vec<_> = snapshot.sessions[0].windows.iter().map(|window| window.id.as_str()).collect();
    assert_eq!(ids, vec!["@c", "@b", "@a"]);
}

#[test]
fn snapshot_assembly_rejects_windows_of_unknown_sessions() {
    let sessions = vec![session_record("$1", "work", 0)];
    let windows = vec![window_record("$1", "work", "@1", 0, true, ""), window_record("$7", "gone", "@5", 0, true, "")];

    let error = assemble_snapshot(&sessions, &windows, Vec::new()).expect_err("unknown session");

    assert_eq!(error, TmuxError::SnapshotInvariant(String::from("window @5 references unknown session $7")));
}

#[test]
fn empty_session_listing_means_no_sessions() {
    assert_eq!(session_records_from_output("\n"), Err(TmuxError::NoSessions));
    let raw = format!("$1{sep}dev{sep}2{sep}@1\n", sep = FIELD_SEPARATOR);
    assert_eq!(session_records_from_output(&raw).expect("parses").len(), 1);
}

#[test]
fn listing_parse_errors_name_their_command() {
    let bad = "only-one-field\n";
    assert!(matches!(session_records_from_output(bad), Err(TmuxError::Parse { command: "list-sessions", .. })));
    assert!(matches!(window_records_from_output(bad), Err(TmuxError::Parse { command: "list-windows", .. })));
    assert!(matches!(client_records_from_output(bad), Err(TmuxError::Parse { command: "list-clients", .. })));
    assert_eq!(window_records_from_output("").expect("empty listing"), Vec::new());
}
