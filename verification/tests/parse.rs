use tmux_sidecar::tmux::parse::{
    parse_clients, parse_sessions, parse_windows, split_fields, ParseError, FIELD_SEPARATOR,
};

#[test]
fn splits_fields_on_unit_separator() {
    let line = format!("a{sep}b{sep}c", sep = FIELD_SEPARATOR);

    assert_eq!(split_fields(&line), vec!["a", "b", "c"]);
}

#[test]
fn parses_sessions_successfully() {
    let raw = format!("$1{sep}dev{sep}2{sep}@1\n", sep = FIELD_SEPARATOR);

    let sessions = parse_sessions(&raw).expect("sessions should parse");

    assert_eq!(sessions.len(), 1);
    assert_eq!(sessions[0].id, "$1");
    assert_eq!(sessions[0].name, "dev");
    assert_eq!(sessions[0].attached_count, 2);
    assert_eq!(sessions[0].active_window_id.as_deref(), Some("@1"));
}

#[test]
fn rejects_session_with_wrong_field_count() {
    let raw = format!("$1{sep}dev{sep}2\n", sep = FIELD_SEPARATOR);

    let error = parse_sessions(&raw).expect_err("parser must reject malformed output");

    assert!(matches!(
        error,
        ParseError::WrongFieldCount {
            record: "session",
            expected: 4,
            actual: 3,
            ..
        }
    ));
}

#[test]
fn parses_windows_and_alert_flags() {
    let raw = format!(
        "$1{sep}dev{sep}@9{sep}4{sep}editor{sep}1{sep}!#*\n",
        sep = FIELD_SEPARATOR
    );

    let windows = parse_windows(&raw).expect("windows should parse");

    assert_eq!(windows.len(), 1);
    assert_eq!(windows[0].id, "@9");
    assert_eq!(windows[0].index, 4);
    assert!(windows[0].active);
    assert!(windows[0].flags.has_activity);
    assert!(windows[0].flags.has_bell);
    assert!(windows[0].flags.has_alert());
}

#[test]
fn rejects_window_with_non_boolean_active_value() {
    let raw = format!(
        "$1{sep}dev{sep}@9{sep}4{sep}editor{sep}yes{sep}\n",
        sep = FIELD_SEPARATOR
    );

    let error = parse_windows(&raw).expect_err("parser must reject invalid active flag");

    assert!(matches!(
        error,
        ParseError::InvalidBoolean {
            field: "window_active",
            value
        } if value == "yes"
    ));
}

#[test]
fn rejects_client_with_invalid_activity() {
    let raw = format!(
        "client-1{sep}$1{sep}@9{sep}not-a-number{sep}/dev/pts/2\n",
        sep = FIELD_SEPARATOR
    );

    let error = parse_clients(&raw).expect_err("parser must reject invalid client activity");

    assert!(matches!(
        error,
        ParseError::InvalidInteger {
            field: "client_activity",
            value
        } if value == "not-a-number"
    ));
}

#[test]
fn parses_clients_with_current_window() {
    let raw = format!(
        "client-1{sep}$1{sep}@9{sep}42{sep}/dev/pts/2\n",
        sep = FIELD_SEPARATOR
    );

    let clients = parse_clients(&raw).expect("clients should parse");

    assert_eq!(clients.len(), 1);
    assert_eq!(clients[0].name.0, "client-1");
    assert_eq!(clients[0].session_id, "$1");
    assert_eq!(clients[0].current_window_id.as_deref(), Some("@9"));
    assert_eq!(clients[0].activity, 42);
}
