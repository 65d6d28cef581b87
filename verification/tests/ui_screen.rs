use tmux_sidecar::domain::rows::Focus;
use tmux_sidecar::domain::state::{ClientName, WindowAlert};
use tmux_sidecar::input::InputBuffer;
use tmux_sidecar::model::{AppState, Client, Mode, Session, TmuxState, Window};
use tmux_sidecar::ui::{header_texts, key_hints, GlyphMode, Glyphs, SpanRole, TreeView};

/// The texts that the view lays out, one screen line each: the header, the
/// tree (or the loading note) and the footer hints.
fn screen_text(state: &AppState) -> String {
    let glyphs = Glyphs::from_mode(GlyphMode::Ascii);
    let (title, text) = header_texts(state, glyphs);
    let mut lines = vec![format!("{title}{text}")];
    if state.is_tree_loading() {
        lines.push(String::from("Loading tmux tree..."));
    } else {
        for line in TreeView::from_state(state, glyphs).lines {
            lines.push(line.spans.iter().map(|span| span.text.as_str()).collect());
        }
    }
    lines.push(key_hints(state).to_string());
    lines.join("\n")
}

fn sample_state() -> AppState {
    AppState {
        tmux: TmuxState {
            sessions: vec![Session {
                id: "$1".to_string(),
                name: "work".to_string(),
                attached_count: 1,
                active_window_id: Some("@11".to_string()),
                windows: vec![
                    Window {
                        id: "@10".to_string(),
                        index: 0,
                        name: "shell".to_string(),
                        active: false,
                        flags: String::new(),
                        alert: WindowAlert::Clear,
                        activity: 0,
                        activity_flag: false,
                        silence_flag: false,
                    },
                    Window {
                        id: "@11".to_string(),
                        index: 1,
                        name: "editor".to_string(),
                        active: true,
                        flags: "*!".to_string(),
                        alert: WindowAlert::Bell,
                        activity: 0,
                        activity_flag: false,
                        silence_flag: false,
                    },
                ],
            }],
            clients: vec![Client {
                name: ClientName("client-1".to_string()),
                session_id: "$1".to_string(),
                current_window_id: Some("@11".to_string()),
                activity: 42,
                tty: "/dev/pts/1".to_string(),
            }],
        },
        target_client: Some(ClientName("client-1".to_string())),
        ..AppState::default()
    }
}

#[test]
fn loading_snapshot_renders_placeholder_tree_and_footer() {
    let state = AppState { target_client: Some(ClientName("client-1".to_string())), ..AppState::default() };
    let output = screen_text(&state);

    assert!(output.contains("target client-1"));
    assert!(output.contains("active loading..."));
    assert!(output.contains("Loading tmux tree..."));
}

#[test]
fn new_session_renders_after_session_rows() {
    let output = screen_text(&sample_state());
    let lines: Vec<_> = output.lines().collect();
    let new_window = lines.iter().position(|line| line.contains("+-- [+] new window")).expect("expected new window row");
    let new_session =
        lines.iter().position(|line| line.contains("[+] new session")).expect("expected new session row");

    assert!(new_window < new_session);
    assert_eq!(lines[new_session].trim(), "> [+] new session");
}

#[test]
fn jump_render_snapshot_shows_labels_and_jump_footer() {
    let mut state = sample_state();
    state.navigation.jumping = true;

    let output = screen_text(&state);

    assert!(output.contains("aork (1 attached)"));
    assert!(output.contains("|-- s shell"));
    assert!(output.contains("Jump: type label to switch  invalid key cancels"));
}

#[test]
fn inline_edit_snapshot_shows_cursor_and_footer_hints() {
    let mut state = sample_state();
    state.focus = Focus::window("$1", "@11");
    state.mode = Mode::RenameWindow {
        session_id: "$1".to_string(),
        id: "@11".to_string(),
        original_name: "editor".to_string(),
        input: InputBuffer::from_text("editor"),
    };

    let output = screen_text(&state);

    assert!(output.contains("[...] rename window: editor|"));
    assert!(output.contains("Enter accept  Esc revert  Ctrl+u clear"));
}

#[test]
fn create_session_snapshot_shows_precreate_prompt_and_footer_hints() {
    let mut state = sample_state();
    state.focus = Focus::CreateSession;
    state.mode = Mode::CreateSessionName { input: InputBuffer::new() };

    let output = screen_text(&state);

    assert!(output.contains("[...] new session name: |"));
    assert!(output.contains("Enter create  Esc cancel  Ctrl+u clear"));
}

#[test]
fn session_rows_do_not_render_active_badges() {
    let output = screen_text(&sample_state());
    let session_line = output.lines().find(|line| line.contains("work (1 attached)")).expect("expected session row");

    assert!(!session_line.contains("* active"));
    assert!(!session_line.contains("! alert"));
}

#[test]
fn alerted_window_snapshot_shows_active_and_alert_badges_together() {
    let mut state = sample_state();
    state.focus = Focus::window("$1", "@11");

    let output = screen_text(&state);
    let alert_line = output.lines().find(|line| line.contains("|-- 1 editor")).expect("expected editor row");

    assert!(alert_line.contains("* active"));
    assert!(alert_line.contains("! alert"));
}

#[test]
fn render_marks_only_target_clients_visible_window_active() {
    let mut state = sample_state();
    state.tmux.sessions.push(Session {
        id: "$2".to_string(),
        name: "notes".to_string(),
        attached_count: 1,
        active_window_id: Some("@20".to_string()),
        windows: vec![Window {
            id: "@20".to_string(),
            index: 0,
            name: "scratch".to_string(),
            active: true,
            flags: String::new(),
            alert: WindowAlert::Clear,
            activity: 0,
            activity_flag: false,
            silence_flag: false,
        }],
    });
    state.tmux.clients = vec![Client {
        name: ClientName("client-2".to_string()),
        session_id: "$2".to_string(),
        current_window_id: Some("@20".to_string()),
        activity: 99,
        tty: "/dev/pts/2".to_string(),
    }];
    state.target_client = Some(ClientName("client-2".to_string()));

    let output = screen_text(&state);
    let work_line = output.lines().find(|line| line.contains("work (1 attached)")).expect("expected work session row");
    let editor_line = output.lines().find(|line| line.contains("|-- 1 editor")).expect("expected editor row");
    let notes_line = output.lines().find(|line| line.contains("notes (1 attached)")).expect("expected notes session row");
    let scratch_line = output.lines().find(|line| line.contains("|-- 0 scratch")).expect("expected scratch row");

    assert!(!work_line.contains("* active"));
    assert!(!editor_line.contains("* active"));
    assert!(!notes_line.contains("* active"));
    assert!(scratch_line.contains("* active"));
    assert!(output.contains("active notes:0.scratch"));
}

#[test]
fn badge_like_window_names_carry_no_badge() {
    let mut state = sample_state();
    state.tmux.sessions[0].windows[0].name = String::from("shell * active [1] ! alert");
    let view = TreeView::from_state(&state, Glyphs::from_mode(GlyphMode::Ascii));
    let roles = |i: usize| view.lines[i].spans.iter().map(|span| span.role).collect::<Vec<_>>();
    let shell = (0..view.lines.len())
        .find(|&i| view.lines[i].spans.iter().any(|span| span.text.contains("shell")))
        .expect("shell row");
    let editor = (0..view.lines.len())
        .find(|&i| view.lines[i].spans.iter().any(|span| span.text.contains("editor")))
        .expect("editor row");
    assert!(!roles(shell).contains(&SpanRole::BadgeActive));
    assert!(!roles(shell).contains(&SpanRole::BadgeAlert));
    assert!(roles(editor).contains(&SpanRole::BadgeActive));
    assert!(roles(editor).contains(&SpanRole::BadgeAlert));
    let focused: Vec<usize> = (0..view.lines.len())
        .filter(|&i| view.lines[i].spans[0].role == SpanRole::MarkerFocus)
        .collect();
    assert!(focused.len() <= 1);
    for i in 0..view.lines.len() {
        assert!(!roles(i)[1..].contains(&SpanRole::MarkerFocus));
    }
}
