use tmux_sidecar::ui::{activity_animation_frame, centered_rect, glyph_mode_from_settings, Area};
use tmux_sidecar::domain::rows::Focus;
use tmux_sidecar::domain::state::{ClientName, WindowAlert};
use tmux_sidecar::input::InputBuffer;
use tmux_sidecar::model::{AppState, Client, Mode, Session, TmuxState, Window};
use tmux_sidecar::ui::{
    active_target_label, key_hints, tree_index_for_terminal_row, GlyphMode, Glyphs, RenderOptions, RowStyle, SpanRole,
    TreeView,
};

fn window(id: &str, index: u32, name: &str, active: bool, alert: WindowAlert) -> Window {
    Window {
        id: id.to_string(),
        index,
        name: name.to_string(),
        active,
        flags: String::new(),
        alert,
        activity: 0,
        activity_flag: false,
        silence_flag: false,
    }
}

fn sample_state() -> AppState {
    let tmux = TmuxState {
        sessions: vec![Session {
            id: String::from("$1"),
            name: String::from("work"),
            attached_count: 1,
            active_window_id: Some(String::from("@11")),
            windows: vec![window("@10", 0, "shell", false, WindowAlert::Clear), window("@11", 1, "editor", true, WindowAlert::Bell)],
        }],
        clients: vec![Client {
            name: ClientName(String::from("client-1")),
            session_id: String::from("$1"),
            current_window_id: Some(String::from("@11")),
            activity: 10,
            tty: String::from("/dev/pts/1"),
        }],
    };
    let mut state = AppState::from_tmux(tmux);
    state.target_client = Some(ClientName(String::from("client-1")));
    state
}

fn line_text(view: &TreeView, index: usize) -> String {
    view.lines[index].spans.iter().map(|span| span.text.as_str()).collect()
}

#[test]
fn tree_lines_show_markers_labels_and_badges() {
    let state = sample_state();
    let view = TreeView::from_state(&state, Glyphs::from_mode(GlyphMode::Ascii));

    assert_eq!(view.lines.len(), 5);
    assert_eq!(line_text(&view, 0), "  work (1 attached)");
    assert_eq!(line_text(&view, 1), "  |-- 0 shell");
    assert_eq!(line_text(&view, 2), "  |-- 1 editor * active [1] ! alert");
    assert_eq!(line_text(&view, 3), "  +-- [+] new window");
    assert_eq!(line_text(&view, 4), "> [+] new session");
    assert_eq!(view.lines[4].style, RowStyle::Focused);
    assert_eq!(view.lines[0].style, RowStyle::Base);
    assert_eq!(view.lines[2].spans.last().map(|span| span.role), Some(SpanRole::BadgeAlert));
}

#[test]
fn inline_edits_show_the_cursor_and_disable_other_rows() {
    let mut state = sample_state();
    state.focus = Focus::window("$1", "@11");
    state.mode = Mode::RenameWindow {
        session_id: "$1".to_string(),
        id: "@11".to_string(),
        original_name: "editor".to_string(),
        input: InputBuffer::from_text("editor"),
    };

    let view = TreeView::from_state(&state, Glyphs::from_mode(GlyphMode::Ascii));

    assert_eq!(line_text(&view, 2), "> |-- [...] rename window: editor| * active [1] ! alert");
    assert_eq!(view.lines[2].style, RowStyle::InlineEditFocused);
    assert_eq!(view.lines[0].style, RowStyle::Disabled);
    assert_eq!(key_hints(&state), "Enter accept  Esc revert  Ctrl+u clear");

    state.focus = Focus::CreateSession;
    state.mode = Mode::CreateSessionName { input: InputBuffer::new() };
    let view = TreeView::from_state(&state, Glyphs::from_mode(GlyphMode::Ascii));
    assert_eq!(line_text(&view, 4), "> [...] new session name: |");
    assert_eq!(key_hints(&state), "Enter create  Esc cancel  Ctrl+u clear");
}

#[test]
fn key_hints_follow_loading_jumping_and_modes() {
    let loading = AppState { target_client: Some(ClientName("client-1".to_string())), ..AppState::default() };
    assert_eq!(key_hints(&loading), "Loading tmux tree...");
    let mut state = sample_state();
    assert_eq!(
        key_hints(&state),
        "Enter switch  1-9/0 alert  n session  s jump  c window  gg/G  r rename  x close  ? help  q quit"
    );
    state.navigation.jumping = true;
    assert_eq!(key_hints(&state), "Jump: type label to switch  invalid key cancels");
    state.navigation.jumping = false;
    state.mode = Mode::Help;
    assert_eq!(key_hints(&state), "Esc close help  ? close help  q quit");
}

#[test]
fn header_describes_the_target_clients_window() {
    let state = sample_state();
    assert_eq!(active_target_label(&state), "work:1.editor");
    let loading = AppState { target_client: Some(ClientName("client-1".to_string())), ..AppState::default() };
    assert_eq!(active_target_label(&loading), "loading...");
    assert_eq!(active_target_label(&AppState::default()), "none");
}

#[test]
fn terminal_rows_below_the_header_map_to_tree_rows() {
    assert_eq!(tree_index_for_terminal_row(0), None);
    assert_eq!(tree_index_for_terminal_row(1), Some(0));
    assert_eq!(tree_index_for_terminal_row(7), Some(6));
}

#[test]
fn ascii_glyphs_and_render_options() {
    let glyphs = Glyphs::from_mode(GlyphMode::Ascii);
    assert_eq!(glyphs.tree_branch, "|--");
    assert_eq!(glyphs.create, "[+]");
    assert_eq!(Glyphs::from_mode(GlyphMode::Nerd).focus, "▶");
    let options = RenderOptions::ascii_with_animation_frame(2);
    assert_eq!(options.glyph_mode, GlyphMode::Ascii);
    assert_eq!(options.activity_animation_frame, 2);
    assert_eq!(RenderOptions::ascii().activity_animation_frame, 0);
}

#[test]
fn header_texts_name_the_target_and_its_window() {
    let state = sample_state();
    let (title, text) = tmux_sidecar::ui::header_texts(&state, Glyphs::from_mode(GlyphMode::Ascii));
    assert_eq!(title, " tmux tmux-sidecar ");
    assert_eq!(text, "| target client-1 | active work:1.editor");
}

#[test]
fn help_modal_lists_keys_and_legend() {
    let lines = tmux_sidecar::ui::modal_lines(GlyphMode::Ascii);
    let texts: Vec<String> = lines.iter().map(|line| line.iter().map(|span| span.text.as_str()).collect()).collect();
    assert!(texts.contains(&String::from("gg / G          first / last row")));
    assert!(texts.contains(&String::from("> focused   * active   ! alert")));
    assert!(texts.contains(&String::from("[...] inline-edit")));
    assert_eq!(texts.last().map(String::as_str), Some("Failed actions refresh from tmux."));
}

#[test]
fn glyph_settings_and_animation_frames() {
    assert_eq!(glyph_mode_from_settings(Some("YES"), None), GlyphMode::Ascii);
    assert_eq!(glyph_mode_from_settings(Some("0"), Some("Ascii")), GlyphMode::Ascii);
    assert_eq!(glyph_mode_from_settings(Some("off"), Some("nerd")), GlyphMode::Nerd);
    assert_eq!(glyph_mode_from_settings(None, None), GlyphMode::Nerd);
    assert_eq!(activity_animation_frame(0), 0);
    assert_eq!(activity_animation_frame(400), 1);
    assert_eq!(activity_animation_frame(1200), 0);
    let area = Area { x: 0, y: 0, width: 100, height: 30 };
    assert_eq!(centered_rect(area, 72, 20), Area { x: 14, y: 5, width: 72, height: 20 });
    let small = Area { x: 2, y: 1, width: 40, height: 10 };
    assert_eq!(centered_rect(small, 72, 20), Area { x: 2, y: 1, width: 40, height: 10 });
}

#[test]
fn jump_mode_draws_row_labels_over_the_first_character() {
    let mut state = sample_state();
    state.navigation.jumping = true;
    let view = TreeView::from_state(&state, Glyphs::from_mode(GlyphMode::Ascii));

    assert_eq!(line_text(&view, 0), "  aork (1 attached)");
    assert_eq!(line_text(&view, 1), "  |-- s shell");
    assert_eq!(line_text(&view, 2), "  |-- d editor * active [1] ! alert");
    assert_eq!(line_text(&view, 3), "  +-- f+] new window");
    assert_eq!(line_text(&view, 4), "> g+] new session");
    assert_eq!(view.lines[0].spans[2].role, SpanRole::JumpLabel);
    assert_eq!(view.lines[0].spans[2].text, "a");
}

#[test]
fn the_first_ten_alerts_are_numbered_in_row_order() {
    let windows: Vec<Window> = (0..12u32)
        .map(|index| window(&format!("@{index}"), index, &format!("w{index}"), false, WindowAlert::Bell))
        .collect();
    let tmux = TmuxState {
        sessions: vec![Session {
            id: String::from("$1"),
            name: String::from("work"),
            attached_count: 0,
            active_window_id: None,
            windows,
        }],
        clients: Vec::new(),
    };
    let state = AppState::from_tmux(tmux);
    let view = TreeView::from_state(&state, Glyphs::from_mode(GlyphMode::Ascii));

    assert_eq!(line_text(&view, 1), "  |-- 0 w0 [1] ! alert");
    assert_eq!(line_text(&view, 9), "  |-- 8 w8 [9] ! alert");
    assert_eq!(line_text(&view, 10), "  |-- 9 w9 [0] ! alert");
    assert_eq!(line_text(&view, 11), "  |-- 10 w10 ! alert");
    assert_eq!(line_text(&view, 12), "  |-- 11 w11 ! alert");

    let mut state = state;
    assert!(state.focus_alert_jump_label('0'));
    assert_eq!(state.focus, Focus::window("$1", "@9"));
    assert!(state.focus_alert_jump_label('1'));
    assert_eq!(state.focus, Focus::window("$1", "@0"));
}
