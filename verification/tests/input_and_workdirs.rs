use tmux_sidecar::input::InputBuffer;
use tmux_sidecar::server::workdirs::{choose_workdir, WorkdirCandidate};

fn candidate(window_id: &str, window_index: u32, path: &str, observed_order: u64) -> WorkdirCandidate {
    WorkdirCandidate {
        window_id: window_id.to_owned(),
        window_index: Some(window_index),
        path: path.to_owned(),
        observed_order,
    }
}

#[test]
fn inserting_a_wide_char_moves_the_byte_cursor_by_its_width() {
    let mut input = InputBuffer::from_text("ab");
    assert_eq!(input.cursor(), 2);
    assert!(input.insert_char('é'));
    assert_eq!(input.as_str(), "abé");
    assert_eq!(input.cursor(), 4);
    assert!(input.insert_char('語'));
    assert_eq!(input.cursor(), 7);
    assert!(!input.insert_char('\n'));
    assert!(!input.insert_char('\r'));
    assert_eq!(input.as_str(), "abé語");
    assert_eq!(input.cursor(), 7);
}

#[test]
fn inserting_in_the_middle_keeps_the_text_around_the_cursor() {
    let mut input = InputBuffer::from_text("añb");
    assert!(input.move_left());
    assert_eq!(input.cursor(), 3);
    assert!(input.insert_char('x'));
    assert_eq!(input.as_str(), "añxb");
    assert_eq!(input.cursor(), 4);
}

#[test]
fn workdir_shared_by_most_windows_wins() {
    let candidates = vec![
        candidate("@1", 0, "/a", 1),
        candidate("@2", 1, "/b", 9),
        candidate("@3", 2, "/a", 2),
    ];
    assert_eq!(choose_workdir(None, &candidates), Some(String::from("/a")));
}

#[test]
fn workdir_ties_go_to_the_latest_then_lowest_index_then_first_path() {
    let later = vec![candidate("@1", 0, "/a", 1), candidate("@2", 1, "/b", 5)];
    assert_eq!(choose_workdir(None, &later), Some(String::from("/b")));
    let lower_index = vec![candidate("@1", 4, "/a", 3), candidate("@2", 1, "/b", 3)];
    assert_eq!(choose_workdir(None, &lower_index), Some(String::from("/b")));
    let first_path = vec![candidate("@1", 2, "/b", 3), candidate("@2", 2, "/a", 3)];
    assert_eq!(choose_workdir(None, &first_path), Some(String::from("/a")));
}

#[test]
fn active_window_workdir_wins_over_the_top_score() {
    let candidates = vec![
        candidate("@1", 0, "/a", 1),
        candidate("@2", 1, "/a", 2),
        candidate("@3", 2, "/c", 0),
    ];
    assert_eq!(choose_workdir(Some("@3"), &candidates), Some(String::from("/c")));
    assert_eq!(choose_workdir(Some("@9"), &candidates), Some(String::from("/a")));
    assert_eq!(choose_workdir(None, &vec![candidate("@1", 0, "", 1)]), None);
}
