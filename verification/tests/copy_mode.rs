use zmux::copy_mode::model::{
    CopyModeState, CopyPoint, CopySnapshotSource, PaneTextSnapshot, SnapshotLine,
};
use zmux::copy_mode::position::rebuild_wrapped;
use zmux::copy_mode::refresh_snapshot;
use zmux::copy_mode::snapshot::{select_snapshot_for_copy_mode, snapshot_from_screen};
use zmux::copy_mode::words::{find_next_word_start, find_prev_word_start, find_word_end};

fn snapshot(lines: &[&str]) -> PaneTextSnapshot {
    PaneTextSnapshot {
        lines: lines
            .iter()
            .map(|line| SnapshotLine {
                text: (*line).to_string(),
                terminated: true,
            })
            .collect(),
        cursor_line: lines.len().saturating_sub(1),
        cursor_col: lines
            .last()
            .map(|line| line.chars().count())
            .unwrap_or(0),
    }
}

#[test]
fn next_word_start_skips_spaces_and_blank_lines() {
    let snapshot = snapshot(&["alpha  beta", "/usr/bin", "", "tail"]);
    assert_eq!(
        find_next_word_start(&snapshot, CopyPoint { line: 0, col: 2 }),
        Some(CopyPoint { line: 0, col: 7 })
    );
    assert_eq!(
        find_next_word_start(&snapshot, CopyPoint { line: 1, col: 7 }),
        Some(CopyPoint { line: 3, col: 0 })
    );
}

#[test]
fn prev_word_start_matches_vim_style_backtracking() {
    let snapshot = snapshot(&["alpha  beta", "/usr/bin", "", "tail"]);
    assert_eq!(
        find_prev_word_start(&snapshot, CopyPoint { line: 0, col: 3 }),
        Some(CopyPoint { line: 0, col: 0 })
    );
    assert_eq!(
        find_prev_word_start(&snapshot, CopyPoint { line: 0, col: 7 }),
        Some(CopyPoint { line: 0, col: 0 })
    );
    assert_eq!(
        find_prev_word_start(&snapshot, CopyPoint { line: 3, col: 0 }),
        Some(CopyPoint { line: 1, col: 5 })
    );
}

#[test]
fn word_end_handles_punctuation_and_whitespace() {
    let snapshot = snapshot(&["alpha  beta", "/usr/bin", "", "tail"]);
    assert_eq!(
        find_word_end(&snapshot, CopyPoint { line: 0, col: 1 }),
        Some(CopyPoint { line: 0, col: 4 })
    );
    assert_eq!(
        find_word_end(&snapshot, CopyPoint { line: 0, col: 5 }),
        Some(CopyPoint { line: 0, col: 10 })
    );
    assert_eq!(
        find_word_end(&snapshot, CopyPoint { line: 1, col: 0 }),
        Some(CopyPoint { line: 1, col: 3 })
    );
}

#[test]
fn parser_snapshot_tracks_wrapped_prompt_cursor() {
    let mut parser = vt100::Parser::new(3, 5, 0);
    parser.process(b"hello world");
    let snapshot = snapshot_from_screen(parser.screen_mut());
    assert_eq!(snapshot.lines.len(), 1);
    assert_eq!(snapshot.lines[0].text, "hello world");
    assert_eq!(snapshot.cursor_line, 0);
    assert_eq!(snapshot.cursor_col, 11);
}

#[test]
fn parser_snapshot_preserves_scrollback_history() {
    let mut parser = vt100::Parser::new(2, 8, 10);
    parser.process(b"older\r\nprompt\r\n$");
    let snapshot = snapshot_from_screen(parser.screen_mut());
    assert_eq!(snapshot.lines.len(), 3);
    assert_eq!(snapshot.lines[0].text, "older");
    assert_eq!(snapshot.lines[1].text, "prompt");
    assert_eq!(snapshot.lines[2].text, "$");
    assert_eq!(snapshot.cursor_line, 2);
    assert_eq!(snapshot.cursor_col, 1);
}

#[test]
fn parser_snapshot_trims_blank_tail_below_cursor() {
    let mut parser = vt100::Parser::new(5, 20, 10);
    parser.process(b"prompt\r\n$");
    let snapshot = snapshot_from_screen(parser.screen_mut());
    assert_eq!(snapshot.lines.len(), 2);
    assert_eq!(snapshot.lines[0].text, "prompt");
    assert_eq!(snapshot.lines[1].text, "$");
    assert_eq!(snapshot.cursor_line, 1);
    assert_eq!(snapshot.cursor_col, 1);
}

#[test]
fn parser_height_shrink_can_leave_only_first_visible_rows() {
    let mut parser = vt100::Parser::new(60, 80, 2000);
    let mut output = String::new();
    for i in 0..=50 {
        output.push_str(&i.to_string());
        output.push_str("\r\n");
    }
    parser.process(output.as_bytes());
    parser.screen_mut().set_size(26, 80);
    let snapshot = snapshot_from_screen(parser.screen_mut());
    assert_eq!(snapshot.lines.len(), 26);
    assert_eq!(snapshot.lines[0].text, "0");
    assert_eq!(snapshot.lines[25].text, "25");
}

#[test]
fn copy_mode_prefers_parser_snapshot_on_normal_screen() {
    let parser_snapshot = PaneTextSnapshot {
        lines: vec![
            SnapshotLine {
                text: "older".to_string(),
                terminated: true,
            },
            SnapshotLine {
                text: "prompt".to_string(),
                terminated: true,
            },
            SnapshotLine {
                text: "$".to_string(),
                terminated: false,
            },
        ],
        cursor_line: 2,
        cursor_col: 1,
    };
    let buffer_snapshot = PaneTextSnapshot {
        lines: vec![
            SnapshotLine {
                text: "older".to_string(),
                terminated: true,
            },
            SnapshotLine {
                text: "prompt".to_string(),
                terminated: true,
            },
            SnapshotLine {
                text: "$".to_string(),
                terminated: true,
            },
            SnapshotLine {
                text: "prompt".to_string(),
                terminated: true,
            },
            SnapshotLine {
                text: "$".to_string(),
                terminated: false,
            },
        ],
        cursor_line: 4,
        cursor_col: 1,
    };
    let (source, snapshot) = select_snapshot_for_copy_mode(
        Some((true, buffer_snapshot)),
        Some(parser_snapshot),
        false,
        None,
    )
    .unwrap();
    assert_eq!(source, CopySnapshotSource::Parser);
    assert_eq!(snapshot.lines.len(), 3);
    assert_eq!(snapshot.lines[0].text, "older");
    assert_eq!(snapshot.lines[1].text, "prompt");
    assert_eq!(snapshot.lines[2].text, "$");
}

#[test]
fn copy_mode_falls_back_to_buffer_when_parser_unavailable() {
    let buffer_snapshot = PaneTextSnapshot {
        lines: (0..=50)
            .map(|i| SnapshotLine {
                text: i.to_string(),
                terminated: i != 50,
            })
            .collect(),
        cursor_line: 50,
        cursor_col: 2,
    };
    let (source, snapshot) = select_snapshot_for_copy_mode(
        Some((false, buffer_snapshot)),
        None,
        false,
        None,
    )
    .unwrap();
    assert_eq!(source, CopySnapshotSource::Buffer);
    assert_eq!(snapshot.lines.len(), 51);
}

#[test]
fn rebuild_wrapped_clamps_scroll_top_to_last_visible_page() {
    let mut state = CopyModeState::new(snapshot(&[
        "0", "1", "2", "3", "4", "5", "6", "7", "8", "9", "10", "11",
    ]));
    rebuild_wrapped(&mut state, 10, 5);
    state.scroll_top = state.wrapped.rows.len().saturating_sub(5);
    rebuild_wrapped(&mut state, 10, 8);
    assert_eq!(
        state.scroll_top,
        state.wrapped.rows.len().saturating_sub(8)
    );
}

#[test]
fn refresh_snapshot_keeps_following_bottom_when_snapshot_grows() {
    let mut state = CopyModeState::new(snapshot(&["older", "prompt", "$"]));
    rebuild_wrapped(&mut state, 10, 2);
    state.scroll_top = state.wrapped.rows.len().saturating_sub(2);
    refresh_snapshot(
        &mut state,
        snapshot(&["older", "prompt", "$", "next", "tail"]),
        10,
        2,
    );
    assert_eq!(state.cursor, CopyPoint { line: 4, col: 4 });
    assert_eq!(state.snapshot.lines[4].text, "tail");
    assert_eq!(
        state.scroll_top,
        state.wrapped.rows.len().saturating_sub(2)
    );
}

#[test]
fn refresh_snapshot_preserves_cursor_when_not_following_bottom() {
    let mut state = CopyModeState::new(snapshot(&["0", "1", "2", "3"]));
    rebuild_wrapped(&mut state, 10, 2);
    state.cursor = CopyPoint { line: 1, col: 0 };
    state.scroll_top = 1;
    refresh_snapshot(
        &mut state,
        snapshot(&["0", "1", "2", "3", "4", "5"]),
        10,
        2,
    );
    assert_eq!(state.cursor, CopyPoint { line: 1, col: 0 });
    assert_eq!(state.scroll_top, 1);
}

fn point(line: usize, col: usize) -> CopyPoint {
    CopyPoint { line, col }
}

#[test]
fn words_begin_and_end_on_their_line() {
    let indented = snapshot(&["a", "  b", "", "c"]);
    assert_eq!(find_next_word_start(&indented, point(0, 0)), Some(point(1, 2)));
    assert_eq!(find_next_word_start(&indented, point(0, 1)), Some(point(1, 2)));
    assert_eq!(find_next_word_start(&indented, point(2, 0)), Some(point(3, 0)));
    assert_eq!(find_next_word_start(&indented, point(3, 0)), None);
    assert_eq!(find_prev_word_start(&indented, point(1, 1)), Some(point(0, 0)));
    assert_eq!(find_prev_word_start(&indented, point(0, 0)), None);
    let rules = snapshot(&["__", "__"]);
    assert_eq!(find_next_word_start(&rules, point(0, 0)), Some(point(1, 0)));
    assert_eq!(find_prev_word_start(&rules, point(1, 1)), Some(point(1, 0)));
    assert_eq!(find_prev_word_start(&rules, point(1, 2)), Some(point(1, 0)));
    assert_eq!(find_prev_word_start(&rules, point(1, 0)), Some(point(0, 0)));
    assert_eq!(find_word_end(&rules, point(0, 0)), Some(point(0, 1)));
    assert_eq!(find_word_end(&rules, point(0, 1)), Some(point(1, 1)));
    assert_eq!(find_word_end(&rules, point(1, 1)), None);
}

#[test]
fn a_screen_without_columns_is_read_as_blank() {
    let mut parser = vt100::Parser::new(3, 0, 0);
    let read = snapshot_from_screen(parser.screen_mut());
    assert_eq!(read.lines.len(), 1);
    assert_eq!(read.lines[0].text, "");
    assert_eq!((read.cursor_line, read.cursor_col), (0, 0));
}
