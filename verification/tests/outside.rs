//! Results that come from other crates, seen through the library's own functions.

use zmux::copy_mode::model::{CopySnapshotSource, PaneTextSnapshot, SnapshotLine};
use zmux::copy_mode::snapshot::{
    in_alternate_screen, snapshot_from_output_ring, snapshot_from_screen,
};
use zmux::copy_mode::words::{classify_char, WordClass};
use zmux::copy_mode::{enter, exit, move_up, page_up, render_view, search, Pane};
use zmux::draw::{truncate_left_to_width, truncate_to_width, unicode_display_width};
use zmux::frame::{CellRunJson, FrameData, LayoutJson, RowRunsJson};
use zmux::geometry::{navigation_popup_content_rect, split_status_row, Rect};
use zmux::server_ansi::{
    build_osc52_sequence, write_server_ansi, write_server_ansi_payload, AnsiError,
};
use zmux::session_tree::{parse_session_tree_json, SessionTreeEntry};
use zmux::socket::SocketClient;
use zmux::text::{char_width, is_alphanumeric, is_control, is_whitespace, visible_char_width};
use zmux::url::{detect_url_at_click, link_at_column, truncate_status_url};

fn all_chars() -> impl Iterator<Item = char> {
    (0u32..=0x10FFFF).filter_map(char::from_u32)
}

#[test]
fn white_space_is_that_of_the_standard_library() {
    for c in all_chars() {
        assert_eq!(is_whitespace(c), c.is_whitespace(), "{:?}", c);
    }
}

#[test]
fn control_characters_are_those_of_the_standard_library() {
    for c in all_chars() {
        assert_eq!(is_control(c), c.is_control(), "{:?}", c);
    }
}

#[test]
fn letters_and_digits_are_those_of_the_standard_library() {
    for c in all_chars() {
        assert_eq!(is_alphanumeric(c), c.is_alphanumeric(), "{:?}", c);
    }
    assert_eq!(classify_char('é'), WordClass::Keyword);
    assert_eq!(classify_char('_'), WordClass::Keyword);
    assert_eq!(classify_char('-'), WordClass::Punct);
    assert_eq!(classify_char('\t'), WordClass::Space);
}

#[test]
fn widths_count_columns_and_not_characters() {
    assert_eq!(char_width('a'), 1);
    assert_eq!(char_width('你'), 2);
    assert_eq!(char_width('\u{301}'), 0);
    assert_eq!(char_width('\u{7}'), 1);
    assert_eq!(visible_char_width('你'), 2);
    assert_eq!(unicode_display_width("A你B"), 4);
    assert_eq!(truncate_to_width("A你B", 4), "A你B");
    assert_eq!(truncate_to_width("A你B", 2), "A");
    assert_eq!(unicode_display_width(&truncate_to_width("你好世界", 5)) <= 5, true);
    assert_eq!(truncate_left_to_width("abc", 3), "abc");
    assert!(unicode_display_width(&truncate_left_to_width("你好世界", 5)) <= 5);
}

#[test]
fn server_drawing_is_decoded_from_base64() {
    let mut out = Vec::new();
    assert_eq!(write_server_ansi(&mut out, " aGVsbG8=\n"), Ok(()));
    assert_eq!(out, b"\x1b[?2026h\x1b[?25l\x1b[?7lhello\x1b[?2026l".to_vec());

    let mut out = Vec::new();
    assert_eq!(write_server_ansi(&mut out, "not base64!"), Err(AnsiError::NotBase64));
    assert_eq!(out, b"\x1b[?2026h\x1b[?25l\x1b[?7l\x1b[?2026l".to_vec());

    let mut out = Vec::new();
    assert_eq!(write_server_ansi_payload(&mut out, "aGk="), Ok(true));
    assert_eq!(out, b"hi".to_vec());
    assert_eq!(write_server_ansi_payload(&mut out, "*"), Err(AnsiError::NotBase64));
    assert_eq!(out, b"hi".to_vec());
}

#[test]
fn clipboard_text_comes_back_from_its_sequence() {
    let text = "one\x07 two \x1b]52;c;x";
    let sequence = build_osc52_sequence(text);
    let payload = &sequence["\x1b]52;c;".len()..sequence.len() - 1];
    let mut out = Vec::new();
    assert_eq!(write_server_ansi_payload(&mut out, payload), Ok(true));
    assert_eq!(out, text.as_bytes().to_vec());
    assert!(payload.chars().all(|c| c.is_ascii_alphanumeric() || "+/=".contains(c)));
}

#[test]
fn trees_are_read_from_json() {
    let tree = parse_session_tree_json(
        r#"[{"type":"session","name":"main","window_count":2,"is_active":true},
            {"type":"window","session_name":"main","index":1,"name":"vim","pane_count":3,"is_active":false},
            {"type":"pane","session_name":"main","window_index":1,"pane_id":-4,"index":0,"is_active":true},
            {"type":"other"}, 7]"#,
    );
    assert_eq!(
        tree,
        vec![
            SessionTreeEntry::Session {
                name: "main".to_string(),
                window_count: 2,
                is_active: true
            },
            SessionTreeEntry::Window {
                session_name: "main".to_string(),
                index: 1,
                name: "vim".to_string(),
                pane_count: 3,
                is_active: false
            },
        ]
    );
    assert!(parse_session_tree_json("{}").is_empty());
    assert!(parse_session_tree_json("no json").is_empty());
}

#[test]
fn options_are_read_from_json() {
    assert!(SocketClient::scroll_on_erase_in_display(r#"{"scroll_on_erase_in_display":true}"#));
    assert!(!SocketClient::scroll_on_erase_in_display(r#"{"scroll_on_erase_in_display":false}"#));
    assert!(!SocketClient::scroll_on_erase_in_display(r#"[{"scroll_on_erase_in_display":true}]"#));
    assert!(!SocketClient::scroll_on_erase_in_display("nothing"));
}

fn frame_with(text: &str) -> FrameData {
    let row = RowRunsJson {
        runs: vec![CellRunJson {
            text: text.to_string(),
            fg: "default".to_string(),
            bg: "default".to_string(),
            flags: 0,
            width: text.chars().count() as u16,
        }],
        line: None,
        start_col: 0,
        end_col: text.chars().count(),
    };
    FrameData {
        frame_type: "frame".to_string(),
        layout: LayoutJson::Leaf {
            id: 1,
            rows: 1,
            cols: 60,
            cursor_row: 0,
            cursor_col: 0,
            hide_cursor: false,
            alternate_screen: false,
            mouse_mode: 0,
            in_copy_mode: false,
            scroll_ratio: None,
            cursor_shape: 0,
            active: true,
            rows_v2: vec![row],
            title: None,
        },
        status: None,
        ansi: None,
        exit: false,
        yank_text: None,
    }
}

#[test]
fn links_are_found_under_the_click() {
    let fd = frame_with("see https://example.com/a?b=1, or http://x.org");
    let at = |col: u16| detect_url_at_click(&fd, 0, col, true, 60, 10, false);
    assert_eq!(at(0), None);
    assert_eq!(at(4).as_deref(), Some("https://example.com/a?b=1"));
    assert_eq!(at(28).as_deref(), Some("https://example.com/a?b=1"));
    assert_eq!(at(40).as_deref(), Some("http://x.org"));
    assert_eq!(at(59), None);
    let matches = vec![("ab".to_string(), "http://x".to_string())];
    assert_eq!(link_at_column(&matches, 2).as_deref(), Some("http://x"));
    assert_eq!(link_at_column(&matches, 1), None);
    assert_eq!(link_at_column(&matches, 10), None);
}

#[test]
fn long_links_are_shortened_for_the_status_line() {
    assert_eq!(truncate_status_url("http://x.org"), "http://x.org");
    let long = format!("http://x.org/{}", "a".repeat(200));
    let short = truncate_status_url(&long);
    assert!(short.chars().count() < long.chars().count());
}

#[test]
fn borders_take_one_cell_on_each_side() {
    let content = navigation_popup_content_rect(Rect::new(0, 0, 80, 24));
    let panel = zmux::geometry::navigation_popup_rect(Rect::new(0, 0, 80, 24));
    assert_eq!(content.x, panel.x + 1);
    assert_eq!(content.y, panel.y + 1);
    assert_eq!(content.width, panel.width - 2);
    assert_eq!(content.height, panel.height - 2);
}

#[test]
fn the_last_row_is_split_off_for_the_status() {
    let (above, status) = split_status_row(Rect::new(3, 2, 40, 10));
    assert_eq!(above, Rect::new(3, 2, 40, 9));
    assert_eq!(status, Rect::new(3, 11, 40, 1));
    let (above, status) = split_status_row(Rect::new(0, 0, 40, 1));
    assert_eq!(above, Rect::new(0, 0, 40, 1));
    assert_eq!(status, Rect::new(0, 1, 40, 0));
    let (above, status) = split_status_row(Rect::new(0, 0, 40, 0));
    assert_eq!(above, Rect::new(0, 0, 40, 0));
    assert_eq!(status, Rect::new(0, 0, 40, 0));
}

fn screen_after(rows: u16, cols: u16, output: &[u8]) -> vt100::Screen {
    let mut parser = vt100::Parser::new(rows, cols, 100);
    parser.process(output);
    parser.screen().clone()
}

fn texts(snapshot: &PaneTextSnapshot) -> Vec<String> {
    snapshot.lines.iter().map(|line| line.text.clone()).collect()
}

#[test]
fn a_screen_is_read_with_its_history_and_left_scrolled_as_it_was() {
    let mut screen = screen_after(2, 20, b"one\r\ntwo\r\nthree\r\nfour");
    screen.set_scrollback(1);
    let snapshot = snapshot_from_screen(&mut screen);
    assert_eq!(texts(&snapshot), ["one", "two", "three", "four"]);
    assert_eq!((snapshot.cursor_line, snapshot.cursor_col), (3, 4));
    assert_eq!(screen.scrollback(), 1);
}

#[test]
fn wrapped_rows_are_joined_to_one_line() {
    let mut screen = screen_after(3, 4, b"abcdefg\r\nx");
    let snapshot = snapshot_from_screen(&mut screen);
    assert_eq!(texts(&snapshot), ["abcdefg", "x"]);
}

#[test]
fn output_is_replayed_where_there_is_no_screen() {
    let snapshot = snapshot_from_output_ring(b"one\r\ntwo", 5).unwrap();
    assert_eq!(&texts(&snapshot)[..2], ["one", "two"]);
    assert!(snapshot_from_output_ring(b"", 5).is_none());
}

#[test]
fn the_alternate_screen_is_told_apart() {
    assert!(!in_alternate_screen(&None));
    assert!(!in_alternate_screen(&Some(screen_after(2, 4, b"a"))));
    assert!(in_alternate_screen(&Some(screen_after(2, 4, b"\x1b[?1049ha"))));
}

fn pane_showing(output: &[u8]) -> Pane {
    Pane {
        screen: Some(screen_after(3, 10, output)),
        text_buffer: None,
        output_ring: None,
        last_rows: 3,
        last_cols: 10,
        copy_state: None,
    }
}

#[test]
fn copy_mode_moves_searches_and_shows_what_is_on_the_screen() {
    let mut pane = pane_showing(b"alpha\r\nbeta\r\ngamma\r\ndelta");
    assert!(enter(&mut pane));
    move_up(&mut pane);
    {
        let state = pane.copy_state.as_ref().unwrap();
        assert_eq!(state.snapshot_source, CopySnapshotSource::Parser);
        assert_eq!(state.cursor.line, 2);
    }
    page_up(&mut pane);
    assert_eq!(pane.copy_state.as_ref().unwrap().cursor.line, 0);
    assert!(search(&mut pane, "ta".to_string(), true));
    assert_eq!(pane.copy_state.as_ref().unwrap().cursor.line, 1);
    assert!(!search(&mut pane, "nowhere".to_string(), true));
    let view = render_view(&pane).unwrap();
    assert_eq!(view.rows.len(), 3);
    exit(&mut pane);
    assert!(pane.copy_state.is_none());
    assert!(render_view(&pane).is_none());
}

#[test]
fn copy_mode_reads_the_buffer_where_there_is_no_screen() {
    let mut pane = pane_showing(b"");
    pane.screen = None;
    pane.text_buffer = Some((
        false,
        PaneTextSnapshot {
            lines: vec![SnapshotLine { text: "kept".to_string(), terminated: true }],
            cursor_line: 0,
            cursor_col: 4,
        },
    ));
    assert!(enter(&mut pane));
    let state = pane.copy_state.as_ref().unwrap();
    assert_eq!(state.snapshot_source, CopySnapshotSource::Buffer);
    assert_eq!(state.snapshot.lines[0].text, "kept");
}
