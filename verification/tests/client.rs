use zmux::client::commands_run::{
    clipboard_copy_notice, command_changes_navigation, start_dir_from_command_output,
    ClipboardCopyResult,
};
use zmux::client::mode::{retains_navigation_popup, should_write_server_ansi, InputMode};
use zmux::client::remotes::{
    remote_machine_id, RemoteFailure, RemoteMachine, RemoteMachineState, RemoteRegistry,
};
use zmux::commands::{shell_quote, ParsedCommand};
use zmux::frame::{
    find_active_pane_content, find_pane_id_at, CellRunJson, FrameData, LayoutJson, RowRunsJson,
};
use zmux::geometry::{server_content_size, server_layout_area, workspace_areas, Rect};
use zmux::keys::{
    is_cloud_paste_key, mouse_to_bytes, KeyCode, KeyEvent, KeyModifiers, MouseButton, MouseEvent,
    MouseEventKind,
};
use zmux::pointer::{mouse_pointer_shape_at, MousePointerShape};
use zmux::selection::{
    extract_text_from_frame, extract_text_from_frame_in_area, finalize_mouse_selection,
    mouse_for_pane, word_display_range_in_line, word_selection_at_click, MouseDragOrigin,
    MouseSelection,
};
use zmux::server_ansi::build_osc52_sequence;

const SIDEBAR_MAX_WIDTH: u16 = 32;
const PANE_ROWS: u16 = 8;
const PANE_COLS: u16 = 128;

fn modifiers(control: bool, shift: bool, super_key: bool) -> KeyModifiers {
    let mut m = KeyModifiers::none();
    m.control = control;
    m.shift = shift;
    m.super_key = super_key;
    m
}

fn left_down(column: u16, row: u16) -> MouseEvent {
    MouseEvent {
        kind: MouseEventKind::Down(MouseButton::Left),
        column,
        row,
        modifiers: KeyModifiers::none(),
    }
}

fn leaf(id: usize, active: bool, in_copy_mode: bool, rows_v2: Vec<RowRunsJson>) -> LayoutJson {
    LayoutJson::Leaf {
        id,
        rows: rows_v2.len() as u16,
        cols: 20,
        cursor_row: 0,
        cursor_col: 0,
        hide_cursor: false,
        alternate_screen: false,
        mouse_mode: 0,
        in_copy_mode,
        scroll_ratio: None,
        cursor_shape: 0,
        active,
        rows_v2,
        title: None,
    }
}

fn frame_of(layout: LayoutJson) -> FrameData {
    FrameData {
        frame_type: "frame".to_string(),
        layout,
        status: None,
        ansi: None,
        exit: false,
        yank_text: None,
    }
}

fn test_frame(rows_v2: Vec<RowRunsJson>) -> FrameData {
    frame_of(leaf(1, true, true, rows_v2))
}

fn test_row(text: &str, line: Option<usize>) -> RowRunsJson {
    RowRunsJson {
        runs: vec![CellRunJson {
            text: text.to_string(),
            fg: "default".to_string(),
            bg: "default".to_string(),
            flags: 0,
            width: text.chars().count() as u16,
        }],
        line,
        start_col: 0,
        end_col: text.chars().count(),
    }
}

fn selection(start_row: u16, start_col: u16, end_row: u16, end_col: u16) -> MouseSelection {
    MouseSelection { start_col, start_row, end_col, end_row }
}

#[test]
fn workspace_viewport_reserves_left_sidebar_without_top_bar() {
    let areas = workspace_areas(120, 24, true);
    assert_eq!(areas.sidebar, Rect::new(0, 0, 30, 24));
    assert_eq!(areas.frame, Rect::new(30, 0, 90, 24));
    assert_eq!(areas.layout, Rect::new(30, 0, 90, 23));
    let size = server_content_size(120, 24, true);
    assert_eq!((size.rows, size.cols, size.x, size.y), (24, 90, 30, 0));

    assert_eq!(workspace_areas(80, 24, true).sidebar.width, 22);
    assert_eq!(workspace_areas(200, 24, true).sidebar.width, 32);
    assert_eq!(workspace_areas(30, 24, true).sidebar.width, 10);
    assert_eq!(workspace_areas(30, 24, true).frame.width, 20);
    let hidden = workspace_areas(120, 24, false);
    assert_eq!(hidden.sidebar.width, 0);
    assert_eq!(hidden.frame, Rect::new(0, 0, 120, 24));
    let size = server_content_size(120, 24, false);
    assert_eq!((size.rows, size.cols, size.x, size.y), (24, 120, 0, 0));
}

#[test]
fn command_quoting_keeps_rename_text_in_one_command() {
    let name = r#"editor; kill-window \ "notes""#;
    let commands = ParsedCommand::parse(&format!("rename-window -- {}", shell_quote(name)));
    assert_eq!(commands.len(), 1);
    assert_eq!(commands[0].name, "rename-window");
    assert_eq!(commands[0].args, [name]);
}

#[test]
fn floating_navigation_survives_node_prompts_but_closes_on_activation() {
    assert!(retains_navigation_popup(&InputMode::Navigator));
    assert!(retains_navigation_popup(&InputMode::Prefix));
    assert!(retains_navigation_popup(&InputMode::NavigationHelp { scroll: 0 }));
    assert!(retains_navigation_popup(&InputMode::RenamePane {
        buf: String::new(),
        cursor: 0,
        return_to_navigator: true,
    }));
    assert!(!retains_navigation_popup(&InputMode::Normal));
    assert!(!retains_navigation_popup(&InputMode::Command { buf: String::new(), cursor: 0 }));
    assert!(!retains_navigation_popup(&InputMode::RenamePane {
        buf: String::new(),
        cursor: 0,
        return_to_navigator: false,
    }));
}

#[test]
fn navigation_refresh_tracks_structural_command_chains() {
    assert!(command_changes_navigation("switch-client -t main; select-pane -t %2"));
    assert!(command_changes_navigation("split-window -h"));
    assert!(command_changes_navigation("new -s work"));
    assert!(command_changes_navigation("splitw -h"));
    assert!(!command_changes_navigation("clear-pane"));
}

#[test]
fn remote_machine_ids_do_not_collide_with_alias_path_characters() {
    assert_ne!(
        remote_machine_id(&["a/b".to_string()]),
        remote_machine_id(&["a".to_string(), "b".to_string()])
    );
    assert_ne!(remote_machine_id(&["local".to_string()]), "local".to_string());
}

#[test]
fn remote_registry_starts_empty_until_user_adds_a_machine() {
    assert!(RemoteRegistry::new().machines.is_empty());
}

#[test]
fn probing_machine_remembers_activation_and_disconnect_schedules_retry() {
    let id = remote_machine_id(&["prod".to_string()]);
    let mut remotes = RemoteRegistry {
        machines: vec![RemoteMachine {
            host: "prod".to_string(),
            id: id.clone(),
            route: vec!["prod".to_string()],
            state: RemoteMachineState::Probing,
            error: None,
            retry_attempt: 0,
            retry_at: None,
            activate_after_probe: false,
        }],
    };
    let now = 1_000;
    assert!(remotes.start_probe(&id, true).is_none());
    assert!(remotes.machines[0].activate_after_probe);
    remotes.mark_disconnected(&id, "closed".to_string(), now);
    assert_eq!(remotes.machines[0].retry_attempt, 1);
    assert!(remotes.machines[0].retry_at.is_some());
    remotes.mark_failure(&id, RemoteFailure::permanent("protocol mismatch".to_string()), now);
    assert!(remotes.machines[0].retry_at.is_none());
    assert!(remotes.due_retries(now + 120_000).is_empty());
    assert_eq!(remotes.machines[0].error.as_deref(), Some("protocol mismatch"));
    remotes.mark_disconnected(&id, "network down".to_string(), now);
    assert!(!remotes.due_retries(now + 120_000).is_empty());
}

#[test]
fn start_dir_command_output_is_preserved_for_future_splits() {
    assert_eq!(
        start_dir_from_command_output("  /Users/me/project\n"),
        Some("/Users/me/project".to_string())
    );
    assert_eq!(start_dir_from_command_output(" \n\t"), None);
}

#[test]
fn server_ansi_keeps_painting_while_overlay_or_prompt_is_visible() {
    assert!(should_write_server_ansi(false, false));
    assert!(
        should_write_server_ansi(true, false),
        "overlay must not freeze pane ANSI (navigation / help)"
    );
    assert!(should_write_server_ansi(false, true), "prompt must not freeze pane ANSI");
    assert!(should_write_server_ansi(true, true));
}

#[test]
fn build_osc52_sequence_base64_encodes_utf8_text() {
    assert_eq!(build_osc52_sequence("hello"), "\x1b]52;c;aGVsbG8=\x07");
    assert_eq!(build_osc52_sequence("中"), "\x1b]52;c;5Lit\x07");
}

#[test]
fn clipboard_copy_notice_labels_zsync() {
    assert_eq!(
        clipboard_copy_notice(ClipboardCopyResult::Zsync, "ab"),
        "copied 2 chars via zsync"
    );
    assert_eq!(clipboard_copy_notice(ClipboardCopyResult::System, "ab"), "copied 2 chars");
    assert_eq!(
        clipboard_copy_notice(ClipboardCopyResult::Osc52, "ab"),
        "sent 2 chars via OSC 52"
    );
}

#[test]
fn command_v_is_reserved_for_synced_clipboard_paste() {
    assert!(is_cloud_paste_key(KeyEvent::new(
        KeyCode::Char('v'),
        modifiers(false, false, true),
    )));
    assert!(is_cloud_paste_key(KeyEvent::new(
        KeyCode::Char('V'),
        modifiers(false, true, true),
    )));
    assert!(!is_cloud_paste_key(KeyEvent::new(
        KeyCode::Char('v'),
        modifiers(true, false, false),
    )));
    assert!(!is_cloud_paste_key(KeyEvent::new(
        KeyCode::Char('v'),
        modifiers(false, false, false),
    )));
}

#[test]
fn find_pane_id_at_returns_clicked_pane() {
    let layout = LayoutJson::Split {
        direction: "horizontal".to_string(),
        sizes: vec![50, 50],
        children: vec![leaf(1, true, false, vec![]), leaf(2, false, false, vec![])],
    };
    let area = Rect::new(0, 0, 101, 20);

    assert_eq!(find_pane_id_at(&layout, area, 10, 5, false), Some(1));
    assert_eq!(find_pane_id_at(&layout, area, 75, 5, false), Some(2));
}

#[test]
fn mouse_pointer_is_text_over_active_pane_content() {
    let fd = test_frame(vec![test_row("hello", None)]);
    let (cols, rows) = (80u16, 24u16);
    let (_, content) =
        find_active_pane_content(&fd.layout, server_layout_area(cols, rows, true), true);
    assert_eq!(
        mouse_pointer_shape_at(content.y, content.x, cols, rows, &fd, true, false, true),
        MousePointerShape::Text
    );
    assert_eq!(
        mouse_pointer_shape_at(0, 0, cols, rows, &fd, true, false, true),
        MousePointerShape::Default
    );
}

#[test]
fn mouse_pointer_is_arrow_over_inactive_pane() {
    let fd = frame_of(LayoutJson::Split {
        direction: "horizontal".to_string(),
        sizes: vec![50, 50],
        children: vec![
            leaf(1, true, false, vec![test_row("left", None)]),
            leaf(2, false, false, vec![test_row("right", None)]),
        ],
    });
    let (cols, rows) = (101u16, 22u16);
    let layout_area = server_layout_area(cols, rows, true);
    let (_, active_content) = find_active_pane_content(&fd.layout, layout_area, false);
    assert_eq!(
        mouse_pointer_shape_at(
            active_content.y + 1,
            active_content.x + 1,
            cols,
            rows,
            &fd,
            false,
            false,
            true,
        ),
        MousePointerShape::Text
    );
    assert_eq!(
        mouse_pointer_shape_at(
            layout_area.y + 1,
            layout_area.x + 80,
            cols,
            rows,
            &fd,
            false,
            false,
            true,
        ),
        MousePointerShape::Default
    );
}

#[test]
fn mouse_copy_supports_reverse_drag_with_exclusive_end() {
    let fd = test_frame(vec![test_row("abcdef", None)]);
    let sel = selection(0, 4, 0, 2);
    assert_eq!(extract_text_from_frame(&fd, &sel, 80, 24, true), "bcde");
}

#[test]
fn mouse_copy_uses_exclusive_end_column() {
    let fd = test_frame(vec![test_row("apps", None)]);
    let sel = selection(0, 0, 0, 4);
    assert_eq!(extract_text_from_frame(&fd, &sel, 80, 24, true), "apps");
}

#[test]
fn mouse_up_completes_selection_when_drag_event_was_coalesced() {
    let origin = MouseDragOrigin { row: 4, col: 8 };
    let mouse_up = MouseEvent {
        kind: MouseEventKind::Up(MouseButton::Left),
        column: 73,
        row: 4,
        modifiers: KeyModifiers::none(),
    };
    let pane_area = Rect::new(1, 1, 100, 20);
    let selection = finalize_mouse_selection(None, Some(origin), mouse_up, Some(pane_area))
        .expect("Down -> Up movement must still produce a selection");
    assert_eq!(selection.normalized_bounds(), (4, 8, 4, 74));
}

#[test]
fn mouse_copy_joins_copy_mode_wrapped_rows() {
    let fd = test_frame(vec![test_row("abcdef", Some(0)), test_row("ghij", Some(0))]);
    let sel = selection(0, 0, 1, 4);
    assert_eq!(extract_text_from_frame(&fd, &sel, 80, 24, true), "abcdefghij");
}

#[test]
fn mouse_copy_keeps_newline_without_copy_row_metadata() {
    let fd = test_frame(vec![test_row("abc", None), test_row("def", None)]);
    let sel = selection(0, 0, 1, 3);
    assert_eq!(extract_text_from_frame(&fd, &sel, 80, 24, true), "abc\ndef");
}

#[test]
fn mouse_copy_uses_screen_coordinates_beside_sidebar() {
    let fd = test_frame(vec![test_row("hello", None), test_row("world", None)]);
    let layout_area = server_layout_area(80, 24, true);
    let (_, content_area) = find_active_pane_content(&fd.layout, layout_area, true);
    let sel = selection(content_area.y, content_area.x, content_area.y + 1, content_area.x + 5);
    assert_eq!(
        extract_text_from_frame_in_area(&fd, &sel, layout_area, true),
        "hello\nworld"
    );
}

#[test]
fn mouse_for_pane_maps_screen_coords_to_pane_local() {
    let layout_area = Rect::new(30, 0, 50, 23);
    let fd = test_frame(vec![test_row("hello", None)]);

    let screen_col = 40u16;
    let screen_row = 5u16;
    let mouse = left_down(screen_col, screen_row);
    let pane_mouse = mouse_for_pane(mouse, &fd, layout_area, true).expect("inside pane");
    assert_eq!(pane_mouse.column, screen_col - layout_area.x);
    assert_eq!(pane_mouse.row, screen_row - layout_area.y);

    let bytes = mouse_to_bytes(pane_mouse);
    let expected = format!("\x1b[<0;{};{}M", pane_mouse.column + 1, pane_mouse.row + 1);
    assert_eq!(String::from_utf8(bytes).unwrap(), expected);
}

#[test]
fn mouse_for_pane_with_border_subtracts_content_origin() {
    let layout_area = Rect::new(30, 0, 50, 23);
    let fd = test_frame(vec![test_row("hello", None)]);
    let (_, pa) = find_active_pane_content(&fd.layout, layout_area, false);

    let pane_col = 4u16;
    let pane_row = 2u16;
    let mouse = left_down(pa.x + pane_col, pa.y + pane_row);
    let mapped = mouse_for_pane(mouse, &fd, layout_area, false).expect("inside pane");
    assert_eq!(mapped.column, pane_col);
    assert_eq!(mapped.row, pane_row);

    let bytes = mouse_to_bytes(mapped);
    assert_eq!(
        String::from_utf8(bytes).unwrap(),
        format!("\x1b[<0;{};{}M", pane_col + 1, pane_row + 1)
    );
}

#[test]
fn mouse_for_pane_ignores_sidebar_and_border() {
    let layout_area = Rect::new(30, 0, 50, 23);
    let fd = test_frame(vec![test_row("hello", None)]);
    assert!(mouse_for_pane(left_down(5, 0), &fd, layout_area, false).is_none());
    assert!(mouse_for_pane(left_down(30, 0), &fd, layout_area, false).is_none());
}

#[test]
fn word_display_range_selects_until_whitespace() {
    assert_eq!(word_display_range_in_line("foo bar", 1), Some((0, 3)));
    assert_eq!(word_display_range_in_line("foo bar", 5), Some((4, 7)));
    assert_eq!(word_display_range_in_line("foo-bar baz", 2), Some((0, 7)));
    assert_eq!(word_display_range_in_line("a=b", 1), Some((0, 3)));
}

#[test]
fn mouse_copy_reads_single_char_from_server_frame() {
    let fd = test_frame(vec![test_row("abc", None)]);
    let layout_area = server_layout_area(80, 24, true);
    let (_, content_area) = find_active_pane_content(&fd.layout, layout_area, true);
    let sel = selection(content_area.y, content_area.x + 1, content_area.y, content_area.x + 2);
    assert_eq!(extract_text_from_frame_in_area(&fd, &sel, layout_area, true), "b");
}

#[test]
fn mouse_copy_reads_word_from_server_frame() {
    let fd = test_frame(vec![test_row("foo bar", None)]);
    let layout_area = server_layout_area(80, 24, true);
    let (_, content_area) = find_active_pane_content(&fd.layout, layout_area, true);
    let sel = word_selection_at_click(
        &fd,
        content_area.y,
        content_area.x + 1,
        true,
        80,
        24,
        true,
    )
    .expect("word selection");
    assert_eq!(extract_text_from_frame_in_area(&fd, &sel, layout_area, true), "foo");
}

fn terminal_size() -> (u16, u16) {
    (PANE_COLS + SIDEBAR_MAX_WIDTH, PANE_ROWS + 1)
}

/// The frame that shows what a terminal of the pane's size shows.
fn pane_frame(output: &[u8]) -> FrameData {
    let mut parser = vt100::Parser::new(PANE_ROWS, PANE_COLS, 0);
    parser.process(output);
    let rows: Vec<RowRunsJson> = parser
        .screen()
        .rows(0, PANE_COLS)
        .map(|text| test_row(&text, None))
        .collect();
    frame_of(leaf(1, true, false, rows))
}

fn first_row_copied(fd: &FrameData, from: u16, text_len: u16) -> String {
    let (cols, rows) = terminal_size();
    let layout_area = server_layout_area(cols, rows, true);
    let (_, content_area) = find_active_pane_content(&fd.layout, layout_area, true);
    let start = content_area.x + from;
    let sel = selection(content_area.y, start, content_area.y, start + text_len);
    extract_text_from_frame_in_area(fd, &sel, layout_area, true)
}

#[test]
fn mouse_copy_reads_text_from_server_frame() {
    let fd = pane_frame(b"plain_copy_text");
    assert_eq!(
        first_row_copied(&fd, 0, "plain_copy_text".len() as u16),
        "plain_copy_text"
    );
}

#[test]
fn mouse_copy_reads_indented_colored_git_status_row() {
    let text = "both modified:   apps/box-desktop/src/rust/tenga-bridge/src/lib.rs";
    let fd = pane_frame(format!("\x1b[31m\t{text}\x1b[m").as_bytes());
    assert_eq!(first_row_copied(&fd, 8, text.len() as u16), text);
}
