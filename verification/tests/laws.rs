//! The library's laws on concrete values.

use zmux::ansi::{write_active_pane_selection_ansi, PaneSelection};
use zmux::backend::{
    Attribute, CellModifier, ClearType, ModifierDiff, PlacedCell, TermOp, TerminalBackend,
};
use zmux::client::remotes::{
    remote_machine_id, RemoteFailure, RemoteMachine, RemoteMachineState, RemoteRegistry,
};
use zmux::commands::{shell_quote, ParsedCommand};
use zmux::copy_mode::find::{build_search_matches, find_match_index};
use zmux::copy_mode::model::{CopyModeState, CopyPoint, PaneTextSnapshot, SearchMatch, SnapshotLine};
use zmux::copy_mode::position::{current_display_position, ensure_cursor_visible, rebuild_wrapped};
use zmux::copy_mode::wrap::build_wrapped_snapshot;
use zmux::copy_mode::{
    enter, move_down, move_right, move_to_line_start, move_to_top, move_up,
    refresh_layout, search, search_next, Pane,
};
use zmux::copy_mode::yank::{yank_char_selection, yank_line_selection, yank_rect_selection};
use zmux::draw::{truncate_to_width, unicode_display_width};
use zmux::frame::{CellRunJson, FrameData, LayoutJson, RowRunsJson, StatusJson, WindowTabJson};
use zmux::geometry::{
    centered_floating_panel, split_layout_rects, workspace_areas, Rect,
};
use zmux::help::{navigation_help_rect, shortcuts_help_rect, wrapped_help_lines};
use zmux::keys::{key_to_bytes, KeyCode, KeyEvent, KeyModifiers, NavDir};
use zmux::navigation::{
    build_navigation_entries, build_navigation_tree, sidebar_entry_at, sidebar_scroll_offset,
    sidebar_viewport, MachineConnectionState, NavigationNodeId, NavigationState, RemoteMachineNavigationView,
    WorkspaceNavigationView,
};
use zmux::paint::status_window_tab_hit;
use zmux::prompt::{edit_command, edit_line, edit_prompt};
use zmux::selection::{word_display_range_in_line, MouseSelection};
use zmux::session_tree::SessionTreeEntry;
use zmux::ssh::posix_quote;
use zmux::style::Color;
use zmux::visual::{neighbor_in_dir, VisualHit, VisualTarget};
use zmux::wire::{encode_hex, pump_input_chunks};

fn within(a: Rect, b: Rect) -> bool {
    b.x <= a.x && a.x + a.width <= b.x + b.width && b.y <= a.y && a.y + a.height <= b.y + b.height
}

fn unhex(text: &str) -> Vec<u8> {
    (0..text.len())
        .step_by(2)
        .map(|i| u8::from_str_radix(&text[i..i + 2], 16).unwrap())
        .collect()
}

fn plain(code: KeyCode) -> KeyEvent {
    KeyEvent::new(code, KeyModifiers::none())
}

fn with_control(c: char) -> KeyEvent {
    let mut m = KeyModifiers::none();
    m.control = true;
    KeyEvent::new(KeyCode::Char(c), m)
}

#[test]
fn quoted_text_is_one_argument() {
    for text in ["a b", "x;y", "-t", "{z}", "\"q\" \\", "'", "tab\there"] {
        let commands = ParsedCommand::parse(&format!("rename-pane -- {}", shell_quote(text)));
        assert_eq!(commands.len(), 1, "{text}");
        assert_eq!(commands[0].name, "rename-pane");
        assert_eq!(commands[0].args, [text]);
        assert!(commands[0].flags.entries.is_empty());
    }
}

#[test]
fn a_shell_reads_quoted_text_back() {
    assert_eq!(posix_quote("a'b").unwrap(), "'a'\\''b'");
    assert_eq!(posix_quote("").unwrap(), "''");
    assert_eq!(posix_quote("$(x) `y`").unwrap(), "'$(x) `y`'");
}

#[test]
fn hexadecimal_notation_is_read_back() {
    let bytes: Vec<u8> = (0u8..=255).collect();
    assert_eq!(unhex(&encode_hex(&bytes)), bytes);
    assert_eq!(encode_hex(&[0, 10, 255]), "000aff");
}

#[test]
fn input_arrives_however_it_is_cut() {
    let bytes: Vec<u8> = (0..10_000u32).map(|n| (n % 251) as u8).collect();
    let lines = pump_input_chunks(&bytes);
    assert_eq!(lines.len(), 3);
    let read: Vec<u8> =
        lines.iter().flat_map(|line| unhex(line.strip_prefix("INPUT ").unwrap())).collect();
    assert_eq!(read, bytes);
    assert!(pump_input_chunks(&[]).is_empty());
}

#[test]
fn control_letters_are_the_same_small_and_capital() {
    assert_eq!(key_to_bytes(with_control('c')), vec![3]);
    assert_eq!(key_to_bytes(with_control('C')), vec![3]);
    assert_eq!(key_to_bytes(with_control('z')), vec![26]);
}

#[test]
fn folding_twice_leaves_the_tree_as_it_was() {
    let state = NavigationState::default();
    let entries = build_navigation_entries(
        "local",
        "host",
        &[WorkspaceNavigationView { socket_name: "s", title: "s", active: true, tree: &[] }],
        &state,
    );
    let mut folded = NavigationState::default();
    folded.toggle_selected(&entries);
    let once = folded.collapsed.len();
    folded.toggle_selected(&entries);
    assert_ne!(once, folded.collapsed.len());
    assert_eq!(folded.collapsed.len(), state.collapsed.len());
}

#[test]
fn the_selected_line_is_shown_under_its_row() {
    for count in 1..40usize {
        for selected in 0..count {
            let height = sidebar_viewport(9).1 as usize;
            let top = sidebar_scroll_offset(selected, count, height);
            assert!(top <= selected && selected < top + height);
            let row = 2 + (selected - top) as u16;
            assert_eq!(sidebar_entry_at(selected, count, 2, 9, row), Some(selected));
        }
    }
}

fn session(name: &str) -> SessionTreeEntry {
    SessionTreeEntry::Session { name: name.to_string(), window_count: 1, is_active: true }
}

fn window(session: &str, index: usize) -> SessionTreeEntry {
    SessionTreeEntry::Window {
        session_name: session.to_string(),
        index,
        name: "shell".to_string(),
        pane_count: 1,
        is_active: true,
    }
}

fn pane(session: &str, window_index: usize, pane_id: usize) -> SessionTreeEntry {
    SessionTreeEntry::Pane {
        session_name: session.to_string(),
        window_index,
        pane_id,
        index: 0,
        title: String::new(),
        is_active: false,
    }
}

#[test]
fn machines_and_workspaces_share_no_node() {
    let tree = vec![session("main"), window("main", 0)];
    let view = |socket_name: &'static str, title: &'static str| WorkspaceNavigationView {
        socket_name,
        title,
        active: false,
        tree: &tree,
    };
    let entries = build_navigation_tree(
        "local",
        "same",
        &[view("one", "title"), view("two", "title")],
        &[RemoteMachineNavigationView {
            id: "ssh:4#prod",
            name: "same",
            state: MachineConnectionState::Connected,
            active: false,
            workspaces: vec![view("one", "title")],
        }],
        &NavigationState::default(),
    );
    for i in 0..entries.len() {
        for j in 0..i {
            assert_ne!(entries[i].id, entries[j].id);
        }
    }
    let titled = build_navigation_entries(
        "local",
        "same",
        &[view("one", "another")],
        &NavigationState::default(),
    );
    let before = build_navigation_entries(
        "local",
        "same",
        &[view("one", "title")],
        &NavigationState::default(),
    );
    assert_eq!(
        titled.iter().map(|e| e.id.clone()).collect::<Vec<NavigationNodeId>>(),
        before.iter().map(|e| e.id.clone()).collect::<Vec<NavigationNodeId>>()
    );
}

#[test]
fn folded_nodes_hide_what_is_below() {
    let tree = vec![session("main"), window("main", 0)];
    let views = [WorkspaceNavigationView {
        socket_name: "default",
        title: "t",
        active: true,
        tree: &tree,
    }];
    let mut state = NavigationState::default();
    let all = build_navigation_entries("local", "host", &views, &state);
    state.collapsed.push(all[1].id.clone());
    let folded = build_navigation_entries("local", "host", &views, &state);
    assert_eq!(folded.len(), 2);
    state.collapsed.push(all[0].id.clone());
    assert_eq!(build_navigation_entries("local", "host", &views, &state).len(), 1);
}

#[test]
fn folding_takes_only_what_is_below() {
    let first = vec![
        session("a"),
        window("a", 0),
        pane("a", 0, 1),
        pane("a", 0, 2),
        window("a", 1),
        pane("a", 1, 3),
        session("b"),
        window("b", 0),
        pane("b", 0, 4),
    ];
    let second = vec![session("a"), window("a", 0), pane("a", 0, 1)];
    let local = [
        WorkspaceNavigationView { socket_name: "one", title: "", active: true, tree: &first },
        WorkspaceNavigationView { socket_name: "two", title: "", active: false, tree: &second },
    ];
    let remote = [RemoteMachineNavigationView {
        id: "ssh:prod",
        name: "prod",
        state: MachineConnectionState::Connected,
        active: false,
        workspaces: vec![WorkspaceNavigationView {
            socket_name: "one",
            title: "",
            active: false,
            tree: &first,
        }],
    }];
    let start = NavigationState::default();
    let before = build_navigation_tree("local", "host", &local, &remote, &start);
    assert_eq!(before.len(), 26);
    for k in 0..before.len() {
        if !before[k].expandable {
            continue;
        }
        let mut state = NavigationState::default();
        state.selected = k;
        state.toggle_selected(&before);
        let after = build_navigation_tree("local", "host", &local, &remote, &state);
        let below = before[k + 1..].iter().take_while(|e| e.depth > before[k].depth).count();
        let mut expected = before.clone();
        expected[k].expanded = false;
        expected.drain(k + 1..k + 1 + below);
        assert_eq!(after, expected, "{k}");
    }
}

#[test]
fn a_node_is_found_again_where_its_line_moved() {
    let short = vec![session("main")];
    let long = vec![session("first"), session("main")];
    let of = |tree: &[SessionTreeEntry]| {
        build_navigation_entries(
            "local",
            "host",
            &[WorkspaceNavigationView { socket_name: "s", title: "s", active: true, tree }],
            &NavigationState::default(),
        )
    };
    let mut state = NavigationState::default();
    state.select_last(&of(&short));
    let id = state.selected_id.clone();
    state.clamp_selection(&of(&long));
    assert_eq!(state.selected, 3);
    assert_eq!(state.selected_id, id);
}

#[test]
fn sidebar_and_frame_share_the_screen() {
    for cols in 1..200u16 {
        for visible in [false, true] {
            let areas = workspace_areas(cols, 24, visible);
            assert_eq!(areas.sidebar.width + areas.frame.width, cols);
            assert_eq!(areas.frame.x, areas.sidebar.width);
            assert!(areas.frame.width >= cols.min(20));
            assert!(within(areas.layout, areas.frame));
        }
    }
}

#[test]
fn split_parts_share_the_area() {
    let area = Rect::new(3, 4, 80, 23);
    for direction in ["horizontal", "vertical"] {
        for hide in [false, true] {
            let gap = if hide { 0 } else { 1 };
            for sizes in [vec![50u16, 50], vec![1, 2, 3], vec![33, 33, 34], vec![0, 0]] {
                let parts = split_layout_rects(area, direction, &sizes, sizes.len(), hide);
                assert_eq!(parts.len(), sizes.len());
                for (i, part) in parts.iter().enumerate() {
                    assert!(within(*part, area));
                    if i > 0 && direction == "horizontal" {
                        assert!(parts[i - 1].x + parts[i - 1].width + gap <= part.x);
                    } else if i > 0 {
                        assert!(parts[i - 1].y + parts[i - 1].height + gap <= part.y);
                    }
                }
                let last = parts.last().unwrap();
                assert_eq!(
                    (last.x + last.width, last.y + last.height),
                    (area.x + area.width, area.y + area.height)
                );
            }
        }
    }
}

#[test]
fn panels_lie_in_their_area() {
    for (width, height) in [(0, 0), (1, 1), (8, 3), (50, 12), (240, 80)] {
        let area = Rect::new(4, 5, width, height);
        assert!(within(centered_floating_panel(area, 40, 10), area));
        assert!(within(navigation_help_rect(area), area));
        assert!(within(shortcuts_help_rect(area), area));
    }
}

#[test]
fn help_lines_are_cut_without_loss() {
    let line = "0123456789abcdefghijklmnopqrstuvwxyz0123456789";
    let pieces = wrapped_help_lines(Rect::new(0, 0, 14, 10), &vec![line]);
    assert_eq!(pieces.concat(), line);
    assert!(pieces.iter().all(|piece| piece.chars().count() <= 10));
}

#[test]
fn shortened_text_fits() {
    for max in 0..10usize {
        assert!(unicode_display_width(&truncate_to_width("a你b好c", max)) <= max);
    }
}

#[test]
fn a_selection_is_put_in_reading_order() {
    let sel = MouseSelection { start_col: 4, start_row: 2, end_col: 9, end_row: 5 };
    let back = MouseSelection { start_col: 8, start_row: 5, end_col: 5, end_row: 2 };
    assert_eq!(sel.normalized_bounds(), (2, 4, 5, 9));
    assert_eq!(back.normalized_bounds(), (2, 4, 5, 9));
}

#[test]
fn a_word_holds_its_column() {
    let line = "ab  你好 c";
    for col in 0..12usize {
        if let Some((start, end)) = word_display_range_in_line(line, col) {
            assert!(start <= col && col < end);
        }
    }
    assert_eq!(word_display_range_in_line(line, 5), Some((4, 8)));
}

fn hit(pane_id: usize, x: u16, y: u16, width: u16, height: u16) -> VisualHit {
    VisualHit {
        target: VisualTarget::Local { pane_id },
        rect: Rect::new(x, y, width, height),
        active: false,
    }
}

#[test]
fn the_nearest_pane_is_the_neighbour() {
    let hits = [hit(1, 0, 0, 10, 10), hit(2, 30, 0, 10, 10), hit(3, 11, 0, 10, 10)];
    let from = VisualTarget::Local { pane_id: 1 };
    assert_eq!(
        neighbor_in_dir(&hits, &from, NavDir::Right),
        Some(VisualTarget::Local { pane_id: 3 })
    );
    assert_eq!(neighbor_in_dir(&hits, &from, NavDir::Left), None);
}

#[test]
fn a_click_finds_the_label_under_it() {
    let tab = |index: usize, name: &str| WindowTabJson {
        index,
        name: name.to_string(),
        active: false,
    };
    let status = StatusJson {
        left: "[s]".to_string(),
        right: String::new(),
        windows: vec![tab(4, "one"), tab(7, "two")],
    };
    let found: Vec<Option<usize>> =
        (0..60u16).map(|col| status_window_tab_hit(&status, 100, col)).collect();
    let first = found.iter().filter(|hit| **hit == Some(4)).count();
    let second = found.iter().filter(|hit| **hit == Some(7)).count();
    assert!(first > 0 && first == second);
    assert_eq!(found[0], None);
}

#[test]
fn the_cursor_stays_inside_the_prompt() {
    let keys = [
        plain(KeyCode::Left),
        plain(KeyCode::Right),
        plain(KeyCode::Home),
        plain(KeyCode::End),
        plain(KeyCode::Backspace),
        plain(KeyCode::Delete),
        plain(KeyCode::Char('你')),
        with_control('u'),
        with_control('w'),
        with_control('k'),
    ];
    for edit in [edit_line, edit_prompt, edit_command] {
        for first in keys {
            for second in keys {
                let mut buf = "a你 b".to_string();
                let mut cursor = 2usize;
                edit(&mut buf, &mut cursor, first);
                edit(&mut buf, &mut cursor, second);
                assert!(cursor <= buf.chars().count());
            }
        }
    }
}

#[test]
fn backspace_undoes_typing() {
    let mut buf = "a你b".to_string();
    let mut cursor = 2usize;
    edit_line(&mut buf, &mut cursor, plain(KeyCode::Char('x')));
    assert_eq!((buf.as_str(), cursor), ("a你xb", 3));
    edit_line(&mut buf, &mut cursor, plain(KeyCode::Backspace));
    assert_eq!((buf.as_str(), cursor), ("a你b", 2));
}

fn snapshot(lines: &[&str]) -> PaneTextSnapshot {
    PaneTextSnapshot {
        lines: lines
            .iter()
            .map(|line| SnapshotLine { text: line.to_string(), terminated: true })
            .collect(),
        cursor_line: lines.len() - 1,
        cursor_col: 0,
    }
}

#[test]
fn wrapping_loses_nothing_and_fits() {
    let line = "abc你好de世f";
    for width in 1..8usize {
        let wrapped = build_wrapped_snapshot(&snapshot(&[line]), width);
        let text: String = wrapped.rows.iter().map(|row| row.text.as_str()).collect();
        assert_eq!(text, line);
        for row in &wrapped.rows {
            assert!(
                row.text.chars().count() <= 1 || unicode_display_width(&row.text) <= width,
                "{width}: {:?}",
                row.text
            );
        }
    }
}

#[test]
fn rows_show_lines_of_the_text() {
    let text = snapshot(&["abcdef", "", "gh"]);
    let wrapped = build_wrapped_snapshot(&text, 2);
    assert_eq!(wrapped.rows.len(), 5);
    assert!(wrapped.rows.iter().all(|row| row.line < text.lines.len()));
}

#[test]
fn laying_out_twice_is_laying_out_once() {
    let mut state = CopyModeState::new(snapshot(&["abcdefgh", "ij", "klmnop"]));
    rebuild_wrapped(&mut state, 3, 2);
    let once: Vec<String> = state.wrapped.rows.iter().map(|row| row.text.clone()).collect();
    let at = (state.cursor, state.scroll_top);
    rebuild_wrapped(&mut state, 3, 2);
    let twice: Vec<String> = state.wrapped.rows.iter().map(|row| row.text.clone()).collect();
    assert_eq!(once, twice);
    assert_eq!((state.cursor, state.scroll_top), at);
    assert_eq!(state.snapshot.lines[0].text, "abcdefgh");
}

#[test]
fn the_cursor_is_brought_on_screen() {
    let mut state = CopyModeState::new(snapshot(&["0", "1", "2", "3", "4", "5"]));
    rebuild_wrapped(&mut state, 5, 2);
    for line in [5usize, 0, 3] {
        state.cursor = CopyPoint { line, col: 0 };
        ensure_cursor_visible(&mut state, 2);
        let row = current_display_position(&state).0;
        assert!(state.scroll_top <= row && row < state.scroll_top + 2);
    }
}

fn reading(lines: &[&str], cols: u16, rows: u16) -> Pane {
    let mut pane = Pane {
        screen: None,
        text_buffer: Some((false, snapshot(lines))),
        output_ring: None,
        last_rows: rows,
        last_cols: cols,
        copy_state: None,
    };
    assert!(enter(&mut pane));
    pane
}

fn cursor(pane: &Pane) -> CopyPoint {
    pane.copy_state.as_ref().unwrap().cursor
}

#[test]
fn resizing_only_rewraps_the_text_that_was_read() {
    let mut pane = reading(&["abcdefgh", "ij", "klmnop"], 10, 2);
    pane.copy_state.as_mut().unwrap().cursor = CopyPoint { line: 0, col: 6 };
    pane.text_buffer = Some((false, snapshot(&["new", "output", "came", "in"])));
    for (cols, rows) in [(10, 2), (3, 2), (3, 1), (0, 0), (40, 9)] {
        pane.last_cols = cols;
        pane.last_rows = rows;
        refresh_layout(&mut pane);
        let state = pane.copy_state.as_ref().unwrap();
        let texts: Vec<&str> = state.snapshot.lines.iter().map(|l| l.text.as_str()).collect();
        assert_eq!(texts, ["abcdefgh", "ij", "klmnop"]);
        let laid = build_wrapped_snapshot(&state.snapshot, usize::from(cols.max(1)));
        assert_eq!(
            state.wrapped.rows.iter().map(|r| r.text.clone()).collect::<Vec<String>>(),
            laid.rows.iter().map(|r| r.text.clone()).collect::<Vec<String>>()
        );
        assert_eq!(state.cursor, CopyPoint { line: 0, col: 6 });
        let row = current_display_position(state).0;
        assert!(state.scroll_top <= row && row < state.scroll_top + usize::from(rows.max(1)));
    }
}

#[test]
fn a_row_up_undoes_a_row_down() {
    let mut pane = reading(&["abcdef", "x", "你好", "ghijkl"], 20, 3);
    for line in 0..3usize {
        for col in 0..6usize {
            move_to_top(&mut pane);
            for _ in 0..line {
                move_down(&mut pane);
            }
            for _ in 0..col {
                if cursor(&pane).col < [6, 1, 2][line] {
                    move_right(&mut pane);
                }
            }
            let state = pane.copy_state.as_ref().unwrap();
            let before = (state.cursor, state.preferred_column);
            move_down(&mut pane);
            assert_eq!(cursor(&pane).line, line + 1);
            move_up(&mut pane);
            let state = pane.copy_state.as_ref().unwrap();
            assert_eq!((state.cursor, state.preferred_column), before);
            if line == 0 {
                move_up(&mut pane);
                assert_eq!(cursor(&pane), before.0);
            }
        }
    }
}

#[test]
fn a_search_visits_every_match_and_comes_back() {
    for forward in [true, false] {
        let mut pane = reading(&["aba", "bab", "", "aa"], 20, 3);
        move_to_line_start(&mut pane);
        assert!(search(&mut pane, "a".to_string(), forward));
        let begun = cursor(&pane);
        let mut stops = Vec::new();
        for _ in 0..5 {
            assert!(search_next(&mut pane));
            let at = cursor(&pane);
            stops.push((at.line, at.col));
        }
        assert_eq!(cursor(&pane), begun);
        let first = stops.iter().position(|p| *p == (0, 0)).unwrap();
        let mut round: Vec<(usize, usize)> = Vec::new();
        for i in 0..5 {
            round.push(stops[if forward { (first + i) % 5 } else { (first + 5 - i) % 5 }]);
        }
        assert_eq!(round, [(0, 0), (0, 2), (1, 1), (3, 0), (3, 1)]);
    }
}

#[test]
fn matches_do_not_overlap_and_none_is_passed_over() {
    let matches = build_search_matches(&snapshot(&["aaaaa", "xaa"]), "aa");
    assert_eq!(
        matches,
        vec![
            SearchMatch { line: 0, start: 0, end: 2 },
            SearchMatch { line: 0, start: 2, end: 4 },
            SearchMatch { line: 1, start: 1, end: 3 },
        ]
    );
    assert_eq!(find_match_index(&matches, CopyPoint { line: 0, col: 1 }, true), 1);
    assert_eq!(find_match_index(&matches, CopyPoint { line: 0, col: 1 }, false), 0);
}

#[test]
fn a_selection_has_no_direction() {
    let s = snapshot(&["abcdef", "ghijkl", "mnopqr"]);
    let a = CopyPoint { line: 0, col: 2 };
    let b = CopyPoint { line: 2, col: 1 };
    assert_eq!(yank_char_selection(&s, a, b), yank_char_selection(&s, b, a));
    assert_eq!(yank_line_selection(&s, 0, 1), yank_line_selection(&s, 1, 0));
    assert_eq!(yank_rect_selection(&s, a, b), yank_rect_selection(&s, b, a));
    assert_eq!(yank_char_selection(&s, a, b), "cdef\nghijkl\nm");
    assert_eq!(yank_rect_selection(&s, a, b), "b\nh\nn");
}

fn row_frame(text: &str) -> FrameData {
    FrameData {
        frame_type: "frame".to_string(),
        layout: LayoutJson::Leaf {
            id: 1,
            rows: 1,
            cols: 10,
            cursor_row: 0,
            cursor_col: 0,
            hide_cursor: false,
            alternate_screen: false,
            mouse_mode: 0,
            in_copy_mode: false,
            scroll_ratio: None,
            cursor_shape: 0,
            active: true,
            rows_v2: vec![RowRunsJson {
                runs: vec![CellRunJson {
                    text: text.to_string(),
                    fg: "red".to_string(),
                    bg: "default".to_string(),
                    flags: 2,
                    width: unicode_display_width(text) as u16,
                }],
                line: None,
                start_col: 0,
                end_col: text.chars().count(),
            }],
            title: None,
        },
        status: None,
        ansi: None,
        exit: false,
        yank_text: None,
    }
}

/// What a terminal shows of sequences: the glyphs of the first row.
fn shown(sequences: &str) -> Vec<String> {
    let mut parser = vt100::Parser::new(1, 10, 0);
    parser.process(sequences.as_bytes());
    (0..10u16).map(|col| parser.screen().cell(0, col).unwrap().contents().to_string()).collect()
}

#[test]
fn a_selection_only_colors() {
    let fd = row_frame("ab你cd");
    let area = Rect::new(0, 0, 10, 1);
    let painted = |start_col: u16, end_col: u16| {
        let sel = PaneSelection { start_row: 0, start_col, end_row: 0, end_col };
        write_active_pane_selection_ansi(&fd, area, true, 0, 0, sel).unwrap()
    };
    let plain = shown(&painted(0, 0));
    for (start, end) in [(0, 10), (1, 3), (2, 4), (4, 6), (7, 9)] {
        assert_eq!(shown(&painted(start, end)), plain);
        assert_ne!(painted(start, end), painted(0, 0));
    }
}

#[test]
fn attribute_changes_lead_from_one_to_the_other() {
    let bold = CellModifier { bold: true, ..CellModifier::empty() };
    let dim = CellModifier { dim: true, ..CellModifier::empty() };
    let diff = |from: CellModifier, to: CellModifier| ModifierDiff { from, to }.queue();
    assert_eq!(diff(bold, CellModifier::empty()), vec![Attribute::NormalIntensity]);
    assert_eq!(diff(CellModifier::empty(), bold), vec![Attribute::Bold]);
    assert_eq!(diff(bold, dim).last(), Some(&Attribute::Dim));
    assert!(diff(bold, bold).is_empty());
}

#[test]
fn cells_are_written_where_they_stand() {
    let cell = |x: u16, symbol: &str| PlacedCell {
        x,
        y: 1,
        symbol: symbol.to_string(),
        fg: Color::Red,
        bg: Color::Reset,
        modifier: CellModifier::empty(),
    };
    let ops = TerminalBackend::<Vec<u8>>::draw(&[cell(3, "a"), cell(4, "b"), cell(7, "c")]);
    let moves = ops.iter().filter(|op| matches!(op, TermOp::MoveTo(_, _))).count();
    assert_eq!(moves, 2);
    assert!(matches!(ops[0], TermOp::MoveTo(3, 1)));
    let text: String = ops
        .iter()
        .map(|op| match op {
            TermOp::Print(s) => s.as_str(),
            _ => "",
        })
        .collect();
    assert_eq!(text, "abc");
    assert!(TerminalBackend::<Vec<u8>>::clear_region(ClearType::All).is_none());
    assert_eq!(
        TerminalBackend::<Vec<u8>>::clear_region(ClearType::CurrentLine),
        Some(ClearType::CurrentLine)
    );
}

#[test]
fn routes_have_identities_of_their_own() {
    let routes: [&[&str]; 6] =
        [&["a", "b"], &["a/b"], &["1#a"], &["a"], &["a", "1#b"], &["a#b"]];
    let ids: Vec<String> = routes
        .iter()
        .map(|route| {
            remote_machine_id(&route.iter().map(|hop| hop.to_string()).collect::<Vec<String>>())
        })
        .collect();
    for i in 0..ids.len() {
        for j in 0..i {
            assert_ne!(ids[i], ids[j]);
        }
    }
    assert_eq!(ids[3], "ssh:1#a");
}

fn registry() -> RemoteRegistry {
    RemoteRegistry {
        machines: vec![RemoteMachine {
            host: "h".to_string(),
            id: "id".to_string(),
            route: vec!["h".to_string()],
            state: RemoteMachineState::Disconnected,
            error: None,
            retry_attempt: 0,
            retry_at: None,
            activate_after_probe: false,
        }],
    }
}

#[test]
fn retries_wait_longer_and_longer_but_not_beyond_a_bound() {
    let mut remotes = registry();
    let mut waits = Vec::new();
    for _ in 0..8 {
        remotes.mark_failure("id", RemoteFailure::transient("down".to_string()), 0);
        waits.push(remotes.machines[0].retry_at.unwrap() / 1000);
    }
    assert_eq!(waits, [1, 2, 4, 8, 16, 32, 32, 32]);
    assert!(remotes.due_retries(31_999).is_empty());
    assert_eq!(remotes.due_retries(32_000), ["id"]);
}

#[test]
fn permanent_failures_are_final() {
    let mut remotes = registry();
    remotes.mark_failure("id", RemoteFailure::permanent("no".to_string()), 0);
    assert!(remotes.due_retries(u64::MAX).is_empty());
    assert_eq!(remotes.machines[0].error.as_deref(), Some("no"));
}
