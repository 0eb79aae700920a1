//! Configuration, keys, styles and drawing on exact values.

use zmux::config::{find_config_file, join_path, parse_config_lines, parse_key, parse_key_combo};
use zmux::draw::Draw;
use zmux::geometry::{
    content_rect, options_panel_rect, server_content_size, status_bar_screen_row, Rect,
};
use zmux::keys::{
    is_copy_line_end_key, is_resize_modifier_key, key_to_bytes, mouse_to_bytes, prefix_nav_dir,
    resize_command_for_key, xterm_modifier_param, KeyCode, KeyEvent, KeyModifiers,
    ModifierKeyCode, MouseButton, MouseEvent, MouseEventKind, NavDir,
};
use zmux::machines::config_path;
use zmux::paint::{draw_border, draw_scrollbar, scrollbar_range, BorderPart};
use zmux::pointer::{
    apply_mouse_pointer_shape, cursor_style_for_shape, write_mouse_pointer_shape, CursorStyle,
    MousePointerShape,
};
use zmux::selection::{selection_is_caret, selection_is_empty, slice_by_display_col, MouseSelection};
use zmux::style::{parse_color_str, Color};

fn held(control: bool, shift: bool, alt: bool) -> KeyModifiers {
    let mut m = KeyModifiers::none();
    m.control = control;
    m.shift = shift;
    m.alt = alt;
    m
}

fn bytes(code: KeyCode, m: KeyModifiers) -> Vec<u8> {
    key_to_bytes(KeyEvent::new(code, m))
}

#[test]
fn keys_are_sent_as_terminals_send_them() {
    let none = KeyModifiers::none();
    assert_eq!(bytes(KeyCode::Enter, none), b"\r".to_vec());
    assert_eq!(bytes(KeyCode::Up, none), b"\x1b[A".to_vec());
    assert_eq!(bytes(KeyCode::Left, held(true, false, false)), b"\x1b[1;5D".to_vec());
    assert_eq!(bytes(KeyCode::Delete, none), b"\x1b[3~".to_vec());
    assert_eq!(bytes(KeyCode::Char('你'), none), "你".as_bytes().to_vec());
    assert_eq!(bytes(KeyCode::Char('x'), held(false, false, true)), b"\x1bx".to_vec());
    assert_eq!(bytes(KeyCode::Esc, none), b"\x1b".to_vec());
    assert_eq!(xterm_modifier_param(none), 1);
    assert_eq!(xterm_modifier_param(held(true, true, true)), 8);
}

#[test]
fn the_mouse_is_sent_counting_from_one() {
    let event = |kind| MouseEvent { kind, column: 4, row: 2, modifiers: KeyModifiers::none() };
    assert_eq!(
        mouse_to_bytes(event(MouseEventKind::Down(MouseButton::Left))),
        b"\x1b[<0;5;3M".to_vec()
    );
    assert_eq!(
        mouse_to_bytes(event(MouseEventKind::Up(MouseButton::Left))),
        b"\x1b[<0;5;3m".to_vec()
    );
    assert_eq!(mouse_to_bytes(event(MouseEventKind::ScrollUp)), b"\x1b[<64;5;3M".to_vec());
}

#[test]
fn keys_behind_the_prefix_move_and_resize() {
    let key = |code, m| KeyEvent::new(code, m);
    let none = KeyModifiers::none();
    assert_eq!(prefix_nav_dir(key(KeyCode::Char('h'), none)), Some(NavDir::Left));
    assert_eq!(
        prefix_nav_dir(key(KeyCode::Char('h'), held(true, false, false))),
        Some(NavDir::Left)
    );
    assert_eq!(prefix_nav_dir(key(KeyCode::Char('x'), none)), None);
    assert!(is_resize_modifier_key(key(KeyCode::Modifier(ModifierKeyCode::LeftAlt), none)));
    assert!(!is_resize_modifier_key(key(KeyCode::Char('h'), none)));
    assert!(resize_command_for_key(key(KeyCode::Char('h'), held(false, false, true))).is_some());
    assert!(resize_command_for_key(key(KeyCode::Char('h'), none)).is_none());
    assert!(is_copy_line_end_key(key(KeyCode::Char('4'), held(false, true, false))));
}

#[test]
fn configuration_lines_are_read() {
    let lines = parse_config_lines("# note\n\nset -g  x 1\r\n  bind k  split\n", "file");
    assert_eq!(lines.len(), 2);
    assert_eq!((lines[0].command.as_str(), lines[0].args.as_str()), ("set", "-g  x 1"));
    assert_eq!(lines[0].line_num, 3);
    assert_eq!((lines[1].command.as_str(), lines[1].args.as_str()), ("bind", "k  split"));
    assert_eq!(lines[1].line_num, 4);
    assert_eq!(lines[1].source_file, "file");
}

#[test]
fn keys_are_read_from_the_configuration() {
    assert_eq!(parse_key_combo("C-a"), Some((KeyCode::Char('a'), held(true, false, false))));
    assert!(parse_key_combo("").is_none());
    assert!(parse_key(" M-x ").is_some_and(|binding| !binding.repeat));
}

#[test]
fn files_are_looked_for_in_order() {
    assert_eq!(join_path("/a", "b"), "/a/b");
    assert_eq!(join_path("/a/", "b"), "/a/b");
    assert_eq!(
        find_config_file(Some("/x".to_string()), Some("/home/u".to_string())),
        [
            "/x",
            "/home/u/.zmux.conf",
            "/home/u/.config/zmux/zmux.conf",
            "/home/u/.tmux.conf",
            "/etc/zmux.conf"
        ]
    );
    assert_eq!(find_config_file(Some("/x".to_string()), None), ["/x"]);
    assert_eq!(
        config_path(Some("/etc".to_string()), Some("/c".to_string()), None).as_deref(),
        Some("/etc/machines.json")
    );
    assert_eq!(
        config_path(None, Some("/c".to_string()), Some("/home/u".to_string())).as_deref(),
        Some("/c/zmux/machines.json")
    );
    assert_eq!(
        config_path(None, None, Some("/home/u".to_string())).as_deref(),
        Some("/home/u/.config/zmux/machines.json")
    );
    assert_eq!(config_path(None, None, None), None);
}

#[test]
fn colors_are_read() {
    assert_eq!(parse_color_str("red"), Color::Red);
    assert_eq!(parse_color_str("idx:200"), Color::Indexed(200));
    assert_eq!(parse_color_str("rgb:1,2,3"), Color::Rgb(1, 2, 3));
}

#[test]
fn areas_are_worked_out() {
    assert_eq!(content_rect(Rect::new(2, 3, 10, 8), false), Rect::new(3, 4, 8, 6));
    assert_eq!(content_rect(Rect::new(2, 3, 2, 8), false), Rect::new(2, 3, 2, 8));
    assert_eq!(content_rect(Rect::new(2, 3, 10, 8), true), Rect::new(2, 3, 10, 8));
    assert_eq!(status_bar_screen_row(24, false), Some(23));
    assert_eq!(status_bar_screen_row(24, true), None);
    assert_eq!(status_bar_screen_row(1, false), None);
    let size = server_content_size(80, 24, false);
    assert_eq!((size.rows, size.cols), (24, 80));
    let panel = options_panel_rect(Rect::new(0, 0, 100, 40));
    assert!(panel.width <= 100 && panel.height <= 40);
}

#[test]
fn a_scroll_bar_has_a_thumb_of_a_quarter() {
    assert_eq!(scrollbar_range(2), None);
    assert_eq!(scrollbar_range(3), Some(2));
    assert_eq!(scrollbar_range(8), Some(6));
    let area = Rect::new(0, 5, 10, 8);
    let glyphs: Vec<String> = draw_scrollbar(area, 3)
        .into_iter()
        .map(|step| match step {
            Draw::Line { area, spans, .. } => {
                assert_eq!(area.x, 9);
                spans[0].text.clone()
            }
            _ => panic!("a scroll bar is made of lines"),
        })
        .collect();
    assert_eq!(glyphs, ["│", "│", "│", "┃", "┃", "│", "│", "│"]);
    assert!(draw_scrollbar(Rect::new(0, 0, 10, 2), 0).is_empty());
}

#[test]
fn a_border_lies_on_the_edge() {
    let cells = draw_border(Rect::new(2, 3, 5, 4));
    assert_eq!(cells.len(), 14);
    let part = |x: u16, y: u16| {
        let mut found = cells.iter().filter(|cell| (cell.x, cell.y) == (x, y));
        let first = found.next().map(|cell| cell.part);
        assert!(found.next().is_none());
        first
    };
    assert_eq!(part(2, 3), Some(BorderPart::TopLeft));
    assert_eq!(part(6, 6), Some(BorderPart::BottomRight));
    assert_eq!(part(4, 3), Some(BorderPart::Top));
    assert_eq!(part(4, 6), Some(BorderPart::Bottom));
    assert_eq!(part(2, 5), Some(BorderPart::Left));
    assert_eq!(part(6, 4), Some(BorderPart::Right));
    assert_eq!(part(3, 4), None);
    assert!(draw_border(Rect::new(0, 0, 1, 9)).is_empty());
}

#[test]
fn the_pointer_is_set_once() {
    let mut applied = None;
    let first = apply_mouse_pointer_shape(&mut applied, Some(MousePointerShape::Text), false);
    assert_eq!(first, Some(write_mouse_pointer_shape(MousePointerShape::Text)));
    assert_eq!(
        apply_mouse_pointer_shape(&mut applied, Some(MousePointerShape::Text), false),
        None
    );
    assert!(
        apply_mouse_pointer_shape(&mut applied, Some(MousePointerShape::Text), true).is_some()
    );
    assert_eq!(MousePointerShape::Text.osc_name(), "text");
    assert_eq!(cursor_style_for_shape(Some(2)), CursorStyle::SteadyBlock);
    assert_eq!(cursor_style_for_shape(None), CursorStyle::DefaultUserShape);
}

#[test]
fn columns_are_cut_out_of_a_text() {
    assert_eq!(slice_by_display_col("a你bc", 1, 4), "你b");
    let caret = MouseSelection { start_col: 3, start_row: 1, end_col: 3, end_row: 1 };
    assert!(selection_is_caret(&caret));
    let one = MouseSelection { start_col: 3, start_row: 1, end_col: 4, end_row: 1 };
    assert!(!selection_is_empty(&one));
}
