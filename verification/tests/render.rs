use base64::engine::general_purpose::STANDARD;
use base64::Engine;
use ratatui::buffer::Buffer;
use unicode_width::UnicodeWidthChar;
use zmux::ansi::{
    restore_mouse_selection_ansi, write_active_pane_selection_ansi, write_rows_v2_rect_ansi,
    PaneSelection,
};
use zmux::draw::{unicode_display_width, Draw};
use zmux::frame::{
    active_cursor_shape, active_window_index, layout_geometry_fingerprint, CellRunJson, FrameData,
    LayoutJson, RowRunsJson, StatusJson, WindowTabJson,
};
use zmux::geometry::{
    navigation_popup_content_rect, navigation_popup_rect, split_layout_rects, Rect,
};
use zmux::help::{
    all_shortcuts, navigation_help_max_scroll, shortcuts_help_max_scroll, wrapped_help_lines,
};
use zmux::navigation::{build_navigation_entries, NavigationState};
use zmux::paint::status_window_tab_hit;
use zmux::panels::{render_navigation_popup, render_navigation_sidebar};
use zmux::server_ansi::write_server_ansi;
use zmux::style::{parse_bg_color_str, Color};

fn intersection(a: Rect, b: Rect) -> Rect {
    let x = a.x.max(b.x);
    let y = a.y.max(b.y);
    let right = (a.x + a.width).min(b.x + b.width);
    let bottom = (a.y + a.height).min(b.y + b.height);
    Rect::new(x, y, right.saturating_sub(x), bottom.saturating_sub(y))
}

fn pane_selection(start_row: u16, start_col: u16, end_row: u16, end_col: u16) -> PaneSelection {
    PaneSelection { start_row, start_col, end_row, end_col }
}

/// The glyphs that a plan leaves on the screen.
fn painted(screen: Rect, plan: &[Draw]) -> Buffer {
    let whole = ratatui::layout::Rect::new(screen.x, screen.y, screen.width, screen.height);
    let mut buffer = Buffer::empty(whole);
    let blank = |buffer: &mut Buffer, area: &Rect| {
        for y in area.y..area.y + area.height {
            for x in area.x..area.x + area.width {
                buffer[(x, y)].set_symbol(" ");
            }
        }
    };
    for step in plan {
        match step {
            Draw::Fill { area, .. } | Draw::Clear(area) => blank(&mut buffer, area),
            Draw::Line { area, spans, .. } => {
                let text: String = spans.iter().map(|span| span.text.as_str()).collect();
                let style = ratatui::style::Style::default();
                buffer.set_stringn(area.x, area.y, text, area.width as usize, style);
            }
            Draw::Panel { area, title, .. } => {
                blank(&mut buffer, area);
                let style = ratatui::style::Style::default();
                buffer.set_stringn(area.x + 1, area.y, title, area.width as usize, style);
            }
            Draw::Rule { x, y, height, .. } => {
                for row in *y..*y + *height {
                    buffer[(*x, row)].set_symbol("|");
                }
            }
            _ => {}
        }
    }
    buffer
}

#[test]
fn floating_navigation_geometry_stays_inside_tiny_and_large_terminals() {
    for (width, height) in
        [(0, 0), (1, 1), (8, 3), (50, 12), (120, 28), (240, 80)]
    {
        let area = Rect::new(4, 5, width, height);
        let panel = navigation_popup_rect(area);
        let content = navigation_popup_content_rect(area);
        assert_eq!(intersection(panel, area), panel);
        assert_eq!(intersection(content, panel), content);
        assert!(panel.width <= 68 && panel.height <= 26);
    }
}

#[test]
fn navigation_starts_with_machine_without_title_or_count_rows() {
    let entries = build_navigation_entries(
        "local",
        "MACHINE-01",
        &[],
        &NavigationState::default(),
    );
    for popup in [false, true] {
        for focused in [false, true] {
            let screen = Rect::new(0, 0, 80, 24);
            let area = if popup {
                navigation_popup_content_rect(screen)
            } else {
                Rect::new(0, 0, 30, 24)
            };
            let plan = if popup {
                render_navigation_popup(&entries, 0, screen)
            } else {
                render_navigation_sidebar(&entries, 0, focused, area)
            };
            let buffer = painted(screen, &plan);
            let right = area.x + area.width;
            let bottom = area.y + area.height;
            let first_row: String =
                (area.x..right).map(|x| buffer[(x, area.y)].symbol()).collect();
            assert!(first_row.contains("MACHINE-01"), "{first_row}");
            let content: String = (area.y..bottom)
                .flat_map(|y| (area.x..right).map(move |x| (x, y)))
                .map(|at| buffer[at].symbol())
                .collect();
            for removed in ["ZMUX", "NAV", "WORKSPACES"] {
                assert!(
                    !content.contains(removed),
                    "unexpected header: {removed}"
                );
            }
        }
    }
}

#[test]
fn full_help_covers_all_modes_without_truncating_narrow_lines() {
    let full = all_shortcuts();
    for section in [
        "[ Sidebar ]",
        "[ Copy mode ]",
        "[ Command / rename / search prompts ]",
        "[ Runtime options: Prefix+O ]",
        "[ Pane resize mode ]",
        "[ Mouse ]",
        "[ Help popup ]",
    ] {
        assert!(full.contains(&section), "missing {section}");
    }
    assert!(full
        .iter()
        .any(|line| line.starts_with("Prefix+H")
            && line.contains("Workspace")));
    assert!(full.iter().any(|line| line.contains("h/help")));
    let area = Rect::new(0, 0, 30, 12);
    let wrapped = wrapped_help_lines(area, &full);
    assert_eq!(wrapped.concat(), full.concat());
    assert!(wrapped.iter().all(|line| line.len() <= 26));
    assert!(
        shortcuts_help_max_scroll(area) > navigation_help_max_scroll(area)
    );
}

#[test]
fn write_server_ansi_wraps_synchronized_update() {
    let payload = b"hello";
    let b64 = STANDARD.encode(payload);
    let mut out = Vec::new();
    write_server_ansi(&mut out, &b64).unwrap();
    assert!(
        out.starts_with(b"\x1b[?2026h\x1b[?25l\x1b[?7l"),
        "cursor hide and wrap-disable must be buffered inside the synchronized update, got {out:?}"
    );
    assert!(
        out.ends_with(b"\x1b[?2026l"),
        "expected ESU suffix, got {out:?}"
    );
    assert!(out.windows(payload.len()).any(|w| w == payload));
}

#[test]
fn write_server_ansi_skips_empty_payload() {
    let b64 = STANDARD.encode(b"");
    let mut out = Vec::new();
    write_server_ansi(&mut out, &b64).unwrap();
    assert!(out.is_empty(), "empty ansi must not emit sync markers");
}

#[test]
fn status_window_tab_hit_matches_rendered_labels() {
    let status = StatusJson {
        left: "[main]".to_string(),
        right: String::new(),
        windows: vec![
            WindowTabJson {
                index: 0,
                name: "zsh".to_string(),
                active: true,
            },
            WindowTabJson {
                index: 1,
                name: "vim".to_string(),
                active: false,
            },
        ],
    };
    let left_width = unicode_display_width(" [main] ");
    let first_width = unicode_display_width(" *[0] zsh* ");
    assert_eq!(
        status_window_tab_hit(&status, 120, left_width as u16),
        Some(0)
    );
    assert_eq!(
        status_window_tab_hit(
            &status,
            120,
            (left_width + first_width + 1) as u16
        ),
        Some(1)
    );
}

#[test]
fn split_layout_rects_keeps_server_gap_rules() {
    let rects = split_layout_rects(
        Rect {
            x: 0,
            y: 0,
            width: 80,
            height: 23,
        },
        "vertical",
        &[50, 50],
        2,
        false,
    );
    assert_eq!(
        rects,
        vec![
            Rect {
                x: 0,
                y: 0,
                width: 80,
                height: 11,
            },
            Rect {
                x: 0,
                y: 12,
                width: 80,
                height: 11,
            },
        ]
    );
}

#[test]
fn active_cursor_shape_returns_active_leaf_shape() {
    let fd = FrameData {
        frame_type: "frame".to_string(),
        layout: LayoutJson::Split {
            direction: "horizontal".to_string(),
            sizes: vec![50, 50],
            children: vec![
                LayoutJson::Leaf {
                    id: 1,
                    rows: 10,
                    cols: 10,
                    cursor_row: 0,
                    cursor_col: 0,
                    hide_cursor: false,
                    alternate_screen: false,
                    mouse_mode: 0,
                    in_copy_mode: false,
                    scroll_ratio: None,
                    cursor_shape: 2,
                    active: false,
                    rows_v2: Vec::new(),
                    title: None,
                },
                LayoutJson::Leaf {
                    id: 2,
                    rows: 10,
                    cols: 10,
                    cursor_row: 0,
                    cursor_col: 0,
                    hide_cursor: false,
                    alternate_screen: false,
                    mouse_mode: 0,
                    in_copy_mode: false,
                    scroll_ratio: None,
                    cursor_shape: 4,
                    active: true,
                    rows_v2: Vec::new(),
                    title: None,
                },
            ],
        },
        status: None,
        ansi: None,
        exit: false,
        yank_text: None,
    };

    assert_eq!(active_cursor_shape(&fd), Some(4));
}

#[test]
fn layout_geometry_fingerprint_tracks_all_panes() {
    let layout = LayoutJson::Split {
        direction: "horizontal".to_string(),
        sizes: vec![50, 50],
        children: vec![
            LayoutJson::Leaf {
                id: 1,
                rows: 20,
                cols: 40,
                cursor_row: 0,
                cursor_col: 0,
                hide_cursor: false,
                alternate_screen: false,
                mouse_mode: 0,
                in_copy_mode: false,
                scroll_ratio: None,
                cursor_shape: 0,
                active: true,
                rows_v2: Vec::new(),
                title: None,
            },
            LayoutJson::Leaf {
                id: 2,
                rows: 20,
                cols: 39,
                cursor_row: 0,
                cursor_col: 0,
                hide_cursor: false,
                alternate_screen: false,
                mouse_mode: 0,
                in_copy_mode: false,
                scroll_ratio: None,
                cursor_shape: 0,
                active: false,
                rows_v2: Vec::new(),
                title: None,
            },
        ],
    };
    assert_eq!(
        layout_geometry_fingerprint(&layout),
        vec![(1, 20, 40), (2, 20, 39)]
    );
}

#[test]
fn parse_bg_color_str_maps_default_to_terminal_reset() {
    assert_eq!(parse_bg_color_str("default"), Color::Reset);
    assert_eq!(parse_bg_color_str(""), Color::Reset);
    assert_eq!(parse_bg_color_str("green"), Color::Green);
}

#[test]
fn active_window_index_returns_active_tab() {
    let fd = FrameData {
        frame_type: "frame".to_string(),
        layout: LayoutJson::Leaf {
            id: 1,
            rows: 10,
            cols: 10,
            cursor_row: 0,
            cursor_col: 0,
            hide_cursor: false,
            alternate_screen: false,
            mouse_mode: 0,
            in_copy_mode: false,
            scroll_ratio: None,
            cursor_shape: 0,
            active: true,
            rows_v2: Vec::new(),
            title: None,
        },
        status: Some(StatusJson {
            left: "[main]".to_string(),
            right: String::new(),
            windows: vec![
                WindowTabJson {
                    index: 0,
                    name: "zsh".to_string(),
                    active: false,
                },
                WindowTabJson {
                    index: 1,
                    name: "shell".to_string(),
                    active: true,
                },
            ],
        }),
        ansi: None,
        exit: false,
        yank_text: None,
    };

    assert_eq!(active_window_index(&fd), Some(1));
}

#[test]
fn active_cursor_shape_ignores_hidden_cursor() {
    let fd = FrameData {
        frame_type: "frame".to_string(),
        layout: LayoutJson::Leaf {
            id: 1,
            rows: 10,
            cols: 10,
            cursor_row: 0,
            cursor_col: 0,
            hide_cursor: true,
            alternate_screen: false,
            mouse_mode: 0,
            in_copy_mode: false,
            scroll_ratio: None,
            cursor_shape: 6,
            active: true,
            rows_v2: Vec::new(),
            title: None,
        },
        status: None,
        ansi: None,
        exit: false,
        yank_text: None,
    };

    assert_eq!(active_cursor_shape(&fd), None);
}

fn cellrun(text: &str, fg: &str) -> CellRunJson {
    CellRunJson {
        text: text.to_string(),
        fg: fg.to_string(),
        bg: "default".to_string(),
        flags: 0,
        width: unicode_display_width(text) as u16,
    }
}

fn row_from_runs(runs: Vec<CellRunJson>) -> RowRunsJson {
    let end_col = runs.iter().map(|r| r.width as usize).sum();
    RowRunsJson {
        runs,
        line: None,
        start_col: 0,
        end_col,
    }
}

fn active_leaf_frame(cols: u16, rows_v2: Vec<RowRunsJson>) -> FrameData {
    FrameData {
        frame_type: "frame".to_string(),
        layout: LayoutJson::Leaf {
            id: 1,
            rows: rows_v2.len() as u16,
            cols,
            cursor_row: 0,
            cursor_col: 0,
            hide_cursor: false,
            alternate_screen: false,
            mouse_mode: 0,
            in_copy_mode: false,
            scroll_ratio: None,
            cursor_shape: 0,
            active: true,
            rows_v2,
            title: None,
        },
        status: None,
        ansi: None,
        exit: false,
        yank_text: None,
    }
}

#[test]
fn selection_restore_reapplies_color_after_each_cursor_reset() {
    // `write_rows_v2_rect_ansi` uses vte_goto per cell. Since that helper
    // resets SGR, both glyphs must explicitly reapply their red foreground.
    let rows = vec![row_from_runs(vec![cellrun("AB", "red")])];
    let area = Rect {
        x: 0,
        y: 0,
        width: 2,
        height: 1,
    };
    let out = write_rows_v2_rect_ansi(&rows, area, 0, 0, 0, 2);
    assert_eq!(
        out.matches("\x1b[31m").count(),
        2,
        "both restored cells must retain red after vte_goto: {out:?}"
    );
}

/// Decode the raw ANSI the selection overlay emits into `(row, col, char,
/// highlighted)` cells. The overlay uses absolute cursor jumps and SGR
/// background `46` (cyan) for the highlight, so we replay those to learn where
/// each glyph actually lands and whether it is highlighted.
fn decode_selection_ansi(out: &str) -> Vec<(u16, u16, char, bool)> {
    let mut cells = Vec::new();
    let mut row = 0u16;
    let mut col = 0u16;
    let mut bg_cyan = false;
    let mut chars = out.chars();
    while let Some(c) = chars.next() {
        if c != '\x1b' {
            cells.push((row, col, c, bg_cyan));
            col += UnicodeWidthChar::width(c).unwrap_or(1) as u16;
            continue;
        }
        if chars.next() != Some('[') {
            continue;
        }
        let mut params = String::new();
        let final_byte = loop {
            match chars.next() {
                Some(ch) if ch.is_ascii_digit() || ch == ';' => {
                    params.push(ch)
                }
                Some(ch) => break ch,
                None => return cells,
            }
        };
        match final_byte {
            'H' => {
                let mut it = params.split(';');
                let r = it
                    .next()
                    .and_then(|s| s.parse::<u16>().ok())
                    .unwrap_or(1);
                let cc = it
                    .next()
                    .and_then(|s| s.parse::<u16>().ok())
                    .unwrap_or(1);
                row = r.saturating_sub(1);
                col = cc.saturating_sub(1);
            }
            'm' => {
                if params.is_empty() {
                    bg_cyan = false;
                } else {
                    for p in params.split(';') {
                        match p {
                            "0" | "" => bg_cyan = false,
                            "46" => bg_cyan = true,
                            "49" => bg_cyan = false,
                            _ => {}
                        }
                    }
                }
            }
            _ => {}
        }
    }
    cells
}

fn row_cells(
    cells: &[(u16, u16, char, bool)],
    row: u16,
) -> Vec<(u16, char, bool)> {
    cells
        .iter()
        .filter(|c| c.0 == row)
        .map(|c| (c.1, c.2, c.3))
        .collect()
}

#[test]
fn selection_overlay_keeps_full_row_and_highlights_exact_columns() {
    // Regression: selecting "BC" in "ABCDEFG" must keep every glyph on the
    // line (no swallow) and place B/C at their original columns (no drift).
    let fd = active_leaf_frame(
        7,
        vec![row_from_runs(vec![cellrun("ABCDEFG", "default")])],
    );
    let area = Rect {
        x: 0,
        y: 0,
        width: 7,
        height: 1,
    };
    let out = write_active_pane_selection_ansi(
        &fd,
        area,
        true,
        0,
        0,
        pane_selection(0, 1, 0, 3),
    )
    .unwrap();
    let cells = decode_selection_ansi(&out);
    assert_eq!(
        row_cells(&cells, 0),
        vec![
            (0, 'A', false),
            (1, 'B', true),
            (2, 'C', true),
            (3, 'D', false),
            (4, 'E', false),
            (5, 'F', false),
            (6, 'G', false),
        ]
    );
}

#[test]
fn selection_overlay_preserves_styled_prefix_before_selection() {
    // Regression for the "deleted by us:" swallow: selecting text after a
    // styled prefix must repaint the whole line, leaving the prefix intact
    // and unhighlighted.
    let prefix = "deleted by us: ";
    let suffix = "file";
    let prefix_len = unicode_display_width(prefix) as u16;
    let cols =
        unicode_display_width(prefix) + unicode_display_width(suffix);
    let fd = active_leaf_frame(
        cols as u16,
        vec![row_from_runs(vec![
            cellrun(prefix, "red"),
            cellrun(suffix, "default"),
        ])],
    );
    let area = Rect {
        x: 0,
        y: 0,
        width: cols as u16,
        height: 1,
    };
    let out = write_active_pane_selection_ansi(
        &fd,
        area,
        true,
        0,
        0,
        pane_selection(0, prefix_len, 0, cols as u16),
    )
    .unwrap();
    let cells = decode_selection_ansi(&out);
    let text: String = row_cells(&cells, 0).iter().map(|c| c.1).collect();
    assert_eq!(text, format!("{prefix}{suffix}"));
    assert!(cells
        .iter()
        .filter(|c| c.0 == 0 && c.1 < prefix_len)
        .all(|c| !c.3));
    assert!(cells
        .iter()
        .filter(|c| c.0 == 0 && c.1 >= prefix_len)
        .all(|c| c.3));
}

#[test]
fn selection_overlay_clears_previously_highlighted_cells() {
    // Regression: when the selection shrinks, repainting the full row must
    // clear stale highlight so only the current selection stays highlighted.
    let fd = active_leaf_frame(
        7,
        vec![row_from_runs(vec![cellrun("ABCDEFG", "default")])],
    );
    let area = Rect {
        x: 0,
        y: 0,
        width: 7,
        height: 1,
    };
    let out = write_active_pane_selection_ansi(
        &fd,
        area,
        true,
        0,
        0,
        pane_selection(0, 2, 0, 3),
    )
    .unwrap();
    let cells = decode_selection_ansi(&out);
    let highlighted: Vec<(u16, char)> = cells
        .iter()
        .filter(|c| c.0 == 0 && c.3)
        .map(|c| (c.1, c.2))
        .collect();
    assert_eq!(highlighted, vec![(2, 'C')]);
}

#[test]
fn selection_overlay_anchors_every_grid_cell() {
    // A host terminal may draw a Nerd Font PUA glyph wider than rows_v2
    // reports. The following cell must still be moved back to its logical
    // column so the highlight cannot drift outside the selection bounds.
    let icon = char::from_u32(0xE0A0).unwrap();
    let fd = active_leaf_frame(
        3,
        vec![row_from_runs(vec![cellrun(&format!("{icon}B"), "default")])],
    );
    let area = Rect {
        x: 0,
        y: 0,
        width: 3,
        height: 1,
    };
    let out = write_active_pane_selection_ansi(
        &fd,
        area,
        true,
        0,
        0,
        pane_selection(0, 0, 0, 2),
    )
    .unwrap();
    assert!(
        out.contains("\x1b[1;2H"),
        "the cell after a PUA glyph must be absolutely positioned: {out:?}"
    );
    assert!(
        out.contains("\x1b[1;3H"),
        "trailing padding must also be absolutely positioned: {out:?}"
    );
}

#[test]
fn selection_restore_repaints_full_rows_and_trailing_blanks() {
    // Restoring only the selected rectangle leaves any highlight that
    // drifted because of a host-width disagreement untouched. Clearing a
    // selection must repaint the complete affected row, including padding.
    let fd = active_leaf_frame(
        4,
        vec![row_from_runs(vec![cellrun("AB", "default")])],
    );
    let area = Rect {
        x: 0,
        y: 0,
        width: 4,
        height: 1,
    };
    let out = restore_mouse_selection_ansi(&fd, 0, 1, 0, 2, area, true).unwrap();
    assert!(
        out.contains("\x1b[4X"),
        "restore must erase the complete row without wrapping: {out:?}"
    );
    let cells = decode_selection_ansi(&out);
    assert_eq!(
        row_cells(&cells, 0),
        vec![
            (0, 'A', false),
            (1, 'B', false),
            (2, ' ', false),
            (3, ' ', false),
        ]
    );
}

#[test]
fn selection_overlay_handles_wide_chars_without_drift() {
    // Regression: a double-width glyph must keep following text at the right
    // column. "A你B": 你 spans cols 1..3, B sits at col 3.
    let fd = active_leaf_frame(
        4,
        vec![row_from_runs(vec![cellrun("A你B", "default")])],
    );
    let area = Rect {
        x: 0,
        y: 0,
        width: 4,
        height: 1,
    };
    let out = write_active_pane_selection_ansi(
        &fd,
        area,
        true,
        0,
        0,
        pane_selection(0, 1, 0, 3),
    )
    .unwrap();
    let cells = decode_selection_ansi(&out);
    assert_eq!(
        row_cells(&cells, 0),
        vec![(0, 'A', false), (1, '你', true), (3, 'B', false)]
    );
}

#[test]
fn selection_overlay_spans_multiple_rows() {
    // Regression: a block selection from (row0,col2) to (row1,col2) must
    // highlight the tail of the first row and the head of the second row,
    // while keeping all glyphs in place.
    let fd = active_leaf_frame(
        5,
        vec![
            row_from_runs(vec![cellrun("ABCDE", "default")]),
            row_from_runs(vec![cellrun("FGHIJ", "default")]),
        ],
    );
    let area = Rect {
        x: 0,
        y: 0,
        width: 5,
        height: 2,
    };
    let out = write_active_pane_selection_ansi(
        &fd,
        area,
        true,
        0,
        1,
        pane_selection(0, 2, 1, 2),
    )
    .unwrap();
    let cells = decode_selection_ansi(&out);
    assert_eq!(
        row_cells(&cells, 0),
        vec![
            (0, 'A', false),
            (1, 'B', false),
            (2, 'C', true),
            (3, 'D', true),
            (4, 'E', true),
        ]
    );
    assert_eq!(
        row_cells(&cells, 1),
        vec![
            (0, 'F', true),
            (1, 'G', true),
            (2, 'H', false),
            (3, 'I', false),
            (4, 'J', false),
        ]
    );
}
