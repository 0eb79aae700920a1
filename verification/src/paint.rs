//! Plans for the panes and the status bar.

use crate::draw;
use crate::frame;
use crate::geometry;
use crate::navigation;
use crate::panels;
use crate::style;
use crate::text;
use crate::draw::{Draw, DrawV, SpanV, StyledSpan};
use crate::frame::{CellRunJson, FrameData, LayoutJson, RowRunsJson, StatusJson, WindowTabJson};
use crate::geometry::Rect;
use crate::panels::Tone;
use crate::style::{Color, SpanStyle};
use vstd::prelude::*;

verus! {

/// A window's label on the status bar.
pub open spec fn tab_label(w: WindowTabJson) -> Seq<char> {
    if w.active {
        " *["@ + text::decimal(w.index as nat) + "] "@ + w.name@ + "* "@
    } else {
        "  ["@ + text::decimal(w.index as nat) + "] "@ + w.name@ + "  "@
    }
}

fn tab_text(w: &WindowTabJson) -> (r: String)
    ensures
        r@ == tab_label(*w),
{
    let mut out = String::new();
    out.append(
        if w.active {
            " *["
        } else {
            "  ["
        },
    );
    text::push_decimal(&mut out, w.index as u64);
    out.append("] ");
    out.append(w.name.as_str());
    out.append(
        if w.active {
            "* "
        } else {
            "  "
        },
    );
    proof {
        assert(out@ =~= tab_label(*w));
    }
    out
}

/// Columns of the first `n` windows' labels.
pub open spec fn tabs_width(windows: Seq<WindowTabJson>, n: int) -> nat
    decreases n,
{
    if n <= 0 {
        0
    } else {
        tabs_width(windows, n - 1) + text::columns(tab_label(windows[n - 1]))
    }
}

pub open spec fn tab_style(active: bool) -> SpanStyle {
    if active {
        style::colored(Some(Color::White), Some(Color::Blue), true)
    } else {
        style::colored(Some(Color::White), Some(Tone::Tab.value()), false)
    }
}

/// The first `n` windows' labels.
pub open spec fn tab_spans(windows: Seq<WindowTabJson>, n: int) -> Seq<SpanV>
    decreases n,
{
    if n <= 0 {
        Seq::empty()
    } else {
        tab_spans(windows, n - 1).push(
            SpanV { text: tab_label(windows[n - 1]), style: tab_style(windows[n - 1].active) },
        )
    }
}

/// A text with a blank on either side.
pub open spec fn spaced(s: Seq<char>) -> Seq<char> {
    " "@ + s + " "@
}

fn with_blanks(s: &str) -> (r: String)
    ensures
        r@ == spaced(s@),
{
    let mut out = String::new();
    out.append(" ");
    out.append(s);
    out.append(" ");
    proof {
        assert(out@ =~= spaced(s@));
    }
    out
}

/// Black on a colour, bold.
pub open spec fn badge(bg: Color) -> SpanStyle {
    style::colored(Some(Color::Black), Some(bg), true)
}

/// The mark of a pending prefix, where there is one.
pub open spec fn prefix_spans(in_prefix: bool) -> Seq<SpanV> {
    if in_prefix {
        seq![SpanV { text: " PREFIX "@, style: badge(Color::Yellow) }]
    } else {
        Seq::empty()
    }
}

pub open spec fn prefix_columns(in_prefix: bool) -> nat {
    if in_prefix {
        text::columns(" PREFIX "@)
    } else {
        0
    }
}

/// Blanks between the two sides of the status bar.
pub open spec fn pad_spans(n: int) -> Seq<SpanV> {
    if n > 0 {
        seq![SpanV { text: draw::spaces(n), style: panels::back(Tone::Panel.value()) }]
    } else {
        Seq::empty()
    }
}

/// What stands at the right of the status bar, cut to the room that is left.
pub open spec fn right_text(right: Seq<char>, room: int) -> Seq<char> {
    draw::end_fitted(text::trimmed(right), text::max_int(room - 2, 0))
}

pub open spec fn right_spans(right: Seq<char>, room: int) -> Seq<SpanV> {
    if right_text(right, room).len() == 0 {
        Seq::empty()
    } else {
        seq![SpanV { text: spaced(right_text(right, room)), style: badge(Color::Yellow) }]
    }
}

pub open spec fn right_columns(right: Seq<char>, room: int) -> nat {
    if right_text(right, room).len() == 0 {
        0
    } else {
        text::columns(spaced(right_text(right, room)))
    }
}

/// The status bar of a session: its name, its windows, and at the right a message and the mark of
/// a pending prefix.
pub open spec fn status_spans(
    left: Seq<char>,
    right: Seq<char>,
    windows: Seq<WindowTabJson>,
    width: int,
    in_prefix: bool,
) -> Seq<SpanV> {
    let n = windows.len() as int;
    let used = text::columns(spaced(left)) + tabs_width(windows, n);
    let room = text::max_int(width - (used + prefix_columns(in_prefix)), 0);
    let pad = width - (used + prefix_columns(in_prefix) + right_columns(right, room));
    seq![SpanV { text: spaced(left), style: badge(Color::Green) }] + tab_spans(windows, n)
        + pad_spans(pad) + right_spans(right, room) + prefix_spans(in_prefix)
}

/// The status bar before a session is known.
pub open spec fn bare_status_spans(width: int, in_prefix: bool) -> Seq<SpanV> {
    let used = text::columns(" [zmux] "@);
    seq![SpanV { text: " [zmux] "@, style: badge(Color::Green) }] + (if in_prefix {
        pad_spans(width - (used + prefix_columns(true))) + prefix_spans(true)
    } else {
        Seq::empty()
    })
}

/// The status bar; a message of the client takes the place of what a session has at the right.
pub open spec fn status_plan(
    status: Option<StatusJson>,
    banner: Option<Seq<char>>,
    area: Rect,
    in_prefix: bool,
) -> Seq<DrawV> {
    if area.height == 0 {
        Seq::empty()
    } else {
        seq![
            DrawV::Fill { area, style: panels::on(Color::White, Tone::Panel.value()) },
            DrawV::Line {
                area,
                spans: match status {
                    Some(s) => status_spans(
                        s.left@,
                        match banner {
                            Some(b) => b,
                            None => s.right@,
                        },
                        s.windows@,
                        area.width as int,
                        in_prefix,
                    ),
                    None => bare_status_spans(area.width as int, in_prefix),
                },
                base: style::no_style(),
            },
        ]
    }
}

fn add_pad(spans: &mut Vec<StyledSpan>, n: usize)
    ensures
        draw::span_views(final(spans)@) == draw::span_views(old(spans)@) + pad_spans(n as int),
{
    let ghost before = draw::span_views(spans@);
    if n > 0 {
        draw::add_span(spans, draw::blank(n), SpanStyle::of(None, Some(Tone::Panel.color()), false));
    }
    proof {
        assert(draw::span_views(spans@) =~= before + pad_spans(n as int));
    }
}

fn add_prefix(spans: &mut Vec<StyledSpan>, in_prefix: bool)
    ensures
        draw::span_views(final(spans)@) == draw::span_views(old(spans)@) + prefix_spans(in_prefix),
{
    let ghost before = draw::span_views(spans@);
    if in_prefix {
        draw::add_span(
            spans,
            " PREFIX ".to_string(),
            SpanStyle::of(Some(Color::Black), Some(Color::Yellow), true),
        );
    }
    proof {
        assert(draw::span_views(spans@) =~= before + prefix_spans(in_prefix));
    }
}

fn session_spans(status: &StatusJson, right: &str, width: usize, in_prefix: bool) -> (r: Vec<
    StyledSpan,
>)
    ensures
        draw::span_views(r@) == status_spans(
            status.left@,
            right@,
            status.windows@,
            width as int,
            in_prefix,
        ),
{
    let ghost windows = status.windows@;
    let mut spans: Vec<StyledSpan> = Vec::new();
    let left = with_blanks(status.left.as_str());
    let mut used: usize = draw::unicode_display_width(left.as_str());
    let ghost left_columns = text::columns(left@);
    let ghost first = SpanV { text: spaced(status.left@), style: badge(Color::Green) };
    draw::add_span(&mut spans, left, SpanStyle::of(Some(Color::Black), Some(Color::Green), true));
    proof {
        assert(draw::span_views(Seq::<StyledSpan>::empty()) =~= Seq::empty());
        assert(draw::span_views(spans@) =~= seq![first] + tab_spans(windows, 0));
    }
    let mut i: usize = 0;
    while i < status.windows.len()
        invariant
            windows == status.windows@,
            i <= windows.len(),
            used == text::clip(left_columns + tabs_width(windows, i as int)),
            draw::span_views(spans@) == seq![first] + tab_spans(windows, i as int),
        decreases windows.len() - i,
    {
        let w = &status.windows[i];
        let label = tab_text(w);
        used = used.saturating_add(draw::unicode_display_width(label.as_str()));
        let ghost had = tab_spans(windows, i as int);
        let ghost tab = SpanV { text: label@, style: tab_style(w.active) };
        let style: SpanStyle = if w.active {
            SpanStyle::of(Some(Color::White), Some(Color::Blue), true)
        } else {
            SpanStyle::of(Some(Color::White), Some(Tone::Tab.color()), false)
        };
        draw::add_span(&mut spans, label, style);
        proof {
            assert((seq![first] + had).push(tab) =~= seq![first] + had.push(tab));
        }
        i = i + 1;
    }
    let ghost total = left_columns + tabs_width(windows, windows.len() as int);
    let prefix_width: usize = if in_prefix {
        draw::unicode_display_width(" PREFIX ")
    } else {
        0
    };
    let taken: usize = used.saturating_add(prefix_width);
    let room: usize = width.saturating_sub(taken);
    let bare = text::trim(text::chars_of(right).as_slice());
    let text = draw::truncate_left_to_width(text::string_of(bare.as_slice()).as_str(), room.saturating_sub(2));
    let ghost said = right_text(right@, room as int);
    proof {
        assert(text@ == said);
    }
    let shown: bool = text.as_str().unicode_len() > 0;
    let badge_text = with_blanks(text.as_str());
    let badge_width: usize = if shown {
        draw::unicode_display_width(badge_text.as_str())
    } else {
        0
    };
    let pad: usize = width.saturating_sub(taken.saturating_add(badge_width));
    proof {
        assert(room == text::max_int(width - (total + prefix_columns(in_prefix)), 0));
        assert(badge_width == text::clip(right_columns(right@, room as int)));
        assert(pad == text::max_int(
            width - (total + prefix_columns(in_prefix) + right_columns(right@, room as int)),
            0,
        ));
    }
    add_pad(&mut spans, pad);
    let ghost before = draw::span_views(spans@);
    if shown {
        draw::add_span(
            &mut spans,
            badge_text,
            SpanStyle::of(Some(Color::Black), Some(Color::Yellow), true),
        );
    }
    proof {
        assert(draw::span_views(spans@) =~= before + right_spans(right@, room as int));
    }
    add_prefix(&mut spans, in_prefix);
    spans
}

fn bare_spans(width: usize, in_prefix: bool) -> (r: Vec<StyledSpan>)
    ensures
        draw::span_views(r@) == bare_status_spans(width as int, in_prefix),
{
    let mut spans: Vec<StyledSpan> = Vec::new();
    let ghost first = SpanV { text: " [zmux] "@, style: badge(Color::Green) };
    draw::add_span(
        &mut spans,
        " [zmux] ".to_string(),
        SpanStyle::of(Some(Color::Black), Some(Color::Green), true),
    );
    proof {
        assert(draw::span_views(Seq::<StyledSpan>::empty()) =~= Seq::empty());
        assert(draw::span_views(spans@) =~= seq![first]);
        assert(seq![first] + Seq::<SpanV>::empty() =~= seq![first]);
    }
    if in_prefix {
        let taken: usize = draw::unicode_display_width(" [zmux] ").saturating_add(
            draw::unicode_display_width(" PREFIX "),
        );
        let pad: usize = width.saturating_sub(taken);
        add_pad(&mut spans, pad);
        add_prefix(&mut spans, true);
        proof {
            assert(seq![first] + pad_spans(pad as int) + prefix_spans(true) =~= seq![first] + (
            pad_spans(pad as int) + prefix_spans(true)));
        }
    }
    spans
}

fn add_status(
    plan: &mut Vec<Draw>,
    status: &Option<StatusJson>,
    banner: Option<&str>,
    area: Rect,
    in_prefix: bool,
)
    ensures
        draw::draws(final(plan)@) == draw::draws(old(plan)@) + status_plan(
            *status,
            str_opt(banner),
            area,
            in_prefix,
        ),
{
    let ghost before = draw::draws(plan@);
    if area.height > 0 {
        draw::add_draw(
            plan,
            Draw::Fill {
                area,
                style: SpanStyle::of(Some(Color::White), Some(Tone::Panel.color()), false),
            },
        );
        let spans = match status {
            Some(s) => session_spans(
                s,
                match banner {
                    Some(b) => b,
                    None => s.right.as_str(),
                },
                area.width as usize,
                in_prefix,
            ),
            None => bare_spans(area.width as usize, in_prefix),
        };
        draw::add_draw(plan, Draw::Line { area, spans, base: SpanStyle::none() });
    }
    proof {
        assert(draw::draws(plan@) =~= before + status_plan(*status, str_opt(banner), area, in_prefix));
    }
}

pub open spec fn str_opt(s: Option<&str>) -> Option<Seq<char>> {
    match s {
        Some(t) => Some(t@),
        None => None,
    }
}

/// The status bar.
pub fn render_status_bar(
    status: &Option<StatusJson>,
    banner: Option<&str>,
    area: Rect,
    in_prefix: bool,
) -> (r: Vec<Draw>)
    ensures
        draw::draws(r@) == status_plan(*status, str_opt(banner), area, in_prefix),
{
    let mut plan: Vec<Draw> = Vec::new();
    add_status(&mut plan, status, banner, area, in_prefix);
    proof {
        let all = status_plan(*status, str_opt(banner), area, in_prefix);
        assert(draw::draws(Seq::<Draw>::empty()) + all =~= all);
    }
    plan
}

/// The window whose label covers a column, from the window `i` on, whose label begins at `used`.
pub open spec fn tab_under(windows: Seq<WindowTabJson>, col: int, used: int, i: int) -> Option<usize>
    decreases windows.len() - i,
{
    if i < 0 || i >= windows.len() {
        None
    } else {
        let end = used + text::columns(tab_label(windows[i]));
        if used <= col < end {
            Some(windows[i].index)
        } else {
            tab_under(windows, col, end, i + 1)
        }
    }
}

/// The window whose label a column of the status bar is on.
pub fn status_window_tab_hit(status: &StatusJson, width: u16, col: u16) -> (r: Option<usize>)
    ensures
        r == tab_under(status.windows@, col as int, text::columns(spaced(status.left@)) as int, 0),
{
    let ghost windows = status.windows@;
    let ghost start = text::columns(spaced(status.left@)) as int;
    let column: usize = col as usize;
    let mut used: usize = draw::unicode_display_width(with_blanks(status.left.as_str()).as_str());
    let ghost mut at: int = start;
    let mut i: usize = 0;
    while i < status.windows.len()
        invariant
            windows == status.windows@,
            i <= windows.len(),
            at >= 0,
            column == col,
            start == text::columns(spaced(status.left@)),
            used == text::clip(at as nat),
            tab_under(windows, col as int, at, i as int) == tab_under(
                windows,
                col as int,
                start,
                0,
            ),
        decreases windows.len() - i,
    {
        let w = &status.windows[i];
        let label = tab_text(w);
        let end: usize = used.saturating_add(draw::unicode_display_width(label.as_str()));
        if column >= used && column < end {
            return Some(w.index);
        }
        proof {
            at = at + text::columns(tab_label(*w));
        }
        used = end;
        i = i + 1;
    }
    None
}

/// A window's label on the status bar is where a click on it is looked for: each column of it
/// finds the window, if no window before it has the column.
pub proof fn law_tab_is_found(windows: Seq<WindowTabJson>, used: int, i: int, n: int, col: int)
    requires
        0 <= i <= n < windows.len(),
        used + tabs_width(windows, n) - tabs_width(windows, i) <= col < used + tabs_width(
            windows,
            n + 1,
        ) - tabs_width(windows, i),
    ensures
        tab_under(windows, col, used, i) == Some(windows[n].index),
    decreases n - i,
{
    let end = used + text::columns(tab_label(windows[i]));
    assert(tabs_width(windows, i + 1) == tabs_width(windows, i) + text::columns(tab_label(windows[i])));
    if i < n {
        lemma_tabs_monotone(windows, i + 1, n);
        law_tab_is_found(windows, end, i + 1, n, col);
    }
}

proof fn lemma_tabs_monotone(windows: Seq<WindowTabJson>, i: int, n: int)
    requires
        0 <= i <= n,
    ensures
        tabs_width(windows, i) <= tabs_width(windows, n),
    decreases n - i,
{
    if i < n {
        lemma_tabs_monotone(windows, i, n - 1);
    }
}

/// The runs of a row from the run `i` on, cut to the columns behind the first `used`, and how many
/// columns are used then.
pub open spec fn shown_runs(runs: Seq<CellRunJson>, i: int, used: int, width: int) -> (
    Seq<SpanV>,
    int,
)
    decreases runs.len() - i,
{
    if i < 0 || i >= runs.len() || used >= width || draw::fitted(runs[i].text@, width - used).len() == 0 {
        (Seq::empty(), used)
    } else {
        let text = draw::fitted(runs[i].text@, width - used);
        let rest = shown_runs(runs, i + 1, used + text::columns(text), width);
        (
            seq![
                SpanV { text, style: style::run_style(runs[i].fg@, runs[i].bg@, runs[i].flags) },
            ] + rest.0,
            rest.1,
        )
    }
}

/// One row of a pane: its runs, and blanks up to the edge.
pub open spec fn pane_row_spans(rows: Seq<RowRunsJson>, row: int, width: int) -> Seq<SpanV> {
    let shown = if row < rows.len() {
        shown_runs(rows[row].runs@, 0, 0, width)
    } else {
        (Seq::empty(), 0)
    };
    if shown.1 < width {
        shown.0.push(SpanV { text: draw::spaces(width - shown.1), style: style::no_style() })
    } else {
        shown.0
    }
}

/// The first `n` rows of a pane.
pub open spec fn pane_rows(rows: Seq<RowRunsJson>, content: Rect, n: int) -> Seq<DrawV>
    decreases n,
{
    if n <= 0 {
        Seq::empty()
    } else {
        pane_rows(rows, content, n - 1).push(
            DrawV::Line {
                area: Rect { y: navigation::sat16(content.y + n - 1) as u16, height: 1, ..content },
                spans: pane_row_spans(rows, n - 1, content.width as int),
                base: style::no_style(),
            },
        )
    }
}

/// Blanks over an area, if there is one.
pub open spec fn blank_area(area: Rect) -> Seq<DrawV> {
    if area.width == 0 || area.height == 0 {
        Seq::empty()
    } else {
        seq![DrawV::Fill { area, style: style::no_style() }]
    }
}

fn fill_area_terminal_bg(plan: &mut Vec<Draw>, area: Rect)
    ensures
        draw::draws(final(plan)@) == draw::draws(old(plan)@) + blank_area(area),
{
    let ghost before = draw::draws(plan@);
    if area.width > 0 && area.height > 0 {
        draw::add_draw(plan, Draw::Fill { area, style: SpanStyle::none() });
    }
    proof {
        assert(draw::draws(plan@) =~= before + blank_area(area));
    }
}

/// The border around a pane, where it has one.
pub open spec fn border_plan(area: Rect, hide_borders: bool, active: bool) -> Seq<DrawV> {
    if !hide_borders && area.width > 2 && area.height > 2 {
        seq![
            DrawV::Border {
                area,
                color: if active {
                    Color::Green
                } else {
                    Color::DarkGray
                },
            },
        ]
    } else {
        Seq::empty()
    }
}

/// The scroll bar of a pane that is scrolled.
pub open spec fn scrollbar_plan(content: Rect, ratio: Option<u32>) -> Seq<DrawV> {
    match ratio {
        Some(bits) => seq![DrawV::Scrollbar { area: content, ratio: bits }],
        None => Seq::empty(),
    }
}

/// The cursor of a pane that shows it.
pub open spec fn cursor_plan(pane: LayoutJson, area: Rect, hide_borders: bool) -> Seq<DrawV> {
    if frame::cursor_on_screen(pane) {
        let cell = frame::cursor_cell(pane, area, hide_borders);
        seq![DrawV::Cursor { x: cell.0, y: cell.1 }]
    } else {
        Seq::empty()
    }
}

/// A pane: its surface, border, rows, scroll bar and cursor.
pub open spec fn pane_plan(pane: LayoutJson, area: Rect, hide_borders: bool) -> Seq<DrawV> {
    let content = geometry::content_of(area, hide_borders);
    if area.width == 0 || area.height == 0 {
        Seq::empty()
    } else {
        blank_area(content) + border_plan(area, hide_borders, pane.is_active()) + pane_rows(
            frame::rows_of(pane),
            content,
            content.height as int,
        ) + scrollbar_plan(content, frame::ratio_bits(pane)) + cursor_plan(pane, area, hide_borders)
    }
}

fn row_spans(rows: &Vec<RowRunsJson>, row: usize, width: usize) -> (r: Vec<StyledSpan>)
    ensures
        draw::span_views(r@) == pane_row_spans(rows@, row as int, width as int),
{
    let mut spans: Vec<StyledSpan> = Vec::new();
    let mut used: usize = 0;
    proof {
        assert(draw::span_views(spans@) =~= Seq::empty());
    }
    if row < rows.len() {
        let runs = &rows[row].runs;
        let ghost all = shown_runs(runs@, 0, 0, width as int);
        let mut i: usize = 0;
        proof {
            assert(Seq::<SpanV>::empty() + all.0 =~= all.0);
        }
        while i < runs.len() && used < width
            invariant_except_break
                i <= runs@.len(),
                used <= width,
                draw::span_views(spans@) + shown_runs(runs@, i as int, used as int, width as int).0
                    == all.0,
                shown_runs(runs@, i as int, used as int, width as int).1 == all.1,
            ensures
                used <= width,
                draw::span_views(spans@) == all.0,
                used == all.1,
            decreases runs@.len() - i,
        {
            let run = &runs[i];
            let text = draw::truncate_to_width(run.text.as_str(), width - used);
            let ghost rest_here = shown_runs(runs@, i as int, used as int, width as int);
            if text.as_str().unicode_len() == 0 {
                proof {
                    assert(draw::span_views(spans@) + Seq::<SpanV>::empty() =~= draw::span_views(spans@));
                }
                break;
            }
            proof {
                draw::law_fitted_fits(run.text@, width - used);
            }
            let taken: usize = draw::unicode_display_width(text.as_str());
            let ghost had = draw::span_views(spans@);
            let ghost head = SpanV { text: text@, style: style::run_style(run.fg@, run.bg@, run.flags) };
            let style = style::style_of_run(run.fg.as_str(), run.bg.as_str(), run.flags);
            draw::add_span(&mut spans, text, style);
            proof {
                let rest = shown_runs(runs@, i + 1, used + taken, width as int);
                assert(rest_here.0 == seq![head] + rest.0);
                assert(had + (seq![head] + rest.0) =~= had.push(head) + rest.0);
            }
            used = used + taken;
            i = i + 1;
            proof {
                if i >= runs@.len() || used >= width {
                    assert(draw::span_views(spans@) + Seq::<SpanV>::empty() =~= draw::span_views(spans@));
                }
            }
        }
    }
    if used < width {
        draw::add_span(&mut spans, draw::blank(width - used), SpanStyle::none());
    }
    spans
}

fn add_pane_rows(plan: &mut Vec<Draw>, rows: &Vec<RowRunsJson>, content: Rect)
    ensures
        draw::draws(final(plan)@) == draw::draws(old(plan)@) + pane_rows(
            rows@,
            content,
            content.height as int,
        ),
{
    let ghost before = draw::draws(plan@);
    let mut row: u16 = 0;
    proof {
        assert(before + Seq::<DrawV>::empty() =~= before);
    }
    while row < content.height
        invariant
            row <= content.height,
            draw::draws(plan@) == before + pane_rows(rows@, content, row as int),
        decreases content.height - row,
    {
        let spans = row_spans(rows, row as usize, content.width as usize);
        let place = Rect::new(content.x, content.y.saturating_add(row), content.width, 1);
        let line = Draw::Line { area: place, spans, base: SpanStyle::none() };
        let ghost had = pane_rows(rows@, content, row as int);
        draw::add_draw(plan, line);
        proof {
            assert((before + had).push(line@) =~= before + had.push(line@));
        }
        row = row + 1;
    }
}

fn add_border(plan: &mut Vec<Draw>, area: Rect, hide_borders: bool, active: bool)
    ensures
        draw::draws(final(plan)@) == draw::draws(old(plan)@) + border_plan(area, hide_borders, active),
{
    let ghost before = draw::draws(plan@);
    if !hide_borders && area.width > 2 && area.height > 2 {
        draw::add_draw(
            plan,
            Draw::Border {
                area,
                color: if active {
                    Color::Green
                } else {
                    Color::DarkGray
                },
            },
        );
    }
    proof {
        assert(draw::draws(plan@) =~= before + border_plan(area, hide_borders, active));
    }
}

fn add_cursor(plan: &mut Vec<Draw>, pane: &LayoutJson, area: Rect, hide_borders: bool)
    ensures
        draw::draws(final(plan)@) == draw::draws(old(plan)@) + cursor_plan(*pane, area, hide_borders),
{
    let ghost before = draw::draws(plan@);
    if let LayoutJson::Leaf {
        active,
        cursor_row,
        cursor_col,
        hide_cursor,
        in_copy_mode,
        scroll_ratio,
        ..
    } = pane {
        if *active && !*hide_cursor && (*in_copy_mode || scroll_ratio.is_none()) {
            let content = geometry::content_rect(area, hide_borders);
            let right: u16 = content.x.saturating_add(content.width.saturating_sub(1));
            let bottom: u16 = content.y.saturating_add(content.height.saturating_sub(1));
            let x: u16 = content.x.saturating_add(*cursor_col);
            let y: u16 = content.y.saturating_add(*cursor_row);
            draw::add_draw(
                plan,
                Draw::Cursor {
                    x: if x < right {
                        x
                    } else {
                        right
                    },
                    y: if y < bottom {
                        y
                    } else {
                        bottom
                    },
                },
            );
        }
    }
    proof {
        assert(draw::draws(plan@) =~= before + cursor_plan(*pane, area, hide_borders));
    }
}

/// A pane.
pub fn render_pane_content(
    plan: &mut Vec<Draw>,
    pane: &LayoutJson,
    area: Rect,
    hide_borders: bool,
)
    requires
        *pane is Leaf,
    ensures
        draw::draws(final(plan)@) == draw::draws(old(plan)@) + pane_plan(*pane, area, hide_borders),
{
    let ghost before = draw::draws(plan@);
    if area.width == 0 || area.height == 0 {
        proof {
            assert(before + Seq::<DrawV>::empty() =~= before);
        }
        return ;
    }
    if let LayoutJson::Leaf { rows_v2, active, scroll_ratio, .. } = pane {
        let content = geometry::content_rect(area, hide_borders);
        fill_area_terminal_bg(plan, content);
        add_border(plan, area, hide_borders, *active);
        add_pane_rows(plan, rows_v2, content);
        let ghost so_far = draw::draws(plan@);
        if let Some(bits) = scroll_ratio {
            draw::add_draw(plan, Draw::Scrollbar { area: content, ratio: *bits });
        }
        proof {
            assert(draw::draws(plan@) =~= so_far + scrollbar_plan(content, *scroll_ratio));
        }
        add_cursor(plan, pane, area, hide_borders);
        proof {
            let a = blank_area(content);
            let b = border_plan(area, hide_borders, *active);
            let c = pane_rows(rows_v2@, content, content.height as int);
            let d = scrollbar_plan(content, *scroll_ratio);
            let e = cursor_plan(*pane, area, hide_borders);
            assert(before + a + b + c + d + e =~= before + (a + b + c + d + e));
        }
    }
}

/// The gap between two neighbouring parts of a split.
pub open spec fn gap_between(horizontal: bool, a: Rect, b: Rect) -> Rect {
    if horizontal {
        Rect {
            x: navigation::sat16(a.x + a.width) as u16,
            y: a.y,
            width: text::max_int(b.x - navigation::sat16(a.x + a.width), 0) as u16,
            height: a.height,
        }
    } else {
        Rect {
            x: a.x,
            y: navigation::sat16(a.y + a.height) as u16,
            width: a.width,
            height: text::max_int(b.y - navigation::sat16(a.y + a.height), 0) as u16,
        }
    }
}

fn gap_rect(horizontal: bool, a: Rect, b: Rect) -> (r: Rect)
    ensures
        r == gap_between(horizontal, a, b),
{
    if horizontal {
        let x: u16 = a.x.saturating_add(a.width);
        Rect::new(x, a.y, b.x.saturating_sub(x), a.height)
    } else {
        let y: u16 = a.y.saturating_add(a.height);
        Rect::new(a.x, y, a.width, b.y.saturating_sub(y))
    }
}

/// Cells that the server draws are skipped, where there are any.
pub open spec fn skip_area(area: Rect) -> Seq<DrawV> {
    if area.width == 0 || area.height == 0 {
        Seq::empty()
    } else {
        seq![DrawV::Skip(area)]
    }
}

fn mark_rect_skip(plan: &mut Vec<Draw>, area: Rect)
    ensures
        draw::draws(final(plan)@) == draw::draws(old(plan)@) + skip_area(area),
{
    let ghost before = draw::draws(plan@);
    if area.width > 0 && area.height > 0 {
        draw::add_draw(plan, Draw::Skip(area));
    }
    proof {
        assert(draw::draws(plan@) =~= before + skip_area(area));
    }
}

/// The first `n` gaps between the parts of a split, blank or skipped.
pub open spec fn gaps_plan(horizontal: bool, parts: Seq<Rect>, skip: bool, n: int) -> Seq<DrawV>
    decreases n,
{
    if n <= 0 {
        Seq::empty()
    } else {
        let gap = gap_between(horizontal, parts[n - 1], parts[n]);
        gaps_plan(horizontal, parts, skip, n - 1) + (if skip {
            skip_area(gap)
        } else {
            blank_area(gap)
        })
    }
}

fn add_gaps(plan: &mut Vec<Draw>, horizontal: bool, chunks: &Vec<Rect>, skip: bool)
    ensures
        draw::draws(final(plan)@) == draw::draws(old(plan)@) + gaps_plan(
            horizontal,
            chunks@,
            skip,
            chunks@.len() - 1,
        ),
{
    let ghost before = draw::draws(plan@);
    proof {
        assert(before + Seq::<DrawV>::empty() =~= before);
    }
    if chunks.len() < 2 {
        return ;
    }
    let mut i: usize = 1;
    while i < chunks.len()
        invariant
            1 <= i <= chunks@.len(),
            draw::draws(plan@) == before + gaps_plan(horizontal, chunks@, skip, i - 1),
        decreases chunks@.len() - i,
    {
        let gap = gap_rect(horizontal, chunks[i - 1], chunks[i]);
        let ghost had = gaps_plan(horizontal, chunks@, skip, i - 1);
        if skip {
            mark_rect_skip(plan, gap);
        } else {
            fill_area_terminal_bg(plan, gap);
        }
        proof {
            let more = if skip {
                skip_area(gap)
            } else {
                blank_area(gap)
            };
            assert(before + had + more =~= before + (had + more));
        }
        i = i + 1;
    }
}

pub open spec fn side_by_side(layout: LayoutJson) -> bool {
    match layout {
        LayoutJson::Split { direction, .. } => direction@ == "horizontal"@,
        _ => false,
    }
}

/// A layout: its panes, or the cells of its panes as ones to skip, and the gaps between them.
pub open spec fn layout_plan(layout: LayoutJson, area: Rect, hide: bool, skip: bool) -> Seq<DrawV>
    decreases layout, layout.kids().len() + 1,
{
    match layout {
        LayoutJson::Split { .. } => {
            let parts = frame::parts_of(layout, area, hide);
            if !skip && (layout.kids().len() == 0 || area.width == 0 || area.height == 0) {
                Seq::empty()
            } else {
                layout_plan_of(
                    layout,
                    area,
                    hide,
                    skip,
                    text::min_int(layout.kids().len() as int, parts.len() as int),
                ) + (if hide {
                    Seq::empty()
                } else {
                    gaps_plan(side_by_side(layout), parts, skip, parts.len() - 1)
                })
            }
        },
        LayoutJson::Leaf { .. } => if skip {
            skip_area(area)
        } else {
            pane_plan(layout, area, hide)
        },
    }
}

/// The same for the first `n` children of a split, without the gaps.
pub open spec fn layout_plan_of(
    layout: LayoutJson,
    area: Rect,
    hide: bool,
    skip: bool,
    n: int,
) -> Seq<DrawV>
    decreases layout, n,
{
    if n <= 0 || n > layout.kids().len() {
        Seq::empty()
    } else {
        layout_plan_of(layout, area, hide, skip, n - 1) + layout_plan(
            layout.kids()[n - 1],
            frame::parts_of(layout, area, hide)[n - 1],
            hide,
            skip,
        )
    }
}

/// Adds a layout to a plan.
pub fn render_layout_node(
    plan: &mut Vec<Draw>,
    layout: &LayoutJson,
    area: Rect,
    hide_borders: bool,
    skip: bool,
)
    ensures
        draw::draws(final(plan)@) == draw::draws(old(plan)@) + layout_plan(*layout, area, hide_borders, skip),
    decreases layout,
{
    let ghost before = draw::draws(plan@);
    match layout {
        LayoutJson::Split { direction, children, .. } => {
            if !skip && (children.len() == 0 || area.width == 0 || area.height == 0) {
                proof {
                    assert(before + Seq::<DrawV>::empty() =~= before);
                }
                return ;
            }
            let chunks = frame::child_rects(layout, area, hide_borders);
            let n: usize = if children.len() < chunks.len() {
                children.len()
            } else {
                chunks.len()
            };
            let mut i: usize = 0;
            proof {
                assert(before + Seq::<DrawV>::empty() =~= before);
            }
            while i < n
                invariant
                    i <= n,
                    n == text::min_int(children@.len() as int, chunks@.len() as int),
                    layout.kids() == children@,
                    *layout is Split,
                    chunks@ == frame::parts_of(*layout, area, hide_borders),
                    draw::draws(plan@) == before + layout_plan_of(
                        *layout,
                        area,
                        hide_borders,
                        skip,
                        i as int,
                    ),
                decreases n - i,
            {
                proof {
                    assert(decreases_to!(layout => children@[i as int]));
                }
                let ghost had = layout_plan_of(*layout, area, hide_borders, skip, i as int);
                render_layout_node(plan, &children[i], chunks[i], hide_borders, skip);
                proof {
                    let more = layout_plan(children@[i as int], chunks@[i as int], hide_borders, skip);
                    assert(before + had + more =~= before + (had + more));
                }
                i = i + 1;
            }
            let ghost panes = layout_plan_of(*layout, area, hide_borders, skip, n as int);
            let ghost gaps = if hide_borders {
                Seq::empty()
            } else {
                gaps_plan(side_by_side(*layout), chunks@, skip, chunks@.len() - 1)
            };
            if !hide_borders {
                add_gaps(plan, text::same_text(direction.as_str(), "horizontal"), &chunks, skip);
            } else {
                proof {
                    assert(before + panes + Seq::<DrawV>::empty() =~= before + panes);
                }
            }
            proof {
                assert(before + panes + gaps =~= before + (panes + gaps));
            }
        },
        LayoutJson::Leaf { .. } => {
            if skip {
                mark_rect_skip(plan, area);
            } else {
                render_pane_content(plan, layout, area, hide_borders);
            }
        },
    }
}

/// The cells that a server draws itself, as ones to skip.
pub open spec fn skip_plan(fd: FrameData, area: Rect, hide_borders: bool) -> Seq<DrawV> {
    if fd.ansi is None || area.width == 0 || area.height == 0 {
        Seq::empty()
    } else {
        layout_plan(fd.layout, area, hide_borders, true)
    }
}

/// The cells that a server draws itself, as ones to skip.
pub fn skip_pane_area_for_ansi_in(fd: &FrameData, layout_area: Rect, hide_borders: bool) -> (r: Vec<
    Draw,
>)
    ensures
        draw::draws(r@) == skip_plan(*fd, layout_area, hide_borders),
{
    let mut plan: Vec<Draw> = Vec::new();
    proof {
        assert(draw::draws(plan@) =~= Seq::empty());
    }
    if fd.ansi.is_none() || layout_area.width == 0 || layout_area.height == 0 {
        return plan;
    }
    render_layout_node(&mut plan, &fd.layout, layout_area, hide_borders, true);
    proof {
        let all = layout_plan(fd.layout, layout_area, hide_borders, true);
        assert(Seq::<DrawV>::empty() + all =~= all);
    }
    plan
}

/// A frame: the panes, unless the server draws them itself, and below them the status bar, unless
/// something else stands there.
pub open spec fn frame_plan(
    fd: FrameData,
    banner: Option<Seq<char>>,
    area: Rect,
    in_prefix: bool,
    hide_status: bool,
    hide_borders: bool,
) -> Seq<DrawV> {
    let top = geometry::above_status(area).0;
    let bottom = geometry::above_status(area).1;
    if area.height < 2 {
        Seq::empty()
    } else {
        (if fd.ansi is None {
            blank_area(top) + layout_plan(fd.layout, top, hide_borders, false)
        } else {
            Seq::empty()
        }) + (if hide_status {
            Seq::empty()
        } else {
            blank_area(bottom) + status_plan(fd.status, banner, bottom, in_prefix)
        })
    }
}

/// A frame in part of the screen.
pub fn render_frame_in_area(
    fd: &FrameData,
    banner: Option<&str>,
    area: Rect,
    in_prefix: bool,
    hide_status: bool,
    hide_borders: bool,
) -> (r: Vec<Draw>)
    ensures
        draw::draws(r@) == frame_plan(
            *fd,
            str_opt(banner),
            area,
            in_prefix,
            hide_status,
            hide_borders,
        ),
{
    let mut plan: Vec<Draw> = Vec::new();
    proof {
        assert(draw::draws(plan@) =~= Seq::empty());
    }
    if area.height < 2 {
        return plan;
    }
    let (top, bottom) = geometry::split_status_row(area);
    if fd.ansi.is_none() {
        fill_area_terminal_bg(&mut plan, top);
        render_layout_node(&mut plan, &fd.layout, top, hide_borders, false);
    }
    let ghost first = if fd.ansi is None {
        blank_area(top) + layout_plan(fd.layout, top, hide_borders, false)
    } else {
        Seq::empty()
    };
    proof {
        assert(draw::draws(plan@) =~= first);
    }
    if !hide_status {
        fill_area_terminal_bg(&mut plan, bottom);
        add_status(&mut plan, &fd.status, banner, bottom, in_prefix);
    }
    proof {
        assert(draw::draws(plan@) =~= frame_plan(
            *fd,
            str_opt(banner),
            area,
            in_prefix,
            hide_status,
            hide_borders,
        ));
    }
    plan
}

/// A frame on the whole screen.
pub fn render_frame_ex(
    fd: &FrameData,
    screen: Rect,
    in_prefix: bool,
    hide_status: bool,
    hide_borders: bool,
) -> (r: Vec<Draw>)
    ensures
        draw::draws(r@) == frame_plan(*fd, None, screen, in_prefix, hide_status, hide_borders),
{
    render_frame_in_area(fd, None, screen, in_prefix, hide_status, hide_borders)
}

/// A frame on the whole screen, with borders and status bar.
pub fn render_frame(fd: &FrameData, screen: Rect, in_prefix: bool) -> (r: Vec<Draw>)
    ensures
        draw::draws(r@) == frame_plan(*fd, None, screen, in_prefix, false, false),
{
    render_frame_ex(fd, screen, in_prefix, false, false)
}

/// Rows of the thumb of a scroll bar.
pub open spec fn thumb_rows(height: u16) -> int {
    text::max_int(height as int / 4, 1)
}

/// How far the thumb of a scroll bar can go down; nothing where there is no room for one.
pub fn scrollbar_range(height: u16) -> (r: Option<u16>)
    ensures
        r == (if height < 3 {
            None
        } else {
            Some((height - thumb_rows(height)) as u16)
        }),
{
    if height < 3 {
        return None;
    }
    let thumb: u16 = if height / 4 < 1 {
        1
    } else {
        height / 4
    };
    Some(height - thumb)
}

/// A row of a scroll bar whose thumb begins at the row `top`.
pub open spec fn scrollbar_row(area: Rect, top: int, row: int) -> DrawV {
    let thumb = top <= row < top + thumb_rows(area.height);
    draw::plain_line(
        Rect {
            x: navigation::sat16(area.x + text::max_int(area.width - 1, 0)) as u16,
            y: navigation::sat16(area.y + row) as u16,
            width: 1,
            height: 1,
        },
        if thumb {
            "\u{2503}"@
        } else {
            "\u{2502}"@
        },
        if thumb {
            style::colored(Some(Color::White), Some(Color::DarkGray), false)
        } else {
            style::colored(Some(Color::Rgb(60, 60, 60)), None, false)
        },
    )
}

/// A scroll bar at the right edge of an area, its thumb from the row `top` on.
pub fn draw_scrollbar(area: Rect, top: u16) -> (r: Vec<Draw>)
    ensures
        draw::draws(r@) == (if area.height < 3 {
            Seq::empty()
        } else {
            Seq::new(area.height as nat, |row: int| scrollbar_row(area, top as int, row))
        }),
{
    let mut plan: Vec<Draw> = Vec::new();
    proof {
        assert(draw::draws(plan@) =~= Seq::empty());
    }
    if area.height < 3 {
        return plan;
    }
    let thumb: u16 = if area.height / 4 < 1 {
        1
    } else {
        area.height / 4
    };
    let x: u16 = area.x.saturating_add(area.width.saturating_sub(1));
    let mut row: u16 = 0;
    while row < area.height
        invariant
            row <= area.height,
            thumb == thumb_rows(area.height),
            x == navigation::sat16(area.x + text::max_int(area.width - 1, 0)),
            draw::draws(plan@) == Seq::new(
                row as nat,
                |k: int| scrollbar_row(area, top as int, k),
            ),
        decreases area.height - row,
    {
        let here: bool = row >= top && row - top < thumb;
        let place = Rect { x, y: area.y.saturating_add(row), width: 1, height: 1 };
        let glyph = if here {
            "\u{2503}".to_string()
        } else {
            "\u{2502}".to_string()
        };
        let style = if here {
            SpanStyle::of(Some(Color::White), Some(Color::DarkGray), false)
        } else {
            SpanStyle::of(Some(Color::Rgb(60, 60, 60)), None, false)
        };
        draw::add_draw(&mut plan, draw::text_line(place, glyph, style));
        proof {
            assert(draw::draws(plan@) =~= Seq::new(
                (row + 1) as nat,
                |k: int| scrollbar_row(area, top as int, k),
            ));
        }
        row = row + 1;
    }
    plan
}

/// Which part of a border a cell shows.
#[derive(Clone, Copy, Debug, PartialEq, Eq, Structural)]
pub enum BorderPart {
    TopLeft,
    TopRight,
    BottomLeft,
    BottomRight,
    Top,
    Bottom,
    Left,
    Right,
}

/// A cell of a border.
#[derive(Clone, Copy, Debug, PartialEq, Eq, Structural)]
pub struct BorderCell {
    pub x: u16,
    pub y: u16,
    pub part: BorderPart,
}

/// The last column of an area.
pub open spec fn last_column(area: Rect) -> int {
    text::max_int(navigation::sat16(area.x + area.width) - 1, 0)
}

/// The last row of an area.
pub open spec fn last_row(area: Rect) -> int {
    text::max_int(navigation::sat16(area.y + area.height) - 1, 0)
}

pub open spec fn border_corners(area: Rect) -> Seq<BorderCell> {
    let right = last_column(area) as u16;
    let bottom = last_row(area) as u16;
    seq![
        BorderCell { x: area.x, y: area.y, part: BorderPart::TopLeft },
        BorderCell { x: right, y: area.y, part: BorderPart::TopRight },
        BorderCell { x: area.x, y: bottom, part: BorderPart::BottomLeft },
        BorderCell { x: right, y: bottom, part: BorderPart::BottomRight },
    ]
}

/// The cells above and below the first `n` columns between the corners.
pub open spec fn border_columns(area: Rect, n: int) -> Seq<BorderCell>
    decreases n,
{
    if n <= 0 {
        Seq::empty()
    } else {
        let x = (area.x + n) as u16;
        let bottom = last_row(area) as u16;
        border_columns(area, n - 1).push(
            BorderCell { x, y: area.y, part: BorderPart::Top },
        ).push(BorderCell { x, y: bottom, part: BorderPart::Bottom })
    }
}

/// The cells to the left and to the right of the first `n` rows between the corners.
pub open spec fn border_rows(area: Rect, n: int) -> Seq<BorderCell>
    decreases n,
{
    if n <= 0 {
        Seq::empty()
    } else {
        let y = (area.y + n) as u16;
        let right = last_column(area) as u16;
        border_rows(area, n - 1).push(BorderCell { x: area.x, y, part: BorderPart::Left }).push(
            BorderCell { x: right, y, part: BorderPart::Right },
        )
    }
}

/// The cells of the border of an area: none where there is no room for one.
pub open spec fn border_of(area: Rect) -> Seq<BorderCell> {
    if area.width < 2 || area.height < 2 {
        Seq::empty()
    } else {
        border_corners(area) + border_columns(area, last_column(area) - area.x - 1) + border_rows(
            area,
            last_row(area) - area.y - 1,
        )
    }
}

/// The cells of the border of an area.
pub fn draw_border(area: Rect) -> (r: Vec<BorderCell>)
    ensures
        r@ == border_of(area),
{
    let mut cells: Vec<BorderCell> = Vec::new();
    if area.width < 2 || area.height < 2 {
        return cells;
    }
    let (left, top): (u16, u16) = (area.x, area.y);
    let right: u16 = left.saturating_add(area.width).saturating_sub(1);
    let bottom: u16 = top.saturating_add(area.height).saturating_sub(1);
    cells.push(BorderCell { x: left, y: top, part: BorderPart::TopLeft });
    cells.push(BorderCell { x: right, y: top, part: BorderPart::TopRight });
    cells.push(BorderCell { x: left, y: bottom, part: BorderPart::BottomLeft });
    cells.push(BorderCell { x: right, y: bottom, part: BorderPart::BottomRight });
    let ghost corners = border_corners(area);
    proof {
        assert(cells@ =~= corners + border_columns(area, 0));
    }
    let mut x: u16 = left;
    while x < right && x + 1 < right
        invariant
            left == area.x,
            top == area.y,
            right == last_column(area),
            bottom == last_row(area),
            left <= x,
            x > left ==> x < right,
            corners == border_corners(area),
            cells@ == corners + border_columns(area, x - left),
        decreases right - x,
    {
        x = x + 1;
        cells.push(BorderCell { x, y: top, part: BorderPart::Top });
        cells.push(BorderCell { x, y: bottom, part: BorderPart::Bottom });
        proof {
            assert(cells@ =~= corners + border_columns(area, x - left));
        }
    }
    let ghost columns = border_columns(area, last_column(area) - area.x - 1);
    proof {
        assert(cells@ =~= corners + columns);
        assert(cells@ =~= corners + columns + border_rows(area, 0));
    }
    let mut y: u16 = top;
    while y < bottom && y + 1 < bottom
        invariant
            left == area.x,
            top == area.y,
            right == last_column(area),
            bottom == last_row(area),
            top <= y,
            y > top ==> y < bottom,
            cells@ == corners + columns + border_rows(area, y - top),
        decreases bottom - y,
    {
        y = y + 1;
        cells.push(BorderCell { x: left, y, part: BorderPart::Left });
        cells.push(BorderCell { x: right, y, part: BorderPart::Right });
        proof {
            assert(cells@ =~= corners + columns + border_rows(area, y - top));
        }
    }
    proof {
        assert(cells@ =~= corners + columns + border_rows(area, last_row(area) - area.y - 1));
    }
    cells
}

proof fn lemma_columns_on_edge(area: Rect, n: int, i: int)
    requires
        0 <= n <= last_column(area) - area.x - 1,
        0 <= i < border_columns(area, n).len(),
    ensures
        area.x < border_columns(area, n)[i].x < last_column(area),
        border_columns(area, n)[i].y == area.y || border_columns(area, n)[i].y == last_row(area),
    decreases n,
{
    if n > 0 && i < border_columns(area, n - 1).len() {
        lemma_columns_on_edge(area, n - 1, i);
    }
}

proof fn lemma_rows_on_edge(area: Rect, n: int, i: int)
    requires
        0 <= n <= last_row(area) - area.y - 1,
        0 <= i < border_rows(area, n).len(),
    ensures
        area.y < border_rows(area, n)[i].y < last_row(area),
        border_rows(area, n)[i].x == area.x || border_rows(area, n)[i].x == last_column(area),
    decreases n,
{
    if n > 0 && i < border_rows(area, n - 1).len() {
        lemma_rows_on_edge(area, n - 1, i);
    }
}

/// A border only takes cells at the edge of its area: what is inside stays.
pub proof fn law_border_lies_on_the_edge(area: Rect, i: int)
    requires
        area.on_screen(),
        0 <= i < border_of(area).len(),
    ensures
        ({
            let cell = border_of(area)[i];
            &&& area.has(cell.x as int, cell.y as int)
            &&& cell.x == area.x || cell.x == area.x + area.width - 1 || cell.y == area.y || cell.y
                == area.y + area.height - 1
        }),
{
    let corners = border_corners(area);
    let columns = border_columns(area, last_column(area) - area.x - 1);
    if i >= corners.len() {
        if i < corners.len() + columns.len() {
            lemma_columns_on_edge(area, last_column(area) - area.x - 1, i - corners.len());
        } else {
            lemma_rows_on_edge(
                area,
                last_row(area) - area.y - 1,
                i - corners.len() - columns.len(),
            );
        }
    }
}

} // verus!
