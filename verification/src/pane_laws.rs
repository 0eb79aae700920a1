//! What panes show: their rows, borders, scroll bars and the gaps between them.

use crate::draw;
use crate::frame;
use crate::paint;
use crate::paint_laws;
use crate::panel_laws;
use crate::style;
use crate::text;
use crate::draw::{DrawV, SpanV};
use crate::frame::{CellRunJson, LayoutJson, RowRunsJson, StatusJson};
use crate::geometry::Rect;
use crate::style::Color;
use vstd::prelude::*;

verus! {

/// The texts of runs from one on, one behind the other.
pub open spec fn text_from(runs: Seq<CellRunJson>, i: int) -> Seq<char>
    decreases runs.len() - i,
{
    if i < 0 || i >= runs.len() {
        Seq::empty()
    } else {
        runs[i].text@ + text_from(runs, i + 1)
    }
}

proof fn lemma_fits_whole(s: Seq<char>, max: int)
    requires
        text::columns(s) <= max,
        s.len() > 0,
        max > 0,
    ensures
        draw::fitted(s, max) == s,
{
    paint_laws::law_front_that_fits(s, max);
    let f = draw::fitted(s, max);
    if f.len() < s.len() {
        text::lemma_columns_monotone(s, f.len() + 1int, s.len() as int);
        assert(s.take(s.len() as int) =~= s);
    }
    assert(s.take(s.len() as int) =~= s);
}

proof fn lemma_first_span(s: SpanV, rest: Seq<SpanV>)
    ensures
        paint_laws::reading(seq![s] + rest) == s.text + paint_laws::reading(rest),
    decreases rest.len(),
{
    let all = seq![s] + rest;
    if rest.len() == 0 {
        assert(all.drop_last() =~= Seq::empty());
        assert(paint_laws::reading(Seq::<SpanV>::empty()) =~= Seq::empty());
        assert(paint_laws::reading(all) =~= s.text);
        assert(s.text + paint_laws::reading(rest) =~= s.text);
    } else {
        lemma_first_span(s, rest.drop_last());
        assert(all.drop_last() =~= seq![s] + rest.drop_last());
        assert(paint_laws::reading(all) =~= s.text + paint_laws::reading(rest));
    }
}

proof fn lemma_runs_shown(runs: Seq<CellRunJson>, i: int, used: int, width: int)
    requires
        0 <= i <= runs.len(),
        0 <= used,
        used + text::columns(text_from(runs, i)) <= width,
        forall|k: int|
            i <= k < runs.len() ==> (#[trigger] runs[k]).text@.len() > 0 && text::columns(runs[k].text@)
                > 0,
    ensures
        paint_laws::reading(paint::shown_runs(runs, i, used, width).0) == text_from(runs, i),
        paint::shown_runs(runs, i, used, width).1 == used + text::columns(text_from(runs, i)),
    decreases runs.len() - i,
{
    if i < runs.len() {
        let text = runs[i].text@;
        text::lemma_columns_add(text, text_from(runs, i + 1));
        assert(text::columns(text) > 0);
        lemma_fits_whole(text, width - used);
        lemma_runs_shown(runs, i + 1, used + text::columns(text), width);
        let first = SpanV {
            text,
            style: style::run_style(runs[i].fg@, runs[i].bg@, runs[i].flags),
        };
        lemma_first_span(first, paint::shown_runs(runs, i + 1, used + text::columns(text), width).0);
    } else {
        assert(text::columns(Seq::<char>::empty()) == 0);
        assert(paint_laws::reading(Seq::<SpanV>::empty()) =~= Seq::empty());
    }
}

/// A row of a pane that fits is shown whole: its runs in order, and blanks up to the edge.
pub proof fn law_pane_rows_read(rows: Seq<RowRunsJson>, row: int, width: int)
    requires
        0 <= row < rows.len(),
        text::columns(text_from(rows[row].runs@, 0)) <= width,
        forall|k: int|
            0 <= k < rows[row].runs@.len() ==> (#[trigger] rows[row].runs@[k]).text@.len() > 0
                && text::columns(rows[row].runs@[k].text@) > 0,
    ensures
        paint_laws::reading(paint::pane_row_spans(rows, row, width)) == text_from(rows[row].runs@, 0)
            + panel_laws::blanks(width - text::columns(text_from(rows[row].runs@, 0))),
{
    let runs = rows[row].runs@;
    let used = text::columns(text_from(runs, 0)) as int;
    lemma_runs_shown(runs, 0, 0, width);
    let shown = paint::shown_runs(runs, 0, 0, width);
    let spans = paint::pane_row_spans(rows, row, width);
    if used < width {
        assert(spans.drop_last() =~= shown.0);
        assert(draw::spaces(width - used) =~= panel_laws::blanks(width - used));
    } else {
        assert(text_from(runs, 0) + panel_laws::blanks(0) =~= text_from(runs, 0));
    }
}

/// Every run is shown in its own colors.
pub proof fn law_runs_keep_their_colors(runs: Seq<CellRunJson>, i: int, used: int, width: int)
    requires
        0 <= i < runs.len(),
        used < width,
        draw::fitted(runs[i].text@, width - used).len() > 0,
    ensures
        paint::shown_runs(runs, i, used, width).0.len() > 0,
        paint::shown_runs(runs, i, used, width).0[0].style == style::run_style(
            runs[i].fg@,
            runs[i].bg@,
            runs[i].flags,
        ),
        paint::shown_runs(runs, i, used, width).0[0].text == draw::fitted(runs[i].text@, width - used),
{
}

/// A pane has a border where borders are shown and there is room inside it: a green one where it
/// is active, a gray one else.
pub proof fn law_active_pane_has_a_green_border(area: Rect)
    requires
        area.width > 2,
        area.height > 2,
    ensures
        paint::border_plan(area, false, true) == seq![DrawV::Border { area, color: Color::Green }],
        paint::border_plan(area, false, false) == seq![DrawV::Border { area, color: Color::DarkGray }],
        forall|active: bool| #[trigger] paint::border_plan(area, true, active).len() == 0,
{
}

/// The thumb of a scroll bar is a quarter of its height, and at least one row.
pub proof fn law_thumb_is_a_quarter(height: u16)
    ensures
        height >= 4 ==> 4 * paint::thumb_rows(height) <= height && height < 4 * paint::thumb_rows(height) + 4,
        height < 4 ==> paint::thumb_rows(height) == 1,
{
}

/// A scroll bar stands on the last column of its area, heavy and white over the thumb and light
/// elsewhere.
pub proof fn law_scroll_bar_is_at_the_right(area: Rect, top: int, row: int)
    requires
        area.width > 0,
        0 <= row < area.height,
        area.x + area.width <= u16::MAX,
        area.y + area.height <= u16::MAX,
    ensures
        ({
            let cell = Rect {
                x: (area.x + area.width - 1) as u16,
                y: (area.y + row) as u16,
                width: 1,
                height: 1,
            };
            if top <= row && row < top + paint::thumb_rows(area.height) {
                paint::scrollbar_row(area, top, row) == draw::plain_line(
                    cell,
                    "\u{2503}"@,
                    style::colored(Some(Color::White), Some(Color::DarkGray), false),
                )
            } else {
                paint::scrollbar_row(area, top, row) == draw::plain_line(
                    cell,
                    "\u{2502}"@,
                    style::colored(Some(Color::Rgb(60, 60, 60)), None, false),
                )
            }
        }),
{
}

/// The gap between two parts side by side is all cells between them, over the height of the first;
/// the one between parts on top of each other, over its width.
pub proof fn law_gaps_are_between(a: Rect, b: Rect, x: int, y: int)
    requires
        a.x + a.width <= u16::MAX,
        a.y + a.height <= u16::MAX,
    ensures
        ({
            let g = paint::gap_between(true, a, b);
            (g.x <= x && x < g.x + g.width && g.y <= y && y < g.y + g.height) <==> (a.x + a.width
                <= x && x < b.x && a.y <= y && y < a.y + a.height)
        }),
        ({
            let g = paint::gap_between(false, a, b);
            (g.x <= x && x < g.x + g.width && g.y <= y && y < g.y + g.height) <==> (a.x <= x && x
                < a.x + a.width && a.y + a.height <= y && y < b.y)
        }),
{
}

/// A message of the client takes the place of what the session has at the right of the status bar.
pub proof fn law_messages_take_the_right(
    status: StatusJson,
    message: Seq<char>,
    area: Rect,
    in_prefix: bool,
)
    requires
        area.height > 0,
    ensures
        paint::status_plan(Some(status), Some(message), area, in_prefix)[1] == (DrawV::Line {
            area,
            spans: paint::status_spans(
                status.left@,
                message,
                status.windows@,
                area.width as int,
                in_prefix,
            ),
            base: style::no_style(),
        }),
        paint::status_plan(Some(status), None, area, in_prefix)[1] == (DrawV::Line {
            area,
            spans: paint::status_spans(
                status.left@,
                status.right@,
                status.windows@,
                area.width as int,
                in_prefix,
            ),
            base: style::no_style(),
        }),
{
}

/// A pane shows its cursor while it is active, does not hide it, and is not scrolled back outside
/// copy mode.
pub proof fn law_cursor_is_shown(pane: LayoutJson)
    requires
        pane is Leaf,
    ensures
        frame::cursor_on_screen(pane) <==> pane->active && !pane->hide_cursor && (pane->in_copy_mode
            || pane->scroll_ratio is None),
{
}

} // verus!
