//! Where the sidebar, the panes and their cursor are on the screen.

use crate::frame;
use crate::geometry;
use crate::help;
use crate::frame::LayoutJson;
use crate::geometry::Rect;
use vstd::prelude::*;

verus! {

/// A sidebar that is shown takes a quarter of the screen, at least 22 columns and at most 32, where
/// that leaves twenty for the panes; one that is not takes nothing. The panes have the rest: all
/// rows but the last, which is the status bar's.
pub proof fn law_screen_is_divided(cols: u16, rows: u16, visible: bool)
    requires
        cols >= 42,
        rows >= 2,
    ensures
        ({
            let a = geometry::areas_of(cols, rows, visible);
            let taken = if !visible {
                0
            } else if cols < 88 {
                22
            } else if cols >= 128 {
                32
            } else {
                cols as int / 4
            };
            &&& a.sidebar == (Rect { x: 0, y: 0, width: taken as u16, height: rows })
            &&& a.frame == (Rect {
                x: taken as u16,
                y: 0,
                width: (cols - taken) as u16,
                height: rows,
            })
            &&& a.layout == (Rect {
                x: taken as u16,
                y: 0,
                width: (cols - taken) as u16,
                height: (rows - 1) as u16,
            })
            &&& geometry::status_row(rows, false) == Some((rows - 1) as u16)
            &&& geometry::status_row(rows, true) is None
        }),
{
}

/// A border takes one cell on each of the four sides; where borders are hidden the content is the
/// whole pane.
pub proof fn law_border_takes_one_cell(area: Rect)
    requires
        area.on_screen(),
        area.width > 2,
        area.height > 2,
    ensures
        geometry::content_of(area, true) == area,
        geometry::content_of(area, false) == (Rect {
            x: (area.x + 1) as u16,
            y: (area.y + 1) as u16,
            width: (area.width - 2) as u16,
            height: (area.height - 2) as u16,
        }),
        geometry::inside_border(area) == geometry::content_of(area, false),
{
}

/// A panel in the middle has as much room before it as behind, give or take one cell, and the size
/// that was asked for where the area has it.
pub proof fn law_centered_is_in_the_middle(area: Rect, width: int, height: int)
    requires
        area.on_screen(),
        1 <= width <= area.width,
        1 <= height <= area.height,
    ensures
        ({
            let c = geometry::centered(area, width, height);
            let left = c.x - area.x;
            let right = (area.x + area.width) - (c.x + c.width);
            let above = c.y - area.y;
            let below = (area.y + area.height) - (c.y + c.height);
            &&& c.width == width
            &&& c.height == height
            &&& right == left || right == left + 1
            &&& below == above || below == above + 1
        }),
{
}

/// The floating tree leaves two columns and one row free on each side of a small screen, and has
/// its full size in the middle of a large one.
pub proof fn law_popup_size(area: Rect)
    requires
        area.on_screen(),
        area.width >= 5,
        area.height >= 3,
    ensures
        geometry::popup_of(area).width == (if area.width < 72 {
            area.width - 4
        } else {
            68
        }),
        geometry::popup_of(area).height == (if area.height < 28 {
            area.height - 2
        } else {
            26
        }),
{
}

/// The cursor of a pane is shown at its own cell of the pane's content, and not beyond the
/// content's edge.
pub proof fn law_cursor_is_in_the_content(pane: LayoutJson, area: Rect, hide: bool)
    requires
        pane is Leaf,
        area.on_screen(),
        geometry::content_of(area, hide).width > 0,
        geometry::content_of(area, hide).height > 0,
    ensures
        ({
            let c = geometry::content_of(area, hide);
            let at = frame::cursor_cell(pane, area, hide);
            &&& c.has(at.0 as int, at.1 as int)
            &&& pane->cursor_col < c.width ==> at.0 == c.x + pane->cursor_col
            &&& pane->cursor_row < c.height ==> at.1 == c.y + pane->cursor_row
            &&& pane->cursor_col >= c.width ==> at.0 == c.x + c.width - 1
            &&& pane->cursor_row >= c.height ==> at.1 == c.y + c.height - 1
        }),
{
}

/// The pane under a cell is the first whose part of the area has the cell.
pub proof fn law_pane_under_a_cell(
    panes: Seq<(LayoutJson, Rect)>,
    col: int,
    row: int,
    from: int,
)
    requires
        0 <= from,
    ensures
        frame::pane_under(panes, col, row, from) is None <==> forall|i: int|
            from <= i < panes.len() ==> !((#[trigger] panes[i]).1.x <= col < panes[i].1.x
                + panes[i].1.width && panes[i].1.y <= row < panes[i].1.y + panes[i].1.height),
        frame::pane_under(panes, col, row, from) matches Some(id) ==> exists|i: int|
            from <= i < panes.len() && (#[trigger] panes[i]).0.pane_id() == id && panes[i].1.x <= col
                < panes[i].1.x + panes[i].1.width && panes[i].1.y <= row < panes[i].1.y
                + panes[i].1.height && forall|j: int|
                from <= j < i ==> !(#[trigger] panes[j]).1.has(col, row),
    decreases panes.len() - from,
{
    if from < panes.len() && !panes[from].1.has(col, row) {
        law_pane_under_a_cell(panes, col, row, from + 1);
        if let Some(id) = frame::pane_under(panes, col, row, from) {
            let i = choose|i: int|
                from + 1 <= i < panes.len() && (#[trigger] panes[i]).0.pane_id() == id
                    && panes[i].1.has(col, row) && forall|j: int|
                    from + 1 <= j < i ==> !(#[trigger] panes[j]).1.has(col, row);
            assert(panes[i].0.pane_id() == id);
        }
    }
}

/// A split shows the panes of its parts in order; a single pane has the whole area.
pub proof fn law_panes_are_placed_in_order(layout: LayoutJson, area: Rect, hide: bool)
    ensures
        layout is Leaf ==> frame::placed(layout, area, hide) == seq![(layout, area)],
        layout is Leaf ==> frame::leaves(layout) == seq![layout],
{
}

proof fn lemma_first_leaf(
    panes: Seq<LayoutJson>,
    pred: spec_fn(LayoutJson) -> bool,
    from: int,
)
    requires
        0 <= from,
    ensures
        frame::first_leaf(panes, pred, from) matches Some(p) ==> exists|i: int|
            from <= i < panes.len() && #[trigger] panes[i] == p && pred(p) && forall|j: int|
                from <= j < i ==> !pred(#[trigger] panes[j]),
        frame::first_leaf(panes, pred, from) is None ==> forall|j: int|
            from <= j < panes.len() ==> !pred(#[trigger] panes[j]),
    decreases panes.len() - from,
{
    if from < panes.len() && !pred(panes[from]) {
        lemma_first_leaf(panes, pred, from + 1);
        if let Some(p) = frame::first_leaf(panes, pred, from) {
            let i = choose|i: int|
                from + 1 <= i < panes.len() && #[trigger] panes[i] == p && pred(p) && forall|j: int|
                    from + 1 <= j < i ==> !pred(#[trigger] panes[j]);
            assert(panes[i] == p);
        }
    }
}

/// The active pane is one of the panes that is marked active, the first in reading order; the mouse
/// mode is that of the first active pane that asked for the mouse, and nought without one.
pub proof fn law_active_pane(layout: LayoutJson)
    ensures
        frame::active_id(layout) is None <==> forall|j: int|
            0 <= j < frame::leaves(layout).len() ==> !(#[trigger] frame::leaves(layout)[j]).is_active(),
        frame::active_id(layout) matches Some(id) ==> exists|i: int|
            0 <= i < frame::leaves(layout).len() && (#[trigger] frame::leaves(layout)[i]).is_active() && frame::leaves(
                layout,
            )[i].pane_id() == id,
        frame::mouse_mode_in(layout) != 0 ==> exists|i: int|
            0 <= i < frame::leaves(layout).len() && (#[trigger] frame::leaves(layout)[i]) is Leaf && frame::leaves(
                layout,
            )[i]->active && frame::leaves(layout)[i]->mouse_mode == frame::mouse_mode_in(layout),
        frame::mouse_mode_in(layout) == 0 ==> forall|i: int|
            0 <= i < frame::leaves(layout).len() && (#[trigger] frame::leaves(layout)[i]) is Leaf ==> !(frame::leaves(
                layout,
            )[i]->active && frame::leaves(layout)[i]->mouse_mode != 0),
{
    lemma_first_leaf(frame::leaves(layout), |p: LayoutJson| p.is_active(), 0);
    lemma_first_leaf(frame::leaves(layout), |p: LayoutJson| frame::wants_mouse(p), 0);
    assert forall|i: int|
        0 <= i < frame::leaves(layout).len() && (#[trigger] frame::leaves(layout)[i]) is Leaf && frame::mouse_mode_in(
            layout,
        ) == 0 implies !(frame::leaves(layout)[i]->active && frame::leaves(layout)[i]->mouse_mode != 0) by {
        let pred = |p: LayoutJson| frame::wants_mouse(p);
        assert(!pred(frame::leaves(layout)[i]) || frame::first_leaf(frame::leaves(layout), pred, 0) is Some);
    }
}

/// The options are as wide as two thirds of the screen, but at least sixty-four columns and at most
/// the screen, and seven rows high where there is room, in the middle.
pub proof fn law_options_size(area: Rect)
    requires
        area.x + area.width <= u16::MAX,
        area.y + area.height <= u16::MAX,
        area.width > 0,
        area.height > 0,
        2 * area.width <= u16::MAX,
    ensures
        area.width >= 96 ==> geometry::options_of(area).width == 2 * area.width / 3,
        64 <= area.width && area.width < 96 ==> geometry::options_of(area).width == 64,
        area.width < 64 ==> geometry::options_of(area).width == area.width,
        geometry::options_of(area).height == (if area.height < 7 {
            area.height
        } else {
            7
        }),
{
}

/// A key reference is sixty-eight columns wide and as high as its lines and the border need, as far
/// as the screen has room with one cell free on every side, and it is in the middle.
pub proof fn law_key_reference_size(area: Rect, lines: int)
    requires
        area.x + area.width <= u16::MAX,
        area.y + area.height <= u16::MAX,
        area.width >= 2,
        area.height >= 2,
        0 <= lines <= 1000,
    ensures
        ({
            let r = help::help_area(area, lines);
            &&& area.width >= 70 ==> r.width == 68
            &&& area.width < 70 ==> r.width == area.width - 2
            &&& area.height >= lines + 4 ==> r.height == lines + 2
            &&& area.height < lines + 4 ==> r.height == area.height - 2
            &&& -1 <= (r.x - area.x) - (area.x + area.width - (r.x + r.width)) && (r.x - area.x) - (
            area.x + area.width - (r.x + r.width)) <= 0
            &&& -1 <= (r.y - area.y) - (area.y + area.height - (r.y + r.height)) && (r.y - area.y)
                - (area.y + area.height - (r.y + r.height)) <= 0
        }),
{
}

/// A key reference can be scrolled just so far that its last line is the last one shown: what is
/// above the view and what the view shows inside the border are all its lines.
pub proof fn law_key_reference_ends_with_its_last_line(area: Rect, source: Seq<Seq<char>>)
    requires
        help::help_area(area, source.len() as int).height >= 2,
    ensures
        ({
            let shown = help::help_area(area, source.len() as int).height - 2;
            let all = help::help_lines(area, source).len();
            &&& all > shown ==> help::help_max_scroll(area, source) + shown == all
            &&& all <= shown ==> help::help_max_scroll(area, source) == 0
        }),
{
}

} // verus!
