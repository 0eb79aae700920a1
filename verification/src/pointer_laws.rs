//! What the mouse pointer looks like, and what a click in the sidebar is on.

use crate::frame;
use crate::geometry;
use crate::navigation;
use crate::pointer;
use crate::frame::LayoutJson;
use crate::navigation::EntryV;
use crate::pointer::MousePointerShape;
use vstd::prelude::*;

verus! {

/// The pointer is a text cursor exactly over text that can be selected: inside the active pane's
/// content, off the status bar, with no other pane under it, while no program has asked for the
/// mouse.
pub proof fn law_text_pointer_is_over_text(
    row: u16,
    col: u16,
    cols: u16,
    rows: u16,
    layout: LayoutJson,
    hide_borders: bool,
    hide_status: bool,
    sidebar: bool,
)
    ensures
        ({
            let area = geometry::areas_of(cols, rows, sidebar).layout;
            let content = geometry::content_of(frame::active_rect(layout, area, hide_borders), hide_borders);
            let under = frame::pane_under(
                frame::placed(layout, area, hide_borders),
                col as int,
                row as int,
                0,
            );
            pointer::shape_over(row, col, cols, rows, layout, hide_borders, hide_status, sidebar)
                == MousePointerShape::Text <==> {
                &&& content.x <= col && col < content.x + content.width
                &&& content.y <= row && row < content.y + content.height
                &&& area.x <= col && col < area.x + area.width
                &&& area.y <= row && row < area.y + area.height
                &&& geometry::status_row(rows, hide_status) != Some(row)
                &&& frame::mouse_mode_in(layout) == 0
                &&& under is None || frame::active_id(layout) is None || under == frame::active_id(layout)
            }
        }),
{
}

/// Anything over the panes has the plain pointer, and before the mouse has moved or anything is
/// shown no shape is asked for.
pub proof fn law_covered_panes_have_the_plain_pointer(
    at: Option<(u16, u16)>,
    layout: Option<LayoutJson>,
    cols: u16,
    rows: u16,
    hide_borders: bool,
    hide_status: bool,
    sidebar: bool,
)
    ensures
        pointer::wanted_shape(at, layout, cols, rows, hide_borders, hide_status, true, sidebar) == Some(
            MousePointerShape::Default,
        ),
        at is None || layout is None ==> pointer::wanted_shape(
            at,
            layout,
            cols,
            rows,
            hide_borders,
            hide_status,
            false,
            sidebar,
        ) is None,
        at matches Some(p) ==> (layout matches Some(l) ==> pointer::wanted_shape(
            at,
            layout,
            cols,
            rows,
            hide_borders,
            hide_status,
            false,
            sidebar,
        ) == Some(pointer::shape_over(p.1, p.0, cols, rows, l, hide_borders, hide_status, sidebar))),
{
}

/// A shape is written only where it changes, or where that is forced; what was written is in force.
pub proof fn law_pointer_is_written_when_it_changes(
    applied: Option<MousePointerShape>,
    wanted: MousePointerShape,
)
    ensures
        pointer::pointer_change(applied, Some(wanted), false).0 is Some <==> applied != Some(wanted),
        pointer::pointer_change(applied, Some(wanted), true).0 is Some,
        forall|force: bool| #[trigger]
            pointer::pointer_change(applied, Some(wanted), force).1 == Some(wanted),
        forall|force: bool| #[trigger] pointer::pointer_change(applied, None, force) == (
            None::<Seq<char>>,
            applied,
        ),
{
}

/// The fold mark of a line stands on two columns, behind one column for the selection and two for
/// every level above the line. A line with nothing below it has none.
pub proof fn law_fold_mark_is_behind_the_levels(e: EntryV, origin: u16, column: u16)
    requires
        origin + 1 + 2 * e.depth + 2 <= 65535,
    ensures
        navigation::on_mark(e, origin, column) <==> e.expandable && origin + 1 + 2 * e.depth <= column && column
            <= origin + 2 + 2 * e.depth,
{
}

/// The tree takes the whole height of the sidebar but for two rows of hints, which are shown where
/// at least five rows are left for the tree.
pub proof fn law_hints_take_two_rows(height: u16)
    ensures
        navigation::viewport(height).0 == 0,
        height >= 7 ==> navigation::viewport(height).1 + 2 == height,
        height < 7 ==> navigation::viewport(height).1 == height,
{
}

/// The first line shown: the first of all while they fit, and otherwise as far down as leaves a
/// third of the rows above the selection, but never so far that rows stay empty.
pub proof fn law_third_of_the_rows_above(selected: int, count: int, height: int)
    requires
        0 <= selected < count,
        height >= 1,
    ensures
        ({
            let top = navigation::scroll_offset(selected, count, height);
            let third = if height < 3 {
                1
            } else {
                height / 3
            };
            &&& count <= height ==> top == 0
            &&& count > height && selected <= third ==> top == 0
            &&& count > height && selected > third && selected - third <= count - height ==> selected
                - top == third
            &&& count > height && selected - third >= count - height ==> top + height == count
        }),
{
}

} // verus!
