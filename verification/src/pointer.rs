//! Shapes of the mouse pointer and of the cursor.

use crate::commands;
use crate::frame;
use crate::geometry;
use crate::selection;
use crate::frame::{FrameData, LayoutJson};
use vstd::prelude::*;

verus! {

/// What the mouse pointer looks like.
#[derive(Clone, Copy, Debug, PartialEq, Eq, Structural)]
pub enum MousePointerShape {
    Default,
    Text,
}

impl MousePointerShape {
    pub open spec fn name(self) -> Seq<char> {
        match self {
            MousePointerShape::Default => "default"@,
            MousePointerShape::Text => "text"@,
        }
    }

    /// The name by which a terminal knows the shape.
    pub fn osc_name(self) -> (r: &'static str)
        ensures
            r@ == self.name(),
    {
        match self {
            MousePointerShape::Default => "default",
            MousePointerShape::Text => "text",
        }
    }
}

/// What asks a terminal for a pointer shape.
pub open spec fn pointer_sequence(shape: MousePointerShape) -> Seq<char> {
    seq!['\x1b', ']', '2', '2', ';'] + shape.name() + seq!['\x07']
}

/// What asks a terminal for a pointer shape.
pub fn write_mouse_pointer_shape(shape: MousePointerShape) -> (r: String)
    ensures
        r@ == pointer_sequence(shape),
{
    let mut out = String::new();
    out.push('\x1b');
    out.push(']');
    out.push('2');
    out.push('2');
    out.push(';');
    proof {
        assert(out@ =~= seq!['\x1b', ']', '2', '2', ';']);
    }
    out.append(shape.osc_name());
    let ghost before = out@;
    out.push('\x07');
    proof {
        assert(before.push('\x07') =~= before + seq!['\x07']);
    }
    out
}

/// What to write for a pointer shape, and the shape that is in force afterwards. Nothing is
/// written where no shape is asked for, or where it is in force already and need not be asked for
/// again.
pub open spec fn pointer_change(
    applied: Option<MousePointerShape>,
    desired: Option<MousePointerShape>,
    force: bool,
) -> (Option<Seq<char>>, Option<MousePointerShape>) {
    match desired {
        Some(shape) => if force || applied != Some(shape) {
            (Some(pointer_sequence(shape)), Some(shape))
        } else {
            (None, applied)
        },
        None => (None, applied),
    }
}

/// What to write so that a pointer shape is in force.
pub fn apply_mouse_pointer_shape(
    applied: &mut Option<MousePointerShape>,
    desired: Option<MousePointerShape>,
    force: bool,
) -> (r: Option<String>)
    ensures
        (commands::opt_text(r), *final(applied)) == pointer_change(*old(applied), desired, force),
{
    let shape: MousePointerShape = match desired {
        Some(shape) => shape,
        None => {
            return None;
        },
    };
    let in_force: bool = match *applied {
        Some(now) => now == shape,
        None => false,
    };
    if !force && in_force {
        return None;
    }
    let out = write_mouse_pointer_shape(shape);
    *applied = Some(shape);
    Some(out)
}

/// The pointer shape over a cell: a text cursor over text that can be selected, which is the
/// active pane's content while its program does not want the mouse for itself.
pub open spec fn shape_over(
    row: u16,
    col: u16,
    cols: u16,
    rows: u16,
    layout: LayoutJson,
    hide_borders: bool,
    hide_status: bool,
    sidebar: bool,
) -> MousePointerShape {
    let area = geometry::areas_of(cols, rows, sidebar).layout;
    let hovered = frame::pane_under(frame::placed(layout, area, hide_borders), col as int, row as int, 0);
    let active = frame::active_id(layout);
    let content = geometry::content_of(frame::active_rect(layout, area, hide_borders), hide_borders);
    if geometry::status_row(rows, hide_status) == Some(row) || !selection::cell_in(area, col as int, row as int) || (
    hovered is Some && active is Some && hovered != active) || frame::mouse_mode_in(layout) != 0
        || !selection::cell_in(content, col as int, row as int) {
        MousePointerShape::Default
    } else {
        MousePointerShape::Text
    }
}

/// The pointer shape over a cell.
pub fn mouse_pointer_shape_at(
    row: u16,
    col: u16,
    cols: u16,
    rows: u16,
    fd: &FrameData,
    hide_borders: bool,
    hide_status: bool,
    sidebar_visible: bool,
) -> (r: MousePointerShape)
    ensures
        r == shape_over(
            row,
            col,
            cols,
            rows,
            fd.layout,
            hide_borders,
            hide_status,
            sidebar_visible,
        ),
{
    if let Some(status) = geometry::status_bar_screen_row(rows, hide_status) {
        if row == status {
            return MousePointerShape::Default;
        }
    }
    let area = geometry::server_layout_area(cols, rows, sidebar_visible);
    if !selection::is_cell_in(area, col, row) {
        return MousePointerShape::Default;
    }
    let hovered = frame::find_pane_id_at(&fd.layout, area, col, row, hide_borders);
    let active = frame::active_pane_id(&fd.layout);
    if let (Some(h), Some(a)) = (hovered, active) {
        if h != a {
            return MousePointerShape::Default;
        }
    }
    if frame::active_mouse_mode(fd) != 0 {
        return MousePointerShape::Default;
    }
    let content = geometry::content_rect(
        frame::active_pane_layout_rect(&fd.layout, area, hide_borders),
        hide_borders,
    );
    if selection::is_cell_in(content, col, row) {
        MousePointerShape::Text
    } else {
        MousePointerShape::Default
    }
}

/// The pointer shape to ask for: the plain one while something covers the panes, none before the
/// mouse has moved or a frame has come.
pub open spec fn wanted_shape(
    at: Option<(u16, u16)>,
    layout: Option<LayoutJson>,
    cols: u16,
    rows: u16,
    hide_borders: bool,
    hide_status: bool,
    covered: bool,
    sidebar: bool,
) -> Option<MousePointerShape> {
    if covered {
        Some(MousePointerShape::Default)
    } else {
        match (at, layout) {
            (Some(p), Some(l)) => Some(
                shape_over(p.1, p.0, cols, rows, l, hide_borders, hide_status, sidebar),
            ),
            _ => None,
        }
    }
}

pub open spec fn layout_in(fd: Option<&FrameData>) -> Option<LayoutJson> {
    match fd {
        Some(f) => Some(f.layout),
        None => None,
    }
}

/// The pointer shape to ask for.
pub fn desired_mouse_pointer_shape(
    last_mouse_pos: Option<(u16, u16)>,
    frame: Option<&FrameData>,
    cols: u16,
    rows: u16,
    hide_borders: bool,
    hide_status: bool,
    ui_overlay_active: bool,
    sidebar_visible: bool,
) -> (r: Option<MousePointerShape>)
    ensures
        r == wanted_shape(
            last_mouse_pos,
            layout_in(frame),
            cols,
            rows,
            hide_borders,
            hide_status,
            ui_overlay_active,
            sidebar_visible,
        ),
{
    if ui_overlay_active {
        return Some(MousePointerShape::Default);
    }
    match (last_mouse_pos, frame) {
        (Some((col, row)), Some(fd)) => Some(
            mouse_pointer_shape_at(
                row,
                col,
                cols,
                rows,
                fd,
                hide_borders,
                hide_status,
                sidebar_visible,
            ),
        ),
        _ => None,
    }
}

/// What to write so that the pointer has the shape for where it is.
pub fn refresh_mouse_pointer(
    applied: &mut Option<MousePointerShape>,
    last_mouse_pos: Option<(u16, u16)>,
    frame: Option<&FrameData>,
    cols: u16,
    rows: u16,
    hide_borders: bool,
    hide_status: bool,
    ui_overlay_active: bool,
    force: bool,
    sidebar_visible: bool,
) -> (r: Option<String>)
    ensures
        (commands::opt_text(r), *final(applied)) == pointer_change(
            *old(applied),
            wanted_shape(
                last_mouse_pos,
                layout_in(frame),
                cols,
                rows,
                hide_borders,
                hide_status,
                ui_overlay_active,
                sidebar_visible,
            ),
            force,
        ),
{
    let desired = desired_mouse_pointer_shape(
        last_mouse_pos,
        frame,
        cols,
        rows,
        hide_borders,
        hide_status,
        ui_overlay_active,
        sidebar_visible,
    );
    apply_mouse_pointer_shape(applied, desired, force)
}

/// What the cursor looks like.
#[derive(Clone, Copy, Debug, PartialEq, Eq, Structural)]
pub enum CursorStyle {
    DefaultUserShape,
    BlinkingBlock,
    SteadyBlock,
    BlinkingUnderScore,
    SteadyUnderScore,
    BlinkingBar,
    SteadyBar,
}

/// The cursor for the number that a program asked for; the terminal's own without one.
pub open spec fn cursor_style(shape: Option<u8>) -> CursorStyle {
    match shape {
        Some(0) | Some(1) => CursorStyle::BlinkingBlock,
        Some(2) => CursorStyle::SteadyBlock,
        Some(3) => CursorStyle::BlinkingUnderScore,
        Some(4) => CursorStyle::SteadyUnderScore,
        Some(5) => CursorStyle::BlinkingBar,
        Some(6) => CursorStyle::SteadyBar,
        _ => CursorStyle::DefaultUserShape,
    }
}

/// The cursor for the number that a program asked for; the terminal's own without one.
pub fn cursor_style_for_shape(shape: Option<u8>) -> (r: CursorStyle)
    ensures
        r == cursor_style(shape),
{
    match shape {
        Some(0) | Some(1) => CursorStyle::BlinkingBlock,
        Some(2) => CursorStyle::SteadyBlock,
        Some(3) => CursorStyle::BlinkingUnderScore,
        Some(4) => CursorStyle::SteadyUnderScore,
        Some(5) => CursorStyle::BlinkingBar,
        Some(6) => CursorStyle::SteadyBar,
        _ => CursorStyle::DefaultUserShape,
    }
}

} // verus!
