//! What the mouse does.

use crate::client::keyboard;
use crate::client::places;
use crate::client::state;
use crate::client::tree;
use crate::frame;
use crate::geometry;
use crate::navigation;
use crate::paint;
use crate::prompt;
use crate::selection;
use crate::text;
use crate::url;
use crate::client::actions::{EffectV, RequestV};
use crate::client::mode::ModeV;
use crate::client::state::{ClientV, EnvV, NOTICE, UiV};
use crate::frame::FrameData;
use crate::geometry::Rect;
use crate::keys::{MouseButton, MouseEvent, MouseEventKind};
use crate::selection::{LastMouseClick, MouseDragOrigin, MouseSelection};
use vstd::prelude::*;

verus! {

pub open spec fn is_left_down(mouse: MouseEvent) -> bool {
    mouse.kind == MouseEventKind::Down(MouseButton::Left)
}

/// The wheel over a key reference.
#[verifier::opaque]
pub open spec fn help_wheel(mode: ModeV, mouse: MouseEvent, env: EnvV) -> ModeV {
    match mode {
        ModeV::NavigationHelp { scroll } => ModeV::NavigationHelp {
            scroll: wheel_scroll(scroll, mouse.kind, keyboard::help_limit(false, env)),
        },
        ModeV::ShortcutsHelp { scroll, return_mode } => ModeV::ShortcutsHelp {
            scroll: wheel_scroll(scroll, mouse.kind, keyboard::help_limit(true, env)),
            return_mode,
        },
        other => other,
    }
}

/// How far a key reference is scrolled after the wheel was turned: three lines a notch.
pub open spec fn wheel_scroll(scroll: usize, kind: MouseEventKind, max: int) -> usize {
    match kind {
        MouseEventKind::ScrollDown => text::min_int(text::clip((scroll + 3) as nat) as int, max) as usize,
        MouseEventKind::ScrollUp => text::max_int(scroll - 3, 0) as usize,
        _ => scroll,
    }
}

/// Nothing is kept of what the mouse was doing in the panes.
pub open spec fn mouse_reset(c: ClientV) -> ClientV {
    state::with_ui(c, UiV { selection: None, drag: None, last_click: None, ..c.ui })
}

/// The selection in the tree after one notch of the wheel, three lines on.
#[verifier::opaque]
pub open spec fn tree_wheel(c: ClientV, down: bool) -> ClientV {
    let e = c.entries;
    state::touched(
        keyboard::with_nav(
            c,
            if down {
                keyboard::nav_next(keyboard::nav_next(keyboard::nav_next(c.nav, e), e), e)
            } else {
                keyboard::nav_prev(keyboard::nav_prev(keyboard::nav_prev(c.nav, e), e), e)
            },
        ),
    )
}

/// A line of the tree clicked: on its fold mark it is folded, elsewhere it is opened.
#[verifier::opaque]
pub open spec fn line_clicked(c: ClientV, index: int, area: Rect, mouse: MouseEvent, env: EnvV) -> ClientV {
    let d = state::in_mode(keyboard::with_nav(c, places::nav_at(c.nav, c.entries, index)), ModeV::Navigator);
    state::touched(
        if navigation::on_mark(c.entries[index], area.x, mouse.column) {
            tree::nav_toggled(d)
        } else {
            tree::opened(d, c.entries[index], env)
        },
    )
}

/// The mouse in the tree.
#[verifier::opaque]
pub open spec fn tree_mouse(c: ClientV, area: Rect, mouse: MouseEvent, env: EnvV) -> ClientV {
    let d = mouse_reset(c);
    match mouse.kind {
        MouseEventKind::ScrollDown => tree_wheel(d, true),
        MouseEventKind::ScrollUp => tree_wheel(d, false),
        MouseEventKind::Down(MouseButton::Left) => match navigation::entry_under(
            d.nav.selected as int,
            d.entries.len() as int,
            area.y,
            area.height,
            mouse.row,
        ) {
            Some(index) => line_clicked(d, index as int, area, mouse, env),
            None => d,
        },
        _ => d,
    }
}

/// Where the active pane shows its text.
#[verifier::opaque]
pub open spec fn pane_area(c: ClientV, fd: FrameData, env: EnvV) -> Rect {
    frame::active_content(
        fd.layout,
        frame::without_last_row(geometry::areas_of(env.cols, env.rows, c.ws.sidebar).frame),
        c.ui.hide_borders,
        true,
    ).1
}

/// The window whose tab on the status bar is under the mouse.
#[verifier::opaque]
pub open spec fn tab_at(c: ClientV, mouse: MouseEvent, env: EnvV) -> Option<usize> {
    let frame = geometry::areas_of(env.cols, env.rows, c.ws.sidebar).frame;
    if geometry::status_row(env.rows, false) != Some(mouse.row) {
        None
    } else {
        match env.frame {
            Some(fd) => match fd.status {
                Some(status) => paint::tab_under(
                    status.windows@,
                    text::max_int(mouse.column - frame.x, 0),
                    text::columns(paint::spaced(status.left@)) as int,
                    0,
                ),
                None => None,
            },
            None => None,
        }
    }
}

/// A window's tab clicked.
pub open spec fn tab_clicked(c: ClientV, index: usize) -> ClientV {
    let d = state::asked(c, RequestV::Command("select-window -t "@ + text::decimal(index as nat)));
    state::with_ui(
        d,
        UiV { mode: ModeV::Normal, copy_confirmed: false, drawn_counter: 0, ..d.ui },
    )
}

/// What a press of the left button in the active pane selects: a word, at the second one in the
/// same place, or nothing yet.
#[verifier::opaque]
pub open spec fn pressed_word(c: ClientV, fd: FrameData, mouse: MouseEvent, env: EnvV) -> Option<
    MouseSelection,
> {
    if selection::double_click(c.ui.last_click, mouse.row, mouse.column, env.now) {
        selection::word_at(
            fd.layout,
            mouse.row,
            mouse.column,
            c.ui.hide_borders,
            geometry::areas_of(env.cols, env.rows, c.ws.sidebar).layout,
        )
    } else {
        None
    }
}

/// The click kept after a press: a double click uses up the one before it.
pub open spec fn clicks_left(c: ClientV, mouse: MouseEvent, env: EnvV) -> Option<LastMouseClick> {
    if selection::double_click(c.ui.last_click, mouse.row, mouse.column, env.now) {
        None
    } else {
        c.ui.last_click
    }
}

/// The left button pressed in the active pane. In copy mode a selection of nothing begins there.
pub open spec fn pane_pressed(
    c: ClientV,
    fd: FrameData,
    mouse: MouseEvent,
    copying: bool,
    env: EnvV,
) -> ClientV {
    let last_click = clicks_left(c, mouse, env);
    match pressed_word(c, fd, mouse, env) {
        Some(sel) => state::with_ui(
            c,
            UiV { last_click, selection: Some(sel), drag: None, ..c.ui },
        ),
        None => state::with_ui(
            c,
            UiV {
                last_click,
                selection: if copying {
                    Some(
                        MouseSelection {
                            start_col: mouse.column,
                            start_row: mouse.row,
                            end_col: mouse.column,
                            end_row: mouse.row,
                        },
                    )
                } else {
                    c.ui.selection
                },
                drag: Some(MouseDragOrigin { row: mouse.row, col: mouse.column }),
                ..c.ui
            },
        ),
    }
}

/// The left button pressed.
pub open spec fn left_pressed(c: ClientV, mouse: MouseEvent, copying: bool, env: EnvV) -> ClientV {
    match env.frame {
        None => c,
        Some(fd) => if selection::cell_in(pane_area(c, fd, env), mouse.column as int, mouse.row as int) {
            pane_pressed(c, fd, mouse, copying, env)
        } else {
            match places::focused_at(c, env, mouse.column, mouse.row) {
                Some(d) => if copying {
                    state::with_ui(
                        d,
                        UiV {
                            mode: ModeV::Normal,
                            copy_confirmed: false,
                            copy_suppress: Some(env.counter),
                            selection: None,
                            ..d.ui
                        },
                    )
                } else {
                    d
                },
                None => c,
            }
        },
    }
}

/// A selection drawn on to the mouse, not past the pane.
pub open spec fn drawn_to(sel: MouseSelection, pane: Option<Rect>, mouse: MouseEvent) -> MouseSelection {
    match pane {
        Some(pa) => MouseSelection {
            end_col: selection::col_within(pa, navigation::sat16(mouse.column + 1)) as u16,
            end_row: selection::row_within(pa, mouse.row as int) as u16,
            ..sel
        },
        None => MouseSelection { end_col: mouse.column, end_row: mouse.row, ..sel },
    }
}

/// The active pane's text area, if there is a frame.
pub open spec fn pane_area_in(c: ClientV, env: EnvV) -> Option<Rect> {
    match env.frame {
        Some(fd) => Some(pane_area(c, fd, env)),
        None => None,
    }
}

/// The mouse moved with the left button held.
pub open spec fn left_dragged(c: ClientV, mouse: MouseEvent, env: EnvV) -> ClientV {
    match c.ui.selection {
        Some(sel) => state::with_ui(
            c,
            UiV { selection: Some(drawn_to(sel, pane_area_in(c, env), mouse)), ..c.ui },
        ),
        None => match (c.ui.drag, env.frame) {
            (Some(origin), Some(fd)) => state::with_ui(
                c,
                UiV {
                    selection: Some(
                        drawn_to(
                            MouseSelection {
                                start_col: origin.col,
                                start_row: origin.row,
                                end_col: origin.col,
                                end_row: origin.row,
                            },
                            Some(pane_area(c, fd, env)),
                            mouse,
                        ),
                    ),
                    ..c.ui
                },
            ),
            _ => c,
        },
    }
}

/// A click kept for the next one. With Control held, a link under it is opened.
#[verifier::opaque]
pub open spec fn clicked(
    c: ClientV,
    fd: FrameData,
    row: u16,
    col: u16,
    control: bool,
    env: EnvV,
) -> ClientV {
    let link = if control {
        url::link_under(
            fd.layout,
            row,
            col,
            c.ui.hide_borders,
            geometry::areas_of(env.cols, env.rows, c.ws.sidebar).layout,
        )
    } else {
        None
    };
    let d = match link {
        Some(url) => state::told(
            state::acting(c, EffectV::OpenUrl(url)),
            "opening "@ + url::short_link(url),
            env.now,
            NOTICE as int,
        ),
        None => c,
    };
    state::with_ui(d, UiV { last_click: Some(LastMouseClick { row, col, at: env.now }), ..d.ui })
}

/// What a selection covers goes to the clipboard, unless that is nothing.
#[verifier::opaque]
pub open spec fn selection_copied(c: ClientV, fd: FrameData, sel: MouseSelection, env: EnvV) -> ClientV {
    let f = frame::active_content(
        fd.layout,
        geometry::areas_of(env.cols, env.rows, c.ws.sidebar).layout,
        c.ui.hide_borders,
        true,
    );
    let text = selection::text_under(frame::found_rows(f.0), f.1, sel);
    let d = state::with_ui(c, UiV { last_click: None, ..c.ui });
    if text.len() == 0 {
        d
    } else {
        state::acting(d, EffectV::CopyText(text))
    }
}

/// The left button let go over a frame.
#[verifier::opaque]
pub open spec fn released_over(
    c: ClientV,
    fd: FrameData,
    done: Option<MouseSelection>,
    mouse: MouseEvent,
    copying: bool,
    env: EnvV,
) -> ClientV {
    let control = mouse.modifiers.control;
    match done {
        Some(sel) => if selection::caret(sel) {
            clicked(c, fd, sel.start_row, sel.start_col, control, env)
        } else {
            selection_copied(c, fd, sel, env)
        },
        None => if !copying && c.ui.drag is Some {
            clicked(c, fd, mouse.row, mouse.column, control, env)
        } else {
            c
        },
    }
}

/// Nothing is dragged any more; what the server drew is drawn anew.
pub open spec fn drag_ended(c: ClientV, env: EnvV) -> ClientV {
    let d = state::with_ui(c, UiV { drag: None, ..c.ui });
    match env.frame {
        Some(fd) => if fd.ansi is Some {
            state::touched(d)
        } else {
            d
        },
        None => d,
    }
}

/// The left button let go.
#[verifier::opaque]
pub open spec fn left_released(c: ClientV, mouse: MouseEvent, copying: bool, env: EnvV) -> ClientV {
    let done = selection::finalized(c.ui.selection, c.ui.drag, mouse, pane_area_in(c, env));
    let d = state::with_ui(c, UiV { selection: None, ..c.ui });
    drag_ended(
        match env.frame {
            Some(fd) => released_over(d, fd, done, mouse, copying, env),
            None => d,
        },
        env,
    )
}

/// Whether the mouse is used to select although a program asked for it: Shift is held.
pub open spec fn overrides(mouse: MouseEvent) -> bool {
    mouse.modifiers.shift && (mouse.kind == MouseEventKind::Down(MouseButton::Left) || mouse.kind
        == MouseEventKind::Drag(MouseButton::Left) || mouse.kind == MouseEventKind::Up(
        MouseButton::Left,
    ))
}

/// The mouse goes to the program in the pane, except for a press that makes another pane current.
#[verifier::opaque]
pub open spec fn program_mouse(c: ClientV, mouse: MouseEvent, env: EnvV) -> ClientV {
    let d = state::with_ui(c, UiV { selection: None, ..c.ui });
    if is_left_down(mouse) {
        match places::focused_at(d, env, mouse.column, mouse.row) {
            Some(e) => e,
            None => places::mouse_sent(d, env, mouse),
        }
    } else {
        places::mouse_sent(d, env, mouse)
    }
}

/// The mouse in the panes, where no program asked for it.
#[verifier::opaque]
pub open spec fn pane_mouse(c: ClientV, mouse: MouseEvent, env: EnvV) -> ClientV {
    match mouse.kind {
        MouseEventKind::ScrollUp => {
            let d = places::wheel_turned(c, env, mouse, true);
            state::with_ui(
                d,
                UiV {
                    mode: ModeV::CopyMode,
                    copy_confirmed: false,
                    copy_exit_pending: false,
                    scrolled: false,
                    drawn_counter: 0,
                    ..d.ui
                },
            )
        },
        MouseEventKind::ScrollDown => state::touched(places::wheel_turned(c, env, mouse, false)),
        MouseEventKind::Down(MouseButton::Left) => left_pressed(c, mouse, false, env),
        MouseEventKind::Drag(MouseButton::Left) => left_dragged(c, mouse, env),
        MouseEventKind::Up(MouseButton::Left) => left_released(c, mouse, false, env),
        _ => c,
    }
}

/// The mouse in copy mode.
#[verifier::opaque]
pub open spec fn copy_mouse(c: ClientV, mouse: MouseEvent, env: EnvV) -> ClientV {
    match mouse.kind {
        MouseEventKind::ScrollUp => state::touched(places::wheel_turned(c, env, mouse, true)),
        MouseEventKind::ScrollDown => state::touched(places::wheel_turned(c, env, mouse, false)),
        MouseEventKind::Down(MouseButton::Left) => left_pressed(c, mouse, true, env),
        MouseEventKind::Drag(MouseButton::Left) => left_dragged(c, mouse, env),
        MouseEventKind::Up(MouseButton::Left) => left_released(c, mouse, true, env),
        _ => c,
    }
}

pub open spec fn frame_mouse_mode(env: EnvV) -> u8 {
    match env.frame {
        Some(fd) => frame::mouse_mode_in(fd.layout),
        None => 0,
    }
}

/// The mouse outside the tree.
#[verifier::opaque]
pub open spec fn screen_mouse(c: ClientV, mouse: MouseEvent, env: EnvV) -> ClientV {
    if c.ui.mode is Normal || c.ui.mode is Prefix || c.ui.mode is Resize {
        if is_left_down(mouse) && tab_at(c, mouse, env) is Some {
            tab_clicked(c, tab_at(c, mouse, env)->0)
        } else {
            let d = state::in_mode(c, ModeV::Normal);
            state::touched(
                if frame_mouse_mode(env) != 0 && !overrides(mouse) {
                    program_mouse(d, mouse, env)
                } else {
                    pane_mouse(d, mouse, env)
                },
            )
        }
    } else if c.ui.mode is CopyMode {
        state::touched(copy_mouse(c, mouse, env))
    } else {
        state::touched(c)
    }
}

/// Where the tree is shown.
pub open spec fn tree_area(c: ClientV, env: EnvV) -> Rect {
    if c.ui.popup {
        geometry::inside_border(geometry::popup_of(keyboard::screen_of(env)))
    } else {
        geometry::areas_of(env.cols, env.rows, c.ws.sidebar).sidebar
    }
}

/// What is kept of a mouse event before anything else.
pub open spec fn mouse_noted(c: ClientV, mouse: MouseEvent) -> ClientV {
    let prefix = c.ui.mode is Prefix;
    state::with_ui(
        c,
        UiV {
            last_mouse: Some((mouse.column, mouse.row)),
            prefix_from_copy: !prefix && c.ui.prefix_from_copy,
            prefix_from_navigator: !prefix && c.ui.prefix_from_navigator,
            ..c.ui
        },
    )
}

/// The mouse outside the floating tree, which no pane learns of: a press closes the tree.
pub open spec fn popup_mouse(c: ClientV, mouse: MouseEvent) -> ClientV {
    if is_left_down(mouse) {
        state::touched(state::with_ui(c, UiV { popup: false, mode: c.ui.popup_return, ..c.ui }))
    } else {
        c
    }
}

/// A mouse event.
pub open spec fn on_mouse(c: ClientV, mouse: MouseEvent, env: EnvV) -> ClientV {
    if c.ui.mode is NavigationHelp || c.ui.mode is ShortcutsHelp {
        state::in_mode(c, help_wheel(c.ui.mode, mouse, env))
    } else {
        let d = mouse_noted(c, mouse);
        if d.ui.popup && !(d.ui.mode is Navigator) {
            d
        } else if tree_area(d, env).has(mouse.column as int, mouse.row as int) {
            tree_mouse(d, tree_area(d, env), mouse, env)
        } else if d.ui.popup {
            popup_mouse(d, mouse)
        } else {
            screen_mouse(d, mouse, env)
        }
    }
}

/// Where the floating tree is open, the mouse asks nothing of any server but by a click on a line
/// of the tree.
pub proof fn law_popup_owns_the_mouse(c: ClientV, mouse: MouseEvent, env: EnvV)
    requires
        c.ui.popup,
        !tree_area(c, env).has(mouse.column as int, mouse.row as int),
    ensures
        on_mouse(c, mouse, env).out == c.out,
        on_mouse(c, mouse, env).ws == c.ws,
{
}

/// Text pasted into what has the input: the program in the pane, or a prompt.
pub open spec fn pasted(c: ClientV, text: Seq<char>) -> ClientV {
    if text.len() == 0 {
        c
    } else {
        match c.ui.mode {
            ModeV::Normal | ModeV::Prefix | ModeV::Resize => state::in_mode(
                state::asked(c, RequestV::Paste(text)),
                ModeV::Normal,
            ),
            mode => state::in_mode(c, pasted_into(mode, text)),
        }
    }
}

/// A prompt with text pasted at its cursor.
pub open spec fn pasted_into(mode: ModeV, text: Seq<char>) -> ModeV {
    match mode {
        ModeV::CopySearch { prompt, forward } => ModeV::CopySearch {
            prompt: prompt::inserted(prompt, text),
            forward,
        },
        ModeV::RenameWindow { prompt, back } => ModeV::RenameWindow {
            prompt: prompt::inserted(prompt, text),
            back,
        },
        ModeV::RenameSession { prompt, back } => ModeV::RenameSession {
            prompt: prompt::inserted(prompt, text),
            back,
        },
        ModeV::RenamePane { prompt, back } => ModeV::RenamePane {
            prompt: prompt::inserted(prompt, text),
            back,
        },
        ModeV::RenameIdentity { id, prompt } => ModeV::RenameIdentity {
            id,
            prompt: prompt::inserted(prompt, text),
        },
        ModeV::Command { prompt } => ModeV::Command { prompt: prompt::inserted(prompt, text) },
        other => other,
    }
}

/// The terminal has another size.
pub open spec fn terminal_resized(c: ClientV, env: EnvV) -> ClientV {
    state::touched(
        state::asked_all(
            c,
            RequestV::Resize(state::server_size(env, c.ws.sidebar)),
            c.ws.list.len() as int,
        ),
    )
}

} // verus!
