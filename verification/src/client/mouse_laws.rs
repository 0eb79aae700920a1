//! What clicks, drags, the wheel and pasted text do.

use crate::client::mouse;
use crate::client::places;
use crate::client::shortcut_laws;
use crate::client::state;
use crate::command_laws;
use crate::commands;
use crate::frame;
use crate::geometry;
use crate::key_laws;
use crate::keys;
use crate::prompt_laws;
use crate::selection;
use crate::text;
use crate::visual;
use crate::client::actions::{EffectV, RequestV};
use crate::client::mode::ModeV;
use crate::client::state::{ClientV, EnvV, UiV};
use crate::frame::FrameData;
use crate::geometry::Rect;
use crate::keys::{MouseButton, MouseEvent, MouseEventKind};
use crate::selection::{MouseDragOrigin, MouseSelection};
use crate::visual::VisualHit;
use vstd::prelude::*;

verus! {

/// Whether the mouse is in the panes: keys go there too, no tree is in the way, and no program asked
/// for the mouse.
pub open spec fn mouse_in_panes(c: ClientV, m: MouseEvent, env: EnvV) -> bool {
    &&& c.wf()
    &&& c.ui.mode is Normal
    &&& !c.ui.popup
    &&& !mouse::tree_area(c, env).has(m.column as int, m.row as int)
    &&& mouse::frame_mouse_mode(env) == 0
}

/// Whether a cell is one of a rectangle's that lies on the screen.
pub open spec fn cell_of(r: Rect, col: int, row: int) -> bool {
    r.x <= col < r.x + r.width && r.y <= row < r.y + r.height && r.x + r.width <= u16::MAX && r.y
        + r.height <= u16::MAX
}

/// The first pane on the screen that has a cell.
pub open spec fn first_at_cell(hits: Seq<VisualHit>, col: int, row: int, i: int) -> bool {
    &&& 0 <= i < hits.len()
    &&& cell_of(hits[i].rect, col, row)
    &&& forall|j: int| 0 <= j < i ==> !visual::hit_has(#[trigger] hits[j], col, row)
}

proof fn lemma_first_at_cell(hits: Seq<VisualHit>, col: int, row: int, from: int, i: int)
    requires
        0 <= from <= i,
        first_at_cell(hits, col, row, i),
    ensures
        visual::first_hit(hits, |h: VisualHit| visual::hit_has(h, col, row), from) == Some(i),
    decreases i - from,
{
    if from < i {
        assert(!visual::hit_has(hits[from], col, row));
        lemma_first_at_cell(hits, col, row, from + 1, i);
    }
}

/// A turn of the wheel over a pane makes that pane the current one and scrolls it, up or down as the
/// wheel was turned; up begins copy mode.
pub proof fn law_wheel_scrolls_the_pane_under_it(
    c: ClientV,
    m: MouseEvent,
    env: EnvV,
    i: int,
)
    requires
        mouse_in_panes(c, m, env),
        m.kind == MouseEventKind::ScrollUp || m.kind == MouseEventKind::ScrollDown,
        first_at_cell(places::screen_hits(c, env), m.column as int, m.row as int, i),
    ensures
        ({
            let d = mouse::on_mouse(c, m, env);
            let pane = places::screen_hits(c, env)[i].target->pane_id;
            let n = c.out.len() as int;
            &&& d.out.len() == n + 2
            &&& d.out.take(n) == c.out
            &&& d.out[n] matches EffectV::Ask { workspace, request: RequestV::Command(line) }
                && workspace == c.ws.active && commands::line_commands(line) == seq![
                command_laws::targeting("select-pane"@, seq!['%'] + text::decimal(pane as nat)),
            ]
            &&& d.out[n + 1] == shortcut_laws::to_active(
                c,
                RequestV::Scroll { up: m.kind == MouseEventKind::ScrollUp, pane: Some(pane) },
            )
            &&& d.ws.list[c.ws.active as int].focus == Some(pane)
            &&& m.kind == MouseEventKind::ScrollUp ==> d.ui.mode is CopyMode
            &&& m.kind == MouseEventKind::ScrollDown ==> d.ui.mode is Normal
        }),
{
    reveal(mouse::screen_mouse);
    reveal(mouse::pane_mouse);
    let noted = mouse::mouse_noted(c, m);
    let b = state::in_mode(noted, ModeV::Normal);
    assert(places::screen_hits(b, env) == places::screen_hits(c, env));
    lemma_first_at_cell(places::screen_hits(c, env), m.column as int, m.row as int, 0, i);
    command_laws::law_pane_selection_is_read(places::screen_hits(c, env)[i].target->pane_id as nat);
    let d = mouse::on_mouse(c, m, env);
    assert(d.out.take(c.out.len() as int) =~= c.out);
}

/// A press of the left button in a pane other than the current one makes it the current one: the
/// active workspace is asked to select it, once, and it is kept in mind.
pub proof fn law_press_selects_the_pane_under_it(c: ClientV, m: MouseEvent, env: EnvV, i: int)
    requires
        mouse_in_panes(c, m, env),
        m.kind == MouseEventKind::Down(MouseButton::Left),
        mouse::tab_at(c, m, env) is None,
        env.frame matches Some(fd) && !selection::cell_in(mouse::pane_area(c, fd, env), m.column as int, m.row as int),
        first_at_cell(places::screen_hits(c, env), m.column as int, m.row as int, i),
        visual::current_of(places::kept_target(c), places::screen_hits(c, env)) != Some(places::screen_hits(c, env)[i].target),
    ensures
        ({
            let d = mouse::on_mouse(c, m, env);
            let pane = places::screen_hits(c, env)[i].target->pane_id;
            let n = c.out.len() as int;
            &&& d.out.len() == n + 1
            &&& d.out.take(n) == c.out
            &&& d.out[n] matches EffectV::Ask { workspace, request: RequestV::Command(line) }
                && workspace == c.ws.active && commands::line_commands(line) == seq![
                command_laws::targeting("select-pane"@, seq!['%'] + text::decimal(pane as nat)),
            ]
            &&& d.ws.list[c.ws.active as int].focus == Some(pane)
        }),
{
    reveal(mouse::screen_mouse);
    reveal(mouse::pane_mouse);
    reveal(mouse::pane_area);
    reveal(mouse::tab_at);
    let noted = mouse::mouse_noted(c, m);
    let b = state::in_mode(noted, ModeV::Normal);
    assert(places::screen_hits(b, env) == places::screen_hits(c, env));
    assert(places::kept_target(b) == places::kept_target(c));
    lemma_first_at_cell(places::screen_hits(c, env), m.column as int, m.row as int, 0, i);
    command_laws::law_pane_selection_is_read(places::screen_hits(c, env)[i].target->pane_id as nat);
    let d = mouse::on_mouse(c, m, env);
    assert(d.out.take(c.out.len() as int) =~= c.out);
}

/// A press on a window's tab has the active workspace select that window, and nothing else.
pub proof fn law_tab_selects_its_window(c: ClientV, m: MouseEvent, env: EnvV, index: usize)
    requires
        mouse_in_panes(c, m, env),
        m.kind == MouseEventKind::Down(MouseButton::Left),
        mouse::tab_at(c, m, env) == Some(index),
    ensures
        ({
            let d = mouse::on_mouse(c, m, env);
            let n = c.out.len() as int;
            &&& d.out.len() == n + 1
            &&& d.out.take(n) == c.out
            &&& d.out[n] matches EffectV::Ask { workspace, request: RequestV::Command(line) }
                && workspace == c.ws.active && commands::line_commands(line) == seq![
                command_laws::targeting("select-window"@, text::decimal(index as nat)),
            ]
        }),
{
    reveal(mouse::screen_mouse);
    reveal(mouse::tab_at);
    command_laws::law_window_selection_is_read(index as nat);
    let d = mouse::on_mouse(c, m, env);
    assert(d.out.take(c.out.len() as int) =~= c.out);
}

proof fn lemma_pressed(c: ClientV, down: MouseEvent, env: EnvV, fd: FrameData)
    requires
        mouse_in_panes(c, down, env),
        env.frame == Some(fd),
        down.kind == MouseEventKind::Down(MouseButton::Left),
        mouse::tab_at(c, down, env) is None,
        c.ui.selection is None,
        c.ui.last_click is None,
        cell_of(mouse::pane_area(c, fd, env), down.column as int, down.row as int),
    ensures
        ({
            let a = mouse::on_mouse(c, down, env);
            &&& a.ui.drag == Some(MouseDragOrigin { row: down.row, col: down.column })
            &&& a.ui.selection is None
            &&& a.ui.mode is Normal
            &&& a.ui.popup == c.ui.popup
            &&& a.ui.hide_borders == c.ui.hide_borders
            &&& a.out == c.out
            &&& a.ws == c.ws
            &&& mouse::pane_area(a, fd, env) == mouse::pane_area(c, fd, env)
        }),
{
    let noted = mouse::mouse_noted(c, down);
    let b = state::in_mode(noted, ModeV::Normal);
    assert(mouse::tab_at(noted, down, env) is None) by {
        reveal(mouse::tab_at);
    }
    assert(mouse::pane_area(b, fd, env) == mouse::pane_area(c, fd, env)) by {
        reveal(mouse::pane_area);
    }
    assert(mouse::pressed_word(b, fd, down, env) is None) by {
        reveal(mouse::pressed_word);
    }
    let a = mouse::on_mouse(c, down, env);
    assert(a == state::touched(mouse::pane_pressed(b, fd, down, false, env))) by {
        reveal(mouse::screen_mouse);
        reveal(mouse::pane_mouse);
    }
    assert(mouse::pane_area(a, fd, env) == mouse::pane_area(c, fd, env)) by {
        reveal(mouse::pane_area);
    }
}

proof fn lemma_released(
    a: ClientV,
    up: MouseEvent,
    env: EnvV,
    fd: FrameData,
    row: u16,
    col: u16,
)
    requires
        mouse_in_panes(a, up, env),
        env.frame == Some(fd),
        up.kind == MouseEventKind::Up(MouseButton::Left),
        a.ui.selection is None,
        a.ui.drag == Some(MouseDragOrigin { row, col }),
        cell_of(mouse::pane_area(a, fd, env), up.column as int, up.row as int),
        row != up.row || (col != up.column && col != up.column + 1),
    ensures
        ({
            let d = mouse::on_mouse(a, up, env);
            let shown = frame::active_content(
                fd.layout,
                geometry::areas_of(env.cols, env.rows, a.ws.sidebar).layout,
                a.ui.hide_borders,
                true,
            );
            let text = selection::text_under(
                frame::found_rows(shown.0),
                shown.1,
                MouseSelection {
                    start_col: col,
                    start_row: row,
                    end_col: (up.column + 1) as u16,
                    end_row: up.row,
                },
            );
            &&& text.len() > 0 ==> d.out == a.out.push(EffectV::CopyText(text))
            &&& text.len() == 0 ==> d.out == a.out
            &&& d.ui.selection is None
            &&& d.ui.drag is None
        }),
{
    let noted = mouse::mouse_noted(a, up);
    let b = state::in_mode(noted, ModeV::Normal);
    assert(mouse::pane_area(b, fd, env) == mouse::pane_area(a, fd, env)) by {
        reveal(mouse::pane_area);
    }
    let sel = MouseSelection {
        start_col: col,
        start_row: row,
        end_col: (up.column + 1) as u16,
        end_row: up.row,
    };
    let done = selection::finalized(b.ui.selection, b.ui.drag, up, mouse::pane_area_in(b, env));
    assert(done == Some(sel));
    let e = state::with_ui(b, UiV { selection: None, ..b.ui });
    let d = mouse::on_mouse(a, up, env);
    assert(d == state::touched(mouse::drag_ended(mouse::selection_copied(e, fd, sel, env), env))) by {
        reveal(mouse::screen_mouse);
        reveal(mouse::pane_mouse);
        reveal(mouse::left_released);
        reveal(mouse::released_over);
    }
    reveal(mouse::selection_copied);
}

/// A press in the active pane and a release at another cell of it copies the text from the cell of
/// the press up to and with the cell of the release; where that is nothing, nothing is copied. The
/// selection is gone then.
pub proof fn law_drag_copies(
    c: ClientV,
    down: MouseEvent,
    up: MouseEvent,
    env: EnvV,
    fd: FrameData,
)
    requires
        mouse_in_panes(c, down, env),
        mouse_in_panes(c, up, env),
        env.frame == Some(fd),
        down.kind == MouseEventKind::Down(MouseButton::Left),
        up.kind == MouseEventKind::Up(MouseButton::Left),
        mouse::tab_at(c, down, env) is None,
        c.ui.selection is None,
        c.ui.last_click is None,
        cell_of(mouse::pane_area(c, fd, env), down.column as int, down.row as int),
        cell_of(mouse::pane_area(c, fd, env), up.column as int, up.row as int),
        down.row != up.row || (down.column != up.column && down.column != up.column + 1),
    ensures
        ({
            let d = mouse::on_mouse(mouse::on_mouse(c, down, env), up, env);
            let shown = frame::active_content(
                fd.layout,
                geometry::areas_of(env.cols, env.rows, c.ws.sidebar).layout,
                c.ui.hide_borders,
                true,
            );
            let text = selection::text_under(
                frame::found_rows(shown.0),
                shown.1,
                MouseSelection {
                    start_col: down.column,
                    start_row: down.row,
                    end_col: (up.column + 1) as u16,
                    end_row: up.row,
                },
            );
            &&& text.len() > 0 ==> d.out == c.out.push(EffectV::CopyText(text))
            &&& text.len() == 0 ==> d.out == c.out
            &&& d.ui.selection is None
            &&& d.ui.drag is None
        }),
{
    lemma_pressed(c, down, env, fd);
    let a = mouse::on_mouse(c, down, env);
    lemma_released(a, up, env, fd, down.row, down.column);
}

/// Where a program asked for the mouse, it is told of an event in its pane in its own cells, the
/// cell counted from the pane's content.
pub proof fn law_program_learns_of_the_mouse(
    c: ClientV,
    m: MouseEvent,
    env: EnvV,
    i: int,
)
    requires
        c.wf(),
        c.ui.mode is Normal,
        !c.ui.popup,
        !mouse::tree_area(c, env).has(m.column as int, m.row as int),
        mouse::frame_mouse_mode(env) != 0,
        m.kind != MouseEventKind::Down(MouseButton::Left),
        !mouse::overrides(m),
        first_at_cell(places::screen_hits(c, env), m.column as int, m.row as int, i),
        cell_of(
            geometry::content_of(places::screen_hits(c, env)[i].rect, c.ui.hide_borders),
            m.column as int,
            m.row as int,
        ),
    ensures
        ({
            let inner = geometry::content_of(places::screen_hits(c, env)[i].rect, c.ui.hide_borders);
            mouse::on_mouse(c, m, env).out == c.out.push(
                shortcut_laws::to_active(
                    c,
                    RequestV::Input(
                        vstd::utf8::encode_utf8(
                            keys::mouse_text(
                                MouseEvent {
                                    kind: m.kind,
                                    column: (m.column - inner.x) as u16,
                                    row: (m.row - inner.y) as u16,
                                    modifiers: m.modifiers,
                                },
                            ),
                        ),
                    ),
                ),
            )
        }),
{
    reveal(mouse::screen_mouse);
    reveal(mouse::program_mouse);
    let noted = mouse::mouse_noted(c, m);
    let b = state::in_mode(noted, ModeV::Normal);
    let e = state::with_ui(b, UiV { selection: None, ..b.ui });
    assert(places::screen_hits(e, env) == places::screen_hits(c, env));
    lemma_first_at_cell(places::screen_hits(c, env), m.column as int, m.row as int, 0, i);
    let inner = geometry::content_of(places::screen_hits(c, env)[i].rect, c.ui.hide_borders);
    let local = MouseEvent {
        kind: m.kind,
        column: (m.column - inner.x) as u16,
        row: (m.row - inner.y) as u16,
        modifiers: m.modifiers,
    };
    key_laws::law_mouse_report(local);
    assert(vstd::utf8::encode_utf8(keys::mouse_text(local)).len() > 0) by {
        if vstd::utf8::encode_utf8(keys::mouse_text(local)).len() == 0 {
            assert(vstd::utf8::encode_utf8(keys::mouse_text(local)) =~= Seq::empty());
            vstd::utf8::encode_utf8_decode_utf8(keys::mouse_text(local));
            assert(vstd::utf8::decode_utf8(Seq::<u8>::empty()) =~= Seq::<char>::empty());
            reveal_strlit("\x1b[<");
            assert(keys::mouse_text(local).len() > 0);
        }
    }
}

/// A notch of the wheel in the tree selects the line three further, cut short at the ends.
pub proof fn law_wheel_goes_three_lines_in_the_tree(c: ClientV, down: bool)
    requires
        c.nav.selected < c.entries.len() <= usize::MAX,
    ensures
        mouse::tree_wheel(c, down).out == c.out,
        down ==> mouse::tree_wheel(c, down).nav.selected == (if c.nav.selected + 3 < c.entries.len() {
            c.nav.selected + 3
        } else {
            c.entries.len() - 1
        }),
        !down ==> mouse::tree_wheel(c, down).nav.selected == (if c.nav.selected >= 3 {
            c.nav.selected - 3
        } else {
            0
        }),
        mouse::tree_wheel(c, down).nav.id == Some(c.entries[mouse::tree_wheel(c, down).nav.selected as int].id),
{
    reveal(mouse::tree_wheel);
}

/// Pasted text goes to the program in the active pane, and into a prompt where one has the input:
/// before its cursor, and no server is told of it.
pub proof fn law_paste_goes_to_the_input(c: ClientV, text: Seq<char>)
    requires
        text.len() > 0,
    ensures
        c.ui.mode is Normal || c.ui.mode is Prefix || c.ui.mode is Resize ==> mouse::pasted(c, text).out
            == c.out.push(shortcut_laws::to_active(c, RequestV::Paste(text))) && mouse::pasted(c, text).ui.mode is Normal,
        c.ui.mode matches ModeV::Command { prompt } ==> mouse::pasted(c, text).out == c.out && (mouse::pasted(
            c,
            text,
        ).ui.mode matches ModeV::Command { prompt: now } && (prompt.cursor <= prompt.buf.len()
            && prompt.buf.len() + text.len() <= usize::MAX ==> prompt_laws::made_of(
            now,
            prompt_laws::left_part(prompt) + text,
            prompt_laws::right_part(prompt),
        ))),
        c.ui.mode matches ModeV::CopySearch { prompt, forward } ==> mouse::pasted(c, text).out == c.out && (
        mouse::pasted(c, text).ui.mode matches ModeV::CopySearch { prompt: now, forward: f } && f == forward
            && (prompt.cursor <= prompt.buf.len() && prompt.buf.len() + text.len() <= usize::MAX
            ==> prompt_laws::made_of(now, prompt_laws::left_part(prompt) + text, prompt_laws::right_part(prompt)))),
        c.ui.mode matches ModeV::RenameWindow { prompt, back } ==> mouse::pasted(c, text).out == c.out && (
        mouse::pasted(c, text).ui.mode matches ModeV::RenameWindow { prompt: now, back: b } && b == back
            && (prompt.cursor <= prompt.buf.len() && prompt.buf.len() + text.len() <= usize::MAX
            ==> prompt_laws::made_of(now, prompt_laws::left_part(prompt) + text, prompt_laws::right_part(prompt)))),
{
}

/// A terminal of another size has every workspace told of the size that is left for its panes.
pub proof fn law_every_workspace_learns_of_the_size(c: ClientV, env: EnvV)
    ensures
        ({
            let d = mouse::terminal_resized(c, env);
            let n = c.out.len() as int;
            &&& d.out.len() == n + c.ws.list.len()
            &&& d.out.take(n) == c.out
            &&& forall|i: int|
                0 <= i < c.ws.list.len() ==> #[trigger] d.out[n + i] == (EffectV::Ask {
                    workspace: i as usize,
                    request: RequestV::Resize(state::server_size(env, c.ws.sidebar)),
                })
        }),
{
    shortcut_laws::lemma_all_asked(
        c,
        RequestV::Resize(state::server_size(env, c.ws.sidebar)),
        c.ws.list.len() as int,
    );
    assert(mouse::terminal_resized(c, env).out.take(c.out.len() as int) =~= c.out);
}

/// The wheel scrolls a key reference by three lines, not beyond its ends.
pub proof fn law_wheel_scrolls_the_reference(scroll: usize, max: int)
    requires
        scroll <= max <= usize::MAX - 3,
    ensures
        mouse::wheel_scroll(scroll, MouseEventKind::ScrollDown, max) == (if scroll + 3 <= max {
            scroll + 3
        } else {
            max
        }),
        mouse::wheel_scroll(scroll, MouseEventKind::ScrollUp, max) == (if scroll >= 3 {
            scroll - 3
        } else {
            0
        }),
{
}

/// Dragging selects from where it began up to and with the cell under the mouse; outside the pane
/// it selects up to the pane's edge on that side.
pub proof fn law_dragging_selects_up_to_the_mouse(sel: MouseSelection, pane: Rect, mouse: MouseEvent)
    requires
        pane.width > 0,
        pane.height > 0,
        pane.x + pane.width <= u16::MAX,
        pane.y + pane.height <= u16::MAX,
    ensures
        ({
            let s = mouse::drawn_to(sel, Some(pane), mouse);
            &&& s.start_col == sel.start_col && s.start_row == sel.start_row
            &&& pane.x <= mouse.column && mouse.column < pane.x + pane.width ==> s.end_col
                == mouse.column + 1
            &&& mouse.column + 1 < pane.x ==> s.end_col == pane.x
            &&& mouse.column >= pane.x + pane.width ==> s.end_col == pane.x + pane.width
            &&& pane.y <= mouse.row && mouse.row < pane.y + pane.height ==> s.end_row == mouse.row
            &&& mouse.row < pane.y ==> s.end_row == pane.y
            &&& mouse.row >= pane.y + pane.height ==> s.end_row == pane.y + pane.height - 1
        }),
{
}

} // verus!
