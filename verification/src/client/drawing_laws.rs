//! What is drawn over the panes, and where the cursor ends up.

use crate::client::drawing;
use crate::client::keyboard;
use crate::client::mode;
use crate::client::drawing::CursorStep;
use crate::client::mode::ModeV;
use crate::client::state::{ClientV, EnvV};
use crate::frame::FrameData;
use crate::geometry::Rect;
use vstd::prelude::*;

verus! {

/// Whether a cell lies in a rectangle.
pub open spec fn inside(r: Rect, x: int, y: int) -> bool {
    r.x <= x && x < r.x + r.width && r.y <= y && y < r.y + r.height
}

/// The rectangle around two covers every cell of both and begins and ends where one of them does.
pub proof fn law_smallest_rectangle_around(a: Rect, b: Rect, x: int, y: int)
    requires
        a.x + a.width <= u16::MAX,
        a.y + a.height <= u16::MAX,
        b.x + b.width <= u16::MAX,
        b.y + b.height <= u16::MAX,
    ensures
        inside(a, x, y) || inside(b, x, y) ==> inside(drawing::around(a, b), x, y),
        drawing::around(a, b).x == a.x || drawing::around(a, b).x == b.x,
        drawing::around(a, b).y == a.y || drawing::around(a, b).y == b.y,
        drawing::around(a, b).x + drawing::around(a, b).width == a.x + a.width || drawing::around(a, b).x + drawing::around(a, b).width
            == b.x + b.width,
        drawing::around(a, b).y + drawing::around(a, b).height == a.y + a.height || drawing::around(a, b).y + drawing::around(
            a,
            b,
        ).height == b.y + b.height,
{
}

/// Where the server draws, the cursor is shown while something is typed, hidden while the tree or a
/// panel has the input, and else where the active pane has it. Where the client draws, drawing
/// places it.
pub proof fn law_cursor_follows_the_input(c: ClientV, env: EnvV, fd: FrameData)
    requires
        env.frame == Some(fd),
    ensures
        fd.ansi is None ==> drawing::cursor_step(c, env) == CursorStep::Leave,
        fd.ansi is Some && (c.ui.mode is CopySearch || c.ui.mode is RenameWindow
            || c.ui.mode is RenameSession || c.ui.mode is RenamePane || c.ui.mode is RenameIdentity
            || c.ui.mode is Command || c.ui.mode is ConfirmNavigationClose) ==> drawing::cursor_step(c, env)
            == CursorStep::Show,
        fd.ansi is Some && (c.ui.mode is OptionPanel || c.ui.mode is NavigationHelp
            || c.ui.mode is ShortcutsHelp || c.ui.mode is Navigator) ==> drawing::cursor_step(c, env)
            == CursorStep::Hide,
        fd.ansi is Some && c.ui.popup && (c.ui.mode is Normal || c.ui.mode is Prefix)
            ==> drawing::cursor_step(c, env) == CursorStep::Hide,
        fd.ansi is Some && !c.ui.popup && (c.ui.mode is Normal || c.ui.mode is Prefix
            || c.ui.mode is CopyMode || c.ui.mode is Resize) ==> !(drawing::cursor_step(c, env)
            == CursorStep::Show || drawing::cursor_step(c, env) == CursorStep::Leave),
{
}

/// The floating tree stays while what it was opened for has the input: the tree itself, its help,
/// the questions that it asks and the names that are given from it.
pub proof fn law_popup_stays_for_its_questions(mode: ModeV)
    ensures
        mode is Navigator || mode is Prefix || mode is NavigationHelp || mode is RenameIdentity
            || mode is ConfirmNavigationClose ==> mode::keeps_popup(mode),
        mode is Normal || mode is CopyMode || mode is CopySearch || mode is Command || mode is Resize
            || mode is OptionPanel || mode is ShortcutsHelp ==> !mode::keeps_popup(mode),
        mode matches ModeV::RenameWindow { back, .. } ==> mode::keeps_popup(mode) == back,
        mode matches ModeV::RenameSession { back, .. } ==> mode::keeps_popup(mode) == back,
        mode matches ModeV::RenamePane { back, .. } ==> mode::keeps_popup(mode) == back,
{
}

/// What is drawn over the panes comes last: first the panes, then the tree, then prompts and
/// panels.
pub proof fn law_prompts_are_drawn_last(c: ClientV, env: EnvV)
    ensures
        drawing::scene(c, env) == drawing::backdrop_plan(c, env) + drawing::tree_plan(c, env) + drawing::dialog_plan(
            c.ui.mode,
            keyboard::screen_of(env),
        ),
        env.frame is None ==> drawing::backdrop_plan(c, env).len() == 1,
{
    reveal(drawing::backdrop_plan);
}

} // verus!
