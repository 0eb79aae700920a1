//! The key references, clicks in the tree and on links, and commands that change the tree.

use crate::client::commands_run;
use crate::client::keyboard;
use crate::client::mouse;
use crate::client::places;
use crate::client::tree;
use crate::commands;
use crate::geometry;
use crate::navigation;
use crate::text;
use crate::url;
use crate::client::actions::EffectV;
use crate::client::mode::ModeV;
use crate::client::state::{ClientV, EnvV};
use crate::frame::FrameData;
use crate::geometry::Rect;
use crate::keys::{KeyCode, KeyEvent, MouseEvent};
use crate::navigation::{EntryV, NavigationNodeKind, NodeV};
use crate::prompt::PromptV;
use vstd::prelude::*;

verus! {

/// Escape, q and H leave a key reference: that of the tree for the tree, that of all keys for what
/// had the input before. No server learns of it.
pub proof fn law_leaving_a_key_reference(c: ClientV, key: KeyEvent, press: bool, env: EnvV)
    requires
        key.code == KeyCode::Esc || key.code == KeyCode::Char('q') || key.code == KeyCode::Char(
            'H',
        ),
    ensures
        c.ui.mode is NavigationHelp ==> keyboard::on_key(c, key, press, env).ui.mode is Navigator && keyboard::on_key(
            c,
            key,
            press,
            env,
        ).out == c.out,
        c.ui.mode matches ModeV::ShortcutsHelp { return_mode, .. } ==> keyboard::on_key(
            c,
            key,
            press,
            env,
        ).ui.mode == *return_mode && keyboard::on_key(c, key, press, env).out == c.out,
{
    reveal(keyboard::mode_key);
    reveal(keyboard::help_key);
}

/// In a key reference the arrows and j and k go one line on and back, the page keys eight, Home and
/// g to the start and End and G to the end; it is never scrolled past its end.
pub proof fn law_key_reference_is_scrolled(scroll: usize, key: KeyEvent, max: int)
    requires
        0 <= scroll <= max,
        max + 8 <= usize::MAX,
    ensures
        key.code == KeyCode::Down || key.code == KeyCode::Char('j') ==> keyboard::help_scroll(
            scroll,
            key,
            max,
        ) == if scroll < max {
            scroll + 1
        } else {
            max
        },
        key.code == KeyCode::Up || key.code == KeyCode::Char('k') ==> keyboard::help_scroll(scroll, key, max)
            == if scroll > 0 {
            scroll - 1
        } else {
            0
        },
        key.code == KeyCode::PageDown ==> keyboard::help_scroll(scroll, key, max) == if scroll + 8 < max {
            scroll + 8
        } else {
            max
        },
        key.code == KeyCode::PageUp ==> keyboard::help_scroll(scroll, key, max) == if scroll > 8 {
            scroll - 8
        } else {
            0
        },
        key.code == KeyCode::Home || key.code == KeyCode::Char('g') ==> keyboard::help_scroll(
            scroll,
            key,
            max,
        ) == 0,
        key.code == KeyCode::End || key.code == KeyCode::Char('G') ==> keyboard::help_scroll(scroll, key, max)
            == max,
        keyboard::help_scroll(scroll, key, max) <= max,
{
}

/// A key in a key reference that the prefix key is not before scrolls it and does nothing else.
pub proof fn law_keys_only_scroll_a_key_reference(
    c: ClientV,
    key: KeyEvent,
    press: bool,
    env: EnvV,
)
    requires
        !c.ui.prefix_pending,
        key.code != KeyCode::Esc,
        key.code != KeyCode::Char('q'),
        key.code != KeyCode::Char('H'),
    ensures
        c.ui.mode matches ModeV::NavigationHelp { scroll } ==> keyboard::on_key(c, key, press, env).out
            == c.out && keyboard::on_key(c, key, press, env).ui.mode == (ModeV::NavigationHelp {
            scroll: keyboard::help_scroll(scroll, key, keyboard::help_limit(false, env)),
        }),
        c.ui.mode matches ModeV::ShortcutsHelp { scroll, return_mode } ==> keyboard::on_key(
            c,
            key,
            press,
            env,
        ).out == c.out && keyboard::on_key(c, key, press, env).ui.mode == (ModeV::ShortcutsHelp {
            scroll: keyboard::help_scroll(scroll, key, keyboard::help_limit(true, env)),
            return_mode,
        }),
{
    reveal(keyboard::mode_key);
    reveal(keyboard::help_key);
}

/// A press on a line of the tree selects it; on its fold mark it is folded or unfolded, elsewhere
/// what it stands for is opened.
pub proof fn law_lines_are_clicked(c: ClientV, index: int, area: Rect, mouse: MouseEvent, env: EnvV)
    requires
        0 <= index < c.entries.len() <= usize::MAX,
    ensures
        ({
            let d = mouse::line_clicked(c, index, area, mouse, env);
            let e = c.entries[index];
            &&& navigation::on_mark(e, area.x, mouse.column) ==> {
                &&& d.nav.selected == index
                &&& d.nav.id == Some(e.id)
                &&& d.nav.folded.contains(e.id) <==> !c.nav.folded.contains(e.id)
                &&& forall|other: NodeV|
                    other != e.id ==> (#[trigger] d.nav.folded.contains(other)
                        <==> c.nav.folded.contains(other))
                &&& d.out == c.out
            }
            &&& !navigation::on_mark(e, area.x, mouse.column) && !(e.kind == NavigationNodeKind::Machine)
                && places::activated(keyboard::with_nav(c, places::nav_at(c.nav, c.entries, index)), e.id, env) is None
                ==> d.out == c.out
        }),
{
    reveal(mouse::line_clicked);
    reveal(tree::opened);
}

/// With Control held, a click on a link opens that link and tells so; without it, or where there is
/// no link, nothing is opened.
pub proof fn law_links_are_opened(
    c: ClientV,
    fd: FrameData,
    row: u16,
    col: u16,
    control: bool,
    env: EnvV,
)
    ensures
        ({
            let d = mouse::clicked(c, fd, row, col, control, env);
            let link = url::link_under(
                fd.layout,
                row,
                col,
                c.ui.hide_borders,
                geometry::areas_of(env.cols, env.rows, c.ws.sidebar).layout,
            );
            &&& control && link is Some ==> d.out == c.out.push(EffectV::OpenUrl(link->0))
                && d.ui.notice is Some && d.ui.notice->0.text == "opening "@ + url::short_link(link->0)
            &&& !control || link is None ==> d.out == c.out && d.ui.notice == c.ui.notice
            &&& d.ui.last_click is Some && d.ui.last_click->0.row == row && d.ui.last_click->0.col
                == col && d.ui.last_click->0.at == env.now
        }),
{
    reveal(mouse::clicked);
}

/// A column of a line is on a link exactly where a match of the line covers it, and the link is the
/// first such match without the punctuation behind it.
pub proof fn law_first_link_over_the_column(
    found: Seq<(Seq<char>, Seq<char>)>,
    col: int,
    from: int,
    i: int,
)
    requires
        0 <= from <= i < found.len(),
        forall|k: int|
            from <= k < found.len() ==> text::columns((#[trigger] found[k]).0) + text::columns(found[k].1)
                <= usize::MAX,
        text::columns(found[i].0) <= col,
        col < text::columns(found[i].0) + text::columns(found[i].1),
        forall|k: int|
            from <= k < i ==> !(text::columns((#[trigger] found[k]).0) <= col && col < text::columns(found[k].0)
                + text::columns(found[k].1)),
    ensures
        url::link_at(found, col, from) == Some(url::bare_link(found[i].1)),
    decreases i - from,
{
    assert(text::columns(found[from].0) + text::columns(found[from].1) <= usize::MAX);
    if from < i {
        assert(!(text::columns(found[from].0) <= col && col < text::columns(found[from].0) + text::columns(
            found[from].1,
        )));
        law_first_link_over_the_column(found, col, from + 1, i);
    }
}

/// A line with one of the commands that make, end, rename or go to sessions, windows and panes
/// changes the tree, wherever in the line it stands and by either of its names.
pub proof fn law_commands_that_change_the_tree(line: Seq<char>, i: int)
    requires
        0 <= i < commands::line_commands(line).len(),
    ensures
        ({
            let name = commands::line_commands(line)[i].name;
            seq![
                "new"@,
                "new-session"@,
                "new-window"@,
                "neww"@,
                "split-window"@,
                "splitw"@,
                "zoom-pane"@,
                "zoomp"@,
                "kill-pane"@,
                "killp"@,
                "kill-window"@,
                "killw"@,
                "kill-session"@,
                "kill-s"@,
                "rename-pane"@,
                "renamep"@,
                "rename-window"@,
                "renamew"@,
                "rename-session"@,
                "rename-s"@,
                "select-pane"@,
                "selectp"@,
                "select-window"@,
                "selectw"@,
                "switch-client"@,
                "switchc"@,
                "prev-session"@,
                "next-session"@,
            ].contains(name) ==> commands_run::line_changes_tree(line)
        }),
{
}

/// A rename in the tree begins with the name that the node has, under the question for what the
/// node is.
pub proof fn law_renames_begin_with_the_name(c: ClientV, e: EntryV, env: EnvV)
    requires
        e.label.len() <= usize::MAX,
    ensures
        e.kind == NavigationNodeKind::Machine || e.kind == NavigationNodeKind::Workspace ==> {
            let d = keyboard::rename_begun(c, e, env);
            d.out == c.out && d.ui.mode == (ModeV::RenameIdentity {
                id: e.id,
                prompt: PromptV { buf: e.label, cursor: e.label.len() as usize },
            })
        },
        e.kind == NavigationNodeKind::Window && e.id is Window && places::activated(c, e.id, env) is Some ==> (
        keyboard::rename_begun(c, e, env).ui.mode matches ModeV::RenameWindow { prompt, back } && back
            && prompt.buf == e.label && prompt.cursor == e.label.len()),
        e.kind == NavigationNodeKind::Session && e.id is Session && places::activated(c, e.id, env) is Some
            ==> (keyboard::rename_begun(c, e, env).ui.mode matches ModeV::RenameSession { prompt, back }
            && back && prompt.buf == e.id->Session_name),
        e.kind == NavigationNodeKind::Pane && e.id is Pane && places::activated(c, e.id, env) is Some ==> (
        keyboard::rename_begun(c, e, env).ui.mode matches ModeV::RenamePane { back, .. } && back),
{
    reveal(keyboard::rename_begun);
}

} // verus!
