//! What input goes to: the panes, the navigation tree, a prompt or a panel.

use crate::commands;
use crate::geometry;
use crate::help;
use crate::navigation;
use crate::paint;
use crate::text;
use crate::geometry::Rect;
use crate::keys::NavDir;
use crate::navigation::{EntryV, NavigationEntry, NavigationNodeId, NodeV};
use crate::prompt::PromptV;
use vstd::prelude::*;

verus! {

/// What input goes to.
#[derive(Debug)]
pub enum InputMode {
    Normal,
    Prefix,
    Navigator,
    NavigationHelp { scroll: usize },
    ShortcutsHelp { scroll: usize, return_mode: Box<InputMode> },
    Resize,
    CopyMode,
    CopySearch { buf: String, cursor: usize, forward: bool },
    RenameWindow { buf: String, cursor: usize, return_to_navigator: bool },
    RenameSession { buf: String, cursor: usize, return_to_navigator: bool },
    RenamePane { buf: String, cursor: usize, return_to_navigator: bool },
    RenameIdentity { id: NavigationNodeId, buf: String, cursor: usize },
    ConfirmNavigationClose { entry: NavigationEntry },
    Command { buf: String, cursor: usize },
    OptionPanel { selected: usize, scroll_on_erase_in_display: bool },
}

#[verifier::ext_equal]
pub enum ModeV {
    Normal,
    Prefix,
    Navigator,
    NavigationHelp { scroll: usize },
    ShortcutsHelp { scroll: usize, return_mode: Box<ModeV> },
    Resize,
    CopyMode,
    CopySearch { prompt: PromptV, forward: bool },
    RenameWindow { prompt: PromptV, back: bool },
    RenameSession { prompt: PromptV, back: bool },
    RenamePane { prompt: PromptV, back: bool },
    RenameIdentity { id: NodeV, prompt: PromptV },
    ConfirmNavigationClose { entry: EntryV },
    Command { prompt: PromptV },
    OptionPanel { selected: usize, enabled: bool },
}

pub open spec fn prompt_of(buf: String, cursor: usize) -> PromptV {
    PromptV { buf: buf@, cursor }
}

pub open spec fn mode_view(mode: InputMode) -> ModeV
    decreases mode,
{
    match mode {
        InputMode::Normal => ModeV::Normal,
        InputMode::Prefix => ModeV::Prefix,
        InputMode::Navigator => ModeV::Navigator,
        InputMode::NavigationHelp { scroll } => ModeV::NavigationHelp { scroll },
        InputMode::ShortcutsHelp { scroll, return_mode } => ModeV::ShortcutsHelp {
            scroll,
            return_mode: Box::new(mode_view(*return_mode)),
        },
        InputMode::Resize => ModeV::Resize,
        InputMode::CopyMode => ModeV::CopyMode,
        InputMode::CopySearch { buf, cursor, forward } => ModeV::CopySearch {
            prompt: prompt_of(buf, cursor),
            forward,
        },
        InputMode::RenameWindow { buf, cursor, return_to_navigator } => ModeV::RenameWindow {
            prompt: prompt_of(buf, cursor),
            back: return_to_navigator,
        },
        InputMode::RenameSession { buf, cursor, return_to_navigator } => ModeV::RenameSession {
            prompt: prompt_of(buf, cursor),
            back: return_to_navigator,
        },
        InputMode::RenamePane { buf, cursor, return_to_navigator } => ModeV::RenamePane {
            prompt: prompt_of(buf, cursor),
            back: return_to_navigator,
        },
        InputMode::RenameIdentity { id, buf, cursor } => ModeV::RenameIdentity {
            id: id@,
            prompt: prompt_of(buf, cursor),
        },
        InputMode::ConfirmNavigationClose { entry } => ModeV::ConfirmNavigationClose {
            entry: entry@,
        },
        InputMode::Command { buf, cursor } => ModeV::Command { prompt: prompt_of(buf, cursor) },
        InputMode::OptionPanel { selected, scroll_on_erase_in_display } => ModeV::OptionPanel {
            selected,
            enabled: scroll_on_erase_in_display,
        },
    }
}

impl View for InputMode {
    type V = ModeV;

    open spec fn view(&self) -> ModeV {
        mode_view(*self)
    }
}

fn copy_opt(s: &Option<String>) -> (r: Option<String>)
    ensures
        commands::opt_text(r) == commands::opt_text(*s),
{
    match s {
        Some(t) => Some(t.clone()),
        None => None,
    }
}

/// A copy of a line of the navigation tree.
pub fn copy_entry(e: &NavigationEntry) -> (r: NavigationEntry)
    ensures
        r@ == e@,
{
    NavigationEntry {
        id: e.id.copy(),
        kind: e.kind,
        depth: e.depth,
        label: e.label.clone(),
        meta: copy_opt(&e.meta),
        connection: e.connection,
        active: e.active,
        expandable: e.expandable,
        expanded: e.expanded,
    }
}

fn same_opt(a: &Option<String>, b: &Option<String>) -> (r: bool)
    ensures
        r == (commands::opt_text(*a) == commands::opt_text(*b)),
{
    match (a, b) {
        (Some(x), Some(y)) => text::same_text(x.as_str(), y.as_str()),
        (None, None) => true,
        _ => false,
    }
}

/// Whether two lines of the navigation tree are alike.
pub fn same_entry(a: &NavigationEntry, b: &NavigationEntry) -> (r: bool)
    ensures
        r == (a@ == b@),
{
    a.id.same(&b.id) && a.kind == b.kind && a.depth == b.depth && text::same_text(
        a.label.as_str(),
        b.label.as_str(),
    ) && same_opt(&a.meta, &b.meta) && a.connection == b.connection && a.active == b.active
        && a.expandable == b.expandable && a.expanded == b.expanded
}

/// Whether two navigation trees are alike.
pub fn same_entries(a: &[NavigationEntry], b: &[NavigationEntry]) -> (r: bool)
    ensures
        r == (navigation::entry_views(a@) == navigation::entry_views(b@)),
{
    let ghost x = navigation::entry_views(a@);
    let ghost y = navigation::entry_views(b@);
    if a.len() != b.len() {
        proof {
            assert(x.len() != y.len());
        }
        return false;
    }
    let mut i: usize = 0;
    while i < a.len()
        invariant
            i <= a@.len(),
            a@.len() == b@.len(),
            x == navigation::entry_views(a@),
            y == navigation::entry_views(b@),
            forall|k: int| 0 <= k < i ==> #[trigger] x[k] == y[k],
        decreases a@.len() - i,
    {
        proof {
            assert(x[i as int] == a@[i as int]@);
            assert(y[i as int] == b@[i as int]@);
        }
        if !same_entry(&a[i], &b[i]) {
            return false;
        }
        i = i + 1;
    }
    proof {
        assert(x =~= y);
    }
    true
}

impl InputMode {
    /// A copy.
    pub fn copy(&self) -> (r: InputMode)
        ensures
            r@ == self@,
        decreases self,
    {
        match self {
            InputMode::Normal => InputMode::Normal,
            InputMode::Prefix => InputMode::Prefix,
            InputMode::Navigator => InputMode::Navigator,
            InputMode::NavigationHelp { scroll } => InputMode::NavigationHelp { scroll: *scroll },
            InputMode::ShortcutsHelp { scroll, return_mode } => InputMode::ShortcutsHelp {
                scroll: *scroll,
                return_mode: Box::new((**return_mode).copy()),
            },
            InputMode::Resize => InputMode::Resize,
            InputMode::CopyMode => InputMode::CopyMode,
            InputMode::CopySearch { buf, cursor, forward } => InputMode::CopySearch {
                buf: buf.clone(),
                cursor: *cursor,
                forward: *forward,
            },
            InputMode::RenameWindow { buf, cursor, return_to_navigator } => {
                InputMode::RenameWindow {
                    buf: buf.clone(),
                    cursor: *cursor,
                    return_to_navigator: *return_to_navigator,
                }
            },
            InputMode::RenameSession { buf, cursor, return_to_navigator } => {
                InputMode::RenameSession {
                    buf: buf.clone(),
                    cursor: *cursor,
                    return_to_navigator: *return_to_navigator,
                }
            },
            InputMode::RenamePane { buf, cursor, return_to_navigator } => InputMode::RenamePane {
                buf: buf.clone(),
                cursor: *cursor,
                return_to_navigator: *return_to_navigator,
            },
            InputMode::RenameIdentity { id, buf, cursor } => InputMode::RenameIdentity {
                id: id.copy(),
                buf: buf.clone(),
                cursor: *cursor,
            },
            InputMode::ConfirmNavigationClose { entry } => InputMode::ConfirmNavigationClose {
                entry: copy_entry(entry),
            },
            InputMode::Command { buf, cursor } => InputMode::Command {
                buf: buf.clone(),
                cursor: *cursor,
            },
            InputMode::OptionPanel { selected, scroll_on_erase_in_display } => {
                InputMode::OptionPanel {
                    selected: *selected,
                    scroll_on_erase_in_display: *scroll_on_erase_in_display,
                }
            },
        }
    }

    /// Whether two modes are alike, with all that they hold.
    pub fn same(&self, other: &InputMode) -> (r: bool)
        ensures
            r == (self@ == other@),
        decreases self,
    {
        match (self, other) {
            (InputMode::Normal, InputMode::Normal) => true,
            (InputMode::Prefix, InputMode::Prefix) => true,
            (InputMode::Navigator, InputMode::Navigator) => true,
            (InputMode::Resize, InputMode::Resize) => true,
            (InputMode::CopyMode, InputMode::CopyMode) => true,
            (
                InputMode::NavigationHelp { scroll: a },
                InputMode::NavigationHelp { scroll: b },
            ) => *a == *b,
            (
                InputMode::ShortcutsHelp { scroll: a, return_mode: m },
                InputMode::ShortcutsHelp { scroll: b, return_mode: n },
            ) => *a == *b && (**m).same(&**n),
            (
                InputMode::CopySearch { buf: a, cursor: c, forward: f },
                InputMode::CopySearch { buf: b, cursor: d, forward: g },
            ) => *c == *d && *f == *g && text::same_text(a.as_str(), b.as_str()),
            (
                InputMode::RenameWindow { buf: a, cursor: c, return_to_navigator: f },
                InputMode::RenameWindow { buf: b, cursor: d, return_to_navigator: g },
            ) => *c == *d && *f == *g && text::same_text(a.as_str(), b.as_str()),
            (
                InputMode::RenameSession { buf: a, cursor: c, return_to_navigator: f },
                InputMode::RenameSession { buf: b, cursor: d, return_to_navigator: g },
            ) => *c == *d && *f == *g && text::same_text(a.as_str(), b.as_str()),
            (
                InputMode::RenamePane { buf: a, cursor: c, return_to_navigator: f },
                InputMode::RenamePane { buf: b, cursor: d, return_to_navigator: g },
            ) => *c == *d && *f == *g && text::same_text(a.as_str(), b.as_str()),
            (
                InputMode::RenameIdentity { id: i, buf: a, cursor: c },
                InputMode::RenameIdentity { id: j, buf: b, cursor: d },
            ) => *c == *d && i.same(j) && text::same_text(a.as_str(), b.as_str()),
            (
                InputMode::ConfirmNavigationClose { entry: a },
                InputMode::ConfirmNavigationClose { entry: b },
            ) => same_entry(a, b),
            (
                InputMode::Command { buf: a, cursor: c },
                InputMode::Command { buf: b, cursor: d },
            ) => *c == *d && text::same_text(a.as_str(), b.as_str()),
            (
                InputMode::OptionPanel { selected: a, scroll_on_erase_in_display: e },
                InputMode::OptionPanel { selected: b, scroll_on_erase_in_display: f },
            ) => *a == *b && *e == *f,
            _ => false,
        }
    }
}

/// Whether a mode has a prompt on the last row.
pub open spec fn prompts(mode: ModeV) -> bool {
    mode is CopySearch || mode is RenameWindow || mode is RenameSession || mode is RenamePane
        || mode is RenameIdentity || mode is Command || mode is ConfirmNavigationClose
}

/// Whether a mode has a prompt on the last row.
pub fn has_prompt(mode: &InputMode) -> (r: bool)
    ensures
        r == prompts(mode@),
{
    match mode {
        InputMode::CopySearch { .. } => true,
        InputMode::RenameWindow { .. } => true,
        InputMode::RenameSession { .. } => true,
        InputMode::RenamePane { .. } => true,
        InputMode::RenameIdentity { .. } => true,
        InputMode::Command { .. } => true,
        InputMode::ConfirmNavigationClose { .. } => true,
        _ => false,
    }
}

/// Whether a mode has a panel over the panes.
pub open spec fn overlays(mode: ModeV) -> bool {
    mode is OptionPanel || mode is NavigationHelp || mode is ShortcutsHelp
}

/// Whether a mode has a panel over the panes.
pub fn has_panel(mode: &InputMode) -> (r: bool)
    ensures
        r == overlays(mode@),
{
    match mode {
        InputMode::OptionPanel { .. } => true,
        InputMode::NavigationHelp { .. } => true,
        InputMode::ShortcutsHelp { .. } => true,
        _ => false,
    }
}

/// Whether the floating tree stays while this mode has the input: for operations on a node and the
/// tree's own help.
pub open spec fn keeps_popup(mode: ModeV) -> bool {
    match mode {
        ModeV::Navigator => true,
        ModeV::Prefix => true,
        ModeV::NavigationHelp { .. } => true,
        ModeV::RenameIdentity { .. } => true,
        ModeV::ConfirmNavigationClose { .. } => true,
        ModeV::RenameWindow { back, .. } => back,
        ModeV::RenameSession { back, .. } => back,
        ModeV::RenamePane { back, .. } => back,
        _ => false,
    }
}

/// Whether the floating tree stays while this mode has the input.
pub fn retains_navigation_popup(mode: &InputMode) -> (r: bool)
    ensures
        r == keeps_popup(mode@),
{
    match mode {
        InputMode::Navigator => true,
        InputMode::Prefix => true,
        InputMode::NavigationHelp { .. } => true,
        InputMode::RenameIdentity { .. } => true,
        InputMode::ConfirmNavigationClose { .. } => true,
        InputMode::RenameWindow { return_to_navigator, .. } => *return_to_navigator,
        InputMode::RenameSession { return_to_navigator, .. } => *return_to_navigator,
        InputMode::RenamePane { return_to_navigator, .. } => *return_to_navigator,
        _ => false,
    }
}

/// Where a mode's panel is.
pub open spec fn overlay_of(mode: ModeV, area: Rect) -> Option<Rect> {
    if area.width == 0 || area.height == 0 {
        None
    } else {
        match mode {
            ModeV::OptionPanel { .. } => Some(geometry::options_of(area)),
            ModeV::NavigationHelp { .. } => Some(
                help::help_area(area, help::navigation_help().len() as int),
            ),
            ModeV::ShortcutsHelp { .. } => Some(help::help_area(area, help::shortcuts().len() as int)),
            _ => None,
        }
    }
}

/// Where a mode's panel is.
pub fn floating_overlay_rect(mode: &InputMode, area: Rect) -> (r: Option<Rect>)
    ensures
        r == overlay_of(mode@, area),
{
    if area.width == 0 || area.height == 0 {
        return None;
    }
    match mode {
        InputMode::OptionPanel { .. } => Some(geometry::options_panel_rect(area)),
        InputMode::NavigationHelp { .. } => Some(help::navigation_help_rect(area)),
        InputMode::ShortcutsHelp { .. } => Some(help::shortcuts_help_rect(area)),
        _ => None,
    }
}

/// The name of a mode on the status bar, where it has one.
pub open spec fn mode_label(mode: ModeV) -> Option<Seq<char>> {
    match mode {
        ModeV::Navigator => Some("NAV"@),
        ModeV::Resize => Some("RESIZE"@),
        ModeV::CopyMode => Some("COPY"@),
        ModeV::CopySearch { forward, .. } => Some(
            if forward {
                "COPY /"@
            } else {
                "COPY ?"@
            },
        ),
        _ => None,
    }
}

/// What stands at the right of the status bar: the mode's name and the notice.
pub open spec fn banner_of(mode: ModeV, notice: Option<Seq<char>>) -> Option<Seq<char>> {
    match (mode_label(mode), notice) {
        (Some(label), Some(n)) => Some(label + " | "@ + n),
        (Some(label), None) => Some(label),
        (None, Some(n)) => Some(n),
        (None, None) => None,
    }
}

/// What stands at the right of the status bar.
pub fn status_banner_for_mode(mode: &InputMode, notice: Option<&str>) -> (r: Option<String>)
    ensures
        commands::opt_text(r) == banner_of(mode@, paint::str_opt(notice)),
{
    let label: Option<&str> = match mode {
        InputMode::Navigator => Some("NAV"),
        InputMode::Resize => Some("RESIZE"),
        InputMode::CopyMode => Some("COPY"),
        InputMode::CopySearch { forward, .. } => Some(
            if *forward {
                "COPY /"
            } else {
                "COPY ?"
            },
        ),
        _ => None,
    };
    match (label, notice) {
        (Some(l), Some(n)) => {
            let mut out = l.to_string();
            out.append(" | ");
            out.append(n);
            Some(out)
        },
        (Some(l), None) => Some(l.to_string()),
        (None, Some(n)) => Some(n.to_string()),
        (None, None) => None,
    }
}

/// Whether the server's drawing is written: always, also under a panel or beside a prompt, which
/// are drawn over it in the same update.
pub fn should_write_server_ansi(has_overlay: bool, has_prompt: bool) -> (r: bool)
    ensures
        r,
{
    true
}

/// Where the prefix key takes input from the navigation tree: right leaves it, every other
/// direction stays.
pub open spec fn navigator_after(dir: NavDir) -> ModeV {
    match dir {
        NavDir::Right => ModeV::Normal,
        _ => ModeV::Navigator,
    }
}

/// Where the prefix key takes input from the navigation tree.
pub fn navigator_prefix_move(dir: NavDir) -> (r: InputMode)
    ensures
        r@ == navigator_after(dir),
{
    match dir {
        NavDir::Right => InputMode::Normal,
        _ => InputMode::Navigator,
    }
}

} // verus!
