//! What is drawn, and when.

use crate::ansi;
use crate::client::keyboard;
use crate::client::mode;
use crate::client::state;
use crate::client::tree;
use crate::commands;
use crate::draw;
use crate::frame;
use crate::geometry;
use crate::navigation;
use crate::paint;
use crate::panels;
use crate::selection;
use crate::style;
use crate::text;
use crate::visual;
use crate::ansi::PaneSelection;
use crate::client::actions::RequestV;
use crate::client::mode::{InputMode, ModeV};
use crate::client::state::{ClientV, EnvV, UiV};
use crate::draw::{Draw, DrawV};
use crate::geometry::Rect;
use crate::navigation::{EntryV, NavigationEntry, NavigationNodeKind};
use crate::selection::{MouseSelection, RowSpan};
use crate::style::Color;
use vstd::prelude::*;

verus! {

/// What was drawn last.
#[derive(Debug)]
pub struct Drawn {
    pub entries: Vec<NavigationEntry>,
    pub mode: Option<InputMode>,
    pub sidebar: bool,
    pub overlay: Option<Rect>,
    pub frame: Option<(String, u64)>,
}

#[verifier::ext_equal]
pub struct DrawnV {
    pub entries: Seq<EntryV>,
    pub mode: Option<ModeV>,
    pub sidebar: bool,
    pub overlay: Option<Rect>,
    pub frame: Option<(Seq<char>, u64)>,
}

pub open spec fn mode_opt(mode: Option<InputMode>) -> Option<ModeV> {
    match mode {
        Some(m) => Some(m@),
        None => None,
    }
}

pub open spec fn drawn_frame(frame: Option<(String, u64)>) -> Option<(Seq<char>, u64)> {
    match frame {
        Some(f) => Some((f.0@, f.1)),
        None => None,
    }
}

impl View for Drawn {
    type V = DrawnV;

    open spec fn view(&self) -> DrawnV {
        DrawnV {
            entries: navigation::entry_views(self.entries@),
            mode: mode_opt(self.mode),
            sidebar: self.sidebar,
            overlay: self.overlay,
            frame: drawn_frame(self.frame),
        }
    }
}

/// What is done with the cursor once everything is drawn.
#[derive(Clone, Copy, Debug, PartialEq, Eq, Structural)]
pub enum CursorStep {
    /// It stays as drawing left it.
    Leave,
    Show,
    Hide,
    /// It is shown at a column and a row.
    At(u16, u16),
}

/// Something to draw, in this order: what the server drew, the plan, the highlighted cells, the
/// text under a selection that is gone, the text under the selection, the cursor.
#[derive(Debug)]
pub struct Painting {
    pub server: Option<String>,
    pub repoint: bool,
    pub plan: Vec<Draw>,
    pub spans: Vec<RowSpan>,
    pub restored: Option<String>,
    pub selected: Option<String>,
    pub cursor: CursorStep,
}

/// The smallest rectangle around two.
pub open spec fn around(a: Rect, b: Rect) -> Rect {
    let x = text::min_int(a.x as int, b.x as int);
    let y = text::min_int(a.y as int, b.y as int);
    Rect {
        x: x as u16,
        y: y as u16,
        width: (text::max_int(navigation::sat16(a.x + a.width), navigation::sat16(b.x + b.width)) - x) as u16,
        height: (text::max_int(navigation::sat16(a.y + a.height), navigation::sat16(b.y + b.height)) - y) as u16,
    }
}

pub fn union(a: Rect, b: Rect) -> (r: Rect)
    ensures
        r == around(a, b),
{
    let x: u16 = if a.x < b.x {
        a.x
    } else {
        b.x
    };
    let y: u16 = if a.y < b.y {
        a.y
    } else {
        b.y
    };
    let ar: u16 = a.x.saturating_add(a.width);
    let br: u16 = b.x.saturating_add(b.width);
    let ab: u16 = a.y.saturating_add(a.height);
    let bb: u16 = b.y.saturating_add(b.height);
    let right: u16 = if ar > br {
        ar
    } else {
        br
    };
    let bottom: u16 = if ab > bb {
        ab
    } else {
        bb
    };
    Rect { x, y, width: right - x, height: bottom - y }
}

/// What floats over the panes.
pub open spec fn overlay_now(c: ClientV, env: EnvV) -> Option<Rect> {
    let screen = keyboard::screen_of(env);
    let over = mode::overlay_of(c.ui.mode, screen);
    if c.ui.popup {
        Some(
            match over {
                Some(r) => around(r, geometry::popup_of(screen)),
                None => geometry::popup_of(screen),
            },
        )
    } else {
        over
    }
}

/// Other lines than those on the screen have it drawn anew.
pub open spec fn lines_checked(c: ClientV, s: DrawnV) -> ClientV {
    if c.entries == s.entries {
        c
    } else {
        state::touched(c)
    }
}

/// Where something floats no more as it was drawn, the server is asked to draw everything, and
/// until it has, nothing is drawn.
pub open spec fn overlay_checked(c: ClientV, s: DrawnV, env: EnvV) -> (ClientV, DrawnV) {
    let now = overlay_now(c, env);
    if s.overlay is Some && s.overlay != now {
        let d = state::asked(c, RequestV::RefreshDisplay);
        (
            state::with_ui(d, UiV { drawn_counter: env.counter, ..d.ui }),
            DrawnV { overlay: now, ..s },
        )
    } else {
        (c, s)
    }
}

/// Whether what the server draws fits the place that there is for it.
pub open spec fn viewport_ready(c: ClientV, s: DrawnV, env: EnvV) -> bool {
    s.sidebar == c.ws.sidebar || (match env.frame {
        Some(fd) => visual::fits(
            fd.layout,
            geometry::areas_of(env.cols, env.rows, c.ws.sidebar).layout,
            c.ui.hide_borders,
        ),
        None => false,
    })
}

/// Whether anything is to be drawn.
pub open spec fn redraws(c: ClientV, s: DrawnV, env: EnvV) -> bool {
    viewport_ready(c, s, env) && (env.counter != c.ui.drawn_counter || s.mode != Some(c.ui.mode)
        || s.sidebar != c.ws.sidebar)
}

/// Whether the frame is another one than that on the screen.
pub open spec fn frame_is_new(c: ClientV, s: DrawnV, env: EnvV) -> bool {
    s.frame != Some((state::active_ws(c).socket, env.counter))
}

/// What the server drew, if it is not on the screen yet.
pub open spec fn new_ansi(c: ClientV, s: DrawnV, env: EnvV) -> Option<Seq<char>> {
    match env.frame {
        Some(fd) => if frame_is_new(c, s, env) {
            commands::opt_text(fd.ansi)
        } else {
            None
        },
        None => None,
    }
}

/// What is written of what the server drew: all of it, unless it is blank.
pub open spec fn server_text(c: ClientV, s: DrawnV, env: EnvV) -> Option<Seq<char>> {
    match new_ansi(c, s, env) {
        Some(t) => if text::trimmed(t).len() == 0 {
            None
        } else {
            Some(t)
        },
        None => None,
    }
}

pub open spec fn notice_text(c: ClientV) -> Option<Seq<char>> {
    match c.ui.notice {
        Some(n) => Some(n.text),
        None => None,
    }
}

/// The question whether a node is to be closed.
pub open spec fn close_question(e: EntryV) -> Seq<char> {
    "Close "@ + tree::kind_label(e.kind) + " '"@ + e.label + "' ("@ + (match e.kind {
        NavigationNodeKind::Machine => "detach connections"@,
        NavigationNodeKind::Workspace => "detach only"@,
        _ => "end processes"@,
    }) + ")? [y/N] "@
}

/// The prompt or panel of a mode.
#[verifier::opaque]
pub open spec fn dialog_plan(mode: ModeV, screen: Rect) -> Seq<DrawV> {
    match mode {
        ModeV::CopySearch { prompt, forward } => panels::prompt_plan(
            screen,
            if forward {
                "/"@
            } else {
                "?"@
            },
            prompt.buf,
            prompt.buf.len() as int,
        ),
        ModeV::RenameWindow { prompt, .. } => panels::prompt_plan(
            screen,
            "Rename window: "@,
            prompt.buf,
            prompt.buf.len() as int,
        ),
        ModeV::RenameSession { prompt, .. } => panels::prompt_plan(
            screen,
            "Rename session: "@,
            prompt.buf,
            prompt.buf.len() as int,
        ),
        ModeV::RenamePane { prompt, .. } => panels::prompt_plan(
            screen,
            "Rename pane: "@,
            prompt.buf,
            prompt.buf.len() as int,
        ),
        ModeV::RenameIdentity { id, prompt } => panels::prompt_plan(
            screen,
            if id is Workspace {
                "Rename workspace: "@
            } else {
                "Rename machine: "@
            },
            prompt.buf,
            prompt.cursor as int,
        ),
        ModeV::Command { prompt } => panels::prompt_plan(screen, ":"@, prompt.buf, prompt.cursor as int),
        ModeV::ConfirmNavigationClose { entry } => panels::prompt_plan(
            screen,
            close_question(entry),
            Seq::empty(),
            0,
        ),
        ModeV::OptionPanel { selected, enabled } => panels::options_plan(
            screen,
            selected as int,
            enabled,
        ),
        ModeV::NavigationHelp { scroll } => panels::help_plan(screen, scroll as int, false),
        ModeV::ShortcutsHelp { scroll, .. } => panels::help_plan(screen, scroll as int, true),
        _ => Seq::empty(),
    }
}

/// What the panes' part of the screen shows besides what the server drew.
#[verifier::opaque]
pub open spec fn backdrop_plan(c: ClientV, env: EnvV) -> Seq<DrawV> {
    let areas = geometry::areas_of(env.cols, env.rows, c.ws.sidebar);
    match env.frame {
        Some(fd) => paint::skip_plan(fd, areas.layout, c.ui.hide_borders) + paint::frame_plan(
            fd,
            mode::banner_of(c.ui.mode, notice_text(c)),
            areas.frame,
            c.ui.mode is Prefix,
            mode::prompts(c.ui.mode),
            c.ui.hide_borders,
        ),
        None => seq![
            draw::plain_line(
                areas.frame,
                " Starting zmux..."@,
                style::colored(Some(Color::Yellow), None, false),
            ),
        ],
    }
}

/// What the tree shows.
#[verifier::opaque]
pub open spec fn tree_plan(c: ClientV, env: EnvV) -> Seq<DrawV> {
    let selected = c.nav.selected as int;
    panels::sidebar_plan(
        c.entries,
        selected,
        c.ui.mode is Navigator,
        geometry::areas_of(env.cols, env.rows, c.ws.sidebar).sidebar,
    ) + (if c.ui.popup {
        panels::popup_plan(c.entries, selected, keyboard::screen_of(env))
    } else {
        Seq::empty()
    })
}

/// The whole plan.
pub open spec fn scene(c: ClientV, env: EnvV) -> Seq<DrawV> {
    backdrop_plan(c, env) + tree_plan(c, env) + dialog_plan(c.ui.mode, keyboard::screen_of(env))
}

pub open spec fn frame_has_ansi(env: EnvV) -> bool {
    match env.frame {
        Some(fd) => fd.ansi is Some,
        None => false,
    }
}

/// The drawn selection after what the server drew was written over it.
pub open spec fn selection_overwritten(c: ClientV, s: DrawnV, env: EnvV) -> Option<MouseSelection> {
    if new_ansi(c, s, env) is Some && c.ui.selection is Some {
        None
    } else {
        c.ui.drawn_selection
    }
}

/// Whether the text under a selection that is gone is to be restored.
pub open spec fn restores(c: ClientV, drawn: Option<MouseSelection>, env: EnvV) -> bool {
    frame_has_ansi(env) && drawn is Some && c.ui.selection is None
}

/// The text under a selection that is gone.
pub open spec fn restored_text(c: ClientV, drawn: Option<MouseSelection>, env: EnvV) -> Option<Seq<char>> {
    match env.frame {
        Some(fd) => if restores(c, drawn, env) {
            let b = selection::normalized(drawn->0);
            let none = text::min_int(b.start_col as int, b.end_col as int) as u16;
            ansi::painted_selection(
                fd.layout,
                geometry::areas_of(env.cols, env.rows, c.ws.sidebar).layout,
                c.ui.hide_borders,
                b.start_row,
                b.end_row,
                PaneSelection {
                    start_row: b.start_row,
                    start_col: none,
                    end_row: b.start_row,
                    end_col: none,
                },
            )
        } else {
            None
        },
        None => None,
    }
}

/// Whether a selection is to be drawn over what the server drew: one of at least a cell that is
/// not on the screen as it is.
pub open spec fn paints_selection(c: ClientV, drawn: Option<MouseSelection>, env: EnvV) -> bool {
    match c.ui.selection {
        Some(sel) => frame_has_ansi(env) && !selection::covers_nothing(sel) && (match drawn {
            Some(prev) => selection::normalized(prev) != selection::normalized(sel),
            None => true,
        }),
        None => false,
    }
}

/// The text under the selection, and that under the one drawn before it.
pub open spec fn selected_rows(c: ClientV, drawn: Option<MouseSelection>, env: EnvV) -> Option<Seq<char>> {
    match (env.frame, c.ui.selection) {
        (Some(fd), Some(sel)) => if paints_selection(c, drawn, env) {
            let b = selection::normalized(sel);
            let (from, to) = match drawn {
                Some(prev) => (
                    text::min_int(b.start_row as int, selection::normalized(prev).start_row as int) as u16,
                    text::max_int(b.end_row as int, selection::normalized(prev).end_row as int) as u16,
                ),
                None => (b.start_row, b.end_row),
            };
            ansi::painted_selection(
                fd.layout,
                geometry::areas_of(env.cols, env.rows, c.ws.sidebar).layout,
                c.ui.hide_borders,
                from,
                to,
                PaneSelection {
                    start_row: b.start_row,
                    start_col: b.start_col,
                    end_row: b.end_row,
                    end_col: b.end_col,
                },
            )
        } else {
            None
        },
        _ => None,
    }
}

/// The drawn selection once everything is drawn.
pub open spec fn selection_after(c: ClientV, s: DrawnV, env: EnvV) -> Option<MouseSelection> {
    let drawn = selection_overwritten(c, s, env);
    if restores(c, drawn, env) {
        None
    } else if paints_selection(c, drawn, env) {
        c.ui.selection
    } else {
        drawn
    }
}

/// What is done with the cursor. Where the server draws, the client places it itself.
pub open spec fn cursor_step(c: ClientV, env: EnvV) -> CursorStep {
    match env.frame {
        Some(fd) => if fd.ansi is None {
            CursorStep::Leave
        } else if mode::prompts(c.ui.mode) {
            CursorStep::Show
        } else if c.ui.popup || mode::overlays(c.ui.mode) || c.ui.mode is Navigator {
            CursorStep::Hide
        } else {
            let frame = geometry::areas_of(env.cols, env.rows, c.ws.sidebar).frame;
            let area = if fd.status is Some {
                geometry::above_status(frame).0
            } else {
                frame
            };
            match frame::first_cursor(
                frame::placed(fd.layout, area, c.ui.hide_borders),
                c.ui.hide_borders,
                0,
            ) {
                Some(at) => CursorStep::At(at.0, at.1),
                None => CursorStep::Hide,
            }
        },
        None => CursorStep::Leave,
    }
}

/// Whether highlighted cells are just those that the selection covers. Over what a server drew,
/// the selection is written as text instead.
pub open spec fn spans_match(c: ClientV, env: EnvV, spans: Seq<RowSpan>) -> bool {
    match (env.frame, c.ui.selection) {
        (Some(fd), Some(sel)) => if fd.ansi is Some {
            spans.len() == 0
        } else {
            let screen = keyboard::screen_of(env);
            let area = frame::active_content(
                fd.layout,
                frame::without_last_row(geometry::frame_inside(screen, c.ws.sidebar)),
                c.ui.hide_borders,
                true,
            ).1;
            forall|col: int, row: int| #[trigger]
                selection::in_spans(spans, col, row) <==> selection::highlighted(area, sel, col, row) && col
                    < screen.width
        },
        _ => spans.len() == 0,
    }
}

/// The client once everything is drawn.
pub open spec fn client_after(c: ClientV, s: DrawnV, env: EnvV) -> ClientV {
    state::with_ui(
        c,
        UiV {
            drawn_selection: selection_after(c, s, env),
            drawn_counter: env.counter,
            ..c.ui
        },
    )
}

/// The screen once everything is drawn.
pub open spec fn screen_after(c: ClientV, s: DrawnV, env: EnvV) -> DrawnV {
    DrawnV {
        entries: c.entries,
        mode: Some(c.ui.mode),
        sidebar: c.ws.sidebar,
        overlay: overlay_now(c, env),
        frame: if frame_is_new(c, s, env) {
            Some((state::active_ws(c).socket, env.counter))
        } else {
            s.frame
        },
    }
}

/// What was drawn is not drawn again before something changes.
pub proof fn law_drawn_once(c: ClientV, s: DrawnV, env: EnvV)
    ensures
        !redraws(client_after(c, s, env), screen_after(c, s, env), env),
        lines_checked(client_after(c, s, env), screen_after(c, s, env)) == client_after(c, s, env),
        overlay_checked(client_after(c, s, env), screen_after(c, s, env), env).0 == client_after(c, s, env),
{
}

} // verus!
