//! The client makes what is drawn.

use crate::ansi;
use crate::client::drawing;
use crate::client::mode;
use crate::client::state;
use crate::client::tree;
use crate::commands;
use crate::draw;
use crate::frame;
use crate::geometry;
use crate::navigation;
use crate::paint;
use crate::panels;
use crate::selection;
use crate::text;
use crate::visual;
use crate::ansi::PaneSelection;
use crate::client::actions::Request;
use crate::client::drawing::{CursorStep, Drawn, DrawnV, Painting};
use crate::client::mode::InputMode;
use crate::client::state::{Client, Env};
use crate::draw::{Draw, DrawV};
use crate::geometry::Rect;
use crate::navigation::{NavigationEntry, NavigationNodeId, NavigationNodeKind};
use crate::selection::{MouseSelection, RowSpan};
use vstd::prelude::*;

verus! {

fn add_all(plan: &mut Vec<Draw>, more: Vec<Draw>)
    ensures
        draw::draws(final(plan)@) == draw::draws(old(plan)@) + draw::draws(more@),
{
    let ghost before = plan@;
    let ghost added = more@;
    let mut more = more;
    plan.append(&mut more);
    proof {
        assert(plan@ =~= before + added);
        assert(draw::draws(plan@) =~= draw::draws(before) + draw::draws(added));
    }
}

fn close_question_text(entry: &NavigationEntry) -> (r: String)
    ensures
        r@ == drawing::close_question(entry@),
{
    let mut out = "Close ".to_string();
    out.append(tree::navigation_kind_label(entry.kind));
    out.append(" '");
    out.append(entry.label.as_str());
    out.append("' (");
    out.append(
        match entry.kind {
            NavigationNodeKind::Machine => "detach connections",
            NavigationNodeKind::Workspace => "detach only",
            _ => "end processes",
        },
    );
    out.append(")? [y/N] ");
    out
}

/// The prompt or panel of a mode.
pub fn draw_dialog(mode: &InputMode, screen: Rect) -> (r: Vec<Draw>)
    ensures
        draw::draws(r@) == drawing::dialog_plan(mode@, screen),
{
    proof {
        reveal(drawing::dialog_plan);
    }
    match mode {
        InputMode::CopySearch { buf, forward, .. } => panels::render_prompt(
            screen,
            if *forward {
                "/"
            } else {
                "?"
            },
            buf.as_str(),
        ),
        InputMode::RenameWindow { buf, .. } => panels::render_prompt(
            screen,
            "Rename window: ",
            buf.as_str(),
        ),
        InputMode::RenameSession { buf, .. } => panels::render_prompt(
            screen,
            "Rename session: ",
            buf.as_str(),
        ),
        InputMode::RenamePane { buf, .. } => panels::render_prompt(screen, "Rename pane: ", buf.as_str()),
        InputMode::RenameIdentity { id, buf, cursor } => panels::render_prompt_input(
            screen,
            match id {
                NavigationNodeId::Workspace { .. } => "Rename workspace: ",
                _ => "Rename machine: ",
            },
            buf.as_str(),
            *cursor,
        ),
        InputMode::Command { buf, cursor } => panels::render_prompt_input(
            screen,
            ":",
            buf.as_str(),
            *cursor,
        ),
        InputMode::ConfirmNavigationClose { entry } => {
            let label = close_question_text(entry);
            proof {
                reveal_strlit("");
                assert(""@ =~= Seq::<char>::empty());
            }
            panels::render_prompt(screen, label.as_str(), "")
        },
        InputMode::OptionPanel { selected, scroll_on_erase_in_display } => panels::render_options_panel(
            screen,
            *selected,
            *scroll_on_erase_in_display,
        ),
        InputMode::NavigationHelp { scroll } => panels::render_navigation_help(screen, *scroll),
        InputMode::ShortcutsHelp { scroll, .. } => panels::render_shortcuts_help(screen, *scroll),
        _ => {
            let none: Vec<Draw> = Vec::new();
            proof {
                assert(draw::draws(none@) =~= Seq::empty());
            }
            none
        },
    }
}

impl Client {
    fn overlay(&self, env: Env) -> (r: Option<Rect>)
        ensures
            r == drawing::overlay_now(self@, env@),
    {
        let screen = Rect { x: 0, y: 0, width: env.cols, height: env.rows };
        let over = mode::floating_overlay_rect(&self.ui.mode, screen);
        if self.ui.popup {
            let popup = geometry::navigation_popup_rect(screen);
            Some(
                match over {
                    Some(rect) => drawing::union(rect, popup),
                    None => popup,
                },
            )
        } else {
            over
        }
    }

    /// Looks for what has changed since the screen was drawn.
    pub fn prepare(&mut self, drawn: &mut Drawn, env: Env)
        requires
            old(self)@.wf(),
        ensures
            (final(self)@, final(drawn)@) == drawing::overlay_checked(
                drawing::lines_checked(old(self)@, old(drawn)@),
                old(drawn)@,
                env@,
            ),
            final(self)@.wf(),
            final(self).entries == old(self).entries,
    {
        if !mode::same_entries(self.entries.as_slice(), drawn.entries.as_slice()) {
            self.touch();
        }
        let now = self.overlay(env);
        let stale: bool = drawn.overlay.is_some() && drawn.overlay != now;
        if stale {
            self.ask(Request::RefreshDisplay);
            self.ui.drawn_counter = env.counter;
            drawn.overlay = now;
        }
    }

    /// Whether anything is to be drawn.
    pub fn needs_redraw(&self, drawn: &Drawn, env: Env) -> (r: bool)
        ensures
            r == drawing::redraws(self@, drawn@, env@),
    {
        let sidebar: bool = self.workspaces.sidebar_visible;
        let ready: bool = drawn.sidebar == sidebar || (match env.frame {
            Some(fd) => visual::layout_fits_area(
                &fd.layout,
                geometry::server_layout_area(env.cols, env.rows, sidebar),
                self.ui.hide_borders,
            ),
            None => false,
        });
        let same_mode: bool = match &drawn.mode {
            Some(mode) => mode.same(&self.ui.mode),
            None => false,
        };
        ready && (env.counter != self.ui.drawn_counter || !same_mode || drawn.sidebar != sidebar)
    }

    fn is_frame_new(&self, drawn: &Drawn, env: Env) -> (r: bool)
        requires
            self@.wf(),
        ensures
            r == drawing::frame_is_new(self@, drawn@, env@),
    {
        let w = &self.workspaces.workspaces[self.workspaces.active];
        proof {
            assert(w@ == state::active_ws(self@));
        }
        match &drawn.frame {
            Some((socket, counter)) => {
                !(text::same_text(socket.as_str(), w.socket_name.as_str()) && *counter == env.counter)
            },
            None => true,
        }
    }

    fn server_part(&self, drawn: &Drawn, env: Env) -> (r: (Option<String>, bool))
        requires
            self@.wf(),
        ensures
            commands::opt_text(r.0) == drawing::server_text(self@, drawn@, env@),
            r.1 == (drawing::new_ansi(self@, drawn@, env@) is Some),
    {
        if self.is_frame_new(drawn, env) {
            if let Some(fd) = env.frame {
                if let Some(ansi) = &fd.ansi {
                    let blank: bool = text::trim(text::chars_of(ansi.as_str()).as_slice()).len() == 0;
                    return (
                        if blank {
                            None
                        } else {
                            Some(ansi.clone())
                        },
                        true,
                    );
                }
            }
        }
        (None, false)
    }

    fn backdrop(&self, env: Env) -> (r: Vec<Draw>)
        ensures
            draw::draws(r@) == drawing::backdrop_plan(self@, env@),
    {
        proof {
            reveal(drawing::backdrop_plan);
        }
        let areas = geometry::workspace_areas(env.cols, env.rows, self.workspaces.sidebar_visible);
        match env.frame {
            Some(fd) => {
                let notice: Option<&str> = match &self.ui.notice {
                    Some(n) => Some(n.text.as_str()),
                    None => None,
                };
                let banner = mode::status_banner_for_mode(&self.ui.mode, notice);
                let in_prefix: bool = match &self.ui.mode {
                    InputMode::Prefix => true,
                    _ => false,
                };
                let banner_text: Option<&str> = match &banner {
                    Some(t) => Some(t.as_str()),
                    None => None,
                };
                let mut plan = paint::skip_pane_area_for_ansi_in(
                    fd,
                    areas.layout,
                    self.ui.hide_borders,
                );
                add_all(
                    &mut plan,
                    paint::render_frame_in_area(
                        fd,
                        banner_text,
                        areas.frame,
                        in_prefix,
                        mode::has_prompt(&self.ui.mode),
                        self.ui.hide_borders,
                    ),
                );
                plan
            },
            None => panels::render_loading_in_area(areas.frame),
        }
    }

    fn tree_part(&self, env: Env) -> (r: Vec<Draw>)
        ensures
            draw::draws(r@) == drawing::tree_plan(self@, env@),
    {
        proof {
            reveal(drawing::tree_plan);
        }
        let areas = geometry::workspace_areas(env.cols, env.rows, self.workspaces.sidebar_visible);
        let focused: bool = match &self.ui.mode {
            InputMode::Navigator => true,
            _ => false,
        };
        let mut plan = panels::render_navigation_sidebar(
            self.entries.as_slice(),
            self.navigation.selected,
            focused,
            areas.sidebar,
        );
        if self.ui.popup {
            let screen = Rect { x: 0, y: 0, width: env.cols, height: env.rows };
            add_all(
                &mut plan,
                panels::render_navigation_popup(
                    self.entries.as_slice(),
                    self.navigation.selected,
                    screen,
                ),
            );
        } else {
            proof {
                assert(draw::draws(plan@) + Seq::<DrawV>::empty() =~= draw::draws(plan@));
            }
        }
        plan
    }

    /// Everything that is drawn over what the server drew.
    pub fn draw_scene(&self, env: Env) -> (r: Vec<Draw>)
        ensures
            draw::draws(r@) == drawing::scene(self@, env@),
    {
        let mut plan = self.backdrop(env);
        add_all(&mut plan, self.tree_part(env));
        let screen = Rect { x: 0, y: 0, width: env.cols, height: env.rows };
        add_all(&mut plan, draw_dialog(&self.ui.mode, screen));
        plan
    }

    fn highlights(&self, env: Env) -> (r: Vec<RowSpan>)
        ensures
            drawing::spans_match(self@, env@, r@),
    {
        if let Some(fd) = env.frame {
            if let Some(sel) = &self.ui.selection {
                if fd.ansi.is_none() {
                    return selection::render_mouse_selection(
                        sel,
                        fd,
                        Rect { x: 0, y: 0, width: env.cols, height: env.rows },
                        self.ui.hide_borders,
                        self.workspaces.sidebar_visible,
                    );
                }
            }
        }
        Vec::new()
    }

    fn has_ansi(env: Env) -> (r: bool)
        ensures
            r == drawing::frame_has_ansi(env@),
    {
        match env.frame {
            Some(fd) => fd.ansi.is_some(),
            None => false,
        }
    }

    fn restore_part(&self, drawn: Option<MouseSelection>, env: Env) -> (r: Option<String>)
        ensures
            commands::opt_text(r) == drawing::restored_text(self@, drawn, env@),
    {
        if let Some(fd) = env.frame {
            if let Some(prev) = drawn {
                if fd.ansi.is_some() && self.ui.selection.is_none() {
                    let (sr, sc, er, ec): (u16, u16, u16, u16) = selection::normalized_mouse_selection(&prev);
                    return ansi::restore_mouse_selection_ansi(
                        fd,
                        sr,
                        sc,
                        er,
                        ec,
                        geometry::server_layout_area(
                            env.cols,
                            env.rows,
                            self.workspaces.sidebar_visible,
                        ),
                        self.ui.hide_borders,
                    );
                }
            }
        }
        None
    }

    fn is_selection_stale(&self, drawn: Option<MouseSelection>, env: Env) -> (r: bool)
        ensures
            r == drawing::paints_selection(self@, drawn, env@),
    {
        match &self.ui.selection {
            Some(sel) => Self::has_ansi(env) && !selection::selection_is_empty(sel) && (match &drawn {
                Some(prev) => !selection::mouse_selection_bounds_eq(prev, sel),
                None => true,
            }),
            None => false,
        }
    }

    fn selection_part(&self, drawn: Option<MouseSelection>, env: Env) -> (r: Option<String>)
        ensures
            commands::opt_text(r) == drawing::selected_rows(self@, drawn, env@),
    {
        if !self.is_selection_stale(drawn, env) {
            return None;
        }
        if let Some(fd) = env.frame {
            if let Some(sel) = &self.ui.selection {
                let (sr, sc, er, ec): (u16, u16, u16, u16) = selection::normalized_mouse_selection(sel);
                let mut from: u16 = sr;
                let mut to: u16 = er;
                if let Some(prev) = &drawn {
                    let (psr, _psc, per, _pec): (u16, u16, u16, u16) = selection::normalized_mouse_selection(
                        prev,
                    );
                    if psr < from {
                        from = psr;
                    }
                    if per > to {
                        to = per;
                    }
                }
                return ansi::write_active_pane_selection_ansi(
                    fd,
                    geometry::server_layout_area(env.cols, env.rows, self.workspaces.sidebar_visible),
                    self.ui.hide_borders,
                    from,
                    to,
                    PaneSelection { start_row: sr, start_col: sc, end_row: er, end_col: ec },
                );
            }
        }
        None
    }

    fn cursor_part(&self, env: Env) -> (r: CursorStep)
        ensures
            r == drawing::cursor_step(self@, env@),
    {
        match env.frame {
            Some(fd) => {
                if fd.ansi.is_none() {
                    return CursorStep::Leave;
                }
                if mode::has_prompt(&self.ui.mode) {
                    return CursorStep::Show;
                }
                let in_tree: bool = match &self.ui.mode {
                    InputMode::Navigator => true,
                    _ => false,
                };
                if self.ui.popup || mode::has_panel(&self.ui.mode) || in_tree {
                    return CursorStep::Hide;
                }
                let area = geometry::server_frame_area(
                    env.cols,
                    env.rows,
                    self.workspaces.sidebar_visible,
                );
                match frame::active_cursor_screen_position(fd, area, self.ui.hide_borders) {
                    Some((x, y)) => CursorStep::At(x, y),
                    None => CursorStep::Hide,
                }
            },
            None => CursorStep::Leave,
        }
    }

    /// Makes what is to be drawn, and keeps in mind that it is.
    pub fn paint(&mut self, drawn: &mut Drawn, env: Env) -> (r: Painting)
        requires
            old(self)@.wf(),
        ensures
            commands::opt_text(r.server) == drawing::server_text(old(self)@, old(drawn)@, env@),
            r.repoint == (drawing::new_ansi(old(self)@, old(drawn)@, env@) is Some),
            draw::draws(r.plan@) == drawing::scene(old(self)@, env@),
            drawing::spans_match(old(self)@, env@, r.spans@),
            ({
                let left = drawing::selection_overwritten(old(self)@, old(drawn)@, env@);
                &&& commands::opt_text(r.restored) == drawing::restored_text(old(self)@, left, env@)
                &&& commands::opt_text(r.selected) == drawing::selected_rows(old(self)@, left, env@)
            }),
            r.cursor == drawing::cursor_step(old(self)@, env@),
            final(self)@ == drawing::client_after(old(self)@, old(drawn)@, env@),
            final(drawn)@ == drawing::screen_after(old(self)@, old(drawn)@, env@),
            final(self)@.wf(),
            final(self).entries == old(self).entries,
    {
        let (server, repoint): (Option<String>, bool) = self.server_part(drawn, env);
        let plan = self.draw_scene(env);
        let spans = self.highlights(env);
        let left: Option<MouseSelection> = if repoint && self.ui.selection.is_some() {
            None
        } else {
            self.ui.drawn_selection
        };
        let restored = self.restore_part(left, env);
        let selected = self.selection_part(left, env);
        let cursor = self.cursor_part(env);
        let after: Option<MouseSelection> = if Self::has_ansi(env) && left.is_some()
            && self.ui.selection.is_none() {
            None
        } else if self.is_selection_stale(left, env) {
            self.ui.selection
        } else {
            left
        };
        self.note_drawn(drawn, env);
        self.ui.drawn_selection = after;
        self.ui.drawn_counter = env.counter;
        Painting { server, repoint, plan, spans, restored, selected, cursor }
    }

    fn note_drawn(&self, drawn: &mut Drawn, env: Env)
        requires
            self@.wf(),
        ensures
            final(drawn)@ == drawing::screen_after(self@, old(drawn)@, env@),
    {
        if self.is_frame_new(drawn, env) {
            let w = &self.workspaces.workspaces[self.workspaces.active];
            proof {
                assert(w@ == state::active_ws(self@));
            }
            drawn.frame = Some((w.socket_name.clone(), env.counter));
        }
        drawn.entries = copy_entries(self.entries.as_slice());
        drawn.mode = Some(self.ui.mode.copy());
        drawn.sidebar = self.workspaces.sidebar_visible;
        drawn.overlay = self.overlay(env);
    }
}

/// A copy of lines.
pub fn copy_entries(entries: &[NavigationEntry]) -> (r: Vec<NavigationEntry>)
    ensures
        navigation::entry_views(r@) == navigation::entry_views(entries@),
{
    let mut out: Vec<NavigationEntry> = Vec::new();
    let mut i: usize = 0;
    while i < entries.len()
        invariant
            i <= entries@.len(),
            out@.len() == i,
            forall|k: int| 0 <= k < i ==> (#[trigger] out@[k])@ == entries@[k]@,
        decreases entries@.len() - i,
    {
        out.push(mode::copy_entry(&entries[i]));
        i = i + 1;
    }
    proof {
        assert(navigation::entry_views(out@) =~= navigation::entry_views(entries@));
    }
    out
}

/// An empty screen: nothing was drawn yet.
pub fn nothing_drawn() -> (r: Drawn)
    ensures
        r@ == (DrawnV {
            entries: Seq::empty(),
            mode: None,
            sidebar: false,
            overlay: None,
            frame: None,
        }),
{
    let r = Drawn {
        entries: Vec::new(),
        mode: None,
        sidebar: false,
        overlay: None,
        frame: None,
    };
    proof {
        assert(r@.entries =~= Seq::empty());
    }
    r
}

} // verus!
