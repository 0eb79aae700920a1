//! The client takes mouse events, pasted text and new terminal sizes.

use crate::client::dialogs;
use crate::client::keyboard;
use crate::client::mode;
use crate::client::mouse;
use crate::client::places;
use crate::client::state;
use crate::client::tree;
use crate::frame;
use crate::geometry;
use crate::navigation;
use crate::paint;
use crate::prompt;
use crate::selection;
use crate::text;
use crate::url;
use crate::client::actions::{Effect, Request, RequestV};
use crate::client::mode::InputMode;
use crate::client::state::{Client, Env, NOTICE, UiV};
use crate::frame::FrameData;
use crate::geometry::Rect;
use crate::keys::{MouseButton, MouseEvent, MouseEventKind};
use crate::selection::{LastMouseClick, MouseDragOrigin, MouseSelection};
use vstd::prelude::*;

verus! {

fn scroll_after_wheel(scroll: usize, kind: MouseEventKind, max: usize) -> (r: usize)
    ensures
        r == mouse::wheel_scroll(scroll, kind, max as int),
{
    match kind {
        MouseEventKind::ScrollDown => {
            let wanted: usize = scroll.saturating_add(3);
            if wanted < max {
                wanted
            } else {
                max
            }
        },
        MouseEventKind::ScrollUp => scroll.saturating_sub(3),
        _ => scroll,
    }
}

fn help_after_wheel(mode: InputMode, mouse: MouseEvent, env: Env) -> (r: InputMode)
    ensures
        r@ == mouse::help_wheel(mode@, mouse, env@),
{
    proof {
        reveal(mouse::help_wheel);
    }
    match mode {
        InputMode::NavigationHelp { scroll } => {
            let max: usize = dialogs::last_help_scroll(false, env);
            InputMode::NavigationHelp { scroll: scroll_after_wheel(scroll, mouse.kind, max) }
        },
        InputMode::ShortcutsHelp { scroll, return_mode } => {
            let max: usize = dialogs::last_help_scroll(true, env);
            InputMode::ShortcutsHelp {
                scroll: scroll_after_wheel(scroll, mouse.kind, max),
                return_mode,
            }
        },
        other => other,
    }
}

fn extend(sel: MouseSelection, pane: Option<Rect>, mouse: MouseEvent) -> (r: MouseSelection)
    ensures
        r == mouse::drawn_to(sel, pane, mouse),
{
    match pane {
        Some(pa) => MouseSelection {
            end_col: selection::clamp_col(pa, mouse.column.saturating_add(1)),
            end_row: selection::clamp_row(pa, mouse.row),
            ..sel
        },
        None => MouseSelection { end_col: mouse.column, end_row: mouse.row, ..sel },
    }
}

fn pasted_mode(mode: InputMode, text: &str) -> (r: InputMode)
    ensures
        r@ == mouse::pasted_into(mode@, text@),
{
    match mode {
        InputMode::CopySearch { buf, cursor, forward } => {
            let mut buf = buf;
            let mut cursor: usize = cursor;
            prompt::insert_text_at_cursor(&mut buf, &mut cursor, text);
            InputMode::CopySearch { buf, cursor, forward }
        },
        InputMode::RenameWindow { buf, cursor, return_to_navigator } => {
            let mut buf = buf;
            let mut cursor: usize = cursor;
            prompt::insert_text_at_cursor(&mut buf, &mut cursor, text);
            InputMode::RenameWindow { buf, cursor, return_to_navigator }
        },
        InputMode::RenameSession { buf, cursor, return_to_navigator } => {
            let mut buf = buf;
            let mut cursor: usize = cursor;
            prompt::insert_text_at_cursor(&mut buf, &mut cursor, text);
            InputMode::RenameSession { buf, cursor, return_to_navigator }
        },
        InputMode::RenamePane { buf, cursor, return_to_navigator } => {
            let mut buf = buf;
            let mut cursor: usize = cursor;
            prompt::insert_text_at_cursor(&mut buf, &mut cursor, text);
            InputMode::RenamePane { buf, cursor, return_to_navigator }
        },
        InputMode::RenameIdentity { id, buf, cursor } => {
            let mut buf = buf;
            let mut cursor: usize = cursor;
            prompt::insert_text_at_cursor(&mut buf, &mut cursor, text);
            InputMode::RenameIdentity { id, buf, cursor }
        },
        InputMode::Command { buf, cursor } => {
            let mut buf = buf;
            let mut cursor: usize = cursor;
            prompt::insert_text_at_cursor(&mut buf, &mut cursor, text);
            InputMode::Command { buf, cursor }
        },
        other => other,
    }
}

impl Client {
    fn turn_tree_wheel(&mut self, down: bool)
        ensures
            final(self)@ == mouse::tree_wheel(old(self)@, down),
            final(self)@.ws == old(self)@.ws,
            final(self).entries == old(self).entries,
    {
        proof {
            reveal(mouse::tree_wheel);
        }
        if down {
            self.navigation.select_next(self.entries.as_slice());
            self.navigation.select_next(self.entries.as_slice());
            self.navigation.select_next(self.entries.as_slice());
        } else {
            self.navigation.select_prev(self.entries.as_slice());
            self.navigation.select_prev(self.entries.as_slice());
            self.navigation.select_prev(self.entries.as_slice());
        }
        self.ui.drawn_counter = 0;
    }

    fn click_line(&mut self, index: usize, area: Rect, mouse: MouseEvent, env: Env)
        requires
            old(self)@.wf(),
            index < old(self).entries@.len(),
        ensures
            final(self)@ == mouse::line_clicked(old(self)@, index as int, area, mouse, env@),
            final(self)@.wf(),
            final(self).entries == old(self).entries,
    {
        proof {
            reveal(mouse::line_clicked);
        }
        let entry = mode::copy_entry(&self.entries[index]);
        self.select_line(index);
        self.enter(InputMode::Navigator);
        if navigation::disclosure_hit(&entry, area.x, mouse.column) {
            self.toggle_line();
        } else {
            self.open_navigation_entry(&entry, env);
        }
        self.touch();
    }

    fn select_line(&mut self, index: usize)
        ensures
            final(self)@ == keyboard::with_nav(
                old(self)@,
                places::nav_at(old(self)@.nav, old(self)@.entries, index as int),
            ),
            final(self).entries == old(self).entries,
    {
        self.navigation.select_index(self.entries.as_slice(), index);
    }

    fn toggle_line(&mut self)
        ensures
            final(self)@ == tree::nav_toggled(old(self)@),
            final(self)@.ws == old(self)@.ws,
            final(self).entries == old(self).entries,
    {
        self.navigation.toggle_selected(self.entries.as_slice());
    }

    fn forget_mouse(&mut self)
        ensures
            final(self)@ == mouse::mouse_reset(old(self)@),
            final(self).entries == old(self).entries,
    {
        self.ui.selection = None;
        self.ui.drag = None;
        self.ui.last_click = None;
    }

    fn on_tree_mouse(&mut self, area: Rect, mouse: MouseEvent, env: Env)
        requires
            old(self)@.wf(),
        ensures
            final(self)@ == mouse::tree_mouse(old(self)@, area, mouse, env@),
            final(self)@.wf(),
            final(self).entries == old(self).entries,
    {
        proof {
            reveal(mouse::tree_mouse);
        }
        self.forget_mouse();
        match mouse.kind {
            MouseEventKind::ScrollDown => {
                self.turn_tree_wheel(true);
            },
            MouseEventKind::ScrollUp => {
                self.turn_tree_wheel(false);
            },
            MouseEventKind::Down(MouseButton::Left) => {
                if let Some(index) = navigation::sidebar_entry_at(
                    self.navigation.selected,
                    self.entries.len(),
                    area.y,
                    area.height,
                    mouse.row,
                ) {
                    self.click_line(index, area, mouse, env);
                }
            },
            _ => {},
        }
    }

    fn active_pane_area(&self, fd: &FrameData, env: Env) -> (r: Rect)
        ensures
            r == mouse::pane_area(self@, *fd, env@),
    {
        proof {
            reveal(mouse::pane_area);
        }
        let frame_area = geometry::server_frame_area(env.cols, env.rows, self.workspaces.sidebar_visible);
        frame::active_pane_content_rect(fd, frame_area, self.ui.hide_borders)
    }

    fn shown_pane_area(&self, env: Env) -> (r: Option<Rect>)
        ensures
            r == mouse::pane_area_in(self@, env@),
    {
        match env.frame {
            Some(fd) => Some(self.active_pane_area(fd, env)),
            None => None,
        }
    }

    fn tab_under_mouse(&self, mouse: MouseEvent, env: Env) -> (r: Option<usize>)
        ensures
            r == mouse::tab_at(self@, mouse, env@),
    {
        proof {
            reveal(mouse::tab_at);
        }
        let frame_area = geometry::server_frame_area(env.cols, env.rows, self.workspaces.sidebar_visible);
        match geometry::status_bar_screen_row(env.rows, false) {
            Some(row) => {
                if row == mouse.row {
                    if let Some(fd) = env.frame {
                        if let Some(status) = &fd.status {
                            return paint::status_window_tab_hit(
                                status,
                                frame_area.width,
                                mouse.column.saturating_sub(frame_area.x),
                            );
                        }
                    }
                }
                None
            },
            None => None,
        }
    }

    fn click_tab(&mut self, index: usize)
        ensures
            final(self)@ == mouse::tab_clicked(old(self)@, index),
            final(self)@.ws == old(self)@.ws,
            final(self).entries == old(self).entries,
    {
        let mut command = "select-window -t ".to_string();
        text::push_decimal(&mut command, index as u64);
        self.ask(Request::Command(command));
        self.ui.mode = InputMode::Normal;
        self.ui.copy_confirmed = false;
        self.ui.drawn_counter = 0;
    }

    fn word_pressed(&mut self, fd: &FrameData, mouse: MouseEvent, env: Env) -> (r: Option<
        MouseSelection,
    >)
        ensures
            r == mouse::pressed_word(old(self)@, *fd, mouse, env@),
            final(self)@ == state::with_ui(
                old(self)@,
                UiV {
                    last_click: mouse::clicks_left(old(self)@, mouse, env@),
                    ..old(self)@.ui
                },
            ),
            final(self).entries == old(self).entries,
    {
        proof {
            reveal(mouse::pressed_word);
        }
        selection::try_word_select_on_double_click(
            &mut self.ui.last_click,
            env.now,
            fd,
            mouse.row,
            mouse.column,
            self.ui.hide_borders,
            env.cols,
            env.rows,
            self.workspaces.sidebar_visible,
        )
    }

    fn press_in_pane(&mut self, fd: &FrameData, mouse: MouseEvent, copying: bool, env: Env)
        ensures
            final(self)@ == mouse::pane_pressed(old(self)@, *fd, mouse, copying, env@),
            final(self)@.ws == old(self)@.ws,
            final(self).entries == old(self).entries,
    {
        let word = self.word_pressed(fd, mouse, env);
        match word {
            Some(sel) => {
                self.ui.selection = Some(sel);
                self.ui.drag = None;
            },
            None => {
                if copying {
                    self.ui.selection = Some(selection::caret_selection(mouse.row, mouse.column));
                }
                self.ui.drag = Some(MouseDragOrigin { row: mouse.row, col: mouse.column });
            },
        }
    }

    fn press_left(&mut self, mouse: MouseEvent, copying: bool, env: Env)
        requires
            old(self)@.wf(),
        ensures
            final(self)@ == mouse::left_pressed(old(self)@, mouse, copying, env@),
            final(self)@.wf(),
            final(self).entries == old(self).entries,
    {
        if let Some(fd) = env.frame {
            let area = self.active_pane_area(fd, env);
            if selection::is_cell_in(area, mouse.column, mouse.row) {
                self.press_in_pane(fd, mouse, copying, env);
            } else {
                let focused: bool = self.focus_at(mouse.column, mouse.row, env);
                if focused && copying {
                    self.ui.mode = InputMode::Normal;
                    self.ui.copy_confirmed = false;
                    self.ui.copy_suppress = Some(env.counter);
                    self.ui.selection = None;
                }
            }
        }
    }

    fn drag_left(&mut self, mouse: MouseEvent, env: Env)
        ensures
            final(self)@ == mouse::left_dragged(old(self)@, mouse, env@),
            final(self)@.ws == old(self)@.ws,
            final(self).entries == old(self).entries,
    {
        proof {
            reveal(mouse::pane_area);
        }
        let pane = self.shown_pane_area(env);
        match self.ui.selection {
            Some(sel) => {
                self.ui.selection = Some(extend(sel, pane, mouse));
            },
            None => {
                if let Some(origin) = self.ui.drag {
                    if let Some(fd) = env.frame {
                        self.ui.selection = Some(
                            selection::mouse_selection_from_drag(
                                origin,
                                mouse,
                                fd,
                                self.ui.hide_borders,
                                env.cols,
                                env.rows,
                                self.workspaces.sidebar_visible,
                            ),
                        );
                    }
                }
            },
        }
    }

    fn keep_click(&mut self, fd: &FrameData, row: u16, col: u16, control: bool, env: Env)
        ensures
            final(self)@ == mouse::clicked(old(self)@, *fd, row, col, control, env@),
            final(self)@.ws == old(self)@.ws,
            final(self).entries == old(self).entries,
    {
        proof {
            reveal(mouse::clicked);
        }
        if control {
            if let Some(url) = url::detect_url_at_click(
                fd,
                row,
                col,
                self.ui.hide_borders,
                env.cols,
                env.rows,
                self.workspaces.sidebar_visible,
            ) {
                let mut text = "opening ".to_string();
                text.append(url::truncate_status_url(url.as_str()).as_str());
                self.act(Effect::OpenUrl(url));
                self.tell(text, env.now, NOTICE);
            }
        }
        self.ui.last_click = Some(LastMouseClick { row, col, at: env.now });
    }

    /// Copies what a selection covers.
    pub fn copy_drag_selection(&mut self, fd: &FrameData, sel: MouseSelection, env: Env)
        ensures
            final(self)@ == mouse::selection_copied(old(self)@, *fd, sel, env@),
            final(self)@.ws == old(self)@.ws,
            final(self).entries == old(self).entries,
    {
        proof {
            reveal(mouse::selection_copied);
        }
        let area = geometry::server_layout_area(env.cols, env.rows, self.workspaces.sidebar_visible);
        let text = selection::extract_text_from_frame_in_area(fd, &sel, area, self.ui.hide_borders);
        self.ui.last_click = None;
        if text.as_str().unicode_len() > 0 {
            self.act(Effect::CopyText(text));
        }
    }

    fn release_over(
        &mut self,
        fd: &FrameData,
        done: Option<MouseSelection>,
        mouse: MouseEvent,
        copying: bool,
        env: Env,
    )
        ensures
            final(self)@ == mouse::released_over(old(self)@, *fd, done, mouse, copying, env@),
            final(self)@.ws == old(self)@.ws,
            final(self).entries == old(self).entries,
    {
        proof {
            reveal(mouse::released_over);
        }
        let control: bool = mouse.modifiers.control;
        match done {
            Some(sel) => {
                if selection::selection_is_caret(&sel) {
                    self.keep_click(fd, sel.start_row, sel.start_col, control, env);
                } else {
                    self.copy_drag_selection(fd, sel, env);
                }
            },
            None => {
                if !copying && self.ui.drag.is_some() {
                    self.keep_click(fd, mouse.row, mouse.column, control, env);
                }
            },
        }
    }

    fn release_left(&mut self, mouse: MouseEvent, copying: bool, env: Env)
        ensures
            final(self)@ == mouse::left_released(old(self)@, mouse, copying, env@),
            final(self)@.ws == old(self)@.ws,
            final(self).entries == old(self).entries,
    {
        proof {
            reveal(mouse::left_released);
        }
        let done = self.finish_selection(mouse, env);
        if let Some(fd) = env.frame {
            self.release_over(fd, done, mouse, copying, env);
        }
        self.end_drag(env);
    }

    fn finish_selection(&mut self, mouse: MouseEvent, env: Env) -> (r: Option<MouseSelection>)
        ensures
            r == selection::finalized(
                old(self)@.ui.selection,
                old(self)@.ui.drag,
                mouse,
                mouse::pane_area_in(old(self)@, env@),
            ),
            final(self)@ == state::with_ui(
                old(self)@,
                UiV { selection: None, ..old(self)@.ui },
            ),
            final(self).entries == old(self).entries,
    {
        let pane = self.shown_pane_area(env);
        let done = selection::finalize_mouse_selection(
            self.ui.selection,
            self.ui.drag,
            mouse,
            pane,
        );
        self.ui.selection = None;
        done
    }

    fn end_drag(&mut self, env: Env)
        ensures
            final(self)@ == mouse::drag_ended(old(self)@, env@),
            final(self).entries == old(self).entries,
    {
        self.ui.drag = None;
        if let Some(fd) = env.frame {
            if fd.ansi.is_some() {
                self.ui.drawn_counter = 0;
            }
        }
    }

    fn on_program_mouse(&mut self, mouse: MouseEvent, env: Env)
        requires
            old(self)@.wf(),
        ensures
            final(self)@ == mouse::program_mouse(old(self)@, mouse, env@),
            final(self)@.wf(),
            final(self).entries == old(self).entries,
    {
        proof {
            reveal(mouse::program_mouse);
        }
        self.ui.selection = None;
        let left: bool = mouse.kind == MouseEventKind::Down(MouseButton::Left);
        let focused: bool = left && self.focus_at(mouse.column, mouse.row, env);
        if !focused {
            self.send_mouse_at(mouse, env);
        }
    }

    fn on_pane_mouse(&mut self, mouse: MouseEvent, env: Env)
        requires
            old(self)@.wf(),
        ensures
            final(self)@ == mouse::pane_mouse(old(self)@, mouse, env@),
            final(self)@.wf(),
            final(self).entries == old(self).entries,
    {
        proof {
            reveal(mouse::pane_mouse);
        }
        match mouse.kind {
            MouseEventKind::ScrollUp => {
                self.scroll_at(mouse, true, env);
                self.ui.mode = InputMode::CopyMode;
                self.ui.copy_confirmed = false;
                self.ui.copy_exit_pending = false;
                self.ui.scrolled = false;
                self.ui.drawn_counter = 0;
            },
            MouseEventKind::ScrollDown => {
                self.scroll_at(mouse, false, env);
                self.ui.drawn_counter = 0;
            },
            MouseEventKind::Down(MouseButton::Left) => {
                self.press_left(mouse, false, env);
            },
            MouseEventKind::Drag(MouseButton::Left) => {
                self.drag_left(mouse, env);
            },
            MouseEventKind::Up(MouseButton::Left) => {
                self.release_left(mouse, false, env);
            },
            _ => {},
        }
    }

    fn on_copy_mouse(&mut self, mouse: MouseEvent, env: Env)
        requires
            old(self)@.wf(),
        ensures
            final(self)@ == mouse::copy_mouse(old(self)@, mouse, env@),
            final(self)@.wf(),
            final(self).entries == old(self).entries,
    {
        proof {
            reveal(mouse::copy_mouse);
        }
        match mouse.kind {
            MouseEventKind::ScrollUp => {
                self.scroll_at(mouse, true, env);
                self.ui.drawn_counter = 0;
            },
            MouseEventKind::ScrollDown => {
                self.scroll_at(mouse, false, env);
                self.ui.drawn_counter = 0;
            },
            MouseEventKind::Down(MouseButton::Left) => {
                self.press_left(mouse, true, env);
            },
            MouseEventKind::Drag(MouseButton::Left) => {
                self.drag_left(mouse, env);
            },
            MouseEventKind::Up(MouseButton::Left) => {
                self.release_left(mouse, true, env);
            },
            _ => {},
        }
    }

    fn on_screen_mouse(&mut self, mouse: MouseEvent, env: Env)
        requires
            old(self)@.wf(),
        ensures
            final(self)@ == mouse::screen_mouse(old(self)@, mouse, env@),
            final(self)@.wf(),
            final(self).entries == old(self).entries,
    {
        proof {
            reveal(mouse::screen_mouse);
        }
        let (in_panes, copying): (bool, bool) = match &self.ui.mode {
            InputMode::Normal | InputMode::Prefix | InputMode::Resize => (true, false),
            InputMode::CopyMode => (false, true),
            _ => (false, false),
        };
        if in_panes {
            if mouse.kind == MouseEventKind::Down(MouseButton::Left) {
                if let Some(index) = self.tab_under_mouse(mouse, env) {
                    self.click_tab(index);
                    return ;
                }
            }
            self.ui.mode = InputMode::Normal;
            let asked_for: u8 = match env.frame {
                Some(fd) => frame::active_mouse_mode(fd),
                None => 0,
            };
            let overridden: bool = mouse.modifiers.shift && (mouse.kind == MouseEventKind::Down(
                MouseButton::Left,
            ) || mouse.kind == MouseEventKind::Drag(MouseButton::Left) || mouse.kind
                == MouseEventKind::Up(MouseButton::Left));
            if asked_for != 0 && !overridden {
                self.on_program_mouse(mouse, env);
            } else {
                self.on_pane_mouse(mouse, env);
            }
        } else if copying {
            self.on_copy_mouse(mouse, env);
        }
        self.touch();
    }

    fn note_mouse(&mut self, mouse: MouseEvent)
        ensures
            final(self)@ == mouse::mouse_noted(old(self)@, mouse),
            final(self).entries == old(self).entries,
    {
        self.ui.last_mouse = Some((mouse.column, mouse.row));
        match &self.ui.mode {
            InputMode::Prefix => {
                self.ui.prefix_from_copy = false;
                self.ui.prefix_from_navigator = false;
            },
            _ => {},
        }
    }

    fn on_popup_mouse(&mut self, mouse: MouseEvent)
        ensures
            final(self)@ == mouse::popup_mouse(old(self)@, mouse),
            final(self)@.ws == old(self)@.ws,
            final(self).entries == old(self).entries,
    {
        if mouse.kind == MouseEventKind::Down(MouseButton::Left) {
            self.ui.popup = false;
            let mode = self.ui.popup_return.copy();
            self.enter(mode);
            self.touch();
        }
    }

    /// A mouse event.
    pub fn on_mouse(&mut self, mouse: MouseEvent, env: Env)
        requires
            old(self)@.wf(),
        ensures
            final(self)@ == mouse::on_mouse(old(self)@, mouse, env@),
            final(self)@.wf(),
            final(self).entries == old(self).entries,
    {
        let (help, tree): (bool, bool) = match &self.ui.mode {
            InputMode::NavigationHelp { .. } | InputMode::ShortcutsHelp { .. } => (true, false),
            InputMode::Navigator => (false, true),
            _ => (false, false),
        };
        if help {
            let mode = self.take_mode();
            self.enter(help_after_wheel(mode, mouse, env));
            return ;
        }
        self.note_mouse(mouse);
        if self.ui.popup && !tree {
            return ;
        }
        let area = if self.ui.popup {
            geometry::navigation_popup_content_rect(
                Rect { x: 0, y: 0, width: env.cols, height: env.rows },
            )
        } else {
            geometry::workspace_areas(env.cols, env.rows, self.workspaces.sidebar_visible).sidebar
        };
        if area.contains(mouse.column, mouse.row) {
            self.on_tree_mouse(area, mouse, env);
        } else if self.ui.popup {
            self.on_popup_mouse(mouse);
        } else {
            self.on_screen_mouse(mouse, env);
        }
    }

    /// Pasted text goes to what has the input.
    pub fn handle_paste_event(&mut self, text: String)
        ensures
            final(self)@ == mouse::pasted(old(self)@, text@),
            final(self)@.ws == old(self)@.ws,
            final(self).entries == old(self).entries,
    {
        if text.as_str().unicode_len() == 0 {
            return ;
        }
        let to_pane: bool = match &self.ui.mode {
            InputMode::Normal | InputMode::Prefix | InputMode::Resize => true,
            _ => false,
        };
        if to_pane {
            self.ask(Request::Paste(text));
            self.ui.mode = InputMode::Normal;
        } else {
            let mode = self.take_mode();
            self.enter(pasted_mode(mode, text.as_str()));
        }
    }

    /// Text was pasted.
    pub fn on_paste(&mut self, text: String)
        ensures
            final(self)@ == state::touched(mouse::pasted(old(self)@, text@)),
            final(self)@.ws == old(self)@.ws,
            final(self).entries == old(self).entries,
    {
        self.handle_paste_event(text);
        self.touch();
    }

    /// The terminal has another size.
    pub fn on_resize(&mut self, env: Env)
        requires
            old(self)@.wf(),
        ensures
            final(self)@ == mouse::terminal_resized(old(self)@, env@),
            final(self)@.wf(),
            final(self).entries == old(self).entries,
    {
        let size = geometry::server_content_size(env.cols, env.rows, self.workspaces.sidebar_visible);
        proof {
            state::lemma_asked_all(self@, RequestV::Resize(size), self@.ws.list.len() as int);
        }
        self.resize_all(size);
        self.touch();
    }
}

} // verus!
