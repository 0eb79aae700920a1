//! The client takes keys.

use crate::client::commands_run;
use crate::client::keyboard;
use crate::client::mode;
use crate::client::state;
use crate::frame;
use crate::keys;
use crate::text;
use crate::client::actions::{Effect, OutputUse, Request, RequestV};
use crate::client::mode::{InputMode, ModeV};
use crate::client::state::{Client, Env, RESIZE_IDLE_TIMEOUT, UiV};
use crate::keys::{KeyCode, KeyEvent, NavDir};
use vstd::prelude::*;

verus! {

/// What stands in a prompt's line, as a mode keeps it.
fn bytes_in(s: &String) -> (r: usize)
    ensures
        r == text::clip(vstd::utf8::encode_utf8(s@).len()),
{
    s.as_str().as_bytes_vec().len()
}

pub fn help_scroll_after(scroll: usize, key: KeyEvent, max: usize) -> (r: usize)
    ensures
        r == keyboard::help_scroll(scroll, key, max as int),
{
    let wanted: usize = match key.code {
        KeyCode::Down | KeyCode::Char('j') => scroll.saturating_add(1),
        KeyCode::Up | KeyCode::Char('k') => scroll.saturating_sub(1),
        KeyCode::PageDown => scroll.saturating_add(8),
        KeyCode::PageUp => scroll.saturating_sub(8),
        KeyCode::Home | KeyCode::Char('g') => 0,
        KeyCode::End | KeyCode::Char('G') => max,
        _ => scroll,
    };
    if wanted < max {
        wanted
    } else {
        max
    }
}

impl Client {
    /// Takes the mode out, and leaves input to the panes.
    pub fn take_mode(&mut self) -> (r: InputMode)
        ensures
            r@ == old(self)@.ui.mode,
            final(self)@ == state::in_mode(old(self)@, ModeV::Normal),
            final(self).entries == old(self).entries,
    {
        let mut mode = InputMode::Normal;
        std::mem::swap(&mut mode, &mut self.ui.mode);
        mode
    }

    /// Has the screen drawn anew.
    pub fn touch(&mut self)
        ensures
            final(self)@ == state::touched(old(self)@),
            final(self).entries == old(self).entries,
    {
        self.ui.drawn_counter = 0;
    }

    pub fn enter(&mut self, mode: InputMode)
        ensures
            final(self)@ == state::in_mode(old(self)@, mode@),
            final(self).entries == old(self).entries,
    {
        self.ui.mode = mode;
    }

    /// Sends what a key stands for to the program in the pane.
    pub fn send_key(&mut self, key: KeyEvent)
        ensures
            final(self)@ == keyboard::keys_sent(old(self)@, key),
            final(self)@.ws == old(self)@.ws,
            final(self).entries == old(self).entries,
    {
        let bytes = keys::key_to_bytes(key);
        if bytes.len() > 0 {
            self.ask(Request::Input(bytes));
        }
    }

    /// Leaves copy mode.
    pub fn leave_copy_mode_client(&mut self)
        ensures
            final(self)@ == keyboard::copy_left(old(self)@),
            final(self)@.ws == old(self)@.ws,
            final(self).entries == old(self).entries,
    {
        self.ask(Request::ExitCopyMode);
        self.ui.mode = InputMode::Normal;
        self.ui.copy_confirmed = false;
        self.ui.copy_exit_pending = true;
        self.ui.scrolled = false;
    }

    fn is_frame_copying(env: Env) -> (r: bool)
        ensures
            r == keyboard::frame_copying(env@),
    {
        match env.frame {
            Some(fd) => frame::active_in_copy_mode(fd),
            None => false,
        }
    }

    /// A key for the panes.
    pub fn on_normal_key(&mut self, key: KeyEvent, press: bool, env: Env)
        requires
            old(self)@.wf(),
        ensures
            final(self)@ == keyboard::normal_key(old(self)@, key, press, env@),
            final(self)@.wf(),
            final(self).entries == old(self).entries,
    {
        proof {
            reveal(keyboard::normal_key);
        }
        if keyboard::is_prefix_key(key) {
            self.ui.mode = InputMode::Prefix;
        } else if press && keys::is_cloud_paste_key(key) {
            self.ask(Request::PasteCloud);
        } else {
            let out: bool = match key.code {
                KeyCode::Esc => true,
                KeyCode::Char('q') => keyboard::is_plain(key.modifiers),
                _ => false,
            };
            if out && self.ui.scrolled {
                self.ask(Request::DisplayBottom);
                self.ui.scrolled = false;
            } else {
                if Self::is_frame_copying(env) && self.ui.copy_exit_pending {
                    self.leave_copy_mode_client();
                }
                self.send_key(key);
            }
        }
    }

    fn prefix_other_key(&mut self, key: KeyEvent, env: Env)
        requires
            old(self)@.wf(),
        ensures
            final(self)@ == keyboard::prefix_other(old(self)@, key, env@),
            final(self)@.wf(),
            final(self).entries == old(self).entries,
    {
        if let Some(dir) = keys::prefix_nav_dir(key) {
            let moved: bool = self.visual_move(dir, env);
            if !moved {
                match dir {
                    NavDir::Left => {
                        self.sync_navigation_to_active(env);
                        self.ui.mode = InputMode::Navigator;
                        self.set_sidebar_visible(true, env);
                    },
                    _ => {},
                }
            }
            return ;
        }
        let plain: bool = keyboard::is_plain(key.modifiers);
        let (kill, lose_focus, lose_tree): (bool, bool, bool) = match key.code {
            KeyCode::Char('x') => (plain, false, false),
            KeyCode::Char('%') | KeyCode::Char('"') => (false, true, true),
            KeyCode::Char('z') => (false, true, false),
            KeyCode::Char('c') | KeyCode::Char('n') | KeyCode::Char('p') => (false, plain, plain),
            _ => (false, false, false),
        };
        if kill {
            self.run_command("kill-pane");
            self.invalidate_active_navigation_tree(env.now);
            self.invalidate_visual_pane();
            return ;
        }
        if let Some(command) = keyboard::handle_prefix_key(key) {
            self.ask(commands_run::request_for_command(command));
        }
        if lose_focus {
            self.invalidate_visual_pane();
        }
        if lose_tree {
            self.invalidate_active_navigation_tree(env.now);
        }
    }

    fn switch_session(&mut self, command: &str, env: Env)
        requires
            old(self)@.wf(),
        ensures
            final(self)@ == keyboard::session_switched(old(self)@, command@, env@),
            final(self)@.wf(),
            final(self).entries == old(self).entries,
    {
        self.run_command(command);
        self.invalidate_visual_pane();
        self.invalidate_active_navigation_tree(env.now);
    }

    fn prefix_action_key(&mut self, key: KeyEvent, env: Env)
        requires
            old(self)@.wf(),
        ensures
            final(self)@ == keyboard::prefix_action(old(self)@, key, env@),
            final(self)@.wf(),
            final(self).entries == old(self).entries,
    {
        proof {
            reveal(keyboard::prefix_action);
        }
        if keys::is_shifted_letter(key, 'H') {
            self.ask(
                Request::Output {
                    command: "set-workspace-home".to_string(),
                    purpose: OutputUse::WorkspaceHome,
                },
            );
            self.ui.drawn_counter = 0;
            return ;
        }
        let plain: bool = keyboard::is_plain(key.modifiers);
        match key.code {
            KeyCode::Char('d') => {
                if plain {
                    proof {
                        state::lemma_asked_all(self@, RequestV::Detach, self@.ws.list.len() as int);
                    }
                    self.detach_all();
                    self.act(Effect::Quit);
                } else {
                    self.prefix_other_key(key, env);
                }
            },
            KeyCode::Char(',') => {
                let buf = keyboard::active_window_name(env.frame);
                let cursor: usize = bytes_in(&buf);
                self.enter(InputMode::RenameWindow { buf, cursor, return_to_navigator: false });
            },
            KeyCode::Char('$') => {
                let buf = keyboard::session_name(env.frame);
                let cursor: usize = bytes_in(&buf);
                self.enter(InputMode::RenameSession { buf, cursor, return_to_navigator: false });
            },
            KeyCode::Char(':') => {
                self.enter(InputMode::Command { buf: String::new(), cursor: 0 });
            },
            KeyCode::Char('O') => {
                self.ask(Request::AskEraseScroll);
            },
            KeyCode::Char('[') => {
                self.ask(Request::EnterCopyMode);
            },
            KeyCode::Char('(') => {
                self.switch_session("prev-session", env);
            },
            KeyCode::Char(')') => {
                self.switch_session("next-session", env);
            },
            KeyCode::Char('b') => {
                if plain {
                    let hide: bool = !self.ui.hide_borders;
                    self.ui.hide_borders = hide;
                    self.ask(Request::HideBorders(hide));
                } else {
                    self.prefix_other_key(key, env);
                }
            },
            KeyCode::Char(']') => {
                if plain {
                    self.ask(Request::PasteCloud);
                } else {
                    self.prefix_other_key(key, env);
                }
            },
            _ => {
                self.prefix_other_key(key, env);
            },
        }
    }

    pub fn resize_by_key(&mut self, key: KeyEvent) -> (r: bool)
        requires
            old(self)@.wf(),
        ensures
            r == (keys::resize_dir(key) is Some),
            final(self)@ == (if r {
                state::touched(
                    state::asked(old(self)@, RequestV::Command(keys::resize_command(keys::resize_dir(key)->0))),
                )
            } else {
                old(self)@
            }),
            final(self).entries == old(self).entries,
    {
        match keys::resize_command_for_key(key) {
            Some(command) => {
                self.run_command(command);
                self.ui.drawn_counter = 0;
                true
            },
            None => false,
        }
    }

    fn keep_resizing(&mut self, env: Env)
        ensures
            final(self)@ == keyboard::resizing(old(self)@, env@),
            final(self).entries == old(self).entries,
    {
        self.ui.mode = InputMode::Resize;
        self.ui.resize_deadline = Some(env.now.saturating_add(RESIZE_IDLE_TIMEOUT));
    }

    fn prefix_rest_key(&mut self, key: KeyEvent, env: Env)
        requires
            old(self)@.wf(),
        ensures
            final(self)@ == keyboard::prefix_rest(old(self)@, key, env@),
            final(self)@.wf(),
            final(self).entries == old(self).entries,
    {
        if keys::is_resize_modifier_key(key) {
            self.keep_resizing(env);
            return ;
        }
        if self.resize_by_key(key) {
            self.keep_resizing(env);
            return ;
        }
        self.prefix_action_key(key, env);
        self.ui.drawn_counter = 0;
    }

    /// A key behind the prefix.
    pub fn on_prefix_key(&mut self, key: KeyEvent, env: Env)
        requires
            old(self)@.wf(),
        ensures
            final(self)@ == keyboard::prefix_mode_key(old(self)@, key, env@),
            final(self)@.wf(),
            final(self).entries == old(self).entries,
    {
        proof {
            reveal(keyboard::prefix_mode_key);
        }
        let from_navigator: bool = self.ui.prefix_from_navigator;
        let from_copy: bool = self.ui.prefix_from_copy;
        self.ui.mode = InputMode::Normal;
        self.ui.prefix_from_navigator = false;
        if from_navigator {
            match key.code {
                KeyCode::Char('t') | KeyCode::Char('T') | KeyCode::Char('S') => {
                    self.ui.mode = InputMode::Navigator;
                    return ;
                },
                _ => {},
            }
            if let Some(dir) = keys::prefix_nav_dir(key) {
                let mode = mode::navigator_prefix_move(dir);
                self.enter(mode);
                return ;
            }
        }
        self.ui.prefix_from_copy = false;
        if keyboard::is_prefix_key(key) {
            self.send_key(key);
            return ;
        }
        if from_copy {
            self.suppress_copy_mode_client_sync(env.counter);
        }
        self.prefix_rest_key(key, env);
    }

    /// Has copy mode in the current frame ignored.
    pub fn suppress_copy_mode_client_sync(&mut self, counter: u64)
        ensures
            final(self)@ == state::with_ui(
                old(self)@,
                UiV {
                    copy_confirmed: false,
                    copy_suppress: Some(counter),
                    ..old(self)@.ui
                },
            ),
            final(self).entries == old(self).entries,
    {
        self.ui.copy_confirmed = false;
        self.ui.copy_suppress = Some(counter);
    }

    fn toggle_popup(&mut self, env: Env)
        requires
            old(self)@.wf(),
        ensures
            final(self)@ == keyboard::popup_toggled(old(self)@, env@),
            final(self)@.wf(),
            final(self).entries == old(self).entries,
    {
        proof {
            reveal(keyboard::popup_toggled);
        }
        if self.ui.popup {
            self.ui.popup = false;
            let mode = self.ui.popup_return.copy();
            self.enter(mode);
        } else {
            self.ui.popup = true;
            self.ui.popup_return = self.ui.prefix_origin.copy();
            self.sync_navigation_to_active(env);
            self.ui.mode = InputMode::Navigator;
        }
        self.forget_pointer();
    }

    fn forget_pointer(&mut self)
        ensures
            final(self)@ == keyboard::pointer_forgotten(old(self)@),
            final(self).entries == old(self).entries,
    {
        self.ui.prefix_from_navigator = false;
        self.ui.prefix_from_copy = false;
        self.ui.selection = None;
        self.ui.drag = None;
        self.ui.drawn_selection = None;
        self.ui.drawn_counter = 0;
    }

    fn toggle_sidebar(&mut self, env: Env)
        requires
            old(self)@.wf(),
        ensures
            final(self)@ == keyboard::sidebar_toggled(old(self)@, env@),
            final(self)@.wf(),
            final(self).entries == old(self).entries,
    {
        proof {
            reveal(keyboard::sidebar_toggled);
        }
        let mode = match &self.ui.prefix_origin {
            InputMode::Navigator | InputMode::NavigationHelp { .. } | InputMode::Prefix => {
                InputMode::Normal
            },
            other => other.copy(),
        };
        let ghost origin = self@.ui.prefix_origin;
        proof {
            assert(mode@ == if origin is Navigator || origin is NavigationHelp || origin is Prefix {
                ModeV::Normal
            } else {
                origin
            });
        }
        let visible: bool = !self.workspaces.sidebar_visible;
        self.ui.popup = false;
        self.set_sidebar_visible(visible, env);
        self.forget_pointer();
        self.enter(mode);
    }

    fn note_prefix(&mut self, key: KeyEvent)
        ensures
            final(self)@ == keyboard::prefix_noted(old(self)@, key),
            final(self).entries == old(self).entries,
    {
        let pending: bool = keyboard::is_prefix_key(key) && !self.ui.prefix_pending;
        self.ui.prefix_pending = pending;
        if pending {
            match &self.ui.mode {
                InputMode::Prefix => {},
                InputMode::Resize => {
                    self.ui.prefix_origin = InputMode::Normal;
                },
                other => {
                    let origin = other.copy();
                    self.ui.prefix_origin = origin;
                },
            }
        }
    }

    fn on_prompt_key(&mut self, key: KeyEvent, env: Env)
        requires
            old(self)@.wf(),
        ensures
            final(self)@ == keyboard::prompt_mode_key(old(self)@, key, env@),
            final(self)@.wf(),
            final(self).entries == old(self).entries,
    {
        proof {
            reveal(keyboard::prompt_mode_key);
        }
        let mode = self.ui.mode.copy();
        match mode {
            InputMode::RenameIdentity { id, buf, cursor } => {
                self.on_identity_key(id, buf, cursor, key);
                self.touch();
            },
            InputMode::Command { buf, cursor } => {
                self.on_command_key(buf, cursor, key, env);
                self.touch();
            },
            InputMode::CopySearch { buf, cursor, forward } => {
                self.on_search_key(buf, cursor, forward, key);
            },
            InputMode::RenameWindow { buf, cursor, return_to_navigator } => {
                self.on_rename_window_key(buf, cursor, return_to_navigator, key, env);
                self.touch();
            },
            InputMode::RenameSession { buf, cursor, return_to_navigator } => {
                self.on_rename_session_key(buf, cursor, return_to_navigator, key, env);
                self.touch();
            },
            InputMode::RenamePane { buf, cursor, return_to_navigator } => {
                self.on_rename_pane_key(buf, cursor, return_to_navigator, key, env);
                self.touch();
            },
            _ => {},
        }
    }

    fn on_mode_key(&mut self, key: KeyEvent, press: bool, env: Env)
        requires
            old(self)@.wf(),
        ensures
            final(self)@ == keyboard::mode_key(old(self)@, key, press, env@),
            final(self)@.ws.list.len() > 0 ==> final(self)@.wf(),
            final(self).entries == old(self).entries,
    {
        proof {
            reveal(keyboard::mode_key);
        }
        let mode = self.ui.mode.copy();
        match mode {
            InputMode::Normal => {
                self.on_normal_key(key, press, env);
                self.touch();
            },
            InputMode::Prefix => {
                self.on_prefix_key(key, env);
            },
            InputMode::Navigator => {
                self.on_navigator_key(key, env);
            },
            InputMode::Resize => {
                self.on_resize_key(key, env);
            },
            InputMode::NavigationHelp { .. } | InputMode::ShortcutsHelp { .. } => {
                self.on_help_key(key, env);
                self.touch();
            },
            InputMode::CopyMode => {
                self.on_copy_key(key);
            },
            InputMode::OptionPanel { selected, scroll_on_erase_in_display } => {
                self.on_option_key(selected, scroll_on_erase_in_display, key);
                self.touch();
            },
            InputMode::ConfirmNavigationClose { entry } => {
                self.on_confirm_key(entry, key, env);
                self.touch();
            },
            _ => {
                self.on_prompt_key(key, env);
            },
        }
    }

    /// A key pressed, or repeated while it is held.
    pub fn on_key(&mut self, key: KeyEvent, press: bool, env: Env)
        requires
            old(self)@.wf(),
        ensures
            final(self)@ == keyboard::on_key(old(self)@, key, press, env@),
            final(self)@.ws.list.len() > 0 ==> final(self)@.wf(),
            final(self).entries == old(self).entries,
    {
        let shortcut: bool = self.ui.prefix_pending;
        self.note_prefix(key);
        if shortcut {
            let m = key.modifiers;
            let popup: bool = match key.code {
                KeyCode::Char('m') => !m.shift && !m.alt && !m.control,
                _ => false,
            };
            if popup {
                self.toggle_popup(env);
                return ;
            }
            if keys::is_shifted_letter(key, 'M') {
                self.toggle_sidebar(env);
                return ;
            }
        }
        self.on_mode_key(key, press, env);
    }
}

} // verus!
