//! The client takes keys in the tree, in prompts and in panels.

use crate::client::input;
use crate::client::keyboard;
use crate::client::mode;
use crate::client::tree;
use crate::help;
use crate::keys;
use crate::text;
use crate::client::actions::Request;
use crate::client::mode::InputMode;
use crate::client::state::{Client, Env, RESIZE_IDLE_TIMEOUT};
use crate::geometry::Rect;
use crate::keys::{KeyCode, KeyEvent};
use crate::navigation::{NavigationEntry, NavigationNodeId, NavigationNodeKind};
use vstd::prelude::*;

verus! {

/// How far a key reference can be scrolled.
pub fn last_help_scroll(all: bool, env: Env) -> (r: usize)
    ensures
        r == keyboard::help_limit(all, env@),
{
    proof {
        reveal(keyboard::help_limit);
    }
    let area = Rect { x: 0, y: 0, width: env.cols, height: env.rows };
    if all {
        help::shortcuts_help_max_scroll(area)
    } else {
        help::navigation_help_max_scroll(area)
    }
}

fn help_after(mode: InputMode, key: KeyEvent, env: Env) -> (r: InputMode)
    ensures
        r@ == keyboard::help_mode(mode@, key, env@),
{
    let leaves: bool = match key.code {
        KeyCode::Esc | KeyCode::Char('q') | KeyCode::Char('H') => true,
        _ => false,
    };
    match mode {
        InputMode::NavigationHelp { scroll } => {
            if leaves {
                InputMode::Navigator
            } else {
                let max: usize = last_help_scroll(false, env);
                InputMode::NavigationHelp { scroll: input::help_scroll_after(scroll, key, max) }
            }
        },
        InputMode::ShortcutsHelp { scroll, return_mode } => {
            if leaves {
                *return_mode
            } else {
                let max: usize = last_help_scroll(true, env);
                InputMode::ShortcutsHelp {
                    scroll: input::help_scroll_after(scroll, key, max),
                    return_mode,
                }
            }
        },
        other => other,
    }
}

impl Client {
    /// Leaves the tree for where input was before.
    fn leave_tree(&mut self, env: Env)
        requires
            old(self)@.wf(),
        ensures
            final(self)@ == keyboard::tree_left(old(self)@, env@),
            final(self)@.wf(),
            final(self).entries == old(self).entries,
    {
        if self.ui.popup {
            self.ui.popup = false;
            let mode = self.ui.popup_return.copy();
            self.enter(mode);
        } else {
            self.set_sidebar_visible(false, env);
            self.ui.mode = InputMode::Normal;
        }
    }

    /// Begins to rename a node.
    fn begin_rename(&mut self, entry: NavigationEntry, env: Env)
        requires
            old(self)@.wf(),
        ensures
            final(self)@ == keyboard::rename_begun(old(self)@, entry@, env@),
            final(self)@.wf(),
            final(self).entries == old(self).entries,
    {
        match entry.kind {
            NavigationNodeKind::Machine | NavigationNodeKind::Workspace => {
                let cursor: usize = entry.label.as_str().unicode_len();
                self.enter(
                    InputMode::RenameIdentity { id: entry.id, buf: entry.label, cursor },
                );
            },
            _ => {
                if !self.activate_navigation_entry(&entry.id, env) {
                    self.tell("navigation target is unavailable".to_string(), env.now, 3000);
                } else {
                    let buf = tree::navigation_rename_value(&entry);
                    let cursor: usize = buf.as_str().unicode_len();
                    let mode = match entry.kind {
                        NavigationNodeKind::Session => InputMode::RenameSession {
                            buf,
                            cursor,
                            return_to_navigator: true,
                        },
                        NavigationNodeKind::Window => InputMode::RenameWindow {
                            buf,
                            cursor,
                            return_to_navigator: true,
                        },
                        _ => InputMode::RenamePane { buf, cursor, return_to_navigator: true },
                    };
                    self.enter(mode);
                    self.ask(Request::RefreshDisplay);
                }
            },
        }
    }

    /// The selected line, if there is one.
    pub fn selected_line(&self) -> (r: Option<NavigationEntry>)
        ensures
            (match r {
                Some(e) => Some(e@),
                None => None,
            }) == keyboard::selected_entry(self@),
    {
        let at: usize = self.navigation.selected;
        if at < self.entries.len() {
            Some(mode::copy_entry(&self.entries[at]))
        } else {
            None
        }
    }

    fn refresh_machine(&mut self)
        requires
            old(self)@.wf(),
        ensures
            final(self)@ == keyboard::machine_refreshed(old(self)@),
            final(self)@.wf(),
            final(self).entries == old(self).entries,
    {
        if let Some(entry) = self.selected_line() {
            if let NavigationNodeId::Machine(id) = &entry.id {
                if !text::same_text(id.as_str(), "local") {
                    self.probe_machine(id.as_str(), false);
                    return ;
                }
            }
        }
        self.ask(Request::RefreshDisplay);
    }

    fn ask_to_close(&mut self, env: Env)
        requires
            old(self)@.wf(),
        ensures
            final(self)@ == keyboard::close_begun(old(self)@, env@),
            final(self)@.wf(),
            final(self).entries == old(self).entries,
    {
        if let Some(entry) = self.selected_line() {
            match tree::navigation_close_block_reason(self.entries.as_slice(), &entry) {
                Some(reason) => {
                    self.tell(reason, env.now, 4000);
                },
                None => {
                    self.enter(InputMode::ConfirmNavigationClose { entry });
                },
            }
        }
    }

    fn open_selected(&mut self, into: bool, env: Env)
        requires
            old(self)@.wf(),
        ensures
            final(self)@ == keyboard::selected_opened(old(self)@, into, env@),
            final(self)@.wf(),
            final(self).entries == old(self).entries,
    {
        if let Some(entry) = self.selected_line() {
            if into && entry.expandable {
                self.navigation.expand_or_child(self.entries.as_slice());
            } else {
                self.open_navigation_entry(&entry, env);
            }
        }
    }

    fn on_tree_key(&mut self, key: KeyEvent, env: Env)
        requires
            old(self)@.wf(),
        ensures
            final(self)@ == keyboard::tree_key(old(self)@, key, env@),
            final(self)@.wf(),
            final(self).entries == old(self).entries,
    {
        proof {
            reveal(keyboard::tree_key);
        }
        match key.code {
            KeyCode::Esc | KeyCode::Char('q') => {
                self.leave_tree(env);
                return ;
            },
            KeyCode::Up | KeyCode::Char('k') => {
                self.navigation.select_prev(self.entries.as_slice());
                return ;
            },
            KeyCode::Down | KeyCode::Char('j') => {
                self.navigation.select_next(self.entries.as_slice());
                return ;
            },
            KeyCode::Home | KeyCode::Char('g') => {
                self.navigation.select_first(self.entries.as_slice());
                return ;
            },
            KeyCode::End | KeyCode::Char('G') => {
                self.navigation.select_last(self.entries.as_slice());
                return ;
            },
            _ => {},
        }
        if keys::is_shifted_letter(key, 'H') {
            self.ui.mode = InputMode::NavigationHelp { scroll: 0 };
            return ;
        }
        match key.code {
            KeyCode::Left | KeyCode::Char('h') => {
                self.navigation.collapse_or_parent(self.entries.as_slice());
            },
            KeyCode::Right | KeyCode::Char('l') => {
                self.open_selected(true, env);
            },
            KeyCode::Char('R') => {
                self.refresh_machine();
            },
            KeyCode::Char('r') => {
                if let Some(entry) = self.selected_line() {
                    self.begin_rename(entry, env);
                }
            },
            KeyCode::Char('K') | KeyCode::Char('d') | KeyCode::Delete => {
                self.ask_to_close(env);
            },
            KeyCode::Enter => {
                self.open_selected(false, env);
            },
            _ => {},
        }
    }

    /// A key in the tree.
    pub fn on_navigator_key(&mut self, key: KeyEvent, env: Env)
        requires
            old(self)@.wf(),
        ensures
            final(self)@ == keyboard::navigator_key(old(self)@, key, env@),
            final(self)@.wf(),
            final(self).entries == old(self).entries,
    {
        proof {
            reveal(keyboard::navigator_key);
        }
        if keyboard::is_prefix_key(key) {
            self.ui.prefix_from_navigator = true;
            self.ui.mode = InputMode::Prefix;
        } else {
            self.on_tree_key(key, env);
            self.ui.drawn_counter = 0;
        }
    }

    /// A key while panes are resized.
    pub fn on_resize_key(&mut self, key: KeyEvent, env: Env)
        requires
            old(self)@.wf(),
        ensures
            final(self)@ == keyboard::resize_key(old(self)@, key, env@),
            final(self)@.wf(),
            final(self).entries == old(self).entries,
    {
        proof {
            reveal(keyboard::resize_key);
        }
        let deadline: u64 = env.now.saturating_add(RESIZE_IDLE_TIMEOUT);
        if keys::is_resize_modifier_key(key) {
            self.ui.resize_deadline = Some(deadline);
            return ;
        }
        if self.resize_by_key(key) {
            self.ui.resize_deadline = Some(deadline);
            return ;
        }
        self.ui.resize_deadline = None;
        match key.code {
            KeyCode::Esc => {
                self.ui.mode = InputMode::Normal;
                return ;
            },
            _ => {},
        }
        if keyboard::is_prefix_key(key) {
            self.ui.mode = InputMode::Prefix;
            return ;
        }
        self.ui.mode = InputMode::Normal;
        self.ui.drawn_counter = 0;
    }

    /// A key in a key reference.
    pub fn on_help_key(&mut self, key: KeyEvent, env: Env)
        ensures
            final(self)@ == keyboard::help_key(old(self)@, key, env@),
            final(self)@.ws == old(self)@.ws,
            final(self).entries == old(self).entries,
    {
        proof {
            reveal(keyboard::help_key);
        }
        let mode = self.take_mode();
        self.enter(help_after(mode, key, env));
    }
}

} // verus!
