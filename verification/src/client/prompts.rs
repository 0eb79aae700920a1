//! The client takes keys in prompts, in copy mode and in the options.

use crate::client::commands_run;
use crate::client::keyboard;
use crate::client::mode;
use crate::client::state;
use crate::client::tree;
use crate::commands;
use crate::keys;
use crate::prompt;
use crate::text;
use crate::client::actions::{Effect, OutputUse, Request};
use crate::client::commands_run::ClientCommandResult;
use crate::client::mode::{InputMode, ModeV};
use crate::client::state::{Client, Env, NOTICE};
use crate::client::tree::Closing;
use crate::keys::{KeyCode, KeyEvent};
use crate::navigation::{NavigationEntry, NavigationNodeId};
use vstd::prelude::*;

verus! {

impl Client {
    /// A key in the prompt for a name.
    pub fn on_identity_key(&mut self, id: NavigationNodeId, buf: String, cursor: usize, key: KeyEvent)
        ensures
            final(self)@ == keyboard::identity_key(old(self)@, id@, mode::prompt_of(buf, cursor), key),
            final(self)@.ws == old(self)@.ws,
            final(self).entries == old(self).entries,
    {
        proof {
            reveal(keyboard::identity_key);
        }
        let mut buf = buf;
        let mut cursor: usize = cursor;
        match key.code {
            KeyCode::Enter => {
                self.enter(InputMode::Navigator);
                self.act(Effect::SaveName { node: id, name: buf });
            },
            KeyCode::Esc => {
                self.enter(InputMode::Navigator);
            },
            _ => {
                prompt::edit_prompt(&mut buf, &mut cursor, key);
                self.enter(InputMode::RenameIdentity { id, buf, cursor });
            },
        }
    }

    fn finish_command(&mut self)
        ensures
            final(self)@ == keyboard::handled(old(self)@),
            final(self).entries == old(self).entries,
    {
        self.ui.copy_confirmed = false;
        self.ui.selection = None;
        self.ui.drawn_counter = 0;
    }

    fn add_host(&mut self, host: String, env: Env)
        ensures
            final(self)@ == keyboard::host_added(old(self)@, host@, env@),
            final(self)@.ws == old(self)@.ws,
            final(self).entries == old(self).entries,
    {
        match self.remotes.add_and_probe(host.as_str(), true) {
            Ok((id, started)) => {
                if let Some(route) = started {
                    self.act(Effect::Probe { id, route });
                }
                self.finish_command();
                let mut text = "connecting to ".to_string();
                text.append(host.as_str());
                self.tell(text, env.now, NOTICE);
            },
            Err(error) => {
                self.finish_command();
                self.tell(error, env.now, NOTICE);
            },
        }
    }

    /// Carries out a command line.
    pub fn run_line(&mut self, line: &str, env: Env)
        requires
            old(self)@.wf(),
        ensures
            final(self)@ == keyboard::line_run(old(self)@, line@, env@),
            final(self)@.wf(),
            final(self).entries == old(self).entries,
    {
        proof {
            reveal_with_fuel(mode::mode_view, 2);
        }
        match commands_run::run_client_command(line) {
            ClientCommandResult::ShowHelp => {
                self.enter(
                    InputMode::ShortcutsHelp {
                        scroll: 0,
                        return_mode: Box::new(InputMode::Normal),
                    },
                );
                self.ui.drawn_counter = 0;
            },
            ClientCommandResult::Say(text) => {
                self.finish_command();
                self.tell(text, env.now, NOTICE);
            },
            ClientCommandResult::PasteCloud => {
                self.finish_command();
                self.ask(Request::PasteCloud);
            },
            ClientCommandResult::SetHome => {
                self.finish_command();
                self.ask(
                    Request::Output {
                        command: "set-workspace-home".to_string(),
                        purpose: OutputUse::WorkspaceHome,
                    },
                );
            },
            ClientCommandResult::AddHost(host) => {
                self.add_host(host, env);
            },
            ClientCommandResult::NotHandled => {
                let changes: bool = commands_run::command_changes_navigation(line);
                self.ask(commands_run::request_for_command(line));
                if changes {
                    self.invalidate_visual_pane();
                    self.invalidate_active_navigation_tree(env.now);
                }
            },
        }
    }

    /// A key in the command prompt.
    pub fn on_command_key(&mut self, buf: String, cursor: usize, key: KeyEvent, env: Env)
        requires
            old(self)@.wf(),
        ensures
            final(self)@ == keyboard::command_mode_key(old(self)@, mode::prompt_of(buf, cursor), key, env@),
            final(self)@.wf(),
            final(self).entries == old(self).entries,
    {
        proof {
            reveal(keyboard::command_mode_key);
        }
        let mut buf = buf;
        let mut cursor: usize = cursor;
        match key.code {
            KeyCode::Enter => {
                let line = text::trim(text::chars_of(buf.as_str()).as_slice());
                self.ui.mode = InputMode::Normal;
                if line.len() > 0 {
                    let line = text::string_of(line.as_slice());
                    self.run_line(line.as_str(), env);
                }
            },
            KeyCode::Esc => {
                self.ui.mode = InputMode::Normal;
            },
            _ => {
                prompt::edit_command(&mut buf, &mut cursor, key);
                self.enter(InputMode::Command { buf, cursor });
            },
        }
    }

    /// A key in copy mode.
    pub fn on_copy_key(&mut self, key: KeyEvent)
        ensures
            final(self)@ == keyboard::copy_key(old(self)@, key),
            final(self)@.ws == old(self)@.ws,
            final(self).entries == old(self).entries,
    {
        proof {
            reveal(keyboard::copy_key);
        }
        if keyboard::is_prefix_key(key) {
            self.ui.mode = InputMode::Prefix;
            self.ui.prefix_from_copy = true;
            return ;
        }
        self.copy_action(key);
        self.ui.drawn_counter = 0;
    }

    fn copy_action(&mut self, key: KeyEvent)
        ensures
            final(self)@ == keyboard::copy_acted(old(self)@, key),
            final(self)@.ws == old(self)@.ws,
            final(self).entries == old(self).entries,
    {
        let plain: bool = keyboard::is_plain(key.modifiers);
        let loose: bool = keys::is_copy_plain_key(key.modifiers);
        match key.code {
            KeyCode::Esc => {
                self.leave_copy_mode_client();
                return ;
            },
            KeyCode::Char('q') => {
                if plain {
                    self.leave_copy_mode_client();
                    return ;
                }
            },
            KeyCode::Char('/') => {
                if loose {
                    self.enter(
                        InputMode::CopySearch { buf: String::new(), cursor: 0, forward: true },
                    );
                    return ;
                }
            },
            KeyCode::Char('?') => {
                if loose {
                    self.enter(
                        InputMode::CopySearch { buf: String::new(), cursor: 0, forward: false },
                    );
                    return ;
                }
            },
            _ => {},
        }
        match keyboard::movement_for_key(key) {
            Some(movement) => {
                self.ask(Request::Copy(movement));
            },
            None => {
                let yank: bool = match key.code {
                    KeyCode::Char('y') => plain,
                    KeyCode::Enter => true,
                    _ => false,
                };
                if yank {
                    self.ask(Request::Yank);
                }
            },
        }
    }

    /// A key in the search prompt.
    pub fn on_search_key(&mut self, buf: String, cursor: usize, forward: bool, key: KeyEvent)
        ensures
            final(self)@ == keyboard::search_key(old(self)@, mode::prompt_of(buf, cursor), forward, key),
            final(self)@.ws == old(self)@.ws,
            final(self).entries == old(self).entries,
    {
        proof {
            reveal(keyboard::search_key);
        }
        if keyboard::is_prefix_key(key) {
            self.ui.mode = InputMode::Prefix;
            self.ui.prefix_from_copy = true;
            return ;
        }
        self.search_action(buf, cursor, forward, key);
        self.ui.drawn_counter = 0;
    }

    fn search_action(&mut self, buf: String, cursor: usize, forward: bool, key: KeyEvent)
        ensures
            final(self)@ == keyboard::search_acted(old(self)@, mode::prompt_of(buf, cursor), forward, key),
            final(self)@.ws == old(self)@.ws,
            final(self).entries == old(self).entries,
    {
        let mut buf = buf;
        let mut cursor: usize = cursor;
        let quits: bool = match key.code {
            KeyCode::Char('q') => keyboard::is_plain(key.modifiers),
            _ => false,
        };
        match key.code {
            KeyCode::Enter => {
                self.ui.mode = InputMode::CopyMode;
                if buf.as_str().unicode_len() > 0 {
                    self.ask(Request::Search { text: buf, forward });
                }
            },
            KeyCode::Esc => {
                self.ui.mode = InputMode::CopyMode;
            },
            _ => {
                if quits {
                    self.leave_copy_mode_client();
                } else {
                    prompt::edit_line(&mut buf, &mut cursor, key);
                    self.enter(InputMode::CopySearch { buf, cursor, forward });
                }
            },
        }
    }

    /// A key in the options.
    pub fn on_option_key(&mut self, selected: usize, enabled: bool, key: KeyEvent)
        requires
            old(self)@.ui.mode == (ModeV::OptionPanel { selected, enabled }),
        ensures
            final(self)@ == keyboard::option_key(old(self)@, selected, enabled, key),
            final(self)@.ws == old(self)@.ws,
            final(self).entries == old(self).entries,
    {
        proof {
            reveal(keyboard::option_key);
        }
        match key.code {
            KeyCode::Esc | KeyCode::Char('q') => {
                self.ui.mode = InputMode::Normal;
            },
            KeyCode::Enter | KeyCode::Char(' ') => {
                self.ask(Request::EraseScroll(!enabled));
                self.enter(
                    InputMode::OptionPanel { selected, scroll_on_erase_in_display: !enabled },
                );
            },
            _ => {},
        }
    }

    fn finish_closing(&mut self)
        ensures
            final(self)@ == keyboard::after_closing(old(self)@),
            final(self).entries == old(self).entries,
    {
        self.ui.mode = InputMode::Navigator;
        self.ui.copy_confirmed = false;
        self.ui.selection = None;
        self.ui.drawn_counter = 0;
    }

    /// The answer to whether a node is to be closed.
    pub fn on_confirm_key(&mut self, entry: NavigationEntry, key: KeyEvent, env: Env)
        requires
            old(self)@.wf(),
        ensures
            final(self)@ == keyboard::confirm_key(old(self)@, entry@, key, env@),
            final(self)@.ws.list.len() > 0 ==> final(self)@.wf(),
            final(self).entries == old(self).entries,
    {
        proof {
            reveal(keyboard::confirm_key);
        }
        match key.code {
            KeyCode::Char('y') | KeyCode::Char('Y') => {
                match self.close_navigation_entry(&entry, env) {
                    Closing::Empty => {
                        self.act(Effect::Quit);
                    },
                    Closing::Closed => {
                        self.invalidate_active_navigation_tree(env.now);
                        self.ask(Request::RefreshDisplay);
                        let mut text = "closed ".to_string();
                        text.append(tree::navigation_kind_label(entry.kind));
                        text.append(" '");
                        text.append(entry.label.as_str());
                        text.append("'");
                        self.tell(text, env.now, NOTICE);
                        self.finish_closing();
                    },
                    Closing::Failed(error) => {
                        self.tell(error, env.now, 4000);
                        self.finish_closing();
                    },
                }
            },
            KeyCode::Esc | KeyCode::Char('n') | KeyCode::Char('N') | KeyCode::Enter => {
                self.ui.mode = InputMode::Navigator;
                self.ui.drawn_counter = 0;
            },
            _ => {},
        }
    }

    fn finish_rename(&mut self, verb: &str, name: String, back: bool, env: Env)
        requires
            old(self)@.wf(),
        ensures
            final(self)@ == keyboard::rename_done(old(self)@, verb@, name@, back, env@),
            final(self)@.wf(),
            final(self).entries == old(self).entries,
    {
        if name.as_str().unicode_len() > 0 {
            let mut command = verb.to_string();
            command.append(commands::shell_quote(name.as_str()).as_str());
            self.ask(Request::Command(command));
        }
        self.invalidate_active_navigation_tree(env.now);
        self.go_back(back);
    }

    fn go_back(&mut self, back: bool)
        ensures
            final(self)@ == state::in_mode(old(self)@, keyboard::back_to(back)),
            final(self).entries == old(self).entries,
    {
        self.ui.mode = if back {
            InputMode::Navigator
        } else {
            InputMode::Normal
        };
    }

    /// A key in the prompt for a window's name.
    pub fn on_rename_window_key(
        &mut self,
        buf: String,
        cursor: usize,
        back: bool,
        key: KeyEvent,
        env: Env,
    )
        requires
            old(self)@.wf(),
        ensures
            final(self)@ == keyboard::rename_window_key(
                old(self)@,
                mode::prompt_of(buf, cursor),
                back,
                key,
                env@,
            ),
            final(self)@.wf(),
            final(self).entries == old(self).entries,
    {
        proof {
            reveal(keyboard::rename_window_key);
        }
        let mut buf = buf;
        let mut cursor: usize = cursor;
        match key.code {
            KeyCode::Enter => {
                self.finish_rename("rename-window -- ", buf, back, env);
            },
            KeyCode::Esc => {
                self.go_back(back);
            },
            _ => {
                prompt::edit_line(&mut buf, &mut cursor, key);
                self.enter(InputMode::RenameWindow { buf, cursor, return_to_navigator: back });
            },
        }
    }

    /// A key in the prompt for a session's name.
    pub fn on_rename_session_key(
        &mut self,
        buf: String,
        cursor: usize,
        back: bool,
        key: KeyEvent,
        env: Env,
    )
        requires
            old(self)@.wf(),
        ensures
            final(self)@ == keyboard::rename_session_key(
                old(self)@,
                mode::prompt_of(buf, cursor),
                back,
                key,
                env@,
            ),
            final(self)@.wf(),
            final(self).entries == old(self).entries,
    {
        proof {
            reveal(keyboard::rename_session_key);
        }
        let mut buf = buf;
        let mut cursor: usize = cursor;
        match key.code {
            KeyCode::Enter => {
                self.finish_rename("rename-session -- ", buf, back, env);
            },
            KeyCode::Esc => {
                self.go_back(back);
            },
            _ => {
                prompt::edit_line(&mut buf, &mut cursor, key);
                self.enter(InputMode::RenameSession { buf, cursor, return_to_navigator: back });
            },
        }
    }

    /// A key in the prompt for a pane's name.
    pub fn on_rename_pane_key(
        &mut self,
        buf: String,
        cursor: usize,
        back: bool,
        key: KeyEvent,
        env: Env,
    )
        requires
            old(self)@.wf(),
        ensures
            final(self)@ == keyboard::rename_pane_key(old(self)@, mode::prompt_of(buf, cursor), back, key, env@),
            final(self)@.wf(),
            final(self).entries == old(self).entries,
    {
        proof {
            reveal(keyboard::rename_pane_key);
        }
        let mut buf = buf;
        let mut cursor: usize = cursor;
        match key.code {
            KeyCode::Enter => {
                self.finish_rename("rename-pane -- ", buf, back, env);
            },
            KeyCode::Esc => {
                self.go_back(back);
            },
            _ => {
                prompt::edit_pane_line(&mut buf, &mut cursor, key);
                self.enter(InputMode::RenamePane { buf, cursor, return_to_navigator: back });
            },
        }
    }
}

} // verus!
