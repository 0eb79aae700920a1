//! What answers do: of servers, of remote machines and of the system.

use crate::client::commands_run;
use crate::client::keyboard;
use crate::client::remotes;
use crate::client::state;
use crate::client::tree;
use crate::commands;
use crate::geometry;
use crate::machines;
use crate::client::actions::{Effect, EffectV, OutputUse, Request, RequestV};
use crate::client::commands_run::ClipboardCopyResult;
use crate::client::mode::{InputMode, ModeV};
use crate::client::remotes::{FailureV, RemoteFailure, RemoteV};
use crate::client::state::{Client, ClientV, ConnectionV, Env, EnvV, ManagerV, NOTICE, UiV, WorkspaceConnection};
use vstd::prelude::*;

verus! {

/// An answer to something that was asked.
#[derive(Debug)]
pub enum Reply {
    /// Whether copy mode could be entered.
    CopyMode(bool),
    /// Whether erasing scrolls.
    EraseScroll(bool),
    /// What was selected in copy mode.
    Yanked(String),
    /// Whether a text was found.
    Searched { text: String, found: bool },
    /// What came of pasting the synchronised clipboard.
    Pasted(String),
    /// What a command printed.
    Output { purpose: OutputUse, text: String },
    /// How a text was copied.
    Copied { result: ClipboardCopyResult, text: String },
    /// Whether a name could be kept, or why not.
    Named(Option<String>),
}

#[verifier::ext_equal]
pub enum ReplyV {
    CopyMode(bool),
    EraseScroll(bool),
    Yanked(Seq<char>),
    Searched { text: Seq<char>, found: bool },
    Pasted(Seq<char>),
    Output { purpose: OutputUse, text: Seq<char> },
    Copied { result: ClipboardCopyResult, text: Seq<char> },
    Named(Option<Seq<char>>),
}

impl View for Reply {
    type V = ReplyV;

    open spec fn view(&self) -> ReplyV {
        match *self {
            Reply::CopyMode(b) => ReplyV::CopyMode(b),
            Reply::EraseScroll(b) => ReplyV::EraseScroll(b),
            Reply::Yanked(t) => ReplyV::Yanked(t@),
            Reply::Searched { text, found } => ReplyV::Searched { text: text@, found },
            Reply::Pasted(t) => ReplyV::Pasted(t@),
            Reply::Output { purpose, text } => ReplyV::Output { purpose, text: text@ },
            Reply::Copied { result, text } => ReplyV::Copied { result, text: text@ },
            Reply::Named(e) => ReplyV::Named(commands::opt_text(e)),
        }
    }
}

/// Copy mode entered.
pub open spec fn copy_entered(c: ClientV) -> ClientV {
    state::with_ui(
        c,
        UiV {
            mode: ModeV::CopyMode,
            copy_confirmed: false,
            copy_exit_pending: false,
            scrolled: false,
            ..c.ui
        },
    )
}

/// What an answer does.
pub open spec fn replied(c: ClientV, reply: ReplyV, env: EnvV) -> ClientV {
    match reply {
        ReplyV::CopyMode(entered) => if entered {
            copy_entered(c)
        } else {
            state::told(c, "copy mode unavailable"@, env.now, NOTICE as int)
        },
        ReplyV::EraseScroll(enabled) => state::in_mode(c, ModeV::OptionPanel { selected: 0, enabled }),
        ReplyV::Yanked(text) => if text.len() == 0 {
            state::told(c, "no selection"@, env.now, NOTICE as int)
        } else {
            state::acting(keyboard::copy_left(c), EffectV::CopyText(text))
        },
        ReplyV::Searched { text, found } => if found {
            c
        } else {
            state::told(c, "not found: "@ + text, env.now, NOTICE as int)
        },
        ReplyV::Pasted(message) => state::told(c, message, env.now, NOTICE as int),
        ReplyV::Output { purpose, text } => match commands_run::output_notice(purpose, text) {
            Some(message) => state::told(c, message, env.now, NOTICE as int),
            None => c,
        },
        ReplyV::Copied { result, text } => state::told(
            c,
            commands_run::copy_notice(result, text.len()),
            env.now,
            NOTICE as int,
        ),
        ReplyV::Named(None) => state::told(c, "display name saved"@, env.now, NOTICE as int),
        ReplyV::Named(Some(error)) => state::told(c, "rename failed: "@ + error, env.now, 5000),
    }
}

/// A machine's connection noted, and its workspace drawn.
pub open spec fn machine_connected(c: ClientV, id: Seq<char>, env: EnvV) -> ClientV {
    let d = ClientV {
        remotes: remotes::with_machine(c.remotes, id, |m: RemoteV| remotes::connected(m)),
        ..c
    };
    state::asked(
        state::told(d, "connected to "@ + remotes::name_of(c.remotes, id), env.now, NOTICE as int),
        RequestV::RefreshDisplay,
    )
}

/// A machine's failure noted, and told to the user.
pub open spec fn machine_failed(
    c: ClientV,
    id: Seq<char>,
    failure: FailureV,
    between: Seq<char>,
    env: EnvV,
) -> ClientV {
    state::told(
        ClientV {
            remotes: remotes::with_machine(c.remotes, id, |m: RemoteV| remotes::failed(m, failure, env.now)),
            ..c
        },
        remotes::name_of(c.remotes, id) + between + failure.message,
        env.now,
        5000,
    )
}

pub open spec fn activates(remotes: Seq<RemoteV>, id: Seq<char>) -> bool {
    match remotes::machine_at(remotes, id, 0) {
        Some(i) => remotes[i].activate,
        None => false,
    }
}

/// The end of a probe. Of a machine that is not known any more nothing is kept.
pub open spec fn probe_ended(c: ClientV, id: Seq<char>, failure: Option<FailureV>, env: EnvV) -> ClientV {
    if remotes::machine_at(c.remotes, id, 0) is None {
        c
    } else {
        state::touched(
            match failure {
                Some(f) => machine_failed(c, id, f, ": "@, env),
                None => {
                    let activate = activates(c.remotes, id);
                    match tree::attached(c, id, env, activate) {
                        Some(there) => machine_connected(there, id, env),
                        None => state::acting(
                            c,
                            EffectV::Connect {
                                id,
                                route: tree::route_to(c.remotes, id),
                                size: state::server_size(env, c.ws.sidebar),
                                activate,
                                open: false,
                            },
                        ),
                    }
                },
            },
        )
    }
}

/// The result of a probe whose machine was removed in the meantime changes nothing.
pub proof fn law_removed_machine_stays_removed(
    c: ClientV,
    id: Seq<char>,
    failure: Option<FailureV>,
    env: EnvV,
)
    requires
        remotes::machine_at(c.remotes, id, 0) is None,
    ensures
        probe_ended(c, id, failure, env) == c,
{
}

/// The workspace of a remote machine that was connected to.
pub open spec fn remote_workspace(id: Seq<char>, base: Seq<char>) -> ConnectionV {
    ConnectionV {
        socket: "ssh://"@ + id + "/"@ + base,
        machine: id,
        focus: None,
        tree: Seq::empty(),
        tree_at: None,
        refresh_until: None,
    }
}

/// One more workspace, the active one where that was asked for.
pub open spec fn workspace_added(c: ClientV, id: Seq<char>, activate: bool) -> ClientV {
    let list = c.ws.list.push(remote_workspace(id, c.ws.base));
    ClientV {
        ws: ManagerV {
            list,
            active: if activate {
                (list.len() - 1) as usize
            } else {
                c.ws.active
            },
            ..c.ws
        },
        ..c
    }
}

/// The end of an attempt to connect.
pub open spec fn connect_ended(
    c: ClientV,
    id: Seq<char>,
    failure: Option<FailureV>,
    activate: bool,
    open: bool,
    env: EnvV,
) -> ClientV {
    state::touched(
        match failure {
            None => {
                let d = workspace_added(c, id, activate);
                if open {
                    tree::after_opening(d)
                } else {
                    machine_connected(d, id, env)
                }
            },
            Some(f) => if open {
                state::told(
                    c,
                    "failed to open "@ + remotes::name_of(c.remotes, id) + ": "@ + f.message,
                    env.now,
                    4000,
                )
            } else {
                machine_failed(c, id, f, ": attach failed: "@, env)
            },
        },
    )
}

pub open spec fn failure_view(f: Option<RemoteFailure>) -> Option<FailureV> {
    match f {
        Some(x) => Some(x@),
        None => None,
    }
}

fn joined(a: &str, b: &str) -> (r: String)
    ensures
        r@ == a@ + b@,
{
    let mut out = a.to_string();
    out.append(b);
    out
}

impl Client {
    fn take_reply(&mut self, reply: Reply, env: Env)
        ensures
            final(self)@ == replied(old(self)@, reply@, env@),
            final(self)@.ws == old(self)@.ws,
            final(self).entries == old(self).entries,
    {
        match reply {
            Reply::CopyMode(entered) => {
                if entered {
                    self.ui.mode = InputMode::CopyMode;
                    self.ui.copy_confirmed = false;
                    self.ui.copy_exit_pending = false;
                    self.ui.scrolled = false;
                } else {
                    self.tell("copy mode unavailable".to_string(), env.now, NOTICE);
                }
            },
            Reply::EraseScroll(enabled) => {
                self.enter(
                    InputMode::OptionPanel { selected: 0, scroll_on_erase_in_display: enabled },
                );
            },
            Reply::Yanked(text) => {
                if text.as_str().unicode_len() == 0 {
                    self.tell("no selection".to_string(), env.now, NOTICE);
                } else {
                    self.leave_copy_mode_client();
                    self.act(Effect::CopyText(text));
                }
            },
            Reply::Searched { text, found } => {
                if !found {
                    self.tell(joined("not found: ", text.as_str()), env.now, NOTICE);
                }
            },
            Reply::Pasted(message) => {
                self.tell(message, env.now, NOTICE);
            },
            Reply::Output { purpose, text } => {
                if let Some(message) = commands_run::notice_for_output(purpose, text.as_str()) {
                    self.tell(message, env.now, NOTICE);
                }
            },
            Reply::Copied { result, text } => {
                self.tell(commands_run::clipboard_copy_notice(result, text.as_str()), env.now, NOTICE);
            },
            Reply::Named(None) => {
                self.tell("display name saved".to_string(), env.now, NOTICE);
            },
            Reply::Named(Some(error)) => {
                self.tell(joined("rename failed: ", error.as_str()), env.now, 5000);
            },
        }
    }

    /// An answer to something that was asked.
    pub fn on_reply(&mut self, reply: Reply, env: Env)
        ensures
            final(self)@ == state::touched(replied(old(self)@, reply@, env@)),
            final(self)@.ws == old(self)@.ws,
            final(self).entries == old(self).entries,
    {
        self.take_reply(reply, env);
        self.touch();
    }

    fn note_connected(&mut self, id: &str, env: Env)
        ensures
            final(self)@ == machine_connected(old(self)@, id@, env@),
            final(self)@.ws == old(self)@.ws,
            final(self).entries == old(self).entries,
    {
        let name = self.remotes.display_name(id);
        self.remotes.mark_connected(id);
        self.tell(joined("connected to ", name.as_str()), env.now, NOTICE);
        self.ask(Request::RefreshDisplay);
    }

    fn note_failure(&mut self, id: &str, failure: RemoteFailure, between: &str, env: Env)
        ensures
            final(self)@ == machine_failed(old(self)@, id@, failure@, between@, env@),
            final(self)@.ws == old(self)@.ws,
            final(self).entries == old(self).entries,
    {
        let mut text = self.remotes.display_name(id);
        text.append(between);
        text.append(failure.message.as_str());
        self.remotes.mark_failure(id, failure, env.now);
        self.tell(text, env.now, 5000);
    }

    fn connect_probed(&mut self, id: &str, env: Env)
        requires
            old(self)@.wf(),
        ensures
            final(self)@ == (match tree::attached(
                old(self)@,
                id@,
                env@,
                activates(old(self)@.remotes, id@),
            ) {
                Some(there) => machine_connected(there, id@, env@),
                None => state::acting(
                    old(self)@,
                    EffectV::Connect {
                        id: id@,
                        route: tree::route_to(old(self)@.remotes, id@),
                        size: state::server_size(env@, old(self)@.ws.sidebar),
                        activate: activates(old(self)@.remotes, id@),
                        open: false,
                    },
                ),
            }),
            final(self)@.wf(),
            final(self).entries == old(self).entries,
    {
        let (activate, route): (bool, Vec<String>) = match self.remotes.position(id) {
            Some(i) => (
                self.remotes.machines[i].activate_after_probe,
                machines::copy_texts(self.remotes.machines[i].route.as_slice()),
            ),
            None => (false, Vec::new()),
        };
        proof {
            assert(activate == activates(self@.remotes, id@));
            assert(commands::texts(route@) =~= tree::route_to(self@.remotes, id@));
        }
        if self.attach_existing(id, env, activate) {
            self.note_connected(id, env);
        } else {
            let size = geometry::server_content_size(env.cols, env.rows, self.workspaces.sidebar_visible);
            self.act(Effect::Connect { id: id.to_string(), route, size, activate, open: false });
        }
    }

    /// A probe of a remote machine ended, with a failure or without.
    pub fn on_probe(&mut self, id: &str, failure: Option<RemoteFailure>, env: Env)
        requires
            old(self)@.wf(),
        ensures
            final(self)@ == probe_ended(old(self)@, id@, failure_view(failure), env@),
            final(self)@.wf(),
            final(self).entries == old(self).entries,
    {
        if self.remotes.position(id).is_none() {
            return ;
        }
        match failure {
            Some(failure) => {
                self.note_failure(id, failure, ": ", env);
            },
            None => {
                self.connect_probed(id, env);
            },
        }
        self.touch();
    }

    fn add_workspace(&mut self, id: &str, activate: bool)
        requires
            old(self)@.wf(),
        ensures
            final(self)@ == workspace_added(old(self)@, id@, activate),
            final(self)@.wf(),
            final(self).entries == old(self).entries,
    {
        let mut socket_name = "ssh://".to_string();
        socket_name.append(id);
        socket_name.append("/");
        socket_name.append(self.workspaces.base_socket.as_str());
        let workspace = WorkspaceConnection {
            socket_name,
            machine_id: id.to_string(),
            focus: None,
            tree: Vec::new(),
            tree_at: None,
            refresh_until: None,
        };
        let ghost before = self@;
        let at: usize = self.workspaces.workspaces.len();
        self.workspaces.workspaces.push(workspace);
        proof {
            assert(workspace@ =~= remote_workspace(id@, before.ws.base));
            assert(self@.ws.list =~= before.ws.list.push(workspace@));
        }
        if activate {
            self.workspaces.active = at;
        }
    }

    /// An attempt to connect to a remote machine ended, with a failure or without.
    pub fn on_connect(
        &mut self,
        id: &str,
        failure: Option<RemoteFailure>,
        activate: bool,
        open: bool,
        env: Env,
    )
        requires
            old(self)@.wf(),
        ensures
            final(self)@ == connect_ended(
                old(self)@,
                id@,
                failure_view(failure),
                activate,
                open,
                env@,
            ),
            final(self)@.wf(),
            final(self).entries == old(self).entries,
    {
        match failure {
            None => {
                self.add_workspace(id, activate);
                if open {
                    self.finish_opening();
                } else {
                    self.note_connected(id, env);
                }
            },
            Some(failure) => {
                if open {
                    let mut text = "failed to open ".to_string();
                    text.append(self.remotes.display_name(id).as_str());
                    text.append(": ");
                    text.append(failure.message.as_str());
                    self.tell(text, env.now, 4000);
                } else {
                    self.note_failure(id, failure, ": attach failed: ", env);
                }
            },
        }
        self.touch();
    }
}

} // verus!
