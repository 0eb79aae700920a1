//! Commands that the user types, and what the answers to them say.

use crate::commands;
use crate::text;
use crate::client::actions::{OutputUse, Request, RequestV};
use crate::commands::ParsedCommand;
use crate::strmap::StrMap;
use vstd::prelude::*;

verus! {

/// Whether a command's name is one that changes the tree of sessions, windows and panes.
pub open spec fn changes_tree(name: Seq<char>) -> bool {
    name == "split-window"@ || name == "splitw"@ || name == "new"@ || name == "new-session"@ || name
        == "new-window"@ || name == "neww"@ || name == "zoom-pane"@ || name == "zoomp"@ || name
        == "kill-pane"@ || name == "killp"@ || name == "kill-window"@ || name == "killw"@ || name
        == "kill-session"@ || name == "kill-s"@ || name == "rename-pane"@ || name == "renamep"@
        || name == "rename-window"@ || name == "renamew"@ || name == "rename-session"@ || name
        == "rename-s"@ || name == "select-pane"@ || name == "selectp"@ || name == "select-window"@
        || name == "selectw"@ || name == "switch-client"@ || name == "switchc"@ || name
        == "prev-session"@ || name == "next-session"@
}

fn name_changes_tree(name: &str) -> (r: bool)
    ensures
        r == changes_tree(name@),
{
    text::same_text(name, "split-window") || text::same_text(name, "splitw") || text::same_text(name, "new")
        || text::same_text(name, "new-session") || text::same_text(name, "new-window") || text::same_text(name, "neww")
        || text::same_text(name, "zoom-pane") || text::same_text(name, "zoomp") || text::same_text(name, "kill-pane")
        || text::same_text(name, "killp") || text::same_text(name, "kill-window") || text::same_text(name, "killw")
        || text::same_text(name, "kill-session") || text::same_text(name, "kill-s") || text::same_text(
        name,
        "rename-pane",
    ) || text::same_text(name, "renamep") || text::same_text(name, "rename-window") || text::same_text(name, "renamew")
        || text::same_text(name, "rename-session") || text::same_text(name, "rename-s") || text::same_text(
        name,
        "select-pane",
    ) || text::same_text(name, "selectp") || text::same_text(name, "select-window") || text::same_text(name, "selectw")
        || text::same_text(name, "switch-client") || text::same_text(name, "switchc") || text::same_text(
        name,
        "prev-session",
    ) || text::same_text(name, "next-session")
}

/// Whether one of the commands of a line changes the tree.
pub open spec fn line_changes_tree(line: Seq<char>) -> bool {
    let parts = commands::line_commands(line);
    exists|i: int| 0 <= i < parts.len() && changes_tree((#[trigger] parts[i]).name)
}

/// Whether one of the commands of a line changes the tree.
pub fn command_changes_navigation(command: &str) -> (r: bool)
    ensures
        r == line_changes_tree(command@),
{
    let parts = ParsedCommand::parse(command);
    let ghost all = commands::line_commands(command@);
    let mut i: usize = 0;
    while i < parts.len()
        invariant
            i <= parts@.len(),
            all == commands::line_commands(command@),
            all == commands::command_views(parts@),
            all.len() == parts@.len(),
            forall|k: int| 0 <= k < i ==> !changes_tree((#[trigger] all[k]).name),
        decreases parts@.len() - i,
    {
        proof {
            assert(all[i as int] == parts@[i as int]@);
        }
        if name_changes_tree(parts[i].name.as_str()) {
            proof {
                assert(changes_tree(all[i as int].name));
            }
            return true;
        }
        i = i + 1;
    }
    false
}

/// The directory that a command printed, none where it printed nothing.
pub open spec fn printed_dir(output: Seq<char>) -> Option<Seq<char>> {
    if text::trimmed(output).len() == 0 {
        None
    } else {
        Some(text::trimmed(output))
    }
}

/// The directory that a command printed.
pub fn start_dir_from_command_output(output: &str) -> (r: Option<String>)
    ensures
        commands::opt_text(r) == printed_dir(output@),
{
    let bare = text::trim(text::chars_of(output).as_slice());
    if bare.len() == 0 {
        None
    } else {
        Some(text::string_of(bare.as_slice()))
    }
}

/// What the user is told of a command's output; nothing where a message is empty.
pub open spec fn output_notice(purpose: OutputUse, output: Seq<char>) -> Option<Seq<char>> {
    match (purpose, printed_dir(output)) {
        (OutputUse::StartDir, Some(dir)) => Some("start dir: "@ + dir),
        (OutputUse::StartDir, None) => Some("set start dir failed"@),
        (OutputUse::WorkspaceHome, Some(dir)) => Some("workspace home: "@ + dir),
        (OutputUse::WorkspaceHome, None) => Some("set workspace home failed"@),
        (OutputUse::Message, text) => text,
    }
}

/// What the user is told of a command's output.
pub fn notice_for_output(purpose: OutputUse, output: &str) -> (r: Option<String>)
    ensures
        commands::opt_text(r) == output_notice(purpose, output@),
{
    let dir = start_dir_from_command_output(output);
    match purpose {
        OutputUse::StartDir => match dir {
            Some(d) => {
                let mut out = "start dir: ".to_string();
                out.append(d.as_str());
                Some(out)
            },
            None => Some("set start dir failed".to_string()),
        },
        OutputUse::WorkspaceHome => match dir {
            Some(d) => {
                let mut out = "workspace home: ".to_string();
                out.append(d.as_str());
                Some(out)
            },
            None => Some("set workspace home failed".to_string()),
        },
        OutputUse::Message => dir,
    }
}

/// The first word of a text, up to white space.
pub open spec fn word_end(s: Seq<char>, from: int) -> int
    decreases s.len() - from,
{
    if 0 <= from < s.len() && !text::white_space(s[from]) {
        word_end(s, from + 1)
    } else {
        from
    }
}

pub open spec fn first_word(s: Seq<char>) -> Seq<char> {
    let t = text::trimmed_start(s);
    t.take(word_end(t, 0))
}

/// Whether a command's output is a message for the user: it sets or shows options.
pub open spec fn prints_message(command: Seq<char>) -> bool {
    let w = first_word(command);
    w == "set-option"@ || w == "set"@ || w == "show-options"@ || w == "show"@
}

fn says_message(command: &str) -> (r: bool)
    ensures
        r == prints_message(command@),
{
    let t = text::trim_start(text::chars_of(command).as_slice());
    let mut n: usize = 0;
    while n < t.len() && !text::is_whitespace(t[n])
        invariant
            n <= t@.len(),
            t@ == text::trimmed_start(command@),
            word_end(t@, n as int) == word_end(t@, 0),
        decreases t@.len() - n,
    {
        n = n + 1;
    }
    let word = text::slice_of(t.as_slice(), 0, n);
    proof {
        assert(text::cut(t@, 0, n as int) =~= t@.take(n as int));
    }
    text::same_text(word.as_str(), "set-option") || text::same_text(word.as_str(), "set") || text::same_text(
        word.as_str(),
        "show-options",
    ) || text::same_text(word.as_str(), "show")
}

/// How a command goes to the server: with or without waiting for what it prints.
pub open spec fn command_request(command: Seq<char>) -> RequestV {
    if text::trimmed(command) == "set-pane-start-dir"@ {
        RequestV::Output { command, purpose: OutputUse::StartDir }
    } else if prints_message(command) {
        RequestV::Output { command, purpose: OutputUse::Message }
    } else {
        RequestV::Command(command)
    }
}

/// How a command goes to the server.
pub fn request_for_command(command: &str) -> (r: Request)
    ensures
        r@ == command_request(command@),
{
    let bare = text::string_of(text::trim(text::chars_of(command).as_slice()).as_slice());
    if text::same_text(bare.as_str(), "set-pane-start-dir") {
        Request::Output { command: command.to_string(), purpose: OutputUse::StartDir }
    } else if says_message(command) {
        Request::Output { command: command.to_string(), purpose: OutputUse::Message }
    } else {
        Request::Command(command.to_string())
    }
}

/// What the client itself does with a command line.
pub enum ClientCommandResultV {
    /// It shows all keys.
    ShowHelp,
    /// It tells the user something.
    Say(Seq<char>),
    /// It has a text or a picture pasted.
    PasteCloud,
    /// It has the workspace's directory set.
    SetHome,
    /// It connects to a host.
    AddHost(Seq<char>),
    /// It is not its own command.
    NotHandled,
}

/// What the client itself does with a command line.
#[derive(Debug)]
pub enum ClientCommandResult {
    ShowHelp,
    Say(String),
    PasteCloud,
    SetHome,
    AddHost(String),
    NotHandled,
}

impl View for ClientCommandResult {
    type V = ClientCommandResultV;

    open spec fn view(&self) -> ClientCommandResultV {
        match *self {
            ClientCommandResult::ShowHelp => ClientCommandResultV::ShowHelp,
            ClientCommandResult::Say(s) => ClientCommandResultV::Say(s@),
            ClientCommandResult::PasteCloud => ClientCommandResultV::PasteCloud,
            ClientCommandResult::SetHome => ClientCommandResultV::SetHome,
            ClientCommandResult::AddHost(s) => ClientCommandResultV::AddHost(s@),
            ClientCommandResult::NotHandled => ClientCommandResultV::NotHandled,
        }
    }
}

/// What the client itself does with a line of one command.
pub open spec fn own_command(line: Seq<char>) -> ClientCommandResultV {
    let parts = commands::line_commands(line);
    if parts.len() != 1 {
        ClientCommandResultV::NotHandled
    } else {
        let cmd = parts[0];
        if cmd.name == "h"@ || cmd.name == "help"@ {
            if cmd.args.len() == 0 && cmd.flags == Map::<Seq<char>, Option<Seq<char>>>::empty() {
                ClientCommandResultV::ShowHelp
            } else {
                ClientCommandResultV::Say("usage: h or help"@)
            }
        } else if cmd.name == "set-workspace-home"@ {
            ClientCommandResultV::SetHome
        } else if cmd.name == "new"@ && cmd.flags.contains_key("m"@) {
            match cmd.flags["m"@] {
                Some(host) => ClientCommandResultV::AddHost(host),
                None => ClientCommandResultV::Say("usage: new -m <SSH_HOST>"@),
            }
        } else if cmd.name == "new"@ && cmd.flags.contains_key("t"@) {
            ClientCommandResultV::Say(
                "tab creation was removed; use new -s <session> or new-window"@,
            )
        } else if cmd.name == "paste-cloud"@ {
            ClientCommandResultV::PasteCloud
        } else {
            ClientCommandResultV::NotHandled
        }
    }
}

proof fn lemma_no_flags(flags: StrMap<Option<String>>)
    ensures
        (flags.entries@.len() == 0) == (commands::flags_view(flags) == Map::<
            Seq<char>,
            Option<Seq<char>>,
        >::empty()),
{
    if flags.entries@.len() == 0 {
        assert(commands::flags_view(flags) =~= Map::empty());
    } else {
        let key = flags.entries@[0].0@;
        assert(commands::flags_view(flags).contains_key(key)) by {
            assert(flags@.contains_key(key));
        }
    }
}

/// What the client itself does with a line of one command.
pub fn run_client_command(line: &str) -> (r: ClientCommandResult)
    ensures
        r@ == own_command(line@),
{
    let parts = ParsedCommand::parse(line);
    let ghost all = commands::line_commands(line@);
    proof {
        assert(all.len() == parts@.len());
    }
    if parts.len() != 1 {
        return ClientCommandResult::NotHandled;
    }
    proof {
        assert(all[0] == parts@[0]@);
        lemma_no_flags(parts@[0].flags);
    }
    let cmd = &parts[0];
    let name = cmd.name.as_str();
    if text::same_text(name, "h") || text::same_text(name, "help") {
        if cmd.args.len() == 0 && cmd.flags.entries.len() == 0 {
            ClientCommandResult::ShowHelp
        } else {
            ClientCommandResult::Say("usage: h or help".to_string())
        }
    } else if text::same_text(name, "set-workspace-home") {
        ClientCommandResult::SetHome
    } else if text::same_text(name, "new") && cmd.flag("m") {
        match cmd.flag_value("m") {
            Some(host) => ClientCommandResult::AddHost(host.clone()),
            None => ClientCommandResult::Say("usage: new -m <SSH_HOST>".to_string()),
        }
    } else if text::same_text(name, "new") && cmd.flag("t") {
        ClientCommandResult::Say(
            "tab creation was removed; use new -s <session> or new-window".to_string(),
        )
    } else if text::same_text(name, "paste-cloud") {
        ClientCommandResult::PasteCloud
    } else {
        ClientCommandResult::NotHandled
    }
}

/// Where a text to be copied went.
#[derive(Clone, Copy, Debug, PartialEq, Eq, Structural)]
pub enum ClipboardCopyResult {
    Zsync,
    System,
    Osc52,
    Unavailable,
}

/// What the user is told of a copied text.
pub open spec fn copy_notice(result: ClipboardCopyResult, n: nat) -> Seq<char> {
    match result {
        ClipboardCopyResult::Zsync => "copied "@ + text::decimal(n) + " chars via zsync"@,
        ClipboardCopyResult::System => "copied "@ + text::decimal(n) + " chars"@,
        ClipboardCopyResult::Osc52 => "sent "@ + text::decimal(n) + " chars via OSC 52"@,
        ClipboardCopyResult::Unavailable => "yanked "@ + text::decimal(n)
            + " chars (clipboard unavailable)"@,
    }
}

/// What the user is told of a copied text.
pub fn clipboard_copy_notice(result: ClipboardCopyResult, text: &str) -> (r: String)
    ensures
        r@ == copy_notice(result, text@.len()),
{
    let n: usize = text.unicode_len();
    let mut out = match result {
        ClipboardCopyResult::Zsync => "copied ".to_string(),
        ClipboardCopyResult::System => "copied ".to_string(),
        ClipboardCopyResult::Osc52 => "sent ".to_string(),
        ClipboardCopyResult::Unavailable => "yanked ".to_string(),
    };
    text::push_decimal(&mut out, n as u64);
    out.append(
        match result {
            ClipboardCopyResult::Zsync => " chars via zsync",
            ClipboardCopyResult::System => " chars",
            ClipboardCopyResult::Osc52 => " chars via OSC 52",
            ClipboardCopyResult::Unavailable => " chars (clipboard unavailable)",
        },
    );
    out
}

/// A way to copy a text.
#[derive(Clone, Copy, Debug, PartialEq, Eq, Structural)]
pub enum ClipboardAttempt {
    Zsync,
    System,
    Osc52,
}

/// What comes next in copying a text: another way, or the end.
#[derive(Clone, Copy, Debug, PartialEq, Eq, Structural)]
pub enum ClipboardStep {
    Try(ClipboardAttempt),
    Done(ClipboardCopyResult),
}

/// Copying a text: nothing is done with an empty one; else the ways are tried in order until one
/// succeeds.
pub open spec fn clipboard_after(empty: bool, last: Option<(ClipboardAttempt, bool)>) -> ClipboardStep {
    if empty {
        ClipboardStep::Done(ClipboardCopyResult::Unavailable)
    } else {
        match last {
            None => ClipboardStep::Try(ClipboardAttempt::Zsync),
            Some((ClipboardAttempt::Zsync, true)) => ClipboardStep::Done(ClipboardCopyResult::Zsync),
            Some((ClipboardAttempt::Zsync, false)) => ClipboardStep::Try(ClipboardAttempt::System),
            Some((ClipboardAttempt::System, true)) => ClipboardStep::Done(
                ClipboardCopyResult::System,
            ),
            Some((ClipboardAttempt::System, false)) => ClipboardStep::Try(ClipboardAttempt::Osc52),
            Some((ClipboardAttempt::Osc52, true)) => ClipboardStep::Done(ClipboardCopyResult::Osc52),
            Some((ClipboardAttempt::Osc52, false)) => ClipboardStep::Done(
                ClipboardCopyResult::Unavailable,
            ),
        }
    }
}

/// What comes next in copying a text.
pub fn copy_to_clipboard(text: &str, last: Option<(ClipboardAttempt, bool)>) -> (r: ClipboardStep)
    ensures
        r == clipboard_after(text@.len() == 0, last),
{
    if text.unicode_len() == 0 {
        return ClipboardStep::Done(ClipboardCopyResult::Unavailable);
    }
    match last {
        None => ClipboardStep::Try(ClipboardAttempt::Zsync),
        Some((ClipboardAttempt::Zsync, true)) => ClipboardStep::Done(ClipboardCopyResult::Zsync),
        Some((ClipboardAttempt::Zsync, false)) => ClipboardStep::Try(ClipboardAttempt::System),
        Some((ClipboardAttempt::System, true)) => ClipboardStep::Done(ClipboardCopyResult::System),
        Some((ClipboardAttempt::System, false)) => ClipboardStep::Try(ClipboardAttempt::Osc52),
        Some((ClipboardAttempt::Osc52, true)) => ClipboardStep::Done(ClipboardCopyResult::Osc52),
        Some((ClipboardAttempt::Osc52, false)) => ClipboardStep::Done(
            ClipboardCopyResult::Unavailable,
        ),
    }
}

} // verus!
