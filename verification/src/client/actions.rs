//! What the client asks to be done: by a server, by the terminal, or by the system.

use crate::commands;
use crate::copy_mode::model::SelectionMode;
use crate::geometry::Size;
use crate::navigation::{NavigationNodeId, NodeV};
use vstd::prelude::*;

verus! {

/// A movement of the cursor in copy mode.
#[derive(Clone, Copy, Debug, PartialEq, Eq, Structural)]
pub enum CopyKey {
    Left,
    Right,
    Up,
    Down,
    PageUp,
    PageDown,
    Top,
    Bottom,
    LineStart,
    LineEnd,
    WordBackward,
    WordForward,
    WordEnd,
    Select(SelectionMode),
    SearchNext,
    SearchPrev,
}

/// What the text that a command prints is for.
#[derive(Clone, Copy, Debug, PartialEq, Eq, Structural)]
pub enum OutputUse {
    /// The directory that new panes start in.
    StartDir,
    /// The directory of the workspace.
    WorkspaceHome,
    /// A message for the user.
    Message,
}

/// What a workspace's server is asked. The last ones are answered.
#[derive(Debug)]
pub enum Request {
    Input(Vec<u8>),
    Paste(String),
    Command(String),
    Resize(Size),
    RefreshDisplay,
    RefreshTree,
    HideBorders(bool),
    EraseScroll(bool),
    Scroll { up: bool, pane: Option<usize> },
    DisplayBottom,
    ExitCopyMode,
    Copy(CopyKey),
    Detach,
    EnterCopyMode,
    Search { text: String, forward: bool },
    Yank,
    PasteCloud,
    Output { command: String, purpose: OutputUse },
    AskEraseScroll,
}

#[verifier::ext_equal]
pub enum RequestV {
    Input(Seq<u8>),
    Paste(Seq<char>),
    Command(Seq<char>),
    Resize(Size),
    RefreshDisplay,
    RefreshTree,
    HideBorders(bool),
    EraseScroll(bool),
    Scroll { up: bool, pane: Option<usize> },
    DisplayBottom,
    ExitCopyMode,
    Copy(CopyKey),
    Detach,
    EnterCopyMode,
    Search { text: Seq<char>, forward: bool },
    Yank,
    PasteCloud,
    Output { command: Seq<char>, purpose: OutputUse },
    AskEraseScroll,
}

impl View for Request {
    type V = RequestV;

    open spec fn view(&self) -> RequestV {
        match *self {
            Request::Input(b) => RequestV::Input(b@),
            Request::Paste(s) => RequestV::Paste(s@),
            Request::Command(s) => RequestV::Command(s@),
            Request::Resize(s) => RequestV::Resize(s),
            Request::RefreshDisplay => RequestV::RefreshDisplay,
            Request::RefreshTree => RequestV::RefreshTree,
            Request::HideBorders(b) => RequestV::HideBorders(b),
            Request::EraseScroll(b) => RequestV::EraseScroll(b),
            Request::Scroll { up, pane } => RequestV::Scroll { up, pane },
            Request::DisplayBottom => RequestV::DisplayBottom,
            Request::ExitCopyMode => RequestV::ExitCopyMode,
            Request::Copy(k) => RequestV::Copy(k),
            Request::Detach => RequestV::Detach,
            Request::EnterCopyMode => RequestV::EnterCopyMode,
            Request::Search { text, forward } => RequestV::Search { text: text@, forward },
            Request::Yank => RequestV::Yank,
            Request::PasteCloud => RequestV::PasteCloud,
            Request::Output { command, purpose } => RequestV::Output {
                command: command@,
                purpose,
            },
            Request::AskEraseScroll => RequestV::AskEraseScroll,
        }
    }
}

/// What is to be done. Actions are done in order; workspaces are counted as they are then.
#[derive(Debug)]
pub enum Effect {
    /// A request to a workspace's server.
    Ask { workspace: usize, request: Request },
    /// A workspace's connection is given up.
    Drop { workspace: usize },
    /// A remote machine is probed.
    Probe { id: String, route: Vec<String> },
    /// A remote machine is connected to. With `open` the user is waiting for it.
    Connect { id: String, route: Vec<String>, size: Size, activate: bool, open: bool },
    /// A name for a machine or a workspace is kept.
    SaveName { node: NavigationNodeId, name: String },
    /// A link is opened.
    OpenUrl(String),
    /// A text goes to the clipboard.
    CopyText(String),
    /// The client ends.
    Quit,
}

#[verifier::ext_equal]
pub enum EffectV {
    Ask { workspace: usize, request: RequestV },
    Drop { workspace: usize },
    Probe { id: Seq<char>, route: Seq<Seq<char>> },
    Connect { id: Seq<char>, route: Seq<Seq<char>>, size: Size, activate: bool, open: bool },
    SaveName { node: NodeV, name: Seq<char> },
    OpenUrl(Seq<char>),
    CopyText(Seq<char>),
    Quit,
}

impl View for Effect {
    type V = EffectV;

    open spec fn view(&self) -> EffectV {
        match *self {
            Effect::Ask { workspace, request } => EffectV::Ask { workspace, request: request@ },
            Effect::Drop { workspace } => EffectV::Drop { workspace },
            Effect::Probe { id, route } => EffectV::Probe { id: id@, route: commands::texts(route@) },
            Effect::Connect { id, route, size, activate, open } => EffectV::Connect {
                id: id@,
                route: commands::texts(route@),
                size,
                activate,
                open,
            },
            Effect::SaveName { node, name } => EffectV::SaveName { node: node@, name: name@ },
            Effect::OpenUrl(u) => EffectV::OpenUrl(u@),
            Effect::CopyText(t) => EffectV::CopyText(t@),
            Effect::Quit => EffectV::Quit,
        }
    }
}

pub open spec fn effect_views(actions: Seq<Effect>) -> Seq<EffectV> {
    Seq::new(actions.len(), |i: int| actions[i]@)
}

} // verus!
