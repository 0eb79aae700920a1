//! Requests become lines to a server, or questions that are asked on the side.

use crate::text;
use crate::wire;
use crate::client::actions::{OutputUse, Request, RequestV};
use crate::client::replies::{Reply, ReplyV};
use crate::socket::{SocketClient, WriteV};
use vstd::prelude::*;

verus! {

/// How many lines one notch of the wheel scrolls.
pub const SCROLL_LINES: usize = 3;

/// What is left to do of a request once its lines are on their way.
#[derive(Debug)]
pub enum Errand {
    /// A text is handed to the program in the active pane as a paste.
    Paste(String),
    /// The selected text is asked for.
    Yank,
    /// The synchronised clipboard is pasted.
    PasteCloud,
    /// What a command prints is asked for.
    Output { command: String, purpose: OutputUse },
    /// The options are asked for.
    Options,
    /// The answer is known.
    Answer(Reply),
}

#[verifier::ext_equal]
pub enum ErrandV {
    Paste(Seq<char>),
    Yank,
    PasteCloud,
    Output { command: Seq<char>, purpose: OutputUse },
    Options,
    Answer(ReplyV),
}

pub open spec fn errand_view(e: Option<Errand>) -> Option<ErrandV> {
    match e {
        Some(Errand::Paste(t)) => Some(ErrandV::Paste(t@)),
        Some(Errand::Yank) => Some(ErrandV::Yank),
        Some(Errand::PasteCloud) => Some(ErrandV::PasteCloud),
        Some(Errand::Output { command, purpose }) => Some(
            ErrandV::Output { command: command@, purpose },
        ),
        Some(Errand::Options) => Some(ErrandV::Options),
        Some(Errand::Answer(r)) => Some(ErrandV::Answer(r@)),
        None => None,
    }
}

pub open spec fn direction_word(up: bool) -> Seq<char> {
    if up {
        "up"@
    } else {
        "down"@
    }
}

/// The line of a request, if it has one.
pub open spec fn request_line(r: RequestV) -> Option<Seq<char>> {
    match r {
        RequestV::Command(c) => Some("CMD "@ + c),
        RequestV::Resize(size) => Some("RESIZE "@ + wire::size_text(size)),
        RequestV::RefreshDisplay => Some("REFRESH_FRAME"@),
        RequestV::HideBorders(b) => Some(
            if b {
                "HIDE_BORDERS 1"@
            } else {
                "HIDE_BORDERS 0"@
            },
        ),
        RequestV::EraseScroll(b) => Some(
            if b {
                "OPTION scroll_on_erase_in_display 1"@
            } else {
                "OPTION scroll_on_erase_in_display 0"@
            },
        ),
        RequestV::Scroll { up, pane: Some(pane) } => Some(
            "SCROLL "@ + direction_word(up) + " "@ + text::decimal(SCROLL_LINES as nat) + " %"@
                + text::decimal(pane as nat),
        ),
        RequestV::Scroll { up, pane: None } => Some(
            (if up {
                "SCROLL up "@
            } else {
                "SCROLL down "@
            }) + text::decimal(SCROLL_LINES as nat),
        ),
        RequestV::DisplayBottom => Some("SCROLL_DISPLAY bottom"@),
        RequestV::ExitCopyMode => Some("COPY_KEY exit"@),
        RequestV::Copy(key) => Some(wire::copy_word(key)),
        RequestV::Detach => Some("CMD detach"@),
        RequestV::EnterCopyMode => Some("CMD copy-mode"@),
        RequestV::Search { text, forward } => Some(
            "COPY_SEARCH "@ + (if forward {
                "fwd "@
            } else {
                "bwd "@
            }) + text,
        ),
        _ => None,
    }
}

/// What a request sends.
pub open spec fn request_writes(r: RequestV) -> Seq<WriteV> {
    match r {
        RequestV::Input(bytes) => if bytes.len() == 0 {
            Seq::empty()
        } else {
            seq![WriteV::Input(bytes)]
        },
        _ => match request_line(r) {
            Some(line) => seq![WriteV::Line(line)],
            None => Seq::empty(),
        },
    }
}

/// What is left to do of a request.
pub open spec fn request_errand(r: RequestV) -> Option<ErrandV> {
    match r {
        RequestV::Paste(text) => Some(ErrandV::Paste(text)),
        RequestV::Yank => Some(ErrandV::Yank),
        RequestV::PasteCloud => Some(ErrandV::PasteCloud),
        RequestV::Output { command, purpose } => Some(ErrandV::Output { command, purpose }),
        RequestV::AskEraseScroll => Some(ErrandV::Options),
        RequestV::EnterCopyMode => Some(ErrandV::Answer(ReplyV::CopyMode(true))),
        RequestV::Search { text, .. } => Some(
            ErrandV::Answer(ReplyV::Searched { text, found: true }),
        ),
        _ => None,
    }
}

/// Carries out a request on a connection; what is left to do of it.
pub fn carry_out(client: &mut SocketClient, request: Request) -> (r: Option<Errand>)
    ensures
        errand_view(r) == request_errand(request@),
        final(client).sent() == old(client).sent() + request_writes(request@),
        final(client).closed == (old(client).closed || request@ is Detach),
        final(client).tree_refresh == (old(client).tree_refresh || request@ is RefreshTree),
        final(client).slot == old(client).slot,
        final(client).last_text == old(client).last_text,
        final(client).tree == old(client).tree,
{
    match request {
        Request::Input(bytes) => {
            client.send_input(bytes.as_slice());
            None
        },
        Request::Paste(text) => Some(Errand::Paste(text)),
        Request::Command(command) => {
            client.run_command(command.as_str());
            None
        },
        Request::Resize(size) => {
            client.resize(size);
            None
        },
        Request::RefreshDisplay => {
            client.refresh_display();
            None
        },
        Request::RefreshTree => {
            client.refresh_session_tree();
            None
        },
        Request::HideBorders(hide) => {
            client.set_hide_borders(hide);
            None
        },
        Request::EraseScroll(enabled) => {
            client.set_scroll_on_erase_in_display(enabled);
            None
        },
        Request::Scroll { up, pane } => {
            match pane {
                Some(pane_id) => {
                    client.scroll_pane(
                        pane_id,
                        if up {
                            "up"
                        } else {
                            "down"
                        },
                        SCROLL_LINES,
                    );
                },
                None => {
                    if up {
                        client.scroll_up(SCROLL_LINES);
                    } else {
                        client.scroll_down(SCROLL_LINES);
                    }
                },
            }
            None
        },
        Request::DisplayBottom => {
            client.scroll_display_bottom();
            None
        },
        Request::ExitCopyMode => {
            client.exit_copy_mode();
            None
        },
        Request::Copy(key) => {
            client.send_line(wire::copy_line(key));
            None
        },
        Request::Detach => {
            client.detach();
            None
        },
        Request::EnterCopyMode => {
            let entered: bool = client.enter_copy_mode();
            Some(Errand::Answer(Reply::CopyMode(entered)))
        },
        Request::Search { text, forward } => {
            let found: bool = client.copy_search(text.clone(), forward);
            Some(Errand::Answer(Reply::Searched { text, found }))
        },
        Request::Yank => Some(Errand::Yank),
        Request::PasteCloud => Some(Errand::PasteCloud),
        Request::Output { command, purpose } => Some(Errand::Output { command, purpose }),
        Request::AskEraseScroll => Some(Errand::Options),
    }
}

} // verus!
