//! A connection to a server: what is still to be sent, the frame that came last, and the tree of
//! sessions.

use std::sync::Arc;
use crate::client::keyboard;
use crate::commands;
use crate::json;
use crate::session_tree;
use crate::text;
use crate::wire;
use crate::client::actions::CopyKey;
use crate::copy_mode::model::SelectionMode;
use crate::frame::{FrameData, LayoutJson};
use crate::geometry::Size;
use crate::json::{Document, DocumentV};
use crate::session_tree::SessionTreeEntry;
use vstd::prelude::*;

verus! {

/// Something to send on the control connection.
#[derive(Debug)]
pub enum ControlWrite {
    Line(String),
    Input(Vec<u8>),
}

#[verifier::ext_equal]
pub enum WriteV {
    Line(Seq<char>),
    Input(Seq<u8>),
}

impl View for ControlWrite {
    type V = WriteV;

    open spec fn view(&self) -> WriteV {
        match *self {
            ControlWrite::Line(s) => WriteV::Line(s@),
            ControlWrite::Input(b) => WriteV::Input(b@),
        }
    }
}

pub open spec fn write_views(writes: Seq<ControlWrite>) -> Seq<WriteV> {
    Seq::new(writes.len(), |i: int| writes[i]@)
}

/// The lines that something is sent as.
pub open spec fn written_lines(w: WriteV) -> Seq<Seq<char>> {
    match w {
        WriteV::Line(line) => seq![line],
        WriteV::Input(bytes) => wire::input_lines(bytes),
    }
}

/// The lines that something is sent as.
pub fn control_lines(write: &ControlWrite) -> (r: Vec<String>)
    ensures
        commands::texts(r@) == written_lines(write@),
{
    match write {
        ControlWrite::Line(line) => {
            let mut out: Vec<String> = Vec::new();
            out.push(line.clone());
            proof {
                assert(commands::texts(out@) =~= seq![line@]);
            }
            out
        },
        ControlWrite::Input(bytes) => wire::pump_input_chunks(bytes.as_slice()),
    }
}

/// The frame that came last, and the number of frames that came.
#[derive(Debug)]
pub struct FrameSlot {
    pub frame: Option<Arc<FrameData>>,
    pub counter: u64,
}

pub open spec fn shared(frame: Option<Arc<FrameData>>) -> Option<FrameData> {
    match frame {
        Some(f) => Some(*f),
        None => None,
    }
}

/// The number after a number, beginning anew past the last one.
pub open spec fn next_number(n: u64) -> u64 {
    if n == u64::MAX {
        0
    } else {
        (n + 1) as u64
    }
}

impl FrameSlot {
    pub open spec fn shown(self) -> Option<FrameData> {
        shared(self.frame)
    }

    /// Takes a new frame in, together with a new number for it.
    pub fn publish(&mut self, frame: FrameData)
        ensures
            final(self).shown() == Some(frame),
            final(self).counter == next_number(old(self).counter),
    {
        self.frame = Some(Arc::new(frame));
        self.counter = self.counter.wrapping_add(1);
    }

    /// The frame and its number.
    pub fn snapshot(&self) -> (r: (Option<Arc<FrameData>>, u64))
        ensures
            shared(r.0) == self.shown(),
            r.1 == self.counter,
    {
        (
            match &self.frame {
                Some(f) => Some(Arc::clone(f)),
                None => None,
            },
            self.counter,
        )
    }
}

/// The frame that stands for the end of a server.
pub open spec fn is_exit_frame(f: FrameData) -> bool {
    &&& f.frame_type@ == "frame"@
    &&& f.status is None
    &&& f.ansi is None
    &&& f.exit
    &&& f.yank_text is None
    &&& (match f.layout {
        LayoutJson::Leaf {
            id,
            rows,
            cols,
            cursor_row,
            cursor_col,
            hide_cursor,
            alternate_screen,
            mouse_mode,
            in_copy_mode,
            scroll_ratio,
            cursor_shape,
            active,
            rows_v2,
            title,
        } => {
            &&& id == 0
            &&& rows == 1
            &&& cols == 1
            &&& cursor_row == 0
            &&& cursor_col == 0
            &&& hide_cursor
            &&& !alternate_screen
            &&& mouse_mode == 0
            &&& !in_copy_mode
            &&& scroll_ratio is None
            &&& cursor_shape == 255
            &&& !active
            &&& rows_v2@.len() == 0
            &&& title is None
        },
        _ => false,
    })
}

/// The frame that stands for the end of a server.
pub fn exit_frame() -> (r: FrameData)
    ensures
        is_exit_frame(r),
{
    FrameData {
        frame_type: "frame".to_string(),
        layout: LayoutJson::Leaf {
            id: 0,
            rows: 1,
            cols: 1,
            cursor_row: 0,
            cursor_col: 0,
            hide_cursor: true,
            alternate_screen: false,
            mouse_mode: 0,
            in_copy_mode: false,
            scroll_ratio: None,
            cursor_shape: 255,
            active: false,
            rows_v2: Vec::new(),
            title: None,
        },
        status: None,
        ansi: None,
        exit: true,
        yank_text: None,
    }
}

/// Why a connection to a server was not made.
#[derive(Debug)]
pub enum ConnectError {
    /// The first frame could not be read.
    BadFrame(String),
    /// The server has nothing to show.
    NoSessions,
    /// No frame came.
    NoAnswer(String),
}

pub enum ConnectErrorV {
    BadFrame(Seq<char>),
    NoSessions,
    NoAnswer(Seq<char>),
}

impl View for ConnectError {
    type V = ConnectErrorV;

    open spec fn view(&self) -> ConnectErrorV {
        match *self {
            ConnectError::BadFrame(e) => ConnectErrorV::BadFrame(e@),
            ConnectError::NoSessions => ConnectErrorV::NoSessions,
            ConnectError::NoAnswer(e) => ConnectErrorV::NoAnswer(e@),
        }
    }
}

/// The words for it.
pub open spec fn connect_message(error: ConnectErrorV) -> Seq<char> {
    match error {
        ConnectErrorV::BadFrame(e) => "failed to decode first frame: "@ + e,
        ConnectErrorV::NoSessions => "server has no attachable sessions"@,
        ConnectErrorV::NoAnswer(e) => "server did not respond to first FRAME?: "@ + e,
    }
}

impl ConnectError {
    /// The words for it.
    pub fn message(&self) -> (r: String)
        ensures
            r@ == connect_message(self@),
    {
        match self {
            ConnectError::BadFrame(e) => {
                let mut out = "failed to decode first frame: ".to_string();
                out.append(e.as_str());
                out
            },
            ConnectError::NoSessions => "server has no attachable sessions".to_string(),
            ConnectError::NoAnswer(e) => {
                let mut out = "server did not respond to first FRAME?: ".to_string();
                out.append(e.as_str());
                out
            },
        }
    }
}

/// What came in answer to the first request for a frame.
#[derive(Debug)]
pub enum FirstAnswer {
    /// A frame, and the text that it was read from.
    Frame(FrameData, String),
    /// A text that is no frame, and why.
    Unreadable(String),
    /// Nothing, and why.
    Nothing(String),
}

/// What the reader of frames does next.
#[derive(Clone, Copy, Debug, PartialEq, Eq, Structural)]
pub enum PollStep {
    /// It asks for a frame at once.
    Ask,
    /// It waits a little, and asks then.
    Wait,
    /// It reads the text as a frame first.
    Decode,
    /// It ends.
    Stop,
}

/// A connection to a server.
#[derive(Debug)]
pub struct SocketClient {
    pub slot: FrameSlot,
    pub last_text: String,
    pub tree: Vec<SessionTreeEntry>,
    pub tree_refresh: bool,
    pub closed: bool,
    pub outbox: Vec<ControlWrite>,
}

/// What stays of a connection when only its outbox changes.
pub open spec fn same_but_outbox(a: SocketClient, b: SocketClient) -> bool {
    &&& a.slot == b.slot
    &&& a.last_text == b.last_text
    &&& a.tree == b.tree
    &&& a.tree_refresh == b.tree_refresh
    &&& a.closed == b.closed
}

/// What stays of a connection when only its frame changes.
pub open spec fn same_but_frame(a: SocketClient, b: SocketClient) -> bool {
    &&& a.tree == b.tree
    &&& a.tree_refresh == b.tree_refresh
    &&& a.closed == b.closed
    &&& a.outbox == b.outbox
}

/// The text that a frame keeps of what was copied: its own, or else that of the frame before it.
pub open spec fn kept_yank(new: Option<Seq<char>>, before: Option<FrameData>) -> Option<Seq<char>> {
    if new is Some {
        new
    } else {
        match before {
            Some(f) => commands::opt_text(f.yank_text),
            None => None,
        }
    }
}

/// Whether a frame is another one but for the text that was copied.
pub open spec fn same_but_yank(a: FrameData, b: FrameData) -> bool {
    &&& a.frame_type == b.frame_type
    &&& a.layout == b.layout
    &&& a.status == b.status
    &&& a.ansi == b.ansi
    &&& a.exit == b.exit
}

impl SocketClient {
    pub open spec fn sent(self) -> Seq<WriteV> {
        write_views(self.outbox@)
    }

    /// A connection whose server has answered, or why there is none.
    pub fn connect(answer: FirstAnswer) -> (r: Result<SocketClient, ConnectError>)
        ensures
            match answer {
                FirstAnswer::Frame(frame, text) => if frame.exit {
                    r matches Err(e) && e@ == ConnectErrorV::NoSessions
                } else {
                    r matches Ok(c) && c.slot.shown() == Some(frame) && c.slot.counter == 1
                        && c.last_text@ == text@ && c.tree@.len() == 0 && !c.tree_refresh
                        && !c.closed && c.sent().len() == 0
                },
                FirstAnswer::Unreadable(e) => r matches Err(x) && x@ == ConnectErrorV::BadFrame(
                    e@,
                ),
                FirstAnswer::Nothing(e) => r matches Err(x) && x@ == ConnectErrorV::NoAnswer(e@),
            },
    {
        match answer {
            FirstAnswer::Frame(frame, text) => {
                if frame.exit {
                    return Err(ConnectError::NoSessions);
                }
                Ok(
                    SocketClient {
                        slot: FrameSlot { frame: Some(Arc::new(frame)), counter: 1 },
                        last_text: text,
                        tree: Vec::new(),
                        tree_refresh: false,
                        closed: false,
                        outbox: Vec::new(),
                    },
                )
            },
            FirstAnswer::Unreadable(e) => Err(ConnectError::BadFrame(e)),
            FirstAnswer::Nothing(e) => Err(ConnectError::NoAnswer(e)),
        }
    }

    /// The frame that came last.
    pub fn latest_frame(&self) -> (r: Option<Arc<FrameData>>)
        ensures
            shared(r) == self.slot.shown(),
    {
        self.slot.snapshot().0
    }

    /// The frame that came last, and its number.
    pub fn frame_snapshot(&self) -> (r: (Option<Arc<FrameData>>, u64))
        ensures
            shared(r.0) == self.slot.shown(),
            r.1 == self.slot.counter,
    {
        self.slot.snapshot()
    }

    /// The end of the server noted: its last frame is the one that says so.
    pub fn store_exit_frame(&mut self)
        ensures
            final(self).slot.shown() matches Some(f) && is_exit_frame(f),
            final(self).slot.counter == next_number(old(self).slot.counter),
            same_but_frame(*final(self), *old(self)),
            final(self).last_text == old(self).last_text,
    {
        self.slot.publish(exit_frame());
    }

    /// The control connection broke: nothing more is sent, and the server counts as gone.
    pub fn control_failed(&mut self)
        ensures
            final(self).closed,
            final(self).slot.shown() matches Some(f) && is_exit_frame(f),
            final(self).slot.counter == next_number(old(self).slot.counter),
            final(self).last_text == old(self).last_text,
            final(self).tree == old(self).tree,
            final(self).tree_refresh == old(self).tree_refresh,
            final(self).outbox == old(self).outbox,
    {
        self.closed = true;
        self.slot.publish(exit_frame());
    }

    /// A text came in answer to a request for a frame. One like the last is not read again.
    pub fn poll_received(&mut self, text: &str) -> (r: PollStep)
        ensures
            final(self).slot == old(self).slot,
            same_but_frame(*final(self), *old(self)),
            if old(self).closed {
                r == PollStep::Stop && final(self).last_text == old(self).last_text
            } else if text@ == old(self).last_text@ {
                r == PollStep::Wait && final(self).last_text == old(self).last_text
            } else {
                r == PollStep::Decode && final(self).last_text@ == text@
            },
    {
        if self.closed {
            return PollStep::Stop;
        }
        if text::same_text(text, self.last_text.as_str()) {
            return PollStep::Wait;
        }
        self.last_text = text.to_string();
        PollStep::Decode
    }

    /// A text was read as a frame, or could not be.
    pub fn poll_decoded(&mut self, frame: Option<FrameData>) -> (r: PollStep)
        ensures
            r == PollStep::Wait,
            same_but_frame(*final(self), *old(self)),
            final(self).last_text == old(self).last_text,
            match frame {
                Some(fd) => {
                    &&& final(self).slot.counter == next_number(old(self).slot.counter)
                    &&& final(self).slot.shown() matches Some(f) && same_but_yank(f, fd)
                        && commands::opt_text(f.yank_text) == kept_yank(
                        commands::opt_text(fd.yank_text),
                        old(self).slot.shown(),
                    )
                },
                None => final(self).slot == old(self).slot,
            },
    {
        if let Some(frame) = frame {
            let mut frame = frame;
            if frame.yank_text.is_none() {
                if let Some(before) = &self.slot.frame {
                    if let Some(text) = &before.yank_text {
                        frame.yank_text = Some(text.clone());
                    }
                }
            }
            self.slot.publish(frame);
        }
        PollStep::Wait
    }

    /// No text came in answer to a request for a frame. A wait that took too long is no failure;
    /// anything else is the end of the server.
    pub fn poll_failed(&mut self, too_long: bool) -> (r: PollStep)
        ensures
            same_but_frame(*final(self), *old(self)),
            final(self).last_text == old(self).last_text,
            if old(self).closed {
                r == PollStep::Stop && final(self).slot == old(self).slot
            } else if too_long {
                r == PollStep::Ask && final(self).slot == old(self).slot
            } else {
                r == PollStep::Stop && final(self).slot.counter == next_number(
                    old(self).slot.counter,
                ) && (final(self).slot.shown() matches Some(f) && is_exit_frame(f))
            },
    {
        if self.closed {
            PollStep::Stop
        } else if too_long {
            PollStep::Ask
        } else {
            self.slot.publish(exit_frame());
            PollStep::Stop
        }
    }

    /// Has a line sent.
    pub fn send_line(&mut self, line: &str)
        ensures
            final(self).sent() == old(self).sent().push(WriteV::Line(line@)),
            same_but_outbox(*final(self), *old(self)),
    {
        self.send(ControlWrite::Line(line.to_string()));
    }

    fn send(&mut self, write: ControlWrite)
        ensures
            final(self).sent() == old(self).sent().push(write@),
            same_but_outbox(*final(self), *old(self)),
    {
        let ghost before = self.outbox@;
        self.outbox.push(write);
        proof {
            assert(write_views(self.outbox@) =~= write_views(before).push(write@));
        }
    }

    /// Takes out what is to be sent.
    pub fn take_outbox(&mut self) -> (r: Vec<ControlWrite>)
        ensures
            r@ == old(self).outbox@,
            final(self).sent().len() == 0,
            same_but_outbox(*final(self), *old(self)),
    {
        let mut out: Vec<ControlWrite> = Vec::new();
        std::mem::swap(&mut out, &mut self.outbox);
        out
    }

    /// Sends input to the active pane; nothing, where there is none.
    pub fn send_input(&mut self, bytes: &[u8])
        ensures
            final(self).sent() == (if bytes@.len() == 0 {
                old(self).sent()
            } else {
                old(self).sent().push(WriteV::Input(bytes@))
            }),
            same_but_outbox(*final(self), *old(self)),
    {
        if bytes.len() > 0 {
            self.send(ControlWrite::Input(vstd::slice::slice_to_vec(bytes)));
        }
    }

    /// Sends a command.
    pub fn run_command(&mut self, cmd: &str)
        ensures
            final(self).sent() == old(self).sent().push(WriteV::Line("CMD "@ + cmd@)),
            same_but_outbox(*final(self), *old(self)),
    {
        let mut line = "CMD ".to_string();
        line.append(cmd);
        self.send_line(line.as_str());
    }

    /// Tells the server its size.
    pub fn resize(&mut self, size: Size)
        ensures
            final(self).sent() == old(self).sent().push(
                WriteV::Line("RESIZE "@ + wire::size_text(size)),
            ),
            same_but_outbox(*final(self), *old(self)),
    {
        let mut line = "RESIZE ".to_string();
        wire::push_size(&mut line, size);
        self.send_line(line.as_str());
    }

    /// Shows or hides the borders of panes.
    pub fn set_hide_borders(&mut self, hide: bool)
        ensures
            final(self).sent() == old(self).sent().push(
                WriteV::Line(
                    if hide {
                        "HIDE_BORDERS 1"@
                    } else {
                        "HIDE_BORDERS 0"@
                    },
                ),
            ),
            same_but_outbox(*final(self), *old(self)),
    {
        self.send_line(
            if hide {
                "HIDE_BORDERS 1"
            } else {
                "HIDE_BORDERS 0"
            },
        );
    }

    /// Has erased text scrolled out, or not.
    pub fn set_scroll_on_erase_in_display(&mut self, enabled: bool)
        ensures
            final(self).sent() == old(self).sent().push(
                WriteV::Line(
                    if enabled {
                        "OPTION scroll_on_erase_in_display 1"@
                    } else {
                        "OPTION scroll_on_erase_in_display 0"@
                    },
                ),
            ),
            same_but_outbox(*final(self), *old(self)),
    {
        self.send_line(
            if enabled {
                "OPTION scroll_on_erase_in_display 1"
            } else {
                "OPTION scroll_on_erase_in_display 0"
            },
        );
    }

    /// A connection always has something to show.
    pub fn is_empty(&self) -> (r: bool)
        ensures
            !r,
    {
        false
    }

    /// Ends the connection.
    pub fn shutdown(&mut self)
        ensures
            final(self).closed,
            final(self).slot == old(self).slot,
            final(self).last_text == old(self).last_text,
            final(self).tree == old(self).tree,
            final(self).tree_refresh == old(self).tree_refresh,
            final(self).outbox == old(self).outbox,
    {
        self.closed = true;
    }

    /// Takes leave of the server.
    pub fn detach(&mut self)
        ensures
            final(self).sent() == old(self).sent().push(WriteV::Line("CMD detach"@)),
            final(self).closed,
            final(self).slot == old(self).slot,
            final(self).last_text == old(self).last_text,
            final(self).tree == old(self).tree,
            final(self).tree_refresh == old(self).tree_refresh,
    {
        self.send_line("CMD detach");
        self.shutdown();
    }

    /// The name of the active window.
    pub fn active_window_name(&self) -> (r: String)
        ensures
            r@ == keyboard::window_name_in(self.slot.shown()),
    {
        match &self.slot.frame {
            Some(f) => keyboard::active_window_name(Some(&**f)),
            None => keyboard::active_window_name(None),
        }
    }

    /// The name of the session.
    pub fn session_name(&self) -> (r: String)
        ensures
            r@ == keyboard::session_name_in(self.slot.shown()),
    {
        match &self.slot.frame {
            Some(f) => keyboard::session_name(Some(&**f)),
            None => keyboard::session_name(None),
        }
    }

    /// The tree of sessions as the server told it last.
    pub fn session_tree(&self) -> (r: &Vec<SessionTreeEntry>)
        ensures
            r == self.tree,
    {
        &self.tree
    }

    /// Has the tree of sessions asked for at once.
    pub fn refresh_session_tree(&mut self)
        ensures
            final(self).tree_refresh,
            final(self).slot == old(self).slot,
            final(self).last_text == old(self).last_text,
            final(self).tree == old(self).tree,
            final(self).closed == old(self).closed,
            final(self).outbox == old(self).outbox,
    {
        self.tree_refresh = true;
    }

    /// Whether the tree was asked for at once; the next time it is not.
    pub fn take_tree_refresh(&mut self) -> (r: bool)
        ensures
            r == old(self).tree_refresh,
            !final(self).tree_refresh,
            final(self).slot == old(self).slot,
            final(self).last_text == old(self).last_text,
            final(self).tree == old(self).tree,
            final(self).closed == old(self).closed,
            final(self).outbox == old(self).outbox,
    {
        let asked: bool = self.tree_refresh;
        self.tree_refresh = false;
        asked
    }

    /// Keeps the tree of sessions that the server answers with.
    pub fn keep_tree(&mut self, json: &str)
        ensures
            session_tree::tree_views(final(self).tree@) == session_tree::told_tree(json::json_document(json@)),
            final(self).slot == old(self).slot,
            final(self).last_text == old(self).last_text,
            final(self).tree_refresh == old(self).tree_refresh,
            final(self).closed == old(self).closed,
            final(self).outbox == old(self).outbox,
    {
        self.tree = session_tree::parse_session_tree_json(json);
    }

    /// Whether a server's answer about its options says that erased text is scrolled out.
    pub fn scroll_on_erase_in_display(answer: &str) -> (r: bool)
        ensures
            r == erase_scrolls(json::json_document(answer@)),
    {
        erase_scrolls_in(json::read_json(answer))
    }

    /// Asks for everything to be drawn anew.
    pub fn refresh_display(&mut self)
        ensures
            final(self).sent() == old(self).sent().push(WriteV::Line("REFRESH_FRAME"@)),
            same_but_outbox(*final(self), *old(self)),
    {
        self.send_line("REFRESH_FRAME");
    }

    /// Goes to the end of what was scrolled out.
    pub fn scroll_display_bottom(&mut self)
        ensures
            final(self).sent() == old(self).sent().push(WriteV::Line("SCROLL_DISPLAY bottom"@)),
            same_but_outbox(*final(self), *old(self)),
    {
        self.send_line("SCROLL_DISPLAY bottom");
    }

    /// Leaves copy mode.
    pub fn exit_copy_mode(&mut self)
        ensures
            final(self).sent() == old(self).sent().push(WriteV::Line("COPY_KEY exit"@)),
            same_but_outbox(*final(self), *old(self)),
    {
        self.send_line("COPY_KEY exit");
    }

    /// Drops the selection in copy mode.
    pub fn copy_clear_selection(&mut self)
        ensures
            final(self).sent() == old(self).sent().push(WriteV::Line("COPY_KEY clear_sel"@)),
            same_but_outbox(*final(self), *old(self)),
    {
        self.send_line("COPY_KEY clear_sel");
    }

    /// Scrolls up by so many lines.
    pub fn scroll_up(&mut self, lines: usize)
        ensures
            final(self).sent() == old(self).sent().push(WriteV::Line("SCROLL up "@ + text::decimal(lines as nat))),
            same_but_outbox(*final(self), *old(self)),
    {
        let mut line = "SCROLL up ".to_string();
        text::push_decimal(&mut line, lines as u64);
        self.send_line(line.as_str());
    }

    /// Scrolls down by so many lines.
    pub fn scroll_down(&mut self, lines: usize)
        ensures
            final(self).sent() == old(self).sent().push(WriteV::Line("SCROLL down "@ + text::decimal(lines as nat))),
            same_but_outbox(*final(self), *old(self)),
    {
        let mut line = "SCROLL down ".to_string();
        text::push_decimal(&mut line, lines as u64);
        self.send_line(line.as_str());
    }

    /// Scrolls a pane.
    pub fn scroll_pane(&mut self, pane_id: usize, direction: &str, lines: usize)
        ensures
            final(self).sent() == old(self).sent().push(WriteV::Line(
                    "SCROLL "@ + direction@ + " "@ + text::decimal(lines as nat) + " %"@ + text::decimal(
                        pane_id as nat,
                    ),
                )),
            same_but_outbox(*final(self), *old(self)),
    {
        let mut line = "SCROLL ".to_string();
        line.append(direction);
        line.append(" ");
        text::push_decimal(&mut line, lines as u64);
        line.append(" %");
        text::push_decimal(&mut line, pane_id as u64);
        self.send_line(line.as_str());
    }

    /// Scrolls what was scrolled out.
    pub fn scroll_display(&mut self, delta: i32)
        ensures
            final(self).sent() == old(self).sent().push(WriteV::Line("SCROLL_DISPLAY "@ + signed(delta as int))),
            same_but_outbox(*final(self), *old(self)),
    {
        let mut line = "SCROLL_DISPLAY ".to_string();
        if delta < 0 {
            line.append("-");
            text::push_decimal(&mut line, -(delta as i64) as u64);
        } else {
            text::push_decimal(&mut line, delta as u64);
        }
        proof {
            assert(line@ =~= "SCROLL_DISPLAY "@ + signed(delta as int));
        }
        self.send_line(line.as_str());
    }

    /// Enters copy mode.
    pub fn enter_copy_mode(&mut self) -> (r: bool)
        ensures
            r,
            final(self).sent() == old(self).sent().push(WriteV::Line("CMD copy-mode"@)),
            same_but_outbox(*final(self), *old(self)),
    {
        self.send_line("CMD copy-mode");
        true
    }

    /// Moves in copy mode.
    pub fn copy_move_left(&mut self)
        ensures
            final(self).sent() == old(self).sent().push(WriteV::Line(wire::copy_word(CopyKey::Left))),
            same_but_outbox(*final(self), *old(self)),
    {
        self.send_line(wire::copy_line(CopyKey::Left));
    }

    /// Moves in copy mode.
    pub fn copy_move_right(&mut self)
        ensures
            final(self).sent() == old(self).sent().push(WriteV::Line(wire::copy_word(CopyKey::Right))),
            same_but_outbox(*final(self), *old(self)),
    {
        self.send_line(wire::copy_line(CopyKey::Right));
    }

    /// Moves in copy mode.
    pub fn copy_move_up(&mut self)
        ensures
            final(self).sent() == old(self).sent().push(WriteV::Line(wire::copy_word(CopyKey::Up))),
            same_but_outbox(*final(self), *old(self)),
    {
        self.send_line(wire::copy_line(CopyKey::Up));
    }

    /// Moves in copy mode.
    pub fn copy_move_down(&mut self)
        ensures
            final(self).sent() == old(self).sent().push(WriteV::Line(wire::copy_word(CopyKey::Down))),
            same_but_outbox(*final(self), *old(self)),
    {
        self.send_line(wire::copy_line(CopyKey::Down));
    }

    /// Moves in copy mode.
    pub fn copy_page_up(&mut self)
        ensures
            final(self).sent() == old(self).sent().push(WriteV::Line(wire::copy_word(CopyKey::PageUp))),
            same_but_outbox(*final(self), *old(self)),
    {
        self.send_line(wire::copy_line(CopyKey::PageUp));
    }

    /// Moves in copy mode.
    pub fn copy_page_down(&mut self)
        ensures
            final(self).sent() == old(self).sent().push(WriteV::Line(wire::copy_word(CopyKey::PageDown))),
            same_but_outbox(*final(self), *old(self)),
    {
        self.send_line(wire::copy_line(CopyKey::PageDown));
    }

    /// Moves in copy mode.
    pub fn copy_move_to_top(&mut self)
        ensures
            final(self).sent() == old(self).sent().push(WriteV::Line(wire::copy_word(CopyKey::Top))),
            same_but_outbox(*final(self), *old(self)),
    {
        self.send_line(wire::copy_line(CopyKey::Top));
    }

    /// Moves in copy mode.
    pub fn copy_move_to_bottom(&mut self)
        ensures
            final(self).sent() == old(self).sent().push(WriteV::Line(wire::copy_word(CopyKey::Bottom))),
            same_but_outbox(*final(self), *old(self)),
    {
        self.send_line(wire::copy_line(CopyKey::Bottom));
    }

    /// Moves in copy mode.
    pub fn copy_move_to_line_start(&mut self)
        ensures
            final(self).sent() == old(self).sent().push(WriteV::Line(wire::copy_word(CopyKey::LineStart))),
            same_but_outbox(*final(self), *old(self)),
    {
        self.send_line(wire::copy_line(CopyKey::LineStart));
    }

    /// Moves in copy mode.
    pub fn copy_move_to_line_end(&mut self)
        ensures
            final(self).sent() == old(self).sent().push(WriteV::Line(wire::copy_word(CopyKey::LineEnd))),
            same_but_outbox(*final(self), *old(self)),
    {
        self.send_line(wire::copy_line(CopyKey::LineEnd));
    }

    /// Moves in copy mode.
    pub fn copy_move_word_backward(&mut self)
        ensures
            final(self).sent() == old(self).sent().push(WriteV::Line(wire::copy_word(CopyKey::WordBackward))),
            same_but_outbox(*final(self), *old(self)),
    {
        self.send_line(wire::copy_line(CopyKey::WordBackward));
    }

    /// Moves in copy mode.
    pub fn copy_move_word_forward(&mut self)
        ensures
            final(self).sent() == old(self).sent().push(WriteV::Line(wire::copy_word(CopyKey::WordForward))),
            same_but_outbox(*final(self), *old(self)),
    {
        self.send_line(wire::copy_line(CopyKey::WordForward));
    }

    /// Moves in copy mode.
    pub fn copy_move_word_end(&mut self)
        ensures
            final(self).sent() == old(self).sent().push(WriteV::Line(wire::copy_word(CopyKey::WordEnd))),
            same_but_outbox(*final(self), *old(self)),
    {
        self.send_line(wire::copy_line(CopyKey::WordEnd));
    }

    /// Begins a selection in copy mode.
    pub fn copy_start_selection(&mut self, mode: SelectionMode)
        ensures
            final(self).sent() == old(self).sent().push(WriteV::Line(wire::copy_word(CopyKey::Select(mode)))),
            same_but_outbox(*final(self), *old(self)),
    {
        self.send_line(wire::copy_line(CopyKey::Select(mode)));
    }

    /// Searches in copy mode.
    pub fn copy_search(&mut self, query: String, forward: bool) -> (r: bool)
        ensures
            r,
            final(self).sent() == old(self).sent().push(WriteV::Line(
                    "COPY_SEARCH "@ + (if forward {
                        "fwd "@
                    } else {
                        "bwd "@
                    }) + query@,
                )),
            same_but_outbox(*final(self), *old(self)),
    {
        let mut line = "COPY_SEARCH ".to_string();
        line.append(
            if forward {
                "fwd "
            } else {
                "bwd "
            },
        );
        line.append(query.as_str());
        self.send_line(line.as_str());
        true
    }

    /// Searches on in copy mode.
    pub fn copy_search_next(&mut self) -> (r: bool)
        ensures
            r,
            final(self).sent() == old(self).sent().push(WriteV::Line(wire::copy_word(CopyKey::SearchNext))),
            same_but_outbox(*final(self), *old(self)),
    {
        self.send_line(wire::copy_line(CopyKey::SearchNext));
        true
    }

    /// Searches on in copy mode.
    pub fn copy_search_prev(&mut self) -> (r: bool)
        ensures
            r,
            final(self).sent() == old(self).sent().push(WriteV::Line(wire::copy_word(CopyKey::SearchPrev))),
            same_but_outbox(*final(self), *old(self)),
    {
        self.send_line(wire::copy_line(CopyKey::SearchPrev));
        true
    }
}

/// A number with its sign.
pub open spec fn signed(n: int) -> Seq<char> {
    if n < 0 {
        "-"@ + text::decimal((-n) as nat)
    } else {
        text::decimal(n as nat)
    }
}

/// Whether a document about options says that erased text is scrolled out.
pub open spec fn erase_scrolls(document: Option<DocumentV>) -> bool {
    match document {
        Some(DocumentV::Single(members)) => json::flag_member(members, "scroll_on_erase_in_display"@)
            == Some(true),
        _ => false,
    }
}

/// Whether a document about options says that erased text is scrolled out.
pub fn erase_scrolls_in(document: Option<Document>) -> (r: bool)
    ensures
        r == erase_scrolls(json::document_view(document)),
{
    match document {
        Some(Document::Single(members)) => match json::flag_of(&members, "scroll_on_erase_in_display") {
            Some(b) => b,
            None => false,
        },
        _ => false,
    }
}

/// The line that asks for what a command prints.
pub fn output_request(cmd: &str) -> (r: String)
    ensures
        r@ == "CMD_OUTPUT "@ + cmd@ + "\n"@,
{
    let mut out = "CMD_OUTPUT ".to_string();
    out.append(cmd);
    out.append("\n");
    out
}

/// What came of an attempt to end a server.
#[derive(Clone, Copy, Debug, PartialEq, Eq, Structural)]
pub enum KillAttempt {
    Done,
    /// The server speaks another language.
    Incompatible,
    Failed,
}

/// Whether a server is to be taken for ended, so that what is left of it is cleared away. One that
/// did not answer is asked for once more.
pub fn kill_verdict(attempt: KillAttempt, reachable: bool) -> (r: bool)
    ensures
        r == (attempt == KillAttempt::Done || (attempt == KillAttempt::Failed && !reachable)),
{
    match attempt {
        KillAttempt::Done => true,
        KillAttempt::Incompatible => false,
        KillAttempt::Failed => !reachable,
    }
}

/// What the reader of trees has got to.
#[derive(Clone, Copy, Debug, PartialEq, Eq, Structural)]
pub enum TreePoll {
    /// It has no connection.
    Apart,
    /// It has a connection, and asks next.
    Ready,
    /// It waits so many times yet before it asks again.
    Waiting(u8),
}

/// What happened to the reader of trees.
#[derive(Clone, Copy, Debug, PartialEq, Eq, Structural)]
pub enum TreeEvent {
    Connected,
    NotConnected { incompatible: bool },
    Answered,
    Broken,
    /// It looked whether it is to ask at once.
    Looked { refresh: bool },
    Waited,
}

/// What the reader of trees does next, and how many milliseconds it waits before.
#[derive(Clone, Copy, Debug, PartialEq, Eq, Structural)]
pub enum TreeStep {
    Connect { wait: u64 },
    Ask,
    /// It looks whether it is to ask at once.
    Look,
    Wait { wait: u64 },
    Stop,
}

/// The reader of trees takes a step.
pub open spec fn tree_polled(state: TreePoll, event: TreeEvent, closed: bool, remote: bool) -> (
    TreePoll,
    TreeStep,
) {
    if closed {
        (state, TreeStep::Stop)
    } else {
        match event {
            TreeEvent::Connected => (TreePoll::Ready, TreeStep::Ask),
            TreeEvent::NotConnected { incompatible } => if incompatible {
                (TreePoll::Apart, TreeStep::Stop)
            } else {
                (TreePoll::Apart, TreeStep::Connect { wait: 500 })
            },
            TreeEvent::Broken => (TreePoll::Apart, TreeStep::Connect { wait: 250 }),
            TreeEvent::Answered => (
                TreePoll::Waiting(
                    if remote {
                        15
                    } else {
                        3
                    },
                ),
                TreeStep::Look,
            ),
            TreeEvent::Looked { refresh } => if refresh {
                (TreePoll::Ready, TreeStep::Ask)
            } else {
                (state, TreeStep::Wait { wait: 100 })
            },
            TreeEvent::Waited => match state {
                TreePoll::Waiting(n) => if n <= 1 {
                    (TreePoll::Ready, TreeStep::Ask)
                } else {
                    (TreePoll::Waiting((n - 1) as u8), TreeStep::Look)
                },
                _ => (TreePoll::Ready, TreeStep::Ask),
            },
        }
    }
}

/// The reader of trees takes a step.
pub fn poll_session_tree(state: TreePoll, event: TreeEvent, closed: bool, remote: bool) -> (r: (
    TreePoll,
    TreeStep,
))
    ensures
        r == tree_polled(state, event, closed, remote),
{
    if closed {
        return (state, TreeStep::Stop);
    }
    match event {
        TreeEvent::Connected => (TreePoll::Ready, TreeStep::Ask),
        TreeEvent::NotConnected { incompatible } => {
            if incompatible {
                (TreePoll::Apart, TreeStep::Stop)
            } else {
                (TreePoll::Apart, TreeStep::Connect { wait: 500 })
            }
        },
        TreeEvent::Broken => (TreePoll::Apart, TreeStep::Connect { wait: 250 }),
        TreeEvent::Answered => {
            let n: u8 = if remote {
                15
            } else {
                3
            };
            (TreePoll::Waiting(n), TreeStep::Look)
        },
        TreeEvent::Looked { refresh } => {
            if refresh {
                (TreePoll::Ready, TreeStep::Ask)
            } else {
                (state, TreeStep::Wait { wait: 100 })
            }
        },
        TreeEvent::Waited => match state {
            TreePoll::Waiting(n) => {
                if n <= 1 {
                    (TreePoll::Ready, TreeStep::Ask)
                } else {
                    (TreePoll::Waiting(n - 1), TreeStep::Look)
                }
            },
            _ => (TreePoll::Ready, TreeStep::Ask),
        },
    }
}

} // verus!
