//! What a server receives of the client's requests, letter by letter.

use crate::client::errands;
use crate::text;
use crate::wire;
use crate::client::actions::{CopyKey, OutputUse, RequestV};
use crate::client::errands::ErrandV;
use crate::copy_mode::model::SelectionMode;
use crate::geometry::Size;
use crate::socket::WriteV;
use vstd::prelude::*;

verus! {

/// Whether a request sends one line and nothing else.
pub open spec fn sends(request: RequestV, line: Seq<char>) -> bool {
    errands::request_writes(request) == seq![WriteV::Line(line)]
}

/// A command is sent behind `CMD`, word for word; leaving and copy mode are commands too.
pub proof fn law_commands_go_behind_cmd(command: Seq<char>)
    ensures
        sends(RequestV::Command(command), seq!['C', 'M', 'D', ' '] + command),
        sends(RequestV::Detach, "CMD detach"@),
        sends(RequestV::EnterCopyMode, "CMD copy-mode"@),
        errands::request_errand(RequestV::Command(command)) is None,
        errands::request_errand(RequestV::Detach) is None,
{
    reveal_strlit("CMD ");
    assert("CMD "@ =~= seq!['C', 'M', 'D', ' ']);
}

/// Typed input goes as it is, and nothing goes for no input.
pub proof fn law_input_goes_as_it_is(bytes: Seq<u8>)
    ensures
        bytes.len() > 0 ==> errands::request_writes(RequestV::Input(bytes)) == seq![WriteV::Input(bytes)],
        bytes.len() == 0 ==> errands::request_writes(RequestV::Input(bytes)).len() == 0,
        errands::request_errand(RequestV::Input(bytes)) is None,
{
}

/// A size is sent as rows, columns and the place of the panes' corner.
pub proof fn law_size_goes_rows_first(size: Size)
    ensures
        sends(
            RequestV::Resize(size),
            "RESIZE "@ + text::decimal(size.rows as nat) + seq!['x'] + text::decimal(size.cols as nat) + seq![
                '+',
            ] + text::decimal(size.x as nat) + seq!['+'] + text::decimal(size.y as nat),
        ),
        wire::attach_text(size, true) == "ATTACH\n"@ + text::decimal(size.rows as nat) + seq!['x'] + text::decimal(
            size.cols as nat,
        ) + seq!['+'] + text::decimal(size.x as nat) + seq!['+'] + text::decimal(size.y as nat)
            + "\nFRAME?\n"@,
{
    reveal_strlit("x");
    reveal_strlit("+");
    assert("x"@ =~= seq!['x']);
    assert("+"@ =~= seq!['+']);
    let d = text::decimal(size.rows as nat) + "x"@ + text::decimal(size.cols as nat) + "+"@ + text::decimal(
        size.x as nat,
    ) + "+"@ + text::decimal(size.y as nat);
    assert("RESIZE "@ + d =~= "RESIZE "@ + text::decimal(size.rows as nat) + seq!['x'] + text::decimal(
        size.cols as nat,
    ) + seq!['+'] + text::decimal(size.x as nat) + seq!['+'] + text::decimal(size.y as nat));
    assert("ATTACH\n"@ + d + "\nFRAME?\n"@ =~= "ATTACH\n"@ + text::decimal(size.rows as nat) + seq!['x']
        + text::decimal(size.cols as nat) + seq!['+'] + text::decimal(size.x as nat) + seq!['+'] + text::decimal(
        size.y as nat,
    ) + "\nFRAME?\n"@);
}

/// What is turned on and off goes with a one or a nought.
pub proof fn law_switches_go_as_numbers(on: bool)
    ensures
        sends(
            RequestV::HideBorders(on),
            if on {
                "HIDE_BORDERS 1"@
            } else {
                "HIDE_BORDERS 0"@
            },
        ),
        sends(
            RequestV::EraseScroll(on),
            if on {
                "OPTION scroll_on_erase_in_display 1"@
            } else {
                "OPTION scroll_on_erase_in_display 0"@
            },
        ),
{
}

/// The wheel scrolls three lines up or down, the pane that is named or the active one.
pub proof fn law_wheel_scrolls_three_lines(up: bool, pane: usize)
    ensures
        sends(
            RequestV::Scroll { up, pane: Some(pane) },
            (if up {
                "SCROLL up 3 %"@
            } else {
                "SCROLL down 3 %"@
            }) + text::decimal(pane as nat),
        ),
        sends(
            RequestV::Scroll { up, pane: None },
            if up {
                "SCROLL up 3"@
            } else {
                "SCROLL down 3"@
            },
        ),
{
    reveal_strlit("SCROLL ");
    reveal_strlit("up");
    reveal_strlit("down");
    reveal_strlit(" ");
    reveal_strlit(" %");
    reveal_strlit("SCROLL up ");
    reveal_strlit("SCROLL down ");
    reveal_strlit("SCROLL up 3 %");
    reveal_strlit("SCROLL down 3 %");
    reveal_strlit("SCROLL up 3");
    reveal_strlit("SCROLL down 3");
    assert(text::decimal(3) =~= seq!['3']);
    let word = errands::direction_word(up);
    let line = if up {
        "SCROLL up 3 %"@
    } else {
        "SCROLL down 3 %"@
    };
    assert("SCROLL "@ + word + " "@ + text::decimal(3) + " %"@ + text::decimal(pane as nat) =~= line + text::decimal(
        pane as nat,
    ));
    assert((if up {
        "SCROLL up "@
    } else {
        "SCROLL down "@
    }) + text::decimal(3) =~= (if up {
        "SCROLL up 3"@
    } else {
        "SCROLL down 3"@
    }));
}

/// A search is sent with its direction and its text, and counts as answered.
pub proof fn law_search_goes_with_its_direction(text: Seq<char>, forward: bool)
    ensures
        sends(
            RequestV::Search { text, forward },
            (if forward {
                "COPY_SEARCH fwd "@
            } else {
                "COPY_SEARCH bwd "@
            }) + text,
        ),
{
    reveal_strlit("COPY_SEARCH ");
    reveal_strlit("fwd ");
    reveal_strlit("bwd ");
    reveal_strlit("COPY_SEARCH fwd ");
    reveal_strlit("COPY_SEARCH bwd ");
    assert("COPY_SEARCH "@ + "fwd "@ =~= "COPY_SEARCH fwd "@);
    assert("COPY_SEARCH "@ + "bwd "@ =~= "COPY_SEARCH bwd "@);
}

/// The other requests that are one line, and the lines.
pub proof fn law_plain_lines()
    ensures
        sends(RequestV::RefreshDisplay, "REFRESH_FRAME"@),
        sends(RequestV::DisplayBottom, "SCROLL_DISPLAY bottom"@),
        sends(RequestV::ExitCopyMode, "COPY_KEY exit"@),
        sends(RequestV::Copy(CopyKey::Left), "COPY_KEY left"@),
        sends(RequestV::Copy(CopyKey::Right), "COPY_KEY right"@),
        sends(RequestV::Copy(CopyKey::Up), "COPY_KEY up"@),
        sends(RequestV::Copy(CopyKey::Down), "COPY_KEY down"@),
        sends(RequestV::Copy(CopyKey::PageUp), "COPY_KEY page_up"@),
        sends(RequestV::Copy(CopyKey::PageDown), "COPY_KEY page_down"@),
        sends(RequestV::Copy(CopyKey::Top), "COPY_KEY top"@),
        sends(RequestV::Copy(CopyKey::Bottom), "COPY_KEY bottom"@),
        sends(RequestV::Copy(CopyKey::LineStart), "COPY_KEY line_start"@),
        sends(RequestV::Copy(CopyKey::LineEnd), "COPY_KEY line_end"@),
        sends(RequestV::Copy(CopyKey::WordBackward), "COPY_KEY word_back"@),
        sends(RequestV::Copy(CopyKey::WordForward), "COPY_KEY word_fwd"@),
        sends(RequestV::Copy(CopyKey::WordEnd), "COPY_KEY word_end"@),
        sends(RequestV::Copy(CopyKey::Select(SelectionMode::Char)), "COPY_KEY sel_char"@),
        sends(RequestV::Copy(CopyKey::Select(SelectionMode::Line)), "COPY_KEY sel_line"@),
        sends(RequestV::Copy(CopyKey::Select(SelectionMode::Rect)), "COPY_KEY sel_rect"@),
        sends(RequestV::Copy(CopyKey::SearchNext), "COPY_SEARCH_NEXT"@),
        sends(RequestV::Copy(CopyKey::SearchPrev), "COPY_SEARCH_PREV"@),
{
}

/// What is asked on the side sends no line of its own and is left to do as it was asked.
pub proof fn law_questions_are_left_to_do(
    text: Seq<char>,
    command: Seq<char>,
    purpose: OutputUse,
)
    ensures
        errands::request_errand(RequestV::Paste(text)) == Some(ErrandV::Paste(text)),
        errands::request_errand(RequestV::Yank) == Some(ErrandV::Yank),
        errands::request_errand(RequestV::PasteCloud) == Some(ErrandV::PasteCloud),
        errands::request_errand(RequestV::Output { command, purpose }) == Some(
            ErrandV::Output { command, purpose },
        ),
        errands::request_errand(RequestV::AskEraseScroll) == Some(ErrandV::Options),
        errands::request_writes(RequestV::Paste(text)).len() == 0,
        errands::request_writes(RequestV::Yank).len() == 0,
        errands::request_writes(RequestV::PasteCloud).len() == 0,
        errands::request_writes(RequestV::Output { command, purpose }).len() == 0,
        errands::request_writes(RequestV::AskEraseScroll).len() == 0,
{
}

/// Every byte is written as two digits of the sixteen, the higher one first.
pub proof fn law_hexadecimal_digits(bytes: Seq<u8>)
    ensures
        wire::hex(bytes).len() == 2 * bytes.len(),
        forall|i: int|
            0 <= i < bytes.len() ==> #[trigger] wire::hex(bytes)[2 * i] == "0123456789abcdef"@[bytes[i]
                as int / 16] && wire::hex(bytes)[2 * i + 1] == "0123456789abcdef"@[bytes[i] as int % 16],
    decreases bytes.len(),
{
    reveal_strlit("0123456789abcdef");
    if bytes.len() > 0 {
        law_hexadecimal_digits(bytes.drop_last());
        let front = wire::hex(bytes.drop_last());
        let last = bytes.len() - 1;
        assert forall|i: int| 0 <= i < bytes.len() implies #[trigger] wire::hex(bytes)[2 * i]
            == "0123456789abcdef"@[bytes[i] as int / 16] && wire::hex(bytes)[2 * i + 1]
            == "0123456789abcdef"@[bytes[i] as int % 16] by {
            if i < last {
                assert(wire::hex(bytes)[2 * i] == front[2 * i]);
                assert(wire::hex(bytes)[2 * i + 1] == front[2 * i + 1]);
                assert(bytes.drop_last()[i] == bytes[i]);
            } else {
                assert(0 <= bytes[i] as int / 16 < 16);
                assert(0 <= bytes[i] as int % 16 < 16);
            }
        }
    }
}

/// Every line of input begins with its name, and no line holds more than 4096 bytes.
pub proof fn law_input_lines_are_named(bytes: Seq<u8>)
    ensures
        forall|i: int|
            0 <= i < wire::input_lines(bytes).len() ==> {
                &&& (#[trigger] wire::input_lines(bytes)[i]).len() <= 6 + 2 * 4096
                &&& wire::input_lines(bytes)[i].len() > 6
                &&& wire::input_lines(bytes)[i].take(6) == seq!['I', 'N', 'P', 'U', 'T', ' ']
            },
    decreases bytes.len(),
{
    if bytes.len() > 0 {
        let n: int = if bytes.len() < 4096 {
            bytes.len() as int
        } else {
            4096
        };
        reveal_strlit("INPUT ");
        let first = "INPUT "@ + wire::hex(bytes.take(n));
        law_hexadecimal_digits(bytes.take(n));
        law_input_lines_are_named(bytes.skip(n));
        assert(first.take(6) =~= seq!['I', 'N', 'P', 'U', 'T', ' ']);
        let lines = wire::input_lines(bytes);
        assert(lines == seq![first] + wire::input_lines(bytes.skip(n)));
        assert forall|i: int| 0 <= i < lines.len() implies {
            &&& (#[trigger] lines[i]).len() <= 6 + 2 * 4096
            &&& lines[i].len() > 6
            &&& lines[i].take(6) == seq!['I', 'N', 'P', 'U', 'T', ' ']
        } by {
            if i > 0 {
                assert(lines[i] == wire::input_lines(bytes.skip(n))[i - 1]);
            }
        }
    }
}

} // verus!
