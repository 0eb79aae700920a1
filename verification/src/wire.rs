//! The lines that are sent to a server.

use crate::commands;
use crate::text;
use crate::client::actions::CopyKey;
use crate::copy_mode::model::SelectionMode;
use crate::geometry::Size;
use vstd::prelude::*;

verus! {

/// How many bytes of input one line carries at most.
pub const INPUT_CHUNK_SIZE: usize = 4096;

/// The hexadecimal digit that stands for a number below sixteen.
pub open spec fn hex_digit(n: int) -> char {
    if n < 10 {
        (48 + n) as char
    } else {
        (87 + n) as char
    }
}

/// The number that a hexadecimal digit stands for.
pub open spec fn hex_number(c: char) -> int {
    if c as int >= 97 {
        c as int - 87
    } else {
        c as int - 48
    }
}

/// Bytes in hexadecimal notation, two digits each.
pub open spec fn hex(bytes: Seq<u8>) -> Seq<char>
    decreases bytes.len(),
{
    if bytes.len() == 0 {
        Seq::empty()
    } else {
        hex(bytes.drop_last()).push(hex_digit(bytes.last() as int / 16)).push(
            hex_digit(bytes.last() as int % 16),
        )
    }
}

/// The bytes that a hexadecimal notation stands for.
pub open spec fn unhex(s: Seq<char>) -> Seq<u8>
    decreases s.len(),
{
    if s.len() < 2 {
        Seq::empty()
    } else {
        let n = s.len() as int;
        unhex(s.take(n - 2)).push((hex_number(s[n - 2]) * 16 + hex_number(s[n - 1])) as u8)
    }
}

proof fn lemma_hex_digit(n: int)
    requires
        0 <= n < 16,
    ensures
        hex_number(hex_digit(n)) == n,
{
}

/// Hexadecimal notation stands for the bytes that it was made from.
pub proof fn law_hex_is_read_back(bytes: Seq<u8>)
    ensures
        unhex(hex(bytes)) == bytes,
        hex(bytes).len() == 2 * bytes.len(),
    decreases bytes.len(),
{
    if bytes.len() > 0 {
        let front = bytes.drop_last();
        let b = bytes.last() as int;
        law_hex_is_read_back(front);
        lemma_hex_digit(b / 16);
        lemma_hex_digit(b % 16);
        let s = hex(bytes);
        let n = s.len() as int;
        assert(s.take(n - 2) =~= hex(front));
        assert(s[n - 2] == hex_digit(b / 16));
        assert(s[n - 1] == hex_digit(b % 16));
        assert(unhex(s) =~= front.push(bytes.last()));
        assert(bytes =~= front.push(bytes.last()));
    } else {
        assert(unhex(hex(bytes)) =~= bytes);
    }
}

fn nibble(n: u8) -> (r: char)
    requires
        n < 16,
    ensures
        r == hex_digit(n as int),
{
    let code: u8 = if n < 10 {
        48 + n
    } else {
        87 + n
    };
    code as char
}

/// Bytes in hexadecimal notation.
pub fn encode_hex(bytes: &[u8]) -> (r: String)
    ensures
        r@ == hex(bytes@),
{
    let mut out = String::new();
    let mut i: usize = 0;
    proof {
        assert(bytes@.take(0) =~= Seq::empty());
    }
    while i < bytes.len()
        invariant
            i <= bytes@.len(),
            out@ == hex(bytes@.take(i as int)),
        decreases bytes@.len() - i,
    {
        let b: u8 = bytes[i];
        out.push(nibble(b / 16));
        out.push(nibble(b % 16));
        proof {
            assert(bytes@.take(i + 1).drop_last() =~= bytes@.take(i as int));
        }
        i = i + 1;
    }
    proof {
        assert(bytes@.take(i as int) =~= bytes@);
    }
    out
}

/// The lines that carry input, one for each chunk.
pub open spec fn input_lines(bytes: Seq<u8>) -> Seq<Seq<char>>
    decreases bytes.len(),
{
    if bytes.len() == 0 {
        Seq::empty()
    } else {
        let n = text::min_int(bytes.len() as int, INPUT_CHUNK_SIZE as int);
        seq!["INPUT "@ + hex(bytes.take(n))] + input_lines(bytes.skip(n))
    }
}

/// What a server reads from lines that carry input.
pub open spec fn input_read(lines: Seq<Seq<char>>) -> Seq<u8>
    decreases lines.len(),
{
    if lines.len() == 0 {
        Seq::empty()
    } else {
        unhex(lines[0].skip(6)) + input_read(lines.drop_first())
    }
}

/// A server reads just the input that was sent, however it was cut into lines, and no line
/// carries more than a chunk.
pub proof fn law_input_arrives(bytes: Seq<u8>)
    ensures
        input_read(input_lines(bytes)) == bytes,
        forall|i: int|
            0 <= i < input_lines(bytes).len() ==> (#[trigger] input_lines(bytes)[i]).len() <= 6 + 2
                * INPUT_CHUNK_SIZE,
    decreases bytes.len(),
{
    if bytes.len() > 0 {
        let n = text::min_int(bytes.len() as int, INPUT_CHUNK_SIZE as int);
        let first = "INPUT "@ + hex(bytes.take(n));
        law_input_arrives(bytes.skip(n));
        law_hex_is_read_back(bytes.take(n));
        reveal_strlit("INPUT ");
        assert(first.skip(6) =~= hex(bytes.take(n)));
        let lines = input_lines(bytes);
        assert(lines.drop_first() =~= input_lines(bytes.skip(n)));
        assert(input_read(lines) =~= bytes.take(n) + bytes.skip(n));
        assert(bytes.take(n) + bytes.skip(n) =~= bytes);
        assert forall|i: int| 0 <= i < lines.len() implies (#[trigger] lines[i]).len() <= 6 + 2
            * INPUT_CHUNK_SIZE by {
            if i > 0 {
                assert(lines[i] == input_lines(bytes.skip(n))[i - 1]);
            }
        }
    } else {
        assert(input_read(input_lines(bytes)) =~= bytes);
    }
}

/// The lines that carry input.
pub fn pump_input_chunks(bytes: &[u8]) -> (r: Vec<String>)
    ensures
        commands::texts(r@) == input_lines(bytes@),
{
    let mut out: Vec<String> = Vec::new();
    let total: usize = bytes.len();
    let mut from: usize = 0;
    proof {
        assert(bytes@.skip(0) =~= bytes@);
        assert(commands::texts(out@) + input_lines(bytes@) =~= input_lines(bytes@));
    }
    while from < total
        invariant
            from <= total,
            total == bytes@.len(),
            commands::texts(out@) + input_lines(bytes@.skip(from as int)) == input_lines(bytes@),
        decreases total - from,
    {
        let n: usize = if total - from < INPUT_CHUNK_SIZE {
            total - from
        } else {
            INPUT_CHUNK_SIZE
        };
        let chunk = vstd::slice::slice_subrange(bytes, from, from + n);
        let mut line = "INPUT ".to_string();
        line.append(encode_hex(chunk).as_str());
        let ghost rest = bytes@.skip(from as int);
        let ghost before = out@;
        proof {
            assert(chunk@ =~= rest.take(n as int));
            assert(rest.skip(n as int) =~= bytes@.skip(from + n));
        }
        out.push(line);
        proof {
            assert(commands::texts(out@) =~= commands::texts(before).push(line@));
            assert(commands::texts(before) + (seq![line@] + input_lines(rest.skip(n as int))) =~= commands::texts(
                before,
            ).push(line@) + input_lines(rest.skip(n as int)));
        }
        from = from + n;
    }
    proof {
        assert(bytes@.skip(from as int) =~= Seq::empty());
        assert(commands::texts(out@) + input_lines(bytes@.skip(from as int)) =~= commands::texts(out@));
    }
    out
}

/// A size as the server reads it.
pub open spec fn size_text(size: Size) -> Seq<char> {
    text::decimal(size.rows as nat) + "x"@ + text::decimal(size.cols as nat) + "+"@ + text::decimal(size.x as nat)
        + "+"@ + text::decimal(size.y as nat)
}

pub fn push_size(out: &mut String, size: Size)
    ensures
        final(out)@ == old(out)@ + size_text(size),
{
    let ghost before = out@;
    text::push_decimal(out, size.rows as u64);
    out.append("x");
    text::push_decimal(out, size.cols as u64);
    out.append("+");
    text::push_decimal(out, size.x as u64);
    out.append("+");
    text::push_decimal(out, size.y as u64);
    proof {
        assert(out@ =~= before + size_text(size));
    }
}

/// What a connection begins with. The one for frames also asks for the first frame.
pub open spec fn attach_text(size: Size, frames: bool) -> Seq<char> {
    "ATTACH\n"@ + size_text(size) + (if frames {
        "\nFRAME?\n"@
    } else {
        "\n"@
    })
}

/// What a connection begins with.
pub fn attach_request(size: Size, frames: bool) -> (r: String)
    ensures
        r@ == attach_text(size, frames),
{
    let mut out = "ATTACH\n".to_string();
    push_size(&mut out, size);
    out.append(
        if frames {
            "\nFRAME?\n"
        } else {
            "\n"
        },
    );
    out
}

/// The word for a movement in copy mode.
pub open spec fn copy_word(key: CopyKey) -> Seq<char> {
    match key {
        CopyKey::Left => "COPY_KEY left"@,
        CopyKey::Right => "COPY_KEY right"@,
        CopyKey::Up => "COPY_KEY up"@,
        CopyKey::Down => "COPY_KEY down"@,
        CopyKey::PageUp => "COPY_KEY page_up"@,
        CopyKey::PageDown => "COPY_KEY page_down"@,
        CopyKey::Top => "COPY_KEY top"@,
        CopyKey::Bottom => "COPY_KEY bottom"@,
        CopyKey::LineStart => "COPY_KEY line_start"@,
        CopyKey::LineEnd => "COPY_KEY line_end"@,
        CopyKey::WordBackward => "COPY_KEY word_back"@,
        CopyKey::WordForward => "COPY_KEY word_fwd"@,
        CopyKey::WordEnd => "COPY_KEY word_end"@,
        CopyKey::Select(SelectionMode::Char) => "COPY_KEY sel_char"@,
        CopyKey::Select(SelectionMode::Line) => "COPY_KEY sel_line"@,
        CopyKey::Select(SelectionMode::Rect) => "COPY_KEY sel_rect"@,
        CopyKey::SearchNext => "COPY_SEARCH_NEXT"@,
        CopyKey::SearchPrev => "COPY_SEARCH_PREV"@,
    }
}

/// The line for a movement in copy mode.
pub fn copy_line(key: CopyKey) -> (r: &'static str)
    ensures
        r@ == copy_word(key),
{
    match key {
        CopyKey::Left => "COPY_KEY left",
        CopyKey::Right => "COPY_KEY right",
        CopyKey::Up => "COPY_KEY up",
        CopyKey::Down => "COPY_KEY down",
        CopyKey::PageUp => "COPY_KEY page_up",
        CopyKey::PageDown => "COPY_KEY page_down",
        CopyKey::Top => "COPY_KEY top",
        CopyKey::Bottom => "COPY_KEY bottom",
        CopyKey::LineStart => "COPY_KEY line_start",
        CopyKey::LineEnd => "COPY_KEY line_end",
        CopyKey::WordBackward => "COPY_KEY word_back",
        CopyKey::WordForward => "COPY_KEY word_fwd",
        CopyKey::WordEnd => "COPY_KEY word_end",
        CopyKey::Select(SelectionMode::Char) => "COPY_KEY sel_char",
        CopyKey::Select(SelectionMode::Line) => "COPY_KEY sel_line",
        CopyKey::Select(SelectionMode::Rect) => "COPY_KEY sel_rect",
        CopyKey::SearchNext => "COPY_SEARCH_NEXT",
        CopyKey::SearchPrev => "COPY_SEARCH_PREV",
    }
}

} // verus!
