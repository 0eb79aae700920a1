//! What the server draws itself, and what goes to the terminal's clipboard.

use base64::Engine;
use crate::text;
use vstd::prelude::*;

verus! {

/// The error of decoding.
#[verifier::external_type_specification]
#[verifier::external_body]
pub struct ExDecodeError(base64::DecodeError);

/// The bytes that a text stands for in standard base64 with padding, none where it is no such
/// text.
pub uninterp spec fn base64_bytes(text: Seq<char>) -> Option<Seq<u8>>;

/// The text that stands for bytes in standard base64 with padding.
pub uninterp spec fn base64_text(bytes: Seq<u8>) -> Seq<char>;

pub open spec fn decoded_view(r: Result<Vec<u8>, base64::DecodeError>) -> Option<Seq<u8>> {
    match r {
        Ok(bytes) => Some(bytes@),
        Err(_) => None,
    }
}

/// `decode` of base64's standard engine: the bytes, or an error where the text is not valid.
#[verifier::external_body]
fn decode_base64(text: &str) -> (r: Result<Vec<u8>, base64::DecodeError>)
    ensures
        decoded_view(r) == base64_bytes(text@),
{
    base64::engine::general_purpose::STANDARD.decode(text)
}

/// The characters of standard base64.
pub open spec fn base64_char(c: char) -> bool {
    ('A' <= c && c <= 'Z') || ('a' <= c && c <= 'z') || ('0' <= c && c <= '9') || c == '+' || c == '/'
        || c == '='
}

/// `encode` of base64's standard engine: only characters of its alphabet and the padding, and
/// decoding them gives the bytes back. The text needs four bytes of memory for three.
#[verifier::external_body]
fn encode_base64(bytes: &[u8]) -> (r: String)
    requires
        (bytes@.len() + 2) / 3 * 4 <= isize::MAX,
    ensures
        r@ == base64_text(bytes@) && base64_bytes(r@) == Some(bytes@) && forall|i: int|
            0 <= i < r@.len() ==> base64_char(#[trigger] r@[i]),
{
    base64::engine::general_purpose::STANDARD.encode(bytes)
}

/// Why a server's drawing cannot be shown.
#[derive(Clone, Copy, Debug, PartialEq, Eq, Structural)]
pub enum AnsiError {
    NotBase64,
}

/// Begins an update that the terminal shows at once, with the cursor hidden and without wrapping
/// at the right edge.
pub open spec fn update_begin() -> Seq<u8> {
    seq![
        0x1bu8,
        0x5bu8,
        0x3fu8,
        0x32u8,
        0x30u8,
        0x32u8,
        0x36u8,
        0x68u8,
        0x1bu8,
        0x5bu8,
        0x3fu8,
        0x32u8,
        0x35u8,
        0x6cu8,
        0x1bu8,
        0x5bu8,
        0x3fu8,
        0x37u8,
        0x6cu8,
    ]
}

/// Ends an update that the terminal shows at once.
pub open spec fn update_end() -> Seq<u8> {
    seq![0x1bu8, 0x5bu8, 0x3fu8, 0x32u8, 0x30u8, 0x32u8, 0x36u8, 0x6cu8]
}

fn push_bytes(out: &mut Vec<u8>, bytes: &Vec<u8>)
    ensures
        final(out)@ == old(out)@ + bytes@,
{
    let ghost before = out@;
    let mut i: usize = 0;
    proof {
        assert(before + bytes@.take(0) =~= before);
    }
    while i < bytes.len()
        invariant
            i <= bytes@.len(),
            out@ == before + bytes@.take(i as int),
        decreases bytes@.len() - i,
    {
        out.push(bytes[i]);
        proof {
            assert((before + bytes@.take(i as int)).push(bytes@[i as int]) =~= before + bytes@.take(
                i + 1,
            ));
        }
        i = i + 1;
    }
    proof {
        assert(bytes@.take(bytes@.len() as int) =~= bytes@);
    }
}

/// Begins an update that the terminal shows at once. The cursor is hidden inside of it, so that it
/// does not blink while panes are drawn.
pub fn begin_server_ansi_update(out: &mut Vec<u8>)
    ensures
        final(out)@ == old(out)@ + update_begin(),
{
    let bytes: Vec<u8> = vec![
        0x1b,
        0x5b,
        0x3f,
        0x32,
        0x30,
        0x32,
        0x36,
        0x68,
        0x1b,
        0x5b,
        0x3f,
        0x32,
        0x35,
        0x6c,
        0x1b,
        0x5b,
        0x3f,
        0x37,
        0x6c,
    ];
    push_bytes(out, &bytes);
}

/// Ends an update that the terminal shows at once.
pub fn end_server_ansi_update(out: &mut Vec<u8>)
    ensures
        final(out)@ == old(out)@ + update_end(),
{
    let bytes: Vec<u8> = vec![0x1b, 0x5b, 0x3f, 0x32, 0x30, 0x32, 0x36, 0x6c];
    push_bytes(out, &bytes);
}

/// What is written of a server's drawing, once it is decoded or was not base64.
pub fn write_decoded_payload(out: &mut Vec<u8>, decoded: Option<Vec<u8>>) -> (r: Result<
    bool,
    AnsiError,
>)
    ensures
        match decoded {
            Some(bytes) => r == Ok::<bool, AnsiError>(bytes@.len() > 0) && final(out)@ == old(out)@
                + bytes@,
            None => r == Err::<bool, AnsiError>(AnsiError::NotBase64) && final(out)@ == old(out)@,
        },
{
    match decoded {
        Some(bytes) => {
            push_bytes(out, &bytes);
            Ok(bytes.len() > 0)
        },
        None => Err(AnsiError::NotBase64),
    }
}

/// Writes a server's drawing into an open update; whether there was any.
pub fn write_server_ansi_payload(out: &mut Vec<u8>, ansi_b64: &str) -> (r: Result<bool, AnsiError>)
    ensures
        match base64_bytes(text::trimmed(ansi_b64@)) {
            Some(bytes) => r == Ok::<bool, AnsiError>(bytes.len() > 0) && final(out)@ == old(out)@
                + bytes,
            None => r == Err::<bool, AnsiError>(AnsiError::NotBase64) && final(out)@ == old(out)@,
        },
{
    let bare = text::trim(text::chars_of(ansi_b64).as_slice());
    let text = text::string_of(bare.as_slice());
    match decode_base64(text.as_str()) {
        Ok(bytes) => write_decoded_payload(out, Some(bytes)),
        Err(_) => write_decoded_payload(out, None),
    }
}

/// Writes a server's drawing as one update; nothing where there is none. The update is ended also
/// where the drawing cannot be decoded.
pub fn write_server_ansi(out: &mut Vec<u8>, ansi_b64: &str) -> (r: Result<(), AnsiError>)
    ensures
        text::trimmed(ansi_b64@).len() == 0 ==> r == Ok::<(), AnsiError>(()) && final(out)@ == old(
            out,
        )@,
        text::trimmed(ansi_b64@).len() > 0 ==> match base64_bytes(text::trimmed(ansi_b64@)) {
            Some(bytes) => r == Ok::<(), AnsiError>(()) && final(out)@ == old(out)@ + update_begin()
                + bytes + update_end(),
            None => r == Err::<(), AnsiError>(AnsiError::NotBase64) && final(out)@ == old(out)@
                + update_begin() + update_end(),
        },
{
    let bare = text::trim(text::chars_of(ansi_b64).as_slice());
    if bare.len() == 0 {
        return Ok(());
    }
    begin_server_ansi_update(out);
    let written = write_server_ansi_payload(out, ansi_b64);
    end_server_ansi_update(out);
    match written {
        Ok(_) => Ok(()),
        Err(e) => Err(e),
    }
}

/// What stands before the text in a sequence for the terminal's clipboard.
pub open spec fn clipboard_head() -> Seq<char> {
    seq!['\x1b', ']', '5', '2', ';', 'c', ';']
}

/// The sequence that puts a text on the terminal's clipboard. The text goes as base64, so that
/// nothing in it can end the sequence, and the terminal gets its bytes back.
pub fn build_osc52_sequence(text: &str) -> (r: String)
    requires
        (vstd::utf8::encode_utf8(text@).len() + 2) / 3 * 4 <= isize::MAX,
    ensures
        ({
            let bytes = vstd::utf8::encode_utf8(text@);
            let payload = base64_text(bytes);
            &&& r@ == clipboard_head() + payload + seq!['\x07']
            &&& base64_bytes(payload) == Some(bytes)
            &&& forall|i: int| 0 <= i < payload.len() ==> base64_char(#[trigger] payload[i])
        }),
{
    let bytes = text.as_bytes_vec();
    let payload = encode_base64(bytes.as_slice());
    let mut out = String::new();
    out.push('\x1b');
    out.push(']');
    out.push('5');
    out.push('2');
    out.push(';');
    out.push('c');
    out.push(';');
    proof {
        assert(out@ =~= clipboard_head());
    }
    out.append(payload.as_str());
    out.push('\x07');
    proof {
        assert(out@ =~= clipboard_head() + payload@ + seq!['\x07']);
    }
    out
}

} // verus!
