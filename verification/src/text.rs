//! Characters, strings and the columns they take on screen.

use vstd::prelude::*;

verus! {

/// The largest machine value not above `n`.
pub open spec fn clip(n: nat) -> usize {
    if n <= usize::MAX {
        n as usize
    } else {
        usize::MAX
    }
}

pub open spec fn min_int(a: int, b: int) -> int {
    if a <= b {
        a
    } else {
        b
    }
}

pub open spec fn max_int(a: int, b: int) -> int {
    if a >= b {
        a
    } else {
        b
    }
}

/// `String::push` appends one character.
pub assume_specification[ String::push ](s: &mut String, ch: char)
    ensures
        final(s)@ == old(s)@.push(ch),
;

/// The characters of a string.
pub fn chars_of(s: &str) -> (r: Vec<char>)
    ensures
        r@ == s@,
{
    let mut out: Vec<char> = Vec::new();
    for c in it: s.chars()
        invariant
            it.seq() == s@,
            out@ == s@.take(it.index() as int),
    {
        proof {
            assert(s@.take(it.index() + 1) =~= s@.take(it.index() as int).push(c));
        }
        out.push(c);
    }
    proof {
        assert(s@.take(s@.len() as int) =~= s@);
    }
    out
}

/// The string made of the given characters.
pub fn string_of(cs: &[char]) -> (r: String)
    ensures
        r@ == cs@,
{
    let mut out = String::new();
    let n: usize = cs.len();
    let mut i: usize = 0;
    while i < n
        invariant
            n == cs@.len(),
            i <= n,
            out@ == cs@.take(i as int),
        decreases n - i,
    {
        out.push(cs[i]);
        proof {
            assert(cs@.take(i + 1) =~= cs@.take(i as int).push(cs@[i as int]));
        }
        i = i + 1;
    }
    proof {
        assert(cs@.take(n as int) =~= cs@);
    }
    out
}

/// Part of a text between two positions, each cut back to the text's end.
pub open spec fn cut<A>(s: Seq<A>, start: int, end: int) -> Seq<A> {
    if start >= end || start >= s.len() {
        Seq::empty()
    } else {
        s.subrange(start, min_int(end, s.len() as int))
    }
}

/// The characters of `cs` from `start` up to `end`, as a string.
pub fn slice_of(cs: &[char], start: usize, end: usize) -> (r: String)
    ensures
        r@ == cut(cs@, start as int, end as int),
{
    let mut out = String::new();
    let stop: usize = if end <= cs.len() {
        end
    } else {
        cs.len()
    };
    if start >= stop {
        return out;
    }
    let mut i: usize = start;
    while i < stop
        invariant
            start <= i <= stop <= cs@.len(),
            out@ == cs@.subrange(start as int, i as int),
        decreases stop - i,
    {
        out.push(cs[i]);
        proof {
            assert(cs@.subrange(start as int, i + 1) =~= cs@.subrange(start as int, i as int).push(
                cs@[i as int],
            ));
        }
        i = i + 1;
    }
    out
}

/// Whether two sequences of characters are the same.
pub fn same_chars(a: &[char], b: &[char]) -> (r: bool)
    ensures
        r == (a@ == b@),
{
    if a.len() != b.len() {
        return false;
    }
    let mut i: usize = 0;
    while i < a.len()
        invariant
            a@.len() == b@.len(),
            i <= a@.len(),
            forall|k: int| 0 <= k < i ==> a@[k] == b@[k],
        decreases a@.len() - i,
    {
        if a[i] != b[i] {
            return false;
        }
        i = i + 1;
    }
    proof {
        assert(a@ =~= b@);
    }
    true
}

/// Whether two texts are the same.
pub fn same_text(a: &str, b: &str) -> (r: bool)
    ensures
        r == (a@ == b@),
{
    same_chars(chars_of(a).as_slice(), chars_of(b).as_slice())
}

/// The columns that Unicode gives a character, if it has a place on screen at all.
pub uninterp spec fn unicode_columns(c: char) -> Option<usize>;

/// `unicode_width::UnicodeWidthChar::width`: the columns of a character. Control characters, and
/// only they, have none; every printable ASCII character takes one column. Which other characters
/// take two columns or none is left to the crate's tables.
#[verifier::external_body]
fn unicode_width(c: char) -> (r: Option<usize>)
    ensures
        r == unicode_columns(c),
        r is None <==> ((c as u32) < 0x20 || (0x7f <= (c as u32) && (c as u32) < 0xa0)),
        0x20 <= (c as u32) && (c as u32) < 0x7f ==> r == Some(1usize),
{
    unicode_width::UnicodeWidthChar::width(c)
}

/// Columns of one character on screen, a control character counted as one.
pub open spec fn columns_of(c: char) -> nat {
    match unicode_columns(c) {
        Some(w) => w as nat,
        None => 1,
    }
}

/// Columns of a text on screen.
pub open spec fn columns(s: Seq<char>) -> nat
    decreases s.len(),
{
    if s.len() == 0 {
        0
    } else {
        columns(s.drop_last()) + columns_of(s.last())
    }
}

pub proof fn lemma_columns_step(s: Seq<char>, start: int, end: int)
    requires
        0 <= start <= end < s.len(),
    ensures
        columns(s.subrange(start, end + 1)) == columns(s.subrange(start, end)) + columns_of(s[end]),
{
    assert(s.subrange(start, end + 1).drop_last() =~= s.subrange(start, end));
}

pub proof fn lemma_columns_take(s: Seq<char>, i: int)
    requires
        0 <= i < s.len(),
    ensures
        columns(s.take(i + 1)) == columns(s.take(i)) + columns_of(s[i]),
{
    assert(s.take(i + 1).drop_last() =~= s.take(i));
}

/// A longer stretch of text never takes fewer columns.
pub proof fn lemma_columns_monotone(s: Seq<char>, i: int, j: int)
    requires
        0 <= i <= j <= s.len(),
    ensures
        columns(s.take(i)) <= columns(s.take(j)),
    decreases j - i,
{
    if i < j {
        lemma_columns_take(s, j - 1);
        lemma_columns_monotone(s, i, j - 1);
    }
}

/// Columns add up over concatenation.
pub proof fn lemma_columns_add(a: Seq<char>, b: Seq<char>)
    ensures
        columns(a + b) == columns(a) + columns(b),
    decreases b.len(),
{
    if b.len() == 0 {
        assert(a + b =~= a);
    } else {
        assert((a + b).drop_last() =~= a + b.drop_last());
        lemma_columns_add(a, b.drop_last());
    }
}

/// Columns of one character on screen.
pub fn char_width(c: char) -> (r: usize)
    ensures
        r == columns_of(c),
        0x20 <= (c as u32) && (c as u32) < 0x7f ==> r == 1,
{
    match unicode_width(c) {
        Some(w) => w,
        None => 1,
    }
}

/// Columns of one character on screen, a control character counted as none.
pub open spec fn visible_columns_of(c: char) -> nat {
    match unicode_columns(c) {
        Some(w) => w as nat,
        None => 0,
    }
}

/// Columns of one character, none for a control character.
pub fn visible_char_width(c: char) -> (r: usize)
    ensures
        r == visible_columns_of(c),
{
    match unicode_width(c) {
        Some(w) => w,
        None => 0,
    }
}

/// Columns of a text on screen.
pub fn text_width(cs: &[char]) -> (r: usize)
    ensures
        r == clip(columns(cs@)),
{
    let mut used: usize = 0;
    let mut i: usize = 0;
    while i < cs.len()
        invariant
            i <= cs@.len(),
            used == clip(columns(cs@.take(i as int))),
        decreases cs@.len() - i,
    {
        proof {
            lemma_columns_take(cs@, i as int);
        }
        used = used.saturating_add(char_width(cs[i]));
        i = i + 1;
    }
    proof {
        assert(cs@.take(i as int) =~= cs@);
    }
    used
}

/// The Unicode property White_Space.
pub open spec fn white_space(c: char) -> bool {
    let n = c as u32;
    ||| 0x9 <= n <= 0xd
    ||| n == 0x20
    ||| n == 0x85
    ||| n == 0xa0
    ||| n == 0x1680
    ||| 0x2000 <= n <= 0x200a
    ||| n == 0x2028
    ||| n == 0x2029
    ||| n == 0x202f
    ||| n == 0x205f
    ||| n == 0x3000
}

/// Whether a character is white space.
pub fn is_whitespace(c: char) -> (r: bool)
    ensures
        r == white_space(c),
{
    let n: u32 = c as u32;
    (0x9 <= n && n <= 0xd) || n == 0x20 || n == 0x85 || n == 0xa0 || n == 0x1680 || (0x2000 <= n && n
        <= 0x200a) || n == 0x2028 || n == 0x2029 || n == 0x202f || n == 0x205f || n == 0x3000
}

/// The general category Cc.
pub open spec fn control(c: char) -> bool {
    (c as u32) < 0x20 || 0x7f <= (c as u32) < 0xa0
}

/// Whether a character is a control character.
pub fn is_control(c: char) -> (r: bool)
    ensures
        r == control(c),
{
    let n: u32 = c as u32;
    n < 0x20 || (0x7f <= n && n < 0xa0)
}

/// Whether Unicode counts a character as alphabetic or numeric.
pub uninterp spec fn unicode_alphanumeric(c: char) -> bool;

/// `char::is_alphanumeric`: among ASCII characters the letters and digits; beyond ASCII the
/// standard library's tables decide.
#[verifier::external_body]
fn char_is_alphanumeric(c: char) -> (r: bool)
    ensures
        r == unicode_alphanumeric(c),
        (c as u32) < 0x80 ==> r == (('a' <= c && c <= 'z') || ('A' <= c && c <= 'Z') || ('0' <= c && c
            <= '9')),
{
    c.is_alphanumeric()
}

/// Whether a character is alphabetic or numeric.
pub fn is_alphanumeric(c: char) -> (r: bool)
    ensures
        r == unicode_alphanumeric(c),
        (c as u32) < 0x80 ==> r == (('a' <= c && c <= 'z') || ('A' <= c && c <= 'Z') || ('0' <= c && c
            <= '9')),
{
    char_is_alphanumeric(c)
}

/// A text without the white space in front.
pub open spec fn trimmed_start(s: Seq<char>) -> Seq<char>
    decreases s.len(),
{
    if s.len() > 0 && white_space(s[0]) {
        trimmed_start(s.drop_first())
    } else {
        s
    }
}

/// A text without the white space behind.
pub open spec fn trimmed_end(s: Seq<char>) -> Seq<char>
    decreases s.len(),
{
    if s.len() > 0 && white_space(s.last()) {
        trimmed_end(s.drop_last())
    } else {
        s
    }
}

/// A text without the white space around it.
pub open spec fn trimmed(s: Seq<char>) -> Seq<char> {
    trimmed_end(trimmed_start(s))
}

/// The characters of a text without the white space in front.
pub fn trim_start(cs: &[char]) -> (r: Vec<char>)
    ensures
        r@ == trimmed_start(cs@),
{
    let mut from: usize = 0;
    proof {
        assert(cs@.skip(0) =~= cs@);
    }
    while from < cs.len() && is_whitespace(cs[from])
        invariant
            from <= cs@.len(),
            trimmed_start(cs@.skip(from as int)) == trimmed_start(cs@),
        decreases cs@.len() - from,
    {
        proof {
            assert(cs@.skip(from as int).drop_first() =~= cs@.skip(from + 1));
        }
        from = from + 1;
    }
    proof {
        assert(cs@.skip(from as int) =~= cs@.subrange(from as int, cs@.len() as int));
    }
    copy_range(cs, from, cs.len())
}

/// A copy of part of a slice of characters.
pub fn copy_range(cs: &[char], start: usize, end: usize) -> (r: Vec<char>)
    requires
        start <= end <= cs@.len(),
    ensures
        r@ == cs@.subrange(start as int, end as int),
{
    let mut out: Vec<char> = Vec::new();
    let mut i: usize = start;
    while i < end
        invariant
            start <= i <= end <= cs@.len(),
            out@ == cs@.subrange(start as int, i as int),
        decreases end - i,
    {
        out.push(cs[i]);
        proof {
            assert(cs@.subrange(start as int, i + 1) =~= cs@.subrange(start as int, i as int).push(
                cs@[i as int],
            ));
        }
        i = i + 1;
    }
    out
}

/// The characters of a text without the white space behind.
pub fn trim_end(cs: &[char]) -> (r: Vec<char>)
    ensures
        r@ == trimmed_end(cs@),
{
    let mut end: usize = cs.len();
    proof {
        assert(cs@.take(end as int) =~= cs@);
    }
    while end > 0 && is_whitespace(cs[end - 1])
        invariant
            end <= cs@.len(),
            trimmed_end(cs@.take(end as int)) == trimmed_end(cs@),
        decreases end,
    {
        proof {
            assert(cs@.take(end as int).drop_last() =~= cs@.take(end - 1));
        }
        end = end - 1;
    }
    proof {
        assert(cs@.take(end as int) =~= cs@.subrange(0, end as int));
    }
    copy_range(cs, 0, end)
}

/// The characters of a text without the white space around it.
pub fn trim(cs: &[char]) -> (r: Vec<char>)
    ensures
        r@ == trimmed(cs@),
{
    trim_end(trim_start(cs).as_slice())
}

/// The digit that stands for a number below ten.
pub open spec fn digit(n: nat) -> char {
    (48 + n) as char
}

/// The decimal notation of a number.
pub open spec fn decimal(n: nat) -> Seq<char>
    decreases n,
{
    if n < 10 {
        seq![digit(n)]
    } else {
        decimal(n / 10).push(digit(n % 10))
    }
}

fn digit_char(n: u64) -> (r: char)
    requires
        n < 10,
    ensures
        r == digit(n as nat),
{
    let d: u8 = (48 + n) as u8;
    d as char
}

/// Appends the decimal notation of a number.
pub fn push_decimal(out: &mut String, n: u64)
    ensures
        final(out)@ == old(out)@ + decimal(n as nat),
    decreases n,
{
    if n >= 10 {
        push_decimal(out, n / 10);
        out.push(digit_char(n % 10));
        proof {
            assert(old(out)@ + decimal((n / 10) as nat).push(digit((n % 10) as nat)) =~= (old(out)@
                + decimal((n / 10) as nat)).push(digit((n % 10) as nat)));
        }
    } else {
        out.push(digit_char(n));
        proof {
            assert(old(out)@ + seq![digit(n as nat)] =~= old(out)@.push(digit(n as nat)));
        }
    }
}

/// Where a concatenation is bracketed does not matter.
pub proof fn lemma_concat<A>(a: Seq<A>, b: Seq<A>, c: Seq<A>)
    ensures
        (a + b) + c == a + (b + c),
{
    assert((a + b) + c =~= a + (b + c));
}

} // verus!
