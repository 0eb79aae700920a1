//! What the status bar and the notices read.

use crate::client::mode;
use crate::copy_mode::position;
use crate::draw;
use crate::paint;
use crate::text;
use crate::url;
use crate::client::mode::ModeV;
use crate::draw::SpanV;
use crate::frame::WindowTabJson;
use crate::style::Color;
use vstd::prelude::*;

verus! {

/// What spans read one behind the other.
pub open spec fn reading(spans: Seq<SpanV>) -> Seq<char>
    decreases spans.len(),
{
    if spans.len() == 0 {
        Seq::empty()
    } else {
        reading(spans.drop_last()) + spans.last().text
    }
}

proof fn lemma_reading_add(a: Seq<SpanV>, b: Seq<SpanV>)
    ensures
        reading(a + b) == reading(a) + reading(b),
    decreases b.len(),
{
    if b.len() == 0 {
        assert(a + b =~= a);
        assert(reading(a) + reading(b) =~= reading(a));
    } else {
        lemma_reading_add(a, b.drop_last());
        assert((a + b).drop_last() =~= a + b.drop_last());
        assert((a + b).last() == b.last());
        assert(reading(a) + reading(b.drop_last()) + b.last().text =~= reading(a) + (reading(
            b.drop_last(),
        ) + b.last().text));
    }
}

proof fn lemma_one_reading(s: SpanV)
    ensures
        reading(seq![s]) == s.text,
{
    assert(seq![s].drop_last() =~= Seq::empty());
    assert(reading(Seq::<SpanV>::empty()) =~= Seq::empty());
    assert(reading(seq![s]) =~= s.text);
}

/// A window's tab: its number in brackets and its name, with stars around it where the window is
/// the active one.
pub open spec fn tab_reads(w: WindowTabJson) -> Seq<char> {
    if w.active {
        seq![' ', '*', '['] + text::decimal(w.index as nat) + seq![']', ' '] + w.name@ + seq!['*', ' ']
    } else {
        seq![' ', ' ', '['] + text::decimal(w.index as nat) + seq![']', ' '] + w.name@ + seq![' ', ' ']
    }
}

/// The tabs of the first windows, one behind the other.
pub open spec fn tabs_read(windows: Seq<WindowTabJson>, n: int) -> Seq<char>
    decreases n,
{
    if n <= 0 {
        Seq::empty()
    } else {
        tabs_read(windows, n - 1) + tab_reads(windows[n - 1])
    }
}

proof fn lemma_tab(w: WindowTabJson)
    ensures
        paint::tab_label(w) == tab_reads(w),
{
    reveal_strlit(" *[");
    reveal_strlit("  [");
    reveal_strlit("] ");
    reveal_strlit("* ");
    reveal_strlit("  ");
    assert(" *["@ =~= seq![' ', '*', '[']);
    assert("  ["@ =~= seq![' ', ' ', '[']);
    assert("] "@ =~= seq![']', ' ']);
    assert("* "@ =~= seq!['*', ' ']);
    assert("  "@ =~= seq![' ', ' ']);
}

proof fn lemma_tabs(windows: Seq<WindowTabJson>, n: int)
    requires
        0 <= n <= windows.len(),
    ensures
        reading(paint::tab_spans(windows, n)) == tabs_read(windows, n),
    decreases n,
{
    if n > 0 {
        lemma_tabs(windows, n - 1);
        lemma_tab(windows[n - 1]);
        let all = paint::tab_spans(windows, n);
        assert(all.drop_last() =~= paint::tab_spans(windows, n - 1));
    } else {
        assert(reading(paint::tab_spans(windows, n)) =~= Seq::empty());
    }
}

/// The status bar reads the session's name between blanks, the windows' tabs in order, blanks, and
/// at the right the message and the mark of a pending prefix.
pub proof fn law_status_bar_reads(
    left: Seq<char>,
    right: Seq<char>,
    windows: Seq<WindowTabJson>,
    width: int,
    in_prefix: bool,
) -> (shown: (Seq<char>, int))
    ensures
        reading(paint::status_spans(left, right, windows, width, in_prefix)) == seq![' '] + left + seq![' ']
            + tabs_read(windows, windows.len() as int) + Seq::new(shown.1 as nat, |i: int| ' ')
            + shown.0 + (if in_prefix {
            " PREFIX "@
        } else {
            Seq::empty()
        }),
        shown.1 >= 0,
        shown.0.len() == 0 || (shown.0[0] == ' ' && shown.0.last() == ' '),
{
    let n = windows.len() as int;
    let used = text::columns(paint::spaced(left)) + paint::tabs_width(windows, n);
    let room = text::max_int(width - (used + paint::prefix_columns(in_prefix)), 0);
    let pad = width - (used + paint::prefix_columns(in_prefix) + paint::right_columns(right, room));
    reveal_strlit(" ");
    assert(" "@ =~= seq![' ']);
    let a = SpanV { text: paint::spaced(left), style: paint::badge(Color::Green) };
    lemma_one_reading(a);
    lemma_tabs(windows, n);
    let head = seq![a];
    let tabs = paint::tab_spans(windows, n);
    let pads = paint::pad_spans(pad);
    let rights = paint::right_spans(right, room);
    let prefix = paint::prefix_spans(in_prefix);
    lemma_reading_add(head, tabs);
    lemma_reading_add(head + tabs, pads);
    lemma_reading_add(head + tabs + pads, rights);
    lemma_reading_add(head + tabs + pads + rights, prefix);
    let count = text::max_int(pad, 0);
    let blanks = Seq::new(count as nat, |i: int| ' ');
    if pad > 0 {
        lemma_one_reading(pads[0]);
        assert(pads =~= seq![pads[0]]);
        assert(draw::spaces(pad) =~= blanks);
    } else {
        assert(reading(pads) =~= blanks);
    }
    if in_prefix {
        lemma_one_reading(prefix[0]);
        assert(prefix =~= seq![prefix[0]]);
    }
    let message = reading(rights);
    if rights.len() > 0 {
        lemma_one_reading(rights[0]);
        assert(rights =~= seq![rights[0]]);
    }
    assert(reading(paint::status_spans(left, right, windows, width, in_prefix)) =~= seq![' '] + left + seq![
        ' ',
    ] + tabs_read(windows, n) + blanks + message + (if in_prefix {
        " PREFIX "@
    } else {
        Seq::empty()
    }));
    (message, count)
}

/// The banner reads the mode's name, the notice, or both with a bar between them.
pub proof fn law_banners_read(mode: ModeV, notice: Seq<char>)
    ensures
        mode is Navigator ==> mode::banner_of(mode, None) == Some("NAV"@) && mode::banner_of(mode, Some(notice))
            == Some("NAV"@ + " | "@ + notice),
        mode is Resize ==> mode::banner_of(mode, None) == Some("RESIZE"@),
        mode is CopyMode ==> mode::banner_of(mode, None) == Some("COPY"@),
        mode matches ModeV::CopySearch { forward, .. } ==> mode::banner_of(mode, None) == Some(
            if forward {
                "COPY /"@
            } else {
                "COPY ?"@
            },
        ),
        mode is Normal ==> mode::banner_of(mode, None) is None && mode::banner_of(mode, Some(notice)) == Some(
            notice,
        ),
{
}

/// A link is cut down to fifty characters and three dots; a shorter one is shown whole. The
/// punctuation behind a link is none of it.
pub proof fn law_links_are_shortened(url: Seq<char>)
    ensures
        url.len() <= 50 ==> url::short_link(url) == url,
        url.len() > 50 ==> url::short_link(url) == url.take(50) + seq!['.', '.', '.'],
        ({
            let b = url::bare_link(url);
            &&& b.len() <= url.len()
            &&& b == url.take(b.len() as int)
            &&& b.len() > 0 ==> !(seq!['.', ',', ';', ':', '!', '?'].contains(b.last()))
            &&& forall|k: int|
                b.len() <= k < url.len() ==> seq!['.', ',', ';', ':', '!', '?'].contains(
                    #[trigger] url[k],
                )
        }),
    decreases url.len(),
{
    reveal_strlit("...");
    assert("..."@ =~= seq!['.', '.', '.']);
    let marks = seq!['.', ',', ';', ':', '!', '?'];
    assert(marks[0] == '.' && marks[1] == ',' && marks[2] == ';' && marks[3] == ':' && marks[4]
        == '!' && marks[5] == '?');
    if url.len() > 0 && url::closing_mark(url.last()) {
        law_links_are_shortened(url.drop_last());
        let b = url::bare_link(url);
        assert(url.drop_last().take(b.len() as int) =~= url.take(b.len() as int));
        assert forall|k: int| b.len() <= k < url.len() implies marks.contains(#[trigger] url[k]) by {
            if k < url.len() - 1 {
                assert(url.drop_last()[k] == url[k]);
            }
        }
    } else {
        assert(url.take(url.len() as int) =~= url);
    }
}

/// What fits of a text is its front: no longer than the columns, and one character more would not
/// fit.
pub proof fn law_front_that_fits(s: Seq<char>, max: int)
    requires
        max > 0,
    ensures
        ({
            let f = draw::fitted(s, max);
            &&& f.len() <= s.len()
            &&& f == s.take(f.len() as int)
            &&& text::columns(f) <= max
            &&& f.len() < s.len() ==> text::columns(s.take(f.len() + 1int)) > max
        }),
{
    draw::law_fitted_fits(s, max);
    lemma_fits(s, 0, max);
}

proof fn lemma_fits(s: Seq<char>, from: int, max: int)
    requires
        0 <= from <= s.len(),
    ensures
        from <= position::fitting(s, from, max) <= s.len(),
        position::fitting(s, from, max) < s.len() ==> text::columns(s.take(position::fitting(s, from, max) + 1)) > max,
    decreases s.len() - from,
{
    if from < s.len() && text::columns(s.take(from + 1)) <= max {
        lemma_fits(s, from + 1, max);
    }
}

/// What fits of the end of a text, where not all of it does, is a mark and the end: as many of the
/// last characters as there is room for beside the mark.
pub proof fn law_end_that_fits(s: Seq<char>, max: int)
    requires
        text::columns(s) <= usize::MAX,
        max > 1,
    ensures
        text::columns(s) <= max ==> draw::end_fitted(s, max) == s,
        text::columns(s) > max ==> {
            let e = draw::end_fitted(s, max);
            let n = e.len() - 1;
            &&& 0 <= n <= s.len()
            &&& e == seq!['…'] + s.skip(s.len() - n)
            &&& text::columns(s.skip(s.len() - n)) <= max - 1
            &&& n < s.len() ==> text::columns(s.skip(s.len() - n - 1)) > max - 1
        },
{
    if text::columns(s) > max {
        assert(s.skip(s.len() as int) =~= Seq::empty());
        lemma_end(s, s.len() as int, max - 1);
        let at = draw::end_from(s, s.len() as int, max - 1);
        assert(draw::end_fitted(s, max).len() - 1 == s.len() - at);
    }
}

proof fn lemma_end(s: Seq<char>, from: int, max: int)
    requires
        0 <= from <= s.len(),
        text::columns(s.skip(from)) <= max,
    ensures
        0 <= draw::end_from(s, from, max) <= from,
        text::columns(s.skip(draw::end_from(s, from, max))) <= max,
        draw::end_from(s, from, max) > 0 ==> text::columns(s.skip(draw::end_from(s, from, max) - 1)) > max,
    decreases from,
{
    if 0 < from && text::columns(s.skip(from - 1)) <= max {
        lemma_end(s, from - 1, max);
    }
}

} // verus!
