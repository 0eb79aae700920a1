//! What is left of a text when the white space around it is cut off.

use crate::text;
use vstd::prelude::*;

verus! {

/// Whether a text is all white space.
pub open spec fn blank(s: Seq<char>) -> bool {
    forall|k: int| 0 <= k < s.len() ==> text::white_space(#[trigger] s[k])
}

/// The white space behind a text goes, and nothing else: what is left is its front up to the last
/// character that is no white space.
pub proof fn law_end_is_cut_off(s: Seq<char>)
    ensures
        ({
            let t = text::trimmed_end(s);
            &&& t.len() <= s.len()
            &&& t == s.take(t.len() as int)
            &&& blank(s.skip(t.len() as int))
            &&& t.len() > 0 ==> !text::white_space(t.last())
        }),
    decreases s.len(),
{
    if s.len() > 0 && text::white_space(s.last()) {
        law_end_is_cut_off(s.drop_last());
        let t = text::trimmed_end(s);
        assert(s.drop_last().take(t.len() as int) =~= s.take(t.len() as int));
        assert forall|k: int| 0 <= k < s.skip(t.len() as int).len() implies text::white_space(
            #[trigger] s.skip(t.len() as int)[k],
        ) by {
            if k + t.len() < s.len() - 1 {
                assert(s.drop_last().skip(t.len() as int)[k] == s[k + t.len()]);
            }
        }
    } else {
        assert(s.take(s.len() as int) =~= s);
    }
}

/// The white space in front of a text goes, and nothing else.
pub proof fn law_front_is_cut_off(s: Seq<char>)
    ensures
        ({
            let t = text::trimmed_start(s);
            let n = s.len() - t.len();
            &&& 0 <= n
            &&& t == s.skip(n)
            &&& blank(s.take(n))
            &&& t.len() > 0 ==> !text::white_space(t[0])
        }),
    decreases s.len(),
{
    if s.len() > 0 && text::white_space(s[0]) {
        law_front_is_cut_off(s.drop_first());
        let t = text::trimmed_start(s);
        let n = s.len() - t.len();
        assert(s.drop_first().skip(n - 1) =~= s.skip(n));
        assert forall|k: int| 0 <= k < s.take(n).len() implies text::white_space(#[trigger] s.take(n)[k]) by {
            if k > 0 {
                assert(s.drop_first().take(n - 1)[k - 1] == s[k]);
            }
        }
    } else {
        assert(s.skip(0) =~= s);
    }
}

/// The white space around a text goes, and nothing else: what is left is a stretch of it with white
/// space before and behind and none at either end.
pub proof fn law_both_ends_are_cut_off(s: Seq<char>) -> (from: int)
    ensures
        ({
            let t = text::trimmed(s);
            &&& 0 <= from
            &&& from + t.len() <= s.len()
            &&& t == s.subrange(from, from + t.len())
            &&& blank(s.take(from))
            &&& blank(s.skip(from + t.len()))
            &&& t.len() > 0 ==> !text::white_space(t[0]) && !text::white_space(t.last())
        }),
{
    law_front_is_cut_off(s);
    let a = text::trimmed_start(s);
    law_end_is_cut_off(a);
    let t = text::trimmed(s);
    let from = s.len() - a.len();
    assert(t =~= s.subrange(from, from + t.len()));
    assert(s.skip(from + t.len()) =~= a.skip(t.len() as int));
    from
}

/// Nothing is left of a text exactly where it is all white space.
pub proof fn law_blank_texts_are_cut_to_nothing(s: Seq<char>)
    ensures
        text::trimmed(s).len() == 0 <==> blank(s),
        text::trimmed(text::trimmed_end(s)).len() == 0 <==> blank(s),
{
    let from = law_both_ends_are_cut_off(s);
    let t = text::trimmed(s);
    if t.len() == 0 {
        assert forall|k: int| 0 <= k < s.len() implies text::white_space(#[trigger] s[k]) by {
            if k < from {
                assert(s.take(from)[k] == s[k]);
            } else {
                assert(s.skip(from)[k - from] == s[k]);
            }
        }
    } else {
        assert(t[0] == s[from]);
    }
    law_end_is_cut_off(s);
    let e = text::trimmed_end(s);
    let at = law_both_ends_are_cut_off(e);
    if text::trimmed(e).len() == 0 {
        assert forall|k: int| 0 <= k < s.len() implies text::white_space(#[trigger] s[k]) by {
            if k < e.len() {
                assert(e[k] == s[k]);
                if k < at {
                    assert(e.take(at)[k] == e[k]);
                } else {
                    assert(e.skip(at)[k - at] == e[k]);
                }
            } else {
                assert(s.skip(e.len() as int)[k - e.len()] == s[k]);
            }
        }
    } else {
        assert(text::trimmed(e)[0] == e[at]);
        assert(e[at] == s[at]);
    }
}

} // verus!
