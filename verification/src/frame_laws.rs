//! What a frame says of its panes and windows.

use crate::frame;
use crate::frame::{LayoutJson, WindowTabJson};
use vstd::prelude::*;

verus! {

/// What is asked of a pane: whether it is active and shows its cursor, is in copy mode, is scrolled
/// back or wants the mouse, and with which cursor, how far and how.
pub proof fn law_panes_are_asked(p: LayoutJson)
    requires
        p is Leaf,
    ensures
        frame::shows_cursor(p) <==> p->active && !p->hide_cursor,
        frame::shape_of(p) == p->cursor_shape,
        frame::copying(p) <==> p->active && p->in_copy_mode,
        frame::scrolled(p) <==> p->active && p->scroll_ratio is Some,
        frame::ratio_bits(p) == p->scroll_ratio,
        frame::wants_mouse(p) <==> p->active && p->mouse_mode != 0,
        frame::mouse_mode_of(p) == p->mouse_mode,
        frame::geometry_of(p) == (p->id, p->rows, p->cols),
{
}

/// Of several panes that something holds of, the first in reading order counts.
pub proof fn law_first_pane_counts(
    panes: Seq<LayoutJson>,
    pred: spec_fn(LayoutJson) -> bool,
    from: int,
    i: int,
)
    requires
        0 <= from <= i < panes.len(),
        pred(panes[i]),
        forall|j: int| from <= j < i ==> !pred(#[trigger] panes[j]),
    ensures
        frame::first_leaf(panes, pred, from) == Some(panes[i]),
    decreases i - from,
{
    if from < i {
        assert(!pred(panes[from]));
        law_first_pane_counts(panes, pred, from + 1, i);
    }
}

/// The active window is the first that is marked so, by its index.
pub proof fn law_first_active_window(windows: Seq<WindowTabJson>, from: int, i: int)
    requires
        0 <= from <= i < windows.len(),
        windows[i].active,
        forall|j: int| from <= j < i ==> !(#[trigger] windows[j]).active,
    ensures
        frame::first_active_tab(windows, from) == Some(windows[i].index),
    decreases i - from,
{
    if from < i {
        assert(!windows[from].active);
        law_first_active_window(windows, from + 1, i);
    }
}

/// Whether places are in the order of their identities.
pub open spec fn ordered(list: Seq<(usize, u16, u16)>) -> bool {
    forall|i: int, j: int| 0 <= i < j < list.len() ==> (#[trigger] list[i]).0 <= (#[trigger] list[j]).0
}

proof fn lemma_put_in(list: Seq<(usize, u16, u16)>, x: (usize, u16, u16))
    requires
        ordered(list),
    ensures
        ({
            let r = frame::placed_by_id(list, x);
            &&& ordered(r)
            &&& r.len() == list.len() + 1
            &&& r.contains(x)
            &&& forall|k: int| 0 <= k < list.len() ==> r.contains(#[trigger] list[k])
            &&& forall|k: int|
                0 <= k < r.len() ==> #[trigger] r[k] == x || list.contains(r[k])
        }),
    decreases list.len(),
{
    let r = frame::placed_by_id(list, x);
    if list.len() > 0 && list.last().0 > x.0 {
        let front = list.drop_last();
        lemma_put_in(front, x);
        let f = frame::placed_by_id(front, x);
        assert(r == f.push(list.last()));
        let at = choose|k: int| 0 <= k < f.len() && f[k] == x;
        assert(r[at] == x);
        assert forall|k: int| 0 <= k < list.len() implies r.contains(#[trigger] list[k]) by {
            if k < front.len() {
                assert(f.contains(front[k]));
                let m = choose|m: int| 0 <= m < f.len() && f[m] == front[k];
                assert(r[m] == list[k]);
            } else {
                assert(r[r.len() - 1] == list[k]);
            }
        }
        assert forall|k: int| 0 <= k < r.len() implies #[trigger] r[k] == x || list.contains(r[k]) by {
            if k < f.len() {
                assert(f[k] == x || front.contains(f[k]));
                if front.contains(f[k]) {
                    let m = choose|m: int| 0 <= m < front.len() && front[m] == f[k];
                    assert(list[m] == r[k]);
                }
            } else {
                assert(list[list.len() - 1] == r[k]);
            }
        }
        assert forall|i: int, j: int| 0 <= i < j < r.len() implies (#[trigger] r[i]).0 <= (
        #[trigger] r[j]).0 by {
            if j < f.len() {
                assert(f[i].0 <= f[j].0);
            } else {
                assert(f[i] == x || front.contains(f[i]));
                if front.contains(f[i]) {
                    let m = choose|m: int| 0 <= m < front.len() && front[m] == f[i];
                    assert(list[m].0 <= list[list.len() - 1].0);
                }
            }
        }
    } else {
        assert(r == list.push(x));
        assert(r[list.len() as int] == x);
        assert forall|k: int| 0 <= k < list.len() implies r.contains(#[trigger] list[k]) by {
            assert(r[k] == list[k]);
        }
        assert forall|k: int| 0 <= k < r.len() implies #[trigger] r[k] == x || list.contains(r[k]) by {
            if k < list.len() {
                assert(list[k] == r[k]);
            }
        }
        assert forall|i: int, j: int| 0 <= i < j < r.len() implies (#[trigger] r[i]).0 <= (
        #[trigger] r[j]).0 by {
            if j < list.len() {
                assert(list[i].0 <= list[j].0);
            } else {
                assert(list[i].0 <= list[list.len() - 1].0);
            }
        }
    }
}

/// The geometry of a layout holds every pane's identity and size, in the order of the identities,
/// and nothing else.
pub proof fn law_geometry_holds_every_pane(panes: Seq<LayoutJson>, n: int)
    requires
        0 <= n <= panes.len(),
        forall|i: int| 0 <= i < panes.len() ==> #[trigger] panes[i] is Leaf,
    ensures
        ({
            let all = frame::by_id(panes, n);
            &&& all.len() == n
            &&& ordered(all)
            &&& forall|i: int|
                0 <= i < n ==> all.contains(
                    ((#[trigger] panes[i])->id, panes[i]->rows, panes[i]->cols),
                )
            &&& forall|k: int|
                0 <= k < n ==> exists|i: int|
                    0 <= i < n && #[trigger] all[k] == (
                        (#[trigger] panes[i])->id,
                        panes[i]->rows,
                        panes[i]->cols,
                    )
        }),
    decreases n,
{
    if n > 0 {
        law_geometry_holds_every_pane(panes, n - 1);
        let before = frame::by_id(panes, n - 1);
        let x = frame::geometry_of(panes[n - 1]);
        lemma_put_in(before, x);
        let all = frame::by_id(panes, n);
        assert forall|i: int| 0 <= i < n implies all.contains(
            ((#[trigger] panes[i])->id, panes[i]->rows, panes[i]->cols),
        ) by {
            if i < n - 1 {
                let y = (panes[i]->id, panes[i]->rows, panes[i]->cols);
                assert(before.contains(y));
                let m = choose|m: int| 0 <= m < before.len() && before[m] == y;
                assert(all.contains(before[m]));
            }
        }
        assert forall|k: int| 0 <= k < n implies exists|i: int|
            0 <= i < n && #[trigger] all[k] == (
                (#[trigger] panes[i])->id,
                panes[i]->rows,
                panes[i]->cols,
            ) by {
            assert(all[k] == x || before.contains(all[k]));
            if all[k] == x {
                assert(panes[n - 1] is Leaf);
                assert(all[k] == (panes[n - 1]->id, panes[n - 1]->rows, panes[n - 1]->cols));
            } else {
                let m = choose|m: int| 0 <= m < before.len() && before[m] == all[k];
                let i = choose|i: int|
                    0 <= i < n - 1 && #[trigger] before[m] == (
                        (#[trigger] panes[i])->id,
                        panes[i]->rows,
                        panes[i]->cols,
                    );
                assert(panes[i] is Leaf);
            }
        }
    }
}

} // verus!
