//! Where the neighbour of a pane lies.

use crate::visual;
use crate::geometry::Rect;
use crate::keys::NavDir;
use crate::visual::{VisualHit, VisualTarget};
use vstd::prelude::*;

verus! {

/// Cells of a side, at least one.
pub open spec fn cells(n: u16) -> int {
    if n > 0 {
        n as int
    } else {
        1
    }
}

/// How many cells lie between a pane and one that lies wholly to its left, right, top or bottom;
/// less than nought where it does not lie wholly there.
pub open spec fn gap(from: Rect, to: Rect, dir: NavDir) -> int {
    match dir {
        NavDir::Left => from.x - (to.x + cells(to.width)),
        NavDir::Right => to.x - (from.x + cells(from.width)),
        NavDir::Up => from.y - (to.y + cells(to.height)),
        NavDir::Down => to.y - (from.y + cells(from.height)),
    }
}

/// Whether two panes have a row in common, or a column for the directions up and down.
pub open spec fn in_line(from: Rect, to: Rect, dir: NavDir) -> bool {
    match dir {
        NavDir::Left | NavDir::Right => from.y < to.y + cells(to.height) && to.y < from.y + cells(
            from.height,
        ),
        NavDir::Up | NavDir::Down => from.x < to.x + cells(to.width) && to.x < from.x + cells(
            from.width,
        ),
    }
}

/// Twice the middle of a pane across a direction, and one less.
pub open spec fn middle(r: Rect, dir: NavDir) -> int {
    match dir {
        NavDir::Left | NavDir::Right => (2 * r.y + cells(r.height) - 1) / 2,
        NavDir::Up | NavDir::Down => (2 * r.x + cells(r.width) - 1) / 2,
    }
}

/// How far the middles of two panes are apart across a direction.
pub open spec fn off_line(from: Rect, to: Rect, dir: NavDir) -> int {
    let n = middle(to, dir) - middle(from, dir);
    if n < 0 {
        -n
    } else {
        n
    }
}

/// Whether a pane other than the current one can be seen and lies wholly that way.
pub open spec fn lies_that_way(
    hit: VisualHit,
    current: VisualTarget,
    from: Rect,
    dir: NavDir,
) -> bool {
    &&& hit.target != current
    &&& hit.rect.width > 0
    &&& hit.rect.height > 0
    &&& gap(from, hit.rect, dir) >= 0
}

/// Whether nothing speaks for another pane rather than this one: one that is in line with the
/// current pane is taken before one that is not, then the one with the smaller gap, then the one
/// that is less far off the line.
pub open spec fn no_worse(from: Rect, one: Rect, other: Rect, dir: NavDir) -> bool {
    if in_line(from, one, dir) != in_line(from, other, dir) {
        in_line(from, one, dir)
    } else if gap(from, one, dir) != gap(from, other, dir) {
        gap(from, one, dir) < gap(from, other, dir)
    } else {
        off_line(from, one, dir) <= off_line(from, other, dir)
    }
}

/// Whether this is the first of the panes with a target.
pub open spec fn first_with_target(hits: Seq<VisualHit>, target: VisualTarget, i: int) -> bool {
    &&& 0 <= i < hits.len()
    &&& hits[i].target == target
    &&& forall|j: int| 0 <= j < i ==> (#[trigger] hits[j]).target != target
}

proof fn lemma_same_measure(from: Rect, to: Rect, dir: NavDir)
    ensures
        visual::beyond(from, to, dir) <==> gap(from, to, dir) >= 0,
        visual::distance(from, to, dir) == gap(from, to, dir) + 1,
        visual::level(from, to, dir) <==> in_line(from, to, dir),
        visual::sideways(from, to, dir) == off_line(from, to, dir),
{
}

proof fn lemma_first_target(hits: Seq<VisualHit>, target: VisualTarget, from: int)
    requires
        0 <= from,
    ensures
        ({
            let pred = |h: VisualHit| h.target == target;
            &&& visual::first_hit(hits, pred, from) matches Some(i) ==> from <= i < hits.len()
                && hits[i].target == target && forall|j: int|
                from <= j < i ==> (#[trigger] hits[j]).target != target
            &&& visual::first_hit(hits, pred, from) is None ==> forall|j: int|
                from <= j < hits.len() ==> (#[trigger] hits[j]).target != target
        }),
    decreases hits.len() - from,
{
    if from < hits.len() && hits[from].target != target {
        lemma_first_target(hits, target, from + 1);
    }
}

/// The neighbour of a pane to the left lies wholly to the left of it, that to the right wholly to
/// the right, and so above and below; no other pane that lies there is nearer. There is none only
/// where no pane lies there.
pub proof fn law_neighbor_lies_that_way(
    hits: Seq<VisualHit>,
    current: VisualTarget,
    at: int,
    dir: NavDir,
)
    requires
        first_with_target(hits, current, at),
    ensures
        visual::neighbor(hits, current, dir) matches Some(next) ==> exists|i: int|
            0 <= i < hits.len() && (#[trigger] hits[i]).target == next && lies_that_way(
                hits[i],
                current,
                hits[at].rect,
                dir,
            ) && forall|j: int|
                0 <= j < hits.len() && lies_that_way(
                    #[trigger] hits[j],
                    current,
                    hits[at].rect,
                    dir,
                ) ==> no_worse(hits[at].rect, hits[i].rect, hits[j].rect, dir),
        visual::neighbor(hits, current, dir) is None ==> forall|j: int|
            0 <= j < hits.len() ==> !lies_that_way(
                #[trigger] hits[j],
                current,
                hits[at].rect,
                dir,
            ),
{
    let from = hits[at].rect;
    lemma_first_target(hits, current, 0);
    visual::law_neighbor_is_nearest(hits, current, from, dir, hits.len() as int);
    assert forall|j: int| 0 <= j < hits.len() implies lies_that_way(
        #[trigger] hits[j],
        current,
        from,
        dir,
    ) == visual::reachable(hits[j], current, from, dir) by {
        lemma_same_measure(from, hits[j].rect, dir);
    }
    if let Some(i) = visual::nearest(hits, current, from, dir, hits.len() as int) {
        assert forall|j: int|
            0 <= j < hits.len() && lies_that_way(#[trigger] hits[j], current, from, dir) implies no_worse(
            from,
            hits[i].rect,
            hits[j].rect,
            dir,
        ) by {
            lemma_same_measure(from, hits[j].rect, dir);
            lemma_same_measure(from, hits[i].rect, dir);
        }
    }
}

/// The current pane is the one kept in mind where it is on the screen, else an active one, else the
/// first.
pub proof fn law_current_pane(stored: Option<VisualTarget>, hits: Seq<VisualHit>)
    ensures
        (stored is Some && exists|j: int|
            0 <= j < hits.len() && (#[trigger] hits[j]).target == stored->0) ==> visual::current_of(
            stored,
            hits,
        ) == stored,
        !(stored is Some && exists|j: int|
            0 <= j < hits.len() && (#[trigger] hits[j]).target == stored->0) ==> {
            &&& hits.len() == 0 ==> visual::current_of(stored, hits) is None
            &&& (exists|j: int| 0 <= j < hits.len() && (#[trigger] hits[j]).active) ==> exists|j: int|
                0 <= j < hits.len() && (#[trigger] hits[j]).active && visual::current_of(stored, hits)
                    == Some(hits[j].target)
            &&& hits.len() > 0 && !(exists|j: int|
                0 <= j < hits.len() && (#[trigger] hits[j]).active) ==> visual::current_of(stored, hits)
                == Some(hits[0].target)
        },
{
    if stored is Some {
        lemma_first_target(hits, stored->0, 0);
    }
    lemma_first_active(hits, 0);
}

proof fn lemma_first_active(hits: Seq<VisualHit>, from: int)
    requires
        0 <= from,
    ensures
        ({
            let pred = |h: VisualHit| h.active;
            &&& visual::first_hit(hits, pred, from) matches Some(i) ==> from <= i < hits.len()
                && hits[i].active
            &&& visual::first_hit(hits, pred, from) is None ==> forall|j: int|
                from <= j < hits.len() ==> !(#[trigger] hits[j]).active
        }),
    decreases hits.len() - from,
{
    if from < hits.len() && !hits[from].active {
        lemma_first_active(hits, from + 1);
    }
}

} // verus!
