//! Panes as targets on screen: which one is current, next to another, or under a cell.

use crate::frame;
use crate::geometry;
use crate::navigation;
use crate::text;
use crate::frame::LayoutJson;
use crate::geometry::Rect;
use crate::keys::NavDir;
use vstd::prelude::*;

verus! {

/// A pane that can be moved to.
#[derive(Clone, Copy, Debug, PartialEq, Eq, Structural)]
pub enum VisualTarget {
    Local { pane_id: usize },
}

/// A pane's part of the screen.
#[derive(Clone, Copy, Debug, PartialEq, Eq, Structural)]
pub struct VisualHit {
    pub target: VisualTarget,
    pub rect: Rect,
    pub active: bool,
}

pub open spec fn hit_of(pane: (LayoutJson, Rect)) -> VisualHit {
    VisualHit {
        target: VisualTarget::Local { pane_id: pane.0.pane_id() },
        rect: pane.1,
        active: pane.0.is_active(),
    }
}

/// The panes of a layout as targets, in reading order.
pub open spec fn hits_of(panes: Seq<(LayoutJson, Rect)>) -> Seq<VisualHit> {
    Seq::new(panes.len(), |i: int| hit_of(panes[i]))
}

/// The panes of a layout as targets, in reading order.
pub fn collect_visual_hits(layout: &LayoutJson, area: Rect, hide_borders: bool) -> (r: Vec<VisualHit>)
    ensures
        r@ == hits_of(frame::placed(*layout, area, hide_borders)),
{
    let panes = frame::collect_placed(layout, area, hide_borders);
    let ghost all = frame::placed(*layout, area, hide_borders);
    proof {
        lemma_placed_are_panes(*layout, area, hide_borders);
    }
    let mut hits: Vec<VisualHit> = Vec::new();
    let mut i: usize = 0;
    while i < panes.len()
        invariant
            i <= panes@.len(),
            panes@.len() == all.len(),
            all == frame::place_refs(panes@),
            forall|k: int| 0 <= k < all.len() ==> (#[trigger] all[k]).0 is Leaf,
            hits@.len() == i,
            forall|k: int| 0 <= k < i ==> #[trigger] hits@[k] == hit_of(all[k]),
        decreases panes@.len() - i,
    {
        proof {
            assert(all[i as int] == (*panes@[i as int].0, panes@[i as int].1));
        }
        let rect: Rect = panes[i].1;
        match panes[i].0 {
            LayoutJson::Leaf { id, active, .. } => {
                hits.push(
                    VisualHit {
                        target: VisualTarget::Local { pane_id: *id },
                        rect,
                        active: *active,
                    },
                );
            },
            _ => {
                hits.push(
                    VisualHit { target: VisualTarget::Local { pane_id: 0 }, rect, active: false },
                );
            },
        }
        i = i + 1;
    }
    proof {
        assert(hits@ =~= hits_of(all));
    }
    hits
}

pub proof fn lemma_placed_are_panes(layout: LayoutJson, area: Rect, hide: bool)
    ensures
        forall|k: int|
            0 <= k < frame::placed(layout, area, hide).len() ==> (#[trigger] frame::placed(
                layout,
                area,
                hide,
            )[k]).0 is Leaf,
    decreases layout, layout.kids().len() + 1,
{
    match layout {
        LayoutJson::Split { .. } => {
            let n = text::min_int(
                layout.kids().len() as int,
                frame::parts_of(layout, area, hide).len() as int,
            );
            lemma_placed_of_are_panes(layout, area, hide, n);
        },
        LayoutJson::Leaf { .. } => {},
    }
}

proof fn lemma_placed_of_are_panes(
    layout: LayoutJson,
    area: Rect,
    hide: bool,
    n: int,
)
    requires
        n <= layout.kids().len(),
    ensures
        forall|k: int|
            0 <= k < frame::placed_of(layout, area, hide, n).len() ==> (#[trigger] frame::placed_of(
                layout,
                area,
                hide,
                n,
            )[k]).0 is Leaf,
    decreases layout, n,
{
    if n > 0 {
        lemma_placed_of_are_panes(layout, area, hide, n - 1);
        let child = layout.kids()[n - 1];
        let part = frame::parts_of(layout, area, hide)[n - 1];
        lemma_placed_are_panes(child, part, hide);
        let before = frame::placed_of(layout, area, hide, n - 1);
        let more = frame::placed(child, part, hide);
        let all = frame::placed_of(layout, area, hide, n);
        assert forall|k: int| 0 <= k < all.len() implies (#[trigger] all[k]).0 is Leaf by {
            if k < before.len() {
                assert(all[k] == before[k]);
            } else {
                assert(all[k] == more[k - before.len()]);
            }
        }
    }
}

/// Index of the first hit from `from` on that `pred` picks.
pub open spec fn first_hit(hits: Seq<VisualHit>, pred: spec_fn(VisualHit) -> bool, from: int) -> Option<
    int,
>
    decreases hits.len() - from,
{
    if from >= hits.len() {
        None
    } else if pred(hits[from]) {
        Some(from)
    } else {
        first_hit(hits, pred, from + 1)
    }
}

fn index_of_target(hits: &[VisualHit], target: VisualTarget) -> (r: Option<usize>)
    ensures
        (match r {
            Some(i) => Some(i as int),
            None => None,
        }) == first_hit(hits@, |h: VisualHit| h.target == target, 0),
        r matches Some(i) ==> i < hits@.len(),
{
    let ghost pred = |h: VisualHit| h.target == target;
    let mut i: usize = 0;
    while i < hits.len()
        invariant
            i <= hits@.len(),
            pred == (|h: VisualHit| h.target == target),
            first_hit(hits@, pred, i as int) == first_hit(hits@, pred, 0),
        decreases hits@.len() - i,
    {
        if hits[i].target == target {
            return Some(i);
        }
        i = i + 1;
    }
    None
}

/// The current pane: the one kept in mind while it is there, else the active one, else the first.
pub open spec fn current_of(stored: Option<VisualTarget>, hits: Seq<VisualHit>) -> Option<VisualTarget> {
    if stored is Some && first_hit(hits, |h: VisualHit| h.target == stored->0, 0) is Some {
        stored
    } else {
        match first_hit(hits, |h: VisualHit| h.active, 0) {
            Some(i) => Some(hits[i].target),
            None => if hits.len() > 0 {
                Some(hits[0].target)
            } else {
                None
            },
        }
    }
}

/// The current pane: the one kept in mind while it is there, else the active one, else the first.
pub fn current_from_hits(stored: Option<&VisualTarget>, hits: &[VisualHit]) -> (r: Option<
    VisualTarget,
>)
    ensures
        r == current_of(
            match stored {
                Some(t) => Some(*t),
                None => None,
            },
            hits@,
        ),
{
    if let Some(target) = stored {
        if index_of_target(hits, *target).is_some() {
            return Some(*target);
        }
    }
    let ghost pred = |h: VisualHit| h.active;
    let ghost kept = match stored {
        Some(t) => Some(*t),
        None => None,
    };
    let mut i: usize = 0;
    while i < hits.len()
        invariant
            i <= hits@.len(),
            pred == (|h: VisualHit| h.active),
            kept == (match stored {
                Some(t) => Some(*t),
                None => None,
            }),
            kept is Some ==> first_hit(hits@, |h: VisualHit| h.target == kept->0, 0) is None,
            first_hit(hits@, pred, i as int) == first_hit(hits@, pred, 0),
        decreases hits@.len() - i,
    {
        if hits[i].active {
            return Some(hits[i].target);
        }
        i = i + 1;
    }
    if hits.len() > 0 {
        Some(hits[0].target)
    } else {
        None
    }
}

/// First and last column and row of a rectangle, at least one cell.
pub struct Extent {
    pub left: int,
    pub right: int,
    pub top: int,
    pub bottom: int,
}

pub open spec fn extent(r: Rect) -> Extent {
    Extent {
        left: r.x as int,
        right: r.x + span_len(r.width) - 1,
        top: r.y as int,
        bottom: r.y + span_len(r.height) - 1,
    }
}

/// Whether a pane lies wholly beyond the current one in a direction.
pub open spec fn beyond(from: Rect, to: Rect, dir: NavDir) -> bool {
    let a = extent(from);
    let b = extent(to);
    match dir {
        NavDir::Left => b.right < a.left,
        NavDir::Right => b.left > a.right,
        NavDir::Up => b.bottom < a.top,
        NavDir::Down => b.top > a.bottom,
    }
}

/// Cells between two panes in a direction.
pub open spec fn distance(from: Rect, to: Rect, dir: NavDir) -> int {
    let a = extent(from);
    let b = extent(to);
    match dir {
        NavDir::Left => a.left - b.right,
        NavDir::Right => b.left - a.right,
        NavDir::Up => a.top - b.bottom,
        NavDir::Down => b.top - a.bottom,
    }
}

/// Whether two panes share a row, or a column for the vertical directions.
pub open spec fn level(from: Rect, to: Rect, dir: NavDir) -> bool {
    let a = extent(from);
    let b = extent(to);
    match dir {
        NavDir::Left | NavDir::Right => text::max_int(a.top, b.top) <= text::min_int(a.bottom, b.bottom),
        NavDir::Up | NavDir::Down => text::max_int(a.left, b.left) <= text::min_int(a.right, b.right),
    }
}

pub open spec fn abs_int(n: int) -> int {
    if n < 0 {
        -n
    } else {
        n
    }
}

/// How far the middles of two panes are apart across the direction.
pub open spec fn sideways(from: Rect, to: Rect, dir: NavDir) -> int {
    let a = extent(from);
    let b = extent(to);
    match dir {
        NavDir::Left | NavDir::Right => abs_int(
            (b.top + b.bottom) / 2 - (a.top + a.bottom) / 2,
        ),
        NavDir::Up | NavDir::Down => abs_int((b.left + b.right) / 2 - (a.left + a.right) / 2),
    }
}

/// Whether one pane is a nearer neighbour than another: one that shares a row or column first,
/// then by distance, then by how far it is off to the side.
pub open spec fn nearer(from: Rect, a: Rect, b: Rect, dir: NavDir) -> bool {
    if level(from, a, dir) != level(from, b, dir) {
        level(from, a, dir)
    } else if distance(from, a, dir) != distance(from, b, dir) {
        distance(from, a, dir) < distance(from, b, dir)
    } else {
        sideways(from, a, dir) < sideways(from, b, dir)
    }
}

/// Whether a pane can be moved to from the current one in a direction.
pub open spec fn reachable(hit: VisualHit, current: VisualTarget, from: Rect, dir: NavDir) -> bool {
    &&& hit.target != current
    &&& hit.rect.width > 0
    &&& hit.rect.height > 0
    &&& beyond(from, hit.rect, dir)
}

/// The nearest of the first `n` panes in a direction; of equally near ones the first.
pub open spec fn nearest(
    hits: Seq<VisualHit>,
    current: VisualTarget,
    from: Rect,
    dir: NavDir,
    n: int,
) -> Option<int>
    decreases n,
{
    if n <= 0 {
        None
    } else {
        let best = nearest(hits, current, from, dir, n - 1);
        if !reachable(hits[n - 1], current, from, dir) {
            best
        } else {
            match best {
                None => Some(n - 1),
                Some(b) => if nearer(from, hits[n - 1].rect, hits[b].rect, dir) {
                    Some(n - 1)
                } else {
                    best
                },
            }
        }
    }
}

/// The neighbour of the current pane in a direction.
pub open spec fn neighbor(hits: Seq<VisualHit>, current: VisualTarget, dir: NavDir) -> Option<
    VisualTarget,
> {
    match first_hit(hits, |h: VisualHit| h.target == current, 0) {
        None => None,
        Some(c) => match nearest(hits, current, hits[c].rect, dir, hits.len() as int) {
            Some(i) => Some(hits[i].target),
            None => None,
        },
    }
}

/// Along one axis: the gap when the second span lies before the first and when it lies behind,
/// whether the two overlap, and how far their middles are apart.
fn spans(a: u16, a_len: u16, b: u16, b_len: u16) -> (r: (i32, i32, bool, i32))
    ensures
        ({
            let a_end = a + span_len(a_len) - 1;
            let b_end = b + span_len(b_len) - 1;
            &&& r.0 == a - b_end
            &&& r.1 == b - a_end
            &&& r.2 == (text::max_int(a as int, b as int) <= text::min_int(a_end, b_end))
            &&& r.3 == abs_int((b + b_end) / 2 - (a + a_end) / 2)
        }),
{
    let a_end: u32 = if a_len < 1 {
        a as u32
    } else {
        a as u32 + (a_len as u32 - 1)
    };
    let b_end: u32 = if b_len < 1 {
        b as u32
    } else {
        b as u32 + (b_len as u32 - 1)
    };
    let start: u32 = if a > b {
        a as u32
    } else {
        b as u32
    };
    let end: u32 = if a_end < b_end {
        a_end
    } else {
        b_end
    };
    let a_mid: u32 = (a as u32 + a_end) / 2;
    let b_mid: u32 = (b as u32 + b_end) / 2;
    let apart: u32 = if b_mid < a_mid {
        a_mid - b_mid
    } else {
        b_mid - a_mid
    };
    (a as i32 - b_end as i32, b as i32 - a_end as i32, start <= end, apart as i32)
}

pub open spec fn span_len(len: u16) -> int {
    text::max_int(len as int, 1)
}

/// Whether a pane lies beyond another in a direction and on a level with it, and the two
/// distances.
fn measure(from: Rect, to: Rect, dir: NavDir) -> (r: (bool, bool, i32, i32))
    ensures
        r.0 == beyond(from, to, dir),
        r.1 == level(from, to, dir),
        r.2 == distance(from, to, dir),
        r.3 == sideways(from, to, dir),
{
    let across = spans(from.x, from.width, to.x, to.width);
    let along = spans(from.y, from.height, to.y, to.height);
    match dir {
        NavDir::Left => (across.0 > 0, along.2, across.0, along.3),
        NavDir::Right => (across.1 > 0, along.2, across.1, along.3),
        NavDir::Up => (along.0 > 0, across.2, along.0, across.3),
        NavDir::Down => (along.1 > 0, across.2, along.1, across.3),
    }
}

/// The neighbour of the current pane in a direction, if it is among the panes and has one.
pub fn neighbor_in_dir(hits: &[VisualHit], current: &VisualTarget, dir: NavDir) -> (r: Option<
    VisualTarget,
>)
    ensures
        r == neighbor(hits@, *current, dir),
{
    let at: usize = match index_of_target(hits, *current) {
        Some(i) => i,
        None => {
            return None;
        },
    };
    let from: Rect = hits[at].rect;
    let mut best: Option<usize> = None;
    let mut i: usize = 0;
    while i < hits.len()
        invariant
            i <= hits@.len(),
            (match best {
                Some(b) => Some(b as int),
                None => None,
            }) == nearest(hits@, *current, from, dir, i as int),
            best matches Some(b) ==> b < i,
        decreases hits@.len() - i,
    {
        let hit = hits[i];
        let (ok, on_level, dist, side) = measure(from, hit.rect, dir);
        if hit.target != *current && hit.rect.width > 0 && hit.rect.height > 0 && ok {
            match best {
                None => {
                    best = Some(i);
                },
                Some(b) => {
                    let (_, b_level, b_dist, b_side) = measure(from, hits[b].rect, dir);
                    let closer: bool = if on_level != b_level {
                        on_level
                    } else if dist != b_dist {
                        dist < b_dist
                    } else {
                        side < b_side
                    };
                    if closer {
                        best = Some(i);
                    }
                },
            }
        }
        i = i + 1;
    }
    match best {
        Some(b) => Some(hits[b].target),
        None => None,
    }
}

/// No pane in a direction is a nearer neighbour than the one that is found.
pub proof fn law_neighbor_is_nearest(
    hits: Seq<VisualHit>,
    current: VisualTarget,
    from: Rect,
    dir: NavDir,
    n: int,
)
    requires
        0 <= n <= hits.len(),
    ensures
        match nearest(hits, current, from, dir, n) {
            Some(b) => 0 <= b < n && reachable(hits[b], current, from, dir) && forall|i: int|
                0 <= i < n && reachable(#[trigger] hits[i], current, from, dir) ==> !nearer(
                    from,
                    hits[i].rect,
                    hits[b].rect,
                    dir,
                ),
            None => forall|i: int|
                0 <= i < n ==> !reachable(#[trigger] hits[i], current, from, dir),
        },
    decreases n,
{
    if n > 0 {
        law_neighbor_is_nearest(hits, current, from, dir, n - 1);
    }
}

/// Whether a cell lies in a pane's part of the screen.
pub open spec fn hit_has(h: VisualHit, col: int, row: int) -> bool {
    &&& h.rect.x <= col < navigation::sat16(h.rect.x + h.rect.width)
    &&& h.rect.y <= row < navigation::sat16(h.rect.y + h.rect.height)
}

/// The pane under a cell.
pub fn hit_at(hits: &[VisualHit], col: u16, row: u16) -> (r: Option<&VisualHit>)
    ensures
        (match r {
            Some(h) => Some(*h),
            None => None,
        }) == (match first_hit(hits@, |h: VisualHit| hit_has(h, col as int, row as int), 0) {
            Some(i) => Some(hits@[i]),
            None => None,
        }),
{
    let ghost pred = |h: VisualHit| hit_has(h, col as int, row as int);
    let mut i: usize = 0;
    while i < hits.len()
        invariant
            i <= hits@.len(),
            pred == (|h: VisualHit| hit_has(h, col as int, row as int)),
            first_hit(hits@, pred, i as int) == first_hit(hits@, pred, 0),
        decreases hits@.len() - i,
    {
        let r: Rect = hits[i].rect;
        if col >= r.x && col < r.x.saturating_add(r.width) && row >= r.y && row
            < r.y.saturating_add(r.height) {
            return Some(&hits[i]);
        }
        i = i + 1;
    }
    None
}

/// Whether some pane is reported with the size that the screen gives this one.
pub open spec fn size_reported(panes: Seq<LayoutJson>, hit: VisualHit, hide: bool) -> bool {
    let content = geometry::content_of(hit.rect, hide);
    exists|k: int|
        0 <= k < panes.len() && frame::geometry_of(#[trigger] panes[k]) == (
            hit.target->pane_id,
            content.height,
            content.width,
        )
}

/// Whether the geometry that a server reports is the one that the screen gives each pane.
pub open spec fn fits(layout: LayoutJson, area: Rect, hide: bool) -> bool {
    let hits = hits_of(frame::placed(layout, area, hide));
    forall|i: int|
        0 <= i < hits.len() ==> size_reported(frame::leaves(layout), #[trigger] hits[i], hide)
}

/// Whether the geometry that a server reports is the one that the screen gives each pane.
pub fn layout_fits_area(layout: &LayoutJson, area: Rect, hide_borders: bool) -> (r: bool)
    ensures
        r == fits(*layout, area, hide_borders),
{
    let hits = collect_visual_hits(layout, area, hide_borders);
    let panes = frame::collect_leaves(layout);
    let ghost all = frame::leaves(*layout);
    let mut i: usize = 0;
    while i < hits.len()
        invariant
            i <= hits@.len(),
            hits@ == hits_of(frame::placed(*layout, area, hide_borders)),
            all == frame::leaves(*layout),
            all == frame::refs_to(panes@),
            panes@.len() == all.len(),
            forall|j: int| 0 <= j < i ==> size_reported(all, #[trigger] hits@[j], hide_borders),
        decreases hits@.len() - i,
    {
        let VisualTarget::Local { pane_id } = hits[i].target;
        let content = geometry::content_rect(hits[i].rect, hide_borders);
        let mut found: bool = false;
        let mut k: usize = 0;
        while k < panes.len() && !found
            invariant
                k <= panes@.len(),
                all == frame::refs_to(panes@),
                panes@.len() == all.len(),
                found ==> k < all.len() && frame::geometry_of(all[k as int]) == (
                    pane_id,
                    content.height,
                    content.width,
                ),
                !found ==> forall|j: int|
                    0 <= j < k ==> frame::geometry_of(#[trigger] all[j]) != (
                        pane_id,
                        content.height,
                        content.width,
                    ),
            decreases panes@.len() - k, (if found { 0int } else { 1int }),
        {
            proof {
                assert(all[k as int] == *panes@[k as int]);
            }
            let (id, rows, cols): (usize, u16, u16) = match panes[k] {
                LayoutJson::Leaf { id, rows, cols, .. } => (*id, *rows, *cols),
                _ => (0, 0, 0),
            };
            if id == pane_id && rows == content.height && cols == content.width {
                found = true;
            } else {
                k = k + 1;
            }
        }
        proof {
            assert(size_reported(all, hits@[i as int], hide_borders) == found);
        }
        if !found {
            return false;
        }
        i = i + 1;
    }
    true
}

} // verus!
