//! What a server shows: the layout of its panes and the status bar.

use crate::geometry;
use crate::navigation;
use crate::text;
use crate::geometry::Rect;
use vstd::prelude::*;

verus! {

/// Characters of one style, next to each other.
#[derive(Debug)]
pub struct CellRunJson {
    pub text: String,
    pub fg: String,
    pub bg: String,
    pub flags: u8,
    pub width: u16,
}

/// One row of a pane; in copy mode with the line that it shows a part of.
#[derive(Debug)]
pub struct RowRunsJson {
    pub runs: Vec<CellRunJson>,
    pub line: Option<usize>,
    pub start_col: usize,
    pub end_col: usize,
}

/// One window on the status bar.
#[derive(Debug)]
pub struct WindowTabJson {
    pub index: usize,
    pub name: String,
    pub active: bool,
}

/// The status bar.
#[derive(Debug)]
pub struct StatusJson {
    pub left: String,
    pub right: String,
    pub windows: Vec<WindowTabJson>,
}

/// The panes of a window. How far a pane is scrolled is a number that only drawing the scroll bar
/// reads; here it is carried by its bits.
#[derive(Debug)]
pub enum LayoutJson {
    Split { direction: String, sizes: Vec<u16>, children: Vec<LayoutJson> },
    Leaf {
        id: usize,
        rows: u16,
        cols: u16,
        cursor_row: u16,
        cursor_col: u16,
        hide_cursor: bool,
        alternate_screen: bool,
        mouse_mode: u8,
        in_copy_mode: bool,
        scroll_ratio: Option<u32>,
        cursor_shape: u8,
        active: bool,
        rows_v2: Vec<RowRunsJson>,
        title: Option<String>,
    },
}

/// All that a server sends of a window.
#[derive(Debug)]
pub struct FrameData {
    pub frame_type: String,
    pub layout: LayoutJson,
    pub status: Option<StatusJson>,
    pub ansi: Option<String>,
    pub exit: bool,
    pub yank_text: Option<String>,
}

impl LayoutJson {
    /// The panes directly below; none below a pane.
    pub open spec fn kids(self) -> Seq<LayoutJson> {
        match self {
            LayoutJson::Split { children, .. } => children@,
            LayoutJson::Leaf { .. } => Seq::empty(),
        }
    }

    pub open spec fn is_active(self) -> bool {
        match self {
            LayoutJson::Split { .. } => false,
            LayoutJson::Leaf { active, .. } => active,
        }
    }

    pub open spec fn pane_id(self) -> usize {
        match self {
            LayoutJson::Split { .. } => 0,
            LayoutJson::Leaf { id, .. } => id,
        }
    }
}

/// The panes of a layout, in reading order.
pub open spec fn leaves(layout: LayoutJson) -> Seq<LayoutJson>
    decreases layout, layout.kids().len() + 1,
{
    match layout {
        LayoutJson::Split { .. } => leaves_of(layout, layout.kids().len() as int),
        LayoutJson::Leaf { .. } => seq![layout],
    }
}

/// The panes of the first `n` children of a split.
pub open spec fn leaves_of(layout: LayoutJson, n: int) -> Seq<LayoutJson>
    decreases layout, n,
{
    if n <= 0 || n > layout.kids().len() {
        Seq::empty()
    } else {
        leaves_of(layout, n - 1) + leaves(layout.kids()[n - 1])
    }
}

pub open spec fn refs_to(v: Seq<&LayoutJson>) -> Seq<LayoutJson> {
    Seq::new(v.len(), |i: int| *v[i])
}

fn push_leaves<'a>(layout: &'a LayoutJson, out: &mut Vec<&'a LayoutJson>)
    ensures
        refs_to(final(out)@) == refs_to(old(out)@) + leaves(*layout),
    decreases layout,
{
    match layout {
        LayoutJson::Split { children, .. } => {
            let ghost start = refs_to(out@);
            let mut i: usize = 0;
            proof {
                assert(start + leaves_of(*layout, 0) =~= start);
            }
            while i < children.len()
                invariant
                    i <= children@.len(),
                    layout.kids() == children@,
                    *layout is Split,
                    refs_to(out@) == start + leaves_of(*layout, i as int),
                    start == refs_to(old(out)@),
                decreases children@.len() - i,
            {
                proof {
                    assert(decreases_to!(layout => children@[i as int]));
                }
                push_leaves(&children[i], out);
                proof {
                    let more = leaves(children@[i as int]);
                    assert((start + leaves_of(*layout, i as int)) + more =~= start + (leaves_of(
                        *layout,
                        i as int,
                    ) + more));
                }
                i = i + 1;
            }
        },
        LayoutJson::Leaf { .. } => {
            let ghost start = refs_to(out@);
            out.push(layout);
            proof {
                assert(refs_to(out@) =~= start + seq![*layout]);
            }
        },
    }
}

/// The panes of a layout, in reading order.
pub fn collect_leaves(layout: &LayoutJson) -> (r: Vec<&LayoutJson>)
    ensures
        refs_to(r@) == leaves(*layout),
        r@.len() == leaves(*layout).len(),
{
    let mut out: Vec<&LayoutJson> = Vec::new();
    push_leaves(layout, &mut out);
    proof {
        assert(refs_to(Seq::<&LayoutJson>::empty()) + leaves(*layout) =~= leaves(*layout));
    }
    out
}

/// The first pane from `from` on that `pred` picks.
pub open spec fn first_leaf(
    panes: Seq<LayoutJson>,
    pred: spec_fn(LayoutJson) -> bool,
    from: int,
) -> Option<LayoutJson>
    decreases panes.len() - from,
{
    if from >= panes.len() {
        None
    } else if pred(panes[from]) {
        Some(panes[from])
    } else {
        first_leaf(panes, pred, from + 1)
    }
}

/// Whether a pane is active and shows its cursor.
pub open spec fn shows_cursor(pane: LayoutJson) -> bool {
    match pane {
        LayoutJson::Leaf { active, hide_cursor, .. } => active && !hide_cursor,
        _ => false,
    }
}

pub open spec fn shape_of(pane: LayoutJson) -> u8 {
    match pane {
        LayoutJson::Leaf { cursor_shape, .. } => cursor_shape,
        _ => 0,
    }
}

/// The cursor shape of the active pane, unless it hides its cursor.
pub fn active_cursor_shape(fd: &FrameData) -> (r: Option<u8>)
    ensures
        r == (match first_leaf(leaves(fd.layout), |p: LayoutJson| shows_cursor(p), 0) {
            Some(p) => Some(shape_of(p)),
            None => None,
        }),
{
    let panes = collect_leaves(&fd.layout);
    let ghost all = leaves(fd.layout);
    let ghost pred = |p: LayoutJson| shows_cursor(p);
    let mut i: usize = 0;
    while i < panes.len()
        invariant
            i <= panes@.len(),
            panes@.len() == all.len(),
            all == refs_to(panes@),
            all == leaves(fd.layout),
            pred == (|p: LayoutJson| shows_cursor(p)),
            first_leaf(all, pred, i as int) == first_leaf(all, pred, 0),
        decreases panes@.len() - i,
    {
        proof {
            assert(all[i as int] == *panes@[i as int]);
        }
        if let LayoutJson::Leaf { active, hide_cursor, cursor_shape, .. } = panes[i] {
            if *active && !*hide_cursor {
                return Some(*cursor_shape);
            }
        }
        i = i + 1;
    }
    None
}

/// Whether a pane is active and its program asked for the mouse.
pub open spec fn wants_mouse(pane: LayoutJson) -> bool {
    match pane {
        LayoutJson::Leaf { active, mouse_mode, .. } => active && mouse_mode != 0,
        _ => false,
    }
}

pub open spec fn mouse_mode_of(pane: LayoutJson) -> u8 {
    match pane {
        LayoutJson::Leaf { mouse_mode, .. } => mouse_mode,
        _ => 0,
    }
}

/// The mouse mode that the active pane's program asked for, zero where it did not.
pub open spec fn mouse_mode_in(layout: LayoutJson) -> u8 {
    match first_leaf(leaves(layout), |p: LayoutJson| wants_mouse(p), 0) {
        Some(p) => mouse_mode_of(p),
        None => 0,
    }
}

/// The mouse mode that the active pane's program asked for, zero where it did not.
pub fn active_mouse_mode(fd: &FrameData) -> (r: u8)
    ensures
        r == mouse_mode_in(fd.layout),
{
    let panes = collect_leaves(&fd.layout);
    let ghost all = leaves(fd.layout);
    let ghost pred = |p: LayoutJson| wants_mouse(p);
    let mut i: usize = 0;
    while i < panes.len()
        invariant
            i <= panes@.len(),
            panes@.len() == all.len(),
            all == refs_to(panes@),
            all == leaves(fd.layout),
            pred == (|p: LayoutJson| wants_mouse(p)),
            first_leaf(all, pred, i as int) == first_leaf(all, pred, 0),
        decreases panes@.len() - i,
    {
        proof {
            assert(all[i as int] == *panes@[i as int]);
        }
        if let LayoutJson::Leaf { active, mouse_mode, .. } = panes[i] {
            if *active && *mouse_mode != 0 {
                return *mouse_mode;
            }
        }
        i = i + 1;
    }
    0
}

/// Whether a pane is active and in copy mode.
pub open spec fn copying(pane: LayoutJson) -> bool {
    match pane {
        LayoutJson::Leaf { active, in_copy_mode, .. } => active && in_copy_mode,
        _ => false,
    }
}

/// Whether an active pane is in copy mode.
pub open spec fn copying_in(layout: LayoutJson) -> bool {
    exists|i: int| 0 <= i < leaves(layout).len() && copying(#[trigger] leaves(layout)[i])
}

/// Whether an active pane is in copy mode.
pub fn active_in_copy_mode(fd: &FrameData) -> (r: bool)
    ensures
        r == copying_in(fd.layout),
{
    let panes = collect_leaves(&fd.layout);
    let ghost all = leaves(fd.layout);
    let mut i: usize = 0;
    while i < panes.len()
        invariant
            i <= panes@.len(),
            panes@.len() == all.len(),
            all == refs_to(panes@),
            all == leaves(fd.layout),
            forall|k: int| 0 <= k < i ==> !copying(#[trigger] all[k]),
        decreases panes@.len() - i,
    {
        proof {
            assert(all[i as int] == *panes@[i as int]);
        }
        if let LayoutJson::Leaf { active, in_copy_mode, .. } = panes[i] {
            if *active && *in_copy_mode {
                proof {
                    assert(copying(all[i as int]));
                }
                return true;
            }
        }
        i = i + 1;
    }
    false
}

/// Whether a pane is active and scrolled.
pub open spec fn scrolled(pane: LayoutJson) -> bool {
    match pane {
        LayoutJson::Leaf { active, scroll_ratio, .. } => active && scroll_ratio is Some,
        _ => false,
    }
}

pub open spec fn ratio_bits(pane: LayoutJson) -> Option<u32> {
    match pane {
        LayoutJson::Leaf { scroll_ratio, .. } => scroll_ratio,
        _ => None,
    }
}

/// How far the active pane is scrolled, by its bits, if it is.
pub fn active_scroll_ratio(fd: &FrameData) -> (r: Option<u32>)
    ensures
        r == (match first_leaf(leaves(fd.layout), |p: LayoutJson| scrolled(p), 0) {
            Some(p) => ratio_bits(p),
            None => None,
        }),
{
    let panes = collect_leaves(&fd.layout);
    let ghost all = leaves(fd.layout);
    let ghost pred = |p: LayoutJson| scrolled(p);
    let mut i: usize = 0;
    while i < panes.len()
        invariant
            i <= panes@.len(),
            panes@.len() == all.len(),
            all == refs_to(panes@),
            all == leaves(fd.layout),
            pred == (|p: LayoutJson| scrolled(p)),
            first_leaf(all, pred, i as int) == first_leaf(all, pred, 0),
        decreases panes@.len() - i,
    {
        proof {
            assert(all[i as int] == *panes@[i as int]);
        }
        if let LayoutJson::Leaf { active, scroll_ratio, .. } = panes[i] {
            if *active && scroll_ratio.is_some() {
                return *scroll_ratio;
            }
        }
        i = i + 1;
    }
    None
}

/// The identity of the active pane, if there is one.
pub open spec fn active_id(layout: LayoutJson) -> Option<usize> {
    match first_leaf(leaves(layout), |p: LayoutJson| p.is_active(), 0) {
        Some(p) => Some(p.pane_id()),
        None => None,
    }
}

/// The identity of the active pane, if there is one.
pub fn active_pane_id(layout: &LayoutJson) -> (r: Option<usize>)
    ensures
        r == active_id(*layout),
{
    let panes = collect_leaves(layout);
    let ghost all = leaves(*layout);
    let ghost pred = |p: LayoutJson| p.is_active();
    let mut i: usize = 0;
    while i < panes.len()
        invariant
            i <= panes@.len(),
            panes@.len() == all.len(),
            all == refs_to(panes@),
            all == leaves(*layout),
            pred == (|p: LayoutJson| p.is_active()),
            first_leaf(all, pred, i as int) == first_leaf(all, pred, 0),
        decreases panes@.len() - i,
    {
        proof {
            assert(all[i as int] == *panes@[i as int]);
        }
        if let LayoutJson::Leaf { id, active, .. } = panes[i] {
            if *active {
                return Some(*id);
            }
        }
        i = i + 1;
    }
    None
}

/// Whether a layout has an active pane.
pub open spec fn has_active(layout: LayoutJson) -> bool {
    exists|i: int| 0 <= i < leaves(layout).len() && (#[trigger] leaves(layout)[i]).is_active()
}

/// Whether a layout has an active pane.
pub fn pane_tree_has_active(layout: &LayoutJson) -> (r: bool)
    ensures
        r == has_active(*layout),
{
    let panes = collect_leaves(layout);
    let ghost all = leaves(*layout);
    let mut i: usize = 0;
    while i < panes.len()
        invariant
            i <= panes@.len(),
            panes@.len() == all.len(),
            all == refs_to(panes@),
            all == leaves(*layout),
            forall|k: int| 0 <= k < i ==> !(#[trigger] all[k]).is_active(),
        decreases panes@.len() - i,
    {
        proof {
            assert(all[i as int] == *panes@[i as int]);
        }
        if let LayoutJson::Leaf { active, .. } = panes[i] {
            if *active {
                proof {
                    assert(all[i as int].is_active());
                }
                return true;
            }
        }
        i = i + 1;
    }
    false
}

/// The first active window from `from` on.
pub open spec fn first_active_tab(windows: Seq<WindowTabJson>, from: int) -> Option<usize>
    decreases windows.len() - from,
{
    if from >= windows.len() {
        None
    } else if windows[from].active {
        Some(windows[from].index)
    } else {
        first_active_tab(windows, from + 1)
    }
}

/// The index of the active window on the status bar.
pub fn active_window_index(fd: &FrameData) -> (r: Option<usize>)
    ensures
        r == (match fd.status {
            Some(s) => first_active_tab(s.windows@, 0),
            None => None,
        }),
{
    match &fd.status {
        Some(status) => {
            let mut i: usize = 0;
            while i < status.windows.len()
                invariant
                    i <= status.windows@.len(),
                    fd.status == Some(*status),
                    first_active_tab(status.windows@, i as int) == first_active_tab(
                        status.windows@,
                        0,
                    ),
                decreases status.windows@.len() - i,
            {
                if status.windows[i].active {
                    return Some(status.windows[i].index);
                }
                i = i + 1;
            }
            None
        },
        None => None,
    }
}

/// Identity, rows and columns of a pane.
pub open spec fn geometry_of(pane: LayoutJson) -> (usize, u16, u16) {
    match pane {
        LayoutJson::Leaf { id, rows, cols, .. } => (id, rows, cols),
        _ => (0, 0, 0),
    }
}

/// A place put into a list behind the last one whose identity is not greater.
pub open spec fn placed_by_id(list: Seq<(usize, u16, u16)>, x: (usize, u16, u16)) -> Seq<
    (usize, u16, u16),
>
    decreases list.len(),
{
    if list.len() > 0 && list.last().0 > x.0 {
        placed_by_id(list.drop_last(), x).push(list.last())
    } else {
        list.push(x)
    }
}

/// The first `n` panes' identities, rows and columns, ordered by identity; panes with the same
/// one stay in reading order.
pub open spec fn by_id(panes: Seq<LayoutJson>, n: int) -> Seq<(usize, u16, u16)>
    decreases n,
{
    if n <= 0 {
        Seq::empty()
    } else {
        placed_by_id(by_id(panes, n - 1), geometry_of(panes[n - 1]))
    }
}

fn insert_by_id(list: &mut Vec<(usize, u16, u16)>, x: (usize, u16, u16))
    ensures
        final(list)@ == placed_by_id(old(list)@, x),
{
    let ghost all = list@;
    let mut at: usize = list.len();
    proof {
        assert(all.take(at as int) =~= all);
        assert(placed_by_id(all, x) + all.skip(at as int) =~= placed_by_id(all, x));
    }
    while at > 0 && list[at - 1].0 > x.0
        invariant
            at <= all.len(),
            list@ == all,
            placed_by_id(all.take(at as int), x) + all.skip(at as int) == placed_by_id(all, x),
        decreases at,
    {
        proof {
            let front = all.take(at as int);
            assert(front.drop_last() =~= all.take(at - 1));
            let below = placed_by_id(all.take(at - 1), x);
            assert(below.push(all[at - 1]) + all.skip(at as int) =~= below + all.skip(at - 1));
        }
        at = at - 1;
    }
    list.insert(at, x);
    proof {
        let front = all.take(at as int);
        assert(placed_by_id(front, x) == front.push(x));
        assert(list@ =~= front.push(x) + all.skip(at as int));
    }
}

/// Identity, rows and columns of every pane, ordered by identity: it changes whenever the
/// geometry of a layout does.
pub fn layout_geometry_fingerprint(layout: &LayoutJson) -> (r: Vec<(usize, u16, u16)>)
    ensures
        r@ == by_id(leaves(*layout), leaves(*layout).len() as int),
{
    let panes = collect_leaves(layout);
    let ghost all = leaves(*layout);
    let mut out: Vec<(usize, u16, u16)> = Vec::new();
    let mut i: usize = 0;
    while i < panes.len()
        invariant
            i <= panes@.len(),
            panes@.len() == all.len(),
            all == refs_to(panes@),
            out@ == by_id(all, i as int),
        decreases panes@.len() - i,
    {
        proof {
            assert(all[i as int] == *panes@[i as int]);
        }
        let place: (usize, u16, u16) = match panes[i] {
            LayoutJson::Leaf { id, rows, cols, .. } => (*id, *rows, *cols),
            _ => (0, 0, 0),
        };
        insert_by_id(&mut out, place);
        i = i + 1;
    }
    out
}

/// The parts that a split's children take; children beyond the parts take none.
pub open spec fn parts_of(layout: LayoutJson, area: Rect, hide: bool) -> Seq<Rect> {
    match layout {
        LayoutJson::Split { direction, sizes, children } => geometry::split_parts(
            area,
            direction@ == "horizontal"@,
            sizes@,
            children@.len() as int,
            hide,
        ),
        LayoutJson::Leaf { .. } => Seq::empty(),
    }
}

/// The panes of a layout with the part of the area that each one takes, in reading order.
pub open spec fn placed(layout: LayoutJson, area: Rect, hide: bool) -> Seq<
    (LayoutJson, Rect),
>
    decreases layout, layout.kids().len() + 1,
{
    match layout {
        LayoutJson::Split { .. } => placed_of(
            layout,
            area,
            hide,
            text::min_int(
                layout.kids().len() as int,
                parts_of(layout, area, hide).len() as int,
            ),
        ),
        LayoutJson::Leaf { .. } => seq![(layout, area)],
    }
}

/// The same for the first `n` children of a split.
pub open spec fn placed_of(
    layout: LayoutJson,
    area: Rect,
    hide: bool,
    n: int,
) -> Seq<(LayoutJson, Rect)>
    decreases layout, n,
{
    if n <= 0 || n > layout.kids().len() {
        Seq::empty()
    } else {
        placed_of(layout, area, hide, n - 1) + placed(
            layout.kids()[n - 1],
            parts_of(layout, area, hide)[n - 1],
            hide,
        )
    }
}

pub open spec fn place_refs(v: Seq<(&LayoutJson, Rect)>) -> Seq<(LayoutJson, Rect)> {
    Seq::new(v.len(), |i: int| (*v[i].0, v[i].1))
}

/// The parts that a split's children take.
pub fn child_rects(layout: &LayoutJson, area: Rect, hide_borders: bool) -> (r: Vec<
    Rect,
>)
    ensures
        r@ == parts_of(*layout, area, hide_borders),
{
    match layout {
        LayoutJson::Split { direction, sizes, children } => {
            geometry::split_layout_rects(
                area,
                direction.as_str(),
                sizes.as_slice(),
                children.len(),
                hide_borders,
            )
        },
        LayoutJson::Leaf { .. } => Vec::new(),
    }
}

fn push_placed<'a>(
    layout: &'a LayoutJson,
    area: Rect,
    hide: bool,
    out: &mut Vec<(&'a LayoutJson, Rect)>,
)
    ensures
        place_refs(final(out)@) == place_refs(old(out)@) + placed(*layout, area, hide),
    decreases layout,
{
    match layout {
        LayoutJson::Split { children, .. } => {
            let ghost start = place_refs(out@);
            let chunks = child_rects(layout, area, hide);
            let n: usize = if children.len() < chunks.len() {
                children.len()
            } else {
                chunks.len()
            };
            let mut i: usize = 0;
            proof {
                assert(start + placed_of(*layout, area, hide, 0) =~= start);
            }
            while i < n
                invariant
                    i <= n,
                    n == text::min_int(children@.len() as int, chunks@.len() as int),
                    layout.kids() == children@,
                    chunks@ == parts_of(*layout, area, hide),
                    *layout is Split,
                    place_refs(out@) == start + placed_of(*layout, area, hide, i as int),
                    start == place_refs(old(out)@),
                decreases n - i,
            {
                proof {
                    assert(decreases_to!(layout => children@[i as int]));
                }
                push_placed(&children[i], chunks[i], hide, out);
                proof {
                    let so_far = placed_of(*layout, area, hide, i as int);
                    let more = placed(children@[i as int], chunks@[i as int], hide);
                    assert((start + so_far) + more =~= start + (so_far + more));
                }
                i = i + 1;
            }
        },
        LayoutJson::Leaf { .. } => {
            let ghost start = place_refs(out@);
            out.push((layout, area));
            proof {
                assert(place_refs(out@) =~= start + seq![(*layout, area)]);
            }
        },
    }
}

/// The panes of a layout with the part of the area that each one takes.
pub fn collect_placed(layout: &LayoutJson, area: Rect, hide_borders: bool) -> (r: Vec<
    (&LayoutJson, Rect),
>)
    ensures
        place_refs(r@) == placed(*layout, area, hide_borders),
        r@.len() == placed(*layout, area, hide_borders).len(),
{
    let mut out: Vec<(&LayoutJson, Rect)> = Vec::new();
    push_placed(layout, area, hide_borders, &mut out);
    proof {
        let all = placed(*layout, area, hide_borders);
        assert(place_refs(Seq::<(&LayoutJson, Rect)>::empty()) + all =~= all);
    }
    out
}

/// Whether a pane is active and its cursor has a place on screen: not hidden, and not scrolled
/// away outside copy mode.
pub open spec fn cursor_on_screen(pane: LayoutJson) -> bool {
    match pane {
        LayoutJson::Leaf { active, hide_cursor, in_copy_mode, scroll_ratio, .. } => active
            && !hide_cursor && (in_copy_mode || scroll_ratio is None),
        _ => false,
    }
}

/// Where a pane's cursor is on screen, cut back to the pane.
pub open spec fn cursor_cell(pane: LayoutJson, area: Rect, hide: bool) -> (u16, u16) {
    let content = geometry::content_of(area, hide);
    match pane {
        LayoutJson::Leaf { cursor_row, cursor_col, .. } => (
            text::min_int(
                navigation::sat16(content.x + cursor_col),
                navigation::sat16(content.x + text::max_int(content.width - 1, 0)),
            ) as u16,
            text::min_int(
                navigation::sat16(content.y + cursor_row),
                navigation::sat16(content.y + text::max_int(content.height - 1, 0)),
            ) as u16,
        ),
        _ => (0, 0),
    }
}

/// The first cursor among placed panes from `from` on.
pub open spec fn first_cursor(panes: Seq<(LayoutJson, Rect)>, hide: bool, from: int) -> Option<
    (u16, u16),
>
    decreases panes.len() - from,
{
    if from >= panes.len() {
        None
    } else if cursor_on_screen(panes[from].0) {
        Some(cursor_cell(panes[from].0, panes[from].1, hide))
    } else {
        first_cursor(panes, hide, from + 1)
    }
}

fn low(a: u16, b: u16) -> (r: u16)
    ensures
        r == text::min_int(a as int, b as int),
{
    if a < b {
        a
    } else {
        b
    }
}

/// Column and row of the active pane's cursor on screen, if it has one there.
pub fn cursor_position_in_layout(layout: &LayoutJson, area: Rect, hide_borders: bool) -> (r: Option<
    (u16, u16),
>)
    ensures
        r == first_cursor(placed(*layout, area, hide_borders), hide_borders, 0),
{
    let panes = collect_placed(layout, area, hide_borders);
    let ghost all = placed(*layout, area, hide_borders);
    let mut i: usize = 0;
    while i < panes.len()
        invariant
            i <= panes@.len(),
            panes@.len() == all.len(),
            all == place_refs(panes@),
            all == placed(*layout, area, hide_borders),
            first_cursor(all, hide_borders, i as int) == first_cursor(all, hide_borders, 0),
        decreases panes@.len() - i,
    {
        proof {
            assert(all[i as int] == (*panes@[i as int].0, panes@[i as int].1));
        }
        let rect: Rect = panes[i].1;
        if let LayoutJson::Leaf {
            active,
            hide_cursor,
            in_copy_mode,
            scroll_ratio,
            cursor_row,
            cursor_col,
            ..
        } = panes[i].0 {
            if *active && !*hide_cursor && (*in_copy_mode || scroll_ratio.is_none()) {
                let content = geometry::content_rect(rect, hide_borders);
                let right: u16 = content.x.saturating_add(content.width.saturating_sub(1));
                let bottom: u16 = content.y.saturating_add(content.height.saturating_sub(1));
                return Some(
                    (
                        low(content.x.saturating_add(*cursor_col), right),
                        low(content.y.saturating_add(*cursor_row), bottom),
                    ),
                );
            }
        }
        i = i + 1;
    }
    None
}

/// Column and row of the active pane's cursor on a screen whose last row is the status bar, if
/// there is one.
pub fn active_cursor_screen_position(fd: &FrameData, frame_area: Rect, hide_borders: bool) -> (r:
    Option<(u16, u16)>)
    ensures
        r == ({
            let area = if fd.status is Some {
                geometry::above_status(frame_area).0
            } else {
                frame_area
            };
            first_cursor(placed(fd.layout, area, hide_borders), hide_borders, 0)
        }),
{
    let layout_area = if fd.status.is_some() {
        geometry::split_status_row(frame_area).0
    } else {
        frame_area
    };
    cursor_position_in_layout(&fd.layout, layout_area, hide_borders)
}

/// The first pane from `from` on in whose part of the area a cell lies.
pub open spec fn pane_under(panes: Seq<(LayoutJson, Rect)>, col: int, row: int, from: int) -> Option<
    usize,
>
    decreases panes.len() - from,
{
    if from >= panes.len() {
        None
    } else if panes[from].1.has(col, row) {
        Some(panes[from].0.pane_id())
    } else {
        pane_under(panes, col, row, from + 1)
    }
}

/// The pane in whose part of the area a cell lies; none on a gap between panes.
pub fn find_pane_id_at(layout: &LayoutJson, area: Rect, col: u16, row: u16, hide_borders: bool) -> (r:
    Option<usize>)
    ensures
        r == pane_under(placed(*layout, area, hide_borders), col as int, row as int, 0),
{
    let panes = collect_placed(layout, area, hide_borders);
    let ghost all = placed(*layout, area, hide_borders);
    let mut i: usize = 0;
    while i < panes.len()
        invariant
            i <= panes@.len(),
            panes@.len() == all.len(),
            all == place_refs(panes@),
            all == placed(*layout, area, hide_borders),
            pane_under(all, col as int, row as int, i as int) == pane_under(
                all,
                col as int,
                row as int,
                0,
            ),
        decreases panes@.len() - i,
    {
        proof {
            assert(all[i as int] == (*panes@[i as int].0, panes@[i as int].1));
        }
        if panes[i].1.contains(col, row) {
            let id: usize = match panes[i].0 {
                LayoutJson::Leaf { id, .. } => *id,
                _ => 0,
            };
            return Some(id);
        }
        i = i + 1;
    }
    None
}

pub open spec fn rows_of(pane: LayoutJson) -> Seq<RowRunsJson> {
    match pane {
        LayoutJson::Leaf { rows_v2, .. } => rows_v2@,
        _ => Seq::empty(),
    }
}

/// Whether a search for the active pane ends here: it found one, with rows where rows are asked
/// for.
pub open spec fn found(pane: Option<LayoutJson>, need_rows: bool) -> bool {
    match pane {
        Some(p) => !need_rows || rows_of(p).len() > 0,
        None => false,
    }
}

/// The first child of a split, from `from` on and below `n`, that is itself the active pane.
pub open spec fn active_child(kids: Seq<LayoutJson>, need_rows: bool, n: int, from: int) -> Option<
    int,
>
    decreases n - from,
{
    if from >= n {
        None
    } else if kids[from].is_active() && found(Some(kids[from]), need_rows) {
        Some(from)
    } else {
        active_child(kids, need_rows, n, from + 1)
    }
}

/// The active pane and the cells of its content. A split is asked for an active pane among its
/// own children before any of them is looked into; without one the whole area stands for it.
pub open spec fn active_content(
    layout: LayoutJson,
    area: Rect,
    hide: bool,
    need_rows: bool,
) -> (Option<LayoutJson>, Rect)
    decreases layout, layout.kids().len() + 1,
{
    match layout {
        LayoutJson::Split { .. } => {
            let parts = parts_of(layout, area, hide);
            let n = text::min_int(layout.kids().len() as int, parts.len() as int);
            match active_child(layout.kids(), need_rows, n, 0) {
                Some(i) => (Some(layout.kids()[i]), geometry::content_of(parts[i], hide)),
                None => active_below(layout, area, hide, need_rows, 0),
            }
        },
        LayoutJson::Leaf { active, .. } => if active {
            (Some(layout), geometry::content_of(area, hide))
        } else {
            (None, area)
        },
    }
}

/// The same among the children of a split from `i` on, each looked into.
pub open spec fn active_below(
    layout: LayoutJson,
    area: Rect,
    hide: bool,
    need_rows: bool,
    i: int,
) -> (Option<LayoutJson>, Rect)
    decreases layout, layout.kids().len() - i,
{
    let parts = parts_of(layout, area, hide);
    if i < 0 || i >= layout.kids().len() || i >= parts.len() {
        (None, area)
    } else {
        let here = active_content(layout.kids()[i], parts[i], hide, need_rows);
        if found(here.0, need_rows) {
            here
        } else {
            active_below(layout, area, hide, need_rows, i + 1)
        }
    }
}

pub open spec fn pane_at(p: Option<&LayoutJson>) -> Option<LayoutJson> {
    match p {
        Some(l) => Some(*l),
        None => None,
    }
}

fn is_found(pane: Option<&LayoutJson>, need_rows: bool) -> (r: bool)
    ensures
        r == found(pane_at(pane), need_rows),
{
    match pane {
        Some(LayoutJson::Leaf { rows_v2, .. }) => !need_rows || rows_v2.len() > 0,
        Some(_) => !need_rows,
        None => false,
    }
}

/// The active pane and the cells of its content.
pub fn find_active<'a>(
    layout: &'a LayoutJson,
    area: Rect,
    hide_borders: bool,
    need_rows: bool,
) -> (r: (Option<&'a LayoutJson>, Rect))
    ensures
        (pane_at(r.0), r.1) == active_content(*layout, area, hide_borders, need_rows),
    decreases layout,
{
    match layout {
        LayoutJson::Split { children, .. } => {
            let chunks = child_rects(layout, area, hide_borders);
            let n: usize = if children.len() < chunks.len() {
                children.len()
            } else {
                chunks.len()
            };
            let mut i: usize = 0;
            while i < n
                invariant
                    i <= n,
                    n == text::min_int(children@.len() as int, chunks@.len() as int),
                    layout.kids() == children@,
                    *layout is Split,
                    chunks@ == parts_of(*layout, area, hide_borders),
                    active_child(children@, need_rows, n as int, i as int) == active_child(
                        children@,
                        need_rows,
                        n as int,
                        0,
                    ),
                decreases n - i,
            {
                if let LayoutJson::Leaf { active, .. } = &children[i] {
                    if *active && is_found(Some(&children[i]), need_rows) {
                        return (Some(&children[i]), geometry::content_rect(chunks[i], hide_borders));
                    }
                }
                i = i + 1;
            }
            let mut i: usize = 0;
            while i < n
                invariant
                    i <= n,
                    n == text::min_int(children@.len() as int, chunks@.len() as int),
                    layout.kids() == children@,
                    *layout is Split,
                    chunks@ == parts_of(*layout, area, hide_borders),
                    active_child(children@, need_rows, n as int, 0) is None,
                    active_below(*layout, area, hide_borders, need_rows, i as int)
                        == active_below(*layout, area, hide_borders, need_rows, 0),
                decreases n - i,
            {
                proof {
                    assert(decreases_to!(layout => children@[i as int]));
                }
                let here = find_active(&children[i], chunks[i], hide_borders, need_rows);
                if is_found(here.0, need_rows) {
                    return here;
                }
                i = i + 1;
            }
            (None, area)
        },
        LayoutJson::Leaf { active, .. } => {
            if *active {
                (Some(layout), geometry::content_rect(area, hide_borders))
            } else {
                (None, area)
            }
        },
    }
}

/// Text of the first `n` runs of a row.
pub open spec fn runs_text(runs: Seq<CellRunJson>, n: int) -> Seq<char>
    decreases n,
{
    if n <= 0 {
        Seq::empty()
    } else {
        runs_text(runs, n - 1) + runs[n - 1].text@
    }
}

/// Text of a row.
pub open spec fn row_chars(row: RowRunsJson) -> Seq<char> {
    runs_text(row.runs@, row.runs@.len() as int)
}

/// One row of a pane as text; in copy mode with the line that it shows a part of.
#[derive(Debug)]
pub struct PaneContentRow {
    pub text: String,
    pub line: Option<usize>,
}

#[verifier::ext_equal]
pub struct ContentRowV {
    pub text: Seq<char>,
    pub line: Option<usize>,
}

impl View for PaneContentRow {
    type V = ContentRowV;

    open spec fn view(&self) -> ContentRowV {
        ContentRowV { text: self.text@, line: self.line }
    }
}

pub open spec fn content_views(rows: Seq<PaneContentRow>) -> Seq<ContentRowV> {
    Seq::new(rows.len(), |i: int| rows[i]@)
}

/// The rows of a pane as text.
pub open spec fn content_rows(rows: Seq<RowRunsJson>) -> Seq<ContentRowV> {
    Seq::new(rows.len(), |i: int| ContentRowV { text: row_chars(rows[i]), line: rows[i].line })
}

/// The rows of what a search for the active pane found, none without one.
pub open spec fn found_rows(pane: Option<LayoutJson>) -> Seq<ContentRowV> {
    match pane {
        Some(p) => content_rows(rows_of(p)),
        None => Seq::empty(),
    }
}

fn text_of_row(row: &RowRunsJson) -> (r: String)
    ensures
        r@ == row_chars(*row),
{
    let mut out = String::new();
    let mut i: usize = 0;
    while i < row.runs.len()
        invariant
            i <= row.runs@.len(),
            out@ == runs_text(row.runs@, i as int),
        decreases row.runs@.len() - i,
    {
        out.append(row.runs[i].text.as_str());
        i = i + 1;
    }
    out
}

/// The active pane's rows as text and the cells of its content.
pub fn find_active_pane_content(layout: &LayoutJson, area: Rect, hide_borders: bool) -> (r: (
    Vec<PaneContentRow>,
    Rect,
))
    ensures
        ({
            let f = active_content(*layout, area, hide_borders, true);
            &&& content_views(r.0@) == found_rows(f.0)
            &&& r.1 == f.1
        }),
{
    let (pane, content) = find_active(layout, area, hide_borders, true);
    let mut out: Vec<PaneContentRow> = Vec::new();
    if let Some(LayoutJson::Leaf { rows_v2, .. }) = pane {
        let mut i: usize = 0;
        while i < rows_v2.len()
            invariant
                i <= rows_v2@.len(),
                out@.len() == i,
                forall|k: int|
                    0 <= k < i ==> (#[trigger] out@[k])@ == (ContentRowV {
                        text: row_chars(rows_v2@[k]),
                        line: rows_v2@[k].line,
                    }),
            decreases rows_v2@.len() - i,
        {
            out.push(PaneContentRow { text: text_of_row(&rows_v2[i]), line: rows_v2[i].line });
            i = i + 1;
        }
    }
    proof {
        let f = active_content(*layout, area, hide_borders, true);
        assert(content_views(out@) =~= found_rows(f.0));
    }
    (out, content)
}

/// The active pane's rows and the cells of its content, if there is an active pane.
pub fn active_pane_rows_v2(layout: &LayoutJson, area: Rect, hide_borders: bool) -> (r: Option<
    (&[RowRunsJson], Rect),
>)
    ensures
        ({
            let f = active_content(*layout, area, hide_borders, false);
            match f.0 {
                Some(p) => r matches Some(x) && x.0@ == rows_of(p) && x.1 == f.1,
                None => r is None,
            }
        }),
{
    proof {
        lemma_found_is_pane(*layout, area, hide_borders, false);
    }
    let (pane, content) = find_active(layout, area, hide_borders, false);
    match pane {
        Some(LayoutJson::Leaf { rows_v2, .. }) => Some((rows_v2.as_slice(), content)),
        _ => None,
    }
}

/// What a search for the active pane finds is an active pane.
pub proof fn lemma_found_is_pane(
    layout: LayoutJson,
    area: Rect,
    hide: bool,
    need_rows: bool,
)
    ensures
        active_content(layout, area, hide, need_rows).0 matches Some(p) ==> p.is_active(),
    decreases layout, layout.kids().len() + 1,
{
    if layout is Split {
        let parts = parts_of(layout, area, hide);
        let n = text::min_int(layout.kids().len() as int, parts.len() as int);
        lemma_active_child(layout.kids(), need_rows, n, 0);
        lemma_below_is_pane(layout, area, hide, need_rows, 0);
    }
}

proof fn lemma_active_child(kids: Seq<LayoutJson>, need_rows: bool, n: int, from: int)
    ensures
        active_child(kids, need_rows, n, from) matches Some(i) ==> from <= i < n
            && kids[i].is_active(),
    decreases n - from,
{
    if from < n {
        lemma_active_child(kids, need_rows, n, from + 1);
    }
}

proof fn lemma_below_is_pane(
    layout: LayoutJson,
    area: Rect,
    hide: bool,
    need_rows: bool,
    i: int,
)
    ensures
        active_below(layout, area, hide, need_rows, i).0 matches Some(p) ==> p.is_active(),
    decreases layout, layout.kids().len() - i,
{
    let parts = parts_of(layout, area, hide);
    if 0 <= i < layout.kids().len() && i < parts.len() {
        lemma_found_is_pane(layout.kids()[i], parts[i], hide, need_rows);
        lemma_below_is_pane(layout, area, hide, need_rows, i + 1);
    }
}

/// The area above the last row of a frame.
pub open spec fn without_last_row(area: Rect) -> Rect {
    Rect { height: text::max_int(area.height - 1, 0) as u16, ..area }
}

/// The cells of the active pane's content in a frame whose last row is the status bar.
pub fn active_pane_content_rect(fd: &FrameData, frame_area: Rect, hide_borders: bool) -> (r: Rect)
    ensures
        r == active_content(fd.layout, without_last_row(frame_area), hide_borders, true).1,
{
    let area = Rect::new(
        frame_area.x,
        frame_area.y,
        frame_area.width,
        frame_area.height.saturating_sub(1),
    );
    find_active(&fd.layout, area, hide_borders, true).1
}

/// The part of the area that the active pane takes, its border with it; the whole area without
/// one.
pub open spec fn active_rect(layout: LayoutJson, area: Rect, hide: bool) -> Rect
    decreases layout, layout.kids().len() + 1,
{
    match layout {
        LayoutJson::Split { .. } => active_rect_from(layout, area, hide, 0),
        LayoutJson::Leaf { .. } => area,
    }
}

/// The same among the children of a split from `i` on.
pub open spec fn active_rect_from(layout: LayoutJson, area: Rect, hide: bool, i: int) -> Rect
    decreases layout, layout.kids().len() - i,
{
    let parts = parts_of(layout, area, hide);
    if i < 0 || i >= layout.kids().len() || i >= parts.len() {
        area
    } else if has_active(layout.kids()[i]) {
        active_rect(layout.kids()[i], parts[i], hide)
    } else {
        active_rect_from(layout, area, hide, i + 1)
    }
}

/// The part of the area that the active pane takes, its border with it.
pub fn active_pane_layout_rect(layout: &LayoutJson, area: Rect, hide_borders: bool) -> (r: Rect)
    ensures
        r == active_rect(*layout, area, hide_borders),
    decreases layout,
{
    match layout {
        LayoutJson::Split { children, .. } => {
            let chunks = child_rects(layout, area, hide_borders);
            let n: usize = if children.len() < chunks.len() {
                children.len()
            } else {
                chunks.len()
            };
            let mut i: usize = 0;
            while i < n
                invariant
                    i <= n,
                    n == text::min_int(children@.len() as int, chunks@.len() as int),
                    layout.kids() == children@,
                    *layout is Split,
                    chunks@ == parts_of(*layout, area, hide_borders),
                    active_rect_from(*layout, area, hide_borders, i as int) == active_rect_from(
                        *layout,
                        area,
                        hide_borders,
                        0,
                    ),
                decreases n - i,
            {
                proof {
                    assert(decreases_to!(layout => children@[i as int]));
                }
                if pane_tree_has_active(&children[i]) {
                    return active_pane_layout_rect(&children[i], chunks[i], hide_borders);
                }
                i = i + 1;
            }
            area
        },
        LayoutJson::Leaf { .. } => area,
    }
}

} // verus!
