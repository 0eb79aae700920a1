//! Rectangles on screen.

use crate::navigation;
use crate::text;
use vstd::prelude::*;

verus! {

/// A rectangle of screen cells.
#[derive(Clone, Copy, Debug, PartialEq, Eq, Structural)]
pub struct Rect {
    pub x: u16,
    pub y: u16,
    pub width: u16,
    pub height: u16,
}

/// The size of the part of the screen that a server draws on, and where it begins.
#[derive(Clone, Copy, Debug, PartialEq, Eq, Structural)]
pub struct Size {
    pub rows: u16,
    pub cols: u16,
    pub x: u16,
    pub y: u16,
}

impl Rect {
    /// The rectangle at a place with a width and a height.
    pub fn new(x: u16, y: u16, width: u16, height: u16) -> (r: Rect)
        ensures
            r == (Rect { x, y, width, height }),
    {
        Rect { x, y, width, height }
    }

    /// Whether a cell lies in the rectangle.
    pub open spec fn has(self, col: int, row: int) -> bool {
        self.x <= col < self.x + self.width && self.y <= row < self.y + self.height
    }

    /// Whether a cell lies in the rectangle.
    pub fn contains(&self, col: u16, row: u16) -> (r: bool)
        ensures
            r == self.has(col as int, row as int),
    {
        col >= self.x && col - self.x < self.width && row >= self.y && row - self.y < self.height
    }

    /// Whether every cell of the rectangle lies in another one.
    pub open spec fn within(self, outer: Rect) -> bool {
        &&& outer.x <= self.x
        &&& self.x + self.width <= outer.x + outer.width
        &&& outer.y <= self.y
        &&& self.y + self.height <= outer.y + outer.height
    }

    /// Whether no cell of the rectangle lies in another one.
    pub open spec fn apart(self, other: Rect) -> bool {
        ||| self.x + self.width <= other.x
        ||| other.x + other.width <= self.x
        ||| self.y + self.height <= other.y
        ||| other.y + other.height <= self.y
    }

    /// Whether the rectangle ends within the coordinates there are.
    pub open spec fn on_screen(self) -> bool {
        self.x + self.width <= 65535 && self.y + self.height <= 65535
    }
}

/// The part of a pane inside its border; all of it where it has none.
pub open spec fn content_of(area: Rect, hide_borders: bool) -> Rect {
    if !hide_borders && area.width > 2 && area.height > 2 {
        Rect {
            x: navigation::sat16(area.x + 1) as u16,
            y: navigation::sat16(area.y + 1) as u16,
            width: (area.width - 2) as u16,
            height: (area.height - 2) as u16,
        }
    } else {
        area
    }
}

/// The part of a pane inside its border; all of it where borders are hidden or there is no room
/// for one.
pub fn content_rect(area: Rect, hide_borders: bool) -> (r: Rect)
    ensures
        r == content_of(area, hide_borders),
{
    if !hide_borders && area.width > 2 && area.height > 2 {
        Rect {
            x: area.x.saturating_add(1),
            y: area.y.saturating_add(1),
            width: area.width - 2,
            height: area.height - 2,
        }
    } else {
        area
    }
}

/// Columns of the sidebar: a quarter of the screen, within bounds, but never so many that fewer
/// than twenty are left for the panes.
pub open spec fn sidebar_columns(cols: u16, visible: bool) -> int {
    if !visible {
        0
    } else {
        text::min_int(text::max_int(text::min_int((cols / 4) as int, 32), 22), text::max_int(cols - 20, 0))
    }
}

/// The sidebar, the part beside it, and the same without the status bar at the bottom.
#[derive(Clone, Copy, Debug, PartialEq, Eq, Structural)]
pub struct WorkspaceAreas {
    pub sidebar: Rect,
    pub frame: Rect,
    pub layout: Rect,
}

pub open spec fn areas_of(cols: u16, rows: u16, visible: bool) -> WorkspaceAreas {
    let sidebar = sidebar_columns(cols, visible);
    let frame = Rect {
        x: sidebar as u16,
        y: 0,
        width: text::max_int(cols - sidebar, 1) as u16,
        height: text::max_int(rows as int, 1) as u16,
    };
    WorkspaceAreas {
        sidebar: Rect { x: 0, y: 0, width: sidebar as u16, height: rows },
        frame,
        layout: Rect { height: (frame.height - 1) as u16, ..frame },
    }
}

/// How the screen is divided between sidebar and panes.
pub fn workspace_areas(cols: u16, rows: u16, sidebar_visible: bool) -> (r: WorkspaceAreas)
    ensures
        r == areas_of(cols, rows, sidebar_visible),
{
    let quarter: u16 = cols / 4;
    let preferred: u16 = if quarter < 22 {
        22
    } else if quarter > 32 {
        32
    } else {
        quarter
    };
    let room: u16 = cols.saturating_sub(20);
    let sidebar_width: u16 = if !sidebar_visible {
        0
    } else if preferred < room {
        preferred
    } else {
        room
    };
    let rest: u16 = cols - sidebar_width;
    let frame = Rect {
        x: sidebar_width,
        y: 0,
        width: if rest < 1 {
            1
        } else {
            rest
        },
        height: if rows < 1 {
            1
        } else {
            rows
        },
    };
    WorkspaceAreas {
        sidebar: Rect { x: 0, y: 0, width: sidebar_width, height: rows },
        frame,
        layout: Rect { x: frame.x, y: frame.y, width: frame.width, height: frame.height - 1 },
    }
}

/// The sidebar and the frame share the columns between them without overlap, and the frame keeps
/// at least twenty columns wherever the screen has them.
pub proof fn law_areas_share_the_screen(cols: u16, rows: u16, visible: bool)
    requires
        cols > 0,
    ensures
        ({
            let areas = areas_of(cols, rows, visible);
            &&& areas.sidebar.width + areas.frame.width == cols
            &&& areas.frame.x == areas.sidebar.width
            &&& areas.frame.width >= text::min_int(cols as int, 20)
            &&& areas.layout.within(areas.frame)
        }),
{
}

/// The size that a server is told to draw for.
pub fn server_content_size(cols: u16, rows: u16, sidebar_visible: bool) -> (r: Size)
    ensures
        r == ({
            let frame = areas_of(cols, rows, sidebar_visible).frame;
            Size { rows: frame.height, cols: frame.width, x: frame.x, y: frame.y }
        }),
{
    let frame = workspace_areas(cols, rows, sidebar_visible).frame;
    Size { rows: frame.height, cols: frame.width, x: frame.x, y: frame.y }
}

/// The part of the screen beside the sidebar.
pub fn server_frame_area(cols: u16, rows: u16, sidebar_visible: bool) -> (r: Rect)
    ensures
        r == areas_of(cols, rows, sidebar_visible).frame,
{
    workspace_areas(cols, rows, sidebar_visible).frame
}

/// The part beside the sidebar in a screen that begins somewhere.
pub open spec fn frame_inside(area: Rect, sidebar_visible: bool) -> Rect {
    let frame = areas_of(area.width, area.height, sidebar_visible).frame;
    Rect {
        x: navigation::sat16(frame.x + area.x) as u16,
        y: navigation::sat16(frame.y + area.y) as u16,
        ..frame
    }
}

/// The part beside the sidebar in a screen that begins somewhere.
pub fn server_frame_area_from(area: Rect, sidebar_visible: bool) -> (r: Rect)
    ensures
        r == frame_inside(area, sidebar_visible),
{
    let frame = workspace_areas(area.width, area.height, sidebar_visible).frame;
    Rect {
        x: frame.x.saturating_add(area.x),
        y: frame.y.saturating_add(area.y),
        width: frame.width,
        height: frame.height,
    }
}

/// The part of the screen that the panes share.
pub fn server_layout_area(cols: u16, rows: u16, sidebar_visible: bool) -> (r: Rect)
    ensures
        r == areas_of(cols, rows, sidebar_visible).layout,
{
    workspace_areas(cols, rows, sidebar_visible).layout
}

/// The sum of shares.
pub open spec fn total(sizes: Seq<u16>) -> nat
    decreases sizes.len(),
{
    if sizes.len() == 0 {
        0
    } else {
        total(sizes.drop_last()) + sizes.last() as nat
    }
}

/// How a split is laid out along its direction: cells to share, cells that the last part may
/// reach to, gap between parts.
pub struct SplitPlan {
    pub available: int,
    pub end: int,
    pub gap: int,
    pub whole: int,
}

/// Cells of part `i` of a split when the parts before it take `offset`: its share of what there
/// is or, for the last part, what is left.
pub open spec fn part_size(plan: SplitPlan, sizes: Seq<u16>, count: int, i: int, offset: int) -> int {
    if i + 1 == count {
        text::max_int(plan.end - offset, 0)
    } else {
        plan.available * sizes[i] / plan.whole
    }
}

/// Where part `i` of a split begins.
pub open spec fn part_offset(plan: SplitPlan, sizes: Seq<u16>, count: int, i: int) -> int
    decreases i,
{
    if i <= 0 {
        0
    } else {
        let before = part_offset(plan, sizes, count, i - 1);
        before + part_size(plan, sizes, count, i - 1, before) + plan.gap
    }
}

/// The plan of a split: a gap of one cell between parts unless borders are hidden, and shares in
/// proportion to the sizes. The last part reaches to the end of the area.
pub open spec fn split_plan(
    area: Rect,
    horizontal: bool,
    sizes: Seq<u16>,
    count: int,
    hide_borders: bool,
) -> SplitPlan {
    let dim = if horizontal {
        area.width as int
    } else {
        area.height as int
    };
    let gap = if hide_borders {
        0int
    } else {
        1
    };
    let available = text::max_int(dim - ((count - 1) as u16) * gap, 0);
    SplitPlan {
        available,
        end: dim,
        gap,
        whole: text::max_int(total(sizes) as int, 1),
    }
}

/// Part `i` of a split area.
pub open spec fn part_rect(
    area: Rect,
    horizontal: bool,
    sizes: Seq<u16>,
    count: int,
    hide_borders: bool,
    i: int,
) -> Rect {
    let plan = split_plan(area, horizontal, sizes, count, hide_borders);
    let offset = part_offset(plan, sizes, count, i);
    let size = part_size(plan, sizes, count, i, offset);
    if horizontal {
        Rect {
            x: navigation::sat16(area.x + offset) as u16,
            y: area.y,
            width: navigation::sat16(size) as u16,
            height: area.height,
        }
    } else {
        Rect {
            x: area.x,
            y: navigation::sat16(area.y + offset) as u16,
            width: area.width,
            height: navigation::sat16(size) as u16,
        }
    }
}

/// The parts of a split area: one for each size, as far as there are parts.
pub open spec fn split_parts(
    area: Rect,
    horizontal: bool,
    sizes: Seq<u16>,
    count: int,
    hide_borders: bool,
) -> Seq<Rect> {
    Seq::new(
        text::min_int(sizes.len() as int, count) as nat,
        |i: int| part_rect(area, horizontal, sizes, count, hide_borders, i),
    )
}

proof fn lemma_total_bounds(sizes: Seq<u16>, i: int)
    requires
        0 <= i < sizes.len(),
    ensures
        sizes[i] <= total(sizes),
    decreases sizes.len(),
{
    if i < sizes.len() - 1 {
        lemma_total_bounds(sizes.drop_last(), i);
    }
}

proof fn lemma_share(available: int, share: int, whole: int)
    by (nonlinear_arith)
    requires
        0 <= available <= 65535,
        0 <= share <= whole,
        1 <= whole,
        share <= 65535,
    ensures
        0 <= available * share <= 65535 * 65535,
        0 <= (available * share) / whole <= available,
{
}

fn sum_sizes(sizes: &[u16]) -> (r: u128)
    ensures
        r == total(sizes@),
{
    let mut sum: u128 = 0;
    let mut i: usize = 0;
    proof {
        assert(sizes@.take(0) =~= Seq::empty());
    }
    while i < sizes.len()
        invariant
            i <= sizes@.len(),
            sum == total(sizes@.take(i as int)),
            sum <= i * 65535,
        decreases sizes@.len() - i,
    {
        proof {
            assert(sizes@.take(i + 1).drop_last() =~= sizes@.take(i as int));
            assert(i * 65535 <= usize::MAX * 65535) by (nonlinear_arith)
                requires
                    i <= usize::MAX,
            ;
        }
        sum = sum + sizes[i] as u128;
        i = i + 1;
    }
    proof {
        assert(sizes@.take(i as int) =~= sizes@);
    }
    sum
}

fn clip16(n: u128) -> (r: u16)
    ensures
        r == navigation::sat16(n as int),
{
    if n < 65535 {
        n as u16
    } else {
        65535
    }
}

/// Cuts an area into the parts of a split.
fn split_rects(
    area: Rect,
    horizontal: bool,
    sizes: &[u16],
    count: usize,
    hide_borders: bool,
) -> (r: Vec<Rect>)
    requires
        count > 0,
    ensures
        r@ == split_parts(area, horizontal, sizes@, count as int, hide_borders),
{
    let ghost plan = split_plan(area, horizontal, sizes@, count as int, hide_borders);
    let dim: u16 = if horizontal {
        area.width
    } else {
        area.height
    };
    let gap: u128 = if hide_borders {
        0
    } else {
        1
    };
    let inner: u16 = low_u16(count - 1);
    let borders: u16 = if hide_borders {
        0
    } else {
        inner
    };
    let available: u128 = dim.saturating_sub(borders) as u128;
    let end: u128 = dim as u128;
    let sum: u128 = sum_sizes(sizes);
    let whole: u128 = if sum < 1 {
        1
    } else {
        sum
    };
    proof {
        assert(((count - 1) as u16) * plan.gap == borders) by {
            if hide_borders {
                assert(((count - 1) as u16) * 0 == 0);
            } else {
                assert(((count - 1) as u16) * 1 == inner);
            }
        }
        assert(plan.available == available && plan.end == end && plan.gap == gap && plan.whole
            == whole);
    }
    let n: usize = if sizes.len() < count {
        sizes.len()
    } else {
        count
    };
    let mut rects: Vec<Rect> = Vec::new();
    let mut offset: u128 = 0;
    let mut i: usize = 0;
    while i < n
        invariant
            n == text::min_int(sizes@.len() as int, count as int),
            i <= n,
            plan == split_plan(area, horizontal, sizes@, count as int, hide_borders),
            plan.available == available,
            plan.end == end,
            plan.gap == gap,
            plan.whole == whole,
            available <= 65535,
            end <= 65535,
            gap <= 1,
            whole >= 1,
            whole == text::max_int(total(sizes@) as int, 1),
            offset == part_offset(plan, sizes@, count as int, i as int),
            offset <= i * 65536,
            rects@.len() == i,
            forall|k: int|
                0 <= k < i ==> #[trigger] rects@[k] == part_rect(
                    area,
                    horizontal,
                    sizes@,
                    count as int,
                    hide_borders,
                    k,
                ),
        decreases n - i,
    {
        proof {
            lemma_total_bounds(sizes@, i as int);
            lemma_share(available as int, sizes@[i as int] as int, whole as int);
            assert(i * 65536 <= usize::MAX * 65536) by (nonlinear_arith)
                requires
                    i <= usize::MAX,
            ;
            assert((i + 1) * 65536 == i * 65536 + 65536) by (nonlinear_arith);
        }
        let size: u128 = if i + 1 == count {
            if end > offset {
                end - offset
            } else {
                0
            }
        } else {
            available * (sizes[i] as u128) / whole
        };
        proof {
            assert(size == part_size(plan, sizes@, count as int, i as int, offset as int));
            assert(size <= 65535);
        }
        let rect = if horizontal {
            Rect {
                x: clip16(area.x as u128 + offset),
                y: area.y,
                width: clip16(size),
                height: area.height,
            }
        } else {
            Rect {
                x: area.x,
                y: clip16(area.y as u128 + offset),
                width: area.width,
                height: clip16(size),
            }
        };
        rects.push(rect);
        offset = offset + size + gap;
        i = i + 1;
    }
    proof {
        assert(rects@ =~= split_parts(
            area,
            horizontal,
            sizes@,
            count as int,
            hide_borders,
        ));
    }
    rects
}

#[verifier::truncate]
fn low_u16(n: usize) -> (r: u16)
    ensures
        r == n as u16,
{
    n as u16
}

/// Cells along the direction of a split.
pub open spec fn split_extent(area: Rect, horizontal: bool) -> int {
    if horizontal {
        area.width as int
    } else {
        area.height as int
    }
}

proof fn lemma_total_grows(sizes: Seq<u16>, i: int)
    requires
        0 <= i < sizes.len(),
    ensures
        total(sizes.take(i + 1)) == total(sizes.take(i)) + sizes[i],
        total(sizes.take(i + 1)) <= total(sizes),
    decreases sizes.len(),
{
    assert(sizes.take(i + 1).drop_last() =~= sizes.take(i));
    if i + 1 == sizes.len() {
        assert(sizes.take(i + 1) =~= sizes);
    } else {
        lemma_total_grows(sizes.drop_last(), i);
        assert(sizes.drop_last().take(i + 1) =~= sizes.take(i + 1));
    }
}

proof fn lemma_shared_out(available: int, used: int, share: int, before: int, whole: int)
    by (nonlinear_arith)
    requires
        available >= 0,
        share >= 0,
        whole >= 1,
        whole * used <= available * before,
    ensures
        whole * (used + available * share / whole) <= available * (before + share),
        available * share / whole >= 0,
{
}

proof fn lemma_within_shared(available: int, used: int, before: int, whole: int)
    by (nonlinear_arith)
    requires
        available >= 0,
        before <= whole,
        whole >= 1,
        whole * used <= available * before,
    ensures
        used <= available,
{
}

/// The parts before the `i`th one take no more than what is shared out, and their gaps.
proof fn lemma_part_offset(plan: SplitPlan, sizes: Seq<u16>, count: int, i: int)
    requires
        0 <= i < count <= sizes.len(),
        plan.available >= 0,
        plan.gap == 0 || plan.gap == 1,
        plan.whole >= 1,
        plan.whole >= total(sizes),
    ensures
        plan.whole * (part_offset(plan, sizes, count, i) - i * plan.gap) <= plan.available * total(
            sizes.take(i),
        ),
        0 <= part_offset(plan, sizes, count, i) <= plan.available + i * plan.gap,
    decreases i,
{
    if i == 0 {
        assert(plan.whole * 0 <= plan.available * total(sizes.take(0))) by (nonlinear_arith)
            requires
                plan.available >= 0,
        ;
        assert(0 * plan.gap == 0);
    } else {
        lemma_part_offset(plan, sizes, count, i - 1);
        lemma_total_grows(sizes, i - 1);
        let before = part_offset(plan, sizes, count, i - 1);
        let used = before - (i - 1) * plan.gap;
        let share = plan.available * sizes[i - 1] / plan.whole;
        lemma_shared_out(
            plan.available,
            used,
            sizes[i - 1] as int,
            total(sizes.take(i - 1)) as int,
            plan.whole,
        );
        assert(i * plan.gap == (i - 1) * plan.gap + plan.gap) by (nonlinear_arith);
        assert(part_offset(plan, sizes, count, i) - i * plan.gap == used + share);
        lemma_within_shared(plan.available, used + share, total(sizes.take(i)) as int, plan.whole);
    }
}

proof fn lemma_offsets_grow(plan: SplitPlan, sizes: Seq<u16>, count: int, i: int, j: int)
    requires
        0 <= i < j < count <= sizes.len(),
        plan.available >= 0,
        plan.gap >= 0,
        plan.whole >= 1,
    ensures
        part_offset(plan, sizes, count, i) + part_size(
            plan,
            sizes,
            count,
            i,
            part_offset(plan, sizes, count, i),
        ) + plan.gap <= part_offset(plan, sizes, count, j),
    decreases j,
{
    if i + 1 < j {
        lemma_offsets_grow(plan, sizes, count, i, j - 1);
        let share = plan.available * sizes[j - 1] / plan.whole;
        assert(share >= 0) by (nonlinear_arith)
            requires
                plan.available >= 0,
                plan.whole >= 1,
                sizes[j - 1] >= 0,
                share == plan.available * sizes[j - 1] / plan.whole,
        ;
    }
}

/// The parts of a split share its area: none reaches out of it or into another one, there is a gap
/// between two of them where borders are shown, and the last one reaches to the end. (An area that has no room for the gaps is left out.)
pub proof fn law_split_parts_share_the_area(
    area: Rect,
    horizontal: bool,
    sizes: Seq<u16>,
    hide_borders: bool,
    i: int,
    j: int,
)
    requires
        area.on_screen(),
        0 <= i < j < sizes.len(),
        !hide_borders ==> sizes.len() - 1 <= split_extent(area, horizontal),
    ensures
        ({
            let parts = split_parts(
                area,
                horizontal,
                sizes,
                sizes.len() as int,
                hide_borders,
            );
            let gap = if hide_borders {
                0int
            } else {
                1
            };
            let last = parts[sizes.len() - 1];
            &&& parts.len() == sizes.len()
            &&& parts[i].within(area)
            &&& parts[j].within(area)
            &&& parts[i].apart(parts[j])
            &&& if horizontal {
                &&& parts[i].x + parts[i].width + gap <= parts[j].x
                &&& last.x + last.width == area.x + area.width
            } else {
                &&& parts[i].y + parts[i].height + gap <= parts[j].y
                &&& last.y + last.height == area.y + area.height
            }
        }),
{
    let count = sizes.len() as int;
    let plan = split_plan(area, horizontal, sizes, count, hide_borders);
    let extent = split_extent(area, horizontal);
    let gaps = (count - 1) * plan.gap;
    assert(gaps == ((count - 1) as u16) * plan.gap) by {
        if hide_borders {
            assert((count - 1) * 0 == 0);
            assert(((count - 1) as u16) * 0 == 0);
        } else {
            assert((count - 1) as u16 == count - 1);
        }
    }
    assert(gaps == 0 || gaps == count - 1) by {
        if hide_borders {
            assert((count - 1) * 0 == 0);
        } else {
            assert((count - 1) * 1 == count - 1);
        }
    }
    assert(plan.available + gaps == extent);
    assert forall|k: int| 0 <= k < count implies ({
        let offset = #[trigger] part_offset(plan, sizes, count, k);
        let size = part_size(plan, sizes, count, k, offset);
        &&& 0 <= offset
        &&& 0 <= size
        &&& offset + size <= extent
        &&& k + 1 == count ==> offset + size == extent
    }) by {
        lemma_part_offset(plan, sizes, count, k);
        assert(k * plan.gap <= gaps) by (nonlinear_arith)
            requires
                k <= count - 1,
                plan.gap >= 0,
                gaps == (count - 1) * plan.gap,
        ;
        if k + 1 < count {
            lemma_part_offset(plan, sizes, count, k + 1);
            lemma_offsets_grow(plan, sizes, count, k, k + 1);
            assert((k + 1) * plan.gap <= gaps) by (nonlinear_arith)
                requires
                    k + 1 <= count - 1,
                    plan.gap >= 0,
                    gaps == (count - 1) * plan.gap,
            ;
            let share = plan.available * sizes[k] / plan.whole;
            assert(share >= 0) by (nonlinear_arith)
                requires
                    plan.available >= 0,
                    plan.whole >= 1,
                    sizes[k] >= 0,
                    share == plan.available * sizes[k] / plan.whole,
            ;
        }
    }
    lemma_offsets_grow(plan, sizes, count, i, j);
    let oi = part_offset(plan, sizes, count, i);
    let oj = part_offset(plan, sizes, count, j);
    let ol = part_offset(plan, sizes, count, count - 1);
}

/// All shares together.
pub open spec fn sum_of(sizes: Seq<u16>) -> int
    decreases sizes.len(),
{
    if sizes.len() == 0 {
        0
    } else {
        sizes[0] + sum_of(sizes.drop_first())
    }
}

proof fn lemma_sum(sizes: Seq<u16>)
    ensures
        sum_of(sizes) == total(sizes),
    decreases sizes.len(),
{
    if sizes.len() == 1 {
        assert(sizes.drop_first() =~= Seq::empty());
        assert(sizes.drop_last() =~= Seq::empty());
        assert(sum_of(sizes.drop_first()) == 0);
        assert(total(sizes.drop_last()) == 0);
    } else if sizes.len() > 1 {
        lemma_sum(sizes.drop_first());
        lemma_sum(sizes.drop_last());
        lemma_sum(sizes.drop_first().drop_last());
        assert(sizes.drop_first().drop_last() =~= sizes.drop_last().drop_first());
        assert(total(sizes.drop_first()) == total(sizes.drop_first().drop_last()) + sizes.last());
        assert(sum_of(sizes.drop_last()) == sizes[0] + sum_of(sizes.drop_last().drop_first()));
    }
}

/// Parts that lie side by side are as high as the area, and parts one above the other as wide. The
/// first begins where the area does, and each of the others one gap behind the one before it. Every
/// part but the last takes its share of the cells between the gaps: as much of them as its size is
/// of all sizes.
pub proof fn law_split_parts_follow_their_sizes(
    area: Rect,
    horizontal: bool,
    sizes: Seq<u16>,
    hide_borders: bool,
    k: int,
)
    requires
        area.on_screen(),
        0 <= k,
        k + 1 < sizes.len(),
        sum_of(sizes) > 0,
        !hide_borders ==> sizes.len() - 1 <= (if horizontal {
            area.width
        } else {
            area.height
        }),
    ensures
        ({
            let n = sizes.len() as int;
            let parts = split_parts(area, horizontal, sizes, n, hide_borders);
            let gap: int = if hide_borders {
                0
            } else {
                1
            };
            &&& horizontal ==> {
                &&& parts[0].x == area.x
                &&& parts[k].y == area.y && parts[k].height == area.height
                &&& parts[k + 1].x == parts[k].x + parts[k].width + gap
                &&& parts[k].width == (area.width - (n - 1) * gap) * sizes[k] / sum_of(sizes)
            }
            &&& !horizontal ==> {
                &&& parts[0].y == area.y
                &&& parts[k].x == area.x && parts[k].width == area.width
                &&& parts[k + 1].y == parts[k].y + parts[k].height + gap
                &&& parts[k].height == (area.height - (n - 1) * gap) * sizes[k] / sum_of(sizes)
            }
        }),
{
    let n = sizes.len() as int;
    let plan = split_plan(area, horizontal, sizes, n, hide_borders);
    let extent = split_extent(area, horizontal);
    lemma_sum(sizes);
    law_split_parts_share_the_area(area, horizontal, sizes, hide_borders, k, k + 1);
    let gaps = (n - 1) * plan.gap;
    assert(gaps == ((n - 1) as u16) * plan.gap) by {
        if hide_borders {
            assert((n - 1) * 0 == 0);
            assert(((n - 1) as u16) * 0 == 0);
        } else {
            assert((n - 1) as u16 == n - 1);
        }
    }
    assert(gaps == 0 || gaps == n - 1) by {
        if hide_borders {
            assert((n - 1) * 0 == 0);
        } else {
            assert((n - 1) * 1 == n - 1);
        }
    }
    assert(plan.available + gaps == extent);
    lemma_part_offset(plan, sizes, n, k);
    lemma_part_offset(plan, sizes, n, k + 1);
    assert((k + 1) * plan.gap <= gaps) by (nonlinear_arith)
        requires
            k + 1 <= n - 1,
            plan.gap >= 0,
            gaps == (n - 1) * plan.gap,
    ;
    let share = plan.available * sizes[k] / plan.whole;
    assert(share >= 0) by (nonlinear_arith)
        requires
            plan.available >= 0,
            plan.whole >= 1,
            sizes[k] >= 0,
            share == plan.available * sizes[k] / plan.whole,
    ;
    assert(part_offset(plan, sizes, n, k + 1) == part_offset(plan, sizes, n, k) + share + plan.gap);
}

/// The parts of a split area. Parts lie side by side where the direction is
/// "horizontal", else one above the other.
pub fn split_layout_rects(
    area: Rect,
    direction: &str,
    sizes: &[u16],
    count: usize,
    hide_borders: bool,
) -> (r: Vec<Rect>)
    ensures
        r@ == split_parts(
            area,
            direction@ == "horizontal"@,
            sizes@,
            count as int,
            hide_borders,
        ),
{
    if count == 0 {
        let none: Vec<Rect> = Vec::new();
        proof {
            assert(none@ =~= split_parts(
                area,
                direction@ == "horizontal"@,
                sizes@,
                0,
                hide_borders,
            ));
        }
        return none;
    }
    split_rects(area, text::same_text(direction, "horizontal"), sizes, count, hide_borders)
}

/// The panel of a size in the middle of an area, cut down to the area.
pub open spec fn centered(area: Rect, width: int, height: int) -> Rect {
    let w = text::min_int(text::max_int(width, 1), area.width as int);
    let h = text::min_int(text::max_int(height, 1), area.height as int);
    Rect {
        x: navigation::sat16(area.x + (area.width - w) / 2) as u16,
        y: navigation::sat16(area.y + (area.height - h) / 2) as u16,
        width: w as u16,
        height: h as u16,
    }
}

/// The panel of a size in the middle of an area, cut down to the area.
pub fn centered_floating_panel(area: Rect, width: u16, height: u16) -> (r: Rect)
    ensures
        r == centered(area, width as int, height as int),
{
    let w: u16 = if width < 1 {
        1
    } else {
        width
    };
    let w: u16 = if w < area.width {
        w
    } else {
        area.width
    };
    let h: u16 = if height < 1 {
        1
    } else {
        height
    };
    let h: u16 = if h < area.height {
        h
    } else {
        area.height
    };
    Rect {
        x: area.x.saturating_add((area.width - w) / 2),
        y: area.y.saturating_add((area.height - h) / 2),
        width: w,
        height: h,
    }
}

/// A centred panel lies in its area.
pub proof fn law_centered_stays_inside(area: Rect, width: int, height: int)
    requires
        area.on_screen(),
    ensures
        centered(area, width, height).within(area),
{
}

pub open spec fn popup_of(area: Rect) -> Rect {
    centered(
        area,
        text::min_int(68, text::max_int(area.width - 4, 1)),
        text::min_int(26, text::max_int(area.height - 2, 1)),
    )
}

/// The floating navigation tree: a panel of at most 68 columns and 26 rows.
pub fn navigation_popup_rect(area: Rect) -> (r: Rect)
    ensures
        r == popup_of(area),
{
    let w: u16 = area.width.saturating_sub(4);
    let w: u16 = if w < 1 {
        1
    } else {
        w
    };
    let h: u16 = area.height.saturating_sub(2);
    let h: u16 = if h < 1 {
        1
    } else {
        h
    };
    centered_floating_panel(
        area,
        if w < 68 {
            w
        } else {
            68
        },
        if h < 26 {
            h
        } else {
            26
        },
    )
}

/// A panel without the border around it.
pub open spec fn inside_border(area: Rect) -> Rect {
    Rect {
        x: text::min_int(navigation::sat16(area.x + 1), navigation::sat16(area.x + area.width)) as u16,
        y: text::min_int(navigation::sat16(area.y + 1), navigation::sat16(area.y + area.height)) as u16,
        width: text::max_int(area.width - 2, 0) as u16,
        height: text::max_int(area.height - 2, 0) as u16,
    }
}

/// `ratatui::widgets::Block::inner` of a block with all four borders, without title or padding:
/// one cell less on each side, and nothing below zero.
#[verifier::external_body]
pub(crate) fn block_inner(area: Rect) -> (r: Rect)
    ensures
        r == inside_border(area),
{
    let inner = ratatui::widgets::Block::default().borders(ratatui::widgets::Borders::ALL).inner(
        ratatui::layout::Rect { x: area.x, y: area.y, width: area.width, height: area.height },
    );
    Rect { x: inner.x, y: inner.y, width: inner.width, height: inner.height }
}

/// The floating navigation tree without its border.
pub fn navigation_popup_content_rect(area: Rect) -> (r: Rect)
    ensures
        r == inside_border(popup_of(area)),
{
    block_inner(navigation_popup_rect(area))
}

/// The floating navigation tree lies on the screen, and its content inside its border.
pub proof fn law_popup_stays_inside(area: Rect)
    requires
        area.on_screen(),
    ensures
        popup_of(area).within(area),
        popup_of(area).width <= 68,
        popup_of(area).height <= 26,
        inside_border(popup_of(area)).within(popup_of(area)),
{
}

pub open spec fn options_of(area: Rect) -> Rect {
    if area.width == 0 || area.height == 0 {
        area
    } else {
        centered(
            area,
            text::min_int(text::max_int(navigation::sat16(area.width * 2) / 3, 64), area.width as int),
            text::max_int(text::min_int(7, area.height as int), 1),
        )
    }
}

/// The options panel: two thirds of the width and seven rows, as far as there is room.
pub fn options_panel_rect(area: Rect) -> (r: Rect)
    ensures
        r == options_of(area),
{
    if area.width == 0 || area.height == 0 {
        return area;
    }
    let double: u16 = if area.width > 32767 {
        65535
    } else {
        area.width * 2
    };
    let third: u16 = double / 3;
    let width: u16 = if third < 64 {
        64
    } else {
        third
    };
    let width: u16 = if width < area.width {
        width
    } else {
        area.width
    };
    let height: u16 = if area.height < 7 {
        area.height
    } else {
        7
    };
    centered_floating_panel(area, width, height)
}

/// The screen row of the status bar: the last one, on a screen of at least two rows.
pub open spec fn status_row(rows: u16, hide_status: bool) -> Option<u16> {
    if hide_status || rows < 2 {
        None
    } else {
        Some((rows - 1) as u16)
    }
}

/// The screen row of the status bar, if it is shown.
pub fn status_bar_screen_row(screen_rows: u16, hide_status: bool) -> (r: Option<u16>)
    ensures
        r == status_row(screen_rows, hide_status),
{
    if hide_status || screen_rows < 2 {
        None
    } else {
        Some(screen_rows - 1)
    }
}

/// How `ratatui` divides rows between a part of at least one row and a part of one row.
pub uninterp spec fn ratatui_rows(x: u16, y: u16, width: u16, height: u16) -> (
    (u16, u16, u16, u16),
    (u16, u16, u16, u16),
);

/// `ratatui::layout::Layout::split` downwards into a part of at least one row and one of exactly
/// one: the last row is split off; a single row goes to the first part. (Of an area that ends
/// beyond the last coordinate only the name of the result is given.)
#[verifier::external_body]
fn layout_rows(area: Rect) -> (r: ((u16, u16, u16, u16), (u16, u16, u16, u16)))
    ensures
        r == ratatui_rows(area.x, area.y, area.width, area.height),
        area.on_screen() ==> r == ({
            let top = if area.height <= 1 {
                area.height as int
            } else {
                area.height - 1
            };
            (
                (area.x, area.y, area.width, top as u16),
                (area.x, (area.y + top) as u16, area.width, (area.height - top) as u16),
            )
        }),
{
    let chunks = ratatui::layout::Layout::default().direction(
        ratatui::layout::Direction::Vertical,
    ).constraints(
        [ratatui::layout::Constraint::Min(1), ratatui::layout::Constraint::Length(1)],
    ).split(
        ratatui::layout::Rect { x: area.x, y: area.y, width: area.width, height: area.height },
    );
    (
        (chunks[0].x, chunks[0].y, chunks[0].width, chunks[0].height),
        (chunks[1].x, chunks[1].y, chunks[1].width, chunks[1].height),
    )
}

pub open spec fn rect_of(t: (u16, u16, u16, u16)) -> Rect {
    Rect { x: t.0, y: t.1, width: t.2, height: t.3 }
}

/// Everything but the last row, and the last row.
pub open spec fn above_status(area: Rect) -> (Rect, Rect) {
    let rows = ratatui_rows(area.x, area.y, area.width, area.height);
    (rect_of(rows.0), rect_of(rows.1))
}

/// Everything but the last row, and the last row.
pub fn split_status_row(area: Rect) -> (r: (Rect, Rect))
    ensures
        r == above_status(area),
        area.on_screen() && area.height >= 2 ==> r.0 == (Rect {
            height: (area.height - 1) as u16,
            ..area
        }) && r.1 == (Rect { y: (area.y + area.height - 1) as u16, height: 1, ..area }),
{
    let (a, b) = layout_rows(area);
    (
        Rect { x: a.0, y: a.1, width: a.2, height: a.3 },
        Rect { x: b.0, y: b.1, width: b.2, height: b.3 },
    )
}

} // verus!
