//! Plans for the sidebar, the panels, the prompt and the status bar.

use crate::draw;
use crate::geometry;
use crate::help;
use crate::navigation;
use crate::style;
use crate::text;
use crate::draw::{Draw, DrawV, SpanV, StyledSpan};
use crate::geometry::Rect;
use crate::navigation::{EntryV, MachineConnectionState, NavigationEntry, NavigationNodeKind};
use crate::style::{Color, SpanStyle};
use vstd::prelude::*;

verus! {

/// The colours of the client's own panels.
#[derive(Clone, Copy, Debug, PartialEq, Eq, Structural)]
pub enum Tone {
    Back,
    BackSelected,
    Text,
    Muted,
    Subtle,
    Accent,
    Active,
    Warning,
    Error,
    Workspace,
    Window,
    Panel,
    Tab,
}

impl Tone {
    pub open spec fn value(self) -> Color {
        match self {
            Tone::Back => Color::Rgb(16, 20, 27),
            Tone::BackSelected => Color::Rgb(31, 41, 55),
            Tone::Text => Color::Rgb(218, 225, 234),
            Tone::Muted => Color::Rgb(100, 116, 139),
            Tone::Subtle => Color::Rgb(51, 65, 85),
            Tone::Accent => Color::Rgb(96, 165, 250),
            Tone::Active => Color::Rgb(74, 222, 128),
            Tone::Warning => Color::Rgb(251, 191, 36),
            Tone::Error => Color::Rgb(248, 113, 113),
            Tone::Workspace => Color::Rgb(45, 212, 191),
            Tone::Window => Color::Rgb(167, 139, 250),
            Tone::Panel => Color::Rgb(40, 40, 40),
            Tone::Tab => Color::Rgb(60, 60, 60),
        }
    }

    /// The colour.
    pub fn color(self) -> (r: Color)
        ensures
            r == self.value(),
    {
        match self {
            Tone::Back => Color::Rgb(16, 20, 27),
            Tone::BackSelected => Color::Rgb(31, 41, 55),
            Tone::Text => Color::Rgb(218, 225, 234),
            Tone::Muted => Color::Rgb(100, 116, 139),
            Tone::Subtle => Color::Rgb(51, 65, 85),
            Tone::Accent => Color::Rgb(96, 165, 250),
            Tone::Active => Color::Rgb(74, 222, 128),
            Tone::Warning => Color::Rgb(251, 191, 36),
            Tone::Error => Color::Rgb(248, 113, 113),
            Tone::Workspace => Color::Rgb(45, 212, 191),
            Tone::Window => Color::Rgb(167, 139, 250),
            Tone::Panel => Color::Rgb(40, 40, 40),
            Tone::Tab => Color::Rgb(60, 60, 60),
        }
    }
}

pub open spec fn on(fg: Color, bg: Color) -> SpanStyle {
    style::colored(Some(fg), Some(bg), false)
}

pub open spec fn back(bg: Color) -> SpanStyle {
    style::colored(None, Some(bg), false)
}

/// The mark of a branch: open, folded, or none.
pub open spec fn branch_mark(e: EntryV) -> char {
    if e.expandable {
        if e.expanded {
            '▾'
        } else {
            '▸'
        }
    } else {
        ' '
    }
}

/// The sign of a node and its colour.
pub open spec fn node_sign(e: EntryV) -> (char, Tone) {
    match e.kind {
        NavigationNodeKind::Machine => match e.connection {
            Some(MachineConnectionState::Unavailable) => ('!', Tone::Error),
            Some(MachineConnectionState::Probing) => ('◌', Tone::Warning),
            Some(MachineConnectionState::Disconnected) => ('○', Tone::Muted),
            Some(MachineConnectionState::Connected) => ('●', Tone::Active),
            _ => (
                '●',
                if e.active {
                    Tone::Active
                } else {
                    Tone::Accent
                },
            ),
        },
        NavigationNodeKind::Workspace => ('▣', Tone::Workspace),
        NavigationNodeKind::Session => ('◆', Tone::Accent),
        NavigationNodeKind::Window => ('□', Tone::Window),
        NavigationNodeKind::Pane => ('·', Tone::Muted),
    }
}

/// What stands at the right of a line, nothing where it has nothing.
pub open spec fn meta_text(e: EntryV) -> Seq<char> {
    match e.meta {
        Some(m) => m,
        None => Seq::empty(),
    }
}

/// Columns of a line that its label cannot have.
pub open spec fn reserved_columns(e: EntryV) -> nat {
    let front = draw::spaces(2 * e.depth) + seq![branch_mark(e), ' ', node_sign(e).0, ' '];
    1 + text::columns(front) + (if meta_text(e).len() == 0 {
        0
    } else {
        text::columns(meta_text(e)) + 1
    })
}

/// The label as far as there is room for it.
pub open spec fn shown_label(e: EntryV, width: int) -> Seq<char> {
    draw::fitted(e.label, text::max_int(width - text::clip(reserved_columns(e)), 0))
}

/// One line of the tree: marker, indentation and branch, sign, label, and what stands at the right.
pub open spec fn tree_line_spans(e: EntryV, selected: bool, width: int) -> Seq<SpanV> {
    let bg = (if selected {
        Tone::BackSelected
    } else {
        Tone::Back
    }).value();
    let label = shown_label(e, width);
    let used = text::clip(reserved_columns(e) + text::columns(label));
    let fg = if selected {
        Color::White
    } else if e.active {
        Tone::Active.value()
    } else {
        Tone::Text.value()
    };
    seq![
        SpanV {
            text: seq![
                if selected {
                    '▌'
                } else {
                    ' '
                },
            ],
            style: on(Tone::Accent.value(), bg),
        },
        SpanV {
            text: draw::spaces(2 * e.depth) + seq![branch_mark(e), ' '],
            style: on(Tone::Muted.value(), bg),
        },
        SpanV { text: seq![node_sign(e).0], style: on(node_sign(e).1.value(), bg) },
        SpanV { text: seq![' '], style: back(bg) },
        SpanV { text: label, style: style::colored(Some(fg), Some(bg), e.active) },
        SpanV { text: draw::spaces(width - used), style: back(bg) },
        SpanV { text: meta_text(e), style: on(Tone::Muted.value(), bg) },
    ]
}

/// What is drawn for one row of the tree's viewport.
pub open spec fn tree_row(
    entries: Seq<EntryV>,
    selected: int,
    focused: bool,
    area: Rect,
    row: int,
) -> Seq<DrawV> {
    let view = navigation::viewport(area.height);
    let index = navigation::scroll_offset(selected, entries.len() as int, view.1 as int) + row;
    let marked = focused && index == selected;
    let place = Rect {
        x: area.x,
        y: navigation::sat16(area.y + view.0 + row) as u16,
        width: (area.width - 1) as u16,
        height: 1,
    };
    if index >= entries.len() {
        Seq::empty()
    } else {
        seq![
            DrawV::Fill {
                area: place,
                style: back(
                    (if marked {
                        Tone::BackSelected
                    } else {
                        Tone::Back
                    }).value(),
                ),
            },
            DrawV::Line {
                area: place,
                spans: tree_line_spans(entries[index], marked, area.width - 1),
                base: style::no_style(),
            },
        ]
    }
}

/// The first `n` rows of the tree's viewport.
pub open spec fn tree_rows(
    entries: Seq<EntryV>,
    selected: int,
    focused: bool,
    area: Rect,
    n: int,
) -> Seq<DrawV>
    decreases n,
{
    if n <= 0 {
        Seq::empty()
    } else {
        tree_rows(entries, selected, focused, area, n - 1) + tree_row(
            entries,
            selected,
            focused,
            area,
            n - 1,
        )
    }
}

/// The two lines of keys below the tree, where there is room for them.
pub open spec fn tree_footer(focused: bool, area: Rect) -> Seq<DrawV> {
    let y = area.y + area.height - 2;
    let bg = Tone::Back.value();
    if area.height < 7 {
        Seq::empty()
    } else {
        seq![
            DrawV::Line {
                area: Rect {
                    x: area.x,
                    y: navigation::sat16(y) as u16,
                    width: (area.width - 1) as u16,
                    height: 1,
                },
                spans: seq![
                    SpanV {
                        text: if focused {
                            "  j/k"@
                        } else {
                            "  ^A m"@
                        },
                        style: on(Tone::Accent.value(), bg),
                    },
                    SpanV {
                        text: if focused {
                            " move  H help"@
                        } else {
                            " open tree"@
                        },
                        style: on(Tone::Muted.value(), bg),
                    },
                ],
                base: style::no_style(),
            },
            draw::plain_line(
                Rect {
                    x: area.x,
                    y: navigation::sat16(y + 1) as u16,
                    width: (area.width - 1) as u16,
                    height: 1,
                },
                draw::fitted(
                    if focused {
                        "  r rename  K delete"@
                    } else {
                        "  Enter open"@
                    },
                    area.width - 1,
                ),
                on(Tone::Muted.value(), bg),
            ),
        ]
    }
}

/// The navigation tree: its surface, a divider at the right, the lines around the selected one,
/// and the keys.
pub open spec fn sidebar_plan(
    entries: Seq<EntryV>,
    selected: int,
    focused: bool,
    area: Rect,
) -> Seq<DrawV> {
    let bg = Tone::Back.value();
    let surface = seq![
        DrawV::Fill { area, style: back(bg) },
        DrawV::Rule {
            x: navigation::sat16(area.x + area.width - 1) as u16,
            y: area.y,
            height: area.height,
            style: on(
                (if focused {
                    Tone::Accent
                } else {
                    Tone::Subtle
                }).value(),
                bg,
            ),
        },
    ];
    if area.width == 0 || area.height == 0 {
        Seq::empty()
    } else if area.width == 1 {
        surface
    } else {
        surface + tree_rows(
            entries,
            navigation::on_a_line(entries, selected),
            focused,
            area,
            navigation::viewport(area.height).1 as int,
        ) + tree_footer(focused, area)
    }
}

fn branch_char(e: &NavigationEntry) -> (r: char)
    ensures
        r == branch_mark(e@),
{
    if e.expandable {
        if e.expanded {
            '▾'
        } else {
            '▸'
        }
    } else {
        ' '
    }
}

fn sign_char(e: &NavigationEntry) -> (r: (char, Tone))
    ensures
        r == node_sign(e@),
{
    match e.kind {
        NavigationNodeKind::Machine => match e.connection {
            Some(MachineConnectionState::Unavailable) => ('!', Tone::Error),
            Some(MachineConnectionState::Probing) => ('◌', Tone::Warning),
            Some(MachineConnectionState::Disconnected) => ('○', Tone::Muted),
            Some(MachineConnectionState::Connected) => ('●', Tone::Active),
            _ => (
                '●',
                if e.active {
                    Tone::Active
                } else {
                    Tone::Accent
                },
            ),
        },
        NavigationNodeKind::Workspace => ('▣', Tone::Workspace),
        NavigationNodeKind::Session => ('◆', Tone::Accent),
        NavigationNodeKind::Window => ('□', Tone::Window),
        NavigationNodeKind::Pane => ('·', Tone::Muted),
    }
}

fn one(c: char) -> (r: String)
    ensures
        r@ == seq![c],
{
    let mut s = String::new();
    s.push(c);
    proof {
        assert(s@ =~= seq![c]);
    }
    s
}

fn meta_string(e: &NavigationEntry) -> (r: String)
    ensures
        r@ == meta_text(e@),
{
    match &e.meta {
        Some(m) => m.clone(),
        None => String::new(),
    }
}

fn tree_spans(e: &NavigationEntry, selected: bool, width: usize) -> (r: Vec<StyledSpan>)
    ensures
        draw::span_views(r@) == tree_line_spans(e@, selected, width as int),
{
    let bg: Color = if selected {
        Tone::BackSelected.color()
    } else {
        Tone::Back.color()
    };
    let branch: char = branch_char(e);
    let (sign, tone) = sign_char(e);
    let mut lead = draw::blank(2 * (e.depth as usize));
    lead.push(branch);
    lead.push(' ');
    proof {
        assert(lead@ =~= draw::spaces(2 * e.depth) + seq![branch, ' ']);
    }
    let mut front = lead.clone();
    front.push(sign);
    front.push(' ');
    proof {
        assert(front@ =~= draw::spaces(2 * e.depth) + seq![branch, ' ', sign, ' ']);
    }
    let meta = meta_string(e);
    let front_width: usize = draw::unicode_display_width(front.as_str());
    let meta_width: usize = if meta.as_str().unicode_len() == 0 {
        0
    } else {
        draw::unicode_display_width(meta.as_str()).saturating_add(1)
    };
    let reserved: usize = front_width.saturating_add(1).saturating_add(meta_width);
    let label = draw::truncate_to_width(e.label.as_str(), width.saturating_sub(reserved));
    let used: usize = reserved.saturating_add(draw::unicode_display_width(label.as_str()));
    let gap: usize = width.saturating_sub(used);
    let fg: Color = if selected {
        Color::White
    } else if e.active {
        Tone::Active.color()
    } else {
        Tone::Text.color()
    };
    let mut spans: Vec<StyledSpan> = Vec::new();
    draw::add_span(
        &mut spans,
        one(
            if selected {
                '▌'
            } else {
                ' '
            },
        ),
        SpanStyle::of(Some(Tone::Accent.color()), Some(bg), false),
    );
    draw::add_span(&mut spans, lead, SpanStyle::of(Some(Tone::Muted.color()), Some(bg), false));
    draw::add_span(&mut spans, one(sign), SpanStyle::of(Some(tone.color()), Some(bg), false));
    draw::add_span(&mut spans, one(' '), SpanStyle::of(None, Some(bg), false));
    draw::add_span(&mut spans, label, SpanStyle::of(Some(fg), Some(bg), e.active));
    draw::add_span(&mut spans, draw::blank(gap), SpanStyle::of(None, Some(bg), false));
    draw::add_span(&mut spans, meta, SpanStyle::of(Some(Tone::Muted.color()), Some(bg), false));
    proof {
        assert(reserved == text::clip(reserved_columns(e@)));
        assert(draw::spaces(width - used) =~= draw::spaces(gap as int));
        assert(draw::span_views(Seq::<StyledSpan>::empty()) =~= Seq::empty());
        assert(draw::span_views(spans@) =~= tree_line_spans(e@, selected, width as int));
    }
    spans
}

fn add_tree_row(
    plan: &mut Vec<Draw>,
    entries: &[NavigationEntry],
    selected: usize,
    focused: bool,
    area: Rect,
    offset: u16,
    scroll: usize,
    row: u16,
)
    requires
        area.width > 1,
        offset == navigation::viewport(area.height).0,
        scroll == navigation::scroll_offset(
            selected as int,
            entries@.len() as int,
            navigation::viewport(area.height).1 as int,
        ),
    ensures
        draw::draws(final(plan)@) == draw::draws(old(plan)@) + tree_row(
            navigation::entry_views(entries@),
            selected as int,
            focused,
            area,
            row as int,
        ),
{
    let ghost views = navigation::entry_views(entries@);
    let index: usize = scroll.saturating_add(row as usize);
    if index >= entries.len() || index == usize::MAX {
        proof {
            assert(draw::draws(plan@) + Seq::<DrawV>::empty() =~= draw::draws(plan@));
        }
        return ;
    }
    proof {
        assert(views[index as int] == entries@[index as int]@);
    }
    let marked: bool = focused && index == selected;
    let place = Rect::new(
        area.x,
        area.y.saturating_add(offset).saturating_add(row),
        area.width - 1,
        1,
    );
    let bg: Color = if marked {
        Tone::BackSelected.color()
    } else {
        Tone::Back.color()
    };
    let ghost before = draw::draws(plan@);
    draw::add_draw(plan, Draw::Fill { area: place, style: SpanStyle::of(None, Some(bg), false) });
    let spans = tree_spans(&entries[index], marked, (area.width - 1) as usize);
    draw::add_draw(plan, Draw::Line { area: place, spans, base: SpanStyle::none() });
    proof {
        assert(draw::draws(plan@) =~= before + tree_row(
            views,
            selected as int,
            focused,
            area,
            row as int,
        ));
    }
}

fn add_tree_footer(plan: &mut Vec<Draw>, focused: bool, area: Rect)
    requires
        area.width > 1,
    ensures
        draw::draws(final(plan)@) == draw::draws(old(plan)@) + tree_footer(focused, area),
{
    let ghost before = draw::draws(plan@);
    if area.height < 7 {
        proof {
            assert(before + Seq::<DrawV>::empty() =~= before);
        }
        return ;
    }
    let y: u16 = area.y.saturating_add(area.height - 2);
    let y_next: u16 = area.y.saturating_add(area.height - 1);
    let width: u16 = area.width - 1;
    let bg: Color = Tone::Back.color();
    let mut spans: Vec<StyledSpan> = Vec::new();
    draw::add_span(
        &mut spans,
        (if focused {
            "  j/k"
        } else {
            "  ^A m"
        }).to_string(),
        SpanStyle::of(Some(Tone::Accent.color()), Some(bg), false),
    );
    draw::add_span(
        &mut spans,
        (if focused {
            " move  H help"
        } else {
            " open tree"
        }).to_string(),
        SpanStyle::of(Some(Tone::Muted.color()), Some(bg), false),
    );
    let second = draw::truncate_to_width(
        if focused {
            "  r rename  K delete"
        } else {
            "  Enter open"
        },
        width as usize,
    );
    let keys = Draw::Line {
        area: Rect::new(area.x, y, width, 1),
        spans,
        base: SpanStyle::none(),
    };
    proof {
        assert(draw::span_views(Seq::<StyledSpan>::empty()) =~= Seq::empty());
        assert(keys@ =~= tree_footer(focused, area)[0]);
    }
    draw::add_draw(plan, keys);
    draw::add_draw(
        plan,
        draw::text_line(
            Rect::new(area.x, y_next, width, 1),
            second,
            SpanStyle::of(Some(Tone::Muted.color()), Some(bg), false),
        ),
    );
    proof {
        assert(draw::draws(plan@) =~= before + tree_footer(focused, area));
    }
}

fn add_sidebar(
    plan: &mut Vec<Draw>,
    entries: &[NavigationEntry],
    selected: usize,
    focused: bool,
    area: Rect,
)
    ensures
        draw::draws(final(plan)@) == draw::draws(old(plan)@) + sidebar_plan(
            navigation::entry_views(entries@),
            selected as int,
            focused,
            area,
        ),
{
    let ghost before = draw::draws(plan@);
    let ghost views = navigation::entry_views(entries@);
    if area.width == 0 || area.height == 0 {
        proof {
            assert(before + Seq::<DrawV>::empty() =~= before);
        }
        return ;
    }
    let bg: Color = Tone::Back.color();
    let divider: Color = if focused {
        Tone::Accent.color()
    } else {
        Tone::Subtle.color()
    };
    draw::add_draw(plan, Draw::Fill { area, style: SpanStyle::of(None, Some(bg), false) });
    draw::add_draw(
        plan,
        Draw::Rule {
            x: area.x.saturating_add(area.width - 1),
            y: area.y,
            height: area.height,
            style: SpanStyle::of(Some(divider), Some(bg), false),
        },
    );
    let ghost surface = seq![
        DrawV::Fill { area, style: back(bg) },
        DrawV::Rule {
            x: navigation::sat16(area.x + area.width - 1) as u16,
            y: area.y,
            height: area.height,
            style: on(divider, bg),
        },
    ];
    proof {
        assert(draw::draws(plan@) =~= before + surface);
    }
    if area.width == 1 {
        return ;
    }
    let last: usize = if entries.len() == 0 {
        0
    } else {
        entries.len() - 1
    };
    let line: usize = if selected < last {
        selected
    } else {
        last
    };
    let (offset, height) = navigation::sidebar_viewport(area.height);
    let scroll: usize = navigation::sidebar_scroll_offset(line, entries.len(), height as usize);
    let mut row: u16 = 0;
    proof {
        assert(before + surface + Seq::<DrawV>::empty() =~= before + surface);
    }
    while row < height
        invariant
            row <= height,
            area.width > 1,
            views == navigation::entry_views(entries@),
            offset == navigation::viewport(area.height).0,
            height == navigation::viewport(area.height).1,
            scroll == navigation::scroll_offset(line as int, entries@.len() as int, height as int),
            draw::draws(plan@) == before + surface + tree_rows(
                views,
                line as int,
                focused,
                area,
                row as int,
            ),
        decreases height - row,
    {
        add_tree_row(plan, entries, line, focused, area, offset, scroll, row);
        proof {
            let rows = tree_rows(views, line as int, focused, area, row as int);
            let more = tree_row(views, line as int, focused, area, row as int);
            assert(before + surface + rows + more =~= before + surface + (rows + more));
        }
        row = row + 1;
    }
    add_tree_footer(plan, focused, area);
    proof {
        let rows = tree_rows(views, line as int, focused, area, height as int);
        let foot = tree_footer(focused, area);
        assert(before + surface + rows + foot =~= before + (surface + rows + foot));
    }
}

/// The navigation tree.
pub fn render_navigation_sidebar(
    entries: &[NavigationEntry],
    selected: usize,
    focused: bool,
    area: Rect,
) -> (r: Vec<Draw>)
    ensures
        draw::draws(r@) == sidebar_plan(navigation::entry_views(entries@), selected as int, focused, area),
{
    let mut plan: Vec<Draw> = Vec::new();
    add_sidebar(&mut plan, entries, selected, focused, area);
    proof {
        let all = sidebar_plan(navigation::entry_views(entries@), selected as int, focused, area);
        assert(draw::draws(Seq::<Draw>::empty()) + all =~= all);
    }
    plan
}

/// A panel that floats over the panes begins with its whole surface.
pub open spec fn panel_surface(area: Rect) -> Seq<DrawV> {
    if area.width == 0 || area.height == 0 {
        Seq::empty()
    } else {
        seq![
            DrawV::Repaint(area),
            DrawV::Fill { area, style: on(Tone::Panel.value(), Tone::Panel.value()) },
        ]
    }
}

fn begin_floating_panel(plan: &mut Vec<Draw>, area: Rect)
    ensures
        draw::draws(final(plan)@) == draw::draws(old(plan)@) + panel_surface(area),
{
    let ghost before = draw::draws(plan@);
    if area.width > 0 && area.height > 0 {
        draw::add_draw(plan, Draw::Repaint(area));
        let bg: Color = Tone::Panel.color();
        draw::add_draw(plan, Draw::Fill { area, style: SpanStyle::of(Some(bg), Some(bg), false) });
    }
    proof {
        assert(draw::draws(plan@) =~= before + panel_surface(area));
    }
}

/// The navigation tree in a floating panel.
pub open spec fn popup_plan(entries: Seq<EntryV>, selected: int, screen: Rect) -> Seq<DrawV> {
    let panel = geometry::popup_of(screen);
    panel_surface(panel).push(
        DrawV::Panel {
            area: panel,
            title: " Navigation · Esc close "@,
            rounded: true,
            border: style::colored(Some(Tone::Accent.value()), None, false),
            fill: style::no_style(),
        },
    ) + sidebar_plan(entries, selected, true, geometry::inside_border(panel))
}

/// The navigation tree in a floating panel.
pub fn render_navigation_popup(entries: &[NavigationEntry], selected: usize, screen: Rect) -> (r: Vec<
    Draw,
>)
    ensures
        draw::draws(r@) == popup_plan(navigation::entry_views(entries@), selected as int, screen),
{
    let panel = geometry::navigation_popup_rect(screen);
    let mut plan: Vec<Draw> = Vec::new();
    begin_floating_panel(&mut plan, panel);
    proof {
        assert(draw::draws(Seq::<Draw>::empty()) + panel_surface(panel) =~= panel_surface(panel));
    }
    draw::add_draw(
        &mut plan,
        Draw::Panel {
            area: panel,
            title: " Navigation · Esc close ".to_string(),
            rounded: true,
            border: SpanStyle::of(Some(Tone::Accent.color()), None, false),
            fill: SpanStyle::none(),
        },
    );
    add_sidebar(&mut plan, entries, selected, true, geometry::block_inner(panel));
    plan
}

/// A key reference in a floating panel, scrolled as far as it can be.
pub open spec fn help_plan(screen: Rect, scroll: int, all: bool) -> Seq<DrawV> {
    let source = if all {
        help::shortcuts()
    } else {
        help::navigation_help()
    };
    let panel = help::help_area(screen, source.len() as int);
    panel_surface(panel) + seq![
        DrawV::Panel {
            area: panel,
            title: if all {
                " zmux shortcuts - j/k scroll, Esc back "@
            } else {
                " Sidebar keys - j/k scroll, Esc back "@
            },
            rounded: false,
            border: style::colored(Some(Color::Cyan), None, false),
            fill: back(Tone::Panel.value()),
        },
        DrawV::Lines {
            area: geometry::inside_border(panel),
            lines: help::help_lines(screen, source),
            style: on(Color::White, Tone::Panel.value()),
            scroll: navigation::sat16(text::min_int(scroll, help::help_max_scroll(screen, source))) as u16,
        },
    ]
}

fn render_help(screen: Rect, scroll: usize, all: bool) -> (r: Vec<Draw>)
    ensures
        draw::draws(r@) == help_plan(screen, scroll as int, all),
{
    let panel = if all {
        help::shortcuts_help_rect(screen)
    } else {
        help::navigation_help_rect(screen)
    };
    let lines = if all {
        help::shortcuts_help_lines(screen)
    } else {
        help::navigation_help_lines(screen)
    };
    let max: usize = if all {
        help::shortcuts_help_max_scroll(screen)
    } else {
        help::navigation_help_max_scroll(screen)
    };
    let from: usize = if scroll < max {
        scroll
    } else {
        max
    };
    let from: u16 = if from > 65535 {
        65535
    } else {
        from as u16
    };
    let mut plan: Vec<Draw> = Vec::new();
    begin_floating_panel(&mut plan, panel);
    proof {
        assert(draw::draws(Seq::<Draw>::empty()) + panel_surface(panel) =~= panel_surface(panel));
    }
    draw::add_draw(
        &mut plan,
        Draw::Panel {
            area: panel,
            title: (if all {
                " zmux shortcuts - j/k scroll, Esc back "
            } else {
                " Sidebar keys - j/k scroll, Esc back "
            }).to_string(),
            rounded: false,
            border: SpanStyle::of(Some(Color::Cyan), None, false),
            fill: SpanStyle::of(None, Some(Tone::Panel.color()), false),
        },
    );
    draw::add_draw(
        &mut plan,
        Draw::Lines {
            area: geometry::block_inner(panel),
            lines,
            style: SpanStyle::of(Some(Color::White), Some(Tone::Panel.color()), false),
            scroll: from,
        },
    );
    proof {
        assert(draw::draws(plan@) =~= help_plan(screen, scroll as int, all));
    }
    plan
}

/// The navigation tree's keys.
pub fn render_navigation_help(screen: Rect, scroll: usize) -> (r: Vec<Draw>)
    ensures
        draw::draws(r@) == help_plan(screen, scroll as int, false),
{
    render_help(screen, scroll, false)
}

/// All keys.
pub fn render_shortcuts_help(screen: Rect, scroll: usize) -> (r: Vec<Draw>)
    ensures
        draw::draws(r@) == help_plan(screen, scroll as int, true),
{
    render_help(screen, scroll, true)
}

/// Columns of a text on screen, control characters counted as none.
pub open spec fn visible_columns(s: Seq<char>) -> nat
    decreases s.len(),
{
    if s.len() == 0 {
        0
    } else {
        visible_columns(s.drop_last()) + text::visible_columns_of(s.last())
    }
}

/// The first character, from `from` on, with at least so many columns before it.
pub open spec fn scrolled_to(s: Seq<char>, wanted: int, from: int) -> int
    decreases s.len() - from,
{
    if 0 <= from < s.len() && visible_columns(s.take(from)) < wanted {
        scrolled_to(s, wanted, from + 1)
    } else {
        from
    }
}

/// The prompt on the last row: its text scrolled so far that the cursor is on screen.
pub open spec fn prompt_plan(screen: Rect, label: Seq<char>, buf: Seq<char>, cursor: int) -> Seq<DrawV> {
    let place = Rect {
        x: screen.x,
        y: navigation::sat16(screen.y + screen.height - 1) as u16,
        width: screen.width,
        height: 1,
    };
    let content = label + buf;
    let at = text::clip(text::columns(label) + text::columns(buf.take(text::min_int(cursor, buf.len() as int))));
    let from = scrolled_to(content, text::max_int(at - (screen.width - 1), 0), 0);
    let skipped = text::clip(visible_columns(content.take(from)));
    if screen.width == 0 || screen.height == 0 {
        Seq::empty()
    } else {
        seq![
            DrawV::Clear(place),
            DrawV::Repaint(place),
            draw::plain_line(place, content.skip(from), on(Color::Black, Color::Yellow)),
            DrawV::Cursor {
                x: navigation::sat16(
                    place.x + text::min_int(text::max_int(at - skipped, 0), screen.width - 1),
                ) as u16,
                y: place.y,
            },
        ]
    }
}

/// The prompt on the last row.
pub fn render_prompt_input(screen: Rect, label: &str, buf: &str, cursor: usize) -> (r: Vec<Draw>)
    ensures
        draw::draws(r@) == prompt_plan(screen, label@, buf@, cursor as int),
{
    let mut plan: Vec<Draw> = Vec::new();
    if screen.width == 0 || screen.height == 0 {
        proof {
            assert(draw::draws(plan@) =~= Seq::empty());
        }
        return plan;
    }
    let place = Rect::new(
        screen.x,
        screen.y.saturating_add(screen.height - 1),
        screen.width,
        1,
    );
    let chars = text::chars_of(buf);
    let shown: usize = if cursor < chars.len() {
        cursor
    } else {
        chars.len()
    };
    let before = text::slice_of(chars.as_slice(), 0, shown);
    proof {
        assert(text::cut(buf@, 0, shown as int) =~= buf@.take(shown as int));
    }
    let at: usize = draw::unicode_display_width(label).saturating_add(
        draw::unicode_display_width(before.as_str()),
    );
    let mut content = String::new();
    content.append(label);
    content.append(buf);
    proof {
        assert(content@ =~= label@ + buf@);
    }
    let all = text::chars_of(content.as_str());
    let ghost s = content@;
    let room: usize = (screen.width - 1) as usize;
    let wanted: usize = at.saturating_sub(room);
    let mut skipped: usize = 0;
    let mut from: usize = 0;
    proof {
        assert(s.take(0) =~= Seq::empty());
    }
    while from < all.len() && skipped < wanted
        invariant
            all@ == s,
            from <= s.len(),
            skipped == text::clip(visible_columns(s.take(from as int))),
            scrolled_to(s, wanted as int, from as int) == scrolled_to(s, wanted as int, 0),
        decreases s.len() - from,
    {
        proof {
            assert(s.take(from + 1).drop_last() =~= s.take(from as int));
        }
        skipped = skipped.saturating_add(text::visible_char_width(all[from]));
        from = from + 1;
    }
    let rest = text::slice_of(all.as_slice(), from, all.len());
    proof {
        assert(text::cut(s, from as int, s.len() as int) =~= s.skip(from as int));
    }
    let over: usize = at.saturating_sub(skipped);
    let column: u16 = if over < room {
        over as u16
    } else {
        room as u16
    };
    draw::add_draw(&mut plan, Draw::Clear(place));
    draw::add_draw(&mut plan, Draw::Repaint(place));
    draw::add_draw(
        &mut plan,
        draw::text_line(place, rest, SpanStyle::of(Some(Color::Black), Some(Color::Yellow), false)),
    );
    draw::add_draw(&mut plan, Draw::Cursor { x: place.x.saturating_add(column), y: place.y });
    proof {
        assert(draw::draws(Seq::<Draw>::empty()) =~= Seq::empty());
        assert(draw::draws(plan@) =~= prompt_plan(screen, label@, buf@, cursor as int));
    }
    plan
}

/// The prompt with its cursor at the end.
pub fn render_prompt(screen: Rect, label: &str, buf: &str) -> (r: Vec<Draw>)
    ensures
        draw::draws(r@) == prompt_plan(screen, label@, buf@, buf@.len() as int),
{
    render_prompt_input(screen, label, buf, buf.unicode_len())
}

/// A text with blanks up to a number of characters.
pub open spec fn padded(s: Seq<char>, width: int) -> Seq<char> {
    s + draw::spaces(width - s.len())
}

/// The line of the one option.
pub open spec fn option_label(enabled: bool) -> Seq<char> {
    " "@ + (if enabled {
        "[x]"@
    } else {
        "[ ]"@
    }) + " scrollOnEraseInDisplay compatibility mode: "@ + (if enabled {
        "on"@
    } else {
        "off"@
    })
}

/// The options in a floating panel.
pub open spec fn options_plan(screen: Rect, selected: int, enabled: bool) -> Seq<DrawV> {
    let panel = geometry::options_of(screen);
    let inner = geometry::inside_border(panel);
    let line = draw::plain_line(
        Rect { height: 1, ..inner },
        padded(option_label(enabled), inner.width as int),
        if selected == 0 {
            style::colored(Some(Color::Black), Some(Color::Cyan), true)
        } else {
            style::colored(Some(Color::White), None, false)
        },
    );
    let hint = draw::plain_line(
        Rect { y: navigation::sat16(inner.y + 2) as u16, height: 1, ..inner },
        draw::fitted(
            " Normal buffer CSI 2J scrolls content into history instead of cutting the screen."@,
            inner.width as int,
        ),
        style::colored(Some(Color::DarkGray), None, false),
    );
    if screen.width == 0 || screen.height == 0 {
        Seq::empty()
    } else {
        panel_surface(panel) + seq![
            DrawV::Panel {
                area: panel,
                title: " Options  (Space/Enter=toggle  q/Esc=close) "@,
                rounded: false,
                border: style::colored(Some(Color::Cyan), None, false),
                fill: back(Tone::Panel.value()),
            },
            line,
        ] + (if inner.height > 2 {
            seq![hint]
        } else {
            Seq::empty()
        })
    }
}

/// The options in a floating panel.
pub fn render_options_panel(screen: Rect, selected: usize, scroll_on_erase_in_display: bool) -> (r: Vec<
    Draw,
>)
    ensures
        draw::draws(r@) == options_plan(screen, selected as int, scroll_on_erase_in_display),
{
    let mut plan: Vec<Draw> = Vec::new();
    proof {
        assert(draw::draws(plan@) =~= Seq::empty());
    }
    if screen.width == 0 || screen.height == 0 {
        return plan;
    }
    let panel = geometry::options_panel_rect(screen);
    let inner = geometry::block_inner(panel);
    begin_floating_panel(&mut plan, panel);
    draw::add_draw(
        &mut plan,
        Draw::Panel {
            area: panel,
            title: " Options  (Space/Enter=toggle  q/Esc=close) ".to_string(),
            rounded: false,
            border: SpanStyle::of(Some(Color::Cyan), None, false),
            fill: SpanStyle::of(None, Some(Tone::Panel.color()), false),
        },
    );
    let mut label = String::new();
    label.append(" ");
    label.append(
        if scroll_on_erase_in_display {
            "[x]"
        } else {
            "[ ]"
        },
    );
    label.append(" scrollOnEraseInDisplay compatibility mode: ");
    label.append(
        if scroll_on_erase_in_display {
            "on"
        } else {
            "off"
        },
    );
    proof {
        assert(label@ =~= option_label(scroll_on_erase_in_display));
    }
    let count: usize = label.as_str().unicode_len();
    let width: usize = inner.width as usize;
    let fill: usize = width.saturating_sub(count);
    label.append(draw::blank(fill).as_str());
    proof {
        assert(draw::spaces(fill as int) =~= draw::spaces(width - count));
    }
    draw::add_draw(
        &mut plan,
        draw::text_line(
            Rect::new(inner.x, inner.y, inner.width, 1),
            label,
            if selected == 0 {
                SpanStyle::of(Some(Color::Black), Some(Color::Cyan), true)
            } else {
                SpanStyle::of(Some(Color::White), None, false)
            },
        ),
    );
    if inner.height > 2 {
        let hint = draw::truncate_to_width(
            " Normal buffer CSI 2J scrolls content into history instead of cutting the screen.",
            width,
        );
        draw::add_draw(
            &mut plan,
            draw::text_line(
                Rect::new(inner.x, inner.y.saturating_add(2), inner.width, 1),
                hint,
                SpanStyle::of(Some(Color::DarkGray), None, false),
            ),
        );
    }
    proof {
        assert(draw::draws(plan@) =~= options_plan(
            screen,
            selected as int,
            scroll_on_erase_in_display,
        ));
    }
    plan
}

/// What stands on the screen before a frame has come.
pub fn render_loading_in_area(area: Rect) -> (r: Vec<Draw>)
    ensures
        draw::draws(r@) == seq![
            draw::plain_line(area, " Starting zmux..."@, style::colored(Some(Color::Yellow), None, false)),
        ],
{
    let mut plan: Vec<Draw> = Vec::new();
    draw::add_draw(
        &mut plan,
        draw::text_line(
            area,
            " Starting zmux...".to_string(),
            SpanStyle::of(Some(Color::Yellow), None, false),
        ),
    );
    proof {
        assert(draw::draws(Seq::<Draw>::empty()) =~= Seq::empty());
        assert(draw::draws(plan@) =~= seq![
            draw::plain_line(area, " Starting zmux..."@, style::colored(Some(Color::Yellow), None, false)),
        ]);
    }
    plan
}

/// What stands on the whole screen before a frame has come.
pub fn render_loading(screen: Rect) -> (r: Vec<Draw>)
    ensures
        draw::draws(r@) == seq![
            draw::plain_line(screen, " Starting zmux..."@, style::colored(Some(Color::Yellow), None, false)),
        ],
{
    render_loading_in_area(screen)
}

/// A floating panel taken away: its cells blank and sent in any case.
pub fn clear_floating_overlay_rect(area: Rect) -> (r: Vec<Draw>)
    ensures
        draw::draws(r@) == (if area.width == 0 || area.height == 0 {
            Seq::empty()
        } else {
            seq![DrawV::Repaint(area), DrawV::Fill { area, style: style::no_style() }]
        }),
{
    let mut plan: Vec<Draw> = Vec::new();
    proof {
        assert(draw::draws(plan@) =~= Seq::empty());
    }
    if area.width > 0 && area.height > 0 {
        draw::add_draw(&mut plan, Draw::Repaint(area));
        draw::add_draw(&mut plan, Draw::Fill { area, style: SpanStyle::none() });
        proof {
            assert(draw::draws(plan@) =~= seq![
                DrawV::Repaint(area),
                DrawV::Fill { area, style: style::no_style() },
            ]);
        }
    }
    plan
}

} // verus!
