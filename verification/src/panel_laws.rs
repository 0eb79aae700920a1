//! What the tree's lines, the prompts and the panels read.

use crate::client::drawing;
use crate::draw;
use crate::paint_laws;
use crate::panels;
use crate::text;
use crate::client::mode::ModeV;
use crate::draw::{DrawV, SpanV};
use crate::geometry::Rect;
use crate::navigation::{EntryV, MachineConnectionState, NavigationNodeKind};
use crate::style::Color;
use vstd::prelude::*;

verus! {

/// The sign of a line: of a machine by its connection, of all else by what it is.
pub open spec fn sign_read(e: EntryV) -> char {
    if e.kind == NavigationNodeKind::Workspace {
        '▣'
    } else if e.kind == NavigationNodeKind::Session {
        '◆'
    } else if e.kind == NavigationNodeKind::Window {
        '□'
    } else if e.kind == NavigationNodeKind::Pane {
        '·'
    } else if e.connection == Some(MachineConnectionState::Unavailable) {
        '!'
    } else if e.connection == Some(MachineConnectionState::Probing) {
        '◌'
    } else if e.connection == Some(MachineConnectionState::Disconnected) {
        '○'
    } else {
        '●'
    }
}

/// The mark of a line: whether what is below it is shown, or nothing is below it.
pub open spec fn mark_read(e: EntryV) -> char {
    if !e.expandable {
        ' '
    } else if e.expanded {
        '▾'
    } else {
        '▸'
    }
}

pub open spec fn blanks(n: int) -> Seq<char> {
    Seq::new(
        if n < 0 {
            0
        } else {
            n as nat
        },
        |i: int| ' ',
    )
}

proof fn lemma_seven(a: SpanV, b: SpanV, c: SpanV, d: SpanV, e: SpanV, f: SpanV, g: SpanV)
    ensures
        paint_laws::reading(seq![a, b, c, d, e, f, g]) == a.text + b.text + c.text + d.text + e.text + f.text
            + g.text,
{
    let s7 = seq![a, b, c, d, e, f, g];
    let s6 = seq![a, b, c, d, e, f];
    let s5 = seq![a, b, c, d, e];
    let s4 = seq![a, b, c, d];
    let s3 = seq![a, b, c];
    let s2 = seq![a, b];
    let s1 = seq![a];
    assert(s7.drop_last() =~= s6);
    assert(s6.drop_last() =~= s5);
    assert(s5.drop_last() =~= s4);
    assert(s4.drop_last() =~= s3);
    assert(s3.drop_last() =~= s2);
    assert(s2.drop_last() =~= s1);
    assert(s1.drop_last() =~= Seq::empty());
    assert(paint_laws::reading(Seq::<SpanV>::empty()) =~= Seq::empty());
    assert(paint_laws::reading(s1) =~= a.text);
    assert(paint_laws::reading(s2) == a.text + b.text);
    assert(paint_laws::reading(s3) == a.text + b.text + c.text);
    assert(paint_laws::reading(s4) == a.text + b.text + c.text + d.text);
    assert(paint_laws::reading(s5) == a.text + b.text + c.text + d.text + e.text);
    assert(paint_laws::reading(s6) == a.text + b.text + c.text + d.text + e.text + f.text);
}

/// A line of the tree reads: a bar where it is selected, two blanks for every level above it, its
/// mark, its sign, as much of its label as there is room for, and at the right what is told of it.
pub proof fn law_tree_lines_read(e: EntryV, selected: bool, width: int) -> (shown: (Seq<char>, int))
    ensures
        paint_laws::reading(panels::tree_line_spans(e, selected, width)) == seq![
            if selected {
                '▌'
            } else {
                ' '
            },
        ] + blanks(2 * e.depth) + seq![mark_read(e), ' ', sign_read(e), ' '] + shown.0 + blanks(
            shown.1,
        ) + (match e.meta {
            Some(m) => m,
            None => Seq::empty(),
        }),
        shown.0.len() <= e.label.len(),
        shown.0.len() < e.label.len() ==> shown.0 == draw::fitted(
            e.label,
            text::max_int(width - text::clip(panels::reserved_columns(e)), 0),
        ),
        shown.0.len() == e.label.len() ==> shown.0 == e.label,
{
    let spans = panels::tree_line_spans(e, selected, width);
    lemma_seven(spans[0], spans[1], spans[2], spans[3], spans[4], spans[5], spans[6]);
    assert(spans =~= seq![spans[0], spans[1], spans[2], spans[3], spans[4], spans[5], spans[6]]);
    let label = panels::shown_label(e, width);
    let max = text::max_int(width - text::clip(panels::reserved_columns(e)), 0);
    let used = text::clip(panels::reserved_columns(e) + text::columns(label));
    assert(draw::spaces(2 * e.depth) =~= blanks(2 * e.depth));
    assert(draw::spaces(width - used) =~= blanks(width - used));
    if max > 0 {
        paint_laws::law_front_that_fits(e.label, max);
    }
    if label.len() == e.label.len() {
        assert(label =~= e.label);
    }
    assert(paint_laws::reading(spans) =~= seq![
        if selected {
            '▌'
        } else {
            ' '
        },
    ] + blanks(2 * e.depth) + seq![mark_read(e), ' ', sign_read(e), ' '] + label + blanks(
        width - used,
    ) + panels::meta_text(e));
    (label, width - used)
}

/// A selected line is white, the active one green and bold, and all others light.
pub proof fn law_tree_lines_are_colored(e: EntryV, selected: bool, width: int)
    ensures
        ({
            let label = panels::tree_line_spans(e, selected, width)[4].style;
            &&& selected ==> label.fg == Some(Color::White) && label.bg == Some(
                Color::Rgb(31, 41, 55),
            )
            &&& !selected ==> label.bg == Some(Color::Rgb(16, 20, 27))
            &&& !selected && e.active ==> label.fg == Some(Color::Rgb(74, 222, 128))
            &&& !selected && !e.active ==> label.fg == Some(Color::Rgb(218, 225, 234))
            &&& label.bold == e.active
        }),
{
}

/// A prompt is on the last row: its label and what was typed, all of it while the cursor is on the
/// screen so, and the cursor behind what is typed before it.
pub proof fn law_prompt_is_on_the_last_row(
    screen: Rect,
    label: Seq<char>,
    buf: Seq<char>,
    cursor: int,
)
    requires
        0 <= cursor <= buf.len(),
        screen.x + screen.width <= u16::MAX,
        screen.y + screen.height <= u16::MAX,
        screen.height > 0,
        text::columns(label) + text::columns(buf.take(cursor)) < screen.width,
    ensures
        ({
            let plan = panels::prompt_plan(screen, label, buf, cursor);
            let row = Rect {
                x: screen.x,
                y: (screen.y + screen.height - 1) as u16,
                width: screen.width,
                height: 1,
            };
            &&& plan.contains(DrawV::Clear(row))
            &&& plan[2] == draw::plain_line(row, label + buf, panels::on(Color::Black, Color::Yellow))
            &&& plan.last() == (DrawV::Cursor {
                x: (screen.x + text::columns(label) + text::columns(buf.take(cursor))) as u16,
                y: row.y,
            })
        }),
{
    let plan = panels::prompt_plan(screen, label, buf, cursor);
    let content = label + buf;
    assert(content.skip(0) =~= content);
    assert(content.take(0) =~= Seq::empty());
    assert(panels::visible_columns(content.take(0)) == 0);
    assert(panels::scrolled_to(content, 0, 0) == 0);
    let row = Rect {
        x: screen.x,
        y: (screen.y + screen.height - 1) as u16,
        width: screen.width,
        height: 1,
    };
    assert(plan[0] == DrawV::Clear(row));
}

/// Every mode with a prompt asks for what it is about, and shows what was typed so far.
pub proof fn law_prompts_ask(mode: ModeV, screen: Rect)
    ensures
        mode matches ModeV::CopySearch { prompt, forward } ==> drawing::dialog_plan(mode, screen)
            == panels::prompt_plan(
            screen,
            if forward {
                "/"@
            } else {
                "?"@
            },
            prompt.buf,
            prompt.buf.len() as int,
        ),
        mode matches ModeV::RenameWindow { prompt, .. } ==> drawing::dialog_plan(mode, screen)
            == panels::prompt_plan(screen, "Rename window: "@, prompt.buf, prompt.buf.len() as int),
        mode matches ModeV::RenameSession { prompt, .. } ==> drawing::dialog_plan(mode, screen)
            == panels::prompt_plan(screen, "Rename session: "@, prompt.buf, prompt.buf.len() as int),
        mode matches ModeV::RenamePane { prompt, .. } ==> drawing::dialog_plan(mode, screen) == panels::prompt_plan(
            screen,
            "Rename pane: "@,
            prompt.buf,
            prompt.buf.len() as int,
        ),
        mode matches ModeV::RenameIdentity { id, prompt } ==> drawing::dialog_plan(mode, screen)
            == panels::prompt_plan(
            screen,
            if id is Workspace {
                "Rename workspace: "@
            } else {
                "Rename machine: "@
            },
            prompt.buf,
            prompt.cursor as int,
        ),
        mode matches ModeV::Command { prompt } ==> drawing::dialog_plan(mode, screen) == panels::prompt_plan(
            screen,
            ":"@,
            prompt.buf,
            prompt.cursor as int,
        ),
        mode is Normal || mode is Prefix || mode is Navigator || mode is Resize || mode is CopyMode
            ==> drawing::dialog_plan(mode, screen).len() == 0,
{
    reveal(drawing::dialog_plan);
}

/// Closing asks by what the node is, by its label, and by what closing it ends: machines and
/// workspaces are only left, everything else ends.
pub proof fn law_closing_asks(e: EntryV, screen: Rect)
    ensures
        drawing::dialog_plan(ModeV::ConfirmNavigationClose { entry: e }, screen) == panels::prompt_plan(
            screen,
            drawing::close_question(e),
            Seq::empty(),
            0,
        ),
        e.kind == NavigationNodeKind::Machine ==> drawing::close_question(e) == "Close machine '"@ + e.label
            + "' (detach connections)? [y/N] "@,
        e.kind == NavigationNodeKind::Workspace ==> drawing::close_question(e) == "Close workspace '"@
            + e.label + "' (detach only)? [y/N] "@,
        e.kind == NavigationNodeKind::Session ==> drawing::close_question(e) == "Close session '"@ + e.label
            + "' (end processes)? [y/N] "@,
        e.kind == NavigationNodeKind::Window ==> drawing::close_question(e) == "Close window '"@ + e.label
            + "' (end processes)? [y/N] "@,
        e.kind == NavigationNodeKind::Pane ==> drawing::close_question(e) == "Close pane '"@ + e.label
            + "' (end processes)? [y/N] "@,
{
    reveal(drawing::dialog_plan);
    reveal_strlit("Close ");
    reveal_strlit(" '");
    reveal_strlit("' (");
    reveal_strlit(")? [y/N] ");
    reveal_strlit("machine");
    reveal_strlit("workspace");
    reveal_strlit("session");
    reveal_strlit("window");
    reveal_strlit("pane");
    reveal_strlit("detach connections");
    reveal_strlit("detach only");
    reveal_strlit("end processes");
    reveal_strlit("Close machine '");
    reveal_strlit("Close workspace '");
    reveal_strlit("Close session '");
    reveal_strlit("Close window '");
    reveal_strlit("Close pane '");
    reveal_strlit("' (detach connections)? [y/N] ");
    reveal_strlit("' (detach only)? [y/N] ");
    reveal_strlit("' (end processes)? [y/N] ");
    match e.kind {
        NavigationNodeKind::Machine => {
            assert(drawing::close_question(e) =~= "Close machine '"@ + e.label
                + "' (detach connections)? [y/N] "@);
        },
        NavigationNodeKind::Workspace => {
            assert(drawing::close_question(e) =~= "Close workspace '"@ + e.label
                + "' (detach only)? [y/N] "@);
        },
        NavigationNodeKind::Session => {
            assert(drawing::close_question(e) =~= "Close session '"@ + e.label
                + "' (end processes)? [y/N] "@);
        },
        NavigationNodeKind::Window => {
            assert(drawing::close_question(e) =~= "Close window '"@ + e.label
                + "' (end processes)? [y/N] "@);
        },
        NavigationNodeKind::Pane => {
            assert(drawing::close_question(e) =~= "Close pane '"@ + e.label
                + "' (end processes)? [y/N] "@);
        },
    }
}

/// The option reads whether it is on, by its box and in words.
pub proof fn law_option_reads()
    ensures
        panels::option_label(true) == " [x] scrollOnEraseInDisplay compatibility mode: on"@,
        panels::option_label(false) == " [ ] scrollOnEraseInDisplay compatibility mode: off"@,
{
    reveal_strlit(" ");
    reveal_strlit("[x]");
    reveal_strlit("[ ]");
    reveal_strlit(" scrollOnEraseInDisplay compatibility mode: ");
    reveal_strlit("on");
    reveal_strlit("off");
    reveal_strlit(" [x] scrollOnEraseInDisplay compatibility mode: on");
    reveal_strlit(" [ ] scrollOnEraseInDisplay compatibility mode: off");
    assert(panels::option_label(true) =~= " [x] scrollOnEraseInDisplay compatibility mode: on"@);
    assert(panels::option_label(false) =~= " [ ] scrollOnEraseInDisplay compatibility mode: off"@);
}

} // verus!
