//! The key references.

use crate::commands;
use crate::navigation;
use crate::text;
use crate::copy_mode::Pane;
use crate::geometry::Rect;
use vstd::prelude::*;

verus! {

/// The keys of the navigation tree.
pub open spec fn navigation_help() -> Seq<Seq<char>> {
    seq![
        "Machine > Workspace > Session > Window > Pane"@,
        ""@,
        "Prefix+m        Open/close floating navigation tree"@,
        "Prefix+M        Toggle fixed sidebar (hidden by default)"@,
        "Prefix+: help   Show all zmux shortcuts (:h also works)"@,
        "H               Show this complete key reference"@,
        "j/k, Down/Up    Select next/previous visible node"@,
        "h, Left         Collapse branch, or select parent"@,
        "l, Right        Expand, enter branch, or open pane"@,
        "g, Home         Select first visible node"@,
        "G, End          Select last visible node"@,
        "Enter           Open selected node (including windows)"@,
        "r               Rename selected node"@,
        "K, d, Delete    Delete selected node (y confirms)"@,
        "R               Refresh machine or active workspace"@,
        "Prefix+h        Enter sidebar at left pane boundary"@,
        "Prefix+l        Return focus to terminal"@,
        "q, Esc          Close sidebar / floating tree"@,
        "Click arrow     Expand/collapse branch"@,
        "Click name      Open selected node"@,
        ""@,
        "Workspace close detaches only; sessions stay alive."@,
        "Machine delete removes its connections, not servers."@,
        "Machine/workspace rename is saved in machines.json."@,
    ]
}

/// The keys behind the prefix.
pub open spec fn prefix_help() -> Seq<Seq<char>> {
    seq![
        "ALL ZMUX SHORTCUTS"@,
        "Prefix = Ctrl+a; press it, then the action key."@,
        ""@,
        "[ Global / panes / windows / sessions ]"@,
        "Prefix+H        Set Home for the current Workspace only"@,
        "Prefix+: h/help Show this full shortcut reference"@,
        "Prefix+Prefix   Send a literal Ctrl+a to the terminal"@,
        "Prefix+m / M    Floating tree / toggle fixed sidebar"@,
        "Prefix+%        Split into left and right panes"@,
        "Prefix+\"        Split into top and bottom panes"@,
        "Prefix+x        Close current pane"@,
        "Prefix+z        Maximize/restore current pane"@,
        "Prefix+b        Toggle pane borders"@,
        "Prefix+K        Clear pane output and copy history"@,
        "Prefix+h/j/k/l  Focus left/down/up/right pane"@,
        "Prefix+arrows   Same directional pane navigation"@,
        "Prefix+h        At left edge, enter the sidebar"@,
        "Prefix+Alt+h/j/k/l  Resize left/down/up/right"@,
        "  Keep Alt held to repeat; idle timeout is 500 ms."@,
        "Prefix+c        Create window"@,
        "Prefix+n / p    Next / previous window"@,
        "Prefix+,        Rename window"@,
        "Prefix+$        Rename session"@,
        "Prefix+( / )    Previous / next session"@,
        "Prefix+d        Detach client; servers keep running"@,
        "Prefix+:        Open command input"@,
        "Prefix+O        Open runtime options"@,
        "Prefix+[        Enter copy mode"@,
        "Prefix+]        Paste clipboard text/image/files"@,
        "Cmd+V / Super+V Paste if terminal forwards this key"@,
        ""@,
        "[ Sidebar ]"@,
    ]
}

/// The keys of the other modes.
pub open spec fn modal_help() -> Seq<Seq<char>> {
    seq![
        ""@,
        "[ Copy mode ]"@,
        "q, Esc          Exit copy mode"@,
        "h/j/k/l, arrows Move left/down/up/right"@,
        "b / w / e       Previous word / next word / word end"@,
        "0, Home         Start of line"@,
        "$, End          End of line"@,
        "g / G           Top of loaded history / bottom"@,
        "Ctrl+b, PageUp  Page up (loads older history)"@,
        "Ctrl+f, PageDown Page down"@,
        "/ / ?           Search forward / backward"@,
        "n / N           Next / previous match"@,
        "v, Space        Character selection"@,
        "V               Line selection"@,
        "Ctrl+v          Rectangular selection"@,
        "y, Enter        Copy selection and exit"@,
        ""@,
        "[ Command / rename / search prompts ]"@,
        "Enter / Esc     Confirm / cancel"@,
        "Left / Right    Move input cursor"@,
        "Backspace       Delete previous character"@,
        "Typing / paste  Insert at input cursor"@,
        "Command and machine/Workspace rename also support:"@,
        "Home / End      Beginning / end of input"@,
        "Delete / Ctrl+u Delete next character / clear to start"@,
        "Copy search: q exits copy mode; Esc cancels search."@,
        "Close confirmation: y/Y confirms; Esc/n/N/Enter cancels."@,
        ""@,
        "[ Runtime options: Prefix+O ]"@,
        "Space, Enter    Toggle selected option"@,
        "q, Esc          Close options"@,
        ""@,
        "[ Pane resize mode ]"@,
        "Alt+h/j/k/l, Alt+arrows Resize in the given direction"@,
        "Esc             Finish resizing"@,
        "Prefix          Return to prefix commands"@,
        ""@,
        "[ Mouse ]"@,
        "Click pane      Focus pane"@,
        "Drag / double click Select text / select word"@,
        "Ctrl+click URL  Open URL in the system browser"@,
        "Mouse wheel     Scroll pane history"@,
        "q, Esc          Return from scrolled display to bottom"@,
        "Applications requesting mouse input receive events."@,
        ""@,
        "[ Help popup ]"@,
        "j/k, Down/Up    Scroll help"@,
        "PageUp/PageDown Scroll by page"@,
        "g/G, Home/End   Beginning / end of reference"@,
        "Mouse wheel     Scroll help"@,
        "q, Esc, H       Close help and return to previous mode"@,
        ""@,
        "[ Commands and shell keys ]"@,
        "Workspace Home: Prefix+H (new sessions/windows/panes)"@,
        "SSH machine:   Prefix+: then new -m <SSH_HOST>"@,
        "Other terminal keys go to the shell/application."@,
        "Shell Ctrl+c/d/l/r/z behavior is not a zmux binding."@,
    ]
}

/// Every key.
pub open spec fn shortcuts() -> Seq<Seq<char>> {
    prefix_help() + navigation_help() + modal_help()
}

pub open spec fn strs(v: Seq<&str>) -> Seq<Seq<char>> {
    Seq::new(v.len(), |i: int| v[i]@)
}

/// The keys of the navigation tree.
pub fn navigation_reference() -> (r: Vec<&'static str>)
    ensures
        strs(r@) == navigation_help(),
{
    let r: Vec<&'static str> = vec![
        "Machine > Workspace > Session > Window > Pane",
        "",
        "Prefix+m        Open/close floating navigation tree",
        "Prefix+M        Toggle fixed sidebar (hidden by default)",
        "Prefix+: help   Show all zmux shortcuts (:h also works)",
        "H               Show this complete key reference",
        "j/k, Down/Up    Select next/previous visible node",
        "h, Left         Collapse branch, or select parent",
        "l, Right        Expand, enter branch, or open pane",
        "g, Home         Select first visible node",
        "G, End          Select last visible node",
        "Enter           Open selected node (including windows)",
        "r               Rename selected node",
        "K, d, Delete    Delete selected node (y confirms)",
        "R               Refresh machine or active workspace",
        "Prefix+h        Enter sidebar at left pane boundary",
        "Prefix+l        Return focus to terminal",
        "q, Esc          Close sidebar / floating tree",
        "Click arrow     Expand/collapse branch",
        "Click name      Open selected node",
        "",
        "Workspace close detaches only; sessions stay alive.",
        "Machine delete removes its connections, not servers.",
        "Machine/workspace rename is saved in machines.json.",
    ];
    proof {
        assert(strs(r@) =~= navigation_help());
    }
    r
}

fn prefix_reference() -> (r: Vec<&'static str>)
    ensures
        strs(r@) == prefix_help(),
{
    let r: Vec<&'static str> = vec![
        "ALL ZMUX SHORTCUTS",
        "Prefix = Ctrl+a; press it, then the action key.",
        "",
        "[ Global / panes / windows / sessions ]",
        "Prefix+H        Set Home for the current Workspace only",
        "Prefix+: h/help Show this full shortcut reference",
        "Prefix+Prefix   Send a literal Ctrl+a to the terminal",
        "Prefix+m / M    Floating tree / toggle fixed sidebar",
        "Prefix+%        Split into left and right panes",
        "Prefix+\"        Split into top and bottom panes",
        "Prefix+x        Close current pane",
        "Prefix+z        Maximize/restore current pane",
        "Prefix+b        Toggle pane borders",
        "Prefix+K        Clear pane output and copy history",
        "Prefix+h/j/k/l  Focus left/down/up/right pane",
        "Prefix+arrows   Same directional pane navigation",
        "Prefix+h        At left edge, enter the sidebar",
        "Prefix+Alt+h/j/k/l  Resize left/down/up/right",
        "  Keep Alt held to repeat; idle timeout is 500 ms.",
        "Prefix+c        Create window",
        "Prefix+n / p    Next / previous window",
        "Prefix+,        Rename window",
        "Prefix+$        Rename session",
        "Prefix+( / )    Previous / next session",
        "Prefix+d        Detach client; servers keep running",
        "Prefix+:        Open command input",
        "Prefix+O        Open runtime options",
        "Prefix+[        Enter copy mode",
        "Prefix+]        Paste clipboard text/image/files",
        "Cmd+V / Super+V Paste if terminal forwards this key",
        "",
        "[ Sidebar ]",
    ];
    proof {
        assert(strs(r@) =~= prefix_help());
    }
    r
}

fn modal_reference() -> (r: Vec<&'static str>)
    ensures
        strs(r@) == modal_help(),
{
    let r: Vec<&'static str> = vec![
        "",
        "[ Copy mode ]",
        "q, Esc          Exit copy mode",
        "h/j/k/l, arrows Move left/down/up/right",
        "b / w / e       Previous word / next word / word end",
        "0, Home         Start of line",
        "$, End          End of line",
        "g / G           Top of loaded history / bottom",
        "Ctrl+b, PageUp  Page up (loads older history)",
        "Ctrl+f, PageDown Page down",
        "/ / ?           Search forward / backward",
        "n / N           Next / previous match",
        "v, Space        Character selection",
        "V               Line selection",
        "Ctrl+v          Rectangular selection",
        "y, Enter        Copy selection and exit",
        "",
        "[ Command / rename / search prompts ]",
        "Enter / Esc     Confirm / cancel",
        "Left / Right    Move input cursor",
        "Backspace       Delete previous character",
        "Typing / paste  Insert at input cursor",
        "Command and machine/Workspace rename also support:",
        "Home / End      Beginning / end of input",
        "Delete / Ctrl+u Delete next character / clear to start",
        "Copy search: q exits copy mode; Esc cancels search.",
        "Close confirmation: y/Y confirms; Esc/n/N/Enter cancels.",
        "",
        "[ Runtime options: Prefix+O ]",
        "Space, Enter    Toggle selected option",
        "q, Esc          Close options",
        "",
        "[ Pane resize mode ]",
        "Alt+h/j/k/l, Alt+arrows Resize in the given direction",
        "Esc             Finish resizing",
        "Prefix          Return to prefix commands",
        "",
        "[ Mouse ]",
        "Click pane      Focus pane",
        "Drag / double click Select text / select word",
        "Ctrl+click URL  Open URL in the system browser",
        "Mouse wheel     Scroll pane history",
        "q, Esc          Return from scrolled display to bottom",
        "Applications requesting mouse input receive events.",
        "",
        "[ Help popup ]",
        "j/k, Down/Up    Scroll help",
        "PageUp/PageDown Scroll by page",
        "g/G, Home/End   Beginning / end of reference",
        "Mouse wheel     Scroll help",
        "q, Esc, H       Close help and return to previous mode",
        "",
        "[ Commands and shell keys ]",
        "Workspace Home: Prefix+H (new sessions/windows/panes)",
        "SSH machine:   Prefix+: then new -m <SSH_HOST>",
        "Other terminal keys go to the shell/application.",
        "Shell Ctrl+c/d/l/r/z behavior is not a zmux binding.",
    ];
    proof {
        assert(strs(r@) =~= modal_help());
    }
    r
}

fn push_all(out: &mut Vec<&'static str>, more: Vec<&'static str>)
    ensures
        strs(final(out)@) == strs(old(out)@) + strs(more@),
{
    let ghost before = strs(out@);
    let mut i: usize = 0;
    proof {
        assert(before + strs(more@).take(0) =~= before);
    }
    while i < more.len()
        invariant
            i <= more@.len(),
            strs(out@) == before + strs(more@).take(i as int),
        decreases more@.len() - i,
    {
        let ghost had = out@;
        out.push(more[i]);
        proof {
            assert(strs(out@) =~= strs(had).push(more@[i as int]@));
            assert((before + strs(more@).take(i as int)).push(strs(more@)[i as int]) =~= before
                + strs(more@).take(i + 1));
        }
        i = i + 1;
    }
    proof {
        assert(strs(more@).take(more@.len() as int) =~= strs(more@));
    }
}

/// Every key.
pub fn all_shortcuts() -> (r: Vec<&'static str>)
    ensures
        strs(r@) == shortcuts(),
{
    let mut out = prefix_reference();
    push_all(&mut out, navigation_reference());
    push_all(&mut out, modal_reference());
    out
}

/// Where a key reference of so many lines is shown.
pub open spec fn help_area(area: Rect, lines: int) -> Rect {
    let width = text::min_int(text::max_int(area.width - 2, 0), 68);
    let height = text::min_int(text::max_int(area.height - 2, 0), text::min_int(lines + 2, 65535));
    Rect {
        x: navigation::sat16(area.x + (area.width - width) / 2) as u16,
        y: navigation::sat16(area.y + (area.height - height) / 2) as u16,
        width: width as u16,
        height: height as u16,
    }
}

fn help_rect(area: Rect, line_count: usize) -> (r: Rect)
    ensures
        r == help_area(area, line_count as int),
{
    let inner_width: u16 = area.width.saturating_sub(2);
    let width: u16 = if inner_width < 68 {
        inner_width
    } else {
        68
    };
    let wanted: u16 = if line_count < 65533 {
        (line_count + 2) as u16
    } else {
        65535
    };
    let inner_height: u16 = area.height.saturating_sub(2);
    let height: u16 = if inner_height < wanted {
        inner_height
    } else {
        wanted
    };
    Rect::new(
        area.x.saturating_add((area.width - width) / 2),
        area.y.saturating_add((area.height - height) / 2),
        width,
        height,
    )
}

/// Where the navigation tree's keys are shown.
pub fn navigation_help_rect(area: Rect) -> (r: Rect)
    ensures
        r == help_area(area, navigation_help().len() as int),
{
    let source = navigation_reference();
    proof {
        assert(strs(source@).len() == source@.len());
    }
    help_rect(area, source.len())
}

/// Where all keys are shown.
pub fn shortcuts_help_rect(area: Rect) -> (r: Rect)
    ensures
        r == help_area(area, shortcuts().len() as int),
{
    let source = all_shortcuts();
    proof {
        assert(strs(source@).len() == source@.len());
    }
    help_rect(area, source.len())
}

/// A key reference lies inside its area.
pub proof fn law_help_stays_inside(area: Rect, lines: int)
    requires
        area.on_screen(),
        lines >= 0,
    ensures
        help_area(area, lines).within(area),
{
}

/// A line from a character on, cut into pieces of a width.
pub open spec fn pieces(line: Seq<char>, from: int, width: int) -> Seq<Seq<char>>
    decreases text::max_int(line.len() - from, 0),
{
    if width <= 0 || from < 0 || from >= line.len() {
        Seq::empty()
    } else {
        seq![text::cut(line, from, from + width)] + pieces(line, from + width, width)
    }
}

/// A line cut into pieces of a width; an empty line stays one.
pub open spec fn wrapped_line(line: Seq<char>, width: int) -> Seq<Seq<char>> {
    if line.len() == 0 {
        seq![line]
    } else {
        pieces(line, 0, width)
    }
}

/// The first `n` lines, each cut into pieces of a width.
pub open spec fn wrapped_lines(source: Seq<Seq<char>>, n: int, width: int) -> Seq<Seq<char>>
    decreases n,
{
    if n <= 0 {
        Seq::empty()
    } else {
        wrapped_lines(source, n - 1, width) + wrapped_line(source[n - 1], width)
    }
}

/// Pieces one behind the other.
pub open spec fn rejoined(parts: Seq<Seq<char>>) -> Seq<char>
    decreases parts.len(),
{
    if parts.len() == 0 {
        Seq::empty()
    } else {
        parts[0] + rejoined(parts.drop_first())
    }
}

/// Nothing of a line is lost where it is cut, and no piece is wider than the width.
pub proof fn law_wrapping_loses_nothing(line: Seq<char>, width: int)
    requires
        width > 0,
    ensures
        rejoined(wrapped_line(line, width)) == line,
        forall|i: int|
            0 <= i < wrapped_line(line, width).len() ==> (#[trigger] wrapped_line(
                line,
                width,
            )[i]).len() <= width,
{
    if line.len() == 0 {
        reveal_with_fuel(rejoined, 2);
        assert(rejoined(seq![line]) =~= line);
    } else {
        lemma_pieces(line, 0, width);
        assert(line.skip(0) =~= line);
    }
}

proof fn lemma_pieces(line: Seq<char>, from: int, width: int)
    requires
        width > 0,
        0 <= from,
    ensures
        rejoined(pieces(line, from, width)) == (if from <= line.len() {
            line.skip(from)
        } else {
            Seq::empty()
        }),
        forall|i: int|
            0 <= i < pieces(line, from, width).len() ==> (#[trigger] pieces(
                line,
                from,
                width,
            )[i]).len() <= width,
    decreases text::max_int(line.len() - from, 0),
{
    if from >= line.len() {
        if from == line.len() {
            assert(line.skip(from) =~= Seq::empty());
        }
    } else {
        lemma_pieces(line, from + width, width);
        let head = text::cut(line, from, from + width);
        let rest = pieces(line, from + width, width);
        let all = pieces(line, from, width);
        assert(all =~= seq![head] + rest);
        assert(all.drop_first() =~= rest);
        if from + width <= line.len() {
            assert(head + line.skip(from + width) =~= line.skip(from));
        } else {
            assert(head + Seq::<char>::empty() =~= line.skip(from));
        }
        assert forall|i: int| 0 <= i < all.len() implies (#[trigger] all[i]).len() <= width by {
            if i > 0 {
                assert(all[i] == rest[i - 1]);
            }
        }
    }
}

/// The width that key references are cut to.
pub open spec fn help_width(area: Rect) -> int {
    text::max_int(help_area(area, navigation_help().len() as int).width - 2, 1)
}

/// A key reference cut to the width of its area.
pub open spec fn help_lines(area: Rect, source: Seq<Seq<char>>) -> Seq<Seq<char>> {
    wrapped_lines(source, source.len() as int, help_width(area))
}

pub fn wrapped_help_lines(area: Rect, source: &Vec<&'static str>) -> (r: Vec<String>)
    ensures
        commands::texts(r@) == help_lines(area, strs(source@)),
{
    let panel: u16 = navigation_help_rect(area).width.saturating_sub(2);
    let width: usize = if panel < 1 {
        1
    } else {
        panel as usize
    };
    let ghost all = strs(source@);
    let mut out: Vec<String> = Vec::new();
    let mut i: usize = 0;
    proof {
        assert(commands::texts(out@) =~= Seq::empty());
    }
    while i < source.len()
        invariant
            i <= source@.len(),
            all == strs(source@),
            1 <= width <= 65535,
            commands::texts(out@) == wrapped_lines(all, i as int, width as int),
        decreases source@.len() - i,
    {
        let chars = text::chars_of(source[i]);
        let ghost line = source@[i as int]@;
        let ghost before = commands::texts(out@);
        let n: usize = chars.len();
        if n == 0 {
            let ghost had = out@;
            out.push(String::new());
            proof {
                assert(line =~= Seq::empty());
                assert(commands::texts(out@) =~= commands::texts(had) + seq![line]);
            }
        } else {
            let mut from: usize = 0;
            proof {
                assert(before + pieces(line, 0, width as int) =~= before + wrapped_line(
                    line,
                    width as int,
                ));
            }
            while from < n
                invariant
                    chars@ == line,
                    n == line.len(),
                    n > 0,
                    1 <= width <= 65535,
                    from <= n,
                    commands::texts(out@) + pieces(line, from as int, width as int) == before + wrapped_line(
                        line,
                        width as int,
                    ),
                decreases n - from,
            {
                let end: usize = if n - from > width {
                    from + width
                } else {
                    n
                };
                let piece = text::slice_of(chars.as_slice(), from, end);
                let ghost had = out@;
                out.push(piece);
                proof {
                    let rest = pieces(line, from + width, width as int);
                    assert(text::cut(line, from as int, end as int) =~= text::cut(
                        line,
                        from as int,
                        from + width,
                    ));
                    assert(commands::texts(out@) =~= commands::texts(had).push(piece@));
                    assert(commands::texts(had) + (seq![piece@] + rest) =~= commands::texts(had).push(piece@) + rest);
                    if end == n {
                        assert(pieces(line, n as int, width as int) =~= rest);
                    }
                }
                from = end;
            }
            proof {
                assert(pieces(line, n as int, width as int) =~= Seq::empty());
                assert(commands::texts(out@) + Seq::<Seq<char>>::empty() =~= commands::texts(out@));
            }
        }
        i = i + 1;
    }
    proof {
        assert(all.len() == source@.len());
    }
    out
}

/// The lines of the reference to the navigation tree's keys.
pub fn navigation_help_lines(area: Rect) -> (r: Vec<String>)
    ensures
        commands::texts(r@) == help_lines(area, navigation_help()),
{
    wrapped_help_lines(area, &navigation_reference())
}

/// The lines of the reference to all keys.
pub fn shortcuts_help_lines(area: Rect) -> (r: Vec<String>)
    ensures
        commands::texts(r@) == help_lines(area, shortcuts()),
{
    wrapped_help_lines(area, &all_shortcuts())
}

/// How far a key reference can be scrolled.
pub open spec fn help_max_scroll(area: Rect, source: Seq<Seq<char>>) -> int {
    text::max_int(
        help_lines(area, source).len() - text::max_int(help_area(area, source.len() as int).height - 2, 0),
        0,
    )
}

/// How far the reference to the navigation tree's keys can be scrolled.
pub fn navigation_help_max_scroll(area: Rect) -> (r: usize)
    ensures
        r == help_max_scroll(area, navigation_help()),
{
    let lines = navigation_help_lines(area);
    proof {
        assert(commands::texts(lines@).len() == lines@.len());
    }
    lines.len().saturating_sub(navigation_help_rect(area).height.saturating_sub(2) as usize)
}

/// How far the reference to all keys can be scrolled.
pub fn shortcuts_help_max_scroll(area: Rect) -> (r: usize)
    ensures
        r == help_max_scroll(area, shortcuts()),
{
    let lines = shortcuts_help_lines(area);
    proof {
        assert(commands::texts(lines@).len() == lines@.len());
    }
    lines.len().saturating_sub(shortcuts_help_rect(area).height.saturating_sub(2) as usize)
}

} // verus!
