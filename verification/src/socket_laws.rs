//! When a server is asked for its tree, and what it tells.

use crate::commands;
use crate::json;
use crate::session_tree;
use crate::socket;
use crate::text;
use crate::frame::FrameData;
use crate::json::{DocumentV, ScalarV};
use crate::session_tree::TreeV;
use crate::socket::{ConnectErrorV, TreeEvent, TreePoll, TreeStep};
use vstd::prelude::*;

verus! {

/// A reader that is closed stops, whatever happens.
pub proof fn law_closed_readers_stop(state: TreePoll, event: TreeEvent, remote: bool)
    ensures
        socket::tree_polled(state, event, true, remote).1 == TreeStep::Stop,
{
}

/// A reader asks as soon as it is connected; where it cannot connect it tries again after half a
/// second, unless the server speaks another language, and a quarter of a second after a connection
/// broke.
pub proof fn law_readers_connect_again(state: TreePoll, remote: bool)
    ensures
        socket::tree_polled(state, TreeEvent::Connected, false, remote).1 == TreeStep::Ask,
        socket::tree_polled(state, TreeEvent::NotConnected { incompatible: true }, false, remote).1
            == TreeStep::Stop,
        socket::tree_polled(state, TreeEvent::NotConnected { incompatible: false }, false, remote).1 == (
        TreeStep::Connect { wait: 500 }),
        socket::tree_polled(state, TreeEvent::Broken, false, remote).1 == (TreeStep::Connect { wait: 250 }),
{
}

/// A reader that is told so asks at once.
pub proof fn law_refreshing_asks_at_once(state: TreePoll, remote: bool)
    ensures
        socket::tree_polled(state, TreeEvent::Looked { refresh: true }, false, remote) == (
            TreePoll::Ready,
            TreeStep::Ask,
        ),
        socket::tree_polled(state, TreeEvent::Looked { refresh: false }, false, remote) == (
            state,
            TreeStep::Wait { wait: 100 },
        ),
{
}

/// The milliseconds that a reader waits until it asks again, where nobody asks it to before.
pub open spec fn pause_left(state: TreePoll, remote: bool, steps: nat) -> int
    decreases steps,
{
    let looked = socket::tree_polled(state, TreeEvent::Looked { refresh: false }, false, remote);
    match looked.1 {
        TreeStep::Wait { wait } => {
            let after = socket::tree_polled(looked.0, TreeEvent::Waited, false, remote);
            if after.1 == TreeStep::Ask || steps == 0 {
                wait as int
            } else {
                wait + pause_left(after.0, remote, (steps - 1) as nat)
            }
        },
        _ => 0,
    }
}

/// Three tenths of a second after an answer a local server is asked again, and one and a half
/// seconds after it a remote one.
pub proof fn law_pause_between_questions(state: TreePoll)
    ensures
        pause_left(socket::tree_polled(state, TreeEvent::Answered, false, false).0, false, 100) == 300,
        pause_left(socket::tree_polled(state, TreeEvent::Answered, false, true).0, true, 100) == 1500,
        socket::tree_polled(state, TreeEvent::Answered, false, false).1 == TreeStep::Look,
        socket::tree_polled(state, TreeEvent::Answered, false, true).1 == TreeStep::Look,
{
    lemma_pause(3, false, 100);
    lemma_pause(15, true, 100);
}

proof fn lemma_pause(n: u8, remote: bool, steps: nat)
    requires
        1 <= n <= steps,
    ensures
        pause_left(TreePoll::Waiting(n), remote, steps) == 100 * n,
    decreases n,
{
    if n > 1 {
        lemma_pause((n - 1) as u8, remote, (steps - 1) as nat);
    }
}

/// The value under a key is that of the first member with this key.
pub proof fn law_first_member_counts(
    m: Seq<(Seq<char>, ScalarV)>,
    key: Seq<char>,
    from: int,
    i: int,
)
    requires
        0 <= from <= i < m.len(),
        m[i].0 == key,
        forall|k: int| from <= k < i ==> (#[trigger] m[k]).0 != key,
    ensures
        json::member(m, key, from) == Some(m[i].1),
    decreases i - from,
{
    if from < i {
        assert(m[from].0 != key);
        law_first_member_counts(m, key, from + 1, i);
    }
}

/// A session, a window and a pane are read with every value under its own name; a pane without a
/// title has an empty one, and any other value that is missing makes that there is no line.
pub proof fn law_lines_are_read_by_their_names(
    m: Seq<(Seq<char>, ScalarV)>,
    name: Seq<char>,
    session: Seq<char>,
    title: Seq<char>,
    count: usize,
    index: usize,
    window: usize,
    pane: usize,
    active: bool,
)
    requires
        json::flag_member(m, "is_active"@) == Some(active),
    ensures
        json::text_member(m, "type"@) == Some("session"@) && json::text_member(m, "name"@) == Some(name)
            && json::number_member(m, "window_count"@) == Some(count) ==> session_tree::told_line(m) == Some(
            TreeV::Session { name, window_count: count, is_active: active },
        ),
        json::text_member(m, "type"@) == Some("window"@) && json::text_member(m, "session_name"@) == Some(
            session,
        ) && json::number_member(m, "index"@) == Some(index) && json::text_member(m, "name"@) == Some(name)
            && json::number_member(m, "pane_count"@) == Some(count) ==> session_tree::told_line(m) == Some(
            TreeV::Window {
                session_name: session,
                index,
                name,
                pane_count: count,
                is_active: active,
            },
        ),
        json::text_member(m, "type"@) == Some("pane"@) && json::text_member(m, "session_name"@) == Some(session)
            && json::number_member(m, "window_index"@) == Some(window) && json::number_member(m, "pane_id"@)
            == Some(pane) && json::number_member(m, "index"@) == Some(index) && json::text_member(m, "title"@)
            == Some(title) ==> session_tree::told_line(m) == Some(
            TreeV::Pane {
                session_name: session,
                window_index: window,
                pane_id: pane,
                index,
                title,
                is_active: active,
            },
        ),
        json::text_member(m, "type"@) == Some("pane"@) && json::text_member(m, "session_name"@) == Some(session)
            && json::number_member(m, "window_index"@) == Some(window) && json::number_member(m, "pane_id"@)
            == Some(pane) && json::number_member(m, "index"@) == Some(index) && json::text_member(m, "title"@)
            is None ==> session_tree::told_line(m) == Some(
            TreeV::Pane {
                session_name: session,
                window_index: window,
                pane_id: pane,
                index,
                title: Seq::empty(),
                is_active: active,
            },
        ),
        json::text_member(m, "type"@) is None ==> session_tree::told_line(m) is None,
{
    reveal_strlit("session");
    reveal_strlit("window");
    reveal_strlit("pane");
    assert("session"@.len() == 7 && "window"@.len() == 6 && "pane"@.len() == 4);
}

/// The tree told is the lines told, in order, without what tells none.
pub proof fn law_told_lines_keep_their_order(
    objects: Seq<Seq<(Seq<char>, ScalarV)>>,
    n: int,
)
    requires
        0 <= n < objects.len(),
    ensures
        session_tree::told_line(objects[n]) matches Some(line) ==> session_tree::told_lines(objects, n + 1) == session_tree::told_lines(
            objects,
            n,
        ).push(line),
        session_tree::told_line(objects[n]) is None ==> session_tree::told_lines(objects, n + 1) == session_tree::told_lines(objects, n),
        session_tree::told_lines(objects, 0).len() == 0,
{
}

/// The option is on exactly where the server says so under its name.
pub proof fn law_option_is_read(m: Seq<(Seq<char>, ScalarV)>, objects: Seq<Seq<(Seq<char>, ScalarV)>>)
    ensures
        socket::erase_scrolls(Some(DocumentV::Single(m))) <==> json::member(m, "scroll_on_erase_in_display"@, 0)
            == Some(ScalarV::Flag(true)),
        !socket::erase_scrolls(Some(DocumentV::List(objects))),
        !socket::erase_scrolls(None),
{
}

/// A number goes with a minus in front where it is negative, and without a sign else.
pub proof fn law_signs_stand_in_front(n: nat)
    requires
        n > 0,
    ensures
        socket::signed(n as int) == text::decimal(n),
        socket::signed(-(n as int)) == seq!['-'] + text::decimal(n),
{
    reveal_strlit("-");
    assert("-"@ =~= seq!['-']);
}

/// A frame keeps what was copied before, unless it brings a text of its own.
pub proof fn law_copied_text_is_kept(new: Seq<char>, before: FrameData)
    ensures
        socket::kept_yank(Some(new), Some(before)) == Some(new),
        socket::kept_yank(Some(new), None) == Some(new),
        socket::kept_yank(None, Some(before)) == commands::opt_text(before.yank_text),
        socket::kept_yank(None, None) is None,
{
}

/// A connection that was not made is told by what went wrong and by the words for it.
pub proof fn law_failed_connections_are_told(why: Seq<char>)
    ensures
        socket::connect_message(ConnectErrorV::BadFrame(why)) == "failed to decode first frame: "@ + why,
        socket::connect_message(ConnectErrorV::NoAnswer(why)) == "server did not respond to first FRAME?: "@
            + why,
        socket::connect_message(ConnectErrorV::NoSessions) == "server has no attachable sessions"@,
{
}

} // verus!
