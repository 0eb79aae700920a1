//! What time and the servers' frames do to the client.

use crate::client::keyboard;
use crate::client::shortcut_laws;
use crate::client::state;
use crate::client::ticks;
use crate::client::actions::{EffectV, RequestV};
use crate::client::state::{ClientV, ConnectionV, EnvV};
use crate::session_tree::TreeV;
use vstd::prelude::*;

verus! {

/// A notice stays for the time that it was given, and is gone from then on.
pub proof fn law_notices_end_in_time(c: ClientV, text: Seq<char>, now: u64, ms: u64, later: u64)
    requires
        now + ms <= u64::MAX,
    ensures
        ({
            let d = state::told(c, text, now, ms as int);
            &&& d.ui.notice matches Some(n) && n.text == text
            &&& d.out == c.out
            &&& later < now + ms ==> ticks::notice_timed(d, later).ui.notice == d.ui.notice
            &&& later >= now + ms ==> ticks::notice_timed(d, later).ui.notice is None
        }),
{
}

/// Resizing ends by itself once its time is over and not before, and nobody is asked anything.
pub proof fn law_resizing_ends_in_time(c: ClientV, env: EnvV, later: u64)
    requires
        env.now + 500 <= u64::MAX,
    ensures
        ({
            let d = keyboard::resizing(c, env);
            &&& d.ui.mode is Resize
            &&& later < env.now + 500 ==> ticks::resizing_timed(d, later) == d
            &&& later >= env.now + 500 ==> ticks::resizing_timed(d, later).ui.mode is Normal
                && ticks::resizing_timed(d, later).ui.resize_deadline is None && ticks::resizing_timed(
                d,
                later,
            ).out == c.out
        }),
{
}

/// A tree that was just read is read again after 75 milliseconds and not before; one that is stale
/// at once.
pub proof fn law_trees_are_read_in_time(w: ConnectionV, tree: Seq<TreeV>, now: u64, later: u64)
    requires
        now <= later,
        w.tree_at is None,
    ensures
        ticks::tree_read(w, tree, now).tree == tree,
        ticks::tree_read(w, tree, now).tree_at == Some(now),
        ticks::tree_due(ticks::tree_read(w, tree, now), later) <==> later - now >= 75,
        ticks::tree_read(w, tree, now).socket == w.socket && ticks::tree_read(w, tree, now).machine == w.machine
            && ticks::tree_read(w, tree, now).focus == w.focus,
{
}

/// What makes the tree stale has it asked for at once and for half a second more.
pub proof fn law_stale_trees_are_asked_for(c: ClientV, now: u64, later: u64)
    requires
        c.wf(),
        now + 500 <= u64::MAX,
    ensures
        ({
            let d = state::tree_stale(c, now);
            let w = d.ws.list[d.ws.active as int];
            &&& d.out == c.out.push(shortcut_laws::to_active(c, RequestV::RefreshTree))
            &&& d.ws.active == c.ws.active
            &&& ticks::tree_due(w, later)
            &&& ticks::tree_hurried(w, later) <==> later < now + 500
            &&& forall|i: int|
                0 <= i < c.ws.list.len() && i != c.ws.active ==> #[trigger] d.ws.list[i]
                    == c.ws.list[i]
        }),
{
}

/// Giving up a workspace other than the active one leaves the same one active, keeps the others in
/// order, and says which connection is given up.
pub proof fn law_others_are_dropped_alone(c: ClientV, i: int)
    requires
        c.wf(),
        c.ws.list.len() <= usize::MAX,
        0 <= i < c.ws.list.len(),
        i != c.ws.active,
    ensures
        ({
            let d = ticks::inactive_dropped(c, i);
            &&& d.wf()
            &&& d.ws.list[d.ws.active as int] == c.ws.list[c.ws.active as int]
            &&& d.ws.list.len() == c.ws.list.len() - 1
            &&& forall|j: int| 0 <= j < i ==> #[trigger] d.ws.list[j] == c.ws.list[j]
            &&& forall|j: int|
                i <= j < d.ws.list.len() ==> #[trigger] d.ws.list[j] == c.ws.list[j + 1]
            &&& d.out == c.out.push(EffectV::Drop { workspace: i as usize })
        }),
{
}

/// Where the server of the active workspace says that it ends, the workspace is given up; the
/// client ends with the last one, and else goes on with another.
pub proof fn law_active_server_ends(c: ClientV, env: EnvV)
    requires
        c.wf(),
        c.ws.list.len() <= usize::MAX,
    ensures
        ({
            let d = ticks::active_died(c, env);
            &&& d.ws.list == c.ws.list.remove(c.ws.active as int)
            &&& c.ws.list.len() == 1 ==> d.out.len() > 0 && d.out.last() == EffectV::Quit
            &&& c.ws.list.len() > 1 ==> d.wf() && d.ui.mode is Normal && d.out.last() == shortcut_laws::to_active(
                d,
                RequestV::RefreshDisplay,
            ) && (d.ui.notice matches Some(n) && n.text == "workspace closed"@)
        }),
{
    reveal(ticks::active_died);
}

/// Copy mode follows the active pane: it begins where the frame shows it and ends where the frame
/// showed it before and does not any more.
pub proof fn law_copy_mode_follows_the_frame(c: ClientV, copying: bool, counter: u64)
    ensures
        c.ui.mode is Normal && copying && !c.ui.copy_exit_pending && c.ui.copy_suppress != Some(
            counter,
        ) ==> ticks::copy_synced(c, copying, counter).ui.mode is CopyMode,
        c.ui.mode is Normal && !copying ==> ticks::copy_synced(c, copying, counter).ui.mode is Normal,
        c.ui.mode is CopyMode && copying ==> ticks::copy_synced(c, copying, counter).ui.mode is CopyMode
            && ticks::copy_synced(c, copying, counter).ui.copy_confirmed,
        c.ui.mode is CopyMode && !copying && c.ui.copy_confirmed ==> ticks::copy_synced(
            c,
            copying,
            counter,
        ).ui.mode is Normal,
        c.ui.mode is CopyMode && !copying && !c.ui.copy_confirmed ==> ticks::copy_synced(
            c,
            copying,
            counter,
        ).ui.mode is CopyMode,
        ticks::copy_synced(c, copying, counter).out == c.out,
        ticks::copy_synced(c, copying, counter).ws == c.ws,
{
    reveal(ticks::copy_synced);
}

} // verus!
