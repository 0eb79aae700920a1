//! What time and new frames do.

use crate::client::mode;
use crate::client::remotes;
use crate::client::state;
use crate::client::tree;
use crate::commands;
use crate::frame;
use crate::session_tree;
use crate::text;
use crate::client::actions::{Effect, EffectV, Request, RequestV};
use crate::client::mode::{InputMode, ModeV};
use crate::client::remotes::{FailureV, RemoteV};
use crate::client::state::{Client, ClientV, ConnectionV, Env, EnvV, ManagerV, NOTICE, UiV};
use crate::session_tree::{SessionTreeEntry, TreeV};
use vstd::prelude::*;

verus! {

/// Milliseconds for which a tree that was read is good.
pub const TREE_INTERVAL: u64 = 75;

/// The floating tree is only kept where input can come back to it.
pub open spec fn popup_kept(c: ClientV) -> ClientV {
    state::with_ui(c, UiV { popup: c.ui.popup && mode::keeps_popup(c.ui.mode), ..c.ui })
}

/// Machines probed, one after the other.
pub open spec fn all_probed(c: ClientV, ids: Seq<Seq<char>>, n: int) -> ClientV
    decreases n,
{
    if n <= 0 {
        c
    } else {
        tree::with_probe(all_probed(c, ids, n - 1), ids[n - 1], false)
    }
}

/// The beginning of a round: machines are tried again whose time has come.
pub open spec fn round_begun(c: ClientV, now: u64) -> ClientV {
    let d = popup_kept(c);
    let ids = remotes::due_ids(d.remotes, now, d.remotes.len() as int);
    all_probed(d, ids, ids.len() as int)
}

/// A workspace other than the active one given up.
pub open spec fn inactive_dropped(c: ClientV, i: int) -> ClientV {
    state::acting(
        ClientV {
            ws: ManagerV {
                list: c.ws.list.remove(i),
                active: if i < c.ws.active {
                    (c.ws.active - 1) as usize
                } else {
                    c.ws.active
                },
                ..c.ws
            },
            ..c
        },
        EffectV::Drop { workspace: i as usize },
    )
}

/// The loss of a machine's connection noted; the local machine has none.
pub open spec fn loss_noted(c: ClientV, machine: Seq<char>, error: Seq<char>, now: u64) -> ClientV {
    if machine == "local"@ {
        c
    } else {
        ClientV {
            remotes: remotes::with_machine(
                c.remotes,
                machine,
                |m: RemoteV| remotes::failed(m, FailureV { message: error, retryable: true }, now),
            ),
            ..c
        }
    }
}

/// The workspaces from `i` on whose servers are gone given up, except for the active one; and how
/// many there were.
pub open spec fn dead_dropped(c: ClientV, gone: Seq<bool>, i: int, now: u64) -> (ClientV, nat)
    decreases c.ws.list.len() - i,
{
    if i < 0 || i >= c.ws.list.len() {
        (c, 0)
    } else if i != c.ws.active && i < gone.len() && gone[i] {
        let d = loss_noted(
            inactive_dropped(c, i),
            c.ws.list[i].machine,
            "remote connection closed"@,
            now,
        );
        let r = dead_dropped(d, gone.remove(i), i, now);
        (r.0, r.1 + 1)
    } else {
        dead_dropped(c, gone, i + 1, now)
    }
}

/// What the user is told of workspaces that were given up.
pub open spec fn dead_notice(n: nat) -> Seq<char> {
    if n == 1 {
        "closed 1 dead workspace"@
    } else {
        "closed "@ + text::decimal(n) + " dead workspaces"@
    }
}

/// Workspaces given up whose servers are gone, and the user told.
#[verifier::opaque]
pub open spec fn dead_cleared(c: ClientV, gone: Seq<bool>, now: u64) -> ClientV {
    let r = dead_dropped(c, gone, 0, now);
    if r.1 == 0 {
        r.0
    } else {
        state::told(state::touched(r.0), dead_notice(r.1), now, NOTICE as int)
    }
}

/// The active workspace's server is gone.
#[verifier::opaque]
pub open spec fn active_died(c: ClientV, env: EnvV) -> ClientV {
    let machine = state::active_ws(c).machine;
    let d = tree::active_removed(c);
    if d.ws.list.len() == 0 {
        state::acting(d, EffectV::Quit)
    } else {
        let e = loss_noted(d, machine, "SSH connection closed"@, env.now);
        let f = state::with_ui(
            e,
            UiV {
                mode: ModeV::Normal,
                copy_confirmed: false,
                selection: None,
                drawn_counter: 0,
                ..e.ui
            },
        );
        state::told(state::asked(f, RequestV::RefreshDisplay), "workspace closed"@, env.now, NOTICE as int)
    }
}

/// Copy mode as the frame shows it. A server may enter it by itself; one that is to leave it may
/// still show it for a while.
#[verifier::opaque]
pub open spec fn copy_synced(c: ClientV, copying: bool, counter: u64) -> ClientV {
    let pending = c.ui.copy_exit_pending && copying;
    let d = state::with_ui(c, UiV { copy_exit_pending: pending, ..c.ui });
    if c.ui.mode is CopyMode {
        if copying {
            state::with_ui(d, UiV { copy_confirmed: true, ..d.ui })
        } else if c.ui.copy_confirmed {
            state::with_ui(d, UiV { mode: ModeV::Normal, copy_confirmed: false, ..d.ui })
        } else {
            d
        }
    } else if c.ui.mode is Normal && copying && !pending && c.ui.copy_suppress != Some(counter) {
        state::with_ui(d, UiV { mode: ModeV::CopyMode, copy_confirmed: true, ..d.ui })
    } else {
        d
    }
}

/// Copy mode is only ignored in the frame that it was asked for.
pub open spec fn suppression_kept(c: ClientV, counter: u64) -> ClientV {
    state::with_ui(
        c,
        UiV {
            copy_suppress: if c.ui.copy_suppress == Some(counter) {
                c.ui.copy_suppress
            } else {
                None
            },
            ..c.ui
        },
    )
}

/// The current frame taken note of. Of each workspace is known whether its server is gone.
pub open spec fn frame_seen(c: ClientV, gone: Seq<bool>, env: EnvV) -> ClientV {
    let d = suppression_kept(c, env.counter);
    match env.frame {
        None => d,
        Some(fd) => if fd.exit {
            active_died(d, env)
        } else {
            copy_synced(dead_cleared(d, gone, env.now), frame::copying_in(fd.layout), env.counter)
        },
    }
}

/// Resizing ends when its time is over.
pub open spec fn resizing_timed(c: ClientV, now: u64) -> ClientV {
    let over = match c.ui.resize_deadline {
        Some(at) => now >= at,
        None => false,
    };
    if !(c.ui.mode is Resize) {
        state::with_ui(c, UiV { resize_deadline: None, ..c.ui })
    } else if over {
        state::with_ui(
            c,
            UiV { mode: ModeV::Normal, resize_deadline: None, drawn_counter: 0, ..c.ui },
        )
    } else {
        c
    }
}

/// The notice goes when its time is over.
pub open spec fn notice_timed(c: ClientV, now: u64) -> ClientV {
    match c.ui.notice {
        Some(n) => if now >= n.until {
            state::with_ui(c, UiV { notice: None, drawn_counter: 0, ..c.ui })
        } else {
            c
        },
        None => c,
    }
}

/// What has run out is ended: resizing, and the notice.
pub open spec fn timed_out(c: ClientV, now: u64) -> ClientV {
    notice_timed(resizing_timed(c, now), now)
}

/// Whether a workspace's tree is to be read again.
pub open spec fn tree_due(w: ConnectionV, now: u64) -> bool {
    match w.tree_at {
        Some(at) => text::max_int(now - at, 0) >= TREE_INTERVAL,
        None => true,
    }
}

/// Whether a workspace's server is to be asked for its tree often.
pub open spec fn tree_hurried(w: ConnectionV, now: u64) -> bool {
    match w.refresh_until {
        Some(until) => now < until,
        None => false,
    }
}

/// A workspace with its tree read, where that is due.
pub open spec fn tree_read(w: ConnectionV, tree: Seq<TreeV>, now: u64) -> ConnectionV {
    let due = tree_due(w, now);
    ConnectionV {
        tree: if due {
            tree
        } else {
            w.tree
        },
        tree_at: if due {
            Some(now)
        } else {
            w.tree_at
        },
        refresh_until: if tree_hurried(w, now) {
            w.refresh_until
        } else {
            None
        },
        ..w
    }
}

/// The trees of the first `n` workspaces read.
pub open spec fn trees_read(c: ClientV, trees: Seq<Seq<TreeV>>, now: u64, n: int) -> ClientV
    decreases n,
{
    if n <= 0 {
        c
    } else {
        let d = trees_read(c, trees, now, n - 1);
        let w = c.ws.list[n - 1];
        let e = ClientV {
            ws: ManagerV { list: d.ws.list.update(n - 1, tree_read(w, trees[n - 1], now)), ..d.ws },
            ..d
        };
        if tree_due(w, now) && tree_hurried(w, now) {
            state::acting(e, EffectV::Ask { workspace: (n - 1) as usize, request: RequestV::RefreshTree })
        } else {
            e
        }
    }
}

pub open spec fn trees_view(trees: Seq<Vec<SessionTreeEntry>>) -> Seq<Seq<TreeV>> {
    Seq::new(trees.len(), |i: int| session_tree::tree_views(trees[i]@))
}

impl Client {
    fn probe_all(&mut self, ids: &Vec<String>)
        ensures
            final(self)@ == all_probed(old(self)@, commands::texts(ids@), ids@.len() as int),
            final(self)@.ws == old(self)@.ws,
            final(self).entries == old(self).entries,
    {
        let ghost before = self@;
        let mut i: usize = 0;
        while i < ids.len()
            invariant
                i <= ids@.len(),
                self@ == all_probed(before, commands::texts(ids@), i as int),
                self@.ws == before.ws,
                self.entries == old(self).entries,
            decreases ids@.len() - i,
        {
            self.probe_machine(ids[i].as_str(), false);
            i = i + 1;
        }
    }

    /// Begins a round: tries machines again whose time has come.
    pub fn begin_round(&mut self, now: u64)
        ensures
            final(self)@ == round_begun(old(self)@, now),
            final(self)@.ws == old(self)@.ws,
            final(self).entries == old(self).entries,
    {
        self.ui.popup = self.ui.popup && mode::retains_navigation_popup(&self.ui.mode);
        let ids = self.remotes.due_retries(now);
        self.probe_all(&ids);
    }

    fn note_loss(&mut self, machine: &str, error: &str, now: u64)
        ensures
            final(self)@ == loss_noted(old(self)@, machine@, error@, now),
            final(self)@.ws == old(self)@.ws,
            final(self).entries == old(self).entries,
    {
        if !text::same_text(machine, "local") {
            let ghost before = self@;
            self.remotes.mark_disconnected(machine, error.to_string(), now);
            proof {
                assert(self@ =~= loss_noted(before, machine@, error@, now));
            }
        }
    }

    fn drop_inactive(&mut self, i: usize) -> (machine: String)
        requires
            old(self)@.wf(),
            i < old(self)@.ws.list.len(),
            i != old(self)@.ws.active,
        ensures
            machine@ == old(self)@.ws.list[i as int].machine,
            final(self)@ == inactive_dropped(old(self)@, i as int),
            final(self)@.wf(),
            final(self).entries == old(self).entries,
    {
        let ghost before = self@;
        let gone = self.workspaces.workspaces.remove(i);
        if i < self.workspaces.active {
            self.workspaces.active = self.workspaces.active - 1;
        }
        proof {
            assert(self@.ws.list =~= before.ws.list.remove(i as int));
        }
        self.act(Effect::Drop { workspace: i });
        gone.machine_id
    }

    /// Gives up the workspaces whose servers are gone, except for the active one; how many there
    /// were.
    pub fn remove_dead_inactive(&mut self, gone: Vec<bool>, now: u64) -> (r: usize)
        requires
            old(self)@.wf(),
        ensures
            (final(self)@, r as nat) == dead_dropped(old(self)@, gone@, 0, now),
            final(self)@.wf(),
            final(self).entries == old(self).entries,
    {
        let ghost all = dead_dropped(self@, gone@, 0, now);
        let mut gone = gone;
        let mut removed: usize = 0;
        let mut i: usize = 0;
        let total: usize = self.workspaces.workspaces.len();
        while i < self.workspaces.workspaces.len()
            invariant
                self@.wf(),
                i <= self@.ws.list.len(),
                removed + self@.ws.list.len() == total,
                all == ({
                    let r = dead_dropped(self@, gone@, i as int, now);
                    (r.0, (r.1 + removed) as nat)
                }),
                self.entries == old(self).entries,
            decreases self@.ws.list.len() - i,
        {
            let ghost before = self@;
            let dead: bool = i != self.workspaces.active && i < gone.len() && gone[i];
            if dead {
                let machine = self.drop_inactive(i);
                self.note_loss(machine.as_str(), "remote connection closed", now);
                gone.remove(i);
                removed = removed + 1;
            } else {
                i = i + 1;
            }
        }
        removed
    }

    fn clear_dead(&mut self, gone: Vec<bool>, now: u64)
        requires
            old(self)@.wf(),
        ensures
            final(self)@ == dead_cleared(old(self)@, gone@, now),
            final(self)@.wf(),
            final(self).entries == old(self).entries,
    {
        proof {
            reveal(dead_cleared);
        }
        let removed: usize = self.remove_dead_inactive(gone, now);
        if removed > 0 {
            self.touch();
            let text = if removed == 1 {
                "closed 1 dead workspace".to_string()
            } else {
                let mut text = "closed ".to_string();
                text::push_decimal(&mut text, removed as u64);
                text.append(" dead workspaces");
                text
            };
            self.tell(text, now, NOTICE);
        }
    }

    fn lose_active(&mut self, env: Env)
        requires
            old(self)@.wf(),
        ensures
            final(self)@ == active_died(old(self)@, env@),
            final(self)@.ws.list.len() > 0 ==> final(self)@.wf(),
            final(self).entries == old(self).entries,
    {
        proof {
            reveal(active_died);
        }
        let at: usize = self.workspaces.active;
        let machine = self.workspaces.workspaces[at].machine_id.clone();
        proof {
            assert(machine@ == state::active_ws(self@).machine);
        }
        self.close_dead_active();
        if self.workspaces.workspaces.len() == 0 {
            self.act(Effect::Quit);
            return ;
        }
        self.note_loss(machine.as_str(), "SSH connection closed", env.now);
        self.ui.mode = InputMode::Normal;
        self.ui.copy_confirmed = false;
        self.ui.selection = None;
        self.ui.drawn_counter = 0;
        self.ask(Request::RefreshDisplay);
        self.tell("workspace closed".to_string(), env.now, NOTICE);
    }

    fn sync_copy_mode(&mut self, copying: bool, counter: u64)
        ensures
            final(self)@ == copy_synced(old(self)@, copying, counter),
            final(self)@.ws == old(self)@.ws,
            final(self).entries == old(self).entries,
    {
        proof {
            reveal(copy_synced);
        }
        let pending: bool = self.ui.copy_exit_pending && copying;
        self.ui.copy_exit_pending = pending;
        match &self.ui.mode {
            InputMode::CopyMode => {
                if copying {
                    self.ui.copy_confirmed = true;
                } else if self.ui.copy_confirmed {
                    self.ui.mode = InputMode::Normal;
                    self.ui.copy_confirmed = false;
                }
            },
            InputMode::Normal => {
                let ignored: bool = match self.ui.copy_suppress {
                    Some(at) => at == counter,
                    None => false,
                };
                if copying && !pending && !ignored {
                    self.ui.mode = InputMode::CopyMode;
                    self.ui.copy_confirmed = true;
                }
            },
            _ => {},
        }
    }

    /// Takes note of the current frame. For each workspace it is told whether its server is gone.
    pub fn on_frame(&mut self, gone: Vec<bool>, env: Env)
        requires
            old(self)@.wf(),
        ensures
            final(self)@ == frame_seen(old(self)@, gone@, env@),
            final(self)@.ws.list.len() > 0 ==> final(self)@.wf(),
            final(self).entries == old(self).entries,
    {
        self.keep_suppression(env.counter);
        if let Some(fd) = env.frame {
            if fd.exit {
                self.lose_active(env);
            } else {
                self.clear_dead(gone, env.now);
                self.sync_copy_mode(frame::active_in_copy_mode(fd), env.counter);
            }
        }
    }

    fn time_resizing(&mut self, now: u64)
        ensures
            final(self)@ == resizing_timed(old(self)@, now),
            final(self)@.ws == old(self)@.ws,
            final(self).entries == old(self).entries,
    {
        match &self.ui.mode {
            InputMode::Resize => {
                if let Some(at) = self.ui.resize_deadline {
                    if now >= at {
                        self.ui.mode = InputMode::Normal;
                        self.ui.resize_deadline = None;
                        self.ui.drawn_counter = 0;
                    }
                }
            },
            _ => {
                self.ui.resize_deadline = None;
            },
        }
    }

    fn time_notice(&mut self, now: u64)
        ensures
            final(self)@ == notice_timed(old(self)@, now),
            final(self)@.ws == old(self)@.ws,
            final(self).entries == old(self).entries,
    {
        let over: bool = match &self.ui.notice {
            Some(notice) => now >= notice.until,
            None => false,
        };
        if over {
            self.ui.notice = None;
            self.ui.drawn_counter = 0;
        }
    }

    /// Ends what has run out.
    pub fn expire(&mut self, now: u64)
        ensures
            final(self)@ == timed_out(old(self)@, now),
            final(self)@.ws == old(self)@.ws,
            final(self).entries == old(self).entries,
    {
        self.time_resizing(now);
        self.time_notice(now);
    }

    fn keep_suppression(&mut self, counter: u64)
        ensures
            final(self)@ == suppression_kept(old(self)@, counter),
            final(self).entries == old(self).entries,
    {
        if let Some(at) = self.ui.copy_suppress {
            if at != counter {
                self.ui.copy_suppress = None;
            }
        }
    }

    /// Reads the trees of the workspaces, as their servers told them last.
    pub fn read_trees(&mut self, trees: Vec<Vec<SessionTreeEntry>>, now: u64)
        requires
            trees@.len() == old(self)@.ws.list.len(),
        ensures
            final(self)@ == trees_read(
                old(self)@,
                trees_view(trees@),
                now,
                trees@.len() as int,
            ),
            final(self)@.ws.list.len() == old(self)@.ws.list.len(),
            final(self)@.ws.active == old(self)@.ws.active,
            final(self).entries == old(self).entries,
    {
        let ghost before = self@;
        let ghost views = trees_view(trees@);
        let mut trees = trees;
        let ghost all = trees@;
        let n: usize = trees.len();
        let mut i: usize = 0;
        while i < n
            invariant
                i <= n,
                n == before.ws.list.len(),
                n == all.len(),
                trees@ == all.skip(i as int),
                views == trees_view(all),
                self@ == trees_read(before, views, now, i as int),
                self@.ws.list.len() == n,
                self@.ws.active == before.ws.active,
                forall|k: int| i <= k < n ==> self@.ws.list[k] == before.ws.list[k],
                self.entries == old(self).entries,
            decreases n - i,
        {
            let tree = trees.remove(0);
            proof {
                assert(all.skip(i as int)[0] == all[i as int]);
                assert(all.skip(i as int).remove(0) =~= all.skip(i + 1));
                assert(session_tree::tree_views(tree@) == views[i as int]);
            }
            let ghost w = before.ws.list[i as int];
            let ghost list = self@.ws.list;
            proof {
                assert(list[i as int] == self.workspaces.workspaces@[i as int]@);
            }
            let hurried: bool = match self.workspaces.workspaces[i].refresh_until {
                Some(until) => now < until,
                None => false,
            };
            let due: bool = match self.workspaces.workspaces[i].tree_at {
                Some(at) => now.saturating_sub(at) >= TREE_INTERVAL,
                None => true,
            };
            if due {
                self.workspaces.workspaces[i].tree = tree;
                self.workspaces.workspaces[i].tree_at = Some(now);
            }
            if !hurried {
                self.workspaces.workspaces[i].refresh_until = None;
            }
            proof {
                assert(self@.ws.list =~= list.update(
                    i as int,
                    tree_read(w, views[i as int], now),
                ));
            }
            if due && hurried {
                self.act(Effect::Ask { workspace: i, request: Request::RefreshTree });
            }
            i = i + 1;
        }
    }
}

} // verus!
