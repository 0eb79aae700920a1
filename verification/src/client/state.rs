//! The state of the client and its small steps.

use crate::client::actions;
use crate::geometry;
use crate::navigation;
use crate::session_tree;
use crate::text;
use crate::client::actions::{Effect, EffectV, Request, RequestV};
use crate::client::mode::{InputMode, ModeV};
use crate::client::remotes::{RemoteRegistry, RemoteV};
use crate::frame::FrameData;
use crate::geometry::Size;
use crate::navigation::{EntryV, NavigationEntry, NavigationState, NodeV};
use crate::selection::{LastMouseClick, MouseDragOrigin, MouseSelection};
use crate::session_tree::{SessionTreeEntry, TreeV};
use vstd::prelude::*;

verus! {

/// Milliseconds for which a notice of the usual kind stays.
pub const NOTICE: u64 = 3000;

/// Milliseconds after which resizing ends by itself.
pub const RESIZE_IDLE_TIMEOUT: u64 = 500;

/// Milliseconds for which a changed tree is asked for more often.
pub const TREE_REFRESH: u64 = 500;

/// A connection to a workspace's server, as the client sees it. Times are in milliseconds.
#[derive(Debug)]
pub struct WorkspaceConnection {
    pub socket_name: String,
    pub machine_id: String,
    pub focus: Option<usize>,
    pub tree: Vec<SessionTreeEntry>,
    pub tree_at: Option<u64>,
    pub refresh_until: Option<u64>,
}

#[verifier::ext_equal]
pub struct ConnectionV {
    pub socket: Seq<char>,
    pub machine: Seq<char>,
    pub focus: Option<usize>,
    pub tree: Seq<TreeV>,
    pub tree_at: Option<u64>,
    pub refresh_until: Option<u64>,
}

impl View for WorkspaceConnection {
    type V = ConnectionV;

    open spec fn view(&self) -> ConnectionV {
        ConnectionV {
            socket: self.socket_name@,
            machine: self.machine_id@,
            focus: self.focus,
            tree: session_tree::tree_views(self.tree@),
            tree_at: self.tree_at,
            refresh_until: self.refresh_until,
        }
    }
}

pub open spec fn connection_views(v: Seq<WorkspaceConnection>) -> Seq<ConnectionV> {
    Seq::new(v.len(), |i: int| v[i]@)
}

/// The workspaces, one of them active.
#[derive(Debug)]
pub struct WorkspaceManager {
    pub sidebar_visible: bool,
    pub workspaces: Vec<WorkspaceConnection>,
    pub active: usize,
    pub base_socket: String,
}

#[verifier::ext_equal]
pub struct ManagerV {
    pub sidebar: bool,
    pub list: Seq<ConnectionV>,
    pub active: usize,
    pub base: Seq<char>,
}

impl View for WorkspaceManager {
    type V = ManagerV;

    open spec fn view(&self) -> ManagerV {
        ManagerV {
            sidebar: self.sidebar_visible,
            list: connection_views(self.workspaces@),
            active: self.active,
            base: self.base_socket@,
        }
    }
}

/// The selected line, the node it shows, and the folded nodes.
#[verifier::ext_equal]
pub struct NavV {
    pub selected: usize,
    pub id: Option<NodeV>,
    pub folded: Set<NodeV>,
}

impl View for NavigationState {
    type V = NavV;

    open spec fn view(&self) -> NavV {
        NavV { selected: self.selected, id: self.remembered(), folded: self.folded() }
    }
}

/// A notice on the status bar, and when it goes.
#[derive(Debug)]
pub struct Notice {
    pub text: String,
    pub until: u64,
}

#[verifier::ext_equal]
pub struct NoticeV {
    pub text: Seq<char>,
    pub until: u64,
}

pub open spec fn notice_view(n: Option<Notice>) -> Option<NoticeV> {
    match n {
        Some(x) => Some(NoticeV { text: x.text@, until: x.until }),
        None => None,
    }
}

/// What the client keeps of the user's input and of what is on the screen.
#[derive(Debug)]
pub struct Ui {
    pub mode: InputMode,
    pub popup: bool,
    pub popup_return: InputMode,
    pub prefix_pending: bool,
    pub prefix_origin: InputMode,
    pub prefix_from_copy: bool,
    pub prefix_from_navigator: bool,
    pub copy_confirmed: bool,
    pub copy_suppress: Option<u64>,
    pub copy_exit_pending: bool,
    pub scrolled: bool,
    pub resize_deadline: Option<u64>,
    pub notice: Option<Notice>,
    pub hide_borders: bool,
    pub selection: Option<MouseSelection>,
    pub drag: Option<MouseDragOrigin>,
    pub last_click: Option<LastMouseClick>,
    pub last_mouse: Option<(u16, u16)>,
    pub drawn_selection: Option<MouseSelection>,
    pub drawn_counter: u64,
}

#[verifier::ext_equal]
pub struct UiV {
    pub mode: ModeV,
    pub popup: bool,
    pub popup_return: ModeV,
    pub prefix_pending: bool,
    pub prefix_origin: ModeV,
    pub prefix_from_copy: bool,
    pub prefix_from_navigator: bool,
    pub copy_confirmed: bool,
    pub copy_suppress: Option<u64>,
    pub copy_exit_pending: bool,
    pub scrolled: bool,
    pub resize_deadline: Option<u64>,
    pub notice: Option<NoticeV>,
    pub hide_borders: bool,
    pub selection: Option<MouseSelection>,
    pub drag: Option<MouseDragOrigin>,
    pub last_click: Option<LastMouseClick>,
    pub last_mouse: Option<(u16, u16)>,
    pub drawn_selection: Option<MouseSelection>,
    pub drawn_counter: u64,
}

impl View for Ui {
    type V = UiV;

    open spec fn view(&self) -> UiV {
        UiV {
            mode: self.mode@,
            popup: self.popup,
            popup_return: self.popup_return@,
            prefix_pending: self.prefix_pending,
            prefix_origin: self.prefix_origin@,
            prefix_from_copy: self.prefix_from_copy,
            prefix_from_navigator: self.prefix_from_navigator,
            copy_confirmed: self.copy_confirmed,
            copy_suppress: self.copy_suppress,
            copy_exit_pending: self.copy_exit_pending,
            scrolled: self.scrolled,
            resize_deadline: self.resize_deadline,
            notice: notice_view(self.notice),
            hide_borders: self.hide_borders,
            selection: self.selection,
            drag: self.drag,
            last_click: self.last_click,
            last_mouse: self.last_mouse,
            drawn_selection: self.drawn_selection,
            drawn_counter: self.drawn_counter,
        }
    }
}

/// The client.
#[derive(Debug)]
pub struct Client {
    pub ui: Ui,
    pub workspaces: WorkspaceManager,
    pub remotes: RemoteRegistry,
    pub navigation: NavigationState,
    pub entries: Vec<NavigationEntry>,
    pub actions: Vec<Effect>,
}

#[verifier::ext_equal]
pub struct ClientV {
    pub ui: UiV,
    pub ws: ManagerV,
    pub remotes: Seq<RemoteV>,
    pub nav: NavV,
    pub entries: Seq<EntryV>,
    pub out: Seq<EffectV>,
}

impl View for Client {
    type V = ClientV;

    open spec fn view(&self) -> ClientV {
        ClientV {
            ui: self.ui@,
            ws: self.workspaces@,
            remotes: self.remotes@,
            nav: self.navigation@,
            entries: navigation::entry_views(self.entries@),
            out: actions::effect_views(self.actions@),
        }
    }
}

/// What an event finds: the time, the screen, and the frame of the active workspace with its
/// number.
#[derive(Clone, Copy)]
pub struct Env<'a> {
    pub now: u64,
    pub cols: u16,
    pub rows: u16,
    pub counter: u64,
    pub frame: Option<&'a FrameData>,
}

pub struct EnvV {
    pub now: u64,
    pub cols: u16,
    pub rows: u16,
    pub counter: u64,
    pub frame: Option<FrameData>,
}

impl<'a> View for Env<'a> {
    type V = EnvV;

    open spec fn view(&self) -> EnvV {
        EnvV {
            now: self.now,
            cols: self.cols,
            rows: self.rows,
            counter: self.counter,
            frame: match self.frame {
                Some(f) => Some(*f),
                None => None,
            },
        }
    }
}

impl ClientV {
    /// One of the workspaces is active.
    pub open spec fn wf(self) -> bool {
        self.ws.active < self.ws.list.len()
    }
}

/// A time so many milliseconds later.
pub open spec fn after_ms(now: u64, ms: int) -> u64 {
    text::min_int(now + ms, u64::MAX as int) as u64
}

pub open spec fn with_ui(c: ClientV, ui: UiV) -> ClientV {
    ClientV { ui, ..c }
}

/// Input goes to another mode.
pub open spec fn in_mode(c: ClientV, mode: ModeV) -> ClientV {
    ClientV { ui: UiV { mode, ..c.ui }, ..c }
}

/// The screen is to be drawn anew.
pub open spec fn touched(c: ClientV) -> ClientV {
    ClientV { ui: UiV { drawn_counter: 0, ..c.ui }, ..c }
}

/// A notice for the user.
pub open spec fn told(c: ClientV, text: Seq<char>, now: u64, ms: int) -> ClientV {
    ClientV { ui: UiV { notice: Some(NoticeV { text, until: after_ms(now, ms) }), ..c.ui }, ..c }
}

/// One more action.
pub open spec fn acting(c: ClientV, action: EffectV) -> ClientV {
    ClientV { out: c.out.push(action), ..c }
}

/// A request to the active workspace.
pub open spec fn asked(c: ClientV, request: RequestV) -> ClientV {
    acting(c, EffectV::Ask { workspace: c.ws.active, request })
}

/// The active workspace changed.
pub open spec fn with_active(c: ClientV, w: ConnectionV) -> ClientV {
    ClientV { ws: ManagerV { list: c.ws.list.update(c.ws.active as int, w), ..c.ws }, ..c }
}

pub open spec fn active_ws(c: ClientV) -> ConnectionV {
    c.ws.list[c.ws.active as int]
}

/// The pane kept in mind is forgotten.
pub open spec fn unfocused(c: ClientV) -> ClientV {
    with_active(c, ConnectionV { focus: None, ..active_ws(c) })
}

/// The active workspace's tree is asked for anew, and often for a while.
pub open spec fn tree_stale(c: ClientV, now: u64) -> ClientV {
    asked(
        with_active(
            c,
            ConnectionV {
                tree_at: None,
                refresh_until: Some(after_ms(now, TREE_REFRESH as int)),
                ..active_ws(c)
            },
        ),
        RequestV::RefreshTree,
    )
}

/// The first `n` workspaces are asked the same.
pub open spec fn asked_all(c: ClientV, request: RequestV, n: int) -> ClientV
    decreases n,
{
    if n <= 0 {
        c
    } else {
        acting(
            asked_all(c, request, n - 1),
            EffectV::Ask { workspace: (n - 1) as usize, request },
        )
    }
}

/// The size that a server gets.
pub open spec fn server_size(env: EnvV, sidebar: bool) -> Size {
    let frame = geometry::areas_of(env.cols, env.rows, sidebar).frame;
    Size { rows: frame.height, cols: frame.width, x: frame.x, y: frame.y }
}

/// The sidebar shown or taken away: the servers get the size that is left, and the active one
/// draws anew.
pub open spec fn sidebar_set(c: ClientV, visible: bool, env: EnvV) -> ClientV {
    if c.ws.sidebar == visible {
        c
    } else {
        let shown = unfocused(ClientV { ws: ManagerV { sidebar: visible, ..c.ws }, ..c });
        asked(
            asked_all(
                shown,
                RequestV::Resize(server_size(env, visible)),
                shown.ws.list.len() as int,
            ),
            RequestV::RefreshDisplay,
        )
    }
}

pub proof fn lemma_asked_all(c: ClientV, request: RequestV, n: int)
    ensures
        asked_all(c, request, n).ui == c.ui,
        asked_all(c, request, n).ws == c.ws,
        asked_all(c, request, n).remotes == c.remotes,
        asked_all(c, request, n).nav == c.nav,
        asked_all(c, request, n).entries == c.entries,
    decreases n,
{
    if n > 0 {
        lemma_asked_all(c, request, n - 1);
    }
}

impl Client {
    /// Adds an action.
    pub fn act(&mut self, action: Effect)
        ensures
            final(self)@ == acting(old(self)@, action@),
            final(self).entries == old(self).entries,
    {
        let ghost before = self.actions@;
        self.actions.push(action);
        proof {
            assert(actions::effect_views(self.actions@) =~= actions::effect_views(before).push(action@));
        }
    }

    /// Asks the active workspace's server.
    pub fn ask(&mut self, request: Request)
        ensures
            final(self)@ == asked(old(self)@, request@),
            final(self).entries == old(self).entries,
    {
        let workspace: usize = self.workspaces.active;
        self.act(Effect::Ask { workspace, request });
    }

    /// Sends a command to the active workspace's server.
    pub fn run_command(&mut self, command: &str)
        ensures
            final(self)@ == asked(old(self)@, RequestV::Command(command@)),
            final(self).entries == old(self).entries,
    {
        self.ask(Request::Command(command.to_string()));
    }

    /// Tells the user something for a while.
    pub fn tell(&mut self, text: String, now: u64, ms: u64)
        ensures
            final(self)@ == told(old(self)@, text@, now, ms as int),
            final(self).entries == old(self).entries,
    {
        self.ui.notice = Some(Notice { text, until: now.saturating_add(ms) });
    }

    /// Forgets which pane was moved to.
    pub fn invalidate_visual_pane(&mut self)
        requires
            old(self)@.wf(),
        ensures
            final(self)@ == unfocused(old(self)@),
            final(self).entries == old(self).entries,
    {
        let ghost before = self@.ws.list;
        let i: usize = self.workspaces.active;
        self.workspaces.workspaces[i].focus = None;
        proof {
            assert(self@.ws.list =~= before.update(
                i as int,
                ConnectionV { focus: None, ..before[i as int] },
            ));
        }
    }

    /// Keeps in mind which pane was moved to.
    pub fn set_focus(&mut self, pane_id: usize)
        requires
            old(self)@.wf(),
        ensures
            final(self)@ == with_active(
                old(self)@,
                ConnectionV { focus: Some(pane_id), ..active_ws(old(self)@) },
            ),
            final(self).entries == old(self).entries,
    {
        let ghost before = self@.ws.list;
        let i: usize = self.workspaces.active;
        self.workspaces.workspaces[i].focus = Some(pane_id);
        proof {
            assert(self@.ws.list =~= before.update(
                i as int,
                ConnectionV { focus: Some(pane_id), ..before[i as int] },
            ));
        }
    }

    /// Has the active workspace's tree asked for anew.
    pub fn invalidate_active_navigation_tree(&mut self, now: u64)
        requires
            old(self)@.wf(),
        ensures
            final(self)@ == tree_stale(old(self)@, now),
            final(self).entries == old(self).entries,
    {
        let ghost before = self@.ws.list;
        let i: usize = self.workspaces.active;
        self.workspaces.workspaces[i].tree_at = None;
        self.workspaces.workspaces[i].refresh_until = Some(now.saturating_add(TREE_REFRESH));
        proof {
            assert(self@.ws.list =~= before.update(
                i as int,
                ConnectionV {
                    tree_at: None,
                    refresh_until: Some(after_ms(now, TREE_REFRESH as int)),
                    ..before[i as int]
                },
            ));
        }
        self.ask(Request::RefreshTree);
    }

    /// Gives every server a size.
    pub fn resize_all(&mut self, size: Size)
        ensures
            final(self)@ == asked_all(
                old(self)@,
                RequestV::Resize(size),
                old(self)@.ws.list.len() as int,
            ),
            final(self).entries == old(self).entries,
    {
        let ghost before = self@;
        let n: usize = self.workspaces.workspaces.len();
        let mut i: usize = 0;
        while i < n
            invariant
                i <= n,
                n == before.ws.list.len(),
                self@ == asked_all(before, RequestV::Resize(size), i as int),
                self.entries == old(self).entries,
            decreases n - i,
        {
            self.act(Effect::Ask { workspace: i, request: Request::Resize(size) });
            i = i + 1;
        }
    }

    /// Takes leave of every server.
    pub fn detach_all(&mut self)
        ensures
            final(self)@ == asked_all(
                old(self)@,
                RequestV::Detach,
                old(self)@.ws.list.len() as int,
            ),
            final(self).entries == old(self).entries,
    {
        let ghost before = self@;
        let n: usize = self.workspaces.workspaces.len();
        let mut i: usize = 0;
        while i < n
            invariant
                i <= n,
                n == before.ws.list.len(),
                self@ == asked_all(before, RequestV::Detach, i as int),
                self.entries == old(self).entries,
            decreases n - i,
        {
            self.act(Effect::Ask { workspace: i, request: Request::Detach });
            i = i + 1;
        }
    }

    /// Shows the sidebar or takes it away.
    pub fn set_sidebar_visible(&mut self, visible: bool, env: Env)
        requires
            old(self)@.wf(),
        ensures
            final(self)@ == sidebar_set(old(self)@, visible, env@),
            final(self)@.wf(),
            final(self).entries == old(self).entries,
    {
        if self.workspaces.sidebar_visible == visible {
            return ;
        }
        self.workspaces.sidebar_visible = visible;
        self.invalidate_visual_pane();
        let size = geometry::server_content_size(env.cols, env.rows, visible);
        proof {
            lemma_asked_all(self@, RequestV::Resize(size), self@.ws.list.len() as int);
        }
        self.resize_all(size);
        self.ask(Request::RefreshDisplay);
    }
}

} // verus!
