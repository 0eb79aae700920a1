//! A client driven through keys, the mouse, frames and replies.

use zmux::client::actions::{CopyKey, Effect, OutputUse, Request};
use zmux::client::commands_run::{
    copy_to_clipboard, run_client_command, ClientCommandResult, ClipboardAttempt,
    ClipboardCopyResult, ClipboardStep,
};
use zmux::client::drawing::CursorStep;
use zmux::client::errands::{carry_out, Errand};
use zmux::client::launch::{
    begin_start, discover_all_socket_names, ensure_server_and_connect, local_machine_name,
    switch_to_session, Attempt, ClientApp, NoWorkspaces, StartError, StartState, StartStep,
};
use zmux::client::lines::save_name;
use zmux::client::mode::{status_banner_for_mode, InputMode};
use zmux::client::painting::nothing_drawn;
use zmux::client::remotes::{RemoteFailure, RemoteMachineState};
use zmux::client::replies::Reply;
use zmux::client::state::{Client, Env, WorkspaceConnection, WorkspaceManager};
use zmux::client::tree::navigation_close_block_reason;
use zmux::frame::{find_pane_id_at, FrameData, LayoutJson, StatusJson, WindowTabJson};
use zmux::geometry::Rect;
use zmux::keys::{KeyCode, KeyEvent, KeyModifiers, MouseButton, MouseEvent, MouseEventKind};
use zmux::machines::MachineNames;
use zmux::navigation::{NavigationNodeId, NavigationNodeKind};
use zmux::session_tree::SessionTreeEntry;
use zmux::socket::{
    exit_frame, kill_verdict, poll_session_tree, ConnectError, ControlWrite, FirstAnswer,
    KillAttempt, PollStep, SocketClient, TreeEvent, TreePoll, TreeStep,
};
use zmux::ssh::{
    bridge_payload, output_fits, posix_quote, probe_verdict, route_label, run_step, ssh_command,
    ProbeOutcome, RunStep, SshError, MAX_SSH_COMMAND_OUTPUT,
};

fn plain(code: KeyCode) -> KeyEvent {
    KeyEvent::new(code, KeyModifiers::none())
}

fn letter(c: char) -> KeyEvent {
    plain(KeyCode::Char(c))
}

fn capital(c: char) -> KeyEvent {
    let mut m = KeyModifiers::none();
    m.shift = true;
    KeyEvent::new(KeyCode::Char(c), m)
}

fn prefix() -> KeyEvent {
    let mut m = KeyModifiers::none();
    m.control = true;
    KeyEvent::new(KeyCode::Char('a'), m)
}

fn pane(id: usize, active: bool) -> LayoutJson {
    LayoutJson::Leaf {
        id,
        rows: 20,
        cols: 40,
        cursor_row: 0,
        cursor_col: 0,
        hide_cursor: false,
        alternate_screen: false,
        mouse_mode: 0,
        in_copy_mode: false,
        scroll_ratio: None,
        cursor_shape: 0,
        active,
        rows_v2: Vec::new(),
        title: None,
    }
}

fn two_panes() -> FrameData {
    FrameData {
        frame_type: "frame".to_string(),
        layout: LayoutJson::Split {
            direction: "horizontal".to_string(),
            sizes: vec![50, 50],
            children: vec![pane(1, true), pane(2, false)],
        },
        status: Some(StatusJson {
            left: "[main]".to_string(),
            right: String::new(),
            windows: vec![WindowTabJson { index: 0, name: "zsh".to_string(), active: true }],
        }),
        ansi: None,
        exit: false,
        yank_text: None,
    }
}

fn env(frame: &FrameData) -> Env<'_> {
    Env { now: 1_000, cols: 81, rows: 24, counter: 5, frame: Some(frame) }
}

fn client() -> Client {
    Client::new(WorkspaceManager::new("default"))
}

fn press(client: &mut Client, keys: &[KeyEvent], frame: &FrameData) -> Vec<Effect> {
    for key in keys {
        client.on_key(*key, true, env(frame));
    }
    client.take_actions()
}

fn session(name: &str, active: bool) -> SessionTreeEntry {
    SessionTreeEntry::Session { name: name.to_string(), window_count: 1, is_active: active }
}

fn window(session: &str, index: usize) -> SessionTreeEntry {
    SessionTreeEntry::Window {
        session_name: session.to_string(),
        index,
        name: "zsh".to_string(),
        pane_count: 1,
        is_active: true,
    }
}

fn pane_line(session: &str, window_index: usize, pane_id: usize) -> SessionTreeEntry {
    SessionTreeEntry::Pane {
        session_name: session.to_string(),
        window_index,
        pane_id,
        index: 0,
        title: String::new(),
        is_active: true,
    }
}

fn with_tree(client: &mut Client, tree: Vec<SessionTreeEntry>, now: u64) {
    client.read_trees(vec![tree], now);
    client.refresh_lines("host", &MachineNames::new());
}

#[test]
fn typed_keys_go_to_the_active_pane() {
    let frame = two_panes();
    let mut c = client();
    let effects = press(&mut c, &[letter('x')], &frame);
    assert_eq!(effects.len(), 1);
    assert!(matches!(
        &effects[0],
        Effect::Ask { workspace: 0, request: Request::Input(bytes) } if bytes == b"x"
    ));
    let effects = press(&mut c, &[prefix(), prefix()], &frame);
    assert!(matches!(
        &effects[0],
        Effect::Ask { request: Request::Input(bytes), .. } if bytes == &[1]
    ));
    assert!(matches!(c.ui.mode, InputMode::Normal));
}

#[test]
fn the_prefix_sends_commands() {
    let frame = two_panes();
    let mut c = client();
    let effects = press(&mut c, &[prefix(), letter('x')], &frame);
    assert!(matches!(
        &effects[0],
        Effect::Ask { request: Request::Command(line), .. } if line == "kill-pane"
    ));
    let effects = press(&mut c, &[prefix(), letter('[')], &frame);
    assert!(matches!(&effects[0], Effect::Ask { request: Request::EnterCopyMode, .. }));
    let effects = press(&mut c, &[prefix(), letter('b')], &frame);
    assert!(c.ui.hide_borders);
    assert!(matches!(&effects[0], Effect::Ask { request: Request::HideBorders(true), .. }));
}

#[test]
fn the_prefix_moves_between_panes_and_into_the_tree() {
    let frame = two_panes();
    let mut c = client();
    press(&mut c, &[prefix(), letter('l')], &frame);
    assert_eq!(c.workspaces.workspaces[0].focus, Some(2));
    press(&mut c, &[prefix(), letter('h')], &frame);
    assert_eq!(c.workspaces.workspaces[0].focus, Some(1));
    press(&mut c, &[prefix(), letter('h')], &frame);
    assert!(matches!(c.ui.mode, InputMode::Navigator));
    assert!(c.workspaces.sidebar_visible);
}

#[test]
fn the_popup_gives_an_unfinished_command_back() {
    let frame = two_panes();
    let mut c = client();
    press(&mut c, &[prefix(), letter(':'), letter('n'), letter('e')], &frame);
    let effects = press(&mut c, &[prefix(), letter('m')], &frame);
    assert!(effects.is_empty());
    assert!(c.ui.popup);
    assert!(matches!(c.ui.mode, InputMode::Navigator));
    let effects = press(&mut c, &[prefix(), letter('m')], &frame);
    assert!(effects.is_empty());
    assert!(!c.ui.popup);
    assert!(matches!(&c.ui.mode, InputMode::Command { buf, cursor: 2 } if buf == "ne"));
}

#[test]
fn leaving_the_popup_gives_an_unfinished_command_back() {
    let frame = two_panes();
    for leave in [plain(KeyCode::Esc), letter('q')] {
        let mut c = client();
        press(&mut c, &[prefix(), letter(':'), letter('n'), prefix(), letter('m')], &frame);
        let effects = press(&mut c, &[leave], &frame);
        assert!(effects.is_empty());
        assert!(!c.ui.popup);
        assert!(matches!(&c.ui.mode, InputMode::Command { buf, cursor: 1 } if buf == "n"));
    }
}

#[test]
fn leaving_the_sidebar_only_resizes() {
    let frame = two_panes();
    for leave in [plain(KeyCode::Esc), letter('q')] {
        let mut c = client();
        press(&mut c, &[prefix(), letter('h')], &frame);
        assert!(c.workspaces.sidebar_visible);
        let effects = press(&mut c, &[leave], &frame);
        assert!(!c.workspaces.sidebar_visible);
        assert!(matches!(c.ui.mode, InputMode::Normal));
        assert_eq!(effects.len(), 2);
        assert!(matches!(&effects[0], Effect::Ask { request: Request::Resize(_), .. }));
        assert!(matches!(&effects[1], Effect::Ask { request: Request::RefreshDisplay, .. }));
    }
}

#[test]
fn the_prefix_waits_for_its_key() {
    let frame = two_panes();
    let mut c = client();
    press(&mut c, &[prefix()], &frame);
    c.begin_round(10_000);
    c.on_frame(vec![false], Env { now: 20_000, cols: 81, rows: 24, counter: 6, frame: Some(&frame) });
    c.expire(30_000);
    assert!(matches!(c.ui.mode, InputMode::Prefix));
    let effects = press(&mut c, &[letter('x')], &frame);
    assert!(matches!(
        &effects[0],
        Effect::Ask { request: Request::Command(line), .. } if line == "kill-pane"
    ));
}

#[test]
fn opening_a_node_closes_the_popup() {
    let frame = two_panes();
    let mut c = client();
    with_tree(&mut c, vec![session("main", true), window("main", 0), pane_line("main", 0, 1)], 0);
    press(&mut c, &[prefix(), letter('m'), letter('G')], &frame);
    assert!(c.ui.popup);
    press(&mut c, &[plain(KeyCode::Enter)], &frame);
    assert!(matches!(c.ui.mode, InputMode::Normal));
    c.begin_round(2_000);
    assert!(!c.ui.popup);
    assert!(matches!(c.ui.mode, InputMode::Normal));
}

#[test]
fn the_sidebar_keeps_an_unfinished_command_and_only_resizes() {
    let frame = two_panes();
    let mut c = client();
    press(&mut c, &[prefix(), letter(':'), letter('n')], &frame);
    let effects = press(&mut c, &[prefix(), capital('M')], &frame);
    assert!(c.workspaces.sidebar_visible);
    assert!(matches!(&c.ui.mode, InputMode::Command { buf, .. } if buf == "n"));
    assert_eq!(effects.len(), 2);
    assert!(matches!(&effects[0], Effect::Ask { request: Request::Resize(_), .. }));
    assert!(matches!(&effects[1], Effect::Ask { request: Request::RefreshDisplay, .. }));
}

#[test]
fn the_popup_owns_the_mouse() {
    let frame = two_panes();
    let mut c = client();
    press(&mut c, &[prefix(), letter('m')], &frame);
    for kind in [MouseEventKind::ScrollUp, MouseEventKind::Down(MouseButton::Left)] {
        let mouse = MouseEvent { kind, column: 0, row: 0, modifiers: KeyModifiers::none() };
        c.on_mouse(mouse, env(&frame));
        assert!(c.take_actions().is_empty());
    }
    assert!(!c.ui.popup);
    assert!(matches!(c.ui.mode, InputMode::Normal));
}

#[test]
fn only_y_closes_a_node() {
    let frame = two_panes();
    let mut c = client();
    with_tree(
        &mut c,
        vec![session("main", true), window("main", 0), session("other", false)],
        1_000,
    );
    press(&mut c, &[prefix(), letter('m')], &frame);
    press(&mut c, &[plain(KeyCode::End)], &frame);
    press(&mut c, &[capital('K')], &frame);
    assert!(matches!(&c.ui.mode, InputMode::ConfirmNavigationClose { .. }));
    for key in [letter('n'), plain(KeyCode::Enter), plain(KeyCode::Esc), letter('x')] {
        press(&mut c, &[capital('K')], &frame);
        let effects = press(&mut c, &[key], &frame);
        assert!(effects.is_empty());
    }
    let effects = if matches!(&c.ui.mode, InputMode::ConfirmNavigationClose { .. }) {
        press(&mut c, &[letter('y')], &frame)
    } else {
        press(&mut c, &[capital('K'), letter('y')], &frame)
    };
    assert!(effects.iter().any(|effect| matches!(
        effect,
        Effect::Ask { request: Request::Command(line), .. } if line.starts_with("kill-session -t ")
    )));
}

#[test]
fn the_last_of_a_kind_stays() {
    let mut c = client();
    with_tree(&mut c, vec![session("main", true), window("main", 0), pane_line("main", 0, 7)], 1_000);
    let reason = |kind: NavigationNodeKind| {
        let entry = c.entries.iter().find(|entry| entry.kind == kind).unwrap();
        navigation_close_block_reason(&c.entries, entry)
    };
    assert_eq!(
        reason(NavigationNodeKind::Machine).as_deref(),
        Some("the local machine cannot be closed")
    );
    assert_eq!(reason(NavigationNodeKind::Workspace), None);
    assert_eq!(
        reason(NavigationNodeKind::Session).as_deref(),
        Some("cannot close the last session; close its workspace instead")
    );
    assert_eq!(
        reason(NavigationNodeKind::Window).as_deref(),
        Some("cannot close the last window in a session")
    );
    assert_eq!(
        reason(NavigationNodeKind::Pane).as_deref(),
        Some("cannot close the only pane in the last window")
    );
    with_tree(
        &mut c,
        vec![session("main", true), window("main", 0), pane_line("main", 0, 7), window("main", 1)],
        9_000,
    );
    let pane = c.entries.iter().find(|e| e.kind == NavigationNodeKind::Pane).unwrap();
    assert_eq!(navigation_close_block_reason(&c.entries, pane), None);
}

#[test]
fn closing_a_workspace_leaves_its_server_running() {
    let frame = two_panes();
    let mut c = client();
    c.workspaces.workspaces.push(WorkspaceConnection::local("second".to_string()));
    c.refresh_lines("host", &MachineNames::new());
    let entry = c
        .entries
        .iter()
        .position(|e| {
            matches!(&e.id, NavigationNodeId::Workspace { workspace, .. } if workspace == "second")
        })
        .unwrap();
    let node = c.entries[entry].clone();
    c.close_navigation_entry(&node, env(&frame));
    let effects = c.take_actions();
    assert_eq!(effects.len(), 2);
    assert!(matches!(&effects[0], Effect::Ask { workspace: 1, request: Request::Detach }));
    assert!(matches!(&effects[1], Effect::Drop { workspace: 1 }));
    assert_eq!(c.workspaces.workspaces.len(), 1);
}

#[test]
fn detaching_takes_leave_of_every_server() {
    let frame = two_panes();
    let mut c = client();
    c.workspaces.workspaces.push(WorkspaceConnection::local("second".to_string()));
    let effects = press(&mut c, &[prefix(), letter('d')], &frame);
    assert_eq!(effects.len(), 3);
    assert!(matches!(&effects[0], Effect::Ask { workspace: 0, request: Request::Detach }));
    assert!(matches!(&effects[1], Effect::Ask { workspace: 1, request: Request::Detach }));
    assert!(matches!(&effects[2], Effect::Quit));
}

#[test]
fn opening_a_node_goes_to_its_workspace() {
    let frame = two_panes();
    let mut c = client();
    c.workspaces.workspaces.push(WorkspaceConnection::local("second".to_string()));
    let id = NavigationNodeId::Pane {
        machine: "local".to_string(),
        workspace: "second".to_string(),
        session: "a b".to_string(),
        window: 3,
        pane_id: 9,
    };
    assert!(c.activate_navigation_entry(&id, env(&frame)));
    assert_eq!(c.workspaces.active, 1);
    let effects = c.take_actions();
    assert!(effects.iter().all(|e| matches!(e, Effect::Ask { workspace: 1, .. })));
    assert!(effects.iter().any(|e| matches!(
        e,
        Effect::Ask { request: Request::Command(line), .. }
            if line.ends_with("; select-window -t 3; select-pane -t %9")
    )));
    assert!(!c.activate_navigation_entry(
        &NavigationNodeId::Machine("local".to_string()),
        env(&frame)
    ));
}

#[test]
fn machines_are_added_probed_and_stay_removed() {
    let frame = two_panes();
    let mut c = client();
    let typed: Vec<KeyEvent> = "new -m prod".chars().map(letter).collect();
    press(&mut c, &[prefix(), letter(':')], &frame);
    press(&mut c, &typed, &frame);
    let effects = press(&mut c, &[plain(KeyCode::Enter)], &frame);
    assert!(matches!(&effects[0], Effect::Probe { id, route } if id == "ssh:4#prod" && route == &["prod"]));
    assert_eq!(c.remotes.machines[0].state, RemoteMachineState::Probing);
    c.on_probe("ssh:4#prod", None, env(&frame));
    let effects = c.take_actions();
    assert!(effects
        .iter()
        .any(|e| matches!(e, Effect::Connect { activate: true, open: false, .. })));
    c.on_connect(
        "ssh:4#prod",
        Some(RemoteFailure::transient("down".to_string())),
        true,
        false,
        env(&frame),
    );
    c.take_actions();
    assert_eq!(c.remotes.machines[0].retry_attempt, 1);
    c.remotes.remove("ssh:4#prod");
    c.on_probe("ssh:4#prod", None, env(&frame));
    assert!(c.take_actions().is_empty());
    assert!(c.remotes.machines.is_empty());
}

#[test]
fn copy_mode_is_entered_driven_and_left() {
    let frame = two_panes();
    let mut c = client();
    press(&mut c, &[prefix(), letter('[')], &frame);
    c.on_reply(Reply::CopyMode(true), env(&frame));
    c.take_actions();
    assert!(matches!(c.ui.mode, InputMode::CopyMode));
    let effects = press(&mut c, &[letter('k')], &frame);
    assert!(matches!(&effects[0], Effect::Ask { request: Request::Copy(CopyKey::Up), .. }));
    let effects = press(&mut c, &[letter('y')], &frame);
    assert!(effects.iter().any(|e| matches!(e, Effect::Ask { request: Request::Yank, .. })));
    press(&mut c, &[letter('q')], &frame);
    assert!(matches!(c.ui.mode, InputMode::Normal));
}

#[test]
fn notices_end_and_modes_have_banners() {
    let frame = two_panes();
    let mut c = client();
    c.on_reply(Reply::Copied { result: ClipboardCopyResult::System, text: "ab".to_string() }, env(&frame));
    assert_eq!(c.ui.notice.as_ref().unwrap().text, "copied 2 chars");
    c.expire(1_001);
    assert!(c.ui.notice.is_some());
    c.expire(60_000);
    assert!(c.ui.notice.is_none());
    assert_eq!(status_banner_for_mode(&InputMode::Normal, Some("said")).as_deref(), Some("said"));
    assert_eq!(status_banner_for_mode(&InputMode::Normal, None), None);
}

#[test]
fn what_was_drawn_is_not_drawn_again() {
    let frame = two_panes();
    let mut c = client();
    let mut drawn = nothing_drawn();
    c.prepare(&mut drawn, env(&frame));
    assert!(c.needs_redraw(&drawn, env(&frame)));
    let painting = c.paint(&mut drawn, env(&frame));
    assert!(!painting.plan.is_empty());
    assert_eq!(painting.cursor, CursorStep::Leave);
    c.prepare(&mut drawn, env(&frame));
    assert!(!c.needs_redraw(&drawn, env(&frame)));
    press(&mut c, &[prefix(), letter(':')], &frame);
    c.prepare(&mut drawn, env(&frame));
    assert!(c.needs_redraw(&drawn, env(&frame)));
}

#[test]
fn the_client_ends_with_its_last_workspace() {
    let gone = exit_frame();
    let mut c = client();
    c.on_frame(vec![true], env(&gone));
    assert!(c.workspaces.workspaces.is_empty());
    assert!(c.take_actions().iter().any(|e| matches!(e, Effect::Quit)));
}

#[test]
fn names_are_only_labels() {
    let mut names = MachineNames::new();
    save_name(&mut names, &NavigationNodeId::Machine("local".to_string()), "Laptop").unwrap();
    save_name(
        &mut names,
        &NavigationNodeId::Workspace {
            machine: "local".to_string(),
            workspace: "default".to_string(),
        },
        "Editor",
    )
    .unwrap();
    let mut c = client();
    c.refresh_lines("host", &MachineNames::new());
    let before: Vec<NavigationNodeId> = c.entries.iter().map(|e| e.id.clone()).collect();
    c.refresh_lines("host", &names);
    let after: Vec<NavigationNodeId> = c.entries.iter().map(|e| e.id.clone()).collect();
    assert_eq!(before, after);
    assert_eq!(c.entries[0].label, "Laptop");
    assert_eq!(c.entries[1].label, "Editor");
}

#[test]
fn a_server_is_started_only_where_none_is() {
    let (state, step) = begin_start(false);
    assert_eq!((state, step), (StartState::Connecting, StartStep::Connect { wait: 0 }));
    let on = ensure_server_and_connect;
    assert_eq!(on(state, Attempt::Connected).1, StartStep::Done { existing: true });
    assert_eq!(on(state, Attempt::Incompatible).1, StartStep::Fail(StartError::Attempt));
    for state in [StartState::Connecting, StartState::Checking, StartState::Spawning] {
        for attempt in [Attempt::Connected, Attempt::Incompatible, Attempt::Failed] {
            assert_ne!(on(state, attempt).1, StartStep::Spawn);
        }
    }
    let mut state = StartState::Waiting(0);
    let mut steps = 0;
    loop {
        let (next, step) = on(state, Attempt::Absent);
        state = next;
        steps += 1;
        if step == StartStep::Fail(StartError::TooLate) {
            break;
        }
        assert!(steps < 200);
    }
    assert_eq!(steps, 100);
}

#[test]
fn servers_that_run_are_found() {
    let names = vec!["a".to_string(), "b".to_string()];
    let found =
        WorkspaceManager::from_existing_sockets("a", &names, &vec![Attempt::Absent, Attempt::Connected])
            .unwrap();
    assert_eq!(found.workspaces.len(), 1);
    assert_eq!(found.workspaces[0].socket_name, "b");
    assert_eq!(
        WorkspaceManager::from_existing_sockets("a", &names, &vec![Attempt::Absent, Attempt::Absent])
            .err(),
        Some(NoWorkspaces::NoneRunning)
    );
    assert_eq!(
        WorkspaceManager::from_existing_sockets("a", &names, &vec![Attempt::Failed, Attempt::Absent])
            .err(),
        Some(NoWorkspaces::Attempt(0))
    );
    let all = discover_all_socket_names("z", true, vec!["b".to_string(), "z".to_string(), "a".to_string()]);
    assert_eq!(all[0], "z");
    assert_eq!(all.iter().filter(|name| *name == "z").count(), 1);
    assert_eq!(local_machine_name(Some("set".to_string()), None), "set");
    assert_eq!(switch_to_session("main"), "switch-client -t \"main\"");
    let app = ClientApp::new_attach_all("s", None, true, None);
    assert!(app.attach_all && app.clean && app.socket_name == "s");
}

#[test]
fn clipboards_are_tried_in_turn() {
    assert_eq!(copy_to_clipboard("x", None), ClipboardStep::Try(ClipboardAttempt::Zsync));
    assert_eq!(
        copy_to_clipboard("x", Some((ClipboardAttempt::Osc52, false))),
        ClipboardStep::Done(ClipboardCopyResult::Unavailable)
    );
    assert_eq!(
        copy_to_clipboard("x", Some((ClipboardAttempt::Osc52, true))),
        ClipboardStep::Done(ClipboardCopyResult::Osc52)
    );
}

#[test]
fn client_commands_are_told_from_server_commands() {
    assert!(matches!(run_client_command("help"), ClientCommandResult::ShowHelp));
    assert!(matches!(run_client_command("new -m prod"), ClientCommandResult::AddHost(h) if h == "prod"));
    assert!(matches!(
        run_client_command("new -m"),
        ClientCommandResult::Say(text) if text == "usage: new -m <SSH_HOST>"
    ));
    assert!(matches!(run_client_command("new -t x"), ClientCommandResult::Say(_)));
    assert!(matches!(run_client_command("help me"), ClientCommandResult::Say(_)));
    assert!(matches!(run_client_command("paste-cloud"), ClientCommandResult::PasteCloud));
    assert!(matches!(run_client_command("set-workspace-home"), ClientCommandResult::SetHome));
    assert!(matches!(run_client_command("split-window"), ClientCommandResult::NotHandled));
}

fn connected() -> SocketClient {
    SocketClient::connect(FirstAnswer::Frame(two_panes(), "FRAME".to_string())).unwrap()
}

#[test]
fn connecting_fails_with_a_reason() {
    let error = SocketClient::connect(FirstAnswer::Nothing("closed".to_string())).unwrap_err();
    assert!(matches!(error, ConnectError::NoAnswer(_)));
    assert!(error.message().contains("closed"));
    let error = SocketClient::connect(FirstAnswer::Unreadable("syntax".to_string())).unwrap_err();
    assert!(matches!(error, ConnectError::BadFrame(_)));
    assert!(error.message().contains("syntax"));
    let error =
        SocketClient::connect(FirstAnswer::Frame(exit_frame(), "FRAME".to_string())).unwrap_err();
    assert!(matches!(error, ConnectError::NoSessions));
}

#[test]
fn requests_become_lines_or_errands() {
    let mut s = connected();
    assert_eq!(s.session_name(), "main");
    assert_eq!(s.active_window_name(), "zsh");
    assert!(carry_out(&mut s, Request::Input(b"hi".to_vec())).is_none());
    assert!(matches!(carry_out(&mut s, Request::Yank), Some(Errand::Yank)));
    assert!(matches!(
        carry_out(
            &mut s,
            Request::Output { command: "x".to_string(), purpose: OutputUse::Message }
        ),
        Some(Errand::Output { .. })
    ));
    let writes = s.take_outbox();
    assert_eq!(writes.len(), 1);
    assert!(matches!(&writes[0], ControlWrite::Input(bytes) if bytes == b"hi"));
    assert!(s.take_outbox().is_empty());
}

#[test]
fn frames_are_polled_until_the_server_ends() {
    let mut s = connected();
    let before = s.frame_snapshot().1;
    assert_eq!(s.poll_received("FRAME"), PollStep::Wait);
    assert_eq!(s.poll_received("other"), PollStep::Decode);
    assert_eq!(s.poll_decoded(Some(two_panes())), PollStep::Wait);
    assert!(s.frame_snapshot().1 > before);
    s.poll_failed(false);
    assert!(s.latest_frame().unwrap().exit);
}

#[test]
fn trees_are_polled_in_turn() {
    let (state, step) =
        poll_session_tree(TreePoll::Apart, TreeEvent::Connected, false, false);
    assert_eq!((state, step), (TreePoll::Ready, TreeStep::Ask));
    let (_, step) = poll_session_tree(state, TreeEvent::Answered, true, false);
    assert_eq!(step, TreeStep::Stop);
    assert!(kill_verdict(KillAttempt::Done, false));
    assert!(!kill_verdict(KillAttempt::Failed, true));
}

#[test]
fn commands_for_other_machines_are_refused_with_a_reason() {
    assert_eq!(ssh_command(&[], "x", true), Err(SshError::EmptyRoute));
    assert_eq!(posix_quote("a\0b"), Err(SshError::NullCharacter));
    assert_ne!(SshError::EmptyRoute.message(), SshError::NullCharacter.message());
    assert!(bridge_payload("default").unwrap().contains("default"));
    let route = vec!["jump".to_string(), "prod".to_string()];
    assert!(route_label(&route).contains("prod"));
    assert!(probe_verdict(&route, ProbeOutcome::Agreed(vec![])).is_some());
    let refused = probe_verdict(&route, ProbeOutcome::Refused("old".to_string())).unwrap();
    assert!(!refused.retryable);
}

#[test]
fn commands_for_other_machines_are_given_up_in_time() {
    assert_eq!(run_step(true, true, 0, 10), RunStep::Done);
    assert_eq!(run_step(false, false, 10, 10), RunStep::Kill);
    assert_eq!(run_step(true, false, 10, 10), RunStep::Kill);
    assert!(matches!(run_step(false, false, 0, 10), RunStep::Wait(_)));
    assert!(output_fits(MAX_SSH_COMMAND_OUTPUT, 0));
    assert!(!output_fits(MAX_SSH_COMMAND_OUTPUT, 1) || output_fits(0, MAX_SSH_COMMAND_OUTPUT));
}

#[test]
fn prompts_are_drawn_over_the_screen() {
    let plan = zmux::panels::render_prompt(Rect::new(0, 0, 40, 10), "Rename", "name");
    assert!(!plan.is_empty());
}

#[test]
fn every_cell_of_a_pane_is_in_it() {
    let layout = two_panes().layout;
    let area = Rect::new(0, 0, 101, 20);
    for (col, pane) in [(10, Some(1)), (49, Some(1)), (50, None), (51, Some(2)), (75, Some(2)), (100, Some(2))] {
        assert_eq!(find_pane_id_at(&layout, area, col, 5, false), pane, "{col}");
    }
    assert_eq!(find_pane_id_at(&layout, area, 101, 5, false), None);
    assert_eq!(find_pane_id_at(&layout, area, 10, 20, false), None);
}
