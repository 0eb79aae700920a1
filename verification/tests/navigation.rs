use zmux::navigation::{
    build_navigation_entries, build_navigation_tree, disclosure_hit, sidebar_entry_at,
    sidebar_scroll_offset, MachineConnectionState, NavigationEntry, NavigationNodeId,
    NavigationNodeKind, NavigationState, RemoteMachineNavigationView, WorkspaceNavigationView,
};
use zmux::session_tree::SessionTreeEntry;

#[test]
fn builds_machine_workspace_session_window_pane_hierarchy() {
    let tree = vec![
        SessionTreeEntry::Session {
            name: "main".into(),
            window_count: 1,
            is_active: true,
        },
        SessionTreeEntry::Window {
            session_name: "main".into(),
            index: 0,
            name: "editor".into(),
            pane_count: 1,
            is_active: true,
        },
        SessionTreeEntry::Pane {
            session_name: "main".into(),
            window_index: 0,
            pane_id: 7,
            index: 0,
            title: String::new(),
            is_active: true,
        },
    ];
    let state = NavigationState::default();
    let entries = build_navigation_entries(
        "local",
        "my-host",
        &[WorkspaceNavigationView {
            socket_name: "default",
            title: "project",
            active: true,
            tree: &tree,
        }],
        &state,
    );
    assert_eq!(entries.len(), 5);
    assert_eq!(
        entries.iter().map(|entry| entry.depth).collect::<Vec<_>>(),
        vec![0, 1, 2, 3, 4]
    );
    assert_eq!(entries[1].kind, NavigationNodeKind::Workspace);
    assert_eq!(entries[1].label, "project");
    assert_eq!(entries[2].label, "main");
    assert!(entries.iter().all(|entry| entry.meta.is_none()));
}

#[test]
fn workspaces_are_independent_branches_even_with_identical_session_names() {
    let tree = vec![SessionTreeEntry::Session {
        name: "main".into(),
        window_count: 0,
        is_active: true,
    }];
    let workspaces = [
        WorkspaceNavigationView {
            socket_name: "one",
            title: "Project",
            active: true,
            tree: &tree,
        },
        WorkspaceNavigationView {
            socket_name: "two",
            title: "Project",
            active: false,
            tree: &tree,
        },
    ];
    let mut state = NavigationState::default();
    let entries =
        build_navigation_entries("local", "host", &workspaces, &state);
    assert_eq!(entries.len(), 5);
    assert_ne!(entries[1].id, entries[3].id);
    assert_ne!(entries[2].id, entries[4].id);
    state.select_index(&entries, 2);
    state.select_prev(&entries);
    assert_eq!(state.selected, 1);
    state.toggle_selected(&entries);
    let collapsed =
        build_navigation_entries("local", "host", &workspaces, &state);
    assert_eq!(collapsed.len(), 4);
    assert_eq!(collapsed[1].kind, NavigationNodeKind::Workspace);
    assert_eq!(collapsed[2].id, entries[3].id);
    assert_eq!(collapsed[3].id, entries[4].id);
    state.select_next(&collapsed);
    assert_eq!(state.selected, 2);
}

#[test]
fn workspace_is_visible_before_its_session_query_completes() {
    let entries = build_navigation_entries(
        "local",
        "host",
        &[WorkspaceNavigationView {
            socket_name: "loading",
            title: "",
            active: true,
            tree: &[],
        }],
        &NavigationState::default(),
    );
    assert_eq!(entries.len(), 2);
    assert!(entries[0].expandable);
    assert_eq!(entries[1].kind, NavigationNodeKind::Workspace);
    assert_eq!(entries[1].label, "loading");
}

#[test]
fn collapsing_session_hides_its_descendants() {
    let tree = vec![
        SessionTreeEntry::Session {
            name: "main".into(),
            window_count: 1,
            is_active: true,
        },
        SessionTreeEntry::Window {
            session_name: "main".into(),
            index: 0,
            name: "editor".into(),
            pane_count: 0,
            is_active: true,
        },
    ];
    let workspace = WorkspaceNavigationView {
        socket_name: "default",
        title: "",
        active: true,
        tree: &tree,
    };
    let mut state = NavigationState::default();
    let entries =
        build_navigation_entries("local", "host", &[workspace], &state);
    state.selected = 2;
    state.toggle_selected(&entries);
    let workspace = WorkspaceNavigationView {
        socket_name: "default",
        title: "",
        active: true,
        tree: &tree,
    };
    let entries =
        build_navigation_entries("local", "host", &[workspace], &state);
    assert_eq!(entries.len(), 3);
}

#[test]
fn remote_machines_are_peer_roots_after_local_machine() {
    let state = NavigationState::default();
    let remotes = vec![
        RemoteMachineNavigationView {
            id: "prod",
            name: "prod",
            state: MachineConnectionState::Connected,
            active: false,
            workspaces: Vec::new(),
        },
        RemoteMachineNavigationView {
            id: "gpu",
            name: "gpu",
            state: MachineConnectionState::Disconnected,
            active: false,
            workspaces: Vec::new(),
        },
    ];
    let entries =
        build_navigation_tree("local", "host", &[], &remotes, &state);
    assert_eq!(
        entries
            .iter()
            .map(|entry| (entry.label.clone(), entry.depth))
            .collect::<Vec<_>>(),
        vec![("host".into(), 0), ("prod".into(), 0), ("gpu".into(), 0),]
    );
}

#[test]
fn identical_remote_and_local_nodes_have_distinct_ids() {
    let tree = vec![SessionTreeEntry::Session {
        name: "main".into(),
        window_count: 0,
        is_active: true,
    }];
    let local = [WorkspaceNavigationView {
        socket_name: "default",
        title: "",
        active: true,
        tree: &tree,
    }];
    let remotes = [RemoteMachineNavigationView {
        id: "prod",
        name: "prod",
        state: MachineConnectionState::Connected,
        active: false,
        workspaces: vec![WorkspaceNavigationView {
            socket_name: "default",
            title: "",
            active: false,
            tree: &tree,
        }],
    }];
    let entries = build_navigation_tree(
        "local",
        "host",
        &local,
        &remotes,
        &NavigationState::default(),
    );
    let session_ids = entries
        .iter()
        .filter(|entry| entry.kind == NavigationNodeKind::Session)
        .map(|entry| entry.id.clone())
        .collect::<Vec<_>>();
    assert_eq!(session_ids.len(), 2);
    assert_ne!(session_ids[0], session_ids[1]);
}

#[test]
fn selection_follows_node_identity_when_entries_are_inserted() {
    let original = vec![SessionTreeEntry::Session {
        name: "second".into(),
        window_count: 0,
        is_active: true,
    }];
    let mut state = NavigationState::default();
    let entries = build_navigation_entries(
        "local",
        "host",
        &[WorkspaceNavigationView {
            socket_name: "default",
            title: "",
            active: true,
            tree: &original,
        }],
        &state,
    );
    state.select_index(&entries, 2);

    let updated = vec![
        SessionTreeEntry::Session {
            name: "first".into(),
            window_count: 0,
            is_active: false,
        },
        original[0].clone(),
    ];
    let entries = build_navigation_entries(
        "local",
        "host",
        &[WorkspaceNavigationView {
            socket_name: "default",
            title: "",
            active: true,
            tree: &updated,
        }],
        &state,
    );
    state.clamp_selection(&entries);
    assert_eq!(entries[state.selected].label, "second");
}

#[test]
fn disclosure_hit_only_matches_expand_icon_columns() {
    let entry = NavigationEntry {
        id: NavigationNodeId::Machine("local".into()),
        kind: NavigationNodeKind::Machine,
        depth: 2,
        label: "host".into(),
        meta: None,
        connection: Some(MachineConnectionState::Local),
        active: true,
        expandable: true,
        expanded: true,
    };
    assert!(disclosure_hit(&entry, 0, 5));
    assert!(disclosure_hit(&entry, 0, 6));
    assert!(!disclosure_hit(&entry, 0, 4));
    assert!(!disclosure_hit(&entry, 0, 7));
}

#[test]
fn sidebar_mouse_rows_start_at_top_and_follow_scroll() {
    assert_eq!(sidebar_entry_at(0, 10, 0, 5, 0), Some(0));
    assert_eq!(sidebar_entry_at(0, 10, 0, 5, 1), Some(1));
    assert_eq!(sidebar_entry_at(0, 10, 0, 5, 2), Some(2));
    assert_eq!(sidebar_entry_at(7, 10, 0, 5, 2), Some(7));
    assert_eq!(sidebar_entry_at(7, 10, 0, 5, 4), Some(9));
    assert_eq!(sidebar_entry_at(7, 10, 0, 5, 5), None);
    assert_eq!(sidebar_entry_at(0, 10, 3, 8, 2), None);
    assert_eq!(sidebar_entry_at(0, 10, 3, 8, 3), Some(0));
    assert_eq!(sidebar_entry_at(0, 10, 3, 8, 9), None); // footer
    assert_eq!(sidebar_entry_at(0, 1, 0, 1, 0), Some(0));
}

#[test]
fn sidebar_scroll_keeps_context_around_selection() {
    assert_eq!(sidebar_scroll_offset(0, 20, 9), 0);
    assert_eq!(sidebar_scroll_offset(7, 20, 9), 4);
    assert_eq!(sidebar_scroll_offset(19, 20, 9), 11);
}
