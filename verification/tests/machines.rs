use zmux::machines::{MachineNames, NameError};
use zmux::ssh::ssh_command;

#[test]
fn workspace_names_are_persistent_and_scoped_by_machine_and_socket() {
    let mut names = MachineNames::new();
    names.rename("local", "Laptop").unwrap();
    names.rename_workspace("local", "default", "Editor").unwrap();
    names.rename_workspace("remote", "default", "Deploy").unwrap();
    names
        .rename_workspace("legacy-remote", "ssh://legacy-remote/default", "Legacy Deploy")
        .unwrap();
    names.rename_workspace("local", "second", "Shells").unwrap();
    assert_eq!(names.names.get("local").unwrap(), "Laptop");
    let named = |machine: &str, socket: &str| {
        names.workspace_name(machine, socket).map(|name| name.to_string())
    };
    assert_eq!(named("local", "default"), Some("Editor".to_string()));
    assert_eq!(named("remote", "default"), Some("Deploy".to_string()));
    assert_eq!(named("legacy-remote", "default"), Some("Legacy Deploy".to_string()));
    assert_eq!(named("local", "second"), Some("Shells".to_string()));
    assert_eq!(named("remote", "second"), None);
}

#[test]
fn remote_routes_persist_until_the_machine_is_forgotten() {
    let mut machines = MachineNames::new();
    let id = "ssh:10#production";
    let route = vec!["production".to_string()];

    machines.remember_remote(id, &route).unwrap();
    machines.rename(id, "Deploy host").unwrap();
    assert_eq!(machines.routes.get(id).unwrap(), &route);
    assert_eq!(machines.names.get(id).unwrap(), "Deploy host");

    machines.forget_remote(id);
    assert!(!machines.routes.contains_key(id));
    assert_eq!(machines.names.get(id).unwrap(), "Deploy host");
}

#[test]
fn remote_routes_reject_ssh_options_and_control_characters() {
    let mut machines = MachineNames::new();
    for route in [
        vec!["-oProxyCommand=unsafe".to_string()],
        vec!["host\nother".to_string()],
        vec!["   ".to_string()],
    ] {
        assert_eq!(
            machines.remember_remote("ssh:test", &route),
            Err(NameError::BadRoute)
        );
    }
    assert!(machines.routes.entries.is_empty());
}

#[test]
fn invalid_names_change_nothing() {
    let mut names = MachineNames::new();
    names.rename("local", "Original").unwrap();
    for invalid in ["", "  ", "bad\x1b[2J", "two\nlines"] {
        assert_eq!(names.rename("local", invalid), Err(NameError::BadName));
        assert_eq!(
            names.rename_workspace("local", "default", invalid),
            Err(NameError::BadName)
        );
        assert_eq!(names.names.get("local").unwrap(), "Original");
        assert!(names.workspaces.entries.is_empty());
    }
}

#[test]
fn clients_can_choose_the_same_label() {
    let mut names = MachineNames::new();
    for id in ["local", "ssh:8#loopback", "ssh:11#unavailable"] {
        names.rename(id, " 开发机器 ").unwrap();
    }
    assert_eq!(names.names.entries.len(), 3);
    for (_, name) in &names.names.entries {
        assert_eq!(name, "开发机器");
    }
}

#[test]
fn nested_route_builds_quoted_ssh_chain() {
    let args =
        ssh_command(&["jump".into(), "prod".into()], "zmux mux --help", true).unwrap();
    assert!(args.iter().any(|arg| arg == "jump"));
    let remote = args.last().unwrap();
    assert!(remote.contains("exec ssh -T"));
    assert!(remote.contains("prod"));
    assert!(remote.contains("'zmux mux --help'"));
}
