use std::path::Path;

use open_yasa::actors::{BootstrapInput, BootstrapPlan, EnterAction, Hovered, TabAction};
use open_yasa::{
    apply_ssh_config, sftp_service_config, clean_component, command_failure_message, discover_next, entry_name,
    entry_slug_from_url, fallback_machine, is_entry_url, is_root_url, machine_entry_file,
    machine_from_topology, machines_from_topology, non_empty, parse_ssh_config_output,
    parse_ssh_target, root_cha, root_files_from, root_url, route_ssh_target, sort_machines,
    ssh_config_path, target_for_cached, target_url, trim_str, Bootstrap, DiscoverAction, Enter,
    ErrorKind, Link, Machine, MachineCache, OpenYasa, Route, SftpConfig, SftpDefaults, Topology,
    TopologyMachine,
    TopologyRead, TopologySsh, UrlBuf, UrlScheme,
};

fn machine(id: &str, display: &str, route: &str, local: bool, workspace: Option<&str>) -> Machine {
    Machine {
        machine_id: id.to_owned(),
        friendly_name: None,
        display_name: display.to_owned(),
        platform: Some("linux".to_owned()),
        workspace_path: workspace.map(|s| s.to_owned()),
        heartbeat_status: "online".to_owned(),
        route: route.to_owned(),
        local,
    }
}

fn regular(path: &str) -> UrlBuf {
    UrlBuf { scheme: UrlScheme::Regular, path: path.to_owned() }
}

#[test]
fn parse_ssh_target_defaults_port() {
    assert_eq!(
        parse_ssh_target("hasna@spark01").unwrap(),
        ("hasna".to_owned(), "spark01".to_owned(), 22)
    );
}

#[test]
fn parse_ssh_target_reads_port() {
    assert_eq!(
        parse_ssh_target("hasna@spark01:2222").unwrap(),
        ("hasna".to_owned(), "spark01".to_owned(), 2222)
    );
}

#[test]
fn parse_ssh_config_output_reads_connection_details() {
    let config = parse_ssh_config_output(
        r#"
user hasna
hostname apple03.tail.example.ts.net
port 2222
identityfile ~/.ssh/id_ed25519_spark02_fleet
identityagent none
certificatefile none
"#,
        "/home/hasna",
    );

    assert_eq!(config.user.as_deref(), Some("hasna"));
    assert_eq!(config.host.as_deref(), Some("apple03.tail.example.ts.net"));
    assert_eq!(config.port, Some(2222));
    assert_eq!(config.key_files.len(), 1);
    assert!(Path::new(&config.key_files[0]).is_absolute());
    assert!(config.identity_agent.is_none());
    assert!(config.cert_files.is_empty());
}

#[test]
fn entry_slug_uses_first_token() {
    let root = root_url();
    let url = root.join("spark02 [local online linux]");
    assert_eq!(entry_slug_from_url(&url).as_deref(), Some("spark02"));
    assert!(is_entry_url(&url));
}

#[test]
fn machine_entries_render_as_real_directories() {
    let file = machine_entry_file(root_url().join("spark02 [local online linux]"));
    assert!(file.is_dir());
    assert!(!file.is_dummy());
    assert!(!file.is_hidden());
}

#[test]
fn clean_component_strips_unsafe_path_chars() {
    assert_eq!(clean_component("spark:03/alpha*"), "spark-03-alpha-");
}

#[test]
fn remote_target_rejects_relative_workspace() {
    let err = target_url(&Machine {
        machine_id:       "spark01".to_owned(),
        friendly_name:    None,
        display_name:     "spark01".to_owned(),
        platform:         Some("linux".to_owned()),
        workspace_path:   Some("relative/workspace".to_owned()),
        heartbeat_status: "unknown".to_owned(),
        route:            "tailscale".to_owned(),
        local:            false,
    })
    .unwrap_err();

    assert_eq!(err.kind, ErrorKind::InvalidData);
    assert_eq!(
        err.message,
        "Remote machine spark01 has non-absolute workspace path: relative/workspace"
    );
}

#[test]
fn non_empty_trims_unicode_whitespace() {
    assert_eq!(non_empty("  spark \t".to_owned()).as_deref(), Some("spark"));
    assert_eq!(non_empty("\u{3000}x y\u{a0}\u{2028}".to_owned()).as_deref(), Some("x y"));
    assert_eq!(non_empty(" \n\r\u{85} ".to_owned()), None);
    assert_eq!(non_empty(String::new()), None);
    assert_eq!(trim_str("\u{200b}a"), "\u{200b}a");
}

#[test]
fn clean_component_edge_cases() {
    assert_eq!(clean_component(""), "unnamed");
    assert_eq!(clean_component("   "), "unnamed");
    assert_eq!(clean_component("\u{7}bell\u{9f}"), "-bell-");
    assert_eq!(clean_component(" a<b>c|d?e\"f\\g\0h "), "a-b-c-d-e-f-g-h");
    let once = clean_component(" x:y\t");
    assert_eq!(clean_component(&once), once);
    assert_eq!(once, "x-y-");
}

#[test]
fn entry_name_lists_route_status_and_platform() {
    let mut m = machine("spark02", "spark02", "local", true, None);
    assert_eq!(entry_name(&m), "spark02 [local online linux]");
    m.friendly_name = Some("Spark: Two".to_owned());
    assert_eq!(entry_name(&m), "spark02 Spark- Two [local online linux]");
    m.platform = None;
    m.friendly_name = Some("spark02".to_owned());
    assert_eq!(entry_name(&m), "spark02 [local online]");
    m.friendly_name = None;
    m.display_name = "Display".to_owned();
    assert_eq!(entry_name(&m), "spark02 Display [local online]");
    m.route = "a/b".to_owned();
    assert_eq!(entry_name(&m), "spark02 Display [a-b online]");
}

#[test]
fn entry_slug_edge_cases() {
    let root = root_url();
    assert!(is_root_url(&root));
    assert!(!is_root_url(&regular("/__open_yasa_machines__/x")));
    assert_eq!(entry_slug_from_url(&regular("/__open_yasa_machines__/spark01 x/")).as_deref(), Some("spark01"));
    assert_eq!(entry_slug_from_url(&regular("/__open_yasa_machines__//  spark01")).as_deref(), Some("spark01"));
    assert_eq!(entry_slug_from_url(&regular("/__open_yasa_machines__/..")), None);
    assert_eq!(entry_slug_from_url(&regular("/__open_yasa_machines__/.")), None);
    assert_eq!(entry_slug_from_url(&regular("/__open_yasa_machines__/ \t ")), None);
    assert_eq!(entry_slug_from_url(&regular("/__open_yasa_machines__")), None);
    assert_eq!(entry_slug_from_url(&regular("/elsewhere/spark01")), None);
    assert_eq!(entry_slug_from_url(&regular("/__open_yasa_machines__/a/b")), None);
    let search = UrlBuf {
        scheme: UrlScheme::Search("q".to_owned()),
        path: "/__open_yasa_machines__/spark01".to_owned(),
    };
    assert_eq!(entry_slug_from_url(&search), None);
    assert!(!is_entry_url(&root));
}

#[test]
fn url_join_follows_path_rules() {
    assert_eq!(regular("/a").join("b").path, "/a/b");
    assert_eq!(regular("/a/").join("b").path, "/a/b");
    assert_eq!(regular("").join("b").path, "b");
    assert_eq!(regular("/a").join("/c").path, "/c");
}

#[test]
fn root_cha_is_a_placeholder_directory() {
    let cha = root_cha();
    assert!(cha.dummy);
    assert!(cha.is_dir());
    assert!(!cha.hidden);
}

#[test]
fn parse_ssh_target_errors() {
    let e = parse_ssh_target("spark01").unwrap_err();
    assert_eq!(e.kind, ErrorKind::InvalidData);
    assert_eq!(e.message, "Open Machines SSH target does not include a user");
    let e = parse_ssh_target("@spark01").unwrap_err();
    assert_eq!(e.message, "Invalid Open Machines SSH target");
    let e = parse_ssh_target("hasna@").unwrap_err();
    assert_eq!(e.message, "Invalid Open Machines SSH target");
    let e = parse_ssh_target("hasna@spark01:").unwrap_err();
    assert_eq!(e.message, "cannot parse integer from empty string");
    let e = parse_ssh_target("hasna@spark01:70000").unwrap_err();
    assert_eq!(e.message, "number too large to fit in target type");
    assert_eq!(e.kind, ErrorKind::InvalidData);
}

#[test]
fn parse_ssh_target_keeps_non_numeric_suffix() {
    assert_eq!(
        parse_ssh_target("hasna@spark01:abc").unwrap(),
        ("hasna".to_owned(), "spark01:abc".to_owned(), 22)
    );
    assert_eq!(
        parse_ssh_target("a@b@c:65535").unwrap(),
        ("a".to_owned(), "b@c".to_owned(), 65535)
    );
    assert_eq!(parse_ssh_target("u@[::1]:2200").unwrap(), ("u".to_owned(), "[::1]".to_owned(), 2200));
    assert_eq!(parse_ssh_target("u@h:0022").unwrap(), ("u".to_owned(), "h".to_owned(), 22));
}

#[test]
fn parse_ssh_config_output_edge_cases() {
    let config = parse_ssh_config_output(
        "HostName first\r\nhostname  second \r\nUSER\troot\nPort +22\nIdentityFile ~\nidentityfile relative/key\nIdentityFile NONE\nCertificateFile /etc/cert\nIdentityAgent ~/agent.sock\nnokeyvalue\nunknown value\nport",
        "/home/u",
    );
    assert_eq!(config.host.as_deref(), Some("second"));
    assert_eq!(config.user.as_deref(), Some("root"));
    assert_eq!(config.port, Some(22));
    assert_eq!(config.key_files, vec!["/home/u".to_owned()]);
    assert_eq!(config.cert_files, vec!["/etc/cert".to_owned()]);
    assert_eq!(config.identity_agent.as_deref(), Some("/home/u/agent.sock"));

    let config = parse_ssh_config_output("port 99999\nhostname \nuser  \n", "/h");
    assert_eq!(config.port, None);
    assert_eq!(config.host, None);
    assert_eq!(config.user, None);

    let config = parse_ssh_config_output("port abc\r", "/h");
    assert_eq!(config.port, None);
    let config = parse_ssh_config_output("", "/h");
    assert!(config.key_files.is_empty());
}

#[test]
fn ssh_config_path_expands_home() {
    assert_eq!(ssh_config_path(" ~/.ssh/id ", "/home/u").as_deref(), Some("/home/u/.ssh/id"));
    assert_eq!(ssh_config_path("~", "/home/u").as_deref(), Some("/home/u"));
    assert_eq!(ssh_config_path("~", "").as_deref(), None);
    assert_eq!(ssh_config_path("None", "/home/u"), None);
    assert_eq!(ssh_config_path("   ", "/home/u"), None);
    assert_eq!(ssh_config_path("~other/x", "/home/u"), None);
}

#[test]
fn sftp_config_merges_what_ssh_reports() {
    let base = SftpConfig::new("h".to_owned(), "u".to_owned(), 22);
    assert_eq!(base.port, 22);
    assert!(base.key_file.is_empty() && base.cert_file.is_empty() && base.identity_agent.is_empty());
    let parsed = parse_ssh_config_output(
        "hostname real\nuser  \nport 2200\nidentityfile /a\nidentityfile /b\ncertificatefile /c\nidentityagent /sock\n",
        "/h",
    );
    let merged = apply_ssh_config(base, parsed, &vec![false, true], &vec![false], false);
    assert_eq!(merged.host, "real");
    assert_eq!(merged.user, "u");
    assert_eq!(merged.port, 2200);
    assert_eq!(merged.key_file, "/b");
    assert_eq!(merged.cert_file, "");
    assert_eq!(merged.identity_agent, "");
    let parsed = parse_ssh_config_output("identityagent /sock\n", "/h");
    let merged = apply_ssh_config(SftpConfig::new("h".to_owned(), "u".to_owned(), 1), parsed, &vec![], &vec![], true);
    assert_eq!(merged.identity_agent, "/sock");
}

#[test]
fn target_url_of_local_and_remote_machines() {
    let t = target_url(&machine("local", "l", "local", true, None)).unwrap();
    assert!(matches!(t.scheme, UrlScheme::Regular));
    assert_eq!(t.path, "/");
    let t = target_url(&machine("local", "l", "local", true, Some("  "))).unwrap();
    assert_eq!(t.path, "/");
    let t = target_url(&machine("local", "l", "local", true, Some("relative"))).unwrap();
    assert_eq!(t.path, "relative");
    let t = target_url(&machine("spark01", "s", "tailscale", false, Some("/home/hasna"))).unwrap();
    match t.scheme {
        UrlScheme::Sftp(domain) => assert_eq!(domain, "spark01"),
        _ => panic!("remote target is not SFTP"),
    }
    assert_eq!(t.path, "/home/hasna");
    let t = target_url(&machine("spark01", "s", "tailscale", false, None)).unwrap();
    assert_eq!(t.path, "/");
}

#[test]
fn cache_keeps_last_machine_of_an_id() {
    let mut cache = MachineCache::new();
    assert!(cache.get("a").is_none());
    cache.refresh(&vec![machine("a", "first", "r", false, None), machine("b", "b", "r", false, None), machine("a", "second", "r", false, None)]);
    assert_eq!(cache.get("a").unwrap().display_name, "second");
    assert_eq!(cache.get("b").unwrap().display_name, "b");
    assert!(cache.get("c").is_none());
    cache.refresh(&vec![machine("c", "c", "r", false, None)]);
    assert!(cache.get("a").is_none());
    assert!(cache.get("c").is_some());
    let e = target_for_cached(&cache, "zz").unwrap_err();
    assert_eq!(e.kind, ErrorKind::NotFound);
    assert_eq!(e.message, "Unknown machine: zz");
    let t = target_for_cached(&cache, "c").unwrap();
    assert_eq!(t.path, "/");
}

#[test]
fn sort_machines_is_stable() {
    let sorted = sort_machines(vec![
        machine("b", "b1", "r", false, None),
        machine("a", "a1", "r", false, None),
        machine("B", "B1", "r", false, None),
        machine("b", "b2", "r", false, None),
        machine("ab", "ab1", "r", false, None),
        machine("a", "a2", "r", false, None),
    ]);
    let names: Vec<&str> = sorted.iter().map(|m| m.display_name.as_str()).collect();
    assert_eq!(names, vec!["B1", "a1", "a2", "ab1", "b1", "b2"]);
    assert!(sort_machines(vec![]).is_empty());
}

#[test]
fn root_files_are_sorted_entries() {
    let mut cache = MachineCache::new();
    let files = root_files_from(
        vec![machine("spark02", "spark02", "local", true, None), machine("apple03", "apple03", "tailscale", false, None)],
        &mut cache,
    );
    assert_eq!(files.len(), 2);
    assert_eq!(files[0].url.path, "/__open_yasa_machines__/apple03 [tailscale online linux]");
    assert_eq!(files[1].url.path, "/__open_yasa_machines__/spark02 [local online linux]");
    assert!(files.iter().all(|f| f.is_dir() && !f.is_dummy() && f.link_to.is_none()));
    assert_eq!(entry_slug_from_url(&files[0].url).as_deref(), Some("apple03"));
    assert!(cache.get("apple03").is_some());
}

fn route(ok: bool, name: &str, local: bool, target: Option<&str>, command: Option<&str>, warnings: Option<Vec<&str>>) -> Route {
    Route {
        ok,
        route: name.to_owned(),
        target: target.map(|s| s.to_owned()),
        command_target: command.map(|s| s.to_owned()),
        local,
        warnings: warnings.map(|w| w.into_iter().map(|s| s.to_owned()).collect()),
    }
}

#[test]
fn route_ssh_target_decisions() {
    let e = route_ssh_target(&route(false, "x", false, None, None, Some(vec!["w1", "w2"])), "m").unwrap_err();
    assert_eq!(e.kind, ErrorKind::NotFound);
    assert_eq!(e.message, "w1; w2");
    let e = route_ssh_target(&route(false, "x", false, None, None, None), "m").unwrap_err();
    assert_eq!(e.message, "No Open Machines route for m");
    let e = route_ssh_target(&route(false, "x", false, None, None, Some(vec![])), "m").unwrap_err();
    assert_eq!(e.message, "No Open Machines route for m");
    let e = route_ssh_target(&route(true, "local", false, Some("u@h"), None, None), "m").unwrap_err();
    assert_eq!(e.kind, ErrorKind::Unsupported);
    assert_eq!(e.message, "Local Open Machines entries use the local filesystem");
    let e = route_ssh_target(&route(true, "ssh", true, Some("u@h"), None, None), "m").unwrap_err();
    assert_eq!(e.kind, ErrorKind::Unsupported);
    let e = route_ssh_target(&route(true, "ssh", false, None, None, None), "m").unwrap_err();
    assert_eq!(e.kind, ErrorKind::NotFound);
    assert_eq!(e.message, "No SSH target for m");
    let t = route_ssh_target(&route(true, "ssh", false, Some("u@t"), Some("c@cmd:2"), None), "m").unwrap();
    assert_eq!(t, ("c".to_owned(), "cmd".to_owned(), 2));
    let t = route_ssh_target(&route(true, "ssh", false, Some("u@t"), None, None), "m").unwrap();
    assert_eq!(t, ("u".to_owned(), "t".to_owned(), 22));
    let e = route_ssh_target(&route(true, "ssh", false, Some("nouser"), None, None), "m").unwrap_err();
    assert_eq!(e.kind, ErrorKind::InvalidData);
}

#[test]
fn command_failure_message_prefers_stderr() {
    assert_eq!(command_failure_message("  boom \n", "exit status: 1"), "boom");
    assert_eq!(command_failure_message(" \n", "exit status: 2"), "Open Machines command exited with exit status: 2");
}

fn listed(id: &str, route: Option<&str>, workspace: Option<&str>) -> TopologyMachine {
    TopologyMachine {
        machine_id: id.to_owned(),
        friendly_name: Some("  ".to_owned()),
        display_name: None,
        platform: Some(" linux ".to_owned()),
        workspace_path: workspace.map(|s| s.to_owned()),
        heartbeat_status: None,
        ssh: route.map(|r| TopologySsh { route: Some(r.to_owned()) }),
    }
}

#[test]
fn topology_machines_are_read_in_order() {
    let cwd = Some("/work".to_owned());
    let m = machine_from_topology(listed("spark02", None, Some(" /ws ")), "spark02", &cwd);
    assert!(m.local);
    assert_eq!(m.route, "unknown");
    assert_eq!(m.display_name, "spark02");
    assert_eq!(m.friendly_name, None);
    assert_eq!(m.platform.as_deref(), Some("linux"));
    assert_eq!(m.workspace_path.as_deref(), Some("/work"));
    assert_eq!(m.heartbeat_status, "unknown");
    let m = machine_from_topology(listed("spark02", None, Some(" /ws ")), "spark02", &None);
    assert_eq!(m.workspace_path.as_deref(), Some("/ws"));
    let m = machine_from_topology(listed("apple03", Some("local"), None), "spark02", &cwd);
    assert!(m.local);
    let m = machine_from_topology(listed("apple03", Some("tailscale"), Some("/srv")), "spark02", &cwd);
    assert!(!m.local);
    assert_eq!(m.workspace_path.as_deref(), Some("/srv"));
    let machines = machines_from_topology(
        Topology { local_machine_id: "b".to_owned(), machines: vec![listed("b", None, None), listed("a", Some("ssh"), None)] },
        &cwd,
    );
    assert_eq!(machines.len(), 2);
    assert_eq!(machines[0].machine_id, "b");
    assert!(machines[0].local);
    assert_eq!(machines[1].machine_id, "a");
    assert!(!machines[1].local);
}

#[test]
fn fallback_machine_is_local() {
    let m = fallback_machine(Some("/cwd".to_owned()), Some("  ".to_owned()), Some(" box ".to_owned()), "linux");
    assert_eq!(m.machine_id, "local");
    assert_eq!(m.display_name, "box");
    assert_eq!(m.platform.as_deref(), Some("linux"));
    assert!(m.local);
    assert_eq!(m.route, "local");
    assert_eq!(m.heartbeat_status, "local");
    assert_eq!(target_url(&m).unwrap().path, "/cwd");
    let m = fallback_machine(None, None, None, "macos");
    assert_eq!(m.display_name, "local");
    let m = fallback_machine(None, Some("host".to_owned()), Some("box".to_owned()), "macos");
    assert_eq!(m.display_name, "host");
}

#[test]
fn discovery_retries_truncated_output_once() {
    assert_eq!(discover_next(false, TopologyRead::Parsed), DiscoverAction::Accept);
    assert_eq!(discover_next(false, TopologyRead::Truncated), DiscoverAction::Retry(20));
    assert_eq!(discover_next(true, TopologyRead::Truncated), DiscoverAction::Fail);
    assert_eq!(discover_next(false, TopologyRead::Invalid), DiscoverAction::Fail);
    assert_eq!(discover_next(true, TopologyRead::Parsed), DiscoverAction::Accept);
}

#[test]
fn bootstrap_opens_machine_chooser_without_paths() {
    let input = BootstrapInput {
        has_entries: false,
        has_cwd_file: false,
        has_chooser_file: false,
        machines_layer: true,
        cwds: vec![regular("/home")],
        files: vec![String::new()],
    };
    assert!(matches!(Bootstrap::act(&input), BootstrapPlan::MachineRoot));
    let input = BootstrapInput { machines_layer: false, ..input };
    match Bootstrap::act(&input) {
        BootstrapPlan::Tabs { count, steps } => {
            assert_eq!(count, 1);
            assert_eq!(steps.len(), 1);
            assert!(matches!(&steps[0].action, TabAction::Cd(u) if u.path == "/home"));
        }
        _ => panic!("expected tabs"),
    }
    assert!(OpenYasa::default().machines_layer);
}

#[test]
fn bootstrap_opens_given_paths_last_first() {
    let input = BootstrapInput {
        has_entries: true,
        has_cwd_file: false,
        has_chooser_file: false,
        machines_layer: true,
        cwds: vec![regular("/a"), regular("/b")],
        files: vec!["f.txt".to_owned(), String::new()],
    };
    match Bootstrap::act(&input) {
        BootstrapPlan::Tabs { count, steps } => {
            assert_eq!(count, 2);
            assert_eq!(steps[0].tab, 1);
            assert!(matches!(&steps[0].action, TabAction::Cd(u) if u.path == "/b"));
            assert_eq!(steps[1].tab, 0);
            assert!(matches!(&steps[1].action, TabAction::Reveal(u) if u.path == "/a/f.txt"));
        }
        _ => panic!("expected tabs"),
    }
}

#[test]
fn enter_and_link_in_machine_root() {
    let mut cache = MachineCache::new();
    cache.refresh(&vec![machine("spark01", "s", "tailscale", false, Some("/home/s"))]);
    let root = root_url();
    assert!(matches!(Enter::act(&root, None, &cache), Ok(EnterAction::Stay)));
    let entry = Hovered { url: root.join("spark01 [tailscale online linux]"), is_dir: true };
    match Enter::act(&root, Some(&entry), &cache) {
        Ok(EnterAction::Cd(u)) => {
            assert!(matches!(u.scheme, UrlScheme::Sftp(ref d) if d == "spark01"));
            assert_eq!(u.path, "/home/s");
        }
        other => panic!("unexpected {:?}", other),
    }
    let unknown = Hovered { url: root.join("nobody [x]"), is_dir: true };
    let e = Enter::act(&root, Some(&unknown), &cache).unwrap_err();
    assert_eq!(e.kind, ErrorKind::NotFound);
    let dir = Hovered { url: UrlBuf { scheme: UrlScheme::Search("q".to_owned()), path: "/x".to_owned() }, is_dir: true };
    match Enter::act(&regular("/home"), Some(&dir), &cache) {
        Ok(EnterAction::Cd(u)) => {
            assert!(matches!(u.scheme, UrlScheme::Regular));
            assert_eq!(u.path, "/x");
        }
        other => panic!("unexpected {:?}", other),
    }
    let file = Hovered { url: regular("/x/f"), is_dir: false };
    assert!(matches!(Enter::act(&regular("/x"), Some(&file), &cache), Ok(EnterAction::Stay)));
    assert!(!Link::act(&root, false));
    assert!(!Link::act(&regular("/x"), true));
    assert!(Link::act(&regular("/x"), false));
}

#[test]
fn sftp_service_uses_short_timeout_and_resolved_credentials() {
    let mut resolved = SftpConfig::new("host".to_owned(), "user".to_owned(), 2222);
    resolved.key_file = "/k".to_owned();
    let defaults = SftpDefaults {
        key_file: "/default/k".to_owned(),
        cert_file: "/default/c".to_owned(),
        identity_agent: String::new(),
    };
    let service = sftp_service_config(resolved, defaults);
    assert_eq!(service.host, "host");
    assert_eq!(service.user, "user");
    assert_eq!(service.port, 2222);
    assert_eq!(service.connect_timeout_secs, 8);
    assert_eq!(service.key_file, "/k");
    assert_eq!(service.cert_file, "/default/c");
    assert_eq!(service.identity_agent, "");
}

#[test]
fn bootstrap_chooser_needs_no_tab_directories() {
    let input = BootstrapInput {
        has_entries: false,
        has_cwd_file: false,
        has_chooser_file: false,
        machines_layer: true,
        cwds: vec![],
        files: vec!["a".to_owned(), "b".to_owned()],
    };
    assert!(matches!(Bootstrap::act(&input), BootstrapPlan::MachineRoot));
}

#[test]
fn root_url_ignores_trailing_separators() {
    assert!(is_root_url(&regular("/__open_yasa_machines__/")));
    assert!(is_root_url(&regular("/__open_yasa_machines__///")));
    assert!(!is_root_url(&regular("/__open_yasa_machines__/x")));
    assert!(!is_root_url(&regular("/")));
    assert!(!is_root_url(&regular("")));
    let search = UrlBuf { scheme: UrlScheme::Search("q".to_owned()), path: "/__open_yasa_machines__".to_owned() };
    assert!(!is_root_url(&search));
    let cwd = regular("/__open_yasa_machines__/");
    assert!(!Link::act(&cwd, false));
    let cache = MachineCache::new();
    let entry = Hovered { url: regular("/__open_yasa_machines__/spark01 [x]"), is_dir: true };
    assert_eq!(Enter::act(&cwd, Some(&entry), &cache).unwrap_err().kind, ErrorKind::NotFound);
}
