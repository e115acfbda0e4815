use muster::commands::{
    build_tabs_with, filter_sessions, find_profile, pane_died_body, parse_tab, peek_targets,
    tab_to_remove, update_profile_fields, EditablePane,
    EditableProfile, EditableTab, edit_step, EditStep,
};
use muster::error::Error;
use muster::config::profile::{Profile, TabProfile};
use muster::tmux::types::{SessionInfo, TmuxWindow};

fn info(name: &str, display: &str, profile: Option<&str>) -> SessionInfo {
    SessionInfo {
        session_name: name.into(),
        display_name: display.into(),
        color: "#808080".into(),
        profile_id: profile.map(|p| p.to_string()),
        window_count: 1,
        attached: false,
    }
}

#[test]
fn parse_tab_name_and_cwd() {
    let tab = parse_tab("Shell:/home/user", "/here").unwrap();
    assert_eq!(tab.name, "Shell");
    assert_eq!(tab.cwd, "/home/user");
    assert!(tab.command.is_none());
}

#[test]
fn parse_tab_with_command() {
    let tab = parse_tab("Dev:/home/user:npm run dev", "/here").unwrap();
    assert_eq!(tab.name, "Dev");
    assert_eq!(tab.cwd, "/home/user");
    assert_eq!(tab.command.as_deref(), Some("npm run dev"));
}

#[test]
fn parse_tab_empty_command_becomes_none() {
    let tab = parse_tab("Shell:/home/user:", "/here").unwrap();
    assert!(tab.command.is_none());
}

#[test]
fn parse_tab_missing_cwd_fails() {
    assert!(parse_tab("Shell", "/here").is_err());
}

#[test]
fn parse_tab_details() {
    let tab = parse_tab("Dot:.:a:b", "/here").unwrap();
    assert_eq!(tab.cwd, "/here");
    assert_eq!(tab.command.as_deref(), Some("a:b"));
    assert_eq!(
        parse_tab("Shell", "/").unwrap_err(),
        "invalid tab format 'Shell': expected 'name:cwd' or 'name:cwd:command'"
    );
}

#[test]
fn build_tabs_defaults_and_errors() {
    let tabs = build_tabs_with(&[], "/here", Some("/home/u")).unwrap();
    assert_eq!(tabs.len(), 1);
    assert_eq!(tabs[0].name, "Shell");
    assert_eq!(tabs[0].cwd, "/home/u");
    let tabs = build_tabs_with(&[], "/here", None).unwrap();
    assert_eq!(tabs[0].cwd, "/tmp");
    let raw = vec!["A:/a".to_string(), "bad".to_string(), "worse".to_string()];
    assert_eq!(
        build_tabs_with(&raw, "/here", None).unwrap_err(),
        "invalid tab format 'bad': expected 'name:cwd' or 'name:cwd:command'"
    );
    let raw = vec!["A:/a".to_string(), "B:.:run".to_string()];
    let tabs = build_tabs_with(&raw, "/here", None).unwrap();
    assert_eq!(tabs.len(), 2);
    assert_eq!(tabs[1].cwd, "/here");
}

#[test]
fn filter_sessions_by_any_name() {
    let all = vec![
        info("muster_a", "Alpha", Some("a")),
        info("muster_b", "Beta", Some("b")),
        info("loose", "loose", None),
    ];
    let mut s = all.clone();
    filter_sessions(&mut s, None).unwrap();
    assert_eq!(s, all);
    let mut s = all.clone();
    filter_sessions(&mut s, Some("Beta")).unwrap();
    assert_eq!(s, vec![all[1].clone()]);
    let mut s = all.clone();
    filter_sessions(&mut s, Some("a")).unwrap();
    assert_eq!(s, vec![all[0].clone()]);
    let mut s = all.clone();
    filter_sessions(&mut s, Some("loose")).unwrap();
    assert_eq!(s.len(), 1);
    let mut s = all.clone();
    assert_eq!(filter_sessions(&mut s, Some("zzz")).unwrap_err(), "No session found for: zzz");
    assert!(s.is_empty());
}

fn prof(id: &str, name: &str, tabs: &[&str]) -> Profile {
    Profile {
        id: id.into(),
        name: name.into(),
        color: "#000000".into(),
        tabs: tabs
            .iter()
            .map(|t| TabProfile {
                name: t.to_string(),
                cwd: "/".into(),
                command: None,
                layout: None,
                panes: vec![],
            })
            .collect(),
    }
}

#[test]
fn find_profile_by_name_or_id() {
    let ps = vec![prof("one", "First", &["a"]), prof("two", "Second", &["a"])];
    assert_eq!(find_profile(&ps, "Second"), Some(1));
    assert_eq!(find_profile(&ps, "one"), Some(0));
    assert_eq!(find_profile(&ps, "three"), None);
}

#[test]
fn tab_removal_choice() {
    let p = prof("p", "P", &["Shell", "Server", "7"]);
    assert_eq!(tab_to_remove(&p, "1"), Ok(1));
    assert_eq!(tab_to_remove(&p, "Server"), Ok(1));
    assert_eq!(tab_to_remove(&p, "7"), Err("Tab index 7 out of range (profile has 3 tab(s)).".to_string()));
    assert_eq!(tab_to_remove(&p, "Nope"), Err("Tab not found: Nope".to_string()));
    let single = prof("s", "S", &["Only"]);
    assert_eq!(
        tab_to_remove(&single, "Only"),
        Err("Cannot remove the last tab from a profile.".to_string())
    );
    assert_eq!(
        tab_to_remove(&single, "0"),
        Err("Cannot remove the last tab from a profile.".to_string())
    );
}

#[test]
fn edited_profile_becomes_profile() {
    let e = EditableProfile {
        name: "My Work Space".into(),
        color: "#123456".into(),
        tabs: vec![EditableTab {
            name: "Shell".into(),
            cwd: "~/w".into(),
            command: Some("ls".into()),
            layout: Some("even-horizontal".into()),
            panes: vec![
                EditablePane { cwd: Some("/a".into()), command: None },
                EditablePane { cwd: None, command: Some("top".into()) },
            ],
        }],
    };
    let p = e.into_profile();
    assert_eq!(p.id, "my-work-space");
    assert_eq!(p.name, "My Work Space");
    assert_eq!(p.color, "#123456");
    assert_eq!(p.tabs.len(), 1);
    assert_eq!(p.tabs[0].layout.as_deref(), Some("even-horizontal"));
    assert_eq!(p.tabs[0].panes.len(), 2);
    assert_eq!(p.tabs[0].panes[1].command.as_deref(), Some("top"));
}

#[test]
fn pane_exit_notification_body() {
    assert_eq!(pane_died_body("", 0), "Exit code: 0");
    assert_eq!(pane_died_body("a\n\nb\nc\nd\ne\nf\n", -2), "Exit code: -2\nb\nc\nd\ne\nf");
    assert_eq!(pane_died_body("a\n\nb\nc\nd\n\n", 1), "Exit code: 1\nb\nc\nd");
    assert_eq!(pane_died_body("one\n\n", 127), "Exit code: 127\none");
    assert_eq!(pane_died_body("x\r\ny", i32::MIN), "Exit code: -2147483648\nx\ny");
}

#[test]
fn peek_window_choice() {
    let ws = vec![
        TmuxWindow { index: 0, name: "Shell".into(), cwd: "/".into(), active: true },
        TmuxWindow { index: 1, name: "Server".into(), cwd: "/".into(), active: false },
        TmuxWindow { index: 2, name: "Ünï".into(), cwd: "/".into(), active: false },
    ];
    assert_eq!(peek_targets(&ws, &[]), ws);
    let picked = peek_targets(&ws, &["server".to_string(), "SHELL".to_string()]);
    assert_eq!(picked.len(), 2);
    assert_eq!(picked[0].index, 0);
    assert_eq!(picked[1].index, 1);
    assert!(peek_targets(&ws, &["ünï".to_string()]).is_empty());
    assert_eq!(peek_targets(&ws, &["Ünï".to_string()]).len(), 1);
}

#[test]
fn inline_profile_update() {
    let p = prof("old", "Old", &["a"]);
    let q = update_profile_fields(p.clone(), None, Some("#ffffff".to_string()));
    assert_eq!(q.color, "#ffffff");
    assert_eq!(q.id, "old");
    let r = update_profile_fields(p.clone(), Some("New Name"), None);
    assert_eq!(r.name, "New Name");
    assert_eq!(r.id, "new-name");
    assert_eq!(r.color, "#000000");
    assert_eq!(update_profile_fields(p.clone(), None, None), p);
}

#[test]
fn filtering_twice_keeps_the_same_sessions() {
    let all = vec![
        info("muster_a", "Alpha", Some("a")),
        info("muster_b", "a", None),
        info("a", "Gamma", None),
        info("muster_c", "Gamma", Some("c")),
    ];
    let mut once = all.clone();
    filter_sessions(&mut once, Some("a")).unwrap();
    assert_eq!(once.len(), 3);
    let mut twice = once.clone();
    filter_sessions(&mut twice, Some("a")).unwrap();
    assert_eq!(twice, once);
}

#[test]
fn edited_profile_steps() {
    let bad: Result<String, Error> = Err(Error::InvalidColor("#zz".to_string()));
    match edit_step(&bad, 1, "a", "a") {
        EditStep::Retry(m) => assert_eq!(m, "Invalid color: invalid color: #zz"),
        _ => panic!("expected a retry"),
    }
    let good: Result<String, Error> = Ok("#ff0000".to_string());
    match edit_step(&good, 0, "a", "a") {
        EditStep::Retry(m) => assert_eq!(m, "Profile must have at least one tab."),
        _ => panic!("expected a retry"),
    }
    assert!(matches!(edit_step(&good, 2, "work", "work"), EditStep::Update));
    assert!(matches!(edit_step(&good, 2, "work", "work-2"), EditStep::Rename));
}

#[test]
fn editing_without_changes_gives_the_profile_back() {
    let p = Profile {
        id: "my-project".into(),
        name: "My Project".into(),
        color: "#f97316".into(),
        tabs: vec![TabProfile {
            name: "Shell".into(),
            cwd: "/tmp".into(),
            command: Some("htop".into()),
            layout: None,
            panes: vec![],
        }],
    };
    let e = EditableProfile::from_profile(&p);
    assert_eq!(e.name, "My Project");
    assert_eq!(e.tabs.len(), 1);
    assert_eq!(e.tabs[0].command.as_deref(), Some("htop"));
    assert_eq!(e.into_profile(), p);
}
