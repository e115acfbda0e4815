use muster::tmux::client::{quote_tmux, quote_tmux_cmd, TmuxClient, SESSION_PREFIX};
use muster::tmux::types::{panes_in_window, TmuxPane, TmuxSession};

fn args(c: &muster::tmux::client::TmuxCommand) -> Vec<&str> {
    c.args.iter().map(|s| s.as_str()).collect()
}

#[test]
fn test_build_command() {
    let args = TmuxClient::build_args("new-session", &["-d", "-s", "test"]);
    assert_eq!(args, vec!["new-session", "-d", "-s", "test"]);

    let args = TmuxClient::build_args("list-sessions", &["-F", "#{session_name}"]);
    assert_eq!(args, vec!["list-sessions", "-F", "#{session_name}"]);
}

#[test]
fn test_parse_session_list() {
    let output = "muster_abc123\t3\t1\npersonal\t1\t0\nmuster_def456\t2\t0\n";
    let sessions = TmuxClient::parse_session_list(output);

    assert_eq!(sessions.len(), 3);
    assert_eq!(sessions[0].name, "muster_abc123");
    assert_eq!(sessions[0].windows, 3);
    assert!(sessions[0].attached);
    assert_eq!(sessions[1].name, "personal");
    assert_eq!(sessions[1].windows, 1);
    assert!(!sessions[1].attached);
    assert_eq!(sessions[2].name, "muster_def456");
    assert_eq!(sessions[2].windows, 2);
    assert!(!sessions[2].attached);
}

#[test]
fn test_parse_session_list_empty() {
    let sessions = TmuxClient::parse_session_list("");
    assert!(sessions.is_empty());
}

#[test]
fn test_parse_window_list() {
    let output = "0\tShell\t/Users/sbb/work\t1\n1\tServer\t/Users/sbb/work/app\t0\n";
    let windows = TmuxClient::parse_window_list(output);

    assert_eq!(windows.len(), 2);
    assert_eq!(windows[0].index, 0);
    assert_eq!(windows[0].name, "Shell");
    assert_eq!(windows[0].cwd, "/Users/sbb/work");
    assert!(windows[0].active);
    assert_eq!(windows[1].index, 1);
    assert_eq!(windows[1].name, "Server");
    assert_eq!(windows[1].cwd, "/Users/sbb/work/app");
    assert!(!windows[1].active);
}

#[test]
fn test_parse_window_list_empty() {
    let windows = TmuxClient::parse_window_list("");
    assert!(windows.is_empty());
}

#[test]
fn test_session_prefix_filter() {
    let output = "muster_abc123\t3\t0\npersonal\t1\t0\nmuster_def456\t2\t0\n";
    let all = TmuxClient::parse_session_list(output);
    let managed: Vec<_> = all
        .into_iter()
        .filter(|s| s.name.starts_with(SESSION_PREFIX))
        .collect();

    assert_eq!(managed.len(), 2);
    assert_eq!(managed[0].name, "muster_abc123");
    assert_eq!(managed[1].name, "muster_def456");
}

#[test]
fn test_parse_session_info_with_metadata() {
    let output =
        "muster_abc123\t3\t1\tPKM Project\t#f97316\tprofile_abc123\npersonal\t1\t0\t\t\t\n";
    let sessions = TmuxClient::parse_session_info_list(output);

    // Only muster_ sessions are included
    assert_eq!(sessions.len(), 1);
    assert_eq!(sessions[0].session_name, "muster_abc123");
    assert_eq!(sessions[0].display_name, "PKM Project");
    assert_eq!(sessions[0].color, "#f97316");
    assert_eq!(sessions[0].profile_id, Some("profile_abc123".to_string()));
    assert_eq!(sessions[0].window_count, 3);
    assert!(sessions[0].attached);
}

#[test]
fn test_parse_session_info_without_metadata() {
    let output = "muster_orphan\t1\t0\t\t\t\n";
    let sessions = TmuxClient::parse_session_info_list(output);

    assert_eq!(sessions.len(), 1);
    // Defaults: name derived from session, default color, no profile
    assert_eq!(sessions[0].display_name, "orphan");
    assert_eq!(sessions[0].color, "#808080");
    assert_eq!(sessions[0].profile_id, None);
}

#[test]
fn list_managed_sessions_keeps_prefixed_in_order() {
    let sessions = vec![
        TmuxSession { name: "muster_a".into(), windows: 1, attached: false },
        TmuxSession { name: "other".into(), windows: 2, attached: true },
        TmuxSession { name: "muster_b".into(), windows: 3, attached: true },
    ];
    let managed = TmuxClient::list_managed_sessions(sessions);
    assert_eq!(managed.len(), 2);
    assert_eq!(managed[0].name, "muster_a");
    assert_eq!(managed[1].name, "muster_b");
    assert_eq!(managed[1].windows, 3);
    let again = TmuxClient::list_managed_sessions(managed.clone());
    assert_eq!(again, managed);
}

#[test]
fn window_list_bad_index_reads_as_zero() {
    let windows = TmuxClient::parse_window_list("x\tShell\t/tmp\t1\n\nshort\tline\n");
    assert_eq!(windows.len(), 1);
    assert_eq!(windows[0].index, 0);
}

#[test]
fn command_argument_lists() {
    let c = TmuxClient::with_path("/usr/bin/tmux".into());
    assert_eq!(c.tmux_path(), "/usr/bin/tmux");
    assert_eq!(args(&c.kill_session("muster_x")), vec!["kill-session", "-t", "muster_x"]);
    assert_eq!(
        args(&c.new_window("s", "Dev", "/tmp", Some("/bin/fish"))),
        vec!["new-window", "-t", "s", "-n", "Dev", "-c", "/tmp", "/bin/fish"]
    );
    assert_eq!(
        args(&c.send_keys("s", 2, "ls -la")),
        vec!["send-keys", "-t", "s:2", "ls -la", "Enter"]
    );
    assert_eq!(args(&c.kill_window("s", 1)), vec!["kill-window", "-t", "s:1"]);
    assert_eq!(args(&c.select_window("s", 0)), vec!["select-window", "-t", "s:0"]);
    assert_eq!(
        args(&c.rename_window("s", 3, "new name")),
        vec!["rename-window", "-t", "s:3", "new name"]
    );
    assert_eq!(
        args(&c.set_option("s", "@muster_color", "#fff")),
        vec!["set-option", "-t", "s", "@muster_color", "#fff"]
    );
    assert_eq!(
        args(&c.get_option("s", "@muster_name")),
        vec!["show-option", "-t", "s", "-v", "@muster_name"]
    );
}

#[test]
fn new_session_passes_environment_except_tmux_and_term() {
    let c = TmuxClient::with_path("tmux".into());
    let vars = vec![
        ("PATH".to_string(), "/bin".to_string()),
        ("TMUX".to_string(), "/tmp/sock".to_string()),
        ("TMUX_PANE".to_string(), "%1".to_string()),
        ("TERM".to_string(), "xterm".to_string()),
        ("LANG".to_string(), "C".to_string()),
    ];
    let cmd = c.new_session("muster_p", "Shell", "/tmp", None, &vars);
    assert_eq!(
        args(&cmd),
        vec![
            "new-session", "-d", "-s", "muster_p", "-n", "Shell", "-c", "/tmp", "-e", "PATH=/bin",
            "-e", "LANG=C"
        ]
    );
}

#[test]
fn command_results() {
    assert_eq!(TmuxClient::cmd_result(true, "out".into(), "".into()).unwrap(), "out");
    assert_eq!(
        TmuxClient::cmd_result(false, "x".into(), "no server running on /tmp/s".into()).unwrap(),
        ""
    );
    assert_eq!(
        TmuxClient::cmd_result(false, "".into(), "error connecting to /tmp/s".into()).unwrap(),
        ""
    );
    let err = TmuxClient::cmd_result(false, "".into(), "can't find session".into()).unwrap_err();
    assert_eq!(err.message(), "tmux command failed: can't find session");
}

#[test]
fn option_values() {
    assert_eq!(TmuxClient::option_value(true, "  #f97316\n").as_deref(), Some("#f97316"));
    assert_eq!(TmuxClient::option_value(true, "  \n"), None);
    assert_eq!(TmuxClient::option_value(false, "value"), None);
}

#[test]
fn quoting_for_command_files() {
    assert_eq!(quote_tmux("plain"), "'plain'");
    assert_eq!(quote_tmux("it's"), "'it'\\''s'");
    assert_eq!(quote_tmux_cmd("run-shell x"), "{run-shell x}");
}

#[test]
fn pane_listing_and_context() {
    let c = TmuxClient::with_path("tmux".into());
    assert_eq!(args(&c.list_panes("s"))[..4], ["list-panes", "-s", "-t", "s"]);
    assert_eq!(args(&c.list_window_panes("s", 2))[..3], ["list-panes", "-t", "s:2"]);
    assert_eq!(
        args(&c.get_window_layout("s", 1)),
        vec!["display-message", "-p", "-t", "s:1", "#{window_layout}"]
    );
    assert_eq!(args(&c.capture_pane("%3", 50)), vec!["capture-pane", "-p", "-t", "%3", "-S", "-50"]);
    let panes = TmuxClient::parse_pane_list("0\t0\t100\tfish\t/home\n1\t2\t200\tnode\t/srv\nbad\n");
    assert_eq!(panes.len(), 2);
    assert_eq!(panes[1].window_index, 1);
    assert_eq!(panes[1].index, 2);
    assert_eq!(panes[1].pid, 200);
    assert_eq!(panes[1].command, "node");
    assert_eq!(panes[1].cwd, "/srv");
    let ctx = TmuxClient::parse_pane_context("muster_a\t3\tEditor\t/w\n").unwrap();
    assert_eq!(ctx.session_name, "muster_a");
    assert_eq!(ctx.window_index, 3);
    assert_eq!(ctx.window_name, "Editor");
    assert_eq!(ctx.cwd, "/w");
    assert!(TmuxClient::parse_pane_context("").is_none());
    assert!(TmuxClient::parse_pane_context("a\tb\n").is_none());
}

#[test]
fn session_metadata_commands() {
    let c = TmuxClient::with_path("tmux".into());
    let cmds = c.set_session_metadata("s", "Name", "#fff", Some("p"));
    assert_eq!(cmds.len(), 3);
    assert_eq!(args(&cmds[2]), vec!["set-option", "-t", "s", "@muster_profile", "p"]);
    assert_eq!(c.set_session_metadata("s", "Name", "#fff", None).len(), 2);
    assert_eq!(
        args(&c.set_window_option("s", 1, "@muster_pinned", "1")),
        vec!["set-window-option", "-t", "s:1", "@muster_pinned", "1"]
    );
    assert_eq!(
        args(&c.unset_window_option("s", 1, "@muster_pinned")),
        vec!["set-window-option", "-u", "-t", "s:1", "@muster_pinned"]
    );
}

#[test]
fn client_from_path_search() {
    let c = TmuxClient::from_search(Some("/usr/bin/tmux".to_string())).unwrap();
    assert_eq!(c.tmux_path(), "/usr/bin/tmux");
    let err = TmuxClient::from_search(None).err().unwrap();
    assert_eq!(err.message(), "tmux not found in PATH");
}

#[test]
fn panes_grouped_by_window_keep_their_order() {
    let pane = |w: u32, i: u32| TmuxPane {
        window_index: w,
        index: i,
        pid: 100 + i,
        command: "zsh".into(),
        cwd: "/".into(),
    };
    let panes = vec![pane(1, 0), pane(0, 0), pane(1, 1), pane(2, 0), pane(1, 2)];
    assert_eq!(panes_in_window(&panes, 1), vec![0, 2, 4]);
    assert_eq!(panes_in_window(&panes, 0), vec![1]);
    assert!(panes_in_window(&panes, 7).is_empty());
}

#[test]
fn found_tmux_path_names_tmux() {
    if let Ok(c) = TmuxClient::new() {
        assert!(c.tmux_path().ends_with("tmux"));
    }
}
