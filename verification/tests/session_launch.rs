use muster::config::profile::{PaneProfile, Profile, TabProfile};
use muster::session::launch::{
    build_hook_commands, build_launch_commands, build_window_pane_commands, destroy,
    expand_tilde_with, get_windows, plan_launch, resolve_shell, session_candidates,
};
use muster::tmux::client::TmuxClient;

fn tab(name: &str, cwd: &str, command: Option<&str>) -> TabProfile {
    TabProfile {
        name: name.into(),
        cwd: cwd.into(),
        command: command.map(|c| c.to_string()),
        layout: None,
        panes: vec![],
    }
}

fn args(c: &muster::tmux::client::TmuxCommand) -> Vec<&str> {
    c.args.iter().map(|s| s.as_str()).collect()
}

#[test]
fn tilde_expansion() {
    assert_eq!(expand_tilde_with("~/work/app", Some("/home/u")), "/home/u/work/app");
    assert_eq!(expand_tilde_with("~", Some("/home/u")), "/home/u");
    assert_eq!(expand_tilde_with("~user/x", Some("/home/u")), "~user/x");
    assert_eq!(expand_tilde_with("~/x", None), "~/x");
    assert_eq!(expand_tilde_with("/abs", Some("/home/u")), "/abs");
}

#[test]
fn shell_resolution_order() {
    assert_eq!(resolve_shell(Some("/bin/fish"), Some("/bin/zsh".into())).as_deref(), Some("/bin/fish"));
    assert_eq!(resolve_shell(Some(""), Some("/bin/zsh".into())).as_deref(), Some("/bin/zsh"));
    assert_eq!(resolve_shell(None, Some("".into())), None);
    assert_eq!(resolve_shell(None, None), None);
}

#[test]
fn single_pane_window_sends_tab_command() {
    let t = tab("Dev", "/tmp", Some("npm run dev"));
    let cmds = build_window_pane_commands("muster_p", 1, &t, None, None);
    assert_eq!(cmds, vec!["send-keys -t muster_p:1 'npm run dev' Enter"]);
    let quiet = tab("Shell", "/tmp", None);
    assert!(build_window_pane_commands("muster_p", 0, &quiet, None, None).is_empty());
}

#[test]
fn multi_pane_window_splits_lays_out_and_sends() {
    let t = TabProfile {
        name: "Work".into(),
        cwd: "~/w".into(),
        command: None,
        layout: Some("tiled".into()),
        panes: vec![
            PaneProfile { cwd: Some("~/a".into()), command: Some("vim".into()) },
            PaneProfile { cwd: None, command: Some("cargo watch".into()) },
        ],
    };
    let cmds = build_window_pane_commands("s", 0, &t, Some("/bin/fish"), Some("/h"));
    assert_eq!(
        cmds,
        vec![
            "split-window -t s:0 -c '/h/w' '/bin/fish'",
            "select-layout -t s:0 'tiled'",
            "send-keys -t s:0.0 'cd /h/a' Enter",
            "send-keys -t s:0.0 'vim' Enter",
            "send-keys -t s:0.1 'cargo watch' Enter",
        ]
    );
}

#[test]
fn hook_commands_cover_every_window() {
    let cmds = build_hook_commands("s", 2);
    assert_eq!(cmds.len(), 5);
    assert_eq!(cmds[0], "set-option -w -t s:0 remain-on-exit on");
    assert!(cmds[1].starts_with("set-hook -w -t s:0 pane-died {run-shell -b \"muster _pane-died"));
    assert_eq!(cmds[2], "set-option -w -t s:1 remain-on-exit on");
    assert!(cmds[4].starts_with("set-hook -t s alert-bell {run-shell -b \"muster _bell"));
}

fn profile() -> Profile {
    Profile {
        id: "proj".into(),
        name: "My Proj".into(),
        color: "orange".into(),
        tabs: vec![tab("Shell", "~/p", None), tab("Server", "/srv", Some("make run"))],
    }
}

#[test]
fn launch_batch_shape() {
    let p = profile();
    let cmds = build_launch_commands("muster_proj", &p, Some("/bin/zsh"), Some("/h"), "muster").unwrap();
    assert_eq!(cmds[0], "set-option -t muster_proj default-command '/bin/zsh'");
    assert_eq!(cmds[1], "new-window -t muster_proj -n 'Server' -c '/srv' '/bin/zsh'");
    assert_eq!(cmds[2], "send-keys -t muster_proj:1 'make run' Enter");
    assert_eq!(cmds[3], "set-option -t muster_proj @muster_name 'My Proj'");
    assert_eq!(cmds[4], "set-option -t muster_proj @muster_color 'orange'");
    assert_eq!(cmds[5], "set-option -t muster_proj @muster_profile 'proj'");
    assert_eq!(cmds[6], "set-window-option -t muster_proj:0 @muster_pinned 1");
    assert_eq!(cmds[7], "set-window-option -t muster_proj:0 @muster_tab_name 'Shell'");
    assert_eq!(cmds.last().unwrap(), "select-window -t muster_proj:0");
}

#[test]
fn launch_batch_rejects_bad_color() {
    let mut p = profile();
    p.color = "nope".into();
    let err = build_launch_commands("muster_proj", &p, None, None, "muster").unwrap_err();
    assert_eq!(err.message(), "invalid color: #nope");
}

#[test]
fn launch_plan() {
    let client = TmuxClient::with_path("tmux".into());
    let vars = vec![("HOME".to_string(), "/h".to_string())];
    let plan = plan_launch(&client, &profile(), None, &vars, Some("/h"), "muster").unwrap();
    assert_eq!(plan.session_name, "muster_proj");
    assert_eq!(
        args(&plan.new_session),
        vec!["new-session", "-d", "-s", "muster_proj", "-n", "Shell", "-c", "/h/p", "-e", "HOME=/h"]
    );
    assert_eq!(plan.cleanup_before.len(), 2);
    assert_eq!(args(&plan.cleanup_before[0]), vec!["set-environment", "-g", "-u", "CLAUDECODE"]);
    assert_eq!(plan.cleanup_after.len(), 4);
    assert_eq!(
        args(&plan.cleanup_after[1]),
        vec!["set-environment", "-t", "muster_proj", "-u", "CLAUDECODE"]
    );
    assert_eq!(plan.info.session_name, "muster_proj");
    assert_eq!(plan.info.display_name, "My Proj");
    assert_eq!(plan.info.profile_id.as_deref(), Some("proj"));
    assert_eq!(plan.info.window_count, 2);
    assert!(!plan.info.attached);
    assert_eq!(plan.batch.last().unwrap(), "select-window -t muster_proj:0");
}

#[test]
fn launch_plan_without_tabs_uses_shell_tab() {
    let client = TmuxClient::with_path("tmux".into());
    let mut p = profile();
    p.tabs.clear();
    let plan = plan_launch(&client, &p, None, &[], None, "muster").unwrap();
    assert_eq!(
        args(&plan.new_session),
        vec!["new-session", "-d", "-s", "muster_proj", "-n", "Shell", "-c", "/tmp"]
    );
    assert_eq!(plan.info.window_count, 1);
    assert!(plan.batch.contains(&"set-window-option -t muster_proj:0 @muster_tab_name 'Shell'".to_string()));
}

#[test]
fn destroy_and_window_queries() {
    let client = TmuxClient::with_path("tmux".into());
    assert_eq!(args(&destroy(&client, "muster_x")), vec!["kill-session", "-t", "muster_x"]);
    let q = get_windows(&client, "muster_x");
    assert_eq!(args(&q)[..3], ["list-windows", "-t", "muster_x"]);
}

#[test]
fn session_names_are_tried_prefixed_first() {
    assert_eq!(session_candidates("work"), vec!["muster_work", "work"]);
    assert_eq!(session_candidates("muster_work"), vec!["muster_muster_work", "muster_work"]);
}
