use muster::notify::{attach_line_of, click_commands, open_terminal};

#[test]
fn click_selects_window_then_opens_ghostty() {
    let cmds = click_commands("muster_work", Some("Server"), "ghostty", "/opt/homebrew/bin/tmux");
    assert_eq!(cmds.len(), 2);
    assert_eq!(
        cmds[0],
        vec!["/opt/homebrew/bin/tmux", "select-window", "-t", "muster_work:=Server"]
    );
    assert_eq!(
        cmds[1],
        vec![
            "open",
            "-na",
            "Ghostty.app",
            "--args",
            "--quit-after-last-window-closed=true",
            "--command=/opt/homebrew/bin/tmux attach -t muster_work",
        ]
    );
}

#[test]
fn click_without_window_only_opens_terminal() {
    let cmds = click_commands("s", None, "kitty", "tmux");
    assert_eq!(cmds, vec![vec!["open", "-na", "Kitty.app", "--args", "tmux", "attach", "-t", "s"]]);
}

#[test]
fn terminals_open_through_their_apps() {
    assert_eq!(
        open_terminal("alacritty", "tmux", "s"),
        vec!["open", "-na", "Alacritty.app", "--args", "-e", "tmux", "attach", "-t", "s"]
    );
    assert_eq!(
        open_terminal("wezterm", "tmux", "s"),
        vec!["open", "-na", "WezTerm.app", "--args", "start", "--", "tmux", "attach", "-t", "s"]
    );
}

#[test]
fn other_terminals_use_applescript() {
    let script = "tell application \"iTerm\"\nactivate\ndo script \"tmux attach -t s\"\nend tell";
    assert_eq!(open_terminal("iterm2", "tmux", "s"), vec!["osascript", "-e", script]);
    assert_eq!(open_terminal("iterm", "tmux", "s"), vec!["osascript", "-e", script]);
    let t = open_terminal("terminal", "tmux", "s");
    assert_eq!(t[2], "tell application \"Terminal\"\nactivate\ndo script \"tmux attach -t s\"\nend tell");
    let h = open_terminal("Hyper", "tmux", "s");
    assert_eq!(h[2], "tell application \"Hyper\"\nactivate\ndo script \"tmux attach -t s\"\nend tell");
    assert_eq!(attach_line_of("tmux", "s"), "tmux attach -t s");
}
