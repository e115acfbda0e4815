use muster::emulator::{EmulatorHandle, GhosttyEmulator};

#[test]
fn test_ghostty_attach_command() {
    let emu = GhosttyEmulator::new();
    let cmd = emu.attach_command("muster_test123");

    assert_eq!(cmd[0], "open");
    assert_eq!(cmd[1], "-na");
    assert_eq!(cmd[2], "Ghostty.app");
    assert!(cmd.contains(&"tmux".to_string()));
    assert!(cmd.contains(&"attach".to_string()));
    assert!(cmd.contains(&"muster_test123".to_string()));
}

#[test]
fn attach_command_exact() {
    let cmd = GhosttyEmulator::default().attach_command("s");
    assert_eq!(
        cmd,
        vec!["open", "-na", "Ghostty.app", "--args", "-e", "tmux", "attach", "-t", "s"]
    );
}

#[test]
fn running_window_detection() {
    let emu = GhosttyEmulator::new();
    let ps = "USER PID COMMAND\nme 1 /Applications/Ghostty.app/Contents/MacOS/ghostty -e tmux attach -t muster_a\nme 2 Ghostty helper\r\n";
    assert!(emu.is_running_in(ps, "muster_a"));
    assert!(!emu.is_running_in(ps, "muster_b"));
    assert!(!emu.is_running_in("", "muster_a"));
    let handle = EmulatorHandle { pid: Some(12345) };
    assert_eq!(handle.pid, Some(12345));
}
