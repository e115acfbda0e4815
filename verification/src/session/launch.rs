//! The tmux command batch that builds a session from a profile: windows, panes,
//! startup commands, metadata, pin marks, notification hooks and theme.
use vstd::prelude::*;

use crate::config::profile::{PaneView, Profile, ProfileView, TabProfile, TabView};
use crate::error::Error;
use crate::session::theme::{
    build_launch_theme_commands, launch_theme_lines, resolved_color_of,
    theme_of,
};
use crate::text::{
    append_decimal, append_str, chars_of, decimal, eq_chars, has_prefix, owned, string_of, sub_vec,
};
use crate::tmux::client::{
    brace_quoted, command_of, env_args, list_windows_args, quote_tmux, quote_tmux_cmd, quoted,
    opt_view, shell_arg, vars_view, TmuxClient, TmuxCommand, SESSION_PREFIX,
};
use crate::tmux::types::{SessionInfo, SessionInfoView};

verus! {

// ---------------------------------------------------------------------------
// Home directory
// ---------------------------------------------------------------------------

/// `dirs::home_dir`: the current user's home directory (from `$HOME`, or the
/// user database when that is unset or empty), displayed as text. Which
/// directory it is depends on the environment; the contract only repeats the
/// documented fact that an empty home directory is reported as none.
#[verifier::external_body]
pub(crate) fn home_dir() -> (r: Option<String>)
    ensures
        r matches Some(h) ==> h@.len() > 0,
{
    dirs::home_dir().map(|p| p.display().to_string())
}

/// A home directory as `dirs::home_dir` reports it: none, or a non-empty path.
pub open spec fn nonempty_home(home: Option<Seq<char>>) -> bool {
    home matches Some(h) ==> h.len() > 0
}

/// A path with a leading `~` expanded against `home` (when there is one):
/// `~/rest` becomes `home/rest`, `~` becomes `home`, anything else is unchanged.
pub open spec fn expand_tilde_of(path: Seq<char>, home: Option<Seq<char>>) -> Seq<char> {
    if has_prefix(path, seq!['~', '/']) {
        match home {
            Some(h) => h + seq!['/'] + path.skip(2),
            None => path,
        }
    } else if path == seq!['~'] {
        match home {
            Some(h) => h,
            None => path,
        }
    } else {
        path
    }
}

/// Expand a leading `~` in `path` against the home directory `home`.
pub fn expand_tilde_with(path: &str, home: Option<&str>) -> (r: String)
    ensures
        r@ == expand_tilde_of(path@, match home {
            Some(h) => Some(h@),
            None => None,
        }),
{
    let v = chars_of(path);
    let mut prefix: Vec<char> = Vec::new();
    prefix.push('~');
    prefix.push('/');
    if crate::text::starts_with(v.as_slice(), prefix.as_slice()) {
        match home {
            Some(h) => {
                let mut out = chars_of(h);
                out.push('/');
                let rest = sub_vec(v.as_slice(), 2, v.len());
                crate::text::append_chars(&mut out, rest.as_slice());
                assert(rest@ =~= path@.skip(2));
                assert(prefix@ =~= seq!['~', '/']);
                string_of(out.as_slice())
            },
            None => {
                assert(prefix@ =~= seq!['~', '/']);
                owned(path)
            },
        }
    } else {
        assert(prefix@ =~= seq!['~', '/']);
        let mut tilde: Vec<char> = Vec::new();
        tilde.push('~');
        assert(tilde@ =~= seq!['~']);
        if eq_chars(v.as_slice(), tilde.as_slice()) {
            match home {
                Some(h) => owned(h),
                None => owned(path),
            }
        } else {
            owned(path)
        }
    }
}

/// Expand a leading `~` to the user's home directory.
///
/// tmux does not properly expand `~/path` in `-c` arguments, so it is expanded
/// here against whatever home directory the environment gives.
pub fn expand_tilde(path: &str) -> (r: String)
    ensures
        exists|home: Option<Seq<char>>|
            nonempty_home(home) && r@ == #[trigger] expand_tilde_of(path@, home),
{
    let home = home_dir();
    let r = match &home {
        Some(h) => expand_tilde_with(path, Some(h.as_str())),
        None => expand_tilde_with(path, None),
    };
    proof {
        let hv = match home {
            Some(h) => Some(h@),
            None => None,
        };
        assert(nonempty_home(hv));
        assert(r@ == expand_tilde_of(path@, hv));
    }
    r
}

/// The shell for new panes: an explicit, non-empty setting first, else the
/// non-empty value of `$SHELL` (passed in as `env_shell`), else none.
pub open spec fn resolve_shell_of(setting: Option<Seq<char>>, env_shell: Option<Seq<char>>) -> Option<
    Seq<char>,
> {
    match setting {
        Some(sh) if sh.len() > 0 => Some(sh),
        _ => match env_shell {
            Some(e) if e.len() > 0 => Some(e),
            _ => None,
        },
    }
}

/// Resolve the shell to use for new tmux panes from the shell setting and the
/// value of `$SHELL`.
pub fn resolve_shell(shell_setting: Option<&str>, env_shell: Option<String>) -> (r: Option<String>)
    ensures
        match r {
            Some(s) => resolve_shell_of(
                match shell_setting {
                    Some(x) => Some(x@),
                    None => None,
                },
                match env_shell {
                    Some(e) => Some(e@),
                    None => None,
                },
            ) == Some(s@),
            None => resolve_shell_of(
                match shell_setting {
                    Some(x) => Some(x@),
                    None => None,
                },
                match env_shell {
                    Some(e) => Some(e@),
                    None => None,
                },
            ) is None,
        },
{
    if let Some(sh) = shell_setting {
        if !sh.is_empty() {
            return Some(owned(sh));
        }
    }
    match env_shell {
        Some(e) => if e.as_str().is_empty() {
            None
        } else {
            Some(e)
        },
        None => None,
    }
}

// ---------------------------------------------------------------------------
// Per-window pane setup
// ---------------------------------------------------------------------------

/// `session:window`.
pub open spec fn win_target(session: Seq<char>, window: nat) -> Seq<char> {
    session + seq![':'] + decimal(window)
}

/// `session:window.pane`.
pub open spec fn pane_target(session: Seq<char>, window: nat, pane: nat) -> Seq<char> {
    win_target(session, window) + seq!['.'] + decimal(pane)
}

/// `send-keys -t <target> '<keys>' Enter`.
pub open spec fn send_keys_line(target: Seq<char>, keys: Seq<char>) -> Seq<char> {
    "send-keys -t "@ + target + seq![' '] + quoted(keys) + " Enter"@
}

/// ` '<shell>'` when a shell is given.
pub open spec fn shell_suffix(shell: Option<Seq<char>>) -> Seq<char> {
    match shell {
        Some(sh) => seq![' '] + quoted(sh),
        None => seq![],
    }
}

/// `split-window` for each pane after the first, in the pane's directory (the
/// tab's when it has none).
pub open spec fn split_lines(
    session: Seq<char>,
    window: nat,
    tab: TabView,
    shell: Option<Seq<char>>,
    home: Option<Seq<char>>,
    n: nat,
) -> Seq<Seq<char>>
    decreases n,
{
    if n <= 1 {
        seq![]
    } else {
        let pane = tab.panes[n - 1];
        let raw = match pane.cwd {
            Some(c) => c,
            None => tab.cwd,
        };
        split_lines(session, window, tab, shell, home, (n - 1) as nat) + seq![
            "split-window -t "@ + win_target(session, window) + " -c "@ + quoted(
                expand_tilde_of(raw, home),
            ) + shell_suffix(shell),
        ]
    }
}

/// The startup lines of panes `0..n`: a `cd` for the first pane when its
/// directory differs from the tab's, then each pane's command.
pub open spec fn pane_command_lines(
    session: Seq<char>,
    window: nat,
    tab: TabView,
    home: Option<Seq<char>>,
    n: nat,
) -> Seq<Seq<char>>
    decreases n,
{
    if n == 0 {
        seq![]
    } else {
        let idx = (n - 1) as nat;
        let pane = tab.panes[idx as int];
        let target = pane_target(session, window, idx);
        let cd = if idx == 0 && pane.cwd is Some && pane.cwd.unwrap() != tab.cwd {
            seq![send_keys_line(target, "cd "@ + expand_tilde_of(pane.cwd.unwrap(), home))]
        } else {
            seq![]
        };
        let cmd = match pane.command {
            Some(c) => seq![send_keys_line(target, c)],
            None => seq![],
        };
        pane_command_lines(session, window, tab, home, idx) + cd + cmd
    }
}

/// The pane setup of one window: for a tab without panes, its command sent to
/// the window; otherwise the splits, the layout, and each pane's startup lines.
pub open spec fn window_pane_lines(
    session: Seq<char>,
    window: nat,
    tab: TabView,
    shell: Option<Seq<char>>,
    home: Option<Seq<char>>,
) -> Seq<Seq<char>> {
    if tab.panes.len() == 0 {
        match tab.command {
            Some(c) => seq![send_keys_line(win_target(session, window), c)],
            None => seq![],
        }
    } else {
        split_lines(session, window, tab, shell, home, tab.panes.len())
            + match tab.layout {
            Some(l) => seq!["select-layout -t "@ + win_target(session, window) + seq![' '] + quoted(l)],
            None => seq![],
        } + pane_command_lines(session, window, tab, home, tab.panes.len())
    }
}

fn push_line(v: &mut Vec<String>, s: String)
    ensures
        final(v)@.map_values(|x: String| x@) == old(v)@.map_values(|x: String| x@).push(s@),
{
    let ghost before = v@;
    let ghost sv = s@;
    v.push(s);
    assert(v@.map_values(|x: String| x@) =~= before.map_values(|x: String| x@).push(sv));
}

fn append_target(out: &mut Vec<char>, session: &str, window: u32)
    ensures
        final(out)@ == old(out)@ + win_target(session@, window as nat),
{
    let ghost start = out@;
    append_str(out, session);
    out.push(':');
    append_decimal(out, window as u64);
    assert(out@ =~= start + win_target(session@, window as nat));
}

fn send_keys_text(target: &[char], keys: &str) -> (r: String)
    ensures
        r@ == send_keys_line(target@, keys@),
{
    let mut out: Vec<char> = Vec::new();
    append_str(&mut out, "send-keys -t ");
    crate::text::append_chars(&mut out, target);
    out.push(' ');
    let q = quote_tmux(keys);
    append_str(&mut out, q.as_str());
    append_str(&mut out, " Enter");
    assert(out@ =~= send_keys_line(target@, keys@));
    string_of(out.as_slice())
}

fn shell_suffix_into(out: &mut Vec<char>, shell: Option<&str>)
    ensures
        final(out)@ == old(out)@ + shell_suffix(opt_view(shell)),
{
    let ghost start = out@;
    if let Some(sh) = shell {
        out.push(' ');
        let q = quote_tmux(sh);
        append_str(out, q.as_str());
        assert(out@ =~= start + shell_suffix(opt_view(shell)));
    } else {
        assert(out@ =~= start + shell_suffix(opt_view(shell)));
    }
}

/// Build tmux command strings for pane setup within a window.
///
/// If the tab has panes defined, emits split-window, select-layout, and
/// send-keys commands. Otherwise, emits a single send-keys for the tab command.
pub fn build_window_pane_commands(
    session_name: &str,
    window_index: u32,
    tab: &TabProfile,
    shell: Option<&str>,
    home: Option<&str>,
) -> (r: Vec<String>)
    ensures
        r@.map_values(|x: String| x@) == window_pane_lines(
            session_name@,
            window_index as nat,
            tab@,
            opt_view(shell),
            opt_view(home),
        ),
{
    let ghost tv = tab@;
    let ghost sh = opt_view(shell);
    let ghost hm = opt_view(home);
    let mut commands: Vec<String> = Vec::new();
    if tab.panes.len() == 0 {
        if let Some(cmd) = &tab.command {
            let mut t: Vec<char> = Vec::new();
            append_target(&mut t, session_name, window_index);
            push_line(&mut commands, send_keys_text(t.as_slice(), cmd.as_str()));
        }
        assert(commands@.map_values(|x: String| x@) =~= window_pane_lines(
            session_name@,
            window_index as nat,
            tv,
            sh,
            hm,
        ));
        return commands;
    }
    let mut i: usize = 1;
    assert(commands@.map_values(|x: String| x@) =~= split_lines(
        session_name@,
        window_index as nat,
        tv,
        sh,
        hm,
        1,
    ));
    while i < tab.panes.len()
        invariant
            1 <= i <= tab.panes@.len(),
            tv == tab@,
            sh == opt_view(shell),
            hm == opt_view(home),
            commands@.map_values(|x: String| x@) == split_lines(
                session_name@,
                window_index as nat,
                tv,
                sh,
                hm,
                i as nat,
            ),
        decreases tab.panes@.len() - i,
    {
        let pane = &tab.panes[i];
        assert(tv.panes[i as int] == pane@);
        let raw: &str = match &pane.cwd {
            Some(c) => c.as_str(),
            None => tab.cwd.as_str(),
        };
        let cwd = expand_tilde_with(raw, home);
        let mut line: Vec<char> = Vec::new();
        append_str(&mut line, "split-window -t ");
        append_target(&mut line, session_name, window_index);
        append_str(&mut line, " -c ");
        let q = quote_tmux(cwd.as_str());
        append_str(&mut line, q.as_str());
        shell_suffix_into(&mut line, shell);
        push_line(&mut commands, string_of(line.as_slice()));
        assert(commands@.map_values(|x: String| x@) =~= split_lines(
            session_name@,
            window_index as nat,
            tv,
            sh,
            hm,
            (i + 1) as nat,
        ));
        i = i + 1;
    }
    let ghost after_splits = commands@.map_values(|x: String| x@);
    if let Some(layout) = &tab.layout {
        let mut line: Vec<char> = Vec::new();
        append_str(&mut line, "select-layout -t ");
        append_target(&mut line, session_name, window_index);
        line.push(' ');
        let q = quote_tmux(layout.as_str());
        append_str(&mut line, q.as_str());
        assert(line@ =~= "select-layout -t "@ + win_target(session_name@, window_index as nat)
            + seq![' '] + quoted(layout@));
        assert(tv.layout == Some(layout@));
        push_line(&mut commands, string_of(line.as_slice()));
    }
    let ghost head = commands@.map_values(|x: String| x@);
    assert(head =~= after_splits + match tv.layout {
        Some(l) => seq![
            "select-layout -t "@ + win_target(session_name@, window_index as nat) + seq![' ']
                + quoted(l),
        ],
        None => seq![],
    });
    let mut p: usize = 0;
    while p < tab.panes.len()
        invariant
            p <= tab.panes@.len(),
            tv == tab@,
            hm == opt_view(home),
            commands@.map_values(|x: String| x@) == head + pane_command_lines(
                session_name@,
                window_index as nat,
                tv,
                hm,
                p as nat,
            ),
        decreases tab.panes@.len() - p,
    {
        let pane = &tab.panes[p];
        assert(tv.panes[p as int] == pane@);
        let mut target: Vec<char> = Vec::new();
        append_target(&mut target, session_name, window_index);
        target.push('.');
        append_decimal(&mut target, p as u64);
        assert(target@ =~= pane_target(session_name@, window_index as nat, p as nat));
        if p == 0 {
            if let Some(pane_cwd) = &pane.cwd {
                let pc = chars_of(pane_cwd.as_str());
                let tc = chars_of(tab.cwd.as_str());
                if !eq_chars(pc.as_slice(), tc.as_slice()) {
                    let resolved = expand_tilde_with(pane_cwd.as_str(), home);
                    let mut cd: Vec<char> = Vec::new();
                    append_str(&mut cd, "cd ");
                    append_str(&mut cd, resolved.as_str());
                    let cds = string_of(cd.as_slice());
                    push_line(&mut commands, send_keys_text(target.as_slice(), cds.as_str()));
                }
            }
        }
        if let Some(cmd) = &pane.command {
            push_line(&mut commands, send_keys_text(target.as_slice(), cmd.as_str()));
        }
        assert(commands@.map_values(|x: String| x@) =~= head + pane_command_lines(
            session_name@,
            window_index as nat,
            tv,
            hm,
            (p + 1) as nat,
        ));
        p = p + 1;
    }
    commands
}

// ---------------------------------------------------------------------------
// Notification hooks
// ---------------------------------------------------------------------------

/// The command run when a pane's process exits.
pub open spec fn pane_died_hook_of() -> Seq<char> {
    "run-shell -b \"muster _pane-died #{session_name} '#{window_name}' #{pane_id} #{pane_dead_status}\""@
}

/// The command run when a bell rings in a pane.
pub open spec fn bell_hook_of() -> Seq<char> {
    "run-shell -b \"muster _bell #{session_name} '#{window_name}'\""@
}

/// Per-window `remain-on-exit on` and `pane-died` hook for windows `0..n`.
pub open spec fn window_hook_lines(session: Seq<char>, n: nat) -> Seq<Seq<char>>
    decreases n,
{
    if n == 0 {
        seq![]
    } else {
        let t = win_target(session, (n - 1) as nat);
        window_hook_lines(session, (n - 1) as nat) + seq![
            "set-option -w -t "@ + t + " remain-on-exit on"@,
            "set-hook -w -t "@ + t + " pane-died "@ + brace_quoted(pane_died_hook_of()),
        ]
    }
}

/// The notification hooks of a session with `window_count` windows.
pub open spec fn hook_lines_of(session: Seq<char>, window_count: nat) -> Seq<Seq<char>> {
    window_hook_lines(session, window_count) + seq![
        "set-hook -t "@ + session + " alert-bell "@ + brace_quoted(bell_hook_of()),
    ]
}

fn usize_target(out: &mut Vec<char>, session: &str, window: usize)
    ensures
        final(out)@ == old(out)@ + win_target(session@, window as nat),
{
    let ghost start = out@;
    append_str(out, session);
    out.push(':');
    append_decimal(out, window as u64);
    assert(out@ =~= start + win_target(session@, window as nat));
}

/// Build tmux command strings for session notification hooks.
///
/// Produces per-window `remain-on-exit on` and `pane-died` hooks, plus a
/// session-level `alert-bell` hook.
pub fn build_hook_commands(session_name: &str, window_count: usize) -> (r: Vec<String>)
    ensures
        r@.map_values(|x: String| x@) == hook_lines_of(session_name@, window_count as nat),
{
    let died = quote_tmux_cmd(
        "run-shell -b \"muster _pane-died #{session_name} '#{window_name}' #{pane_id} #{pane_dead_status}\"",
    );
    let mut commands: Vec<String> = Vec::new();
    let mut i: usize = 0;
    assert(commands@.map_values(|x: String| x@) =~= window_hook_lines(session_name@, 0));
    while i < window_count
        invariant
            i <= window_count,
            died@ == brace_quoted(pane_died_hook_of()),
            commands@.map_values(|x: String| x@) == window_hook_lines(session_name@, i as nat),
        decreases window_count - i,
    {
        let mut a: Vec<char> = Vec::new();
        append_str(&mut a, "set-option -w -t ");
        usize_target(&mut a, session_name, i);
        append_str(&mut a, " remain-on-exit on");
        push_line(&mut commands, string_of(a.as_slice()));
        let mut b: Vec<char> = Vec::new();
        append_str(&mut b, "set-hook -w -t ");
        usize_target(&mut b, session_name, i);
        append_str(&mut b, " pane-died ");
        append_str(&mut b, died.as_str());
        push_line(&mut commands, string_of(b.as_slice()));
        assert(commands@.map_values(|x: String| x@) =~= window_hook_lines(
            session_name@,
            (i + 1) as nat,
        ));
        i = i + 1;
    }
    let bell = quote_tmux_cmd("run-shell -b \"muster _bell #{session_name} '#{window_name}'\"");
    let mut c: Vec<char> = Vec::new();
    append_str(&mut c, "set-hook -t ");
    append_str(&mut c, session_name);
    append_str(&mut c, " alert-bell ");
    append_str(&mut c, bell.as_str());
    push_line(&mut commands, string_of(c.as_slice()));
    assert(commands@.map_values(|x: String| x@) =~= hook_lines_of(
        session_name@,
        window_count as nat,
    ));
    commands
}

// ---------------------------------------------------------------------------
// The launch batch
// ---------------------------------------------------------------------------

/// The tab used when a profile has none: `Shell` in `/tmp`.
pub open spec fn default_tab() -> TabView {
    TabView { name: "Shell"@, cwd: "/tmp"@, command: None, layout: None, panes: seq![] }
}

/// The first tab of a profile, or the default tab.
pub open spec fn first_tab_of(p: ProfileView) -> TabView {
    if p.tabs.len() > 0 {
        p.tabs[0]
    } else {
        default_tab()
    }
}

/// The number of windows a profile's session has: its tabs, at least one.
pub open spec fn window_count_of(p: ProfileView) -> nat {
    if p.tabs.len() > 0 {
        p.tabs.len()
    } else {
        1
    }
}

/// The tmux window index of tab `i`: `i` when it fits in a `u32`, else 0.
pub open spec fn tab_index(i: nat) -> nat {
    if i <= u32::MAX {
        i
    } else {
        0
    }
}

/// `new-window` for tab `tab` of a session.
pub open spec fn new_window_line(
    session: Seq<char>,
    tab: TabView,
    shell: Option<Seq<char>>,
    home: Option<Seq<char>>,
) -> Seq<char> {
    "new-window -t "@ + session + " -n "@ + quoted(tab.name) + " -c "@ + quoted(
        expand_tilde_of(tab.cwd, home),
    ) + shell_suffix(shell)
}

/// The windows of tabs `1..n`, each created and then set up.
pub open spec fn extra_window_lines(
    session: Seq<char>,
    tabs: Seq<TabView>,
    shell: Option<Seq<char>>,
    home: Option<Seq<char>>,
    n: nat,
) -> Seq<Seq<char>>
    decreases n,
{
    if n <= 1 {
        seq![]
    } else {
        let i = (n - 1) as nat;
        extra_window_lines(session, tabs, shell, home, i) + seq![
            new_window_line(session, tabs[i as int], shell, home),
        ] + window_pane_lines(session, tab_index(i), tabs[i as int], shell, home)
    }
}

/// `set-option -t <session> <key> '<value>'`.
pub open spec fn option_line(session: Seq<char>, key: Seq<char>, value: Seq<char>) -> Seq<char> {
    "set-option -t "@ + session + seq![' '] + key + seq![' '] + quoted(value)
}

/// The session metadata: display name, colour and profile.
pub open spec fn metadata_lines(session: Seq<char>, p: ProfileView) -> Seq<Seq<char>> {
    seq![
        option_line(session, "@muster_name"@, p.name),
        option_line(session, "@muster_color"@, p.color),
        option_line(session, "@muster_profile"@, p.id),
    ]
}

/// The pin mark and tab name of window `i`.
pub open spec fn pin_window_lines(session: Seq<char>, i: nat, name: Seq<char>) -> Seq<Seq<char>> {
    seq![
        "set-window-option -t "@ + win_target(session, i) + " @muster_pinned 1"@,
        "set-window-option -t "@ + win_target(session, i) + " @muster_tab_name "@ + quoted(name),
    ]
}

/// Pin marks for tabs `0..n`.
pub open spec fn pin_lines(session: Seq<char>, tabs: Seq<TabView>, n: nat) -> Seq<Seq<char>>
    decreases n,
{
    if n == 0 {
        seq![]
    } else {
        pin_lines(session, tabs, (n - 1) as nat) + pin_window_lines(
            session,
            (n - 1) as nat,
            tabs[n - 1].name,
        )
    }
}

/// `set-option -t <session> default-command '<shell>'` when a shell is given.
pub open spec fn default_command_lines(session: Seq<char>, shell: Option<Seq<char>>) -> Seq<
    Seq<char>,
> {
    match shell {
        Some(sh) => seq![option_line(session, "default-command"@, sh)],
        None => seq![],
    }
}

/// The part of a launch batch that does not depend on the theme: the default
/// shell, the first window's panes, the other windows, the metadata, the pin
/// marks and the notification hooks.
pub open spec fn launch_setup_lines(
    session: Seq<char>,
    p: ProfileView,
    shell: Option<Seq<char>>,
    home: Option<Seq<char>>,
) -> Seq<Seq<char>> {
    default_command_lines(session, shell) + window_pane_lines(
        session,
        0,
        first_tab_of(p),
        shell,
        home,
    ) + extra_window_lines(session, p.tabs, shell, home, p.tabs.len()) + metadata_lines(
        session,
        p,
    ) + (if p.tabs.len() > 0 {
        pin_lines(session, p.tabs, p.tabs.len())
    } else {
        pin_window_lines(session, 0, "Shell"@)
    }) + hook_lines_of(session, window_count_of(p))
}

/// Everything run after `new-session` when a session is created from profile
/// `p`: the setup lines, the theme, and a final switch to window 0; or the
/// invalid-colour message.
pub open spec fn launch_lines_of(
    session: Seq<char>,
    p: ProfileView,
    shell: Option<Seq<char>>,
    home: Option<Seq<char>>,
    muster_bin: Seq<char>,
) -> Result<Seq<Seq<char>>, Seq<char>> {
    match resolved_color_of(p.color) {
        Err(m) => Err(m),
        Ok(h) => match theme_of(h, p.name) {
            None => Err(seq![]),
            Some(tv) => Ok(
                launch_setup_lines(session, p, shell, home) + launch_theme_lines(
                    session,
                    tv,
                    window_count_of(p),
                    muster_bin,
                ) + seq!["select-window -t "@ + win_target(session, 0)],
            ),
        },
    }
}

fn append_lines(a: &mut Vec<String>, b: Vec<String>)
    ensures
        final(a)@.map_values(|x: String| x@) == old(a)@.map_values(|x: String| x@) + b@.map_values(
            |x: String| x@,
        ),
{
    let ghost start = a@.map_values(|x: String| x@);
    let ghost bv = b@.map_values(|x: String| x@);
    let mut i: usize = 0;
    while i < b.len()
        invariant
            i <= b@.len(),
            bv == b@.map_values(|x: String| x@),
            a@.map_values(|x: String| x@) == start + bv.take(i as int),
        decreases b@.len() - i,
    {
        push_line(a, owned(b[i].as_str()));
        assert(start + bv.take(i as int) + seq![bv[i as int]] =~= start + bv.take(i + 1));
        i = i + 1;
    }
    assert(bv.take(b@.len() as int) =~= bv);
}

fn option_text(session: &str, key: &str, value: &str) -> (r: String)
    ensures
        r@ == option_line(session@, key@, value@),
{
    let mut out: Vec<char> = Vec::new();
    append_str(&mut out, "set-option -t ");
    append_str(&mut out, session);
    out.push(' ');
    append_str(&mut out, key);
    out.push(' ');
    let q = quote_tmux(value);
    append_str(&mut out, q.as_str());
    assert(out@ =~= option_line(session@, key@, value@));
    string_of(out.as_slice())
}

fn pin_texts(commands: &mut Vec<String>, session: &str, i: usize, name: &str)
    ensures
        final(commands)@.map_values(|x: String| x@) == old(commands)@.map_values(|x: String| x@)
            + pin_window_lines(session@, i as nat, name@),
{
    let ghost start = commands@.map_values(|x: String| x@);
    let mut a: Vec<char> = Vec::new();
    append_str(&mut a, "set-window-option -t ");
    usize_target(&mut a, session, i);
    append_str(&mut a, " @muster_pinned 1");
    push_line(commands, string_of(a.as_slice()));
    let mut b: Vec<char> = Vec::new();
    append_str(&mut b, "set-window-option -t ");
    usize_target(&mut b, session, i);
    append_str(&mut b, " @muster_tab_name ");
    let q = quote_tmux(name);
    append_str(&mut b, q.as_str());
    push_line(commands, string_of(b.as_slice()));
    assert(commands@.map_values(|x: String| x@) =~= start + pin_window_lines(
        session@,
        i as nat,
        name@,
    ));
}

fn default_tab_value() -> (t: TabProfile)
    ensures
        t@ == default_tab(),
{
    let t = TabProfile {
        name: owned("Shell"),
        cwd: owned("/tmp"),
        command: None,
        layout: None,
        panes: Vec::new(),
    };
    assert(t@.panes =~= Seq::<PaneView>::empty());
    t
}

fn extra_windows(
    commands: &mut Vec<String>,
    session_name: &str,
    profile: &Profile,
    shell: Option<&str>,
    home: Option<&str>,
)
    ensures
        final(commands)@.map_values(|x: String| x@) == old(commands)@.map_values(|x: String| x@)
            + extra_window_lines(
            session_name@,
            profile@.tabs,
            opt_view(shell),
            opt_view(home),
            profile@.tabs.len(),
        ),
{
    let ghost start = commands@.map_values(|x: String| x@);
    let ghost tabs = profile@.tabs;
    let mut i: usize = 1;
    assert(commands@.map_values(|x: String| x@) =~= start + extra_window_lines(
        session_name@,
        tabs,
        opt_view(shell),
        opt_view(home),
        1,
    ));
    if profile.tabs.len() == 0 {
        assert(commands@.map_values(|x: String| x@) =~= start + extra_window_lines(
            session_name@,
            tabs,
            opt_view(shell),
            opt_view(home),
            0,
        ));
        return;
    }
    while i < profile.tabs.len()
        invariant
            1 <= i <= profile.tabs@.len(),
            tabs == profile@.tabs,
            commands@.map_values(|x: String| x@) == start + extra_window_lines(
                session_name@,
                tabs,
                opt_view(shell),
                opt_view(home),
                i as nat,
            ),
        decreases profile.tabs@.len() - i,
    {
        let tab = &profile.tabs[i];
        assert(tabs[i as int] == tab@);
        let index: u32 = if i <= 0xffff_ffff {
            i as u32
        } else {
            0
        };
        let cwd = expand_tilde_with(tab.cwd.as_str(), home);
        let mut line: Vec<char> = Vec::new();
        append_str(&mut line, "new-window -t ");
        append_str(&mut line, session_name);
        append_str(&mut line, " -n ");
        let qn = quote_tmux(tab.name.as_str());
        append_str(&mut line, qn.as_str());
        append_str(&mut line, " -c ");
        let qc = quote_tmux(cwd.as_str());
        append_str(&mut line, qc.as_str());
        shell_suffix_into(&mut line, shell);
        assert(line@ =~= new_window_line(
            session_name@,
            tab@,
            opt_view(shell),
            opt_view(home),
        ));
        push_line(commands, string_of(line.as_slice()));
        append_lines(commands, build_window_pane_commands(session_name, index, tab, shell, home));
        assert(commands@.map_values(|x: String| x@) =~= start + extra_window_lines(
            session_name@,
            tabs,
            opt_view(shell),
            opt_view(home),
            (i + 1) as nat,
        ));
        i = i + 1;
    }
}

fn pins(commands: &mut Vec<String>, session_name: &str, profile: &Profile)
    ensures
        final(commands)@.map_values(|x: String| x@) == old(commands)@.map_values(|x: String| x@)
            + (if profile@.tabs.len() > 0 {
            pin_lines(session_name@, profile@.tabs, profile@.tabs.len())
        } else {
            pin_window_lines(session_name@, 0, "Shell"@)
        }),
{
    let ghost start = commands@.map_values(|x: String| x@);
    let ghost tabs = profile@.tabs;
    let mut i: usize = 0;
    assert(commands@.map_values(|x: String| x@) =~= start + pin_lines(session_name@, tabs, 0));
    while i < profile.tabs.len()
        invariant
            i <= profile.tabs@.len(),
            tabs == profile@.tabs,
            commands@.map_values(|x: String| x@) == start + pin_lines(session_name@, tabs, i as nat),
        decreases profile.tabs@.len() - i,
    {
        assert(tabs[i as int] == profile.tabs@[i as int]@);
        pin_texts(commands, session_name, i, profile.tabs[i].name.as_str());
        assert(commands@.map_values(|x: String| x@) =~= start + pin_lines(
            session_name@,
            tabs,
            (i + 1) as nat,
        ));
        i = i + 1;
    }
    if profile.tabs.len() == 0 {
        pin_texts(commands, session_name, 0, "Shell");
    }
}

fn launch_setup(
    session_name: &str,
    profile: &Profile,
    shell: Option<&str>,
    home: Option<&str>,
) -> (commands: Vec<String>)
    ensures
        commands@.map_values(|x: String| x@) == launch_setup_lines(
            session_name@,
            profile@,
            opt_view(shell),
            opt_view(home),
        ),
{
    let mut commands: Vec<String> = Vec::new();
    let first_tab = if profile.tabs.len() > 0 {
        profile.tabs[0].duplicate()
    } else {
        default_tab_value()
    };
    if let Some(sh) = shell {
        push_line(&mut commands, option_text(session_name, "default-command", sh));
    }
    let ghost part1 = commands@.map_values(|x: String| x@);
    assert(part1 == default_command_lines(session_name@, opt_view(shell)));
    append_lines(
        &mut commands,
        build_window_pane_commands(session_name, 0, &first_tab, shell, home),
    );
    extra_windows(&mut commands, session_name, profile, shell, home);
    push_line(&mut commands, option_text(session_name, "@muster_name", profile.name.as_str()));
    push_line(&mut commands, option_text(session_name, "@muster_color", profile.color.as_str()));
    push_line(&mut commands, option_text(session_name, "@muster_profile", profile.id.as_str()));
    pins(&mut commands, session_name, profile);
    let window_count: usize = if profile.tabs.len() > 0 {
        profile.tabs.len()
    } else {
        1
    };
    append_lines(&mut commands, build_hook_commands(session_name, window_count));
    assert(commands@.map_values(|x: String| x@) =~= launch_setup_lines(
        session_name@,
        profile@,
        opt_view(shell),
        opt_view(home),
    ));
    commands
}

/// Build the complete list of tmux commands for a launch batch: everything
/// that runs after the initial `new-session` (see [`launch_lines_of`]).
pub fn build_launch_commands(
    session_name: &str,
    profile: &Profile,
    shell: Option<&str>,
    home: Option<&str>,
    muster_bin: &str,
) -> (r: Result<Vec<String>, Error>)
    ensures
        match launch_lines_of(
            session_name@,
            profile@,
            opt_view(shell),
            opt_view(home),
            muster_bin@,
        ) {
            Ok(lines) => r matches Ok(v) && v@.map_values(|x: String| x@) == lines,
            Err(m) => r matches Err(Error::InvalidColor(e)) && e@ == m,
        },
{
    let mut commands = launch_setup(session_name, profile, shell, home);
    let window_count: usize = if profile.tabs.len() > 0 {
        profile.tabs.len()
    } else {
        1
    };
    let theme = match build_launch_theme_commands(
        session_name,
        profile.color.as_str(),
        profile.name.as_str(),
        window_count,
        muster_bin,
    ) {
        Ok(t) => t,
        Err(e) => return Err(e),
    };
    append_lines(&mut commands, theme);
    let mut last: Vec<char> = Vec::new();
    append_str(&mut last, "select-window -t ");
    append_target(&mut last, session_name, 0);
    push_line(&mut commands, string_of(last.as_slice()));
    assert(commands@.map_values(|x: String| x@) =~= launch_lines_of(
        session_name@,
        profile@,
        opt_view(shell),
        opt_view(home),
        muster_bin@,
    )->Ok_0);
    Ok(commands)
}

// ---------------------------------------------------------------------------
// Creating a session from a profile
// ---------------------------------------------------------------------------

/// The tmux name of the session made from the profile with id `id`.
pub open spec fn session_name_of(id: Seq<char>) -> Seq<char> {
    "muster_"@ + id
}

/// The session names that `input` may refer to, in the order they are tried:
/// the managed session `muster_<input>`, then `input` itself.
pub open spec fn session_candidates_of(input: Seq<char>) -> Seq<Seq<char>> {
    seq![session_name_of(input), input]
}

/// The session names that `input` may refer to, in the order they are tried
/// (see [`session_candidates_of`]).
pub fn session_candidates(input: &str) -> (r: Vec<String>)
    ensures
        r@.map_values(|s: String| s@) == session_candidates_of(input@),
{
    let mut name: Vec<char> = Vec::new();
    append_str(&mut name, SESSION_PREFIX);
    append_str(&mut name, input);
    proof {
        reveal_strlit("muster_");
    }
    assert(name@ =~= session_name_of(input@));
    let mut r: Vec<String> = Vec::new();
    r.push(string_of(name.as_slice()));
    r.push(owned(input));
    assert(r@.map_values(|s: String| s@) =~= session_candidates_of(input@));
    r
}

/// `set-environment -g -u <var>`: drop `var` from the server's global environment.
pub open spec fn unset_global_args(var: Seq<char>) -> Seq<Seq<char>> {
    seq!["set-environment"@, "-g"@, "-u"@, var]
}

/// `set-environment -t <session> -u <var>`: drop `var` from a session's environment.
pub open spec fn unset_session_args(session: Seq<char>, var: Seq<char>) -> Seq<Seq<char>> {
    seq!["set-environment"@, "-t"@, session, "-u"@, var]
}

/// The variables a launched session must not inherit from the program that launched it.
pub open spec fn stripped_vars() -> Seq<Seq<char>> {
    seq!["CLAUDECODE"@, "CLAUDE_CODE_ENTRYPOINT"@]
}

/// The commands run before `new-session`: the stripped variables removed from
/// the global environment.
pub open spec fn cleanup_before_of() -> Seq<Seq<Seq<char>>> {
    seq![unset_global_args(stripped_vars()[0]), unset_global_args(stripped_vars()[1])]
}

/// The commands run after `new-session`: each stripped variable removed again
/// globally and from the new session.
pub open spec fn cleanup_after_of(session: Seq<char>) -> Seq<Seq<Seq<char>>> {
    seq![
        unset_global_args(stripped_vars()[0]),
        unset_session_args(session, stripped_vars()[0]),
        unset_global_args(stripped_vars()[1]),
        unset_session_args(session, stripped_vars()[1]),
    ]
}

/// The arguments of the `new-session` that creates the first window.
pub open spec fn first_session_args(
    session: Seq<char>,
    p: ProfileView,
    shell: Option<Seq<char>>,
    vars: Seq<(Seq<char>, Seq<char>)>,
    home: Option<Seq<char>>,
) -> Seq<Seq<char>> {
    seq![
        "new-session"@,
        "-d"@,
        "-s"@,
        session,
        "-n"@,
        first_tab_of(p).name,
        "-c"@,
        expand_tilde_of(first_tab_of(p).cwd, home),
    ] + env_args(vars) + shell_arg(shell)
}

/// The window count reported for a new session: the profile's tabs, at least
/// one, and 1 when that count does not fit in a `u32`.
pub open spec fn reported_window_count(p: ProfileView) -> u32 {
    if window_count_of(p) <= u32::MAX {
        window_count_of(p) as u32
    } else {
        1
    }
}

/// The steps that create a session from a profile, in the order they run:
/// `cleanup_before`, then `new_session` (which starts the server when none
/// runs), then `cleanup_after`, then `batch` as one `source-file`. `info`
/// describes the session once they have run.
pub struct LaunchPlan {
    pub session_name: String,
    pub cleanup_before: Vec<TmuxCommand>,
    pub new_session: TmuxCommand,
    pub cleanup_after: Vec<TmuxCommand>,
    pub batch: Vec<String>,
    pub info: SessionInfo,
}

/// The value of a [`LaunchPlan`].
pub struct LaunchPlanView {
    pub session_name: Seq<char>,
    pub cleanup_before: Seq<Seq<Seq<char>>>,
    pub new_session: Seq<Seq<char>>,
    pub cleanup_after: Seq<Seq<Seq<char>>>,
    pub batch: Seq<Seq<char>>,
    pub info: SessionInfoView,
}

impl View for LaunchPlan {
    type V = LaunchPlanView;

    open spec fn view(&self) -> LaunchPlanView {
        LaunchPlanView {
            session_name: self.session_name@,
            cleanup_before: self.cleanup_before@.map_values(|c: TmuxCommand| c@),
            new_session: self.new_session@,
            cleanup_after: self.cleanup_after@.map_values(|c: TmuxCommand| c@),
            batch: self.batch@.map_values(|x: String| x@),
            info: self.info@,
        }
    }
}

/// The plan that creates a session from profile `p`, or the message of an
/// invalid profile colour.
pub open spec fn launch_plan_of(
    p: ProfileView,
    shell: Option<Seq<char>>,
    vars: Seq<(Seq<char>, Seq<char>)>,
    home: Option<Seq<char>>,
    muster_bin: Seq<char>,
) -> Result<LaunchPlanView, Seq<char>> {
    let session = session_name_of(p.id);
    match launch_lines_of(session, p, shell, home, muster_bin) {
        Err(m) => Err(m),
        Ok(batch) => Ok(
            LaunchPlanView {
                session_name: session,
                cleanup_before: cleanup_before_of(),
                new_session: first_session_args(session, p, shell, vars, home),
                cleanup_after: cleanup_after_of(session),
                batch,
                info: SessionInfoView {
                    session_name: session,
                    display_name: p.name,
                    color: p.color,
                    profile_id: Some(p.id),
                    window_count: reported_window_count(p),
                    attached: false,
                },
            },
        ),
    }
}

fn unset_global(var: &str) -> (c: TmuxCommand)
    ensures
        c@ == unset_global_args(var@),
{
    let mut args: Vec<String> = Vec::new();
    push_line(&mut args, owned("set-environment"));
    push_line(&mut args, owned("-g"));
    push_line(&mut args, owned("-u"));
    push_line(&mut args, owned(var));
    let c = command_of(args);
    assert(c@ =~= unset_global_args(var@));
    c
}

fn unset_in_session(session: &str, var: &str) -> (c: TmuxCommand)
    ensures
        c@ == unset_session_args(session@, var@),
{
    let mut args: Vec<String> = Vec::new();
    push_line(&mut args, owned("set-environment"));
    push_line(&mut args, owned("-t"));
    push_line(&mut args, owned(session));
    push_line(&mut args, owned("-u"));
    push_line(&mut args, owned(var));
    let c = command_of(args);
    assert(c@ =~= unset_session_args(session@, var@));
    c
}

fn push_command(v: &mut Vec<TmuxCommand>, c: TmuxCommand)
    ensures
        final(v)@.map_values(|x: TmuxCommand| x@) == old(v)@.map_values(|x: TmuxCommand| x@).push(
            c@,
        ),
{
    let ghost before = v@;
    let ghost cv = c@;
    v.push(c);
    assert(v@.map_values(|x: TmuxCommand| x@) =~= before.map_values(|x: TmuxCommand| x@).push(
        cv,
    ));
}

/// Plan the creation of a session from `profile`, with the home directory
/// `home` for `~` and the caller's environment `vars` for the first window.
pub fn plan_launch(
    client: &TmuxClient,
    profile: &Profile,
    shell: Option<&str>,
    vars: &[(String, String)],
    home: Option<&str>,
    muster_bin: &str,
) -> (r: Result<LaunchPlan, Error>)
    ensures
        match launch_plan_of(
            profile@,
            opt_view(shell),
            vars_view(vars@),
            opt_view(home),
            muster_bin@,
        ) {
            Ok(plan) => r matches Ok(v) && v@ == plan,
            Err(m) => r matches Err(Error::InvalidColor(e)) && e@ == m,
        },
{
    let mut name: Vec<char> = Vec::new();
    append_str(&mut name, SESSION_PREFIX);
    append_str(&mut name, profile.id.as_str());
    proof {
        reveal_strlit("muster_");
    }
    assert(name@ =~= session_name_of(profile@.id));
    let session_name = string_of(name.as_slice());
    let batch = match build_launch_commands(session_name.as_str(), profile, shell, home, muster_bin) {
        Ok(b) => b,
        Err(e) => return Err(e),
    };
    let first_tab = if profile.tabs.len() > 0 {
        profile.tabs[0].duplicate()
    } else {
        default_tab_value()
    };
    let first_cwd = expand_tilde_with(first_tab.cwd.as_str(), home);
    let new_session = client.new_session(
        session_name.as_str(),
        first_tab.name.as_str(),
        first_cwd.as_str(),
        shell,
        vars,
    );
    let mut cleanup_before: Vec<TmuxCommand> = Vec::new();
    push_command(&mut cleanup_before, unset_global("CLAUDECODE"));
    push_command(&mut cleanup_before, unset_global("CLAUDE_CODE_ENTRYPOINT"));
    let mut cleanup_after: Vec<TmuxCommand> = Vec::new();
    push_command(&mut cleanup_after, unset_global("CLAUDECODE"));
    push_command(&mut cleanup_after, unset_in_session(session_name.as_str(), "CLAUDECODE"));
    push_command(&mut cleanup_after, unset_global("CLAUDE_CODE_ENTRYPOINT"));
    push_command(
        &mut cleanup_after,
        unset_in_session(session_name.as_str(), "CLAUDE_CODE_ENTRYPOINT"),
    );
    let count: usize = if profile.tabs.len() > 0 {
        profile.tabs.len()
    } else {
        1
    };
    let window_count: u32 = if count <= 0xffff_ffff {
        count as u32
    } else {
        1
    };
    let info = SessionInfo {
        session_name: owned(session_name.as_str()),
        display_name: owned(profile.name.as_str()),
        color: owned(profile.color.as_str()),
        profile_id: Some(owned(profile.id.as_str())),
        window_count,
        attached: false,
    };
    let plan = LaunchPlan { session_name, cleanup_before, new_session, cleanup_after, batch, info };
    proof {
        reveal_strlit("CLAUDECODE");
        reveal_strlit("CLAUDE_CODE_ENTRYPOINT");
    }
    assert(plan@.cleanup_before =~= cleanup_before_of());
    assert(plan@.cleanup_after =~= cleanup_after_of(session_name_of(profile@.id)));
    Ok(plan)
}

/// Create a tmux session from a profile: the plan of [`plan_launch`], with `~`
/// expanded against the home directory that the environment gives.
pub fn create_from_profile(
    client: &TmuxClient,
    profile: &Profile,
    shell: Option<&str>,
    vars: &[(String, String)],
    muster_bin: &str,
) -> (r: Result<LaunchPlan, Error>)
    ensures
        exists|home: Option<Seq<char>>|
            nonempty_home(home) && match #[trigger] launch_plan_of(
                profile@,
                opt_view(shell),
                vars_view(vars@),
                home,
                muster_bin@,
            ) {
                Ok(plan) => r matches Ok(v) && v@ == plan,
                Err(m) => r matches Err(Error::InvalidColor(e)) && e@ == m,
            },
{
    let home = home_dir();
    let r = match &home {
        Some(h) => plan_launch(client, profile, shell, vars, Some(h.as_str()), muster_bin),
        None => plan_launch(client, profile, shell, vars, None, muster_bin),
    };
    proof {
        let hv = match home {
            Some(h) => Some(h@),
            None => None,
        };
        assert(nonempty_home(hv));
        let _ = launch_plan_of(profile@, opt_view(shell), vars_view(vars@), hv, muster_bin@);
    }
    r
}

/// Destroy a tmux session: the `kill-session` command for it.
pub fn destroy(client: &TmuxClient, session_name: &str) -> (c: TmuxCommand)
    ensures
        c@ == seq!["kill-session"@, "-t"@, session_name@],
{
    client.kill_session(session_name)
}

/// The windows of a session: the `list-windows` query, whose output
/// [`TmuxClient::parse_window_list`] reads.
pub fn get_windows(client: &TmuxClient, session_name: &str) -> (c: TmuxCommand)
    ensures
        c@ == list_windows_args(session_name@),
{
    client.list_windows(session_name)
}


proof fn lemma_pin_lines(session: Seq<char>, tabs: Seq<TabView>, n: nat)
    requires
        n <= tabs.len(),
    ensures
        pin_lines(session, tabs, n).len() == 2 * n,
        forall|i: int|
            0 <= i < n ==> #[trigger] pin_lines(session, tabs, n)[2 * i] == "set-window-option -t "@
                + session + seq![':'] + decimal(i as nat) + " @muster_pinned 1"@,
        forall|i: int|
            0 <= i < n ==> #[trigger] pin_lines(session, tabs, n)[2 * i + 1]
                == "set-window-option -t "@ + session + seq![':'] + decimal(i as nat)
                + " @muster_tab_name "@ + quoted(tabs[i].name),
    decreases n,
{
    if n > 0 {
        lemma_pin_lines(session, tabs, (n - 1) as nat);
    }
}

/// The pin mark and the tab-name tag of window `i`.
pub open spec fn pin_mark_line(session: Seq<char>, i: nat) -> Seq<char> {
    "set-window-option -t "@ + session + seq![':'] + decimal(i) + " @muster_pinned 1"@
}

/// The tag naming window `i` after tab `name`.
pub open spec fn tab_name_line(session: Seq<char>, i: nat, name: Seq<char>) -> Seq<char> {
    "set-window-option -t "@ + session + seq![':'] + decimal(i) + " @muster_tab_name "@ + quoted(
        name,
    )
}

proof fn lemma_pin_at(
    lines: Seq<Seq<char>>,
    x: Seq<Seq<char>>,
    rest: Seq<Seq<char>>,
    session: Seq<char>,
    tabs: Seq<TabView>,
    i: int,
)
    requires
        lines == x + pin_lines(session, tabs, tabs.len()) + rest,
        0 <= i < tabs.len(),
    ensures
        lines.contains(pin_mark_line(session, i as nat)),
        lines.contains(tab_name_line(session, i as nat, tabs[i].name)),
{
    let pl = pin_lines(session, tabs, tabs.len());
    lemma_pin_lines(session, tabs, tabs.len());
    assert(pl[2 * i] == pin_mark_line(session, i as nat));
    assert(pl[2 * i + 1] == tab_name_line(session, i as nat, tabs[i].name));
    assert(lines[x.len() + 2 * i] == pl[2 * i]);
    assert(lines[x.len() + 2 * i + 1] == pl[2 * i + 1]);
}

/// Every tab of a launched profile gets its own window marked: window `i` is
/// pinned (`@muster_pinned 1`) and tagged with the name of tab `i`
/// (`@muster_tab_name`), for each tab of the profile.
pub proof fn lemma_launch_tags_each_tab(
    session: Seq<char>,
    p: ProfileView,
    shell: Option<Seq<char>>,
    home: Option<Seq<char>>,
    muster_bin: Seq<char>,
)
    ensures
        launch_lines_of(session, p, shell, home, muster_bin) matches Ok(lines) ==> forall|i: int|
            #![trigger p.tabs[i]]
            0 <= i < p.tabs.len() ==> lines.contains(pin_mark_line(session, i as nat))
                && lines.contains(tab_name_line(session, i as nat, p.tabs[i].name)),
{
    if launch_lines_of(session, p, shell, home, muster_bin) is Ok && p.tabs.len() > 0 {
        let lines = launch_lines_of(session, p, shell, home, muster_bin)->Ok_0;
        let h = resolved_color_of(p.color)->Ok_0;
        let tv = theme_of(h, p.name)->Some_0;
        let x = default_command_lines(session, shell) + window_pane_lines(
            session,
            0,
            first_tab_of(p),
            shell,
            home,
        ) + extra_window_lines(session, p.tabs, shell, home, p.tabs.len()) + metadata_lines(
            session,
            p,
        );
        let rest = hook_lines_of(session, window_count_of(p)) + launch_theme_lines(
            session,
            tv,
            window_count_of(p),
            muster_bin,
        ) + seq!["select-window -t "@ + win_target(session, 0)];
        assert(lines =~= x + pin_lines(session, p.tabs, p.tabs.len()) + rest);
        assert forall|i: int| #![trigger p.tabs[i]] 0 <= i < p.tabs.len() implies lines.contains(
            pin_mark_line(session, i as nat),
        ) && lines.contains(tab_name_line(session, i as nat, p.tabs[i].name)) by {
            lemma_pin_at(lines, x, rest, session, p.tabs, i);
        }
    }
}

} // verus!
