//! What a click on a notification does: select the window it came from and
//! open a terminal attached to its session.
use vstd::prelude::*;

use crate::text::{append_str, chars_of, eq_str, owned, string_of};

verus! {

/// `<tmux> attach -t <session>` as one command line.
pub open spec fn attach_line(tmux: Seq<char>, session: Seq<char>) -> Seq<char> {
    tmux + " attach -t "@ + session
}

/// The tmux target of window `window` of `session`, matched by exact name.
pub open spec fn window_target_exact(session: Seq<char>, window: Seq<char>) -> Seq<char> {
    session + ":="@ + window
}

/// `<tmux> select-window -t <session>:=<window>`.
pub open spec fn select_window_command(tmux: Seq<char>, session: Seq<char>, window: Seq<char>) -> Seq<
    Seq<char>,
> {
    seq![tmux, "select-window"@, "-t"@, window_target_exact(session, window)]
}

/// The application that the AppleScript fallback addresses: Terminal for
/// `terminal`, iTerm for `iterm2` or `iterm`, else the name as given.
pub open spec fn script_app_name(terminal: Seq<char>) -> Seq<char> {
    if terminal == "terminal"@ {
        "Terminal"@
    } else if terminal == "iterm2"@ || terminal == "iterm"@ {
        "iTerm"@
    } else {
        terminal
    }
}

/// The AppleScript that activates `app` and runs `line` in a new window.
pub open spec fn attach_script(app: Seq<char>, line: Seq<char>) -> Seq<char> {
    "tell application \""@ + app + "\"\nactivate\ndo script \""@ + line + "\"\nend tell"@
}

/// The program and arguments that open `terminal` attached to `session`:
/// Ghostty, Alacritty, Kitty and WezTerm through `open -na`, any other
/// terminal through AppleScript.
pub open spec fn open_terminal_command(terminal: Seq<char>, tmux: Seq<char>, session: Seq<char>) -> Seq<
    Seq<char>,
> {
    if terminal == "ghostty"@ {
        seq![
            "open"@,
            "-na"@,
            "Ghostty.app"@,
            "--args"@,
            "--quit-after-last-window-closed=true"@,
            "--command="@ + attach_line(tmux, session),
        ]
    } else if terminal == "alacritty"@ {
        seq!["open"@, "-na"@, "Alacritty.app"@, "--args"@, "-e"@, tmux, "attach"@, "-t"@, session]
    } else if terminal == "kitty"@ {
        seq!["open"@, "-na"@, "Kitty.app"@, "--args"@, tmux, "attach"@, "-t"@, session]
    } else if terminal == "wezterm"@ {
        seq![
            "open"@,
            "-na"@,
            "WezTerm.app"@,
            "--args"@,
            "start"@,
            "--"@,
            tmux,
            "attach"@,
            "-t"@,
            session,
        ]
    } else {
        seq![
            "osascript"@,
            "-e"@,
            attach_script(script_app_name(terminal), attach_line(tmux, session)),
        ]
    }
}

/// The commands that a click on a notification from `session` runs once the
/// session is known to exist: select `window` when there is one, then open the
/// terminal attached to the session.
pub open spec fn click_commands_of(
    session: Seq<char>,
    window: Option<Seq<char>>,
    terminal: Seq<char>,
    tmux: Seq<char>,
) -> Seq<Seq<Seq<char>>> {
    match window {
        Some(w) => seq![
            select_window_command(tmux, session, w),
            open_terminal_command(terminal, tmux, session),
        ],
        None => seq![open_terminal_command(terminal, tmux, session)],
    }
}

/// The view of a list of argument lists.
pub open spec fn commands_view(v: Seq<Vec<String>>) -> Seq<Seq<Seq<char>>> {
    v.map_values(|c: Vec<String>| c@.map_values(|s: String| s@))
}

fn text2(a: &str, b: &str) -> (r: String)
    ensures
        r@ == a@ + b@,
{
    let mut t = chars_of(a);
    append_str(&mut t, b);
    string_of(t.as_slice())
}

fn text3(a: &str, b: &str, c: &str) -> (r: String)
    ensures
        r@ == a@ + b@ + c@,
{
    let mut t = chars_of(a);
    append_str(&mut t, b);
    append_str(&mut t, c);
    string_of(t.as_slice())
}

/// `<tmux> attach -t <session>`.
pub fn attach_line_of(tmux: &str, session: &str) -> (r: String)
    ensures
        r@ == attach_line(tmux@, session@),
{
    text3(tmux, " attach -t ", session)
}

/// The program and arguments that open `terminal` attached to `session` (see
/// [`open_terminal_command`]).
pub fn open_terminal(terminal: &str, tmux: &str, session: &str) -> (r: Vec<String>)
    ensures
        r@.map_values(|s: String| s@) == open_terminal_command(terminal@, tmux@, session@),
{
    let t = chars_of(terminal);
    let mut v: Vec<String> = Vec::new();
    if eq_str(t.as_slice(), "ghostty") {
        let line = attach_line_of(tmux, session);
        v.push(owned("open"));
        v.push(owned("-na"));
        v.push(owned("Ghostty.app"));
        v.push(owned("--args"));
        v.push(owned("--quit-after-last-window-closed=true"));
        v.push(text2("--command=", line.as_str()));
        assert(v@.map_values(|s: String| s@) =~= open_terminal_command(terminal@, tmux@, session@));
    } else if eq_str(t.as_slice(), "alacritty") {
        v.push(owned("open"));
        v.push(owned("-na"));
        v.push(owned("Alacritty.app"));
        v.push(owned("--args"));
        v.push(owned("-e"));
        v.push(owned(tmux));
        v.push(owned("attach"));
        v.push(owned("-t"));
        v.push(owned(session));
        assert(v@.map_values(|s: String| s@) =~= open_terminal_command(terminal@, tmux@, session@));
    } else if eq_str(t.as_slice(), "kitty") {
        v.push(owned("open"));
        v.push(owned("-na"));
        v.push(owned("Kitty.app"));
        v.push(owned("--args"));
        v.push(owned(tmux));
        v.push(owned("attach"));
        v.push(owned("-t"));
        v.push(owned(session));
        assert(v@.map_values(|s: String| s@) =~= open_terminal_command(terminal@, tmux@, session@));
    } else if eq_str(t.as_slice(), "wezterm") {
        v.push(owned("open"));
        v.push(owned("-na"));
        v.push(owned("WezTerm.app"));
        v.push(owned("--args"));
        v.push(owned("start"));
        v.push(owned("--"));
        v.push(owned(tmux));
        v.push(owned("attach"));
        v.push(owned("-t"));
        v.push(owned(session));
        assert(v@.map_values(|s: String| s@) =~= open_terminal_command(terminal@, tmux@, session@));
    } else {
        let app = if eq_str(t.as_slice(), "terminal") {
            owned("Terminal")
        } else if eq_str(t.as_slice(), "iterm2") || eq_str(t.as_slice(), "iterm") {
            owned("iTerm")
        } else {
            owned(terminal)
        };
        let line = attach_line_of(tmux, session);
        let head = text3("tell application \"", app.as_str(), "\"\nactivate\ndo script \"");
        v.push(owned("osascript"));
        v.push(owned("-e"));
        v.push(text3(head.as_str(), line.as_str(), "\"\nend tell"));
        assert(v@.map_values(|s: String| s@) =~= open_terminal_command(terminal@, tmux@, session@));
    }
    v
}

/// The commands that a click on a notification from `session` runs once the
/// session is known to exist (see [`click_commands_of`]).
pub fn click_commands(session: &str, window: Option<&str>, terminal: &str, tmux: &str) -> (r: Vec<
    Vec<String>,
>)
    ensures
        commands_view(r@) == click_commands_of(
            session@,
            match window {
                Some(w) => Some(w@),
                None => None,
            },
            terminal@,
            tmux@,
        ),
{
    let mut cmds: Vec<Vec<String>> = Vec::new();
    let ghost wv: Option<Seq<char>> = match window {
        Some(w) => Some(w@),
        None => None,
    };
    if let Some(w) = window {
        let mut sel: Vec<String> = Vec::new();
        sel.push(owned(tmux));
        sel.push(owned("select-window"));
        sel.push(owned("-t"));
        sel.push(text3(session, ":=", w));
        assert(sel@.map_values(|s: String| s@) =~= select_window_command(tmux@, session@, w@));
        cmds.push(sel);
    }
    let open = open_terminal(terminal, tmux, session);
    cmds.push(open);
    assert(commands_view(cmds@) =~= click_commands_of(session@, wv, terminal@, tmux@));
    cmds
}

} // verus!
