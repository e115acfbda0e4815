//! The tmux client: the argument lists of the tmux commands muster issues, the
//! reading of their results, and the parsers of tmux's formatted listings.
//!
//! Running a command is the caller's part: a [`TmuxCommand`] is handed to the
//! tmux binary at [`TmuxClient::tmux_path`], and what it printed comes back
//! through [`TmuxClient::cmd_result`] or one of the parsers.
use vstd::prelude::*;

use crate::error::Error;
use crate::text::{
    chars_of, concat, decimal, decimal_of, has_prefix, has_suffix, lines_of, occurs_in, owned, parse_bounded,
    parse_unsigned, split_char, split_lines, split_on, starts_with_str, string_of, contains_str,
    eq_str, trim, trim_chars,
};
use crate::tmux::types::{
    PaneContext, PaneContextView, SessionInfo, SessionInfoView, TmuxPane, TmuxPaneView,
    TmuxSession, TmuxSessionView, TmuxWindow, TmuxWindowView,
};

verus! {

/// Prefix for all muster-managed tmux sessions.
pub const SESSION_PREFIX: &'static str = "muster_";

/// The argument list of one tmux invocation (without the program name).
#[derive(Debug, Clone, PartialEq, Eq)]
pub struct TmuxCommand {
    pub args: Vec<String>,
}

impl View for TmuxCommand {
    type V = Seq<Seq<char>>;

    open spec fn view(&self) -> Seq<Seq<char>> {
        self.args@.map_values(|s: String| s@)
    }
}

/// A copy of a list of strings.
pub fn copy_strings(v: &Vec<String>) -> (r: Vec<String>)
    ensures
        r@.map_values(|s: String| s@) == v@.map_values(|s: String| s@),
{
    let ghost vv = v@.map_values(|s: String| s@);
    let mut r: Vec<String> = Vec::new();
    let mut i: usize = 0;
    while i < v.len()
        invariant
            i <= v@.len(),
            vv == v@.map_values(|s: String| s@),
            r@.map_values(|s: String| s@) == vv.take(i as int),
        decreases v@.len() - i,
    {
        push_arg(&mut r, v[i].as_str());
        assert(vv.take(i as int).push(vv[i as int]) =~= vv.take(i + 1));
        i = i + 1;
    }
    assert(vv.take(v@.len() as int) =~= vv);
    r
}

impl TmuxCommand {
    /// A copy of this command.
    pub fn duplicate(&self) -> (c: TmuxCommand)
        ensures
            c@ == self@,
    {
        TmuxCommand { args: copy_strings(&self.args) }
    }
}

/// A command built from a sequence of strings.
pub fn command_of(args: Vec<String>) -> (c: TmuxCommand)
    ensures
        c@ == args@.map_values(|s: String| s@),
{
    TmuxCommand { args }
}

/// `session:index`, the tmux target of a window.
pub open spec fn window_target(session: Seq<char>, index: nat) -> Seq<char> {
    session + seq![':'] + decimal(index)
}

/// The target `session:index`.
pub fn target_of(session: &str, index: u32) -> (r: String)
    ensures
        r@ == window_target(session@, index as nat),
{
    let s = chars_of(session);
    let mut s2 = s;
    s2.push(':');
    let d = decimal_of(index as u64);
    let all = concat(s2.as_slice(), d.as_slice());
    assert(all@ =~= window_target(session@, index as nat));
    string_of(all.as_slice())
}

// ---------------------------------------------------------------------------
// Reading command results
// ---------------------------------------------------------------------------

/// Error output of tmux that only says there is nothing to query: no server, no
/// current session, a server that went away, or a socket that cannot be reached.
pub open spec fn soft_error(stderr: Seq<char>) -> bool {
    occurs_in(stderr, "no server running"@) || occurs_in(stderr, "no current session"@)
        || occurs_in(stderr, "server exited"@) || occurs_in(stderr, "server not found"@)
        || occurs_in(stderr, "error connecting to"@)
}

/// `value` with leading and trailing whitespace removed, `None` when that is empty.
pub open spec fn option_value_of(success: bool, stdout: Seq<char>) -> Option<Seq<char>> {
    if success && trim(stdout).len() > 0 {
        Some(trim(stdout))
    } else {
        None
    }
}

/// The argument list of a `list-windows` query for `session`.
pub open spec fn list_windows_args(session: Seq<char>) -> Seq<Seq<char>> {
    seq![
        "list-windows"@,
        "-t"@,
        session,
        "-F"@,
        "#{window_index}\t#{window_name}\t#{pane_current_path}\t#{window_active}"@,
    ]
}

/// The `-e NAME=VALUE` arguments that pass the caller's environment to a new
/// session: every variable except `TERM` and those whose name starts with `TMUX`.
pub open spec fn env_args(vars: Seq<(Seq<char>, Seq<char>)>) -> Seq<Seq<char>>
    decreases vars.len(),
{
    if vars.len() == 0 {
        seq![]
    } else {
        let (k, v) = vars.last();
        let keep = !has_prefix(k, "TMUX"@) && k != "TERM"@;
        env_args(vars.drop_last()) + if keep {
            seq!["-e"@, k + seq!['='] + v]
        } else {
            seq![]
        }
    }
}

/// The optional trailing shell argument.
pub open spec fn shell_arg(shell: Option<Seq<char>>) -> Seq<Seq<char>> {
    match shell {
        Some(sh) => seq![sh],
        None => seq![],
    }
}

/// Views of a list of environment variables.
pub open spec fn vars_view(vars: Seq<(String, String)>) -> Seq<(Seq<char>, Seq<char>)> {
    vars.map_values(|p: (String, String)| (p.0@, p.1@))
}

/// Views of an optional string slice.
pub open spec fn opt_view(o: Option<&str>) -> Option<Seq<char>> {
    match o {
        Some(s) => Some(s@),
        None => None,
    }
}

fn push_arg(v: &mut Vec<String>, s: &str)
    ensures
        final(v)@.map_values(|x: String| x@) == old(v)@.map_values(|x: String| x@).push(s@),
{
    let ghost before = v@;
    v.push(owned(s));
    assert(v@.map_values(|x: String| x@) =~= before.map_values(|x: String| x@).push(s@));
}

fn push_string(v: &mut Vec<String>, s: String)
    ensures
        final(v)@.map_values(|x: String| x@) == old(v)@.map_values(|x: String| x@).push(s@),
{
    let ghost before = v@;
    let ghost sv = s@;
    v.push(s);
    assert(v@.map_values(|x: String| x@) =~= before.map_values(|x: String| x@).push(sv));
}

/// Client for executing tmux commands and parsing output.
pub struct TmuxClient {
    tmux_path: String,
}

/// A bare program name: not empty and without a path separator.
pub open spec fn is_bare_name(name: Seq<char>) -> bool {
    name.len() > 0 && !name.contains('/')
}

/// `which::which(name)`: the executable called `name` found by searching
/// `$PATH`, shown as text. Whether and where it is found depends on the
/// environment and the file system and is not claimed. For a bare name the
/// search joins each `$PATH` directory with the name, so what it finds ends
/// with the name. (That is the crate's behaviour on Unix, where tmux runs; on
/// Windows it may also add an extension or change the letter case.)
#[verifier::external_body]
fn find_executable(name: &str) -> (r: Option<String>)
    ensures
        is_bare_name(name@) ==> (r matches Some(p) ==> has_suffix(p@, name@)),
{
    which::which(name).ok().map(|p| p.display().to_string())
}

impl TmuxClient {
    /// The path of the tmux binary this client runs.
    pub closed spec fn path(&self) -> Seq<char> {
        self.tmux_path@
    }

    /// A client for the tmux found by a `$PATH` search (`found`), or the
    /// error for a missing tmux.
    pub fn from_search(found: Option<String>) -> (r: Result<Self, Error>)
        ensures
            match found {
                Some(p) => r matches Ok(c) && c.path() == p@,
                None => r matches Err(Error::TmuxNotFound),
            },
    {
        match found {
            Some(p) => Ok(TmuxClient { tmux_path: p }),
            None => Err(Error::TmuxNotFound),
        }
    }

    /// Create a new client, discovering tmux in `$PATH`.
    pub fn new() -> (r: Result<Self, Error>)
        ensures
            r is Err ==> r matches Err(Error::TmuxNotFound),
            r matches Ok(c) ==> has_suffix(c.path(), "tmux"@),
    {
        proof {
            reveal_strlit("tmux");
        }
        assert(is_bare_name("tmux"@));
        Self::from_search(find_executable("tmux"))
    }

    /// Create a client with an explicit tmux path.
    pub fn with_path(path: String) -> (c: Self)
        ensures
            c.path() == path@,
    {
        TmuxClient { tmux_path: path }
    }

    /// The path of the tmux binary.
    pub fn tmux_path(&self) -> (p: &str)
        ensures
            p@ == self.path(),
    {
        self.tmux_path.as_str()
    }

    /// Build the argument list for a tmux command. Exposed for testing.
    pub fn build_args<'a>(command: &'a str, extra: &[&'a str]) -> (args: Vec<&'a str>)
        ensures
            args@ == seq![command] + extra@,
    {
        let mut args: Vec<&'a str> = Vec::new();
        args.push(command);
        let mut i: usize = 0;
        while i < extra.len()
            invariant
                i <= extra@.len(),
                args@ == seq![command] + extra@.take(i as int),
            decreases extra@.len() - i,
        {
            args.push(extra[i]);
            assert(seq![command] + extra@.take(i as int) + seq![extra@[i as int]] =~= seq![command]
                + extra@.take(i + 1));
            i = i + 1;
        }
        assert(extra@.take(extra@.len() as int) =~= extra@);
        args
    }

    /// What a finished tmux command yields: its standard output when it succeeded;
    /// an empty output when it failed only because there was nothing to query
    /// (see [`soft_error`]); otherwise an error carrying its error output.
    pub fn cmd_result(success: bool, stdout: String, stderr: String) -> (r: Result<String, Error>)
        ensures
            success ==> (r matches Ok(o) && o@ == stdout@),
            !success && soft_error(stderr@) ==> (r matches Ok(o) && o@ == Seq::<char>::empty()),
            !success && !soft_error(stderr@) ==> (r matches Err(Error::TmuxError(e)) && e@
                == stderr@),
    {
        if success {
            return Ok(stdout);
        }
        let e = chars_of(stderr.as_str());
        let es = e.as_slice();
        if contains_str(es, "no server running") || contains_str(es, "no current session")
            || contains_str(es, "server exited") || contains_str(es, "server not found")
            || contains_str(es, "error connecting to") {
            return Ok(String::new());
        }
        Err(Error::TmuxError(stderr))
    }

    /// Create a new detached session named `name` whose first window is named
    /// `first_window_name` and starts in `cwd`, passing on the environment `vars`
    /// (see [`env_args`]) and running `shell` when one is given.
    pub fn new_session(
        &self,
        name: &str,
        first_window_name: &str,
        cwd: &str,
        shell: Option<&str>,
        vars: &[(String, String)],
    ) -> (c: TmuxCommand)
        ensures
            c@ == seq!["new-session"@, "-d"@, "-s"@, name@, "-n"@, first_window_name@, "-c"@, cwd@]
                + env_args(vars_view(vars@)) + shell_arg(opt_view(shell)),
    {
        let mut args: Vec<String> = Vec::new();
        push_arg(&mut args, "new-session");
        push_arg(&mut args, "-d");
        push_arg(&mut args, "-s");
        push_arg(&mut args, name);
        push_arg(&mut args, "-n");
        push_arg(&mut args, first_window_name);
        push_arg(&mut args, "-c");
        push_arg(&mut args, cwd);
        let ghost head = args@.map_values(|x: String| x@);
        let mut i: usize = 0;
        while i < vars.len()
            invariant
                i <= vars@.len(),
                args@.map_values(|x: String| x@) == head + env_args(
                    vars_view(vars@).take(i as int),
                ),
            decreases vars@.len() - i,
        {
            let k = chars_of(vars[i].0.as_str());
            let ks = k.as_slice();
            proof {
                let vv = vars_view(vars@);
                assert(vv.take(i + 1).drop_last() =~= vv.take(i as int));
                assert(vv.take(i + 1).last() == vv[i as int]);
            }
            if !starts_with_str(ks, "TMUX") && !eq_str(ks, "TERM") {
                push_arg(&mut args, "-e");
                let mut kv = k.clone();
                kv.push('=');
                let v = chars_of(vars[i].1.as_str());
                let pair = concat(kv.as_slice(), v.as_slice());
                proof {
                    assert(kv@ =~= k@.push('='));
                    assert(pair@ =~= vars@[i as int].0@ + seq!['='] + vars@[i as int].1@);
                    let vv = vars_view(vars@);
                    assert(vv[i as int] == (vars@[i as int].0@, vars@[i as int].1@));
                    assert(env_args(vv.take(i + 1)) == env_args(vv.take(i as int)) + seq![
                        "-e"@,
                        vars@[i as int].0@ + seq!['='] + vars@[i as int].1@,
                    ]);
                }
                push_string(&mut args, string_of(pair.as_slice()));
                assert(args@.map_values(|x: String| x@) =~= head + env_args(
                    vars_view(vars@).take(i + 1),
                ));
            } else {
                assert(args@.map_values(|x: String| x@) =~= head + env_args(
                    vars_view(vars@).take(i + 1),
                ));
            }
            i = i + 1;
        }
        assert(vars_view(vars@).take(vars@.len() as int) =~= vars_view(vars@));
        if let Some(sh) = shell {
            push_arg(&mut args, sh);
        }
        let c = command_of(args);
        assert(c@ =~= seq![
            "new-session"@,
            "-d"@,
            "-s"@,
            name@,
            "-n"@,
            first_window_name@,
            "-c"@,
            cwd@,
        ] + env_args(vars_view(vars@)) + shell_arg(opt_view(shell)));
        c
    }

    /// Kill (destroy) a session.
    pub fn kill_session(&self, name: &str) -> (c: TmuxCommand)
        ensures
            c@ == seq!["kill-session"@, "-t"@, name@],
    {
        let mut args: Vec<String> = Vec::new();
        push_arg(&mut args, "kill-session");
        push_arg(&mut args, "-t");
        push_arg(&mut args, name);
        let c = command_of(args);
        assert(c@ =~= seq!["kill-session"@, "-t"@, name@]);
        c
    }

    /// Create a new window in a session, running `shell` when one is given.
    pub fn new_window(&self, session: &str, name: &str, cwd: &str, shell: Option<&str>) -> (c:
        TmuxCommand)
        ensures
            c@ == seq!["new-window"@, "-t"@, session@, "-n"@, name@, "-c"@, cwd@] + shell_arg(
                opt_view(shell),
            ),
    {
        let mut args: Vec<String> = Vec::new();
        push_arg(&mut args, "new-window");
        push_arg(&mut args, "-t");
        push_arg(&mut args, session);
        push_arg(&mut args, "-n");
        push_arg(&mut args, name);
        push_arg(&mut args, "-c");
        push_arg(&mut args, cwd);
        if let Some(sh) = shell {
            push_arg(&mut args, sh);
        }
        let c = command_of(args);
        assert(c@ =~= seq!["new-window"@, "-t"@, session@, "-n"@, name@, "-c"@, cwd@]
            + shell_arg(opt_view(shell)));
        c
    }

    /// Send keys (a command) to a specific window in a session.
    pub fn send_keys(&self, session: &str, window_index: u32, keys: &str) -> (c: TmuxCommand)
        ensures
            c@ == seq![
                "send-keys"@,
                "-t"@,
                window_target(session@, window_index as nat),
                keys@,
                "Enter"@,
            ],
    {
        let mut args: Vec<String> = Vec::new();
        push_arg(&mut args, "send-keys");
        push_arg(&mut args, "-t");
        push_string(&mut args, target_of(session, window_index));
        push_arg(&mut args, keys);
        push_arg(&mut args, "Enter");
        let c = command_of(args);
        assert(c@ =~= seq![
            "send-keys"@,
            "-t"@,
            window_target(session@, window_index as nat),
            keys@,
            "Enter"@,
        ]);
        c
    }

    /// A command acting on one window: `verb -t session:index`.
    fn window_command(verb: &str, session: &str, window_index: u32) -> (c: TmuxCommand)
        ensures
            c@ == seq![verb@, "-t"@, window_target(session@, window_index as nat)],
    {
        let mut args: Vec<String> = Vec::new();
        push_arg(&mut args, verb);
        push_arg(&mut args, "-t");
        push_string(&mut args, target_of(session, window_index));
        let c = command_of(args);
        assert(c@ =~= seq![verb@, "-t"@, window_target(session@, window_index as nat)]);
        c
    }

    /// Kill (close) a window in a session.
    pub fn kill_window(&self, session: &str, window_index: u32) -> (c: TmuxCommand)
        ensures
            c@ == seq!["kill-window"@, "-t"@, window_target(session@, window_index as nat)],
    {
        Self::window_command("kill-window", session, window_index)
    }

    /// Select (switch to) a window in a session.
    pub fn select_window(&self, session: &str, window_index: u32) -> (c: TmuxCommand)
        ensures
            c@ == seq!["select-window"@, "-t"@, window_target(session@, window_index as nat)],
    {
        Self::window_command("select-window", session, window_index)
    }

    /// Rename a window in a session.
    pub fn rename_window(&self, session: &str, window_index: u32, new_name: &str) -> (c:
        TmuxCommand)
        ensures
            c@ == seq![
                "rename-window"@,
                "-t"@,
                window_target(session@, window_index as nat),
                new_name@,
            ],
    {
        let mut args: Vec<String> = Vec::new();
        push_arg(&mut args, "rename-window");
        push_arg(&mut args, "-t");
        push_string(&mut args, target_of(session, window_index));
        push_arg(&mut args, new_name);
        let c = command_of(args);
        assert(c@ =~= seq![
            "rename-window"@,
            "-t"@,
            window_target(session@, window_index as nat),
            new_name@,
        ]);
        c
    }

    /// Check if a session exists: the session exists when this command succeeds.
    pub fn has_session(&self, name: &str) -> (c: TmuxCommand)
        ensures
            c@ == seq!["has-session"@, "-t"@, name@],
    {
        let mut args: Vec<String> = Vec::new();
        push_arg(&mut args, "has-session");
        push_arg(&mut args, "-t");
        push_arg(&mut args, name);
        let c = command_of(args);
        assert(c@ =~= seq!["has-session"@, "-t"@, name@]);
        c
    }

    /// List all sessions; [`TmuxClient::parse_session_list`] reads the output.
    pub fn list_sessions(&self) -> (c: TmuxCommand)
        ensures
            c@ == seq![
                "list-sessions"@,
                "-F"@,
                "#{session_name}\t#{session_windows}\t#{session_attached}"@,
            ],
    {
        let mut args: Vec<String> = Vec::new();
        push_arg(&mut args, "list-sessions");
        push_arg(&mut args, "-F");
        push_arg(&mut args, "#{session_name}\t#{session_windows}\t#{session_attached}");
        let c = command_of(args);
        assert(c@ =~= seq![
            "list-sessions"@,
            "-F"@,
            "#{session_name}\t#{session_windows}\t#{session_attached}"@,
        ]);
        c
    }

    /// List windows for a session; [`TmuxClient::parse_window_list`] reads the output.
    pub fn list_windows(&self, session: &str) -> (c: TmuxCommand)
        ensures
            c@ == list_windows_args(session@),
    {
        let mut args: Vec<String> = Vec::new();
        push_arg(&mut args, "list-windows");
        push_arg(&mut args, "-t");
        push_arg(&mut args, session);
        push_arg(&mut args, "-F");
        push_arg(&mut args, "#{window_index}\t#{window_name}\t#{pane_current_path}\t#{window_active}");
        let c = command_of(args);
        assert(c@ =~= list_windows_args(session@));
        c
    }

    /// Set a tmux session environment variable.
    pub fn set_environment(&self, session: &str, name: &str, value: &str) -> (c: TmuxCommand)
        ensures
            c@ == seq!["set-environment"@, "-t"@, session@, name@, value@],
    {
        let mut args: Vec<String> = Vec::new();
        push_arg(&mut args, "set-environment");
        push_arg(&mut args, "-t");
        push_arg(&mut args, session);
        push_arg(&mut args, name);
        push_arg(&mut args, value);
        let c = command_of(args);
        assert(c@ =~= seq!["set-environment"@, "-t"@, session@, name@, value@]);
        c
    }

    /// Set a tmux user option on a session.
    pub fn set_option(&self, session: &str, key: &str, value: &str) -> (c: TmuxCommand)
        ensures
            c@ == seq!["set-option"@, "-t"@, session@, key@, value@],
    {
        let mut args: Vec<String> = Vec::new();
        push_arg(&mut args, "set-option");
        push_arg(&mut args, "-t");
        push_arg(&mut args, session);
        push_arg(&mut args, key);
        push_arg(&mut args, value);
        let c = command_of(args);
        assert(c@ =~= seq!["set-option"@, "-t"@, session@, key@, value@]);
        c
    }

    /// Get a tmux user option from a session; [`TmuxClient::option_value`] reads the result.
    pub fn get_option(&self, session: &str, key: &str) -> (c: TmuxCommand)
        ensures
            c@ == seq!["show-option"@, "-t"@, session@, "-v"@, key@],
    {
        let mut args: Vec<String> = Vec::new();
        push_arg(&mut args, "show-option");
        push_arg(&mut args, "-t");
        push_arg(&mut args, session);
        push_arg(&mut args, "-v");
        push_arg(&mut args, key);
        let c = command_of(args);
        assert(c@ =~= seq!["show-option"@, "-t"@, session@, "-v"@, key@]);
        c
    }

    /// The value of an option query: the trimmed output of a successful query, or
    /// `None` when the query failed or printed only whitespace (the option is unset).
    pub fn option_value(success: bool, stdout: &str) -> (r: Option<String>)
        ensures
            match option_value_of(success, stdout@) {
                Some(v) => r matches Some(x) && x@ == v,
                None => r is None,
            },
    {
        if !success {
            return None;
        }
        let t = trim_chars(chars_of(stdout).as_slice());
        if t.len() == 0 {
            None
        } else {
            Some(string_of(t.as_slice()))
        }
    }

    /// Set all muster metadata options on a session: name and colour, and the
    /// profile when one is given, in that order.
    pub fn set_session_metadata(
        &self,
        session: &str,
        name: &str,
        color: &str,
        profile_id: Option<&str>,
    ) -> (cmds: Vec<TmuxCommand>)
        ensures
            cmds@.len() == if profile_id is Some {
                3int
            } else {
                2int
            },
            cmds@[0]@ == seq!["set-option"@, "-t"@, session@, "@muster_name"@, name@],
            cmds@[1]@ == seq!["set-option"@, "-t"@, session@, "@muster_color"@, color@],
            profile_id matches Some(p) ==> cmds@[2]@ == seq![
                "set-option"@,
                "-t"@,
                session@,
                "@muster_profile"@,
                p@,
            ],
    {
        let mut cmds: Vec<TmuxCommand> = Vec::new();
        cmds.push(self.set_option(session, "@muster_name", name));
        cmds.push(self.set_option(session, "@muster_color", color));
        if let Some(pid) = profile_id {
            cmds.push(self.set_option(session, "@muster_profile", pid));
        }
        cmds
    }

    /// List sessions with their `@muster_*` metadata;
    /// [`TmuxClient::parse_session_info_list`] reads the output.
    pub fn list_sessions_with_metadata(&self) -> (c: TmuxCommand)
        ensures
            c@ == seq![
                "list-sessions"@,
                "-F"@,
                "#{session_name}\t#{session_windows}\t#{session_attached}\t#{@muster_name}\t#{@muster_color}\t#{@muster_profile}"@,
            ],
    {
        let mut args: Vec<String> = Vec::new();
        push_arg(&mut args, "list-sessions");
        push_arg(&mut args, "-F");
        push_arg(
            &mut args,
            "#{session_name}\t#{session_windows}\t#{session_attached}\t#{@muster_name}\t#{@muster_color}\t#{@muster_profile}",
        );
        let c = command_of(args);
        assert(c@ =~= seq![
            "list-sessions"@,
            "-F"@,
            "#{session_name}\t#{session_windows}\t#{session_attached}\t#{@muster_name}\t#{@muster_color}\t#{@muster_profile}"@,
        ]);
        c
    }
}

// ---------------------------------------------------------------------------
// Parsing tmux listings
// ---------------------------------------------------------------------------

/// `text.parse::<u32>().unwrap_or(0)`.
pub open spec fn u32_or_zero(text: Seq<char>) -> u32 {
    match parse_unsigned(text, u32::MAX as nat) {
        Some(n) => n as u32,
        None => 0,
    }
}

/// The session described by one line of `list-sessions` output: three or more
/// tab-separated fields `name`, `windows`, `attached`.
pub open spec fn session_of_line(l: Seq<char>) -> Option<TmuxSessionView> {
    let parts = split_char(l, '\t');
    if l.len() == 0 || parts.len() < 3 {
        None
    } else {
        Some(
            TmuxSessionView {
                name: parts[0],
                windows: u32_or_zero(parts[1]),
                attached: parts[2] != "0"@,
            },
        )
    }
}

/// The window described by one line of `list-windows` output: four or more
/// tab-separated fields `index`, `name`, `cwd`, `active`.
pub open spec fn window_of_line(l: Seq<char>) -> Option<TmuxWindowView> {
    let parts = split_char(l, '\t');
    if l.len() == 0 || parts.len() < 4 {
        None
    } else {
        Some(
            TmuxWindowView {
                index: u32_or_zero(parts[0]),
                name: parts[1],
                cwd: parts[2],
                active: parts[3] != "0"@,
            },
        )
    }
}

/// The managed session described by one line of the metadata listing: six or
/// more fields, a name starting with `muster_`; an empty display name defaults
/// to the name without the prefix, an empty colour to `#808080`, an empty
/// profile to none.
pub open spec fn session_info_of_line(l: Seq<char>) -> Option<SessionInfoView> {
    let parts = split_char(l, '\t');
    if l.len() == 0 || parts.len() < 6 || !has_prefix(parts[0], "muster_"@) {
        None
    } else {
        Some(
            SessionInfoView {
                session_name: parts[0],
                display_name: if parts[3].len() == 0 {
                    parts[0].skip("muster_"@.len() as int)
                } else {
                    parts[3]
                },
                color: if parts[4].len() == 0 {
                    "#808080"@
                } else {
                    parts[4]
                },
                profile_id: if parts[5].len() == 0 {
                    None
                } else {
                    Some(parts[5])
                },
                window_count: u32_or_zero(parts[1]),
                attached: parts[2] != "0"@,
            },
        )
    }
}

/// The sessions read from the lines of a listing, in order.
pub open spec fn sessions_of(ls: Seq<Seq<char>>) -> Seq<TmuxSessionView>
    decreases ls.len(),
{
    if ls.len() == 0 {
        seq![]
    } else {
        sessions_of(ls.drop_last()) + match session_of_line(ls.last()) {
            Some(s) => seq![s],
            None => seq![],
        }
    }
}

/// The windows read from the lines of a listing, in order.
pub open spec fn windows_of(ls: Seq<Seq<char>>) -> Seq<TmuxWindowView>
    decreases ls.len(),
{
    if ls.len() == 0 {
        seq![]
    } else {
        windows_of(ls.drop_last()) + match window_of_line(ls.last()) {
            Some(w) => seq![w],
            None => seq![],
        }
    }
}

/// The managed sessions read from the lines of a metadata listing, in order.
pub open spec fn session_infos_of(ls: Seq<Seq<char>>) -> Seq<SessionInfoView>
    decreases ls.len(),
{
    if ls.len() == 0 {
        seq![]
    } else {
        session_infos_of(ls.drop_last()) + match session_info_of_line(ls.last()) {
            Some(s) => seq![s],
            None => seq![],
        }
    }
}

/// The sessions whose name starts with `muster_`, in order.
pub open spec fn managed_of(ss: Seq<TmuxSessionView>) -> Seq<TmuxSessionView>
    decreases ss.len(),
{
    if ss.len() == 0 {
        seq![]
    } else {
        managed_of(ss.drop_last()) + if has_prefix(ss.last().name, "muster_"@) {
            seq![ss.last()]
        } else {
            seq![]
        }
    }
}

/// Every session read from a metadata listing is a managed one: its name
/// starts with `muster_`.
pub proof fn lemma_session_infos_managed(ls: Seq<Seq<char>>)
    ensures
        forall|i: int|
            0 <= i < session_infos_of(ls).len() ==> has_prefix(
                (#[trigger] session_infos_of(ls)[i]).session_name,
                "muster_"@,
            ),
    decreases ls.len(),
{
    if ls.len() > 0 {
        lemma_session_infos_managed(ls.drop_last());
        let prev = session_infos_of(ls.drop_last());
        assert forall|i: int| 0 <= i < session_infos_of(ls).len() implies has_prefix(
            (#[trigger] session_infos_of(ls)[i]).session_name,
            "muster_"@,
        ) by {
            if i < prev.len() {
                assert(session_infos_of(ls)[i] == prev[i]);
            }
        }
    }
}

/// Keeping the managed sessions keeps exactly those whose name starts with
/// `muster_`, and keeping them again changes nothing.
pub proof fn lemma_managed_idempotent(ss: Seq<TmuxSessionView>)
    ensures
        forall|i: int|
            0 <= i < managed_of(ss).len() ==> has_prefix(
                (#[trigger] managed_of(ss)[i]).name,
                "muster_"@,
            ),
        managed_of(managed_of(ss)) == managed_of(ss),
    decreases ss.len(),
{
    if ss.len() > 0 {
        lemma_managed_idempotent(ss.drop_last());
        let prev = managed_of(ss.drop_last());
        let m = managed_of(ss);
        assert forall|i: int| 0 <= i < m.len() implies has_prefix(
            (#[trigger] m[i]).name,
            "muster_"@,
        ) by {
            if i < prev.len() {
                assert(m[i] == prev[i]);
            }
        }
        if has_prefix(ss.last().name, "muster_"@) {
            assert(m.drop_last() =~= prev);
            assert(m.last() == ss.last());
        } else {
            assert(m =~= prev);
        }
    }
}

fn u32_or_zero_of(v: &[char]) -> (n: u32)
    ensures
        n == u32_or_zero(v@),
{
    match parse_bounded(v, 0xffff_ffff) {
        Some(n) => n as u32,
        None => 0,
    }
}

fn is_zero_text(v: &[char]) -> (b: bool)
    ensures
        b == (v@ == "0"@),
{
    eq_str(v, "0")
}

impl TmuxClient {
    /// Parse `list-sessions -F` output into structured data.
    pub fn parse_session_list(output: &str) -> (r: Vec<TmuxSession>)
        ensures
            r@.map_values(|s: TmuxSession| s@) == sessions_of(lines_of(output@)),
    {
        let text = chars_of(output);
        let lines = split_lines(text.as_slice());
        let ghost ls = lines_of(output@);
        let mut r: Vec<TmuxSession> = Vec::new();
        let mut i: usize = 0;
        while i < lines.len()
            invariant
                i <= lines@.len(),
                lines@.len() == ls.len(),
                forall|k: int| 0 <= k < lines@.len() ==> #[trigger] lines@[k]@ == ls[k],
                r@.map_values(|s: TmuxSession| s@) == sessions_of(ls.take(i as int)),
            decreases lines@.len() - i,
        {
            let line = lines[i].as_slice();
            proof {
                assert(ls.take(i + 1).drop_last() =~= ls.take(i as int));
                assert(ls.take(i + 1).last() == ls[i as int]);
                assert(lines@[i as int]@ == ls[i as int]);
            }
            if line.len() > 0 {
                let parts = split_on(line, '\t');
                if parts.len() >= 3 {
                    let s = TmuxSession {
                        name: string_of(parts[0].as_slice()),
                        windows: u32_or_zero_of(parts[1].as_slice()),
                        attached: !is_zero_text(parts[2].as_slice()),
                    };
                    r.push(s);
                }
            }
            assert(r@.map_values(|s: TmuxSession| s@) =~= sessions_of(ls.take(i + 1)));
            i = i + 1;
        }
        assert(ls.take(lines@.len() as int) =~= ls);
        r
    }

    /// Parse `list-windows -F` output into structured data.
    pub fn parse_window_list(output: &str) -> (r: Vec<TmuxWindow>)
        ensures
            r@.map_values(|w: TmuxWindow| w@) == windows_of(lines_of(output@)),
    {
        let text = chars_of(output);
        let lines = split_lines(text.as_slice());
        let ghost ls = lines_of(output@);
        let mut r: Vec<TmuxWindow> = Vec::new();
        let mut i: usize = 0;
        while i < lines.len()
            invariant
                i <= lines@.len(),
                lines@.len() == ls.len(),
                forall|k: int| 0 <= k < lines@.len() ==> #[trigger] lines@[k]@ == ls[k],
                r@.map_values(|w: TmuxWindow| w@) == windows_of(ls.take(i as int)),
            decreases lines@.len() - i,
        {
            let line = lines[i].as_slice();
            proof {
                assert(ls.take(i + 1).drop_last() =~= ls.take(i as int));
                assert(ls.take(i + 1).last() == ls[i as int]);
                assert(lines@[i as int]@ == ls[i as int]);
            }
            if line.len() > 0 {
                let parts = split_on(line, '\t');
                if parts.len() >= 4 {
                    let w = TmuxWindow {
                        index: u32_or_zero_of(parts[0].as_slice()),
                        name: string_of(parts[1].as_slice()),
                        cwd: string_of(parts[2].as_slice()),
                        active: !is_zero_text(parts[3].as_slice()),
                    };
                    r.push(w);
                }
            }
            assert(r@.map_values(|w: TmuxWindow| w@) =~= windows_of(ls.take(i + 1)));
            i = i + 1;
        }
        assert(ls.take(lines@.len() as int) =~= ls);
        r
    }

    /// Parse list-sessions output that includes `@muster_*` metadata; only
    /// muster-managed sessions are returned.
    pub fn parse_session_info_list(output: &str) -> (r: Vec<SessionInfo>)
        ensures
            r@.map_values(|s: SessionInfo| s@) == session_infos_of(lines_of(output@)),
    {
        let text = chars_of(output);
        let lines = split_lines(text.as_slice());
        let ghost ls = lines_of(output@);
        let prefix_len = chars_of(SESSION_PREFIX).len();
        let mut r: Vec<SessionInfo> = Vec::new();
        let mut i: usize = 0;
        while i < lines.len()
            invariant
                i <= lines@.len(),
                lines@.len() == ls.len(),
                forall|k: int| 0 <= k < lines@.len() ==> #[trigger] lines@[k]@ == ls[k],
                r@.map_values(|s: SessionInfo| s@) == session_infos_of(ls.take(i as int)),
                prefix_len == "muster_"@.len(),
            decreases lines@.len() - i,
        {
            let line = lines[i].as_slice();
            proof {
                assert(ls.take(i + 1).drop_last() =~= ls.take(i as int));
                assert(ls.take(i + 1).last() == ls[i as int]);
                assert(lines@[i as int]@ == ls[i as int]);
            }
            if line.len() > 0 {
                let parts = split_on(line, '\t');
                if parts.len() >= 6 && starts_with_str(parts[0].as_slice(), "muster_") {
                    let name = parts[0].as_slice();
                    let display_name = if parts[3].len() == 0 {
                        let d = crate::text::sub_vec(name, prefix_len, name.len());
                        string_of(d.as_slice())
                    } else {
                        string_of(parts[3].as_slice())
                    };
                    let color = if parts[4].len() == 0 {
                        owned("#808080")
                    } else {
                        string_of(parts[4].as_slice())
                    };
                    let profile_id = if parts[5].len() == 0 {
                        None
                    } else {
                        Some(string_of(parts[5].as_slice()))
                    };
                    let info = SessionInfo {
                        session_name: string_of(name),
                        display_name,
                        color,
                        profile_id,
                        window_count: u32_or_zero_of(parts[1].as_slice()),
                        attached: !is_zero_text(parts[2].as_slice()),
                    };
                    r.push(info);
                }
            }
            assert(r@.map_values(|s: SessionInfo| s@) =~= session_infos_of(ls.take(i + 1)));
            i = i + 1;
        }
        assert(ls.take(lines@.len() as int) =~= ls);
        r
    }

    /// Keep only muster-managed sessions (those with the `muster_` prefix), in order.
    pub fn list_managed_sessions(sessions: Vec<TmuxSession>) -> (r: Vec<TmuxSession>)
        ensures
            r@.map_values(|s: TmuxSession| s@) == managed_of(
                sessions@.map_values(|s: TmuxSession| s@),
            ),
    {
        let ghost all = sessions@.map_values(|s: TmuxSession| s@);
        let mut r: Vec<TmuxSession> = Vec::new();
        let mut i: usize = 0;
        while i < sessions.len()
            invariant
                i <= sessions@.len(),
                all == sessions@.map_values(|s: TmuxSession| s@),
                r@.map_values(|s: TmuxSession| s@) == managed_of(all.take(i as int)),
            decreases sessions@.len() - i,
        {
            proof {
                assert(all.take(i + 1).drop_last() =~= all.take(i as int));
                assert(all.take(i + 1).last() == all[i as int]);
            }
            let name = chars_of(sessions[i].name.as_str());
            if starts_with_str(name.as_slice(), "muster_") {
                let s = TmuxSession {
                    name: string_of(name.as_slice()),
                    windows: sessions[i].windows,
                    attached: sessions[i].attached,
                };
                r.push(s);
            }
            assert(r@.map_values(|s: TmuxSession| s@) =~= managed_of(all.take(i + 1)));
            i = i + 1;
        }
        assert(all.take(sessions@.len() as int) =~= all);
        r
    }
}

// ---------------------------------------------------------------------------
// Quoting for tmux command files
// ---------------------------------------------------------------------------

/// `s` with every single quote written as `'\''` (close, escaped quote, reopen).
pub open spec fn escape_quotes(s: Seq<char>) -> Seq<char>
    decreases s.len(),
{
    if s.len() == 0 {
        seq![]
    } else {
        escape_quotes(s.drop_last()) + if s.last() == '\'' {
            seq!['\'', '\\', '\'', '\'']
        } else {
            seq![s.last()]
        }
    }
}

/// `s` as one single-quoted tmux word.
pub open spec fn quoted(s: Seq<char>) -> Seq<char> {
    seq!['\''] + escape_quotes(s) + seq!['\'']
}

/// `s` as a brace-enclosed tmux command block.
pub open spec fn brace_quoted(s: Seq<char>) -> Seq<char> {
    seq!['{'] + s + seq!['}']
}

/// Quote a value as a single tmux word (single quotes, embedded single quotes
/// escaped), so that spaces and `#` in it survive the tmux command parser.
pub fn quote_tmux(s: &str) -> (r: String)
    ensures
        r@ == quoted(s@),
{
    let v = chars_of(s);
    let mut out: Vec<char> = Vec::new();
    out.push('\'');
    let ghost start = out@;
    let mut i: usize = 0;
    while i < v.len()
        invariant
            i <= v@.len(),
            v@ == s@,
            start == seq!['\''],
            out@ == start + escape_quotes(v@.take(i as int)),
        decreases v@.len() - i,
    {
        assert(v@.take(i + 1).drop_last() =~= v@.take(i as int));
        if v[i] == '\'' {
            out.push('\'');
            out.push('\\');
            out.push('\'');
            out.push('\'');
        } else {
            out.push(v[i]);
        }
        assert(out@ =~= start + escape_quotes(v@.take(i + 1)));
        i = i + 1;
    }
    assert(v@.take(v@.len() as int) =~= v@);
    out.push('\'');
    assert(out@ =~= quoted(s@));
    string_of(out.as_slice())
}

/// Quote a tmux command (which may itself hold single quotes) as a brace block.
pub fn quote_tmux_cmd(s: &str) -> (r: String)
    ensures
        r@ == brace_quoted(s@),
{
    let mut out: Vec<char> = Vec::new();
    out.push('{');
    crate::text::append_str(&mut out, s);
    out.push('}');
    assert(out@ =~= brace_quoted(s@));
    string_of(out.as_slice())
}

// ---------------------------------------------------------------------------
// Window options
// ---------------------------------------------------------------------------

impl TmuxClient {
    /// Set an option on one window: `set-window-option -t session:index key value`.
    pub fn set_window_option(&self, session: &str, window_index: u32, key: &str, value: &str) -> (c:
        TmuxCommand)
        ensures
            c@ == seq![
                "set-window-option"@,
                "-t"@,
                window_target(session@, window_index as nat),
                key@,
                value@,
            ],
    {
        let mut args: Vec<String> = Vec::new();
        push_arg(&mut args, "set-window-option");
        push_arg(&mut args, "-t");
        push_string(&mut args, target_of(session, window_index));
        push_arg(&mut args, key);
        push_arg(&mut args, value);
        let c = command_of(args);
        assert(c@ =~= seq![
            "set-window-option"@,
            "-t"@,
            window_target(session@, window_index as nat),
            key@,
            value@,
        ]);
        c
    }

    /// Remove an option from one window: `set-window-option -u -t session:index key`.
    pub fn unset_window_option(&self, session: &str, window_index: u32, key: &str) -> (c:
        TmuxCommand)
        ensures
            c@ == seq![
                "set-window-option"@,
                "-u"@,
                "-t"@,
                window_target(session@, window_index as nat),
                key@,
            ],
    {
        let mut args: Vec<String> = Vec::new();
        push_arg(&mut args, "set-window-option");
        push_arg(&mut args, "-u");
        push_arg(&mut args, "-t");
        push_string(&mut args, target_of(session, window_index));
        push_arg(&mut args, key);
        let c = command_of(args);
        assert(c@ =~= seq![
            "set-window-option"@,
            "-u"@,
            "-t"@,
            window_target(session@, window_index as nat),
            key@,
        ]);
        c
    }

    /// Query an option of one window; [`TmuxClient::option_value`] reads the result.
    pub fn get_window_option(&self, session: &str, window_index: u32, key: &str) -> (c:
        TmuxCommand)
        ensures
            c@ == seq![
                "show-window-option"@,
                "-t"@,
                window_target(session@, window_index as nat),
                "-v"@,
                key@,
            ],
    {
        let mut args: Vec<String> = Vec::new();
        push_arg(&mut args, "show-window-option");
        push_arg(&mut args, "-t");
        push_string(&mut args, target_of(session, window_index));
        push_arg(&mut args, "-v");
        push_arg(&mut args, key);
        let c = command_of(args);
        assert(c@ =~= seq![
            "show-window-option"@,
            "-t"@,
            window_target(session@, window_index as nat),
            "-v"@,
            key@,
        ]);
        c
    }
}

// ---------------------------------------------------------------------------
// Panes
// ---------------------------------------------------------------------------

/// The format of a pane listing: window index, pane index, pane PID, current
/// command and current path, tab-separated.
pub open spec fn pane_format() -> Seq<char> {
    "#{window_index}\t#{pane_index}\t#{pane_pid}\t#{pane_current_command}\t#{pane_current_path}"@
}

/// The format that describes where a pane lives.
pub open spec fn context_format() -> Seq<char> {
    "#{session_name}\t#{window_index}\t#{window_name}\t#{pane_current_path}"@
}

/// The pane described by one line of a pane listing: five or more
/// tab-separated fields.
pub open spec fn pane_of_line(l: Seq<char>) -> Option<TmuxPaneView> {
    let parts = split_char(l, '\t');
    if l.len() == 0 || parts.len() < 5 {
        None
    } else {
        Some(
            TmuxPaneView {
                window_index: u32_or_zero(parts[0]),
                index: u32_or_zero(parts[1]),
                pid: u32_or_zero(parts[2]),
                command: parts[3],
                cwd: parts[4],
            },
        )
    }
}

/// The panes read from the lines of a listing, in order.
pub open spec fn panes_of(ls: Seq<Seq<char>>) -> Seq<TmuxPaneView>
    decreases ls.len(),
{
    if ls.len() == 0 {
        seq![]
    } else {
        panes_of(ls.drop_last()) + match pane_of_line(ls.last()) {
            Some(p) => seq![p],
            None => seq![],
        }
    }
}

/// The pane context described by the first line of a context query: four or
/// more tab-separated fields.
pub open spec fn context_of(output: Seq<char>) -> Option<PaneContextView> {
    let ls = lines_of(output);
    if ls.len() == 0 {
        None
    } else {
        let parts = split_char(ls[0], '\t');
        if parts.len() < 4 {
            None
        } else {
            Some(
                PaneContextView {
                    session_name: parts[0],
                    window_index: u32_or_zero(parts[1]),
                    window_name: parts[2],
                    cwd: parts[3],
                },
            )
        }
    }
}

impl TmuxClient {
    /// List every pane of a session; [`TmuxClient::parse_pane_list`] reads the output.
    pub fn list_panes(&self, session: &str) -> (c: TmuxCommand)
        ensures
            c@ == seq!["list-panes"@, "-s"@, "-t"@, session@, "-F"@, pane_format()],
    {
        let mut args: Vec<String> = Vec::new();
        push_arg(&mut args, "list-panes");
        push_arg(&mut args, "-s");
        push_arg(&mut args, "-t");
        push_arg(&mut args, session);
        push_arg(&mut args, "-F");
        push_arg(&mut args, "#{window_index}\t#{pane_index}\t#{pane_pid}\t#{pane_current_command}\t#{pane_current_path}");
        let c = command_of(args);
        assert(c@ =~= seq!["list-panes"@, "-s"@, "-t"@, session@, "-F"@, pane_format()]);
        c
    }

    /// List the panes of one window; [`TmuxClient::parse_pane_list`] reads the output.
    pub fn list_window_panes(&self, session: &str, window_index: u32) -> (c: TmuxCommand)
        ensures
            c@ == seq![
                "list-panes"@,
                "-t"@,
                window_target(session@, window_index as nat),
                "-F"@,
                pane_format(),
            ],
    {
        let mut args: Vec<String> = Vec::new();
        push_arg(&mut args, "list-panes");
        push_arg(&mut args, "-t");
        push_string(&mut args, target_of(session, window_index));
        push_arg(&mut args, "-F");
        push_arg(&mut args, "#{window_index}\t#{pane_index}\t#{pane_pid}\t#{pane_current_command}\t#{pane_current_path}");
        let c = command_of(args);
        assert(c@ =~= seq![
            "list-panes"@,
            "-t"@,
            window_target(session@, window_index as nat),
            "-F"@,
            pane_format(),
        ]);
        c
    }

    /// The layout string of a window.
    pub fn get_window_layout(&self, session: &str, window_index: u32) -> (c: TmuxCommand)
        ensures
            c@ == seq![
                "display-message"@,
                "-p"@,
                "-t"@,
                window_target(session@, window_index as nat),
                "#{window_layout}"@,
            ],
    {
        let mut args: Vec<String> = Vec::new();
        push_arg(&mut args, "display-message");
        push_arg(&mut args, "-p");
        push_arg(&mut args, "-t");
        push_string(&mut args, target_of(session, window_index));
        push_arg(&mut args, "#{window_layout}");
        let c = command_of(args);
        assert(c@ =~= seq![
            "display-message"@,
            "-p"@,
            "-t"@,
            window_target(session@, window_index as nat),
            "#{window_layout}"@,
        ]);
        c
    }

    /// The last `lines` lines of a pane's contents.
    pub fn capture_pane(&self, pane_id: &str, lines: u32) -> (c: TmuxCommand)
        ensures
            c@ == seq!["capture-pane"@, "-p"@, "-t"@, pane_id@, "-S"@, seq!['-'] + decimal(
                lines as nat,
            )],
    {
        let mut args: Vec<String> = Vec::new();
        push_arg(&mut args, "capture-pane");
        push_arg(&mut args, "-p");
        push_arg(&mut args, "-t");
        push_arg(&mut args, pane_id);
        push_arg(&mut args, "-S");
        let mut start: Vec<char> = Vec::new();
        start.push('-');
        let d = decimal_of(lines as u64);
        let all = concat(start.as_slice(), d.as_slice());
        push_string(&mut args, string_of(all.as_slice()));
        let c = command_of(args);
        assert(c@ =~= seq!["capture-pane"@, "-p"@, "-t"@, pane_id@, "-S"@, seq!['-'] + decimal(
            lines as nat,
        )]);
        c
    }

    /// Where pane `pane_id` lives; [`TmuxClient::parse_pane_context`] reads the output.
    pub fn pane_context(&self, pane_id: &str) -> (c: TmuxCommand)
        ensures
            c@ == seq!["display-message"@, "-p"@, "-t"@, pane_id@, context_format()],
    {
        let mut args: Vec<String> = Vec::new();
        push_arg(&mut args, "display-message");
        push_arg(&mut args, "-p");
        push_arg(&mut args, "-t");
        push_arg(&mut args, pane_id);
        push_arg(&mut args, "#{session_name}\t#{window_index}\t#{window_name}\t#{pane_current_path}");
        let c = command_of(args);
        assert(c@ =~= seq!["display-message"@, "-p"@, "-t"@, pane_id@, context_format()]);
        c
    }

    /// Parse a pane listing.
    pub fn parse_pane_list(output: &str) -> (r: Vec<TmuxPane>)
        ensures
            r@.map_values(|p: TmuxPane| p@) == panes_of(lines_of(output@)),
    {
        let text = chars_of(output);
        let lines = split_lines(text.as_slice());
        let ghost ls = lines_of(output@);
        let mut r: Vec<TmuxPane> = Vec::new();
        let mut i: usize = 0;
        while i < lines.len()
            invariant
                i <= lines@.len(),
                lines@.len() == ls.len(),
                forall|k: int| 0 <= k < lines@.len() ==> #[trigger] lines@[k]@ == ls[k],
                r@.map_values(|p: TmuxPane| p@) == panes_of(ls.take(i as int)),
            decreases lines@.len() - i,
        {
            let line = lines[i].as_slice();
            proof {
                assert(ls.take(i + 1).drop_last() =~= ls.take(i as int));
                assert(ls.take(i + 1).last() == ls[i as int]);
                assert(lines@[i as int]@ == ls[i as int]);
            }
            if line.len() > 0 {
                let parts = split_on(line, '\t');
                if parts.len() >= 5 {
                    let p = TmuxPane {
                        window_index: u32_or_zero_of(parts[0].as_slice()),
                        index: u32_or_zero_of(parts[1].as_slice()),
                        pid: u32_or_zero_of(parts[2].as_slice()),
                        command: string_of(parts[3].as_slice()),
                        cwd: string_of(parts[4].as_slice()),
                    };
                    r.push(p);
                }
            }
            assert(r@.map_values(|p: TmuxPane| p@) =~= panes_of(ls.take(i + 1)));
            i = i + 1;
        }
        assert(ls.take(lines@.len() as int) =~= ls);
        r
    }

    /// Parse the answer to [`TmuxClient::pane_context`].
    pub fn parse_pane_context(output: &str) -> (r: Option<PaneContext>)
        ensures
            match context_of(output@) {
                Some(c) => r matches Some(x) && x@ == c,
                None => r is None,
            },
    {
        let text = chars_of(output);
        let lines = split_lines(text.as_slice());
        if lines.len() == 0 {
            return None;
        }
        assert(lines@[0]@ == lines_of(output@)[0]);
        let parts = split_on(lines[0].as_slice(), '\t');
        if parts.len() < 4 {
            return None;
        }
        Some(
            PaneContext {
                session_name: string_of(parts[0].as_slice()),
                window_index: u32_or_zero_of(parts[1].as_slice()),
                window_name: string_of(parts[2].as_slice()),
                cwd: string_of(parts[3].as_slice()),
            },
        )
    }
}

} // verus!
