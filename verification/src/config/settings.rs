//! Global settings: tmux path, shell, and terminal emulator preferences, and
//! where the configuration files live.
use vstd::prelude::*;

use crate::text::{append_str, chars_of, string_of};

verus! {

/// Global configuration for the muster runtime.
#[derive(Debug, Clone, PartialEq, Eq)]
pub struct Settings {
    /// Explicit path to the tmux binary. Discovered via PATH if not set.
    pub tmux_path: Option<String>,
    /// Shell to use for new tmux panes. Defaults to `$SHELL`.
    pub shell: Option<String>,
    /// Terminal emulator for new windows and notification click-to-source.
    pub terminal: Option<String>,
}

impl Default for Settings {
    fn default() -> (s: Self)
        ensures
            s.tmux_path is None,
            s.shell is None,
            s.terminal is None,
    {
        Settings { tmux_path: None, shell: None, terminal: None }
    }
}

/// `dir` joined with the file name `file`: a `/` is put between them unless
/// `dir` is empty or already ends with one.
pub open spec fn joined_path(dir: Seq<char>, file: Seq<char>) -> Seq<char> {
    if dir.len() == 0 || dir.last() == '/' {
        dir + file
    } else {
        dir + seq!['/'] + file
    }
}

/// The path of file `file` in directory `dir`.
pub fn join_path(dir: &str, file: &str) -> (r: String)
    ensures
        r@ == joined_path(dir@, file@),
{
    let mut v = chars_of(dir);
    let n = v.len();
    if n > 0 && v[n - 1] != '/' {
        v.push('/');
    }
    append_str(&mut v, file);
    assert(v@ =~= joined_path(dir@, file@));
    string_of(v.as_slice())
}

/// Where the settings of a configuration directory live.
pub struct SettingsStore {
    config_dir: String,
}

impl SettingsStore {
    /// The configuration directory.
    pub closed spec fn dir(&self) -> Seq<char> {
        self.config_dir@
    }

    /// A store for the configuration directory `config_dir`.
    pub fn in_dir(config_dir: &str) -> (s: Self)
        ensures
            s.dir() == config_dir@,
    {
        SettingsStore { config_dir: string_of(chars_of(config_dir).as_slice()) }
    }

    /// The path of `settings.json` in the configuration directory.
    pub fn settings_path(&self) -> (r: String)
        ensures
            r@ == joined_path(self.dir(), "settings.json"@),
    {
        join_path(self.config_dir.as_str(), "settings.json")
    }

    /// The path of `profiles.json` in the configuration directory.
    pub fn profiles_path(&self) -> (r: String)
        ensures
            r@ == joined_path(self.dir(), "profiles.json"@),
    {
        join_path(self.config_dir.as_str(), "profiles.json")
    }
}

} // verus!
