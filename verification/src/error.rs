//! Errors produced by the muster library.
use vstd::prelude::*;

use crate::text::{concat, chars_of, string_of};

verus! {

/// Errors produced by the muster library.
///
/// Failures that come from the operating system or from a serializer are kept
/// as their message text.
#[derive(Debug, Clone, PartialEq, Eq)]
pub enum Error {
    TmuxNotFound,
    TmuxError(String),
    Io(String),
    ConfigDir(String),
    ProfileNotFound(String),
    DuplicateProfile(String),
    SessionNotFound(String),
    Serialization(String),
    InvalidColor(String),
}

/// `prefix` followed by `detail`.
fn with_detail(prefix: &str, detail: &String) -> (r: String)
    ensures
        r@ == prefix@ + detail@,
{
    let p = chars_of(prefix);
    let d = chars_of(detail.as_str());
    let all = concat(p.as_slice(), d.as_slice());
    string_of(all.as_slice())
}

impl Error {
    /// The text of [`Error::message`].
    pub open spec fn message_view(&self) -> Seq<char> {
        match self {
            Error::TmuxNotFound => "tmux not found in PATH"@,
            Error::TmuxError(s) => "tmux command failed: "@ + s@,
            Error::Io(s) => "IO error: "@ + s@,
            Error::ConfigDir(s) => "config directory error: "@ + s@,
            Error::ProfileNotFound(s) => "profile not found: "@ + s@,
            Error::DuplicateProfile(s) => "duplicate profile: "@ + s@,
            Error::SessionNotFound(s) => "session not found: "@ + s@,
            Error::Serialization(s) => "serialization error: "@ + s@,
            Error::InvalidColor(s) => "invalid color: "@ + s@,
        }
    }

    /// The message shown to the user for this error.
    pub fn message(&self) -> (r: String)
        ensures
            r@ == self.message_view(),
    {
        match self {
            Error::TmuxNotFound => "tmux not found in PATH".to_owned(),
            Error::TmuxError(s) => with_detail("tmux command failed: ", s),
            Error::Io(s) => with_detail("IO error: ", s),
            Error::ConfigDir(s) => with_detail("config directory error: ", s),
            Error::ProfileNotFound(s) => with_detail("profile not found: ", s),
            Error::DuplicateProfile(s) => with_detail("duplicate profile: ", s),
            Error::SessionNotFound(s) => with_detail("session not found: ", s),
            Error::Serialization(s) => with_detail("serialization error: ", s),
            Error::InvalidColor(s) => with_detail("invalid color: ", s),
        }
    }
}

} // verus!
