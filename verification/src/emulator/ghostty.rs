//! The Ghostty terminal emulator.
use vstd::prelude::*;

use crate::text::{chars_of, contains_str, lines_of, occurs_in, owned, split_lines};

verus! {

/// The Ghostty terminal emulator.
pub struct GhosttyEmulator;

/// `open -na Ghostty.app --args -e tmux attach -t <session>`: a new Ghostty
/// window attached to `session`.
pub open spec fn attach_args(session: Seq<char>) -> Seq<Seq<char>> {
    seq![
        "open"@,
        "-na"@,
        "Ghostty.app"@,
        "--args"@,
        "-e"@,
        "tmux"@,
        "attach"@,
        "-t"@,
        session,
    ]
}

/// A line of the process table that shows a Ghostty window attached to `session`.
pub open spec fn shows_session(line: Seq<char>, session: Seq<char>) -> bool {
    occurs_in(line, "Ghostty"@) && occurs_in(line, "tmux"@) && occurs_in(line, session)
}

/// Whether some line of the process listing `ps` shows a Ghostty window
/// attached to `session`.
pub open spec fn running_in(ps: Seq<char>, session: Seq<char>) -> bool {
    exists|i: int| 0 <= i < lines_of(ps).len() && #[trigger] shows_session(lines_of(ps)[i], session)
}

fn push_word(v: &mut Vec<String>, s: &str)
    ensures
        final(v)@.map_values(|x: String| x@) == old(v)@.map_values(|x: String| x@).push(s@),
{
    let ghost before = v@;
    v.push(owned(s));
    assert(v@.map_values(|x: String| x@) =~= before.map_values(|x: String| x@).push(s@));
}

impl GhosttyEmulator {
    /// A Ghostty emulator.
    pub fn new() -> (e: Self) {
        GhosttyEmulator
    }

    /// The command and arguments that open a Ghostty window attached to a
    /// session; launching runs exactly this command.
    pub fn attach_command(&self, session_name: &str) -> (r: Vec<String>)
        ensures
            r@.map_values(|x: String| x@) == attach_args(session_name@),
    {
        let mut v: Vec<String> = Vec::new();
        push_word(&mut v, "open");
        push_word(&mut v, "-na");
        push_word(&mut v, "Ghostty.app");
        push_word(&mut v, "--args");
        push_word(&mut v, "-e");
        push_word(&mut v, "tmux");
        push_word(&mut v, "attach");
        push_word(&mut v, "-t");
        push_word(&mut v, session_name);
        assert(v@.map_values(|x: String| x@) =~= attach_args(session_name@));
        v
    }

    /// Whether the output of `ps aux` shows a Ghostty window attached to the
    /// session: a line that mentions `Ghostty`, `tmux` and the session name.
    pub fn is_running_in(&self, ps_output: &str, session_name: &str) -> (r: bool)
        ensures
            r == running_in(ps_output@, session_name@),
    {
        let text = chars_of(ps_output);
        let lines = split_lines(text.as_slice());
        let mut i: usize = 0;
        while i < lines.len()
            invariant
                i <= lines@.len(),
                text@ == ps_output@,
                lines@.len() == lines_of(ps_output@).len(),
                forall|k: int| 0 <= k < lines@.len() ==> #[trigger] lines@[k]@ == lines_of(
                    ps_output@,
                )[k],
                forall|k: int| 0 <= k < i ==> !shows_session(#[trigger] lines_of(ps_output@)[k], session_name@),
            decreases lines@.len() - i,
        {
            let line = lines[i].as_slice();
            assert(lines@[i as int]@ == lines_of(ps_output@)[i as int]);
            if contains_str(line, "Ghostty") && contains_str(line, "tmux") && contains_str(
                line,
                session_name,
            ) {
                assert(shows_session(lines_of(ps_output@)[i as int], session_name@));
                return true;
            }
            i = i + 1;
        }
        false
    }
}

impl Default for GhosttyEmulator {
    fn default() -> (e: Self) {
        Self::new()
    }
}

} // verus!
