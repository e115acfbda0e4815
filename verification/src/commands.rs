//! The decisions behind the command-line commands: filtering the session list,
//! reading `--tab` arguments, finding profiles and tabs, and turning an edited
//! profile back into a profile.
use vstd::prelude::*;

use crate::config::profile::{
    copy_opt, opt_string_view, slug_of, slugify, PaneProfile, PaneView, Profile, ProfileView,
    TabProfile, TabView,
};
use crate::error::Error;
use crate::session::launch::{home_dir, nonempty_home};
use crate::text::{
    append_chars, append_decimal, append_str, ascii_lower_char, chars_of, decimal, eq_str, lines_of,
    owned, parse_bounded, parse_unsigned, splitn_char, splitn_on, string_of,
};
use crate::tmux::types::{SessionInfo, SessionInfoView, TmuxWindow, TmuxWindowView};

verus! {

// ---------------------------------------------------------------------------
// Filtering sessions
// ---------------------------------------------------------------------------

/// A session matches a filter by display name, profile id or session name.
pub open spec fn session_matches(s: SessionInfoView, f: Seq<char>) -> bool {
    s.display_name == f || s.profile_id == Some(f) || s.session_name == f
}

/// The sessions that match filter `f`, in order.
pub open spec fn matching_sessions(ss: Seq<SessionInfoView>, f: Seq<char>) -> Seq<SessionInfoView>
    decreases ss.len(),
{
    if ss.len() == 0 {
        seq![]
    } else {
        matching_sessions(ss.drop_last(), f) + if session_matches(ss.last(), f) {
            seq![ss.last()]
        } else {
            seq![]
        }
    }
}

/// Every session kept by a filter matches it, and filtering again by the same
/// filter keeps them all.
pub proof fn lemma_filter_idempotent(ss: Seq<SessionInfoView>, f: Seq<char>)
    ensures
        forall|i: int|
            0 <= i < matching_sessions(ss, f).len() ==> session_matches(
                #[trigger] matching_sessions(ss, f)[i],
                f,
            ),
        matching_sessions(matching_sessions(ss, f), f) == matching_sessions(ss, f),
    decreases ss.len(),
{
    if ss.len() > 0 {
        lemma_filter_idempotent(ss.drop_last(), f);
        let prev = matching_sessions(ss.drop_last(), f);
        let m = matching_sessions(ss, f);
        assert forall|i: int| 0 <= i < m.len() implies session_matches(#[trigger] m[i], f) by {
            if i < prev.len() {
                assert(m[i] == prev[i]);
            }
        }
        if session_matches(ss.last(), f) {
            assert(m.drop_last() =~= prev);
            assert(m.last() == ss.last());
        } else {
            assert(m =~= prev);
        }
    }
}

fn text_is(a: &str, b: &str) -> (r: bool)
    ensures
        r == (a@ == b@),
{
    let ac = chars_of(a);
    eq_str(ac.as_slice(), b)
}

/// Keep only the sessions that match `filter` (when one is given); an error
/// when a filter is given and nothing matches it.
pub fn filter_sessions(sessions: &mut Vec<SessionInfo>, filter: Option<&str>) -> (r: Result<
    (),
    String,
>)
    ensures
        match filter {
            None => r is Ok && final(sessions)@ == old(sessions)@,
            Some(f) => final(sessions)@.map_values(|s: SessionInfo| s@) == matching_sessions(
                old(sessions)@.map_values(|s: SessionInfo| s@),
                f@,
            ) && (r is Ok <==> final(sessions)@.len() > 0) && (r matches Err(m) ==> m@
                == "No session found for: "@ + f@),
        },
{
    let f = match filter {
        None => return Ok(()),
        Some(f) => f,
    };
    let ghost all = sessions@.map_values(|s: SessionInfo| s@);
    let mut kept: Vec<SessionInfo> = Vec::new();
    let mut i: usize = 0;
    while i < sessions.len()
        invariant
            i <= sessions@.len(),
            all == sessions@.map_values(|s: SessionInfo| s@),
            kept@.map_values(|s: SessionInfo| s@) == matching_sessions(all.take(i as int), f@),
        decreases sessions@.len() - i,
    {
        let s = &sessions[i];
        assert(all[i as int] == s@);
        assert(all.take(i + 1).drop_last() =~= all.take(i as int));
        let by_profile = match &s.profile_id {
            Some(p) => text_is(p.as_str(), f),
            None => false,
        };
        if text_is(s.display_name.as_str(), f) || by_profile || text_is(s.session_name.as_str(), f) {
            let c = copy_info(s);
            let ghost before = kept@.map_values(|s: SessionInfo| s@);
            let ghost cv = c@;
            kept.push(c);
            assert(kept@.map_values(|s: SessionInfo| s@) =~= before.push(cv));
        }
        i = i + 1;
    }
    assert(all.take(sessions@.len() as int) =~= all);
    *sessions = kept;
    if sessions.len() == 0 {
        let mut m = chars_of("No session found for: ");
        append_str(&mut m, f);
        proof {
            reveal_strlit("No session found for: ");
        }
        return Err(string_of(m.as_slice()));
    }
    Ok(())
}

fn copy_info(s: &SessionInfo) -> (r: SessionInfo)
    ensures
        r@ == s@,
{
    SessionInfo {
        session_name: owned(s.session_name.as_str()),
        display_name: owned(s.display_name.as_str()),
        color: owned(s.color.as_str()),
        profile_id: match &s.profile_id {
            Some(p) => Some(owned(p.as_str())),
            None => None,
        },
        window_count: s.window_count,
        attached: s.attached,
    }
}

// ---------------------------------------------------------------------------
// Tabs from the command line
// ---------------------------------------------------------------------------

/// The message for a `--tab` argument that is not `name:cwd[:command]`.
pub open spec fn bad_tab_message(input: Seq<char>) -> Seq<char> {
    "invalid tab format '"@ + input + "': expected 'name:cwd' or 'name:cwd:command'"@
}

/// The tab a `name:cwd[:command]` argument describes: the text is split on its
/// first two colons; a cwd of `.` stands for `here`, and an empty command for
/// none.
pub open spec fn tab_of_arg(input: Seq<char>, here: Seq<char>) -> Result<TabView, Seq<char>> {
    let parts = splitn_char(input, 3, ':');
    if parts.len() < 2 {
        Err(bad_tab_message(input))
    } else {
        Ok(
            TabView {
                name: parts[0],
                cwd: if parts[1] == "."@ {
                    here
                } else {
                    parts[1]
                },
                command: if parts.len() > 2 && parts[2].len() > 0 {
                    Some(parts[2])
                } else {
                    None
                },
                layout: None,
                panes: seq![],
            },
        )
    }
}

/// Parse a `name:cwd[:command]` string into a tab; `here` is the current
/// directory, which a cwd of `.` stands for.
pub fn parse_tab(input: &str, here: &str) -> (r: Result<TabProfile, String>)
    ensures
        match tab_of_arg(input@, here@) {
            Ok(t) => r matches Ok(x) && x@ == t,
            Err(m) => r matches Err(e) && e@ == m,
        },
{
    let v = chars_of(input);
    let parts = splitn_on(v.as_slice(), 3, ':');
    if parts.len() < 2 {
        let mut m = chars_of("invalid tab format '");
        append_str(&mut m, input);
        append_str(&mut m, "': expected 'name:cwd' or 'name:cwd:command'");
        proof {
            reveal_strlit("invalid tab format '");
        }
        return Err(string_of(m.as_slice()));
    }
    let name = string_of(parts[0].as_slice());
    let cwd = if eq_str(parts[1].as_slice(), ".") {
        owned(here)
    } else {
        string_of(parts[1].as_slice())
    };
    let command = if parts.len() > 2 && parts[2].len() > 0 {
        Some(string_of(parts[2].as_slice()))
    } else {
        None
    };
    let t = TabProfile { name, cwd, command, layout: None, panes: Vec::new() };
    assert(t@.panes =~= Seq::<PaneView>::empty());
    Ok(t)
}

/// The texts of a list of strings.
pub open spec fn texts(v: Seq<String>) -> Seq<Seq<char>> {
    v.map_values(|s: String| s@)
}

/// The tabs that `--tab` arguments `raw` describe, in order; the first bad
/// argument's message when one is bad.
pub open spec fn tabs_of_args(raw: Seq<Seq<char>>, here: Seq<char>) -> Result<Seq<TabView>, Seq<char>>
    decreases raw.len(),
{
    if raw.len() == 0 {
        Ok(seq![])
    } else {
        match tabs_of_args(raw.drop_last(), here) {
            Err(m) => Err(m),
            Ok(ts) => match tab_of_arg(raw.last(), here) {
                Err(m) => Err(m),
                Ok(t) => Ok(ts.push(t)),
            },
        }
    }
}

/// The tab used when no `--tab` is given: `Shell` in the home directory, or in
/// `/tmp` when there is none.
pub open spec fn default_shell_tab(home: Option<Seq<char>>) -> TabView {
    TabView {
        name: "Shell"@,
        cwd: match home {
            Some(h) => h,
            None => "/tmp"@,
        },
        command: None,
        layout: None,
        panes: seq![],
    }
}

/// The tabs of `tabs_of_args`, or the default tab when there are no arguments.
pub open spec fn built_tabs_of(raw: Seq<Seq<char>>, here: Seq<char>, home: Option<Seq<char>>) -> Result<
    Seq<TabView>,
    Seq<char>,
> {
    if raw.len() == 0 {
        Ok(seq![default_shell_tab(home)])
    } else {
        tabs_of_args(raw, here)
    }
}

/// Build tabs from `--tab` arguments, with the home directory `home` for the
/// default tab and the current directory `here` for a cwd of `.`.
pub fn build_tabs_with(raw: &[String], here: &str, home: Option<&str>) -> (r: Result<
    Vec<TabProfile>,
    String,
>)
    ensures
        match built_tabs_of(
            raw@.map_values(|s: String| s@),
            here@,
            match home {
                Some(h) => Some(h@),
                None => None,
            },
        ) {
            Ok(ts) => r matches Ok(v) && v@.map_values(|t: TabProfile| t@) == ts,
            Err(m) => r matches Err(e) && e@ == m,
        },
{
    let ghost rv = raw@.map_values(|s: String| s@);
    let mut tabs: Vec<TabProfile> = Vec::new();
    if raw.len() == 0 {
        let cwd = match home {
            Some(h) => owned(h),
            None => owned("/tmp"),
        };
        let t = TabProfile { name: owned("Shell"), cwd, command: None, layout: None, panes: Vec::new() };
        assert(t@.panes =~= Seq::<PaneView>::empty());
        let ghost tv = t@;
        tabs.push(t);
        assert(tabs@.map_values(|t: TabProfile| t@) =~= seq![tv]);
        return Ok(tabs);
    }
    let mut i: usize = 0;
    assert(rv.take(0) =~= Seq::<Seq<char>>::empty());
    assert(tabs@.map_values(|t: TabProfile| t@) =~= Seq::<TabView>::empty());
    while i < raw.len()
        invariant
            i <= raw@.len(),
            raw@.len() > 0,
            rv == raw@.map_values(|s: String| s@),
            tabs_of_args(rv.take(i as int), here@) == Ok::<Seq<TabView>, Seq<char>>(
                tabs@.map_values(|t: TabProfile| t@),
            ),
        decreases raw@.len() - i,
    {
        assert(rv.take(i + 1).drop_last() =~= rv.take(i as int));
        assert(rv.take(i + 1).last() == raw@[i as int]@);
        match parse_tab(raw[i].as_str(), here) {
            Ok(t) => {
                let ghost before = tabs@.map_values(|t: TabProfile| t@);
                let ghost tv = t@;
                tabs.push(t);
                assert(tabs@.map_values(|t: TabProfile| t@) =~= before.push(tv));
            },
            Err(e) => {
                proof {
                    lemma_tabs_error_stays(rv, here@, (i + 1) as nat);
                    assert(rv.take(raw@.len() as int) =~= rv);
                }
                return Err(e);
            },
        }
        i = i + 1;
    }
    assert(rv.take(raw@.len() as int) =~= rv);
    Ok(tabs)
}

proof fn lemma_tabs_error_stays(raw: Seq<Seq<char>>, here: Seq<char>, k: nat)
    requires
        k <= raw.len(),
        tabs_of_args(raw.take(k as int), here) is Err,
    ensures
        tabs_of_args(raw, here) == tabs_of_args(raw.take(k as int), here),
    decreases raw.len() - k,
{
    if k < raw.len() {
        assert(raw.take((k + 1) as int).drop_last() =~= raw.take(k as int));
        lemma_tabs_error_stays(raw, here, (k + 1) as nat);
    } else {
        assert(raw.take(k as int) =~= raw);
    }
}

/// Build tabs from `--tab` arguments, defaulting to a single `Shell` tab in the
/// home directory that the environment gives (or `/tmp`).
pub fn build_tabs(raw: &[String], here: &str) -> (r: Result<Vec<TabProfile>, String>)
    ensures
        exists|home: Option<Seq<char>>|
            nonempty_home(home) && match #[trigger] built_tabs_of(texts(raw@), here@, home) {
                Ok(ts) => r matches Ok(v) && v@.map_values(|t: TabProfile| t@) == ts,
                Err(m) => r matches Err(e) && e@ == m,
            },
{
    let home = home_dir();
    let r = match &home {
        Some(h) => build_tabs_with(raw, here, Some(h.as_str())),
        None => build_tabs_with(raw, here, None),
    };
    proof {
        let hv = match home {
            Some(h) => Some(h@),
            None => None,
        };
        assert(nonempty_home(hv));
        let _ = built_tabs_of(texts(raw@), here@, hv);
    }
    r
}

// ---------------------------------------------------------------------------
// Finding profiles and tabs
// ---------------------------------------------------------------------------

/// A profile answers to its name and to its identifier.
pub open spec fn profile_answers(p: ProfileView, input: Seq<char>) -> bool {
    p.name == input || p.id == input
}

/// Position of the first profile that answers to `input`.
pub fn find_profile(profiles: &[Profile], input: &str) -> (r: Option<usize>)
    ensures
        match r {
            Some(i) => i < profiles@.len() && profile_answers(profiles@[i as int]@, input@)
                && forall|j: int| 0 <= j < i ==> !profile_answers(#[trigger] profiles@[j]@, input@),
            None => forall|j: int|
                0 <= j < profiles@.len() ==> !profile_answers(#[trigger] profiles@[j]@, input@),
        },
{
    let mut i: usize = 0;
    while i < profiles.len()
        invariant
            i <= profiles@.len(),
            forall|j: int| 0 <= j < i ==> !profile_answers(#[trigger] profiles@[j]@, input@),
        decreases profiles@.len() - i,
    {
        if text_is(profiles[i].name.as_str(), input) || text_is(profiles[i].id.as_str(), input) {
            return Some(i);
        }
        i = i + 1;
    }
    None
}

/// Position of the first tab named `name`, or -1.
pub open spec fn tab_named(tabs: Seq<TabView>, name: Seq<char>) -> int
    decreases tabs.len(),
{
    if tabs.len() == 0 {
        -1
    } else if tab_named(tabs.drop_last(), name) >= 0 {
        tab_named(tabs.drop_last(), name)
    } else if tabs.last().name == name {
        tabs.len() - 1
    } else {
        -1
    }
}

/// Which tab `profile tab remove` removes: a number is a tab index (an error
/// when out of range), anything else a tab name (an error when no tab has it);
/// a profile's last tab is never removed.
pub open spec fn tab_removal_of(tabs: Seq<TabView>, tab: Seq<char>) -> Result<nat, Seq<char>> {
    let found: Result<nat, Seq<char>> = match parse_unsigned(tab, usize::MAX as nat) {
        Some(i) => if i >= tabs.len() {
            Err(
                "Tab index "@ + decimal(i) + " out of range (profile has "@ + decimal(tabs.len())
                    + " tab(s))."@,
            )
        } else {
            Ok(i)
        },
        None => if tab_named(tabs, tab) >= 0 {
            Ok(tab_named(tabs, tab) as nat)
        } else {
            Err("Tab not found: "@ + tab)
        },
    };
    match found {
        Err(m) => Err(m),
        Ok(i) => if tabs.len() == 1 {
            Err("Cannot remove the last tab from a profile."@)
        } else {
            Ok(i)
        },
    }
}

proof fn lemma_tab_named_found(tabs: Seq<TabView>, name: Seq<char>)
    ensures
        tab_named(tabs, name) < tabs.len(),
        tab_named(tabs, name) >= 0 ==> tabs[tab_named(tabs, name)].name == name,
    decreases tabs.len(),
{
    if tabs.len() > 0 {
        lemma_tab_named_found(tabs.drop_last(), name);
        let i = tab_named(tabs.drop_last(), name);
        if i >= 0 {
            assert(tabs[i] == tabs.drop_last()[i]);
        }
    }
}

/// A tab chosen for removal exists, and it is never a profile's last tab: the
/// profile keeps at least one tab.
pub proof fn lemma_tab_removal_keeps_a_tab(tabs: Seq<TabView>, tab: Seq<char>)
    ensures
        tab_removal_of(tabs, tab) matches Ok(i) ==> i < tabs.len() && tabs.len() >= 2,
        tab_removal_of(tabs, tab) matches Ok(i) ==> (parse_unsigned(tab, usize::MAX as nat) is None
            ==> tabs[i as int].name == tab),
{
    lemma_tab_named_found(tabs, tab);
}

fn tab_named_exec(tabs: &Vec<TabProfile>, name: &str) -> (r: Option<usize>)
    ensures
        match r {
            Some(i) => i == tab_named(tabs@.map_values(|t: TabProfile| t@), name@),
            None => tab_named(tabs@.map_values(|t: TabProfile| t@), name@) < 0,
        },
{
    let ghost tv = tabs@.map_values(|t: TabProfile| t@);
    let mut i: usize = 0;
    while i < tabs.len()
        invariant
            i <= tabs@.len(),
            tv == tabs@.map_values(|t: TabProfile| t@),
            tab_named(tv.take(i as int), name@) < 0,
        decreases tabs@.len() - i,
    {
        assert(tv.take(i + 1).drop_last() =~= tv.take(i as int));
        assert(tv.take(i + 1).last() == tabs@[i as int]@);
        if text_is(tabs[i].name.as_str(), name) {
            proof {
                lemma_tab_named_prefix(tv, name@, (i + 1) as nat);
            }
            return Some(i);
        }
        i = i + 1;
    }
    assert(tv.take(tabs@.len() as int) =~= tv);
    None
}

proof fn lemma_tab_named_prefix(tabs: Seq<TabView>, name: Seq<char>, k: nat)
    requires
        k <= tabs.len(),
        tab_named(tabs.take(k as int), name) >= 0,
    ensures
        tab_named(tabs, name) == tab_named(tabs.take(k as int), name),
    decreases tabs.len() - k,
{
    if k < tabs.len() {
        assert(tabs.take((k + 1) as int).drop_last() =~= tabs.take(k as int));
        lemma_tab_named_prefix(tabs, name, (k + 1) as nat);
    } else {
        assert(tabs.take(k as int) =~= tabs);
    }
}

/// The position of the tab that `tab` designates in `profile`, for removal.
pub fn tab_to_remove(profile: &Profile, tab: &str) -> (r: Result<usize, String>)
    ensures
        match tab_removal_of(profile@.tabs, tab@) {
            Ok(i) => r == Ok::<usize, String>(i as usize),
            Err(m) => r matches Err(e) && e@ == m,
        },
{
    let len = profile.tabs.len();
    let t = chars_of(tab);
    let idx = match parse_bounded(t.as_slice(), usize::MAX as u64) {
        Some(i) => {
            if i >= len as u64 {
                let mut m = chars_of("Tab index ");
                append_decimal(&mut m, i);
                append_str(&mut m, " out of range (profile has ");
                append_decimal(&mut m, len as u64);
                append_str(&mut m, " tab(s)).");
                proof {
                    reveal_strlit("Tab index ");
                }
                return Err(string_of(m.as_slice()));
            }
            i as usize
        },
        None => match tab_named_exec(&profile.tabs, tab) {
            Some(i) => i,
            None => {
                let mut m = chars_of("Tab not found: ");
                append_str(&mut m, tab);
                proof {
                    reveal_strlit("Tab not found: ");
                }
                return Err(string_of(m.as_slice()));
            },
        },
    };
    if len == 1 {
        return Err(owned("Cannot remove the last tab from a profile."));
    }
    Ok(idx)
}

// ---------------------------------------------------------------------------
// Editing a profile as text
// ---------------------------------------------------------------------------

/// A pane as the profile editor shows it.
pub struct EditablePane {
    pub cwd: Option<String>,
    pub command: Option<String>,
}

/// A tab as the profile editor shows it.
pub struct EditableTab {
    pub name: String,
    pub cwd: String,
    pub command: Option<String>,
    pub layout: Option<String>,
    pub panes: Vec<EditablePane>,
}

/// A profile as the editor shows it: without its identifier, which is derived
/// from the name.
pub struct EditableProfile {
    pub name: String,
    pub color: String,
    pub tabs: Vec<EditableTab>,
}

/// The value of an [`EditableProfile`].
pub struct EditableProfileView {
    pub name: Seq<char>,
    pub color: Seq<char>,
    pub tabs: Seq<TabView>,
}

impl View for EditablePane {
    type V = PaneView;

    open spec fn view(&self) -> PaneView {
        PaneView { cwd: opt_string_view(self.cwd), command: opt_string_view(self.command) }
    }
}

impl View for EditableTab {
    type V = TabView;

    open spec fn view(&self) -> TabView {
        TabView {
            name: self.name@,
            cwd: self.cwd@,
            command: opt_string_view(self.command),
            layout: opt_string_view(self.layout),
            panes: self.panes@.map_values(|p: EditablePane| p@),
        }
    }
}

impl View for EditableProfile {
    type V = EditableProfileView;

    open spec fn view(&self) -> EditableProfileView {
        EditableProfileView {
            name: self.name@,
            color: self.color@,
            tabs: self.tabs@.map_values(|t: EditableTab| t@),
        }
    }
}

fn pane_of(p: EditablePane) -> (r: PaneProfile)
    ensures
        r@ == p@,
{
    PaneProfile { cwd: p.cwd, command: p.command }
}

fn tab_of(t: EditableTab) -> (r: TabProfile)
    ensures
        r@ == t@,
{
    let ghost pv = t.panes@.map_values(|p: EditablePane| p@);
    let mut src = t.panes;
    let mut panes: Vec<PaneProfile> = Vec::new();
    let ghost whole = src@;
    let mut rev: Vec<EditablePane> = Vec::new();
    while src.len() > 0
        invariant
            whole == src@ + rev@.reverse(),
        decreases src@.len(),
    {
        let p = src.pop().unwrap();
        rev.push(p);
        assert(whole =~= src@ + rev@.reverse());
    }
    assert(rev@.reverse() =~= whole);
    while rev.len() > 0
        invariant
            panes@.map_values(|q: PaneProfile| q@) + rev@.reverse().map_values(|q: EditablePane| q@)
                == whole.map_values(|q: EditablePane| q@),
        decreases rev@.len(),
    {
        let p = rev.pop().unwrap();
        let ghost before = panes@.map_values(|q: PaneProfile| q@);
        let q = pane_of(p);
        let ghost qv = q@;
        panes.push(q);
        assert(panes@.map_values(|q: PaneProfile| q@) =~= before.push(qv));
        assert(panes@.map_values(|q: PaneProfile| q@) + rev@.reverse().map_values(
            |q: EditablePane| q@,
        ) =~= whole.map_values(|q: EditablePane| q@));
    }
    let r = TabProfile { name: t.name, cwd: t.cwd, command: t.command, layout: t.layout, panes };
    assert(r@.panes =~= pv);
    r
}

/// The editable form of a profile: its name, colour and tabs, without the
/// identifier.
pub open spec fn editable_of(p: ProfileView) -> EditableProfileView {
    EditableProfileView { name: p.name, color: p.color, tabs: p.tabs }
}

/// The profile an edited text describes: the identifier is the slug of the
/// name, the rest is taken as it stands.
pub open spec fn profile_of_editable(e: EditableProfileView) -> ProfileView {
    ProfileView { id: slug_of(e.name), name: e.name, color: e.color, tabs: e.tabs }
}

/// Editing a profile without changing anything gives it back, for every
/// profile whose identifier is the slug of its name (as every profile made
/// from a name is).
pub proof fn lemma_edit_round_trip(p: ProfileView)
    requires
        p.id == slug_of(p.name),
    ensures
        profile_of_editable(editable_of(p)) == p,
{
}

fn editable_pane(p: &PaneProfile) -> (r: EditablePane)
    ensures
        r@ == p@,
{
    EditablePane { cwd: copy_opt(&p.cwd), command: copy_opt(&p.command) }
}

fn editable_tab(t: &TabProfile) -> (r: EditableTab)
    ensures
        r@ == t@,
{
    let ghost pv = t.panes@.map_values(|p: PaneProfile| p@);
    let mut panes: Vec<EditablePane> = Vec::new();
    let mut i: usize = 0;
    while i < t.panes.len()
        invariant
            i <= t.panes@.len(),
            pv == t.panes@.map_values(|p: PaneProfile| p@),
            panes@.map_values(|p: EditablePane| p@) == pv.take(i as int),
        decreases t.panes@.len() - i,
    {
        let ghost before = panes@.map_values(|p: EditablePane| p@);
        let q = editable_pane(&t.panes[i]);
        let ghost qv = q@;
        panes.push(q);
        assert(panes@.map_values(|p: EditablePane| p@) =~= before.push(qv));
        assert(pv.take(i + 1) =~= pv.take(i as int).push(pv[i as int]));
        i = i + 1;
    }
    assert(pv.take(t.panes@.len() as int) =~= pv);
    let r = EditableTab {
        name: owned(t.name.as_str()),
        cwd: owned(t.cwd.as_str()),
        command: copy_opt(&t.command),
        layout: copy_opt(&t.layout),
        panes,
    };
    assert(r@.panes =~= t@.panes);
    r
}

impl EditableProfile {
    /// The editable form of `p` (see [`editable_of`]).
    pub fn from_profile(p: &Profile) -> (r: EditableProfile)
        ensures
            r@ == editable_of(p@),
    {
        let ghost tv = p.tabs@.map_values(|t: TabProfile| t@);
        let mut tabs: Vec<EditableTab> = Vec::new();
        let mut i: usize = 0;
        while i < p.tabs.len()
            invariant
                i <= p.tabs@.len(),
                tv == p.tabs@.map_values(|t: TabProfile| t@),
                tabs@.map_values(|t: EditableTab| t@) == tv.take(i as int),
            decreases p.tabs@.len() - i,
        {
            let ghost before = tabs@.map_values(|t: EditableTab| t@);
            let q = editable_tab(&p.tabs[i]);
            let ghost qv = q@;
            tabs.push(q);
            assert(tabs@.map_values(|t: EditableTab| t@) =~= before.push(qv));
            assert(tv.take(i + 1) =~= tv.take(i as int).push(tv[i as int]));
            i = i + 1;
        }
        assert(tv.take(p.tabs@.len() as int) =~= tv);
        let r = EditableProfile {
            name: owned(p.name.as_str()),
            color: owned(p.color.as_str()),
            tabs,
        };
        assert(r@.tabs =~= p@.tabs);
        r
    }

    /// The profile this edited text describes; its identifier is the slug of
    /// its name (see [`profile_of_editable`]).
    pub fn into_profile(self) -> (r: Profile)
        ensures
            r@ == profile_of_editable(self@),
    {
        let ghost sv = self@;
        let id = slugify(self.name.as_str());
        let mut src = self.tabs;
        let ghost whole = src@;
        let mut rev: Vec<EditableTab> = Vec::new();
        while src.len() > 0
            invariant
                whole == src@ + rev@.reverse(),
            decreases src@.len(),
        {
            let t = src.pop().unwrap();
            rev.push(t);
            assert(whole =~= src@ + rev@.reverse());
        }
        assert(rev@.reverse() =~= whole);
        let mut tabs: Vec<TabProfile> = Vec::new();
        while rev.len() > 0
            invariant
                tabs@.map_values(|q: TabProfile| q@) + rev@.reverse().map_values(
                    |q: EditableTab| q@,
                ) == whole.map_values(|q: EditableTab| q@),
            decreases rev@.len(),
        {
            let t = rev.pop().unwrap();
            let ghost before = tabs@.map_values(|q: TabProfile| q@);
            let q = tab_of(t);
            let ghost qv = q@;
            tabs.push(q);
            assert(tabs@.map_values(|q: TabProfile| q@) =~= before.push(qv));
            assert(tabs@.map_values(|q: TabProfile| q@) + rev@.reverse().map_values(
                |q: EditableTab| q@,
            ) =~= whole.map_values(|q: EditableTab| q@));
        }
        let r = Profile { id, name: self.name, color: self.color, tabs };
        assert(r@.tabs =~= sv.tabs);
        r
    }
}

// ---------------------------------------------------------------------------
// Pane exit notifications
// ---------------------------------------------------------------------------

/// At most the last five of `ls`.
pub open spec fn last_five(ls: Seq<Seq<char>>) -> Seq<Seq<char>> {
    if ls.len() <= 5 {
        ls
    } else {
        ls.skip(ls.len() - 5)
    }
}

/// The non-empty lines of `ls`, in order.
pub open spec fn non_empty_lines(ls: Seq<Seq<char>>) -> Seq<Seq<char>>
    decreases ls.len(),
{
    if ls.len() == 0 {
        seq![]
    } else {
        non_empty_lines(ls.drop_last()) + if ls.last().len() > 0 {
            seq![ls.last()]
        } else {
            seq![]
        }
    }
}

/// Lines joined by newlines.
pub open spec fn joined_lines(ls: Seq<Seq<char>>) -> Seq<char>
    decreases ls.len(),
{
    if ls.len() == 0 {
        seq![]
    } else if ls.len() == 1 {
        ls[0]
    } else {
        joined_lines(ls.drop_last()) + seq!['\n'] + ls.last()
    }
}

/// An integer in decimal, with a minus sign when negative.
pub open spec fn signed_decimal(i: int) -> Seq<char> {
    if i < 0 {
        seq!['-'] + decimal((-i) as nat)
    } else {
        decimal(i as nat)
    }
}

/// The body of the notification sent when a pane's process exits: its exit
/// code, then the non-empty lines among the last five lines of its output.
pub open spec fn pane_died_body_of(snapshot: Seq<char>, exit_code: int) -> Seq<char> {
    let last = joined_lines(non_empty_lines(last_five(lines_of(snapshot))));
    if last.len() == 0 {
        "Exit code: "@ + signed_decimal(exit_code)
    } else {
        "Exit code: "@ + signed_decimal(exit_code) + seq!['\n'] + last
    }
}

/// The body of a pane exit notification (see [`pane_died_body_of`]).
pub fn pane_died_body(snapshot: &str, exit_code: i32) -> (r: String)
    ensures
        r@ == pane_died_body_of(snapshot@, exit_code as int),
{
    let text = chars_of(snapshot);
    let lines = crate::text::split_lines(text.as_slice());
    let ghost ls = lines_of(snapshot@);
    let start: usize = if lines.len() <= 5 {
        0
    } else {
        lines.len() - 5
    };
    let ghost tail = last_five(ls);
    assert(tail =~= ls.skip(start as int));
    let mut last: Vec<char> = Vec::new();
    let mut kept: usize = 0;
    let mut i: usize = start;
    assert(tail.take(0) =~= Seq::<Seq<char>>::empty());
    while i < lines.len()
        invariant
            start <= i <= lines@.len(),
            lines@.len() == ls.len(),
            tail == ls.skip(start as int),
            forall|k: int| 0 <= k < lines@.len() ==> #[trigger] lines@[k]@ == ls[k],
            last@ == joined_lines(non_empty_lines(tail.take(i - start))),
            kept == non_empty_lines(tail.take(i - start)).len(),
            kept <= i - start,
        decreases lines@.len() - i,
    {
        let ghost before = non_empty_lines(tail.take(i - start));
        assert(tail.take(i - start + 1).drop_last() =~= tail.take(i - start));
        assert(tail.take(i - start + 1).last() == lines@[i as int]@);
        let line = lines[i].as_slice();
        if line.len() > 0 {
            if kept > 0 {
                last.push('\n');
            }
            append_chars(&mut last, line);
            kept = kept + 1;
            assert(non_empty_lines(tail.take(i - start + 1)) == before.push(line@));
            assert(before.push(line@).drop_last() =~= before);
            assert(last@ =~= joined_lines(before.push(line@)));
        } else {
            assert(non_empty_lines(tail.take(i - start + 1)) =~= before);
        }
        i = i + 1;
    }
    assert(tail.take(lines@.len() - start) =~= tail);
    let mut body = chars_of("Exit code: ");
    proof {
        reveal_strlit("Exit code: ");
    }
    if exit_code < 0 {
        body.push('-');
        let magnitude: u64 = (0i64 - exit_code as i64) as u64;
        append_decimal(&mut body, magnitude);
    } else {
        append_decimal(&mut body, exit_code as u64);
    }
    assert(body@ =~= "Exit code: "@ + signed_decimal(exit_code as int));
    if last.len() > 0 {
        body.push('\n');
        append_chars(&mut body, last.as_slice());
    }
    string_of(body.as_slice())
}

// ---------------------------------------------------------------------------
// Choosing windows to peek at
// ---------------------------------------------------------------------------

/// Equal up to ASCII case (`str::eq_ignore_ascii_case`).
pub open spec fn eq_ignoring_ascii_case(a: Seq<char>, b: Seq<char>) -> bool {
    a.len() == b.len() && forall|i: int| 0 <= i < a.len() ==> ascii_lower_char(#[trigger] a[i])
        == ascii_lower_char(b[i])
}

/// A window is peeked at when one of `names` is its name, ignoring ASCII case.
pub open spec fn named_in(w: TmuxWindowView, names: Seq<Seq<char>>) -> bool {
    exists|j: int| 0 <= j < names.len() && eq_ignoring_ascii_case(w.name, #[trigger] names[j])
}

/// The windows to peek at: all of them when no names are given, else those
/// named in `names`, in order.
pub open spec fn peek_targets_of(ws: Seq<TmuxWindowView>, names: Seq<Seq<char>>) -> Seq<TmuxWindowView>
    decreases ws.len(),
{
    if names.len() == 0 {
        ws
    } else if ws.len() == 0 {
        seq![]
    } else {
        peek_targets_of(ws.drop_last(), names) + if named_in(ws.last(), names) {
            seq![ws.last()]
        } else {
            seq![]
        }
    }
}

fn lower_char(c: char) -> (r: char)
    ensures
        r == ascii_lower_char(c),
{
    if c >= 'A' && c <= 'Z' {
        let b: u8 = c as u8;
        assert(b == c as u32);
        (b + 32) as char
    } else {
        c
    }
}

fn same_ignoring_case(a: &[char], b: &[char]) -> (r: bool)
    ensures
        r == eq_ignoring_ascii_case(a@, b@),
{
    if a.len() != b.len() {
        return false;
    }
    let mut i: usize = 0;
    while i < a.len()
        invariant
            i <= a@.len(),
            a@.len() == b@.len(),
            forall|k: int| 0 <= k < i ==> ascii_lower_char(#[trigger] a@[k]) == ascii_lower_char(b@[k]),
        decreases a@.len() - i,
    {
        if lower_char(a[i]) != lower_char(b[i]) {
            return false;
        }
        i = i + 1;
    }
    true
}

fn copy_window(w: &TmuxWindow) -> (r: TmuxWindow)
    ensures
        r@ == w@,
{
    TmuxWindow { index: w.index, name: owned(w.name.as_str()), cwd: owned(w.cwd.as_str()), active: w.active }
}

/// The windows to peek at (see [`peek_targets_of`]).
pub fn peek_targets(windows: &[TmuxWindow], names: &[String]) -> (r: Vec<TmuxWindow>)
    ensures
        r@.map_values(|w: TmuxWindow| w@) == peek_targets_of(
            windows@.map_values(|w: TmuxWindow| w@),
            texts(names@),
        ),
{
    let ghost wv = windows@.map_values(|w: TmuxWindow| w@);
    let ghost nv = texts(names@);
    let mut r: Vec<TmuxWindow> = Vec::new();
    let mut i: usize = 0;
    proof {
        assert(wv.take(0) =~= Seq::<TmuxWindowView>::empty());
        if nv.len() == 0 {
            assert(peek_targets_of(wv.take(0), nv) =~= Seq::<TmuxWindowView>::empty());
        }
    }
    while i < windows.len()
        invariant
            i <= windows@.len(),
            wv == windows@.map_values(|w: TmuxWindow| w@),
            nv == texts(names@),
            r@.map_values(|w: TmuxWindow| w@) == peek_targets_of(wv.take(i as int), nv),
        decreases windows@.len() - i,
    {
        assert(wv.take(i + 1).drop_last() =~= wv.take(i as int));
        assert(wv.take(i + 1).last() == windows@[i as int]@);
        let w = &windows[i];
        let mut wanted = names.len() == 0;
        if !wanted {
            let name = chars_of(w.name.as_str());
            let mut j: usize = 0;
            while j < names.len()
                invariant
                    j <= names@.len(),
                    name@ == w.name@,
                    nv == texts(names@),
                    !wanted ==> forall|k: int| 0 <= k < j ==> !eq_ignoring_ascii_case(
                        w.name@,
                        #[trigger] nv[k],
                    ),
                    wanted ==> named_in(w@, nv),
                decreases names@.len() - j,
            {
                let other = chars_of(names[j].as_str());
                assert(nv[j as int] == names@[j as int]@);
                if same_ignoring_case(name.as_slice(), other.as_slice()) {
                    wanted = true;
                }
                j = j + 1;
            }
        }
        proof {
            if names@.len() == 0 {
                assert(wv.take(i + 1) =~= wv.take(i as int).push(wv[i as int]));
            }
        }
        if wanted {
            let c = copy_window(w);
            let ghost before = r@.map_values(|w: TmuxWindow| w@);
            let ghost cv = c@;
            r.push(c);
            assert(r@.map_values(|w: TmuxWindow| w@) =~= before.push(cv));
        }
        i = i + 1;
    }
    assert(wv.take(windows@.len() as int) =~= wv);
    r
}

// ---------------------------------------------------------------------------
// Updating a profile inline
// ---------------------------------------------------------------------------

/// A profile after `profile update`: the new colour when one is given, and
/// the new name with its slug as identifier when one is given.
pub open spec fn updated_profile_of(
    p: ProfileView,
    name: Option<Seq<char>>,
    color: Option<Seq<char>>,
) -> ProfileView {
    let colored = match color {
        Some(c) => ProfileView { color: c, ..p },
        None => p,
    };
    match name {
        Some(n) => ProfileView { name: n, id: slug_of(n), ..colored },
        None => colored,
    }
}

/// Apply `profile update` to a profile: `color` is the already resolved new
/// colour. Whether the result needs a rename is whether its identifier changed.
pub fn update_profile_fields(profile: Profile, name: Option<&str>, color: Option<String>) -> (r: Profile)
    ensures
        r@ == updated_profile_of(
            profile@,
            match name {
                Some(n) => Some(n@),
                None => None,
            },
            opt_string_view(color),
        ),
{
    let mut p = profile;
    if let Some(c) = color {
        p.color = c;
    }
    if let Some(n) = name {
        p.id = slugify(n);
        p.name = owned(n);
    }
    p
}


// ---------------------------------------------------------------------------
// Saving an edited profile
// ---------------------------------------------------------------------------

/// What to do with a profile that came back from the editor.
pub enum EditStep {
    /// Report the problem and offer to edit again.
    Retry(String),
    /// Save it under its own identifier.
    Update,
    /// Save it under its new identifier in place of the old one (refused while
    /// a session of the old one runs).
    Rename,
}

/// What is done with an edited profile whose colour resolved to `color`, with
/// `tab_count` tabs, identifier `new_id` and former identifier `old_id`: an
/// invalid colour or a profile without tabs is edited again; else it is
/// updated in place when the identifier stayed, renamed when it changed.
pub fn edit_step(color: &Result<String, Error>, tab_count: usize, old_id: &str, new_id: &str) -> (r:
    EditStep)
    ensures
        match color {
            Err(e) => r matches EditStep::Retry(m) && m@ == "Invalid color: "@ + e.message_view(),
            Ok(_) => if tab_count == 0 {
                r matches EditStep::Retry(m) && m@ == "Profile must have at least one tab."@
            } else if old_id@ == new_id@ {
                r is Update
            } else {
                r is Rename
            },
        },
{
    match color {
        Err(e) => {
            let m = e.message();
            let mut t = chars_of("Invalid color: ");
            append_str(&mut t, m.as_str());
            EditStep::Retry(string_of(t.as_slice()))
        },
        Ok(_) => {
            if tab_count == 0 {
                EditStep::Retry(owned("Profile must have at least one tab."))
            } else {
                let a = chars_of(old_id);
                if eq_str(a.as_slice(), new_id) {
                    EditStep::Update
                } else {
                    EditStep::Rename
                }
            }
        },
    }
}

} // verus!
