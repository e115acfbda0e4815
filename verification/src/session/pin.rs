//! Pinning windows to a session's profile: the pinned windows of a session are
//! its profile's tabs, in window order, so a window's tab is found by its rank
//! among the pinned windows before it.
use vstd::prelude::*;

use crate::config::profile::{
    opt_string_view, PaneProfile, PaneView, Profile, ProfileView, TabProfile, TabView, copy_opt,
};
use crate::text::{chars_of, eq_chars, owned, strip_prefix, strip_prefix_str, string_of};

verus! {

/// Result of a `pin` operation.
#[derive(Debug, Clone, PartialEq, Eq, Structural)]
pub enum PinResult {
    /// Window was newly pinned to the profile.
    Pinned,
    /// Window was already pinned; layout was updated.
    LayoutUpdated,
    /// Window was already pinned; layout unchanged.
    AlreadyCurrent,
}

/// The number of pinned windows whose index is below `w`; `ws` holds each
/// window's index and whether it is pinned.
pub open spec fn pinned_rank_of(ws: Seq<(u32, bool)>, w: u32) -> nat
    decreases ws.len(),
{
    if ws.len() == 0 {
        0
    } else {
        pinned_rank_of(ws.drop_last(), w) + if ws.last().0 < w && ws.last().1 {
            1nat
        } else {
            0nat
        }
    }
}

proof fn lemma_rank_bound(ws: Seq<(u32, bool)>, w: u32)
    ensures
        pinned_rank_of(ws, w) <= ws.len(),
    decreases ws.len(),
{
    if ws.len() > 0 {
        lemma_rank_bound(ws.drop_last(), w);
    }
}

/// Count the pinned windows whose index is less than `window_index`: the
/// position of that window's tab in the profile.
pub fn pinned_rank(windows: &[(u32, bool)], window_index: u32) -> (r: usize)
    ensures
        r == pinned_rank_of(windows@, window_index),
{
    let mut count: usize = 0;
    let mut i: usize = 0;
    while i < windows.len()
        invariant
            i <= windows@.len(),
            count == pinned_rank_of(windows@.take(i as int), window_index),
        decreases windows@.len() - i,
    {
        proof {
            assert(windows@.take(i + 1).drop_last() =~= windows@.take(i as int));
            lemma_rank_bound(windows@.take(i as int), window_index);
        }
        if windows[i].0 < window_index && windows[i].1 {
            count = count + 1;
        }
        i = i + 1;
    }
    assert(windows@.take(windows@.len() as int) =~= windows@);
    count
}

/// Where a newly pinned tab goes: at its rank, or at the end when the profile
/// has fewer tabs.
pub open spec fn insert_position(rank: nat, len: nat) -> nat {
    if rank < len {
        rank
    } else {
        len
    }
}

/// Profile `p` with `tab` inserted at the position of rank `rank`.
pub open spec fn with_pinned_tab(p: ProfileView, rank: nat, tab: TabView) -> ProfileView {
    ProfileView { tabs: p.tabs.insert(insert_position(rank, p.tabs.len()) as int, tab), ..p }
}

/// Profile `p` without its tab at `rank`, when it has one there.
pub open spec fn without_pinned_tab(p: ProfileView, rank: nat) -> ProfileView {
    if rank < p.tabs.len() {
        ProfileView { tabs: p.tabs.remove(rank as int), ..p }
    } else {
        p
    }
}

/// Add the tab of a newly pinned window to its profile, at the window's rank
/// among the pinned windows.
pub fn insert_pinned_tab(profile: Profile, rank: usize, tab: TabProfile) -> (r: Profile)
    ensures
        r@ == with_pinned_tab(profile@, rank as nat, tab@),
{
    let mut profile = profile;
    let pos = if rank < profile.tabs.len() {
        rank
    } else {
        profile.tabs.len()
    };
    let ghost before = profile.tabs@;
    let ghost tv = tab@;
    profile.tabs.insert(pos, tab);
    assert(profile.tabs@.map_values(|t: TabProfile| t@) =~= before.map_values(|t: TabProfile| t@).insert(
        pos as int,
        tv,
    ));
    profile
}

/// Remove the tab of an unpinned window, found by its rank, from its profile.
pub fn remove_pinned_tab(profile: Profile, rank: usize) -> (r: Profile)
    ensures
        r@ == without_pinned_tab(profile@, rank as nat),
{
    let mut profile = profile;
    if rank < profile.tabs.len() {
        let ghost before = profile.tabs@;
        let _removed = profile.tabs.remove(rank);
        assert(profile.tabs@.map_values(|t: TabProfile| t@) =~= before.map_values(
            |t: TabProfile| t@,
        ).remove(rank as int));
    }
    profile
}

/// The layout a window's panes give a pinned tab: none for a single pane;
/// otherwise the tmux layout string (none when empty) and one pane per working
/// directory, without commands.
pub open spec fn captured_layout_of(layout: Seq<char>, cwds: Seq<Seq<char>>) -> (
    Option<Seq<char>>,
    Seq<PaneView>,
) {
    if cwds.len() <= 1 {
        (None, seq![])
    } else {
        (
            if layout.len() == 0 {
                None
            } else {
                Some(layout)
            },
            cwds.map_values(|c: Seq<char>| PaneView { cwd: Some(c), command: None }),
        )
    }
}

/// The layout and panes to store for a window whose panes have the working
/// directories `pane_cwds` and whose tmux layout is `layout`.
pub fn captured_layout(layout: &str, pane_cwds: &[String]) -> (r: (Option<String>, Vec<PaneProfile>))
    ensures
        (opt_string_view(r.0), r.1@.map_values(|p: PaneProfile| p@)) == captured_layout_of(
            layout@,
            pane_cwds@.map_values(|s: String| s@),
        ),
{
    let ghost cv = pane_cwds@.map_values(|s: String| s@);
    if pane_cwds.len() <= 1 {
        let v: Vec<PaneProfile> = Vec::new();
        assert(v@.map_values(|p: PaneProfile| p@) =~= Seq::<PaneView>::empty());
        return (None, v);
    }
    let lc = chars_of(layout);
    let l = if lc.len() == 0 {
        None
    } else {
        Some(owned(layout))
    };
    let mut panes: Vec<PaneProfile> = Vec::new();
    let mut i: usize = 0;
    while i < pane_cwds.len()
        invariant
            i <= pane_cwds@.len(),
            cv == pane_cwds@.map_values(|s: String| s@),
            panes@.map_values(|p: PaneProfile| p@) == cv.take(i as int).map_values(
                |c: Seq<char>| PaneView { cwd: Some(c), command: None },
            ),
        decreases pane_cwds@.len() - i,
    {
        let ghost before = panes@.map_values(|p: PaneProfile| p@);
        let p = PaneProfile { cwd: Some(owned(pane_cwds[i].as_str())), command: None };
        assert(cv[i as int] == pane_cwds@[i as int]@);
        assert(p@ == PaneView { cwd: Some(cv[i as int]), command: None });
        let ghost pv = p@;
        panes.push(p);
        assert(panes@.map_values(|p: PaneProfile| p@) =~= before.push(pv));
        assert(cv.take(i + 1) =~= cv.take(i as int).push(cv[i as int]));
        assert(panes@.map_values(|p: PaneProfile| p@) =~= cv.take(i + 1).map_values(
            |c: Seq<char>| PaneView { cwd: Some(c), command: None },
        ));
        i = i + 1;
    }
    assert(cv.take(pane_cwds@.len() as int) =~= cv);
    (l, panes)
}

/// The panes hold the same working directories, pane by pane.
pub open spec fn same_cwds(old: Seq<PaneView>, new: Seq<PaneView>) -> bool {
    old.len() == new.len() && forall|i: int| 0 <= i < old.len() ==> #[trigger] old[i].cwd == new[i].cwd
}

/// The captured panes `new`, each keeping the command of the old pane at the
/// same position when it has none of its own.
pub open spec fn merge_panes(old: Seq<PaneView>, new: Seq<PaneView>) -> Seq<PaneView> {
    Seq::new(
        new.len(),
        |i: int|
            if i < old.len() && new[i].command is None {
                PaneView { cwd: new[i].cwd, command: old[i].command }
            } else {
                new[i]
            },
    )
}

/// Re-pinning the window whose tab is at `pos` with a freshly captured layout:
/// nothing to do when there is no such tab or when its layout and pane
/// directories are unchanged; otherwise the tab takes the new layout and the
/// merged panes.
pub open spec fn repin_of(
    p: ProfileView,
    pos: nat,
    layout: Option<Seq<char>>,
    panes: Seq<PaneView>,
) -> (PinResult, ProfileView) {
    if pos >= p.tabs.len() {
        (PinResult::AlreadyCurrent, p)
    } else {
        let t = p.tabs[pos as int];
        if t.layout == layout && same_cwds(t.panes, panes) {
            (PinResult::AlreadyCurrent, p)
        } else {
            (
                PinResult::LayoutUpdated,
                ProfileView {
                    tabs: p.tabs.update(
                        pos as int,
                        TabView { layout, panes: merge_panes(t.panes, panes), ..t },
                    ),
                    ..p
                },
            )
        }
    }
}

fn opt_text_eq(a: &Option<String>, b: &Option<String>) -> (r: bool)
    ensures
        r == (opt_string_view(*a) == opt_string_view(*b)),
{
    match (a, b) {
        (Some(x), Some(y)) => {
            let xc = chars_of(x.as_str());
            let yc = chars_of(y.as_str());
            eq_chars(xc.as_slice(), yc.as_slice())
        },
        (None, None) => true,
        _ => false,
    }
}

fn cwds_equal(old: &Vec<PaneProfile>, new: &Vec<PaneProfile>) -> (r: bool)
    ensures
        r == same_cwds(old@.map_values(|p: PaneProfile| p@), new@.map_values(|p: PaneProfile| p@)),
{
    let ghost ov = old@.map_values(|p: PaneProfile| p@);
    let ghost nv = new@.map_values(|p: PaneProfile| p@);
    if old.len() != new.len() {
        return false;
    }
    let mut i: usize = 0;
    while i < old.len()
        invariant
            i <= old@.len(),
            old@.len() == new@.len(),
            ov == old@.map_values(|p: PaneProfile| p@),
            nv == new@.map_values(|p: PaneProfile| p@),
            forall|k: int| 0 <= k < i ==> #[trigger] ov[k].cwd == nv[k].cwd,
        decreases old@.len() - i,
    {
        if !opt_text_eq(&old[i].cwd, &new[i].cwd) {
            assert(ov[i as int].cwd != nv[i as int].cwd);
            return false;
        }
        i = i + 1;
    }
    true
}

fn merged(old: &Vec<PaneProfile>, new: Vec<PaneProfile>) -> (r: Vec<PaneProfile>)
    ensures
        r@.map_values(|p: PaneProfile| p@) == merge_panes(
            old@.map_values(|p: PaneProfile| p@),
            new@.map_values(|p: PaneProfile| p@),
        ),
{
    let ghost ov = old@.map_values(|p: PaneProfile| p@);
    let ghost nv = new@.map_values(|p: PaneProfile| p@);
    let ghost goal = merge_panes(ov, nv);
    let mut r: Vec<PaneProfile> = Vec::new();
    let mut i: usize = 0;
    while i < new.len()
        invariant
            i <= new@.len(),
            ov == old@.map_values(|p: PaneProfile| p@),
            nv == new@.map_values(|p: PaneProfile| p@),
            goal == merge_panes(ov, nv),
            r@.map_values(|p: PaneProfile| p@) == goal.take(i as int),
        decreases new@.len() - i,
    {
        let cwd = copy_opt(&new[i].cwd);
        let command = if i < old.len() && new[i].command.is_none() {
            copy_opt(&old[i].command)
        } else {
            copy_opt(&new[i].command)
        };
        let p = PaneProfile { cwd, command };
        proof {
            assert(nv[i as int] == new@[i as int]@);
            if i < old@.len() {
                assert(ov[i as int] == old@[i as int]@);
            }
        }
        r.push(p);
        assert(goal[i as int] == p@);
        assert(goal.take(i + 1) =~= goal.take(i as int).push(goal[i as int]));
        assert(r@.map_values(|p: PaneProfile| p@) =~= goal.take(i + 1));
        i = i + 1;
    }
    assert(goal.take(new@.len() as int) =~= goal);
    r
}

/// Update the tab of an already pinned window (found by its rank `tab_pos`)
/// with a freshly captured layout; see [`repin_of`].
pub fn repin_layout(
    profile: Profile,
    tab_pos: usize,
    new_layout: Option<String>,
    new_panes: Vec<PaneProfile>,
) -> (r: (PinResult, Profile))
    ensures
        (r.0, r.1@) == repin_of(
            profile@,
            tab_pos as nat,
            opt_string_view(new_layout),
            new_panes@.map_values(|p: PaneProfile| p@),
        ),
{
    let mut profile = profile;
    if tab_pos >= profile.tabs.len() {
        return (PinResult::AlreadyCurrent, profile);
    }
    let ghost before = profile@;
    let tab = profile.tabs.remove(tab_pos);
    assert(tab@ == before.tabs[tab_pos as int]);
    if opt_text_eq(&tab.layout, &new_layout) && cwds_equal(&tab.panes, &new_panes) {
        profile.tabs.insert(tab_pos, tab);
        assert(profile@.tabs =~= before.tabs);
        return (PinResult::AlreadyCurrent, profile);
    }
    let panes = merged(&tab.panes, new_panes);
    let new_tab = TabProfile {
        name: tab.name,
        cwd: tab.cwd,
        command: tab.command,
        layout: new_layout,
        panes,
    };
    let ghost ntv = new_tab@;
    profile.tabs.insert(tab_pos, new_tab);
    assert(profile@.tabs =~= before.tabs.update(tab_pos as int, ntv));
    (PinResult::LayoutUpdated, profile)
}

/// Renaming the window whose tab is at `pos` to `name`: nothing to do when that
/// tab already has the name; otherwise the profile with the tab renamed (and
/// unchanged when there is no tab at `pos`).
pub open spec fn renamed_of(p: ProfileView, pos: nat, name: Seq<char>) -> Option<ProfileView> {
    if pos < p.tabs.len() {
        if p.tabs[pos as int].name == name {
            None
        } else {
            Some(
                ProfileView {
                    tabs: p.tabs.update(pos as int, TabView { name, ..p.tabs[pos as int] }),
                    ..p
                },
            )
        }
    } else {
        Some(p)
    }
}

/// Carry a window rename over to its tab; `None` when there is nothing to save.
pub fn rename_pinned_tab(profile: Profile, tab_pos: usize, new_name: &str) -> (r: Option<Profile>)
    ensures
        match renamed_of(profile@, tab_pos as nat, new_name@) {
            Some(p) => r matches Some(x) && x@ == p,
            None => r is None,
        },
{
    let mut profile = profile;
    if tab_pos >= profile.tabs.len() {
        return Some(profile);
    }
    let ghost before = profile@;
    let tab = profile.tabs.remove(tab_pos);
    assert(tab@ == before.tabs[tab_pos as int]);
    let current = chars_of(tab.name.as_str());
    let wanted = chars_of(new_name);
    if eq_chars(current.as_slice(), wanted.as_slice()) {
        return None;
    }
    let new_tab = TabProfile {
        name: owned(new_name),
        cwd: tab.cwd,
        command: tab.command,
        layout: tab.layout,
        panes: tab.panes,
    };
    let ghost ntv = new_tab@;
    profile.tabs.insert(tab_pos, new_tab);
    assert(profile@.tabs =~= before.tabs.update(tab_pos as int, ntv));
    Some(profile)
}

/// The profile behind a managed session: its name without the `muster_` prefix.
pub fn profile_id_of_session(session: &str) -> (r: Option<String>)
    ensures
        match strip_prefix(session@, "muster_"@) {
            Some(id) => r matches Some(x) && x@ == id,
            None => r is None,
        },
{
    let s = chars_of(session);
    match strip_prefix_str(s.as_slice(), "muster_") {
        Some(rest) => Some(string_of(rest.as_slice())),
        None => None,
    }
}

/// Unpinning a window right after pinning it at rank `rank` gives back the
/// profile it was pinned into, when `rank` is within the profile's tabs.
pub proof fn lemma_unpin_undoes_pin(p: ProfileView, rank: nat, tab: TabView)
    requires
        rank <= p.tabs.len(),
    ensures
        without_pinned_tab(with_pinned_tab(p, rank, tab), rank) == p,
{
    assert(p.tabs.insert(rank as int, tab).remove(rank as int) =~= p.tabs);
}

/// Re-pinning a window twice with the same captured layout changes nothing the
/// second time.
pub proof fn lemma_repin_idempotent(
    p: ProfileView,
    pos: nat,
    layout: Option<Seq<char>>,
    panes: Seq<PaneView>,
)
    ensures
        repin_of(repin_of(p, pos, layout, panes).1, pos, layout, panes) == (
            PinResult::AlreadyCurrent,
            repin_of(p, pos, layout, panes).1,
        ),
{
    if pos < p.tabs.len() {
        let q = repin_of(p, pos, layout, panes).1;
        let t = q.tabs[pos as int];
        assert(t.layout == layout);
        assert(same_cwds(t.panes, panes));
    }
}

/// Renaming a window's tab twice to the same name leaves nothing to save the
/// second time.
pub proof fn lemma_rename_idempotent(p: ProfileView, pos: nat, name: Seq<char>)
    requires
        pos < p.tabs.len(),
    ensures
        match renamed_of(p, pos, name) {
            Some(q) => renamed_of(q, pos, name) is None,
            None => true,
        },
{
}

} // verus!
