use muster::config::profile::{PaneProfile, Profile, TabProfile};
use muster::session::pin::{
    captured_layout, insert_pinned_tab, pinned_rank, profile_id_of_session, remove_pinned_tab,
    rename_pinned_tab, repin_layout, PinResult,
};

fn tab(name: &str) -> TabProfile {
    TabProfile { name: name.into(), cwd: "/".into(), command: None, layout: None, panes: vec![] }
}

fn profile(names: &[&str]) -> Profile {
    Profile {
        id: "p".into(),
        name: "P".into(),
        color: "#000000".into(),
        tabs: names.iter().map(|n| tab(n)).collect(),
    }
}

fn names(p: &Profile) -> Vec<String> {
    p.tabs.iter().map(|t| t.name.clone()).collect()
}

#[test]
fn rank_counts_pinned_windows_before() {
    let windows = [(0, true), (1, false), (2, true), (5, true)];
    assert_eq!(pinned_rank(&windows, 0), 0);
    assert_eq!(pinned_rank(&windows, 2), 1);
    assert_eq!(pinned_rank(&windows, 3), 2);
    assert_eq!(pinned_rank(&windows, 9), 3);
}

#[test]
fn pin_inserts_at_rank_and_unpin_removes_it() {
    let p = profile(&["a", "b", "c"]);
    let pinned = insert_pinned_tab(p.clone(), 1, tab("new"));
    assert_eq!(names(&pinned), vec!["a", "new", "b", "c"]);
    let unpinned = remove_pinned_tab(pinned, 1);
    assert_eq!(unpinned, p);
    // A rank past the end appends.
    let appended = insert_pinned_tab(p.clone(), 10, tab("z"));
    assert_eq!(names(&appended), vec!["a", "b", "c", "z"]);
    // Removing past the end changes nothing.
    assert_eq!(remove_pinned_tab(p.clone(), 3), p);
}

#[test]
fn captured_layouts() {
    let (layout, panes) = captured_layout("abcd,80x24", &["/x".to_string()]);
    assert_eq!(layout, None);
    assert!(panes.is_empty());
    let (layout, panes) = captured_layout("abcd,80x24", &["/x".to_string(), "/y".to_string()]);
    assert_eq!(layout.as_deref(), Some("abcd,80x24"));
    assert_eq!(panes, vec![
        PaneProfile { cwd: Some("/x".into()), command: None },
        PaneProfile { cwd: Some("/y".into()), command: None },
    ]);
    let (layout, _) = captured_layout("", &["/x".to_string(), "/y".to_string()]);
    assert_eq!(layout, None);
}

#[test]
fn repin_updates_or_reports_current() {
    let mut p = profile(&["a", "b"]);
    p.tabs[1].layout = Some("L".into());
    p.tabs[1].panes = vec![
        PaneProfile { cwd: Some("/x".into()), command: Some("vim".into()) },
        PaneProfile { cwd: Some("/y".into()), command: None },
    ];
    let same = vec![
        PaneProfile { cwd: Some("/x".into()), command: None },
        PaneProfile { cwd: Some("/y".into()), command: None },
    ];
    let (r, q) = repin_layout(p.clone(), 1, Some("L".into()), same.clone());
    assert_eq!(r, PinResult::AlreadyCurrent);
    assert_eq!(q, p);

    let moved = vec![
        PaneProfile { cwd: Some("/x".into()), command: None },
        PaneProfile { cwd: Some("/z".into()), command: None },
        PaneProfile { cwd: Some("/w".into()), command: None },
    ];
    let (r, q) = repin_layout(p.clone(), 1, Some("M".into()), moved.clone());
    assert_eq!(r, PinResult::LayoutUpdated);
    assert_eq!(q.tabs[1].layout.as_deref(), Some("M"));
    assert_eq!(q.tabs[1].panes[0].command.as_deref(), Some("vim"));
    assert_eq!(q.tabs[1].panes[2].cwd.as_deref(), Some("/w"));
    let (again, q2) = repin_layout(q.clone(), 1, Some("M".into()), moved);
    assert_eq!(again, PinResult::AlreadyCurrent);
    assert_eq!(q2, q);

    let (r, q) = repin_layout(p.clone(), 5, None, vec![]);
    assert_eq!(r, PinResult::AlreadyCurrent);
    assert_eq!(q, p);
}

#[test]
fn rename_follows_window() {
    let p = profile(&["a", "b"]);
    let q = rename_pinned_tab(p.clone(), 1, "c").unwrap();
    assert_eq!(names(&q), vec!["a", "c"]);
    assert!(rename_pinned_tab(q, 1, "c").is_none());
    assert_eq!(rename_pinned_tab(p.clone(), 7, "x"), Some(p));
}

#[test]
fn session_profile_ids() {
    assert_eq!(profile_id_of_session("muster_work").as_deref(), Some("work"));
    assert_eq!(profile_id_of_session("work"), None);
}
