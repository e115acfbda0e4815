use muster::config::profile::{slug_of_lower, slugify, PaneProfile, Profile, TabProfile};
use muster::config::settings::{join_path, Settings, SettingsStore};
use muster::config::store::ProfileStore;

fn test_profile(id: &str, name: &str) -> Profile {
    Profile {
        id: id.to_string(),
        name: name.to_string(),
        color: "#f97316".to_string(),
        tabs: vec![TabProfile {
            name: "Shell".to_string(),
            cwd: "/tmp".to_string(),
            command: None,
            layout: None,
            panes: vec![],
        }],
    }
}

#[test]
fn test_slugify_basic() {
    assert_eq!(slugify("My Project"), "my-project");
    assert_eq!(slugify("Work"), "work");
    assert_eq!(slugify("hello world"), "hello-world");
}

#[test]
fn test_slugify_special_chars() {
    assert_eq!(slugify("Project @#$ Name!"), "project-name");
    assert_eq!(slugify("foo_bar_baz"), "foo-bar-baz");
    assert_eq!(slugify("a---b"), "a-b");
    assert_eq!(slugify("  leading trailing  "), "leading-trailing");
}

#[test]
fn test_slugify_case() {
    assert_eq!(slugify("UPPER CASE"), "upper-case");
    assert_eq!(slugify("MiXeD CaSe"), "mixed-case");
}

#[test]
fn test_slugify_empty_and_edge() {
    assert_eq!(slugify(""), "");
    assert_eq!(slugify("---"), "");
    assert_eq!(slugify("a"), "a");
}

#[test]
fn slug_shape_on_samples() {
    for name in ["My Project", "  --x--  ", "Ünïcode Näme", "a_b-c d", "!!!"] {
        let s = slugify(name);
        assert!(!s.starts_with('-'));
        assert!(!s.ends_with('-'));
        assert!(!s.contains("--"));
        assert_eq!(slugify(&s), s);
    }
}

#[test]
fn test_create_profile() {
    let mut store = ProfileStore::empty();
    let profile = test_profile("test-project", "Test Project");

    let created = store.create(profile.clone()).unwrap();
    assert_eq!(created.id, "test-project");
    assert_eq!(created.name, "Test Project");
    assert_eq!(created.tabs.len(), 1);
}

#[test]
fn test_create_duplicate_profile() {
    let mut store = ProfileStore::empty();
    store.create(test_profile("my-project", "My Project")).unwrap();

    let result = store.create(test_profile("my-project", "My Project"));
    assert!(result.is_err());
    let err = result.unwrap_err();
    assert!(err.message().contains("duplicate profile"));
}

#[test]
fn test_list_profiles() {
    let mut store = ProfileStore::empty();

    store.create(test_profile("p1", "Beta")).unwrap();
    store.create(test_profile("p2", "Alpha")).unwrap();
    store.create(test_profile("p3", "Gamma")).unwrap();

    let profiles = store.list();
    assert_eq!(profiles.len(), 3);
    // Sorted by name
    assert_eq!(profiles[0].name, "Alpha");
    assert_eq!(profiles[1].name, "Beta");
    assert_eq!(profiles[2].name, "Gamma");
}

#[test]
fn test_get_profile() {
    let mut store = ProfileStore::empty();
    store.create(test_profile("p1", "Test")).unwrap();

    let found = store.get("p1");
    assert!(found.is_some());
    assert_eq!(found.unwrap().name, "Test");

    let missing = store.get("nonexistent");
    assert!(missing.is_none());
}

#[test]
fn test_update_profile() {
    let mut store = ProfileStore::empty();
    store.create(test_profile("p1", "Original")).unwrap();

    let mut updated = test_profile("p1", "Updated");
    updated.color = "#00ff00".to_string();
    updated.tabs.push(TabProfile {
        name: "Server".to_string(),
        cwd: "/home".to_string(),
        command: Some("npm start".to_string()),
        layout: None,
        panes: vec![],
    });

    let result = store.update(updated).unwrap();
    assert_eq!(result.name, "Updated");
    assert_eq!(result.color, "#00ff00");
    assert_eq!(result.tabs.len(), 2);

    // Verify stored
    let fetched = store.get("p1").unwrap();
    assert_eq!(fetched.name, "Updated");
}

#[test]
fn test_update_nonexistent_profile() {
    let mut store = ProfileStore::empty();

    let result = store.update(test_profile("nonexistent", "Nope"));
    assert!(result.is_err());
}

#[test]
fn test_delete_profile() {
    let mut store = ProfileStore::empty();
    store.create(test_profile("p1", "To Delete")).unwrap();

    store.delete("p1").unwrap();
    let found = store.get("p1");
    assert!(found.is_none());
}

#[test]
fn test_delete_nonexistent_profile() {
    let mut store = ProfileStore::empty();

    let result = store.delete("nonexistent");
    assert!(result.is_err());
}

#[test]
fn test_profile_persistence() {
    // What one store holds, a store rebuilt from its entries holds too.
    let entries = {
        let mut store = ProfileStore::empty();
        store.create(test_profile("p1", "Persistent")).unwrap();
        store.entries()
    };
    let store = ProfileStore::from_entries(entries);
    let found = store.get("p1");
    assert!(found.is_some());
    assert_eq!(found.unwrap().name, "Persistent");
}

#[test]
fn store_error_messages() {
    let mut store = ProfileStore::empty();
    assert_eq!(store.delete("x").unwrap_err().message(), "profile not found: x");
    assert_eq!(
        store.update(test_profile("y", "Y")).unwrap_err().message(),
        "profile not found: y"
    );
    store.create(test_profile("z", "Z")).unwrap();
    assert_eq!(
        store.create(test_profile("z", "Z")).unwrap_err().message(),
        "duplicate profile: z"
    );
}

#[test]
fn create_then_delete_restores_store() {
    let mut store = ProfileStore::empty();
    store.create(test_profile("a", "A")).unwrap();
    store.create(test_profile("b", "B")).unwrap();
    store.delete("b").unwrap();
    let names: Vec<String> = store.list().into_iter().map(|p| p.name).collect();
    assert_eq!(names, vec!["A".to_string()]);
    assert!(store.get("b").is_none());
}

#[test]
fn rename_moves_profile() {
    let mut store = ProfileStore::empty();
    store.create(test_profile("old", "Old")).unwrap();
    store.create(test_profile("taken", "Taken")).unwrap();
    let renamed = store.rename("old", test_profile("new", "New")).unwrap();
    assert_eq!(renamed.id, "new");
    assert!(store.get("old").is_none());
    assert_eq!(store.get("new").unwrap().name, "New");
    assert_eq!(
        store.rename("missing", test_profile("m", "M")).unwrap_err().message(),
        "profile not found: missing"
    );
    assert_eq!(
        store.rename("new", test_profile("taken", "T")).unwrap_err().message(),
        "duplicate profile: taken"
    );
    assert_eq!(store.get("taken").unwrap().name, "Taken");
}

#[test]
fn list_sorts_by_byte_order() {
    let mut store = ProfileStore::empty();
    store.create(test_profile("1", "beta")).unwrap();
    store.create(test_profile("2", "Beta")).unwrap();
    store.create(test_profile("3", "alpha")).unwrap();
    let names: Vec<String> = store.list().into_iter().map(|p| p.name).collect();
    assert_eq!(names, vec!["Beta", "alpha", "beta"]);
}

#[test]
fn test_default_settings() {
    let settings = Settings::default();
    assert!(settings.tmux_path.is_none());
    assert!(settings.shell.is_none());
    assert!(settings.terminal.is_none());
}

#[test]
fn config_file_paths() {
    assert_eq!(join_path("/home/u/.config/muster", "settings.json"), "/home/u/.config/muster/settings.json");
    assert_eq!(join_path("/tmp/", "profiles.json"), "/tmp/profiles.json");
    assert_eq!(join_path("", "x"), "x");
    let store = SettingsStore::in_dir("/cfg");
    assert_eq!(store.settings_path(), "/cfg/settings.json");
    assert_eq!(store.profiles_path(), "/cfg/profiles.json");
}

#[test]
fn profile_duplicate_is_equal() {
    let mut p = test_profile("p", "P");
    p.tabs[0].panes.push(PaneProfile { cwd: Some("/x".into()), command: None });
    assert_eq!(p.duplicate(), p);
}

#[test]
fn slug_of_a_slug_is_itself() {
    for name in ["My Project", "  --Foo__Bar--  ", "Project @#$ Name!", "a\tb\nc", ""] {
        let s = slugify(name);
        assert_eq!(slugify(&s), s);
    }
}

#[test]
fn slug_of_lowercased_text() {
    assert_eq!(slug_of_lower("my project"), "my-project");
    assert_eq!(slug_of_lower("My Project"), "My-Project");
    assert_eq!(slug_of_lower("a\u{3000}b\u{a0}c"), "a-b-c");
    assert_eq!(slug_of_lower("caf\u{e9} bar"), "caf\u{e9}-bar");
}
