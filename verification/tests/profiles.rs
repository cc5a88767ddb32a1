use audio_config_manager::profiles::{
    count_deletions, is_versioned_name, keeps_all, list_profiles, prune_versions, unique_path,
    FileFacts, FolderEntry,
};

#[test]
fn unique_path_increments_suffix() {
    let mut present: Vec<String> = Vec::new();
    let first = unique_path("profil.json", |name: &String| present.contains(name)).unwrap();
    assert_eq!(first, "profil.json");
    present.push(first);
    let second = unique_path("profil.json", |name: &String| present.contains(name)).unwrap();
    assert_eq!(second, "profil (2).json");
}

#[test]
fn unique_path_takes_the_first_free_number() {
    let taken = ["a.b.json", "a.b (2).json", "a.b (3).json", "a.b (5).json"];
    let free = unique_path("a.b.json", |name: &String| taken.contains(&name.as_str())).unwrap();
    assert_eq!(free, "a.b (4).json");
    let bare = unique_path("profil", |name: &String| name == "profil").unwrap();
    assert_eq!(bare, "profil (2).json");
    let empty = unique_path("", |name: &String| name.is_empty()).unwrap();
    assert_eq!(empty, "profil (2).json");
}

fn entry(name: &str, modified: Option<(i64, u32)>, size: u64) -> FolderEntry {
    FolderEntry {
        name: name.to_string(),
        path: format!("C:\\Profils\\{name}"),
        facts: Some(FileFacts { is_file: true, modified, size }),
    }
}

#[test]
fn list_profiles_sorts_by_modified_desc() {
    let listing = Ok(vec![
        entry("new.json", Some((1_700_000_000, 0)), 2),
        entry("old.json", Some((1_700_000_100, 0)), 2),
    ]);
    let profiles = list_profiles(&listing).unwrap();
    let names: Vec<String> = profiles.iter().map(|p| p.name.clone()).collect();
    assert!(names.contains(&"new.json".to_string()));
    assert!(names.contains(&"old.json".to_string()));
    assert_eq!(names, vec!["old.json", "new.json"]);
    for profile in &profiles {
        assert!(!profile.path.is_empty());
        assert!(profile.size >= 2);
        assert!(!profile.modified.is_empty());
    }
}

#[test]
fn list_profiles_shows_local_times() {
    let listing = Ok(vec![entry("a.json", Some((1_431_648_000, 0)), 5)]);
    let profiles = list_profiles(&listing).unwrap();
    let shown = &profiles[0].modified;
    assert!(shown.starts_with("2015-05-1"));
    assert_eq!(shown.as_bytes()[10], b'T');
    assert_eq!(profiles[0].size, 5);
    assert_eq!(profiles[0].path, "C:\\Profils\\a.json");
}

#[test]
fn list_profiles_keeps_plain_json_files_only() {
    let mut folder = entry("dossier.json", Some((5, 0)), 0);
    folder.facts = Some(FileFacts { is_file: false, modified: Some((5, 0)), size: 0 });
    let mut lost = entry("perdu.json", None, 0);
    lost.facts = None;
    let listing = Ok(vec![
        folder,
        lost,
        entry("note.txt", Some((9, 0)), 1),
        entry("sans-date.json", None, 1),
        entry("a.json", Some((7, 5)), 1),
        entry("b.json", Some((7, 6)), 1),
        entry("c.json", Some((7, 5)), 1),
    ]);
    let names: Vec<String> =
        list_profiles(&listing).unwrap().iter().map(|p| p.name.clone()).collect();
    assert_eq!(names, vec!["b.json", "a.json", "c.json", "sans-date.json"]);
    assert_eq!(
        list_profiles(&Err("absent".to_string())).unwrap_err(),
        "Ouverture du dossier des profils impossible : absent"
    );
}

#[test]
fn prune_versions_keeps_newest() {
    let mut names: Vec<String> =
        (1..=5).map(|i| format!("2026-09-0{i} 08-00-00.json")).collect();
    // Un profil normal n'est jamais supprimé
    names.push("mon-profil.json".to_string());

    let doomed = prune_versions(&Ok(names.clone()), 2).unwrap();
    let outcomes: Vec<bool> = doomed.iter().map(|_| true).collect();
    assert_eq!(count_deletions(&outcomes), 3);
    let remaining: Vec<String> = names.into_iter().filter(|n| !doomed.contains(n)).collect();
    assert!(remaining.contains(&"2026-09-05 08-00-00.json".to_string()));
    assert!(remaining.contains(&"2026-09-04 08-00-00.json".to_string()));
    assert!(!remaining.contains(&"2026-09-01 08-00-00.json".to_string()));
    assert!(remaining.contains(&"mon-profil.json".to_string()));
}

#[test]
fn prune_versions_keep_zero_keeps_everything() {
    let names: Vec<String> = (1..=3).map(|i| format!("2026-09-0{i} 08-00-00.json")).collect();
    let doomed = prune_versions(&Ok(names), 0).unwrap();
    assert_eq!(doomed.len(), 0);
    assert!(keeps_all(0));
    assert!(!keeps_all(1));
}

#[test]
fn prune_versions_goes_by_stamp_whatever_the_mark() {
    let names = vec![
        "Avant restauration 2026-09-01 08-00-00.json".to_string(),
        "2026-09-03 08-00-00.json".to_string(),
        "Avant restauration 2026-09-02 08-00-00.json".to_string(),
        "2026-09-04 08-00-00.json".to_string(),
    ];
    let doomed = prune_versions(&Ok(names), 2).unwrap();
    assert_eq!(
        doomed,
        vec![
            "Avant restauration 2026-09-02 08-00-00.json",
            "Avant restauration 2026-09-01 08-00-00.json",
        ]
    );
    assert_eq!(
        prune_versions(&Err("absent".to_string()), 1).unwrap_err(),
        "Ouverture du dossier des profils impossible : absent"
    );
    assert!(prune_versions(&Err("absent".to_string()), 0).unwrap().is_empty());
    assert_eq!(count_deletions(&vec![true, false, true]), 2);
}

#[test]
fn newest_backup_survives_retention() {
    let new = "2026-09-04 08-00-00.json".to_string();
    let old = "2026-09-03 08-00-00.json".to_string();
    let before_restore = "Avant restauration 2026-09-04 08-00-00.json".to_string();
    assert_eq!(prune_versions(&Ok(vec![new.clone(), old.clone()]), 1).unwrap(), vec![old.clone()]);
    let all = vec![new.clone(), old.clone(), before_restore.clone()];
    assert_eq!(prune_versions(&Ok(all.clone()), 2).unwrap(), vec![old.clone()]);
    assert_eq!(prune_versions(&Ok(all), 1).unwrap(), vec![new, old]);
}

#[test]
fn versioned_names_detected() {
    assert!(is_versioned_name("2026-09-07 08-00-00.json"));
    assert!(is_versioned_name("Avant restauration 2026-09-07 08-00-00.json"));
    assert!(!is_versioned_name("mon-profil.json"));
    assert!(!is_versioned_name("2026-09-07 08-00-00.txt"));
}

#[test]
fn versioned_names_are_exact() {
    assert!(!is_versioned_name("2026-09-07 08:00:00.json"));
    assert!(!is_versioned_name("2026-09-07 08-00-00 (2).json"));
    assert!(!is_versioned_name("avant restauration 2026-09-07 08-00-00.json"));
    assert!(!is_versioned_name("2026-09-07 08-00-0é.json"));
}
