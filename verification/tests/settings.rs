use audio_config_manager::paths::{extension_of, file_name_of, join, stem_of};
use audio_config_manager::settings::{
    config_dir, initial_settings, load, validate, with_folder, LoadStep, Settings,
};

#[test]
fn defaults_are_usable() {
    let settings = Settings::default();
    assert!(!settings.profiles_folder.is_empty());
    assert!(settings.backup_before_restore);
    assert_eq!(settings.keep_versions, 10);
}

#[test]
fn validate_rejects_empty_folder() {
    let settings = Settings {
        profiles_folder: "  ".into(),
        ..Settings::default()
    };
    assert!(validate(settings).is_err());
}

#[test]
fn validate_trims_folder() {
    let settings = Settings {
        profiles_folder: "  C:\\Profils  ".into(),
        ..Settings::default()
    };
    let cleaned = validate(settings).unwrap();
    assert_eq!(cleaned.profiles_folder, "C:\\Profils");
}

#[test]
fn validating_twice_changes_nothing() {
    let settings = Settings {
        profiles_folder: "\u{a0}\u{2003}D:\\Mes profils\r\n".into(),
        ..Settings::default()
    };
    let once = validate(settings).unwrap();
    assert_eq!(once.profiles_folder, "D:\\Mes profils");
    let twice = validate(once.clone()).unwrap();
    assert_eq!(twice, once);
}

#[test]
fn config_dir_under_appdata() {
    let dir = config_dir(Some("C:\\Users\\me\\AppData\\Roaming")).unwrap();
    assert!(dir.ends_with("Audio Config Manager"));
    assert_eq!(dir, "C:\\Users\\me\\AppData\\Roaming\\Audio Config Manager");
    assert_eq!(config_dir(None).unwrap_err(), "Dossier de configuration introuvable");
}

#[test]
fn initial_folder_is_in_the_documents() {
    let settings = initial_settings(Some("C:\\Users\\me"), true);
    assert_eq!(settings.profiles_folder, "C:\\Users\\me\\Documents\\Audio Profiles");
    let settings = initial_settings(Some("C:\\Users\\me\\"), false);
    assert_eq!(settings.profiles_folder, "C:\\Users\\me\\Audio Profiles");
    assert!(!settings.auto_save_on_start);
    assert!(!settings.watch_devices);
    assert_eq!(initial_settings(None, true).profiles_folder, "Audio Profiles");
}

#[test]
fn loading_creates_uses_or_refuses() {
    let initial = Settings::default();
    match load("s.json", None, initial.clone()) {
        LoadStep::Create(settings) => assert_eq!(settings, initial),
        _ => panic!("unexpected step"),
    }
    let found = with_folder(Settings::default(), "E:\\P".to_string());
    match load("s.json", Some(Ok(found.clone())), initial.clone()) {
        LoadStep::Use(settings) => assert_eq!(settings, found),
        _ => panic!("unexpected step"),
    }
    match load("s.json", Some(Err("EOF".to_string())), initial) {
        LoadStep::Refuse(message) => assert_eq!(message, "Paramètres illisibles (s.json): EOF"),
        _ => panic!("unexpected step"),
    }
}

#[test]
fn file_names_stems_and_extensions() {
    assert_eq!(file_name_of("C:\\a\\b.json"), Some("b.json"));
    assert_eq!(file_name_of("C:/a/b.json/"), Some("b.json"));
    assert_eq!(file_name_of("b"), Some("b"));
    assert_eq!(file_name_of("C:\\a\\.."), None);
    assert_eq!(file_name_of("."), None);
    assert_eq!(file_name_of(""), None);
    assert_eq!(file_name_of("a/b.json/./"), Some("b.json"));
    assert_eq!(file_name_of("a/.."), None);
    assert_eq!(file_name_of("..."), Some("..."));
    assert_eq!(file_name_of("C:"), None);
    assert_eq!(file_name_of("C:\\"), None);
    assert_eq!(file_name_of("C:b.json"), Some("b.json"));
    assert_eq!(file_name_of("\\\\server\\share"), None);
    assert_eq!(file_name_of("\\\\server\\share\\b.json"), Some("b.json"));
    assert_eq!(file_name_of("\\\\server"), Some("server"));
    assert_eq!(stem_of("a.b.json"), "a.b");
    assert_eq!(extension_of("a.b.json"), Some("json"));
    assert_eq!(stem_of(".json"), ".json");
    assert_eq!(extension_of(".json"), None);
    assert_eq!(extension_of("a."), Some(""));
    assert_eq!(extension_of("a"), None);
    assert_eq!(join("C:", "x"), "C:x");
    assert_eq!(join("C:\\", "x"), "C:\\x");
    assert_eq!(join("", "x"), "x");
    assert_eq!(join("d", "x"), "d\\x");
}

#[test]
fn verbatim_paths_are_taken_literally() {
    assert_eq!(file_name_of(r"\\?\C:\a.json"), Some("a.json"));
    assert_eq!(file_name_of(r"\\?\C:\a.json\."), None);
    assert_eq!(file_name_of(r"\\?\C:\a\.."), None);
    assert_eq!(file_name_of(r"\\?\C:\a/b.json"), Some("a/b.json"));
    assert_eq!(file_name_of(r"\\?\C:\a\\"), Some("a"));
    assert_eq!(file_name_of(r"\\?\C:"), None);
    assert_eq!(file_name_of(r"\\?\UNC\server\share"), None);
    assert_eq!(file_name_of(r"\\?\UNC\server\share\b.json"), Some("b.json"));
    assert_eq!(file_name_of(r"\\?\pictures\b.json"), Some("b.json"));
    assert_eq!(file_name_of(r"\\?\pictures"), None);
    assert_eq!(file_name_of(r"\\.\COM1"), None);
    assert_eq!(join(r"\\?\C:", "x"), r"\\?\C:\x");
    assert_eq!(join(r"\\?\C:\a\\b\", "x"), r"\\?\C:\a\b\x");
}

#[test]
fn names_with_a_prefix_replace_the_folder() {
    assert_eq!(join("C:\\a", "D:x.json"), "D:x.json");
    assert_eq!(join("C:\\a", r"\\server\share\x"), r"\\server\share\x");
    assert_eq!(join("C:\\a", "\\x"), "C:\\x");
    assert_eq!(join("a", "/x"), "/x");
    assert_eq!(join("a/", "x"), "a/x");
    assert_eq!(join("a", ""), "a\\");
}
