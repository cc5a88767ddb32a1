use audio_config_manager::app_routing::profile_apps::{AppSessionRow, RestoreReport};
use audio_config_manager::app_routing::profile_file::{applications_in_profile, is_valid_profile};
use audio_config_manager::app_routing::Flow;
use audio_config_manager::clock::timestamp;
use audio_config_manager::commands::{
    app_sessions, automatic_backup, backup_at, backup_done, create_auto_backup, delete_profile,
    folder_ready, import_done, import_profile, install_audio_module, previewed_applications,
    profile_present, profiles_folder, restore_after_export, restore_after_routes,
    restore_after_script, restore_answer, restore_begins, restore_begins_at, restore_profile,
    route_set, routed_applications, run_export, save_done, save_profile, set_app_route,
    update_settings, with_count, BackupPlan, ImportStep, Occasion, RestoreStep, SaveStep,
};
use audio_config_manager::decode::{decode_bool, decode_text, decode_text_list, decode_u32};
use audio_config_manager::json::parse;
use audio_config_manager::profiles::{is_versioned_name, FileFacts, FolderEntry};
use audio_config_manager::ps::{restore_info_from_json, Captured, RestoreInfo};
use audio_config_manager::settings::Settings;

fn content(text: &str) -> Result<Vec<u8>, String> {
    Ok(text.as_bytes().to_vec())
}

#[test]
fn timestamp_matches_reference_format() {
    let value = timestamp();
    assert_eq!(value.len(), 19);
    let bytes = value.as_bytes();
    assert_eq!(bytes[4], b'-');
    assert_eq!(bytes[7], b'-');
    assert_eq!(bytes[10], b' ');
    assert_eq!(bytes[13], b'-');
    assert_eq!(bytes[16], b'-');
}

#[test]
fn valid_profile_detected() {
    let good = content(r#"{"Metadata":{"Version":"3.1"},"DefaultPlayback":{}}"#);
    assert!(is_valid_profile(&good));
}

#[test]
fn invalid_profiles_rejected() {
    let not_json = content("ceci n'est pas du json");
    assert!(!is_valid_profile(&not_json));

    let no_metadata = content(r#"{"PlaybackDevices":[]}"#);
    assert!(!is_valid_profile(&no_metadata));

    let missing: Result<Vec<u8>, String> = Err("missing.json".to_string());
    assert!(!is_valid_profile(&missing));
}

#[test]
fn profile_with_byte_order_mark_is_valid() {
    let mut bytes = vec![0xEF, 0xBB, 0xBF];
    bytes.extend_from_slice(br#"{"Metadata":{}}"#);
    assert!(is_valid_profile(&Ok(bytes)));
}

#[test]
fn profile_must_be_utf8() {
    let mut bytes = br#"{"Metadata":""#.to_vec();
    bytes.push(0xFF);
    bytes.extend_from_slice(br#""}"#);
    assert!(!is_valid_profile(&Ok(bytes)));
}

#[test]
fn restore_info_parses_script_response() {
    let json = r#"{"ok":true,"applied":3,"missing":["Ancien casque"]}"#;
    let info: RestoreInfo = restore_info_from_json(&parse(json).unwrap()).unwrap();
    assert!(info.ok);
    assert_eq!(info.applied, 3);
    assert_eq!(info.missing.len(), 1);
}

#[test]
fn restore_message_appends_missing_count() {
    let missing = ["Ancien casque".to_string()];
    let message = with_count(
        "Configuration restaurée",
        missing.len(),
        " périphérique(s) absent(s)",
    );
    assert_eq!(message, "Configuration restaurée · 1 périphérique(s) absent(s)");
}

#[test]
fn restore_adds_up_devices_and_routes() {
    let info = RestoreInfo { ok: true, applied: 2, missing: vec!["Ancien casque".to_string()] };
    let report = RestoreReport {
        applied: 3,
        missing: vec!["Application non active : a.exe".to_string()],
        warnings: vec!["w".to_string()],
        errors: vec!["e".to_string()],
    };
    let done = restore_profile(info, Some(Ok(report)));
    assert_eq!(done.applied, 5);
    assert_eq!(done.missing, vec!["Ancien casque", "Application non active : a.exe"]);
    assert_eq!(done.warnings, vec!["w", "e"]);
    assert_eq!(done.message, "Configuration restaurée · 2 élément(s) absent(s)");
}

#[test]
fn restore_without_applications_says_so_little() {
    let info = RestoreInfo { ok: true, applied: 1, missing: Vec::new() };
    let done = restore_profile(info, None);
    assert_eq!(done.applied, 1);
    assert_eq!(done.message, "Configuration restaurée");
    let info = RestoreInfo { ok: true, applied: 1, missing: Vec::new() };
    let done = restore_profile(info, Some(Err("Profil illisible : x".to_string())));
    assert_eq!(done.missing, vec!["Profil illisible : x"]);
    assert_eq!(done.message, "Configuration restaurée · 1 élément(s) absent(s)");
}

#[test]
fn restore_answers_are_checked() {
    let refused = parse(r#"{"ok":false,"applied":0,"missing":[]}"#);
    assert_eq!(restore_answer(&refused).unwrap_err(), "La restauration a échoué");
    let partial = parse(r#"{"ok":true}"#);
    assert_eq!(
        restore_answer(&partial).unwrap_err(),
        "Réponse audio invalide : missing field `applied`"
    );
    let failed = Err("PowerShell indisponible : x".to_string());
    assert_eq!(restore_answer(&failed).unwrap_err(), "PowerShell indisponible : x");
    let good = parse(r#"{"ok":true,"applied":4,"missing":[]}"#);
    assert_eq!(restore_answer(&good).unwrap().applied, 4);
}

#[test]
fn restore_answers_of_the_wrong_kind_are_refused() {
    let cases = [
        (r#"{"ok":1,"applied":0,"missing":[]}"#, "invalid type: integer `1`, expected a boolean"),
        (r#"{"ok":true,"applied":-1,"missing":[]}"#, "invalid value: integer `-1`, expected u32"),
        (
            r#"{"ok":true,"applied":1.5,"missing":[]}"#,
            "invalid type: floating point `1.5`, expected u32",
        ),
        (
            r#"{"ok":"dit \"oui\"","applied":0,"missing":[]}"#,
            r#"invalid type: string "dit \"oui\"", expected a boolean"#,
        ),
        (
            r#"{"ok":true,"applied":4294967296,"missing":[]}"#,
            "invalid value: integer `4294967296`, expected u32",
        ),
        (r#"{"ok":true,"applied":0,"missing":[7]}"#, "invalid type: integer `7`, expected a string"),
        (r#"{"ok":true,"applied":0,"missing":{}}"#, "invalid type: map, expected a sequence"),
        (r#"{"applied":0,"missing":[]}"#, "missing field `ok`"),
        (r#"{"ok":true,"applied":0}"#, "missing field `missing`"),
        (r#"true"#, "invalid type: boolean `true`, expected struct RestoreInfo"),
        (r#"[]"#, "invalid length 0, expected struct RestoreInfo with 3 elements"),
        (r#"[true,0,[],null]"#, "invalid length 4, expected fewer elements in array"),
    ];
    for (text, expected) in cases {
        assert_eq!(restore_info_from_json(&parse(text).unwrap()).unwrap_err(), expected);
    }
    let listed = restore_info_from_json(&parse(r#"[true,7,["x"]]"#).unwrap()).unwrap();
    assert_eq!((listed.ok, listed.applied, listed.missing.len()), (true, 7, 1));
}

#[test]
fn values_are_refused_in_the_words_of_serde() {
    for text in [
        "null",
        "true",
        "0",
        "4294967295",
        "4294967296",
        "18446744073709551615",
        "18446744073709551616",
        "-1",
        "-9223372036854775808",
        "1.0",
        "1e300",
        "-0.25",
        r#""""#,
        r#""é\t\"\u0007\u200b""#,
        "[]",
        r#"["a"]"#,
        "{}",
    ] {
        let value: serde_json::Value = serde_json::from_str(text).unwrap();
        let json = parse(text).unwrap();
        assert_eq!(
            decode_u32(&json),
            serde_json::from_value::<u32>(value.clone()).map_err(|e| e.to_string())
        );
        assert_eq!(
            decode_bool(&json),
            serde_json::from_value::<bool>(value.clone()).map_err(|e| e.to_string())
        );
        assert_eq!(
            decode_text(&json),
            serde_json::from_value::<String>(value.clone()).map_err(|e| e.to_string())
        );
        assert_eq!(
            decode_text_list(&json),
            serde_json::from_value::<Vec<String>>(value).map_err(|e| e.to_string())
        );
    }
}

#[test]
fn export_needs_an_answer_that_says_ok() {
    assert!(run_export(&parse(r#"{"ok":true}"#)).is_ok());
    assert_eq!(
        run_export(&parse(r#"{"ok":false,"message":"Module absent"}"#)).unwrap_err(),
        "Module absent"
    );
    assert_eq!(run_export(&parse(r#"{"ok":"oui"}"#)).unwrap_err(), "Échec de la sauvegarde");
    assert_eq!(run_export(&Err("délai".to_string())).unwrap_err(), "délai");
    assert_eq!(routed_applications(&Ok(4)), 4);
    assert_eq!(routed_applications(&Err("x".to_string())), 0);
}

#[test]
fn saving_needs_a_json_path() {
    match save_profile(None) {
        SaveStep::Answer(answer) => {
            assert!(!answer.saved);
            assert_eq!(answer.path, None);
            assert_eq!(answer.message, "Sauvegarde annulée.");
        }
        _ => panic!("unexpected step"),
    }
    for refused in ["", "C:\\profil", "C:\\profil.txt", "C:\\.json", "C:\\profil.JSON"] {
        match save_profile(Some(refused.to_string())) {
            SaveStep::Refuse(message) => assert_eq!(message, "Chemin de profil refusé"),
            _ => panic!("{refused} was not refused"),
        }
    }
    match save_profile(Some("C:\\mes profils\\bureau.v2.json".to_string())) {
        SaveStep::Export(path) => assert_eq!(path, "C:\\mes profils\\bureau.v2.json"),
        _ => panic!("unexpected step"),
    }
}

#[test]
fn saved_profiles_tell_their_applications() {
    let done = save_done("p.json".to_string(), Ok(2)).unwrap();
    assert!(done.saved);
    assert_eq!(done.path.as_deref(), Some("p.json"));
    assert_eq!(done.message, "Profil sauvegardé · 2 application(s) routée(s)");
    let done = save_done("p.json".to_string(), Ok(0)).unwrap();
    assert_eq!(done.message, "Profil sauvegardé");
    assert_eq!(save_done("p.json".to_string(), Err("non".to_string())).unwrap_err(), "non");
}

fn settings() -> Settings {
    Settings {
        profiles_folder: "C:\\Profils".to_string(),
        backup_before_restore: true,
        auto_save_on_start: false,
        keep_versions: 7,
        watch_devices: false,
    }
}

#[test]
fn backups_get_a_free_name() {
    let plan = backup_at(&settings(), "2026-09-07 08-00-00", |_: &String| false).unwrap();
    assert_eq!(plan.folder, "C:\\Profils");
    assert_eq!(plan.name, "2026-09-07 08-00-00.json");
    assert_eq!(plan.keep, 7);
    let plan = backup_at(&settings(), "2026-09-07 08-00-00", |name: &String| {
        name == "2026-09-07 08-00-00.json"
    })
    .unwrap();
    assert_eq!(plan.name, "2026-09-07 08-00-00 (2).json");
    let made = backup_done(&plan, &Ok(3)).unwrap();
    assert_eq!(made.path, "C:\\Profils\\2026-09-07 08-00-00 (2).json");
    assert_eq!((made.retention.folder.as_str(), made.retention.keep), ("C:\\Profils", 7));
    assert_eq!(backup_done(&plan, &Err("x".to_string())).unwrap_err(), "x");
}

#[test]
fn automatic_backups_are_recognised() {
    let plan = create_auto_backup(&settings(), |_: &String| false).unwrap();
    assert!(is_versioned_name(&plan.name));
}

#[test]
fn backups_are_made_on_the_occasions_that_are_asked_for() {
    let free = |_: &String| false;
    assert!(automatic_backup(Occasion::Start, &settings(), free).is_none());
    assert!(automatic_backup(Occasion::DevicesChanged, &settings(), free).is_none());
    let at_start = Settings { auto_save_on_start: true, ..settings() };
    let plan = automatic_backup(Occasion::Start, &at_start, free).unwrap();
    assert!(is_versioned_name(&plan.name));
    assert_eq!((plan.folder.as_str(), plan.keep), ("C:\\Profils", 7));
    assert!(automatic_backup(Occasion::DevicesChanged, &at_start, free).is_none());
    let watching = Settings { watch_devices: true, ..settings() };
    assert!(automatic_backup(Occasion::DevicesChanged, &watching, free).is_some());
    assert!(automatic_backup(Occasion::Start, &watching, free).is_none());
}

fn first_step(is_file: bool, settings: &Settings) -> RestoreStep {
    restore_begins_at(is_file, settings, "2026-09-07 08-00-00", |_: &String| false)
}

fn exported_first() -> BackupPlan {
    match first_step(true, &settings()) {
        RestoreStep::Export(plan) => plan,
        _ => panic!("unexpected step"),
    }
}

fn answer_of(step: RestoreStep) -> Result<audio_config_manager::commands::RestoreProfileResult, String>
{
    match step {
        RestoreStep::Finished(answer) => answer,
        _ => panic!("the restore is not over"),
    }
}

#[test]
fn backup_before_restore_follows_the_settings() {
    let plan = exported_first();
    assert_eq!(plan.name, "Avant restauration 2026-09-07 08-00-00.json");
    assert!(is_versioned_name(&plan.name));
    match restore_begins(true, &settings(), |_: &String| false) {
        RestoreStep::Export(plan) => assert!(plan.name.starts_with("Avant restauration ")),
        _ => panic!("unexpected step"),
    }
    let without = Settings { backup_before_restore: false, ..settings() };
    assert!(matches!(first_step(true, &without), RestoreStep::RunScript(None)));
    assert_eq!(
        answer_of(first_step(false, &settings())).unwrap_err(),
        "Le profil n'existe plus"
    );
}

#[test]
fn script_runs_after_the_export_only() {
    let plan = exported_first();
    match restore_after_export(&plan, Ok(2)) {
        RestoreStep::RunScript(Some(due)) => {
            assert_eq!((due.folder.as_str(), due.keep), ("C:\\Profils", 7));
        }
        _ => panic!("unexpected step"),
    }
    assert_eq!(
        answer_of(restore_after_export(&plan, Err("disque plein".to_string()))).unwrap_err(),
        "disque plein"
    );
}

#[test]
fn routes_are_restored_where_the_profile_has_some() {
    let answer = parse(r#"{"ok":true,"applied":2,"missing":["Ancien casque"]}"#);
    let bare = content(r#"{"Metadata":{"Note":"applications"}}"#);
    let done = answer_of(restore_after_script(&answer, &bare)).unwrap();
    assert_eq!(done.message, "Configuration restaurée · 1 élément(s) absent(s)");
    let info = match restore_after_script(&answer, &content(r#"{"applications":[]}"#)) {
        RestoreStep::RestoreRoutes(info) => info,
        _ => panic!("unexpected step"),
    };
    assert_eq!(info.applied, 2);
    let routes = Ok(RestoreReport { applied: 1, ..RestoreReport::default() });
    assert_eq!(answer_of(restore_after_routes(info, routes)).unwrap().applied, 3);
    // A profile that is no JSON any more is told of as missing.
    let broken = content(r#"{"applications":["#);
    let info = match restore_after_script(&answer, &broken) {
        RestoreStep::RestoreRoutes(info) => info,
        _ => panic!("unexpected step"),
    };
    let reason = applications_in_profile(&broken).unwrap_err();
    assert!(reason.starts_with("Profil JSON invalide : "));
    let done = answer_of(restore_after_routes(info, Err(reason.clone()))).unwrap();
    assert_eq!(done.missing, vec!["Ancien casque".to_string(), reason]);
    assert_eq!(done.message, "Configuration restaurée · 2 élément(s) absent(s)");
    let failed = Err("PowerShell indisponible : x".to_string());
    assert_eq!(
        answer_of(restore_after_script(&failed, &bare)).unwrap_err(),
        "PowerShell indisponible : x"
    );
}

#[test]
fn missing_profiles_are_reported() {
    assert!(profile_present(true).is_ok());
    assert_eq!(profile_present(false).unwrap_err(), "Le profil n'existe plus");
    assert_eq!(delete_profile(false, Ok(())).unwrap_err(), "Le profil n'existe plus");
    assert_eq!(
        delete_profile(true, Err("accès refusé".to_string())).unwrap_err(),
        "Suppression impossible : accès refusé"
    );
    let done = delete_profile(true, Ok(())).unwrap();
    assert!(done.deleted);
    assert_eq!(done.message, "Profil supprimé");
}

#[test]
fn imports_are_validated() {
    let good = content(r#"{"Metadata":{}}"#);
    let bad = content("[]");
    match import_profile(None, &good) {
        ImportStep::Answer(answer) => {
            assert!(!answer.imported);
            assert_eq!(answer.message, "Importation annulée.");
        }
        _ => panic!("unexpected step"),
    }
    match import_profile(Some("C:\\x\\a.json"), &bad) {
        ImportStep::Refuse(message) => {
            assert_eq!(message, "Ce fichier n’est pas un profil JSON valide")
        }
        _ => panic!("unexpected step"),
    }
    match import_profile(Some("C:\\x\\a.json"), &good) {
        ImportStep::Copy(name) => assert_eq!(name, "a.json"),
        _ => panic!("unexpected step"),
    }
    match import_profile(Some(".."), &good) {
        ImportStep::Copy(name) => assert_eq!(name, "profil.json"),
        _ => panic!("unexpected step"),
    }
    let done = import_done("C:\\p\\a.json".to_string(), Ok(())).unwrap();
    assert!(done.imported);
    assert_eq!(done.path.as_deref(), Some("C:\\p\\a.json"));
    assert_eq!(done.message, "Profil importé");
    assert_eq!(
        import_done("x".to_string(), Err("plein".to_string())).unwrap_err(),
        "Copie du profil impossible : plein"
    );
}

#[test]
fn folder_and_settings_messages() {
    assert_eq!(
        folder_ready(Err("accès refusé".to_string())).unwrap_err(),
        "Chemin de profil refusé : accès refusé"
    );
    let kept = update_settings(
        Settings { profiles_folder: " D:\\P ".to_string(), ..settings() },
        Ok(()),
    )
    .unwrap();
    assert_eq!(kept.profiles_folder, "D:\\P");
    assert_eq!(kept.keep_versions, 7);
    assert_eq!(
        update_settings(
            Settings { profiles_folder: "\t".to_string(), ..settings() },
            Ok(())
        )
        .unwrap_err(),
        "Chemin de profil refusé"
    );
    assert_eq!(
        update_settings(settings(), Err("x".to_string())).unwrap_err(),
        "Chemin de profil refusé : x"
    );
    let listing = Ok(vec![FolderEntry {
        name: "a.json".to_string(),
        path: "C:\\Profils\\a.json".to_string(),
        facts: Some(FileFacts { is_file: true, modified: None, size: 9 }),
    }]);
    let folder = profiles_folder("C:\\Profils".to_string(), &listing).unwrap();
    assert_eq!(folder.path, "C:\\Profils");
    assert_eq!(folder.profiles.len(), 1);
    assert_eq!(folder.profiles[0].modified, "");
}

#[test]
fn module_installation_is_answered() {
    let run = Ok(Captured { stdout: String::new(), stderr: String::new(), code: Some(0) });
    let done = install_audio_module(&run).unwrap();
    assert!(done.ok);
    assert_eq!(done.message, "Module AudioDeviceCmdlets installé.");
    let run = Ok(Captured { stdout: String::new(), stderr: " refus \n".to_string(), code: Some(1) });
    assert_eq!(
        install_audio_module(&run).unwrap_err(),
        "Installation du module impossible : refus"
    );
}

#[test]
fn application_view_without_engine() {
    let playback = vec![("id".to_string(), "Casque".to_string())];
    let row = AppSessionRow {
        pid: 1,
        process_name: "a.exe".to_string(),
        executable_path: None,
        playing: true,
        output: None,
        input: None,
    };
    let view = app_sessions(false, playback, Vec::new(), Ok(vec![row]));
    assert!(!view.available);
    assert_eq!(
        view.error.as_deref(),
        Some("Routage par application indisponible sur ce système.")
    );
    assert!(view.sessions.is_empty());
    assert_eq!(view.playback_devices[0].name, "Casque");
    let view = app_sessions(true, Vec::new(), Vec::new(), Err("panne".to_string()));
    assert_eq!(view.error.as_deref(), Some("panne"));
    assert!(previewed_applications(false, Ok(Vec::new())).is_empty());
}

#[test]
fn route_requests_name_a_flow() {
    assert_eq!(
        set_app_route(7, "sortie", None).unwrap_err(),
        "Flux audio inconnu (attendu « output » ou « input »)"
    );
    let request = set_app_route(7, "input", Some("id".to_string())).unwrap();
    assert_eq!((request.pid, request.flow), (7, Flow::Input));
    assert_eq!(request.device_id.as_deref(), Some("id"));
    assert!(route_set(Ok(Ok(()))).is_ok());
    assert_eq!(route_set(Ok(Err("a".to_string()))).unwrap_err(), "a");
    assert_eq!(route_set(Err("b".to_string())).unwrap_err(), "b");
}
