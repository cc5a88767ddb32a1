use audio_config_manager::app_routing::export::{
    export_app_routes, list_active_app_routes, pids_to_read, RouteReading, RoutingReading,
};
use audio_config_manager::app_routing::profile_apps::{
    device_known, device_name, match_processes, ApplicationEntry, ProcInfo, ProcessMatch,
    RouteTarget,
};
use audio_config_manager::app_routing::profile_file::restore_applications_in_profile;
use audio_config_manager::app_routing::restore::{
    preview_entries, restore_applications, restore_report, route_writes, RestoreReading,
};
use audio_config_manager::app_routing::Flow;

fn process(pid: u32, name: &str, exe: Option<&str>) -> ProcInfo {
    ProcInfo { pid, name: name.to_string(), exe: exe.map(str::to_string) }
}

fn route(pid: u32, flow: Flow, id: Option<&str>) -> RouteReading {
    RouteReading { pid, flow, route: Ok(id.map(str::to_string)) }
}

fn device(id: &str, name: &str) -> (String, String) {
    (id.to_string(), name.to_string())
}

fn target(id: &str, name: Option<&str>) -> Option<RouteTarget> {
    Some(RouteTarget { device_id: id.to_string(), device_name: name.map(str::to_string) })
}

fn reading() -> RoutingReading {
    RoutingReading {
        processes: vec![
            process(1, "Zeta.exe", Some("C:\\Z\\Zeta.exe")),
            process(2, "ZETA.EXE", Some("c:\\z\\zeta.exe")),
            process(3, "alpha.exe", None),
            process(4, "beta.exe", Some("C:\\b.exe")),
        ],
        activation: Ok(()),
        output_sessions: Ok(vec![(1, false), (2, true), (9, true), (4, false), (1, true)]),
        input_sessions: Ok(vec![(3, false), (1, false)]),
        routes: vec![
            route(1, Flow::Output, Some("id1")),
            route(2, Flow::Output, Some("id2")),
            route(4, Flow::Output, None),
            route(9, Flow::Output, Some("id1")),
            route(3, Flow::Input, Some("mic")),
            route(1, Flow::Input, None),
        ],
    }
}

fn playback() -> Vec<(String, String)> {
    vec![device("ID1", "Casque"), device("id2", "Enceintes")]
}

fn recording() -> Vec<(String, String)> {
    vec![device("mic", "Micro")]
}

#[test]
fn exports_hold_the_routes_in_force() {
    let (entries, warnings) = export_app_routes(&playback(), &recording(), &Ok(reading())).unwrap();
    assert!(warnings.is_empty());
    assert_eq!(
        entries,
        vec![
            ApplicationEntry {
                process_name: "alpha.exe".to_string(),
                executable_path: None,
                output: None,
                input: target("mic", Some("Micro")),
            },
            // Both processes of the application: the first names it, the last
            // one's route counts.
            ApplicationEntry {
                process_name: "Zeta.exe".to_string(),
                executable_path: Some("C:\\Z\\Zeta.exe".to_string()),
                output: target("id2", Some("Enceintes")),
                input: None,
            },
        ]
    );
}

#[test]
fn failed_readings_give_warnings() {
    let mut failing = reading();
    failing.output_sessions = Err("panne".to_string());
    failing.routes[4].route = Err("illisible".to_string());
    let (entries, warnings) = export_app_routes(&playback(), &recording(), &Ok(failing)).unwrap();
    assert!(entries.is_empty());
    assert_eq!(
        warnings,
        vec!["Sessions sortie non énumérées : panne", "Route entrée non lue pour 3 : illisible"]
    );
    let mut without = reading();
    without.activation = Err("pas de moteur".to_string());
    let (entries, warnings) = export_app_routes(&playback(), &recording(), &Ok(without)).unwrap();
    assert!(entries.is_empty());
    assert_eq!(warnings, vec!["pas de moteur"]);
    assert_eq!(
        export_app_routes(&playback(), &recording(), &Err("x".to_string())).unwrap_err(),
        "x"
    );
}

#[test]
fn export_is_restored_without_loss() {
    let (entries, _) = export_app_routes(&playback(), &recording(), &Ok(reading())).unwrap();
    let running = reading().processes;
    for row in preview_entries(&entries, &running, &playback(), &recording()) {
        assert!(row.running);
        for shown in [row.output, row.input].into_iter().flatten() {
            assert!(shown.present);
        }
    }
    let writes = route_writes(&entries, &running, &playback(), &recording());
    let told: Vec<(u32, Flow, &str)> =
        writes.iter().map(|w| (w.pid, w.flow, w.device_id.as_str())).collect();
    assert_eq!(
        told,
        vec![(3, Flow::Input, "mic"), (1, Flow::Output, "id2"), (2, Flow::Output, "id2")]
    );
    let outcomes = vec![Ok(()), Ok(()), Ok(())];
    let report = restore_report(&entries, &running, &playback(), &recording(), &outcomes);
    assert_eq!(report.applied, 2);
    assert!(report.missing.is_empty() && report.warnings.is_empty() && report.errors.is_empty());
}

#[test]
fn restoring_reports_what_went_wrong() {
    let entries = vec![
        ApplicationEntry {
            process_name: "alpha.exe".to_string(),
            executable_path: Some("C:\\ailleurs.exe".to_string()),
            output: target("parti", Some("Ancien casque")),
            input: target("mic", None),
        },
        ApplicationEntry {
            process_name: String::new(),
            executable_path: None,
            output: target("id1", None),
            input: None,
        },
        ApplicationEntry {
            process_name: "zeta.exe".to_string(),
            executable_path: None,
            output: target("id1", None),
            input: target("inconnu", None),
        },
    ];
    let running = reading().processes;
    let outcomes = vec![Ok(()), Ok(()), Err("refus".to_string())];
    let report = restore_report(&entries, &running, &playback(), &recording(), &outcomes);
    assert_eq!(report.applied, 1);
    assert_eq!(
        report.missing,
        vec![
            "alpha.exe — sortie introuvable : Ancien casque",
            "Application non active : application inconnue",
            "zeta.exe — entrée introuvable : inconnu",
        ]
    );
    assert_eq!(
        report.warnings,
        vec!["alpha.exe : chemin différent, correspondance par nom utilisée."]
    );
    assert_eq!(report.errors, vec!["zeta.exe (PID 2) — sortie non restaurée : refus"]);
    let mut announced = 0;
    for row in preview_entries(&entries, &running, &playback(), &recording()) {
        if row.running {
            announced +=
                [row.output, row.input].into_iter().flatten().filter(|t| !t.present).count();
        } else {
            announced += 1;
        }
    }
    assert_eq!(announced, report.missing.len());
}

#[test]
fn restoring_needs_an_engine() {
    let entries = vec![ApplicationEntry {
        process_name: "a".to_string(),
        executable_path: None,
        output: None,
        input: None,
    }];
    let none = Vec::new();
    let unreachable = Err("injoignable".to_string());
    assert_eq!(
        restore_applications(&entries, &none, &none, &unreachable).unwrap_err(),
        "injoignable"
    );
    assert_eq!(restore_applications(&Vec::new(), &none, &none, &unreachable).unwrap().applied, 0);
    let inactive = Ok(RestoreReading {
        running: Vec::new(),
        activation: Err("pas de moteur".to_string()),
        outcomes: Vec::new(),
    });
    let report = restore_applications(&entries, &none, &none, &inactive).unwrap();
    assert_eq!(report.missing, vec!["pas de moteur"]);
    assert_eq!(
        restore_applications_in_profile(&Err("profil".to_string()), &none, &none, &inactive)
            .unwrap_err(),
        "profil"
    );
    assert_eq!(
        restore_applications_in_profile(&Ok(entries), &none, &none, &inactive).unwrap().missing,
        vec!["pas de moteur"]
    );
}

#[test]
fn applications_are_listed_with_their_routes() {
    let rows = list_active_app_routes(&playback(), &recording(), &Ok(reading())).unwrap();
    let told: Vec<(u32, &str, bool)> =
        rows.iter().map(|r| (r.pid, r.process_name.as_str(), r.playing)).collect();
    assert_eq!(
        told,
        vec![
            (3, "alpha.exe", false),
            (4, "beta.exe", false),
            (1, "Zeta.exe", true),
            (2, "ZETA.EXE", true),
        ]
    );
    assert_eq!(rows[2].output, target("id1", Some("Casque")));
    assert_eq!(rows[1].output, None);
    assert_eq!(rows[0].input, target("mic", Some("Micro")));
    let mut deaf = reading();
    deaf.output_sessions = Err("panne".to_string());
    assert_eq!(list_active_app_routes(&playback(), &recording(), &Ok(deaf)).unwrap().len(), 2);
    let mut without = reading();
    without.activation = Err("pas de moteur".to_string());
    assert_eq!(
        list_active_app_routes(&playback(), &recording(), &Ok(without)).unwrap_err(),
        "pas de moteur"
    );
    assert_eq!(pids_to_read(&reading().processes, &vec![(9, true), (4, true), (4, false)]), vec![4]);
}

#[test]
fn processes_match_by_path_then_by_name() {
    let running = reading().processes;
    let mut entry = ApplicationEntry {
        process_name: "beta.exe".to_string(),
        executable_path: Some("c:/z/ZETA.exe".to_string()),
        output: None,
        input: None,
    };
    let (found, how) = match_processes(&entry, &running);
    assert_eq!((found.len(), how), (2, ProcessMatch::Path));
    entry.executable_path = Some("x".to_string());
    let (found, how) = match_processes(&entry, &running);
    assert_eq!((found[0].pid, how), (4, ProcessMatch::Name));
    entry.process_name = String::new();
    let (found, how) = match_processes(&entry, &running);
    assert_eq!((found.len(), how), (0, ProcessMatch::Nothing));
}

#[test]
fn devices_are_known_by_identifier_or_name() {
    assert_eq!(device_name(&playback(), "id1").as_deref(), Some("Casque"));
    assert_eq!(device_name(&playback(), "id3"), None);
    assert!(device_known(&playback(), &target("Id2", None).unwrap()));
    assert!(device_known(&playback(), &target("x", Some("CASQUE")).unwrap()));
    assert!(!device_known(&playback(), &target("x", None).unwrap()));
}
