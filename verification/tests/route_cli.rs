use audio_config_manager::app_routing::devices::pack_device_id;
use audio_config_manager::app_routing::profile_apps::{AppSessionRow, RouteTarget};
use audio_config_manager::app_routing::Flow;
use audio_config_manager::route_cli::{
    base_name, cmd_devices, cmd_get, cmd_sessions, cmd_set, collect, device_label, is_route_command,
    outputs_inherited, plan_set, resolve_device, resolve_lowered, resolve_process, run, CliOutput,
    Line, Request, USAGE, USAGE_GET, USAGE_SET,
};

fn row(pid: u32, process_name: &str, exe: Option<&str>) -> AppSessionRow {
    AppSessionRow {
        pid,
        process_name: process_name.to_string(),
        executable_path: exe.map(str::to_string),
        playing: false,
        output: None,
        input: None,
    }
}

fn sessions() -> Vec<AppSessionRow> {
    vec![
        row(1234, "firefox.exe", Some("C:\\Program Files\\Mozilla Firefox\\firefox.exe")),
        row(5678, "spotify.exe", Some("C:\\Users\\x\\AppData\\Roaming\\Spotify\\Spotify.exe")),
    ]
}

fn args(words: &[&str]) -> Vec<String> {
    words.iter().map(|w| w.to_string()).collect()
}

fn out(text: &str) -> Line {
    Line::Out(text.to_string())
}

fn error(text: &str) -> Line {
    Line::Error(text.to_string())
}

fn finished(request: Request) -> CliOutput {
    match request {
        Request::Finish(output) => output,
        other => panic!("unexpected request {other:?}"),
    }
}

#[test]
fn resolve_process_by_pid_and_name() {
    let sessions = sessions();
    // PID exact.
    assert_eq!(resolve_process("1234", &sessions).unwrap(), vec![1234]);
    // Nom avec ou sans .exe, insensible à la casse.
    assert_eq!(resolve_process("firefox", &sessions).unwrap(), vec![1234]);
    assert_eq!(resolve_process("FIREFOX.EXE", &sessions).unwrap(), vec![1234]);
    // PID absent → erreur.
    assert!(resolve_process("9999", &sessions).is_err());
    // Nom inconnu → erreur.
    assert!(resolve_process("chrome", &sessions).is_err());
}

#[test]
fn resolve_device_by_id_name_and_substring() {
    let devices = vec![
        ("\\\\?\\SWD#MMDEVAPI#{aaa}#{e}".to_string(), "Casque USB".to_string()),
        (
            "\\\\?\\SWD#MMDEVAPI#{bbb}#{e}".to_string(),
            "Voicemeeter In 2 (VB-Audio Voicemeeter VAIO)".to_string(),
        ),
    ];
    // « system » efface la route.
    assert_eq!(resolve_device("system", Flow::Output, &devices).unwrap(), None);
    // Identifiant exact.
    assert_eq!(
        resolve_device("\\\\?\\SWD#MMDEVAPI#{aaa}#{e}", Flow::Output, &devices).unwrap(),
        Some("\\\\?\\SWD#MMDEVAPI#{aaa}#{e}".to_string())
    );
    // Nom exact.
    assert_eq!(
        resolve_device("casque usb", Flow::Output, &devices).unwrap(),
        Some(devices[0].0.clone())
    );
    // Sous-chaîne unique.
    assert_eq!(
        resolve_device("voicemeeter in 2", Flow::Output, &devices).unwrap(),
        Some(devices[1].0.clone())
    );
    // Inconnu → erreur.
    assert!(resolve_device("inexistant", Flow::Output, &devices).is_err());
}

#[test]
fn processes_are_explained_when_not_found() {
    let sessions = sessions();
    assert_eq!(resolve_process("0", &sessions).unwrap_err(), "PID invalide : 0");
    assert_eq!(
        resolve_process("9999", &sessions).unwrap_err(),
        "PID 9999 : aucune session audio active. Lancez l'application puis réessayez (ou « route sessions »)."
    );
    assert_eq!(
        resolve_process("Chrome", &sessions).unwrap_err(),
        "Aucun processus audio actif « Chrome ». Utilisez « route sessions » pour lister les processus."
    );
    // A number that does not fit is a name.
    assert_eq!(
        resolve_process("4294967296", &sessions).unwrap_err(),
        "Aucun processus audio actif « 4294967296 ». Utilisez « route sessions » pour lister les processus."
    );
    assert_eq!(resolve_process("+1234", &sessions).unwrap(), vec![1234]);
}

#[test]
fn processes_are_found_by_their_executable() {
    let rows = vec![
        row(7, "Écran", Some("D:\\Jeux\\LECTEUR.EXE")),
        row(8, "autre.exe", None),
        row(9, "lecteur.exe", None),
    ];
    assert_eq!(resolve_process("lecteur", &rows).unwrap(), vec![7, 9]);
    assert_eq!(resolve_process("ÉCRAN", &rows).unwrap(), vec![7]);
    assert_eq!(resolve_process("Autre.Exe", &rows).unwrap(), vec![8]);
}

#[test]
fn executables_lose_their_ending_before_their_case() {
    assert_eq!(base_name(Some("D:\\Jeux\\LECTEUR.EXE")).as_deref(), Some("lecteur"));
    assert_eq!(base_name(Some("D:\\a.b")).as_deref(), Some("a.b"));
    assert_eq!(base_name(Some("exe")).as_deref(), Some("exe"));
    assert_eq!(base_name(Some("D:\\")), None);
    assert_eq!(base_name(None), None);
    // A capital sigma at the end of a word has a lower-case form of its own.
    assert_eq!(base_name(Some("C:\\ΑΣ.exe")).as_deref(), Some("ας"));
    let rows = vec![row(3, "ΑΣ.exe", Some("C:\\ΑΣ.exe"))];
    assert_eq!(resolve_process("ΑΣ", &rows).unwrap(), vec![3]);
    assert_eq!(resolve_process("ΑΣ.EXE", &rows).unwrap(), vec![3]);
}

#[test]
fn packed_identifiers_are_unpacked() {
    let id = "{0.0.0.00000000}.{abc}";
    let devices = vec![(id.to_string(), "Casque".to_string())];
    for packed_for in [Flow::Output, Flow::Input] {
        let packed = pack_device_id(packed_for, id);
        for flow in [Flow::Output, Flow::Input] {
            assert_eq!(resolve_device(&packed, flow, &devices).unwrap(), Some(id.to_string()));
        }
    }
    let upper = id.to_uppercase();
    assert_eq!(resolve_device(&upper, Flow::Output, &devices).unwrap(), Some(id.to_string()));
}

#[test]
fn system_words_clear_the_route() {
    let none: Vec<(String, String)> = Vec::new();
    for word in ["system", "SYSTEM", "Système", "SYSTÈME", "default", "clear", "-", ""] {
        assert_eq!(resolve_device(word, Flow::Input, &none).unwrap(), None);
    }
    assert_eq!(
        resolve_device("casque", Flow::Input, &none).unwrap_err(),
        "Aucun périphérique actif sur ce flux."
    );
}

#[test]
fn doubtful_devices_are_refused() {
    let devices = vec![
        ("a".to_string(), "Casque USB".to_string()),
        ("b".to_string(), "CASQUE Bluetooth".to_string()),
        ("c".to_string(), "casque".to_string()),
    ];
    assert_eq!(
        resolve_device("CASQUE", Flow::Output, &devices).unwrap(),
        Some("c".to_string())
    );
    assert_eq!(
        resolve_device("asq", Flow::Output, &devices).unwrap_err(),
        "Plusieurs périphériques correspondent à « asq » : Casque USB · CASQUE Bluetooth · casque"
    );
    assert_eq!(
        resolve_device("Micro", Flow::Input, &devices).unwrap_err(),
        "Aucun périphérique de sortie correspondant à « Micro ». Utilisez « route devices input »."
    );
    let lowered = vec!["casque usb".to_string(), "x".to_string(), "y".to_string()];
    assert_eq!(
        resolve_lowered("USB", "usb", Flow::Output, &devices, &lowered).unwrap(),
        Some("a".to_string())
    );
}

#[test]
fn arguments_become_requests() {
    assert!(is_route_command(&args(&["route", "sessions"])));
    assert!(!is_route_command(&args(&["Route"])));
    assert!(!is_route_command(&args(&[])));
    assert!(matches!(run(&args(&["sessions"])), Request::Sessions));
    match run(&args(&["devices"])) {
        Request::Devices(flows) => assert_eq!(flows, vec![Flow::Output, Flow::Input]),
        other => panic!("unexpected request {other:?}"),
    }
    match run(&args(&["devices", "input"])) {
        Request::Devices(flows) => assert_eq!(flows, vec![Flow::Input]),
        other => panic!("unexpected request {other:?}"),
    }
    match run(&args(&["get", "firefox"])) {
        Request::Get(process) => assert_eq!(process, "firefox"),
        other => panic!("unexpected request {other:?}"),
    }
    match run(&args(&["set", "firefox", "output", "casque"])) {
        Request::Assign { process, flow, device } => {
            assert_eq!((process.as_str(), flow, device.as_str()), ("firefox", Flow::Output, "casque"))
        }
        other => panic!("unexpected request {other:?}"),
    }
}

#[test]
fn wrong_arguments_are_answered() {
    let output = finished(run(&args(&[])));
    assert_eq!((output.lines, output.code), (vec![out(USAGE)], 1));
    let output = finished(run(&args(&["--help"])));
    assert_eq!((output.lines, output.code), (vec![out(USAGE)], 0));
    let output = finished(run(&args(&["get"])));
    assert_eq!((output.lines, output.code), (vec![error(USAGE_GET)], 1));
    let output = finished(run(&args(&["set", "a", "output"])));
    assert_eq!((output.lines, output.code), (vec![error(USAGE_SET)], 1));
    let output = finished(run(&args(&["set", "a", "sortie", "b"])));
    assert_eq!(
        output.lines,
        vec![error("Flux inconnu : sortie (attendu « output » ou « input »)")]
    );
    let output = finished(run(&args(&["devices", "x"])));
    assert_eq!(
        output.lines,
        vec![error("Flux inconnu : x (attendu « output » ou « input »)")]
    );
    let output = finished(run(&args(&["joue"])));
    assert_eq!(output.lines, vec![error("Commande inconnue : joue\n"), out(USAGE)]);
    assert_eq!(output.code, 1);
}

#[test]
fn sessions_are_listed_in_columns() {
    let mut rows = sessions();
    rows[0].playing = true;
    rows[0].output =
        Some(RouteTarget { device_id: "id".to_string(), device_name: Some("Casque".to_string()) });
    let output = cmd_sessions(&Ok(rows));
    assert_eq!(output.code, 0);
    assert_eq!(output.lines.len(), 4);
    assert_eq!(
        output.lines[0],
        out(&format!("{:<8}{:<5}{:<26}{:<44}ENTRÉE", "PID", "LECT", "PROCESSUS", "SORTIE"))
    );
    assert_eq!(
        output.lines[1],
        out(&format!("{:<8}{:<5}{:<26}{:<44}{}", 1234, "●", "firefox.exe", "Casque", "système"))
    );
    assert_eq!(
        output.lines[2],
        out(&format!("{:<8}{:<5}{:<26}{:<44}{}", 5678, "·", "spotify.exe", "système", "système"))
    );
    assert_eq!(output.lines[3], out("● = joue actuellement du son"));
    let output = cmd_sessions(&Ok(Vec::new()));
    assert_eq!(
        output.lines,
        vec![out("Aucune application audio active. Lancez un lecteur puis réessayez.")]
    );
    let output = cmd_sessions(&Err("panne".to_string()));
    assert_eq!((output.lines, output.code), (vec![error("panne")], 1));
}

#[test]
fn sessions_need_an_engine() {
    assert_eq!(
        collect(false, Ok(sessions())).unwrap_err(),
        "Routage par application indisponible sur ce système."
    );
    assert_eq!(collect(true, Err("x".to_string())).unwrap_err(), "x");
    assert_eq!(collect(true, Ok(sessions())).unwrap().len(), 2);
}

#[test]
fn devices_are_listed_by_flow() {
    let lists = vec![
        (Flow::Output, vec![("id1".to_string(), "Casque".to_string())]),
        (Flow::Input, Vec::new()),
    ];
    let output = cmd_devices(&lists);
    assert_eq!(
        output.lines,
        vec![
            out("== output =="),
            out("  Casque\n    id1"),
            out("== input =="),
            out("  (aucun périphérique actif)"),
        ]
    );
    assert_eq!(output.code, 0);
}

#[test]
fn labels_prefer_the_name() {
    assert_eq!(device_label(&None), "système");
    let mut target = RouteTarget { device_id: "id".to_string(), device_name: None };
    assert_eq!(device_label(&Some(target.clone())), "id");
    target.device_name = Some(String::new());
    assert_eq!(device_label(&Some(target.clone())), "id");
    target.device_name = Some("Casque".to_string());
    assert_eq!(device_label(&Some(target)), "Casque");
}

#[test]
fn routes_of_a_process_are_shown() {
    let output = cmd_get("spotify", &Ok(sessions()));
    assert_eq!(
        output.lines,
        vec![out("spotify.exe (PID 5678) : sortie = système, entrée = système")]
    );
    let output = cmd_get("0", &Ok(sessions()));
    assert_eq!((output.lines, output.code), (vec![error("PID invalide : 0")], 1));
    let output = cmd_get("0", &Err("panne".to_string()));
    assert_eq!(output.lines, vec![error("panne")]);
}

#[test]
fn routes_are_set_and_told() {
    let playback = vec![("id1".to_string(), "Casque".to_string())];
    let recording = vec![("id2".to_string(), "Micro".to_string())];
    let collected = Ok(sessions());
    let plan = plan_set("firefox", Flow::Output, "casque", &collected, &playback, &recording)
        .unwrap();
    assert_eq!(plan.pids, vec![1234]);
    assert_eq!(plan.device_id.as_deref(), Some("id1"));
    let output = cmd_set("firefox", Flow::Output, &plan, &vec![Ok(())], &playback);
    assert_eq!(
        (output.lines, output.code),
        (vec![out("OK : firefox (PID 1234) — sortie → Casque")], 0)
    );
    let output = cmd_set(
        "firefox",
        Flow::Output,
        &plan,
        &vec![Err("refus".to_string())],
        &playback,
    );
    assert_eq!(
        (output.lines, output.code),
        (vec![error("Échec pour le PID 1234 : refus")], 1)
    );
    let plan = plan_set("5678", Flow::Input, "system", &collected, &playback, &recording).unwrap();
    let output = cmd_set("5678", Flow::Input, &plan, &vec![Ok(())], &recording);
    assert_eq!(
        output.lines,
        vec![out("OK : 5678 (PID 5678) — entrée → périphérique système")]
    );
    let refused =
        plan_set("firefox", Flow::Input, "casque", &collected, &playback, &recording).unwrap_err();
    assert_eq!(
        refused.lines,
        vec![error(
            "Aucun périphérique de sortie correspondant à « casque ». Utilisez « route devices input »."
        )]
    );
}

#[test]
fn console_is_left_alone_when_inherited() {
    assert!(outputs_inherited(false, false, 1));
    assert!(!outputs_inherited(true, false, 1));
    assert!(!outputs_inherited(false, true, 1));
    assert!(!outputs_inherited(false, false, 0));
}
