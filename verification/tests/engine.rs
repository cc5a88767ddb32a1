use audio_config_manager::app_routing::devices::{
    active_devices, collection_count, default_device_info, enum_devices, list_active_devices,
    list_device_ids_by_state, overview_devices, pack_device_id, text_at, DefaultReading,
    DeviceReading, FlowReading, IdReading, NameReading,
};
use audio_config_manager::app_routing::ffi::{
    begin_set, coded_message, continue_set, device_enumerator, persisted_route, policy_activated,
    policy_config_iids, query_interface, route_argument, routing_available, set_app_route,
    string_created, ComCall, PropVariant, ProcessEntry32W, Role, SetStep, HR_ERROR_NOT_FOUND,
    VT_LPWSTR,
};
use audio_config_manager::app_routing::profile_apps::{process_exe, process_of_entry};
use audio_config_manager::app_routing::sessions::{
    list_session_pids_noinit, list_sessions_noinit, DeviceSessions, SessionReading,
};
use audio_config_manager::app_routing::{parse_flow, Flow};
use audio_config_manager::encoding::units_of;

const DONE: ComCall = ComCall { hr: 0, present: true };
const FAILED: ComCall = ComCall { hr: -1, present: false };

fn units(text: &str) -> Vec<u16> {
    text.encode_utf16().chain(Some(0)).collect()
}

fn id(text: &str) -> IdReading {
    IdReading { call: DONE, units: units(text) }
}

fn name(text: &str) -> NameReading {
    NameReading {
        store: DONE,
        value_hr: 0,
        value: PropVariant {
            vt: VT_LPWSTR,
            w_reserved1: 0,
            w_reserved2: 0,
            w_reserved3: 0,
            psz_val: 1,
            rest: 0,
        },
        units: units(text),
    }
}

fn finished(step: SetStep) -> Result<(), String> {
    match step {
        SetStep::Finished(outcome) => outcome,
        SetStep::Write(role) => panic!("unexpected write for {role:?}"),
    }
}

#[test]
fn result_codes_are_shown_in_hexadecimal() {
    assert_eq!(coded_message("Échec", -2147024894), "Échec (0x80070002)");
    assert_eq!(coded_message("Échec", 10), "Échec (0x0000000A)");
    assert!(string_created(0).is_ok());
    assert_eq!(
        string_created(-2147024882).unwrap_err(),
        "Création de chaîne Windows impossible (0x8007000E)"
    );
    assert_eq!(query_interface(false, DONE).unwrap_err(), "Objet COM nul");
    assert_eq!(
        query_interface(true, ComCall { hr: -2147467262, present: false }).unwrap_err(),
        "Interface COM indisponible (0x80004002)"
    );
    assert!(query_interface(true, DONE).is_ok());
    assert_eq!(
        device_enumerator(ComCall { hr: 0, present: false }).unwrap_err(),
        "Énumérateur audio indisponible (0x00000000)"
    );
}

#[test]
fn engine_is_asked_newest_interface_first() {
    let iids = policy_config_iids();
    assert_eq!(iids[0].data1, 0xab3d4648);
    assert_eq!(iids[1].data1, 0x2a59116d);
    assert_eq!(policy_activated(Ok(()), &vec![DONE, DONE]).unwrap(), 0);
    assert_eq!(policy_activated(Ok(()), &vec![FAILED, DONE]).unwrap(), 1);
    assert_eq!(
        policy_activated(Ok(()), &vec![FAILED, FAILED]).unwrap_err(),
        "Routage par application indisponible sur ce système."
    );
    assert_eq!(policy_activated(Err("x".to_string()), &vec![DONE]).unwrap_err(), "x");
    assert!(routing_available(Ok(Ok(1))));
    assert!(!routing_available(Ok(Err("x".to_string()))));
    assert!(!routing_available(Err("x".to_string())));
}

#[test]
fn routes_are_written_for_console_then_multimedia() {
    assert!(matches!(begin_set(Ok(())), SetStep::Write(Role::Console)));
    assert!(matches!(
        continue_set(Flow::Output, Role::Console, 0),
        SetStep::Write(Role::Multimedia)
    ));
    assert!(finished(continue_set(Flow::Output, Role::Multimedia, 0)).is_ok());
    assert_eq!(
        finished(continue_set(Flow::Output, Role::Console, -2147024846)).unwrap_err(),
        "Routage sortie (console) impossible (0x80070032)"
    );
    assert_eq!(
        finished(continue_set(Flow::Input, Role::Multimedia, -2147024809)).unwrap_err(),
        "Routage entrée (multimédia) impossible (0x80070057)"
    );
    assert_eq!(finished(set_app_route(Err("a".to_string()), Ok(()))).unwrap_err(), "a");
    assert_eq!(finished(set_app_route(Ok(0), Err("b".to_string()))).unwrap_err(), "b");
    assert!(matches!(set_app_route(Ok(0), Ok(())), SetStep::Write(Role::Console)));
    assert_eq!(route_argument(Flow::Input, None), None);
    assert_eq!(
        route_argument(Flow::Input, Some("{x}")).as_deref(),
        Some(r"\\?\SWD#MMDEVAPI#{x}#{2eef81be-33fa-4800-9670-1cd474972c3f}")
    );
}

#[test]
fn persisted_routes_are_unpacked() {
    let packed: Vec<u16> = pack_device_id(Flow::Output, "{é😀}").encode_utf16().collect();
    assert_eq!(
        persisted_route(Flow::Output, 0, Some(&packed)).unwrap().as_deref(),
        Some("{é😀}")
    );
    assert_eq!(persisted_route(Flow::Output, HR_ERROR_NOT_FOUND, Some(&packed)).unwrap(), None);
    assert_eq!(persisted_route(Flow::Output, 0, None).unwrap(), None);
    let foreign: Vec<u16> = "autre".encode_utf16().collect();
    assert_eq!(persisted_route(Flow::Output, 0, Some(&foreign)).unwrap(), None);
    assert_eq!(
        persisted_route(Flow::Input, -2147467259, None).unwrap_err(),
        "Lecture de la route entrée impossible (0x80004005)"
    );
    assert_eq!(HR_ERROR_NOT_FOUND, 0x8007_0490u32 as i32);
}

#[test]
fn set_routes_are_read_back() {
    for flow in [Flow::Output, Flow::Input] {
        for id in ["{0.0.0.00000000}.{guid}", "{é😀\u{10ffff}}", ""] {
            let given = units_of(&route_argument(flow, Some(id)).unwrap());
            assert_eq!(persisted_route(flow, 0, Some(&given)).unwrap().as_deref(), Some(id));
        }
        assert_eq!(persisted_route(flow, HR_ERROR_NOT_FOUND, None).unwrap(), None);
    }
    assert_eq!(units_of("A\u{ffff}\u{10000}"), vec![0x41, 0xFFFF, 0xD800, 0xDC00]);
    let text = "Périphérique 😀";
    assert_eq!(units_of(text), text.encode_utf16().collect::<Vec<u16>>());
}

#[test]
fn texts_end_at_their_zero() {
    assert_eq!(text_at(&units("Casque")), "Casque");
    assert_eq!(text_at(&[0xD83D, 0xDE00, 0xD83D, 0x41, 0]), "😀\u{fffd}A");
    // No end within the limit.
    assert_eq!(text_at(&[0x41, 0x42]), "");
    assert_eq!(text_at(&vec![0x41; 1024]), "");
    let mut long = vec![0x41; 1023];
    long.push(0);
    assert_eq!(text_at(&long).len(), 1023);
    let mut longer = vec![0x41; 1024];
    longer.push(0);
    assert_eq!(text_at(&longer), "");
}

#[test]
fn devices_without_an_identifier_are_left_out() {
    let readings = vec![
        DeviceReading { item: DONE, id: id("a"), name: name("A") },
        DeviceReading { item: FAILED, id: id("b"), name: name("B") },
        DeviceReading {
            item: DONE,
            id: IdReading { call: FAILED, units: Vec::new() },
            name: name("C"),
        },
        DeviceReading {
            item: DONE,
            id: id("d"),
            name: NameReading { value_hr: -1, ..name("D") },
        },
    ];
    let collection = Ok(Some(readings));
    assert_eq!(
        list_active_devices(&collection),
        vec![("a".to_string(), "A".to_string()), ("d".to_string(), String::new())]
    );
    assert_eq!(list_device_ids_by_state(&collection), vec!["a", "d"]);
    assert_eq!(active_devices(&Ok(collection)).len(), 2);
    assert!(active_devices(&Err("x".to_string())).is_empty());
    assert!(list_active_devices(&Ok(None)).is_empty());
    assert!(list_active_devices(&Err("x".to_string())).is_empty());
    assert_eq!(collection_count(-1, 7), 0);
    assert_eq!(collection_count(0, 7), 7);
    assert!(enum_devices(Ok(()), DONE).unwrap());
    assert!(!enum_devices(Ok(()), FAILED).unwrap());
    assert_eq!(enum_devices(Err("x".to_string()), DONE).unwrap_err(), "x");
}

#[test]
fn overview_counts_and_names_the_defaults() {
    let playback = FlowReading {
        collection: Ok(true),
        count_hr: 0,
        count: 3,
        default_device: DefaultReading { device: DONE, id: id("a"), name: name("Casque") },
    };
    let recording = FlowReading {
        collection: Ok(false),
        count_hr: 0,
        count: 9,
        default_device: DefaultReading { device: FAILED, id: id("b"), name: name("Micro") },
    };
    let overview = overview_devices(&playback, &recording);
    assert_eq!((overview.playback_count, overview.recording_count), (3, 0));
    let shown = overview.default_playback.unwrap();
    assert_eq!((shown.id.as_str(), shown.name.as_str()), ("a", "Casque"));
    assert_eq!(overview.default_recording, None);
    let unread = DefaultReading {
        device: DONE,
        id: IdReading { call: FAILED, units: Vec::new() },
        name: name("x"),
    };
    assert_eq!(default_device_info(&unread), None);
}

fn session(pid: u32, state: i32) -> SessionReading {
    SessionReading { control: DONE, control2: DONE, pid_hr: 0, pid, state_hr: 0, state }
}

#[test]
fn sessions_are_listed_by_process() {
    let device = |sessions| DeviceSessions {
        item: DONE,
        manager: DONE,
        enumerator: DONE,
        count_hr: 0,
        sessions,
    };
    let collection = Ok(Some(vec![
        device(vec![
            session(4, 1),
            session(0, 1),
            SessionReading { control2: FAILED, ..session(5, 1) },
            SessionReading { pid_hr: -1, ..session(6, 1) },
            SessionReading { state_hr: -1, ..session(7, 1) },
        ]),
        DeviceSessions { manager: FAILED, ..device(vec![session(8, 1)]) },
        DeviceSessions { count_hr: -1, ..device(vec![session(9, 1)]) },
        device(vec![session(4, 0), session(2, 2)]),
    ]));
    assert_eq!(
        list_sessions_noinit(&collection).unwrap(),
        vec![(4, true), (7, false), (4, false), (2, false)]
    );
    assert_eq!(list_session_pids_noinit(&collection).unwrap(), vec![4, 7, 2]);
    assert!(list_sessions_noinit(&Ok(None)).unwrap().is_empty());
    assert_eq!(list_session_pids_noinit(&Err("x".to_string())).unwrap_err(), "x");
}

#[test]
fn snapshot_entries_become_processes() {
    let mut file = [0u16; 260];
    for (i, unit) in "Spotify.exe".encode_utf16().enumerate() {
        file[i] = unit;
    }
    file[20] = 0x41;
    let mut entry = ProcessEntry32W {
        dw_size: 0,
        cnt_usage: 0,
        th32_process_id: 12,
        th32_default_heap_id: 0,
        th32_module_id: 0,
        cnt_threads: 0,
        th32_parent_process_id: 0,
        pc_pri_class_base: 0,
        dw_flags: 0,
        sz_exe_file: file,
    };
    let process = process_of_entry(&entry, Some("C:\\s.exe".to_string()));
    assert_eq!((process.pid, process.name.as_str()), (12, "Spotify.exe"));
    assert_eq!(process.exe.as_deref(), Some("C:\\s.exe"));
    entry.th32_process_id = 0;
    assert_eq!(process_of_entry(&entry, Some("C:\\s.exe".to_string())).exe, None);
    entry.sz_exe_file = [0x42; 260];
    assert_eq!(process_of_entry(&entry, None).name.len(), 260);
    let buffer: Vec<u16> = "C:\\s.exe".encode_utf16().collect();
    assert_eq!(process_exe(true, &buffer, 4).as_deref(), Some("C:\\s"));
    assert_eq!(process_exe(false, &buffer, 4), None);
}

#[test]
fn flows_are_named() {
    assert_eq!(parse_flow("output").unwrap(), Flow::Output);
    assert_eq!(parse_flow("input").unwrap(), Flow::Input);
    assert_eq!(
        parse_flow("Output").unwrap_err(),
        "Flux audio inconnu (attendu « output » ou « input »)"
    );
    for flow in [Flow::Output, Flow::Input] {
        assert_eq!(parse_flow(flow.name()).unwrap(), flow);
    }
    assert_eq!((Flow::Output.value(), Flow::Input.value()), (0, 1));
    assert_eq!((Flow::Output.label(), Flow::Input.label()), ("sortie", "entrée"));
}
