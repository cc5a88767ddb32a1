use audio_config_manager::app_routing::devices::IdReading;
use audio_config_manager::app_routing::ffi::{ComCall, Guid};
use audio_config_manager::app_routing::watch::{
    answer_interface, default_device_id, iid_imm_notification_client, iid_iunknown, released,
    watch_registered, wide_to_string, InterfaceAnswer, WatchState,
};
use audio_config_manager::appearance::{
    backdrop_enabled, mica_allowed, mica_applied, reg_dword, system_accent_color, BackdropState,
};
use audio_config_manager::fakeaudio::{
    available_frames, buffer_frames, candidates, open_outcome, render_devices, Candidate,
    OpenAttempt,
};
use audio_config_manager::json::{parse, pretty};

const DONE: ComCall = ComCall { hr: 0, present: true };
const FAILED: ComCall = ComCall { hr: -2147024809, present: false };

#[test]
fn accent_colour_is_read_from_low_to_high() {
    assert_eq!(system_accent_color(Some(0xFF0A_C8FF), None).as_deref(), Some("#ffc80a"));
    assert_eq!(system_accent_color(None, Some(0)).as_deref(), Some("#000000"));
    assert_eq!(system_accent_color(None, None), None);
    assert_eq!(reg_dword(0, 0, 4, 7), Some(7));
    assert_eq!(reg_dword(2, 0, 4, 7), None);
    assert_eq!(reg_dword(0, 2, 4, 7), None);
    assert_eq!(reg_dword(0, 0, 1, 7), None);
}

#[test]
fn backdrop_needs_a_local_transparent_session() {
    assert!(mica_allowed(0, None));
    assert!(mica_allowed(0, Some(1)));
    assert!(!mica_allowed(0, Some(0)));
    assert!(!mica_allowed(1, Some(1)));
    assert!(mica_applied(true, true, true));
    assert!(!mica_applied(true, true, false));
    assert!(!mica_applied(true, false, true));
    assert!(!mica_applied(false, true, true));
    assert!(backdrop_enabled(&BackdropState(true)));
}

#[test]
fn default_device_is_tried_first() {
    let items = vec![DONE, FAILED, DONE];
    assert_eq!(render_devices(0, DONE, DONE, &items), vec![0, 2]);
    assert!(render_devices(-1, DONE, DONE, &items).is_empty());
    assert!(render_devices(0, FAILED, DONE, &items).is_empty());
    assert!(render_devices(0, DONE, FAILED, &items).is_empty());
    assert_eq!(
        candidates(&vec![0, 2], true),
        vec![Candidate::Preferred, Candidate::Listed(0), Candidate::Listed(2)]
    );
    assert_eq!(candidates(&vec![1], false), vec![Candidate::Listed(1)]);
    assert!(candidates(&Vec::new(), true).is_empty());
}

#[test]
fn playing_needs_one_device_that_opens() {
    assert_eq!(
        open_outcome(&Vec::new()).unwrap_err(),
        "FAKEAUDIO_ERR : aucun périphérique de rendu actif"
    );
    let refused = OpenAttempt { client: FAILED, init_hr: 0 };
    let unready = OpenAttempt { client: DONE, init_hr: -2147467259 };
    let open = OpenAttempt { client: DONE, init_hr: 0 };
    assert_eq!(
        open_outcome(&vec![unready, refused]).unwrap_err(),
        "FAKEAUDIO_ERR : Initialize échoué sur tous les périphériques (dernier 0x80070057)"
    );
    assert_eq!(
        open_outcome(&vec![refused, unready]).unwrap_err(),
        "FAKEAUDIO_ERR : Initialize échoué sur tous les périphériques (dernier 0x80004005)"
    );
    assert!(open_outcome(&vec![refused, open]).is_ok());
    assert_eq!((buffer_frames(0), buffer_frames(480)), (4410, 480));
    assert_eq!((available_frames(480, 80), available_frames(80, 480)), (400, 0));
}

#[test]
fn notification_object_answers_for_its_interfaces() {
    let client = iid_imm_notification_client();
    assert_eq!(client.data1, 0x7991_eec9);
    assert_eq!(answer_interface(Some(client), true), InterfaceAnswer::HandOut);
    assert_eq!(answer_interface(Some(iid_iunknown()), true), InterfaceAnswer::HandOut);
    let near = Guid { data4: [0x83, 0x90, 0x6c, 0x70, 0x3c, 0xec, 0x60, 0xc1], ..client };
    assert_eq!(answer_interface(Some(near), true), InterfaceAnswer::Refuse);
    assert_eq!(answer_interface(None, true), InterfaceAnswer::NullArgument);
    assert_eq!(answer_interface(Some(client), false), InterfaceAnswer::NullArgument);
    assert_eq!(InterfaceAnswer::HandOut.code(), 0);
    assert_eq!(InterfaceAnswer::Refuse.code(), 0x8000_4002u32 as i32);
    assert_eq!(InterfaceAnswer::NullArgument.code(), 0x8000_4003u32 as i32);
    assert_eq!((released(0), released(1), released(5)), (0, 0, 4));
}

#[test]
fn notified_identifiers_are_read_up_to_their_end() {
    assert_eq!(wide_to_string(None), "");
    assert_eq!(wide_to_string(Some(&[0x41, 0x42, 0, 0x43])), "AB");
    assert_eq!(wide_to_string(Some(&[0x41, 0x42])), "AB");
    assert_eq!(wide_to_string(Some(&vec![0x41; 5000])).len(), 4096);
    let id = IdReading { call: DONE, units: vec![0x41, 0] };
    assert_eq!(default_device_id(DONE, &id), "A");
    assert_eq!(default_device_id(FAILED, &id), "");
    assert_eq!(default_device_id(DONE, &IdReading { call: FAILED, units: vec![] }), "");
    assert!(watch_registered(0).is_ok());
    assert_eq!(
        watch_registered(-2147467259).unwrap_err(),
        "abonnement notifications audio impossible (0x80004005)"
    );
}

#[test]
fn told_devices_are_never_told_twice_in_a_row() {
    let mut state = WatchState::seed("A".into(), "M".into());
    let events = [(0, "B"), (0, "B"), (1, "M"), (1, "N"), (5, "Z"), (0, "B"), (0, "A")];
    let mut told = vec![("A".to_string(), "M".to_string())];
    for (flow, id) in events {
        if let Some(news) = state.accept(flow, id.to_string()) {
            assert_ne!(told.last(), Some(&news));
            told.push(news);
        }
        assert_eq!(state.current, state.last_notified);
    }
    assert_eq!(told.len(), 4);
}

#[test]
fn deepest_documents_are_read_and_written() {
    let deep = format!("{}{}", "[".repeat(127), "]".repeat(127));
    let json = parse(&deep).unwrap();
    let written = pretty(&json).unwrap();
    assert!(parse(&written).is_ok());
    let deeper = format!("{}{}", "[".repeat(128), "]".repeat(128));
    assert!(parse(&deeper).unwrap_err().starts_with("recursion limit exceeded"));
    let numbers = parse("[0, -7, 18446744073709551615, 42.5]").unwrap();
    assert_eq!(
        pretty(&numbers).unwrap(),
        "[\n  0,\n  -7,\n  18446744073709551615,\n  42.5\n]"
    );
}
