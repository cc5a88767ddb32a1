use audio_config_manager::app_routing::profile_apps::{ApplicationEntry, ProcInfo, RouteTarget};
use audio_config_manager::app_routing::profile_file::{
    applications_in_profile, attach_applications_to_profile, attached_count, entry_from_json,
    entry_to_json, is_valid_profile, preview_applications, profile_devices,
    profile_has_applications, read_profile_json, section_from_json, section_to_json, strip_bom,
    AttachError,
};
use audio_config_manager::json::{parse, pretty, Json};

fn spotify() -> ApplicationEntry {
    ApplicationEntry {
        process_name: "Spotify.exe".into(),
        executable_path: Some(r"C:\Users\me\AppData\Roaming\Spotify\Spotify.exe".into()),
        output: Some(RouteTarget {
            device_id: "{0.0.0.00000000}.{guid}".into(),
            device_name: Some("Casque USB".into()),
        }),
        input: None,
    }
}

fn text<'a>(json: &'a Json, keys: &[&str]) -> Option<&'a str> {
    let mut at = json;
    for key in keys {
        at = at.get(key)?;
    }
    at.as_text()
}

fn file(content: &str) -> Result<Vec<u8>, String> {
    Ok(content.as_bytes().to_vec())
}

#[test]
fn app_routing_application_entries_serialize_camel_case() {
    let entry = spotify();
    let value = entry_to_json(&entry);
    assert_eq!(text(&value, &["processName"]), Some("Spotify.exe"));
    assert_eq!(text(&value, &["output", "deviceId"]), Some("{0.0.0.00000000}.{guid}"));
    assert_eq!(text(&value, &["output", "deviceName"]), Some("Casque USB"));
    assert!(value.get("input").is_none() || matches!(value.get("input"), Some(Json::Null)));
    let back: ApplicationEntry = entry_from_json(&value).unwrap();
    assert_eq!(back, entry);
}

#[test]
fn mod_application_entries_serialize_camel_case() {
    let entry = spotify();
    let value = entry_to_json(&entry);
    assert_eq!(text(&value, &["processName"]), Some("Spotify.exe"));
    assert_eq!(text(&value, &["output", "deviceId"]), Some("{0.0.0.00000000}.{guid}"));
    assert_eq!(text(&value, &["output", "deviceName"]), Some("Casque USB"));
    assert!(value.get("input").is_none() || matches!(value.get("input"), Some(Json::Null)));
    let back: ApplicationEntry = entry_from_json(&value).unwrap();
    assert_eq!(back, entry);
}

#[test]
fn sections_come_back_as_they_were() {
    let bare = ApplicationEntry {
        process_name: "a\"b\\é.exe".to_string(),
        executable_path: None,
        output: None,
        input: Some(RouteTarget { device_id: "id".to_string(), device_name: None }),
    };
    let entries = vec![spotify(), bare];
    let section = section_to_json(&entries);
    let written = pretty(&section).unwrap();
    let again = parse(&written).unwrap();
    assert_eq!(section_from_json(again.as_array().unwrap()).unwrap(), entries);
}

#[test]
fn attached_sections_are_read_back() {
    let profile = file(
        "\u{feff}{\"Metadata\":{\"Version\":\"3.1\"},\"PlaybackDevices\":[{\"ID\":\"x\",\"Volume\":42.0}]}",
    );
    let done = attach_applications_to_profile(&profile, &Ok((vec![spotify()], Vec::new()))).unwrap();
    assert_eq!(done.count, 1);
    assert!(done.warnings.is_empty());
    assert!(done.content.starts_with("{\n  \""));
    let written = file(&done.content);
    assert!(is_valid_profile(&written));
    assert!(profile_has_applications(&written));
    assert_eq!(applications_in_profile(&written).unwrap(), vec![spotify()]);
    // The rest of the profile is still there.
    let root = read_profile_json(&written).unwrap();
    assert_eq!(text(&root, &["Metadata", "Version"]), Some("3.1"));
    assert_eq!(profile_devices(&root, "PlaybackDevices"), vec![("x".to_string(), String::new())]);
    // A second attachment replaces the first.
    let done = attach_applications_to_profile(&written, &Err("panne".to_string())).unwrap();
    assert_eq!((done.count, done.warnings), (0, vec!["panne".to_string()]));
    assert!(applications_in_profile(&file(&done.content)).unwrap().is_empty());
}

#[test]
fn numbers_of_a_profile_stay_readable() {
    let profile = file(
        r#"{"Metadata":{"n":[-7,18446744073709551615],"x":[1e300,-1.7976931348623157e308,1.797693134862315e308,5e-324,0.1]}}"#,
    );
    let done = attach_applications_to_profile(&profile, &Ok((vec![spotify()], Vec::new()))).unwrap();
    let written = file(&done.content);
    assert!(is_valid_profile(&written));
    assert_eq!(applications_in_profile(&written).unwrap(), vec![spotify()]);
    let before = read_profile_json(&profile).unwrap();
    let after = read_profile_json(&written).unwrap();
    let whole = |root: &Json| pretty(root.get("Metadata").unwrap().get("n").unwrap()).unwrap();
    assert_eq!(whole(&after), whole(&before));
}

#[test]
fn sections_are_attached_to_objects_only() {
    assert!(matches!(
        attach_applications_to_profile(&file("[1]"), &Ok((Vec::new(), Vec::new()))),
        Err(AttachError::NotAnObject)
    ));
    let done =
        attach_applications_to_profile(&file("null"), &Ok((Vec::new(), Vec::new()))).unwrap();
    assert_eq!(done.content, "{\n  \"applications\": []\n}");
    match attach_applications_to_profile(&Err("absent".to_string()), &Ok((Vec::new(), Vec::new()))) {
        Err(AttachError::Unusable(message)) => assert_eq!(message, "Profil illisible : absent"),
        _ => panic!("unexpected outcome"),
    }
    match attach_applications_to_profile(&file("{"), &Ok((Vec::new(), Vec::new()))) {
        Err(AttachError::Unusable(message)) => {
            assert!(message.starts_with("Profil JSON invalide : EOF"))
        }
        _ => panic!("unexpected outcome"),
    }
    assert_eq!(attached_count(3, Ok(())).unwrap(), 3);
    assert_eq!(
        attached_count(3, Err("plein".to_string())).unwrap_err(),
        "Écriture du profil impossible : plein"
    );
}

#[test]
fn profiles_without_a_section_have_no_applications() {
    assert!(applications_in_profile(&file(r#"{"Metadata":{}}"#)).unwrap().is_empty());
    assert!(applications_in_profile(&file(r#"{"applications":{}}"#)).unwrap().is_empty());
    assert!(!profile_has_applications(&file(r#"{"Metadata":{}}"#)));
    assert!(!profile_has_applications(&Err("x".to_string())));
    // The word alone is no section, and a section may be written with escapes.
    assert!(!profile_has_applications(&file(r#"{"Metadata":{"Note":"applications"}}"#)));
    assert!(!profile_has_applications(&file(r#"{"Metadata":{"applications":[]}}"#)));
    assert!(profile_has_applications(&file(r#"{"\u0061pplications":[]}"#)));
    assert!(profile_has_applications(&file("\u{feff}{\"applications\":null}")));
    // Text that is no JSON is looked at where it names the section.
    assert!(profile_has_applications(&file(r#"{"applications":["#)));
    assert!(!profile_has_applications(&file("\u{feff}\"applications\"")));
    assert!(!profile_has_applications(&file(r#"{"Metadata":["#)));
    assert!(!profile_has_applications(&file("applications")));
}

#[test]
fn faulty_sections_are_explained() {
    let cases = [
        (r#"{"applications":[{}]}"#, "missing field `processName`"),
        (r#"{"applications":[3]}"#, "invalid type: integer `3`, expected struct ApplicationEntry"),
        (
            r#"{"applications":[{"processName":"a","output":{}}]}"#,
            "missing field `deviceId`",
        ),
        (
            r#"{"applications":[{"processName":"a","input":true}]}"#,
            "invalid type: boolean `true`, expected struct RouteTarget",
        ),
        (
            r#"{"applications":[[]]}"#,
            "invalid length 0, expected struct ApplicationEntry with 4 elements",
        ),
        (
            r#"{"applications":[["a",null,null,null,null]]}"#,
            "invalid length 5, expected fewer elements in array",
        ),
    ];
    for (content, reason) in cases {
        assert_eq!(
            applications_in_profile(&file(content)).unwrap_err(),
            format!("Section « applications » invalide : {reason}")
        );
    }
    let listed = applications_in_profile(&file(r#"{"applications":[["a",null,["id"]]]}"#)).unwrap();
    assert_eq!(listed[0].process_name, "a");
    assert_eq!(listed[0].output.as_ref().unwrap().device_id, "id");
}

#[test]
fn invalid_utf8_is_replaced_when_read() {
    let mut bytes = br#"{"name":""#.to_vec();
    bytes.push(0xFF);
    bytes.extend_from_slice(br#""}"#);
    let root = read_profile_json(&Ok(bytes)).unwrap();
    assert_eq!(text(&root, &["name"]), Some("\u{fffd}"));
}

#[test]
fn devices_of_a_profile_are_read_in_either_case() {
    let root = parse(
        r#"{"PlaybackDevices":[{"ID":"a","Name":"A"},{"id":"b","name":"B"},{"ID":3,"id":"c"},{"Name":"D"},7]}"#,
    )
    .unwrap();
    assert_eq!(
        profile_devices(&root, "PlaybackDevices"),
        vec![("a".to_string(), "A".to_string()), ("b".to_string(), "B".to_string())]
    );
    assert!(profile_devices(&root, "RecordingDevices").is_empty());
}

#[test]
fn byte_order_mark_is_dropped_once() {
    assert_eq!(strip_bom(&[0xEF, 0xBB, 0xBF, 0xEF, 0xBB, 0xBF]), &[0xEF, 0xBB, 0xBF]);
    assert_eq!(strip_bom(&[0xEF, 0xBB]), &[0xEF, 0xBB]);
}

#[test]
fn previews_tell_what_is_there() {
    let running = vec![ProcInfo {
        pid: 5,
        name: "spotify.EXE".to_string(),
        exe: Some("D:/autre/Spotify.exe".to_string()),
    }];
    let playback = vec![("autre".to_string(), "casque usb".to_string())];
    let content = pretty(&Json::Object(vec![(
        "applications".to_string(),
        section_to_json(&vec![spotify()]),
    )]))
    .unwrap();
    let rows = preview_applications(&file(&content), &playback, &Vec::new(), &running).unwrap();
    assert_eq!(rows.len(), 1);
    assert!(rows[0].running);
    assert!(rows[0].output.as_ref().unwrap().present);
    assert!(rows[0].input.is_none());
    let rows = preview_applications(&file(&content), &Vec::new(), &Vec::new(), &Vec::new()).unwrap();
    assert!(!rows[0].running);
    assert!(!rows[0].output.as_ref().unwrap().present);
}

#[test]
fn later_members_of_one_name_count() {
    let twice = Json::Object(vec![
        ("a".to_string(), Json::Bool(false)),
        ("a".to_string(), Json::Bool(true)),
    ]);
    assert_eq!(twice.get("a").unwrap().as_bool(), Some(true));
    assert_eq!(pretty(&twice).unwrap(), "{\n  \"a\": true\n}");
    let parsed = parse(r#"{"a":1,"a":"x"}"#).unwrap();
    assert_eq!(parsed.get("a").unwrap().as_text(), Some("x"));
}
