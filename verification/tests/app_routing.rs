use audio_config_manager::app_routing::devices::{
    pack_device_id, unpack_device_id, RENDER_INTERFACE,
};
use audio_config_manager::app_routing::export::record_index;
use audio_config_manager::app_routing::profile_apps::{paths_equal, ApplicationEntry};
use audio_config_manager::app_routing::Flow;

#[test]
fn app_routing_pack_and_unpack_round_trip_render() {
    let id = "{0.0.0.00000000}.{e6327cad-dcec-4949-ae8a-991e976a79d2}";
    let packed = pack_device_id(Flow::Output, id);
    assert_eq!(packed, format!(r"\\?\SWD#MMDEVAPI#{id}{RENDER_INTERFACE}"));
    assert_eq!(unpack_device_id(&packed).as_deref(), Some(id));
}

#[test]
fn app_routing_pack_and_unpack_round_trip_capture() {
    let id = "{0.0.1.00000000}.{2eef81be-33fa-4800-9670-1cd474972c3f}";
    let packed = pack_device_id(Flow::Input, id);
    assert_eq!(unpack_device_id(&packed).as_deref(), Some(id));
}

#[test]
fn app_routing_unpack_rejects_foreign_strings() {
    assert_eq!(unpack_device_id("n'importe quoi"), None);
    assert_eq!(unpack_device_id(r"\\?\SWD#MMDEVAPI#{abc}"), None);
}

#[test]
fn app_routing_paths_equal_normalizes_case_and_separators() {
    assert!(paths_equal(r"C:\Users\X\App.exe", "c:/users/x/app.exe"));
    assert!(!paths_equal(r"C:\a.exe", r"D:\a.exe"));
}

#[test]
fn app_routing_record_index_reuses_identity() {
    let mut records: Vec<(String, String, ApplicationEntry)> = Vec::new();
    let identity = ("c:/a.exe".to_string(), "app.exe".to_string());
    let first = record_index(
        &mut records,
        &identity,
        "app.exe".into(),
        Some("C:/A.exe".into()),
    );
    assert_eq!(first, 0);
    let second = record_index(&mut records, &identity, "autre.exe".into(), None);
    assert_eq!(second, 0);
    assert_eq!(records.len(), 1);
}

#[test]
fn mod_pack_and_unpack_round_trip_render() {
    let id = "{0.0.0.00000000}.{e6327cad-dcec-4949-ae8a-991e976a79d2}";
    let packed = pack_device_id(Flow::Output, id);
    assert_eq!(packed, format!(r"\\?\SWD#MMDEVAPI#{id}{RENDER_INTERFACE}"));
    assert_eq!(unpack_device_id(&packed).as_deref(), Some(id));
}

#[test]
fn mod_pack_and_unpack_round_trip_capture() {
    let id = "{0.0.1.00000000}.{2eef81be-33fa-4800-9670-1cd474972c3f}";
    let packed = pack_device_id(Flow::Input, id);
    assert_eq!(unpack_device_id(&packed).as_deref(), Some(id));
}

#[test]
fn mod_unpack_rejects_foreign_strings() {
    assert_eq!(unpack_device_id("n'importe quoi"), None);
    assert_eq!(unpack_device_id(r"\\?\SWD#MMDEVAPI#{abc}"), None);
}

#[test]
fn mod_paths_equal_normalizes_case_and_separators() {
    assert!(paths_equal(r"C:\Users\X\App.exe", "c:/users/x/app.exe"));
    assert!(!paths_equal(r"C:\a.exe", r"D:\a.exe"));
}

#[test]
fn mod_record_index_reuses_identity() {
    let mut records: Vec<(String, String, ApplicationEntry)> = Vec::new();
    let identity = ("c:/a.exe".to_string(), "app.exe".to_string());
    let first = record_index(
        &mut records,
        &identity,
        "app.exe".into(),
        Some("C:/A.exe".into()),
    );
    assert_eq!(first, 0);
    let second = record_index(&mut records, &identity, "autre.exe".into(), None);
    assert_eq!(second, 0);
    assert_eq!(records.len(), 1);
}
