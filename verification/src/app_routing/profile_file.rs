//! The `applications` section of a profile file.

use crate::app_routing::profile_apps::{
    AppPreviewRow, ApplicationEntry, ApplicationEntryView, ProcInfo, RestoreReport, RouteTarget,
    RouteTargetView,
};
use crate::app_routing::restore::{preview_entries, restore_applications, RestoreReading};
use crate::app_routing::DeviceList;
use crate::decode::{
    decode_optional_text, decode_text, item, too_long_message, wrong_type_message,
};
use crate::encoding;
use crate::json::{self, Json};
use crate::text;
use vstd::prelude::*;
use vstd::utf8::{encode_utf8, valid_utf8};

use crate::app_routing::restore::{empty_report, engine_report, has_all_outcomes, preview_rows};
use crate::app_routing::DeviceListView;
use crate::decode::{
    decoded_optional_text, decoded_text, decoding, item_at, too_long, wrong_type,
};
use crate::encoding::bytes_text;
use crate::json::{json_parse, member, JsonView};

verus! {

// ---------------------------------------------------------------------------
// Reading a profile
// ---------------------------------------------------------------------------

/// `bytes` without the byte order mark of UTF-8, where they start with it.
pub open spec fn without_bom(bytes: Seq<u8>) -> Seq<u8> {
    if bytes.len() >= 3 && bytes[0] == 0xEF && bytes[1] == 0xBB && bytes[2] == 0xBF {
        bytes.skip(3)
    } else {
        bytes
    }
}

/// The bytes without the byte order mark of UTF-8.
pub fn strip_bom(bytes: &[u8]) -> (r: &[u8])
    ensures
        r@ == without_bom(bytes@),
{
    if bytes.len() >= 3 && bytes[0] == 0xEF && bytes[1] == 0xBB && bytes[2] == 0xBF {
        let rest = vstd::slice::slice_subrange(bytes, 3, bytes.len());
        assert(rest@ == bytes@.skip(3));
        rest
    } else {
        bytes
    }
}

/// What a profile holds: its content is `contents`, or it could not be read
/// for a reason.
pub open spec fn profile_root(contents: Result<Seq<u8>, Seq<char>>) -> Result<
    JsonView,
    Seq<char>,
> {
    match contents {
        Err(reason) => Err("Profil illisible : "@ + reason),
        Ok(bytes) => match json_parse(bytes_text(without_bom(bytes))) {
            Ok(root) => Ok(root),
            Err(reason) => Err("Profil JSON invalide : "@ + reason),
        },
    }
}

/// The content of a file or the reason why it could not be read, as contracts
/// speak of it.
pub open spec fn contents_view(contents: Result<Vec<u8>, String>) -> Result<Seq<u8>, Seq<char>> {
    match contents {
        Ok(bytes) => Ok(bytes@),
        Err(reason) => Err(reason@),
    }
}

/// Reads a profile, with or without a byte order mark.
pub fn read_profile_json(contents: &Result<Vec<u8>, String>) -> (r: Result<Json, String>)
    ensures
        match (r, profile_root(contents_view(*contents))) {
            (Ok(json), Ok(root)) => json.deep_view() == root && json::nested_at_most(
                root,
                json::depth_limit(),
            ),
            (Err(message), Err(expected)) => message@ == expected,
            _ => false,
        },
{
    match contents {
        Err(reason) => {
            let mut message = text::owned("Profil illisible : ");
            message.append(reason.as_str());
            Err(message)
        },
        Ok(bytes) => {
            let raw = encoding::decode_lossy(strip_bom(bytes.as_slice()));
            match json::parse(raw.as_str()) {
                Ok(root) => Ok(root),
                Err(reason) => {
                    let mut message = text::owned("Profil JSON invalide : ");
                    message.append(reason.as_str());
                    Err(message)
                },
            }
        },
    }
}

// ---------------------------------------------------------------------------
// Devices of a profile
// ---------------------------------------------------------------------------

/// The member called `first`, or else the one called `second`.
pub open spec fn either_member(
    v: JsonView,
    first: Seq<char>,
    second: Seq<char>,
) -> Option<JsonView> {
    match member(v, first) {
        Some(found) => Some(found),
        None => member(v, second),
    }
}

/// The device that an item of a device list stands for: an item without an
/// identifier stands for none, one without a name has the empty name.
pub open spec fn profile_device(item: JsonView) -> Option<(Seq<char>, Seq<char>)> {
    match either_member(item, "ID"@, "id"@) {
        Some(JsonView::Text(id)) => Some(
            (
                id,
                match either_member(item, "Name"@, "name"@) {
                    Some(JsonView::Text(name)) => name,
                    _ => Seq::empty(),
                },
            ),
        ),
        _ => None,
    }
}

/// The devices that a profile lists under a key.
pub open spec fn devices_listed(root: JsonView, key: Seq<char>) -> DeviceListView {
    match member(root, key) {
        Some(JsonView::Array(items)) => items.filter_map(|item: JsonView| profile_device(item)),
        _ => Seq::empty(),
    }
}

fn get_either<'a>(json: &'a Json, first: &str, second: &str) -> (r: Option<&'a Json>)
    ensures
        r.deep_view() == either_member(json.deep_view(), first@, second@),
{
    match json.get(first) {
        Some(found) => Some(found),
        None => json.get(second),
    }
}

fn device_of_item(item: &Json) -> (r: Option<(String, String)>)
    ensures
        r.deep_view() == profile_device(item.deep_view()),
{
    let id = match get_either(item, "ID", "id") {
        Some(found) => match found.as_text() {
            Some(id) => text::owned(id),
            None => return None,
        },
        None => return None,
    };
    let name = match get_either(item, "Name", "name") {
        Some(found) => match found.as_text() {
            Some(name) => text::owned(name),
            None => String::new(),
        },
        None => String::new(),
    };
    Some((id, name))
}

/// The devices that a profile lists under a key.
pub fn profile_devices(root: &Json, key: &str) -> (r: DeviceList)
    ensures
        r.deep_view() == devices_listed(root.deep_view(), key@),
{
    let mut out: DeviceList = Vec::new();
    assert(out.deep_view() =~= Seq::<(Seq<char>, Seq<char>)>::empty());
    match root.get(key) {
        None => out,
        Some(found) => match found.as_array() {
            None => out,
            Some(items) => {
                let ghost all = items.deep_view();
                let ghost f = |item: JsonView| profile_device(item);
                let mut i: usize = 0;
                while i < items.len()
                    invariant
                        i <= items@.len(),
                        all == items.deep_view(),
                        f == (|item: JsonView| profile_device(item)),
                        out.deep_view() == all.take(i as int).filter_map(f),
                    decreases items@.len() - i,
                {
                    let ghost before = out.deep_view();
                    proof {
                        all.lemma_filter_map_take_succ(f, i as int);
                    }
                    match device_of_item(&items[i]) {
                        Some(device) => {
                            out.push(device);
                            assert(out.deep_view() =~= before.push(device.deep_view()));
                        },
                        None => {},
                    }
                    i += 1;
                }
                assert(all.take(i as int) == all);
                out
            },
        },
    }
}

// ---------------------------------------------------------------------------
// Writing the section
// ---------------------------------------------------------------------------

/// An optional text as JSON.
pub open spec fn optional_text_json(text: Option<Seq<char>>) -> JsonView {
    match text {
        Some(text) => JsonView::Text(text),
        None => JsonView::Null,
    }
}

/// A route target as JSON.
pub open spec fn target_json(target: RouteTargetView) -> JsonView {
    JsonView::Object(
        Map::empty().insert("deviceId"@, JsonView::Text(target.device_id)).insert(
            "deviceName"@,
            optional_text_json(target.device_name),
        ),
    )
}

/// An optional route target as JSON.
pub open spec fn optional_target_json(target: Option<RouteTargetView>) -> JsonView {
    match target {
        Some(target) => target_json(target),
        None => JsonView::Null,
    }
}

/// An application entry as JSON.
pub open spec fn entry_json(entry: ApplicationEntryView) -> JsonView {
    JsonView::Object(
        Map::empty().insert("processName"@, JsonView::Text(entry.process_name)).insert(
            "executablePath"@,
            optional_text_json(entry.executable_path),
        ).insert("output"@, optional_target_json(entry.output)).insert(
            "input"@,
            optional_target_json(entry.input),
        ),
    )
}

/// Application entries as JSON.
pub open spec fn section_json(entries: Seq<ApplicationEntryView>) -> JsonView {
    JsonView::Array(entries.map_values(|entry: ApplicationEntryView| entry_json(entry)))
}

fn add_member(members: &mut Vec<(String, Json)>, key: &str, value: Json)
    ensures
        json::members_view(final(members)@) == json::members_view(old(members)@).insert(
            key@,
            value.deep_view(),
        ),
{
    let ghost before = members@;
    members.push((text::owned(key), value));
    assert(members@.drop_last() == before);
}

fn optional_text_to_json(text: &Option<String>) -> (r: Json)
    ensures
        r.deep_view() == optional_text_json(text.deep_view()),
{
    match text {
        Some(text) => Json::Text(text.clone()),
        None => Json::Null,
    }
}

fn target_to_json(target: &Option<RouteTarget>) -> (r: Json)
    ensures
        r.deep_view() == optional_target_json(target.deep_view()),
{
    match target {
        None => Json::Null,
        Some(target) => {
            let mut members: Vec<(String, Json)> = Vec::new();
            add_member(&mut members, "deviceId", Json::Text(target.device_id.clone()));
            add_member(&mut members, "deviceName", optional_text_to_json(&target.device_name));
            Json::Object(members)
        },
    }
}

/// An application entry as JSON.
pub fn entry_to_json(entry: &ApplicationEntry) -> (r: Json)
    ensures
        r.deep_view() == entry_json(entry.deep_view()),
{
    let mut members: Vec<(String, Json)> = Vec::new();
    add_member(&mut members, "processName", Json::Text(entry.process_name.clone()));
    add_member(&mut members, "executablePath", optional_text_to_json(&entry.executable_path));
    add_member(&mut members, "output", target_to_json(&entry.output));
    add_member(&mut members, "input", target_to_json(&entry.input));
    Json::Object(members)
}

/// Application entries as JSON.
pub fn section_to_json(entries: &Vec<ApplicationEntry>) -> (r: Json)
    ensures
        r.deep_view() == section_json(entries.deep_view()),
{
    let mut items: Vec<Json> = Vec::new();
    let mut i: usize = 0;
    while i < entries.len()
        invariant
            i <= entries@.len(),
            items@.len() == i,
            forall|j: int|
                0 <= j < i ==> (#[trigger] items@[j]).deep_view() == entry_json(
                    entries@[j].deep_view(),
                ),
        decreases entries@.len() - i,
    {
        items.push(entry_to_json(&entries[i]));
        i += 1;
    }
    proof {
        json::items_view_by_index(items@);
        assert(json::items_view(items@) =~= entries.deep_view().map_values(
            |entry: ApplicationEntryView| entry_json(entry),
        ));
    }
    Json::Array(items)
}

// ---------------------------------------------------------------------------
// Reading the section
// ---------------------------------------------------------------------------

/// The route target that a value stands for: an object with `deviceId` and
/// perhaps `deviceName`, or an array with the two in this order.
pub open spec fn decoded_target(v: JsonView) -> Result<RouteTargetView, Seq<char>> {
    match v {
        JsonView::Object(_) => match member(v, "deviceId"@) {
            Some(id) => match decoded_text(id) {
                Err(reason) => Err(reason),
                Ok(device_id) => match decoded_optional_text(member(v, "deviceName"@)) {
                    Err(reason) => Err(reason),
                    Ok(device_name) => Ok(RouteTargetView { device_id, device_name }),
                },
            },
            None => match decoded_optional_text(member(v, "deviceName"@)) {
                Err(reason) => Err(reason),
                Ok(_) => Err("missing field `deviceId`"@),
            },
        },
        JsonView::Array(items) => if items.len() == 0 {
            Err("invalid length 0, expected struct RouteTarget with 2 elements"@)
        } else {
            match decoded_text(items[0]) {
                Err(reason) => Err(reason),
                Ok(device_id) => match decoded_optional_text(item_at(items, 1)) {
                    Err(reason) => Err(reason),
                    Ok(device_name) => if items.len() > 2 {
                        Err(too_long(items.len()))
                    } else {
                        Ok(RouteTargetView { device_id, device_name })
                    },
                },
            }
        },
        _ => Err(wrong_type(v, "struct RouteTarget"@)),
    }
}

/// The route target that a member may be; an absent one or `null` is none.
pub open spec fn decoded_optional_target(v: Option<JsonView>) -> Result<
    Option<RouteTargetView>,
    Seq<char>,
> {
    match v {
        None => Ok(None),
        Some(JsonView::Null) => Ok(None),
        Some(v) => match decoded_target(v) {
            Ok(target) => Ok(Some(target)),
            Err(reason) => Err(reason),
        },
    }
}

/// The application entry that a value stands for: an object with
/// `processName` and perhaps `executablePath`, `output` and `input`, or an
/// array with the four in this order. Members are looked at in the order of
/// their names.
pub open spec fn decoded_entry(v: JsonView) -> Result<ApplicationEntryView, Seq<char>> {
    match v {
        JsonView::Object(_) => match decoded_optional_text(member(v, "executablePath"@)) {
            Err(reason) => Err(reason),
            Ok(executable_path) => match decoded_optional_target(member(v, "input"@)) {
                Err(reason) => Err(reason),
                Ok(input) => match decoded_optional_target(member(v, "output"@)) {
                    Err(reason) => Err(reason),
                    Ok(output) => match member(v, "processName"@) {
                        None => Err("missing field `processName`"@),
                        Some(name) => match decoded_text(name) {
                            Err(reason) => Err(reason),
                            Ok(process_name) => Ok(
                                ApplicationEntryView {
                                    process_name,
                                    executable_path,
                                    output,
                                    input,
                                },
                            ),
                        },
                    },
                },
            },
        },
        JsonView::Array(items) => if items.len() == 0 {
            Err("invalid length 0, expected struct ApplicationEntry with 4 elements"@)
        } else {
            match decoded_text(items[0]) {
                Err(reason) => Err(reason),
                Ok(process_name) => match decoded_optional_text(item_at(items, 1)) {
                    Err(reason) => Err(reason),
                    Ok(executable_path) => match decoded_optional_target(item_at(items, 2)) {
                        Err(reason) => Err(reason),
                        Ok(output) => match decoded_optional_target(item_at(items, 3)) {
                            Err(reason) => Err(reason),
                            Ok(input) => if items.len() > 4 {
                                Err(too_long(items.len()))
                            } else {
                                Ok(
                                    ApplicationEntryView {
                                        process_name,
                                        executable_path,
                                        output,
                                        input,
                                    },
                                )
                            },
                        },
                    },
                },
            }
        },
        _ => Err(wrong_type(v, "struct ApplicationEntry"@)),
    }
}

/// The entries that the items of a section stand for, or the message for the
/// first item that stands for none.
pub open spec fn decoded_entries(items: Seq<JsonView>) -> Result<
    Seq<ApplicationEntryView>,
    Seq<char>,
>
    decreases items.len(),
{
    if items.len() == 0 {
        Ok(Seq::empty())
    } else {
        match decoded_entries(items.drop_last()) {
            Err(reason) => Err(reason),
            Ok(entries) => match decoded_entry(items.last()) {
                Err(reason) => Err(reason),
                Ok(entry) => Ok(entries.push(entry)),
            },
        }
    }
}

fn decode_target(json: &Json) -> (r: Result<RouteTarget, String>)
    ensures
        decoding(r) == decoded_target(json.deep_view()),
{
    match json {
        Json::Object(_) => {
            let device_id = match json.get("deviceId") {
                Some(id) => match decode_text(id) {
                    Ok(device_id) => Some(device_id),
                    Err(reason) => return Err(reason),
                },
                None => None,
            };
            let device_name = match decode_optional_text(json.get("deviceName")) {
                Ok(device_name) => device_name,
                Err(reason) => return Err(reason),
            };
            match device_id {
                Some(device_id) => Ok(RouteTarget { device_id, device_name }),
                None => Err(text::owned("missing field `deviceId`")),
            }
        },
        Json::Array(_) => match json.as_array() {
            None => Err(wrong_type_message(json, "struct RouteTarget")),
            Some(items) => {
                if items.len() == 0 {
                    return Err(
                        text::owned(
                            "invalid length 0, expected struct RouteTarget with 2 elements",
                        ),
                    );
                }
                let device_id = match decode_text(&items[0]) {
                    Ok(device_id) => device_id,
                    Err(reason) => return Err(reason),
                };
                let device_name = match decode_optional_text(item(items, 1)) {
                    Ok(device_name) => device_name,
                    Err(reason) => return Err(reason),
                };
                if items.len() > 2 {
                    return Err(too_long_message(items.len()));
                }
                Ok(RouteTarget { device_id, device_name })
            },
        },
        _ => Err(wrong_type_message(json, "struct RouteTarget")),
    }
}

fn decode_optional_target(json: Option<&Json>) -> (r: Result<Option<RouteTarget>, String>)
    ensures
        decoding(r) == decoded_optional_target(json.deep_view()),
{
    match json {
        None => Ok(None),
        Some(Json::Null) => Ok(None),
        Some(json) => match decode_target(json) {
            Ok(target) => Ok(Some(target)),
            Err(reason) => Err(reason),
        },
    }
}

/// The application entry that a value stands for.
pub fn entry_from_json(json: &Json) -> (r: Result<ApplicationEntry, String>)
    ensures
        decoding(r) == decoded_entry(json.deep_view()),
{
    match json {
        Json::Object(_) => {
            let executable_path = match decode_optional_text(json.get("executablePath")) {
                Ok(executable_path) => executable_path,
                Err(reason) => return Err(reason),
            };
            let input = match decode_optional_target(json.get("input")) {
                Ok(input) => input,
                Err(reason) => return Err(reason),
            };
            let output = match decode_optional_target(json.get("output")) {
                Ok(output) => output,
                Err(reason) => return Err(reason),
            };
            match json.get("processName") {
                None => Err(text::owned("missing field `processName`")),
                Some(name) => match decode_text(name) {
                    Err(reason) => Err(reason),
                    Ok(process_name) => Ok(
                        ApplicationEntry { process_name, executable_path, output, input },
                    ),
                },
            }
        },
        Json::Array(_) => match json.as_array() {
            None => Err(wrong_type_message(json, "struct ApplicationEntry")),
            Some(items) => {
                if items.len() == 0 {
                    return Err(
                        text::owned(
                            "invalid length 0, expected struct ApplicationEntry with 4 elements",
                        ),
                    );
                }
                let process_name = match decode_text(&items[0]) {
                    Ok(process_name) => process_name,
                    Err(reason) => return Err(reason),
                };
                let executable_path = match decode_optional_text(item(items, 1)) {
                    Ok(executable_path) => executable_path,
                    Err(reason) => return Err(reason),
                };
                let output = match decode_optional_target(item(items, 2)) {
                    Ok(output) => output,
                    Err(reason) => return Err(reason),
                };
                let input = match decode_optional_target(item(items, 3)) {
                    Ok(input) => input,
                    Err(reason) => return Err(reason),
                };
                if items.len() > 4 {
                    return Err(too_long_message(items.len()));
                }
                Ok(ApplicationEntry { process_name, executable_path, output, input })
            },
        },
        _ => Err(wrong_type_message(json, "struct ApplicationEntry")),
    }
}

/// The entries that the items of a section stand for.
pub fn section_from_json(items: &Vec<Json>) -> (r: Result<Vec<ApplicationEntry>, String>)
    ensures
        decoding(r) == decoded_entries(items.deep_view()),
{
    let ghost all = items.deep_view();
    let mut entries: Vec<ApplicationEntry> = Vec::new();
    let mut i: usize = 0;
    assert(entries.deep_view() =~= Seq::<ApplicationEntryView>::empty());
    while i < items.len()
        invariant
            i <= items@.len(),
            all == items.deep_view(),
            decoded_entries(all.take(i as int)) == Ok::<Seq<ApplicationEntryView>, Seq<char>>(
                entries.deep_view(),
            ),
        decreases items@.len() - i,
    {
        let ghost before = entries.deep_view();
        proof {
            assert(all.take(i + 1).drop_last() == all.take(i as int));
            assert(all.take(i + 1).last() == items@[i as int].deep_view());
        }
        match entry_from_json(&items[i]) {
            Ok(entry) => {
                entries.push(entry);
                assert(entries.deep_view() =~= before.push(entry.deep_view()));
            },
            Err(reason) => {
                proof {
                    first_error_stays(all, i + 1);
                }
                return Err(reason);
            },
        }
        i += 1;
    }
    assert(all.take(i as int) == all);
    Ok(entries)
}

proof fn first_error_stays(items: Seq<JsonView>, n: int)
    requires
        0 <= n <= items.len(),
        decoded_entries(items.take(n)) is Err,
    ensures
        decoded_entries(items) == decoded_entries(items.take(n)),
    decreases items.len(),
{
    if n == items.len() {
        assert(items.take(n) == items);
    } else {
        assert(items.take(n) == items.drop_last().take(n));
        first_error_stays(items.drop_last(), n);
    }
}

/// The application entries of a profile.
pub open spec fn root_entries(root: JsonView) -> Result<Seq<ApplicationEntryView>, Seq<char>> {
    let items = match member(root, "applications"@) {
        Some(JsonView::Array(items)) => items,
        _ => Seq::empty(),
    };
    match decoded_entries(items) {
        Ok(entries) => Ok(entries),
        Err(reason) => Err("Section « applications » invalide : "@ + reason),
    }
}

/// The application entries of a profile file.
pub open spec fn profile_entries(contents: Result<Seq<u8>, Seq<char>>) -> Result<
    Seq<ApplicationEntryView>,
    Seq<char>,
> {
    match profile_root(contents) {
        Ok(root) => root_entries(root),
        Err(reason) => Err(reason),
    }
}

/// The application entries of a profile that was read; none where it has no
/// `applications` section.
pub fn applications_in_root(root: &Json) -> (r: Result<Vec<ApplicationEntry>, String>)
    ensures
        decoding(r) == root_entries(root.deep_view()),
{
    let none: Vec<Json> = Vec::new();
    assert(none.deep_view() =~= Seq::<JsonView>::empty());
    let items = match root.get("applications") {
        Some(found) => match found.as_array() {
            Some(items) => items,
            None => &none,
        },
        None => &none,
    };
    match section_from_json(items) {
        Ok(entries) => Ok(entries),
        Err(reason) => {
            let mut message = text::owned("Section « applications » invalide : ");
            message.append(reason.as_str());
            Err(message)
        },
    }
}

/// The application entries of a profile file; none where it has no
/// `applications` section.
pub fn applications_in_profile(contents: &Result<Vec<u8>, String>) -> (r: Result<
    Vec<ApplicationEntry>,
    String,
>)
    ensures
        decoding(r) == profile_entries(contents_view(*contents)),
{
    match read_profile_json(contents) {
        Ok(root) => applications_in_root(&root),
        Err(reason) => Err(reason),
    }
}

/// Previews the applications of a profile file: which of them run and which of
/// their devices are there.
pub fn preview_applications(
    contents: &Result<Vec<u8>, String>,
    playback_devices: &DeviceList,
    recording_devices: &DeviceList,
    running: &Vec<ProcInfo>,
) -> (r: Result<Vec<AppPreviewRow>, String>)
    ensures
        match (r, profile_entries(contents_view(*contents))) {
            (Ok(rows), Ok(entries)) => rows.deep_view() == preview_rows(
                entries,
                running.deep_view(),
                playback_devices.deep_view(),
                recording_devices.deep_view(),
            ),
            (Err(message), Err(expected)) => message@ == expected,
            _ => false,
        },
{
    match applications_in_profile(contents) {
        Ok(entries) => Ok(
            preview_entries(&entries, running, playback_devices, recording_devices),
        ),
        Err(reason) => Err(reason),
    }
}

/// Reports on restoring the applications of a profile. `entries` is what
/// `applications_in_profile` gave, `reading` what was then read and done on the
/// engine's thread, or why that thread could not be reached.
pub fn restore_applications_in_profile(
    entries: &Result<Vec<ApplicationEntry>, String>,
    playback_devices: &DeviceList,
    recording_devices: &DeviceList,
    reading: &Result<RestoreReading, String>,
) -> (r: Result<RestoreReport, String>)
    requires
        *entries matches Ok(list) ==> 2 * list@.len() <= u32::MAX && (*reading matches Ok(done)
            ==> has_all_outcomes(
            list.deep_view(),
            playback_devices.deep_view(),
            recording_devices.deep_view(),
            done,
        )),
    ensures
        match *entries {
            Err(reason) => r is Err && r->Err_0@ == reason@,
            Ok(list) => if list@.len() == 0 {
                r is Ok && r->Ok_0.deep_view() == empty_report()
            } else {
                match *reading {
                    Err(reason) => r is Err && r->Err_0@ == reason@,
                    Ok(done) => r is Ok && r->Ok_0.deep_view() == engine_report(
                        list.deep_view(),
                        playback_devices.deep_view(),
                        recording_devices.deep_view(),
                        done,
                    ),
                }
            },
        },
{
    match entries {
        Err(reason) => Err(reason.clone()),
        Ok(list) => restore_applications(list, playback_devices, recording_devices, reading),
    }
}

/// Does the profile file have an `applications` section? A file that cannot be
/// read has none. Text that is no JSON counts as having one where the name of
/// the section stands in it, so that looking at the section tells what is wrong.
pub open spec fn has_section(contents: Result<Seq<u8>, Seq<char>>) -> bool {
    match contents {
        Ok(bytes) => {
            let raw = bytes_text(without_bom(bytes));
            match json_parse(raw) {
                Ok(root) => member(root, "applications"@) is Some,
                Err(_) => text::contains(raw, "\"applications\""@),
            }
        },
        Err(_) => false,
    }
}

/// Does the profile file have an `applications` section?
pub fn profile_has_applications(contents: &Result<Vec<u8>, String>) -> (r: bool)
    ensures
        r == has_section(contents_view(*contents)),
{
    match contents {
        Ok(bytes) => {
            let raw = encoding::decode_lossy(strip_bom(bytes.as_slice()));
            match json::parse(raw.as_str()) {
                Ok(root) => root.get("applications").is_some(),
                Err(_) => text::holds(raw.as_str(), "\"applications\""),
            }
        },
        Err(_) => false,
    }
}

/// Is the value a profile: an object with a `Metadata` member?
pub open spec fn is_profile(root: JsonView) -> bool {
    member(root, "Metadata"@) is Some
}

/// Does the file hold a profile: valid UTF-8, with or without a byte order
/// mark, whose JSON is an object with a `Metadata` member?
pub open spec fn holds_profile(contents: Result<Seq<u8>, Seq<char>>) -> bool {
    match contents {
        Ok(bytes) => valid_utf8(without_bom(bytes)) && (match json_parse(
            vstd::utf8::decode_utf8(without_bom(bytes)),
        ) {
            Ok(root) => is_profile(root),
            Err(_) => false,
        }),
        Err(_) => false,
    }
}

/// Does the file hold a profile?
pub fn is_valid_profile(contents: &Result<Vec<u8>, String>) -> (r: bool)
    ensures
        r == holds_profile(contents_view(*contents)),
{
    match contents {
        Ok(bytes) => match encoding::decode_strict(strip_bom(bytes.as_slice())) {
            Some(raw) => match json::parse(raw.as_str()) {
                Ok(root) => root.get("Metadata").is_some(),
                Err(_) => false,
            },
            None => false,
        },
        Err(_) => false,
    }
}

// ---------------------------------------------------------------------------
// Attaching the section
// ---------------------------------------------------------------------------

/// A profile with its `applications` section set.
pub open spec fn attached(root: JsonView, entries: Seq<ApplicationEntryView>) -> JsonView {
    let members = match root {
        JsonView::Object(members) => members,
        _ => Map::empty(),
    };
    JsonView::Object(members.insert("applications"@, section_json(entries)))
}

/// Can a section be attached to the value? It can to an object, and to `null`,
/// which stands for an empty one.
pub open spec fn takes_section(root: JsonView) -> bool {
    root is Object || root is Null
}

/// A profile with its `applications` section set.
pub fn attach_section(root: Json, entries: &Vec<ApplicationEntry>) -> (r: Json)
    requires
        takes_section(root.deep_view()),
    ensures
        r.deep_view() == attached(root.deep_view(), entries.deep_view()),
{
    let mut members: Vec<(String, Json)> = match root {
        Json::Object(members) => members,
        _ => Vec::new(),
    };
    add_member(&mut members, "applications", section_to_json(entries));
    Json::Object(members)
}

/// A profile file with its section attached.
#[derive(Debug)]
pub struct AttachedProfile {
    /// The new content of the file.
    pub content: String,
    /// Number of applications in the section.
    pub count: usize,
    /// What went wrong while routes were exported.
    pub warnings: Vec<String>,
}

/// Why a section was not attached.
#[derive(Debug)]
pub enum AttachError {
    /// The profile cannot be used, for this reason.
    Unusable(String),
    /// The profile is JSON, but no object.
    NotAnObject,
}

/// The entries to attach: none where exporting them failed.
pub open spec fn exported_entries(
    exported: Result<(Vec<ApplicationEntry>, Vec<String>), String>,
) -> Seq<ApplicationEntryView> {
    match exported {
        Ok(pair) => pair.0.deep_view(),
        Err(_) => Seq::empty(),
    }
}

/// The warnings of an export; the failure of a whole export counts as one.
pub open spec fn exported_warnings(
    exported: Result<(Vec<ApplicationEntry>, Vec<String>), String>,
) -> Seq<Seq<char>> {
    match exported {
        Ok(pair) => pair.1.deep_view(),
        Err(reason) => seq![reason@],
    }
}

/// `content` is the new text of a profile whose section was attached, and this
/// is what reading it gives: the attached entries come back, a valid profile
/// stays valid, and every other member that holds no fraction comes back as it
/// was.
pub open spec fn is_attached_text(
    root: JsonView,
    entries: Seq<ApplicationEntryView>,
    content: Seq<char>,
) -> bool {
    let file = Ok::<Seq<u8>, Seq<char>>(encode_utf8(content));
    &&& content == json::json_pretty(attached(root, entries))
    &&& json_parse(content) is Ok
    &&& profile_entries(file) == Ok::<Seq<ApplicationEntryView>, Seq<char>>(entries)
    &&& is_profile(root) ==> holds_profile(file)
    &&& json::same_but_fractions(attached(root, entries), json_parse(content)->Ok_0)
}

/// Attaches the exported routes to a profile file. A failed export attaches an
/// empty section.
pub fn attach_applications_to_profile(
    contents: &Result<Vec<u8>, String>,
    exported: &Result<(Vec<ApplicationEntry>, Vec<String>), String>,
) -> (r: Result<AttachedProfile, AttachError>)
    ensures
        match (r, profile_root(contents_view(*contents))) {
            (Ok(done), Ok(root)) => takes_section(root) && is_attached_text(
                root,
                exported_entries(*exported),
                done.content@,
            ) && done.count == exported_entries(*exported).len() && done.warnings.deep_view()
                == exported_warnings(*exported),
            (Err(AttachError::NotAnObject), Ok(root)) => !takes_section(root),
            (Err(AttachError::Unusable(message)), Err(expected)) => message@ == expected,
            _ => false,
        },
{
    let root = match read_profile_json(contents) {
        Ok(root) => root,
        Err(reason) => return Err(AttachError::Unusable(reason)),
    };
    match &root {
        Json::Object(_) => {},
        Json::Null => {},
        _ => return Err(AttachError::NotAnObject),
    }
    let none: Vec<ApplicationEntry> = Vec::new();
    assert(none.deep_view() =~= Seq::<ApplicationEntryView>::empty());
    let mut warnings: Vec<String> = Vec::new();
    assert(warnings.deep_view() =~= Seq::<Seq<char>>::empty());
    let entries = match exported {
        Ok(pair) => {
            let mut i: usize = 0;
            while i < pair.1.len()
                invariant
                    i <= pair.1@.len(),
                    warnings@.len() == i,
                    forall|j: int| 0 <= j < i ==> (#[trigger] warnings@[j])@ == pair.1@[j]@,
                decreases pair.1@.len() - i,
            {
                warnings.push(pair.1[i].clone());
                i += 1;
            }
            assert(warnings.deep_view() =~= pair.1.deep_view());
            &pair.0
        },
        Err(reason) => {
            warnings.push(reason.clone());
            assert(warnings.deep_view() =~= seq![reason@]);
            &none
        },
    };
    let ghost before = root.deep_view();
    let whole = attach_section(root, entries);
    match json::pretty(&whole) {
        Ok(content) => {
            proof {
                attached_text_reads_back(before, entries.deep_view(), content@);
            }
            Ok(AttachedProfile { content, count: entries.len(), warnings })
        },
        Err(reason) => {
            let mut message = text::owned("Sérialisation du profil impossible : ");
            message.append(reason.as_str());
            Err(AttachError::Unusable(message))
        },
    }
}

/// Outcome of attaching a section: the number of applications, once the file
/// was written.
pub fn attached_count(count: usize, written: Result<(), String>) -> (r: Result<usize, String>)
    ensures
        match (r, written) {
            (Ok(n), Ok(_)) => n == count,
            (Err(message), Err(reason)) => message@ == "Écriture du profil impossible : "@
                + reason@,
            _ => false,
        },
{
    match written {
        Ok(_) => Ok(count),
        Err(reason) => {
            let mut message = text::owned("Écriture du profil impossible : ");
            message.append(reason.as_str());
            Err(message)
        },
    }
}

// ---------------------------------------------------------------------------
// What reading gives back of writing
// ---------------------------------------------------------------------------

/// The keys of an entry and of a target are all different.
proof fn keys_differ()
    ensures
        "processName"@ != "executablePath"@,
        "processName"@ != "output"@,
        "processName"@ != "input"@,
        "executablePath"@ != "output"@,
        "executablePath"@ != "input"@,
        "output"@ != "input"@,
        "deviceId"@ != "deviceName"@,
        "applications"@ != "Metadata"@,
{
    reveal_strlit("processName");
    reveal_strlit("executablePath");
    reveal_strlit("output");
    reveal_strlit("input");
    reveal_strlit("deviceId");
    reveal_strlit("deviceName");
    reveal_strlit("applications");
    reveal_strlit("Metadata");
    assert("processName"@.len() == 11);
    assert("executablePath"@.len() == 14);
    assert("output"@.len() == 6);
    assert("input"@.len() == 5);
    assert("deviceId"@.len() == 8);
    assert("deviceName"@.len() == 10);
    assert("applications"@.len() == 12);
    assert("Metadata"@.len() == 8);
}

/// A route target that was written comes back as it was.
pub proof fn decoding_inverts_target(target: RouteTargetView)
    ensures
        decoded_target(target_json(target)) == Ok::<RouteTargetView, Seq<char>>(target),
{
    keys_differ();
}

/// An application entry that was written comes back as it was.
pub proof fn decoding_inverts_entry(entry: ApplicationEntryView)
    ensures
        decoded_entry(entry_json(entry)) == Ok::<ApplicationEntryView, Seq<char>>(entry),
{
    keys_differ();
    if entry.output is Some {
        decoding_inverts_target(entry.output->Some_0);
    }
    if entry.input is Some {
        decoding_inverts_target(entry.input->Some_0);
    }
    let v = entry_json(entry);
    assert(member(v, "processName"@) == Some(JsonView::Text(entry.process_name)));
    assert(member(v, "executablePath"@) == Some(optional_text_json(entry.executable_path)));
    assert(member(v, "output"@) == Some(optional_target_json(entry.output)));
    assert(member(v, "input"@) == Some(optional_target_json(entry.input)));
}

/// Application entries that were written come back as they were.
pub proof fn decoding_inverts_section(entries: Seq<ApplicationEntryView>)
    ensures
        section_json(entries) matches JsonView::Array(items) && decoded_entries(items) == Ok::<
            Seq<ApplicationEntryView>,
            Seq<char>,
        >(entries),
    decreases entries.len(),
{
    let f = |entry: ApplicationEntryView| entry_json(entry);
    let items = entries.map_values(f);
    if entries.len() > 0 {
        decoding_inverts_section(entries.drop_last());
        decoding_inverts_entry(entries.last());
        assert(items.drop_last() == entries.drop_last().map_values(f));
        assert(items.last() == entry_json(entries.last()));
        assert(entries.drop_last().push(entries.last()) == entries);
    } else {
        assert(items == Seq::<JsonView>::empty());
        assert(entries == Seq::<ApplicationEntryView>::empty());
    }
}

proof fn section_holds_no_number(entries: Seq<ApplicationEntryView>)
    ensures
        json::number_free(section_json(entries), 3),
{
    keys_differ();
    let p = |n: serde_json::Number| false;
    let items = entries.map_values(|entry: ApplicationEntryView| entry_json(entry));
    assert forall|i: int| 0 <= i < items.len() implies json::numbers_satisfy(
        #[trigger] items[i],
        2,
        p,
    ) by {
        let entry = entries[i];
        let members = items[i]->Object_0;
        assert(items[i] == entry_json(entry));
        assert forall|k: Seq<char>| members.contains_key(k) implies json::numbers_satisfy(
            #[trigger] members[k],
            1,
            p,
        ) by {
            target_holds_no_number(entry.output);
            target_holds_no_number(entry.input);
            assert(k == "processName"@ || k == "executablePath"@ || k == "output"@ || k
                == "input"@);
        }
    }
}

proof fn target_holds_no_number(target: Option<RouteTargetView>)
    ensures
        json::number_free(optional_target_json(target), 1),
{
    keys_differ();
    if let Some(target) = target {
        let members = target_json(target)->Object_0;
        let p = |n: serde_json::Number| false;
        assert forall|k: Seq<char>| members.contains_key(k) implies json::numbers_satisfy(
            #[trigger] members[k],
            0,
            p,
        ) by {
            assert(k == "deviceId"@ || k == "deviceName"@);
        }
    }
}

proof fn text_of_object_has_no_bom(content: Seq<char>)
    requires
        content.len() > 0,
        content[0] == '{',
    ensures
        without_bom(encode_utf8(content)) == encode_utf8(content),
{
    assert((0x7Bu32 & 0x7F) as u8 == 0x7B) by (bit_vector);
    assert(encode_utf8(content)[0] == 0x7B);
}

/// A profile whose section was attached and written gives the attached entries
/// back when it is read, and stays a valid profile.
pub proof fn attached_text_reads_back(
    root: JsonView,
    entries: Seq<ApplicationEntryView>,
    content: Seq<char>,
)
    requires
        takes_section(root),
        json::nested_at_most(root, json::depth_limit()),
        content == json::json_pretty(attached(root, entries)),
        json::reads_back(attached(root, entries), content),
    ensures
        is_attached_text(root, entries, content),
{
    let whole = attached(root, entries);
    let members = whole->Object_0;
    let section = section_json(entries);
    let limit = json::depth_limit();
    keys_differ();
    section_holds_no_number(entries);
    text_of_object_has_no_bom(content);
    vstd::utf8::encode_utf8_valid_utf8(content);
    vstd::utf8::encode_utf8_decode_utf8(content);
    decoding_inverts_section(entries);
    let none = |n: serde_json::Number| false;
    let whole_numbers = |n: serde_json::Number| !json::number_is_float(n);
    let any = |n: serde_json::Number| true;
    json::numbers_satisfy_weaker(section, 3, none, limit, whole_numbers);
    json::numbers_satisfy_weaker(section, 3, none, (limit - 1) as nat, any);
    assert forall|k: Seq<char>| members.contains_key(k) implies json::numbers_satisfy(
        #[trigger] members[k],
        (limit - 1) as nat,
        any,
    ) by {
        if k != "applications"@ {
            assert(root->Object_0.contains_key(k));
            assert(members[k] == root->Object_0[k]);
        }
    }
    assert(json::nested_at_most(whole, limit));
    let again = json_parse(content)->Ok_0;
    assert(members.contains_key("applications"@));
    assert(members["applications"@] == section);
    assert(again->Object_0.contains_key("applications"@));
    assert(again->Object_0["applications"@] == section);
    if is_profile(root) {
        assert(members.contains_key("Metadata"@));
        assert(again->Object_0.contains_key("Metadata"@));
    }
}

/// A profile without an `applications` section has no application entries.
pub proof fn profiles_without_section_have_no_applications(contents: Result<Seq<u8>, Seq<char>>)
    requires
        profile_root(contents) matches Ok(root) && member(root, "applications"@) is None,
    ensures
        profile_entries(contents) == Ok::<Seq<ApplicationEntryView>, Seq<char>>(Seq::empty()),
{
}

/// A byte order mark in front of a profile makes no difference to what it
/// holds.
pub proof fn byte_order_mark_makes_no_difference(bytes: Seq<u8>)
    requires
        without_bom(bytes) == bytes,
    ensures
        profile_root(Ok(seq![0xEFu8, 0xBB, 0xBF] + bytes)) == profile_root(Ok(bytes)),
        holds_profile(Ok(seq![0xEFu8, 0xBB, 0xBF] + bytes)) == holds_profile(Ok(bytes)),
{
    assert((seq![0xEFu8, 0xBB, 0xBF] + bytes).skip(3) == bytes);
}

} // verus!
