//! The profile file: how entries are written, where they stand and how they are
//! read.

use vstd::prelude::*;
use vstd::utf8::{decode_utf8, valid_utf8};

use crate::app_routing::profile_apps::{ApplicationEntryView, RouteTargetView};
use crate::app_routing::profile_file::{
    attached, decoded_entries, decoded_entry, devices_listed, entry_json, has_section,
    holds_profile, profile_device, profile_entries, profile_root, without_bom,
};
use crate::encoding::bytes_text;
use crate::json::{json_parse, member, JsonView};
use crate::text::contains;

verus! {

/// Is it how an optional text is written: as the text, or as `null`?
pub open spec fn is_written_text(v: Option<JsonView>, text: Option<Seq<char>>) -> bool {
    match text {
        Some(text) => v == Some(JsonView::Text(text)),
        None => v == Some(JsonView::Null),
    }
}

/// Is it how an optional target is written: as an object with the identifier and
/// the name of its device, or as `null`?
pub open spec fn is_written_target(v: Option<JsonView>, target: Option<RouteTargetView>) -> bool {
    match target {
        Some(target) => v is Some && v->Some_0 is Object && member(v->Some_0, "deviceId"@) == Some(
            JsonView::Text(target.device_id),
        ) && is_written_text(member(v->Some_0, "deviceName"@), target.device_name),
        None => v == Some(JsonView::Null),
    }
}

proof fn keys_differ()
    ensures
        "processName"@ != "executablePath"@,
        "processName"@ != "output"@,
        "processName"@ != "input"@,
        "executablePath"@ != "output"@,
        "executablePath"@ != "input"@,
        "output"@ != "input"@,
        "deviceId"@ != "deviceName"@,
{
    reveal_strlit("processName");
    reveal_strlit("executablePath");
    reveal_strlit("output");
    reveal_strlit("input");
    reveal_strlit("deviceId");
    reveal_strlit("deviceName");
    assert("processName"@.len() == 11);
    assert("executablePath"@.len() == 14);
    assert("output"@.len() == 6);
    assert("input"@.len() == 5);
    assert("deviceId"@.len() == 8);
    assert("deviceName"@.len() == 10);
}

/// An entry is written as an object whose members have these names; what is not
/// known is `null`.
pub proof fn entries_are_written_under_their_names(entry: ApplicationEntryView)
    ensures
        ({
            let v = entry_json(entry);
            &&& v is Object
            &&& member(v, "processName"@) == Some(JsonView::Text(entry.process_name))
            &&& is_written_text(member(v, "executablePath"@), entry.executable_path)
            &&& is_written_target(member(v, "output"@), entry.output)
            &&& is_written_target(member(v, "input"@), entry.input)
        }),
{
    keys_differ();
}

/// May an optional text be read from the member: the text itself, and nothing
/// where it is `null` or absent?
pub open spec fn is_read_text(v: Option<JsonView>, text: Option<Seq<char>>) -> bool {
    match text {
        Some(text) => v == Some(JsonView::Text(text)),
        None => v is None || v == Some(JsonView::Null),
    }
}

/// May an optional target be read from the member?
pub open spec fn is_read_target(v: Option<JsonView>, target: Option<RouteTargetView>) -> bool {
    match target {
        Some(target) => v is Some && v->Some_0 is Object && member(v->Some_0, "deviceId"@) == Some(
            JsonView::Text(target.device_id),
        ) && is_read_text(member(v->Some_0, "deviceName"@), target.device_name),
        None => v is None || v == Some(JsonView::Null),
    }
}

/// An object is read as the entry whose parts its members are, whatever other
/// members it has.
pub proof fn entries_are_read_from_their_names(v: JsonView, entry: ApplicationEntryView)
    requires
        v is Object,
        member(v, "processName"@) == Some(JsonView::Text(entry.process_name)),
        is_read_text(member(v, "executablePath"@), entry.executable_path),
        is_read_target(member(v, "output"@), entry.output),
        is_read_target(member(v, "input"@), entry.input),
    ensures
        decoded_entry(v) == Ok::<ApplicationEntryView, Seq<char>>(entry),
{
}

/// The section of a profile has one item for each entry, in their order, and
/// nothing else of the profile changes when it is attached.
pub proof fn attaching_changes_the_section_only(
    root: JsonView,
    entries: Seq<ApplicationEntryView>,
    key: Seq<char>,
    i: int,
)
    ensures
        key != "applications"@ ==> member(attached(root, entries), key) == member(root, key),
        member(attached(root, entries), "applications"@) is Some,
        member(attached(root, entries), "applications"@)->Some_0 is Array,
        ({
            let items = member(attached(root, entries), "applications"@)->Some_0->Array_0;
            items.len() == entries.len() && (0 <= i < entries.len() ==> items[i] == entry_json(
                entries[i],
            ))
        }),
{
}

/// The items of a section are read in their order: one more that can be read is
/// one more entry behind the others, and the first that cannot be read decides.
pub proof fn sections_are_read_in_order(items: Seq<JsonView>, item: JsonView)
    ensures
        decoded_entries(Seq::empty()) == Ok::<Seq<ApplicationEntryView>, Seq<char>>(Seq::empty()),
        decoded_entries(items.push(item)) == (match (decoded_entries(items), decoded_entry(item)) {
            (Ok(entries), Ok(entry)) => Ok::<Seq<ApplicationEntryView>, Seq<char>>(
                entries.push(entry),
            ),
            (Ok(_), Err(reason)) => Err(reason),
            (Err(reason), _) => Err(reason),
        }),
{
    assert(items.push(item).drop_last() == items);
}

/// The entries of a profile are those of its section; there are none where the
/// section is missing or no list, and a section that cannot be read is told of.
pub proof fn applications_are_read_from_the_section(contents: Result<Seq<u8>, Seq<char>>, root: JsonView)
    requires
        profile_root(contents) == Ok::<JsonView, Seq<char>>(root),
    ensures
        match member(root, "applications"@) {
            Some(JsonView::Array(items)) => match decoded_entries(items) {
                Ok(entries) => profile_entries(contents) == Ok::<
                    Seq<ApplicationEntryView>,
                    Seq<char>,
                >(entries),
                Err(reason) => profile_entries(contents) == Err::<
                    Seq<ApplicationEntryView>,
                    Seq<char>,
                >("Section « applications » invalide : "@ + reason),
            },
            _ => profile_entries(contents) == Ok::<Seq<ApplicationEntryView>, Seq<char>>(
                Seq::empty(),
            ),
        },
{
}

/// A profile is what its text stands for, without a byte order mark; one that
/// cannot be read or is no JSON is told of.
pub proof fn profiles_are_their_text(
    bytes: Seq<u8>,
    reason: Seq<char>,
)
    requires
        !(bytes.len() >= 3 && bytes[0] == 0xEF && bytes[1] == 0xBB && bytes[2] == 0xBF),
    ensures
        profile_root(Err(reason)) == Err::<JsonView, Seq<char>>("Profil illisible : "@ + reason),
        profile_root(Ok(bytes)) == (match json_parse(bytes_text(bytes)) {
            Ok(root) => Ok::<JsonView, Seq<char>>(root),
            Err(why) => Err("Profil JSON invalide : "@ + why),
        }),
        profile_root(Ok(seq![0xEFu8, 0xBB, 0xBF] + bytes)) == profile_root(Ok(bytes)),
        valid_utf8(bytes) ==> bytes_text(bytes) == decode_utf8(bytes),
{
    let marked = seq![0xEFu8, 0xBB, 0xBF] + bytes;
    assert(marked[0] == 0xEF && marked[1] == 0xBB && marked[2] == 0xBF);
    assert(marked.skip(3) == bytes);
}

/// A file is a valid profile exactly where it is UTF-8 and its JSON is an object
/// with a member `Metadata`.
pub proof fn profiles_have_metadata(bytes: Seq<u8>)
    requires
        without_bom(bytes) == bytes,
    ensures
        holds_profile(Ok(bytes)) <==> valid_utf8(bytes) && json_parse(decode_utf8(bytes)) is Ok && (
        json_parse(decode_utf8(bytes))->Ok_0 is Object) && json_parse(
            decode_utf8(bytes),
        )->Ok_0->Object_0.contains_key("Metadata"@),
{
}

/// A profile has a section exactly where its JSON is an object with a member
/// `applications`; text that is no JSON has one where the quoted name occurs.
pub proof fn sections_are_members(bytes: Seq<u8>)
    requires
        without_bom(bytes) == bytes,
    ensures
        match json_parse(bytes_text(bytes)) {
            Ok(JsonView::Object(members)) => has_section(Ok(bytes)) <==> members.contains_key(
                "applications"@,
            ),
            Ok(_) => !has_section(Ok(bytes)),
            Err(_) => has_section(Ok(bytes)) <==> contains(
                bytes_text(bytes),
                "\"applications\""@,
            ),
        },
{
}

/// The devices of a profile are the items of its list that have an identifier,
/// in their order, each with its name.
pub proof fn profile_devices_are_the_items(
    root: JsonView,
    key: Seq<char>,
    items: Seq<JsonView>,
    item: JsonView,
    whole: JsonView,
)
    requires
        member(root, key) == Some(JsonView::Array(items)),
        member(whole, key) == Some(JsonView::Array(items.push(item))),
    ensures
        devices_listed(whole, key) == (match profile_device(item) {
            Some(device) => devices_listed(root, key).push(device),
            None => devices_listed(root, key),
        }),
        forall|id: Seq<char>, name: Seq<char>|
            member(item, "ID"@) == Some(JsonView::Text(id)) && member(item, "Name"@) == Some(
                JsonView::Text(name),
            ) ==> profile_device(item) == Some(#[trigger] pair(id, name)),
        forall|id: Seq<char>, name: Seq<char>|
            member(item, "ID"@) is None && member(item, "Name"@) is None && member(item, "id"@)
                == Some(JsonView::Text(id)) && member(item, "name"@) == Some(JsonView::Text(name))
                ==> profile_device(item) == Some(#[trigger] pair(id, name)),
        member(item, "ID"@) is None && member(item, "id"@) is None ==> profile_device(item) is None,
{
    let f = |item: JsonView| profile_device(item);
    let more = items.push(item);
    more.lemma_filter_map_take_succ(f, items.len() as int);
    assert(more.take(items.len() as int) == items);
    assert(more.take(more.len() as int) == more);
}

/// An identifier and a name.
pub open spec fn pair(id: Seq<char>, name: Seq<char>) -> (Seq<char>, Seq<char>) {
    (id, name)
}

} // verus!
