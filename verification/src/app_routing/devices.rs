//! Audio devices: packed identifiers and the lists read from the MMDevice
//! interfaces.

use crate::app_routing::ffi::{ComCall, PropVariant};
use crate::app_routing::{DeviceList, DeviceListView, Flow};
use crate::text;
use vstd::prelude::*;

use crate::encoding::utf16_text;
use crate::text::{after_prefix, before_suffix};

verus! {

/// What the audio registry puts in front of a device identifier.
pub const MMDEVAPI_TOKEN: &'static str = r"\\?\SWD#MMDEVAPI#";

/// What the audio registry puts behind the identifier of a playback device.
pub const RENDER_INTERFACE: &'static str = "#{e6327cad-dcec-4949-ae8a-991e976a79d2}";

/// What the audio registry puts behind the identifier of a recording device.
pub const CAPTURE_INTERFACE: &'static str = "#{2eef81be-33fa-4800-9670-1cd474972c3f}";

/// The identifier of a device as the audio registry packs it.
pub open spec fn packed(flow: Flow, id: Seq<char>) -> Seq<char> {
    let suffix = match flow {
        Flow::Output => RENDER_INTERFACE@,
        Flow::Input => CAPTURE_INTERFACE@,
    };
    MMDEVAPI_TOKEN@ + id + suffix
}

/// The identifier that a packed one holds, if it is one of either flow.
pub open spec fn unpacked(packed: Seq<char>) -> Option<Seq<char>> {
    match after_prefix(packed, MMDEVAPI_TOKEN@) {
        Some(rest) => match before_suffix(rest, RENDER_INTERFACE@) {
            Some(id) => Some(id),
            None => before_suffix(rest, CAPTURE_INTERFACE@),
        },
        None => None,
    }
}

/// The identifier of a device as the audio registry packs it.
pub fn pack_device_id(flow: Flow, device_id: &str) -> (r: String)
    ensures
        r@ == packed(flow, device_id@),
{
    let mut out = text::owned(MMDEVAPI_TOKEN);
    out.append(device_id);
    out.append(
        match flow {
            Flow::Output => RENDER_INTERFACE,
            Flow::Input => CAPTURE_INTERFACE,
        },
    );
    out
}

/// The identifier that a packed one holds; a foreign text holds none.
pub fn unpack_device_id(packed: &str) -> (r: Option<String>)
    ensures
        r.deep_view() == unpacked(packed@),
{
    match text::strip_prefix(packed, MMDEVAPI_TOKEN) {
        Some(rest) => match text::strip_suffix(rest, RENDER_INTERFACE) {
            Some(id) => Some(text::owned(id)),
            None => match text::strip_suffix(rest, CAPTURE_INTERFACE) {
                Some(id) => Some(text::owned(id)),
                None => None,
            },
        },
        None => None,
    }
}

/// Packing an identifier and unpacking it again gives it back, for both flows.
pub proof fn unpack_inverts_pack(flow: Flow, id: Seq<char>)
    ensures
        unpacked(packed(flow, id)) == Some(id),
{
    reveal_strlit("#{e6327cad-dcec-4949-ae8a-991e976a79d2}");
    reveal_strlit("#{2eef81be-33fa-4800-9670-1cd474972c3f}");
    let whole = packed(flow, id);
    let suffix = match flow {
        Flow::Output => RENDER_INTERFACE@,
        Flow::Input => CAPTURE_INTERFACE@,
    };
    let rest = whole.skip(MMDEVAPI_TOKEN@.len() as int);
    assert(whole.subrange(0, MMDEVAPI_TOKEN@.len() as int) == MMDEVAPI_TOKEN@);
    assert(rest == id + suffix);
    assert(rest.subrange(rest.len() - suffix.len(), rest.len() as int) == suffix);
    assert(rest.take(rest.len() - suffix.len()) == id);
    if flow == Flow::Input {
        assert(RENDER_INTERFACE@[2] != CAPTURE_INTERFACE@[2]);
        assert(suffix[2] == rest[rest.len() - suffix.len() + 2]);
        assert(!RENDER_INTERFACE@.is_suffix_of(rest)) by {
            if RENDER_INTERFACE@.is_suffix_of(rest) {
                let tail = rest.subrange(
                    rest.len() - RENDER_INTERFACE@.len(),
                    rest.len() as int,
                );
                assert(tail == RENDER_INTERFACE@);
                assert(tail[2] == RENDER_INTERFACE@[2]);
            }
        }
    }
}

/// An identifier that unpacks is a packed one of some flow.
pub proof fn only_packed_unpacks(text: Seq<char>)
    requires
        unpacked(text) is Some,
    ensures
        exists|flow: Flow| text == #[trigger] packed(flow, unpacked(text)->Some_0),
{
    let id = unpacked(text)->Some_0;
    let rest = text.skip(MMDEVAPI_TOKEN@.len() as int);
    assert(text == MMDEVAPI_TOKEN@ + rest);
    if before_suffix(rest, RENDER_INTERFACE@) is Some {
        assert(rest == id + RENDER_INTERFACE@);
        assert(text == packed(Flow::Output, id));
    } else {
        assert(rest == id + CAPTURE_INTERFACE@);
        assert(text == packed(Flow::Input, id));
    }
}

// ---------------------------------------------------------------------------
// Native texts
// ---------------------------------------------------------------------------

/// Number of units before the first zero (all of them when there is none).
pub open spec fn before_zero(units: Seq<u16>) -> nat
    decreases units.len(),
{
    if units.len() == 0 || units[0] == 0 {
        0
    } else {
        1 + before_zero(units.skip(1))
    }
}

/// Number of units before the first zero (all of them when there is none).
pub fn units_before_zero(units: &[u16]) -> (r: usize)
    ensures
        r == before_zero(units@),
        r <= units@.len(),
{
    let mut n: usize = 0;
    assert(units@.skip(0) == units@);
    while n < units.len() && units[n] != 0
        invariant
            n <= units@.len(),
            before_zero(units@) == n + before_zero(units@.skip(n as int)),
        decreases units@.len() - n,
    {
        assert(units@.skip(n as int).skip(1) == units@.skip(n + 1));
        n += 1;
    }
    n
}

/// Longest identifier or name that is looked through for its end.
pub const TEXT_LIMIT: usize = 1024;

/// The text at an address, from the units found there: it ends at the first
/// zero; where there is none in the first 1024 units, it is empty.
pub open spec fn terminated_text(units: Seq<u16>) -> Seq<char> {
    let seen = if units.len() > TEXT_LIMIT {
        units.take(TEXT_LIMIT as int)
    } else {
        units
    };
    let n = before_zero(seen);
    if n < seen.len() {
        utf16_text(seen.take(n as int))
    } else {
        Seq::empty()
    }
}

/// The text at an address, from the units found there.
pub fn text_at(units: &[u16]) -> (r: String)
    ensures
        r@ == terminated_text(units@),
{
    let limit: usize = if units.len() > TEXT_LIMIT {
        TEXT_LIMIT
    } else {
        units.len()
    };
    let seen = vstd::slice::slice_subrange(units, 0, limit);
    assert(units@.subrange(0, limit as int) == units@.take(limit as int));
    assert(units@.take(units@.len() as int) == units@);
    let n: usize = units_before_zero(seen);
    if n < seen.len() {
        let head = vstd::slice::slice_subrange(seen, 0, n);
        assert(head@ == seen@.take(n as int));
        String::from_utf16_lossy(head)
    } else {
        String::new()
    }
}

// ---------------------------------------------------------------------------
// Enumeration
// ---------------------------------------------------------------------------

/// Is there a collection of devices to go through? `enumerator` is the outcome
/// of creating the device enumerator, `call` what enumerating returned; a
/// refused enumeration counts as an empty one.
pub fn enum_devices(enumerator: Result<(), String>, call: ComCall) -> (r: Result<bool, String>)
    ensures
        match (enumerator, r) {
            (Ok(_), Ok(found)) => found == call.succeeded(),
            (Err(reason), Err(message)) => message@ == reason@,
            _ => false,
        },
{
    match enumerator {
        Ok(_) => Ok(call.ok()),
        Err(reason) => Err(reason),
    }
}

/// Number of items of a collection: none where counting them failed.
pub fn collection_count(hr: i32, count: u32) -> (r: u32)
    ensures
        r == (if hr < 0 {
            0u32
        } else {
            count
        }),
{
    if hr < 0 {
        0
    } else {
        count
    }
}

/// What reading a device's identifier returned: the call, and the units found
/// at the address that it gave.
#[derive(Debug)]
pub struct IdReading {
    pub call: ComCall,
    pub units: Vec<u16>,
}

/// What reading a device's name returned: opening its properties, the result
/// code and value of its name, and the units found at the address in the value.
#[derive(Debug)]
pub struct NameReading {
    pub store: ComCall,
    pub value_hr: i32,
    pub value: PropVariant,
    pub units: Vec<u16>,
}

/// What the calls on one item of a device collection returned.
#[derive(Debug)]
pub struct DeviceReading {
    pub item: ComCall,
    pub id: IdReading,
    pub name: NameReading,
}

/// The identifier that was read.
pub open spec fn read_id(id: IdReading) -> Option<Seq<char>> {
    if id.call.succeeded() {
        Some(terminated_text(id.units@))
    } else {
        None
    }
}

/// The name that was read; empty where there is none.
pub open spec fn read_name(name: NameReading) -> Seq<char> {
    if name.store.succeeded() && name.value_hr >= 0 && name.value.is_text() {
        terminated_text(name.units@)
    } else {
        Seq::empty()
    }
}

/// The identifier of one item of a collection, where it can be read.
pub open spec fn item_id(device: DeviceReading) -> Option<Seq<char>> {
    if device.item.succeeded() {
        read_id(device.id)
    } else {
        None
    }
}

/// The identifier and the name of one item of a collection, where the
/// identifier can be read.
pub open spec fn item_entry(device: DeviceReading) -> Option<(Seq<char>, Seq<char>)> {
    match item_id(device) {
        Some(id) => Some((id, read_name(device.name))),
        None => None,
    }
}

/// The devices of a collection whose identifier can be read, in order.
pub open spec fn listed_devices(devices: Seq<DeviceReading>) -> DeviceListView {
    devices.filter_map(|device: DeviceReading| item_entry(device))
}

/// The identifiers that can be read in a collection, in order.
pub open spec fn listed_ids(devices: Seq<DeviceReading>) -> Seq<Seq<char>> {
    devices.filter_map(|device: DeviceReading| item_id(device))
}

/// The identifier that was read, if any.
pub fn device_id(id: &IdReading) -> (r: Option<String>)
    ensures
        r.deep_view() == read_id(*id),
{
    if id.call.ok() {
        Some(text_at(id.units.as_slice()))
    } else {
        None
    }
}

/// The name that was read; empty where there is none.
pub fn friendly_name(name: &NameReading) -> (r: String)
    ensures
        r@ == read_name(*name),
{
    if name.store.ok() && name.value_hr >= 0 && name.value.holds_text() {
        text_at(name.units.as_slice())
    } else {
        String::new()
    }
}

/// Identifiers of the devices of a flow. `collection` is what going through the
/// collection gave: no collection, or one reading for each item.
pub fn list_device_ids_by_state(collection: &Result<Option<Vec<DeviceReading>>, String>) -> (r: Vec<
    String,
>)
    ensures
        r.deep_view() == (match *collection {
            Ok(Some(devices)) => listed_ids(devices@),
            _ => Seq::empty(),
        }),
{
    let mut ids: Vec<String> = Vec::new();
    assert(ids.deep_view() =~= Seq::<Seq<char>>::empty());
    match collection {
        Ok(Some(devices)) => {
            let mut i: usize = 0;
            while i < devices.len()
                invariant
                    i <= devices@.len(),
                    ids.deep_view() == listed_ids(devices@.take(i as int)),
                decreases devices@.len() - i,
            {
                let ghost f = |device: DeviceReading| item_id(device);
                let ghost before = ids.deep_view();
                proof {
                    devices@.lemma_filter_map_take_succ(f, i as int);
                }
                if devices[i].item.ok() {
                    match device_id(&devices[i].id) {
                        Some(id) => {
                            ids.push(id);
                            assert(ids.deep_view() =~= before.push(id@));
                        },
                        None => {},
                    }
                }
                i += 1;
            }
            assert(devices@.take(devices@.len() as int) == devices@);
            ids
        },
        _ => ids,
    }
}

/// Active devices of a flow with their names. `collection` is what going
/// through the collection gave: no collection, or one reading for each item.
pub fn list_active_devices(collection: &Result<Option<Vec<DeviceReading>>, String>) -> (r:
    DeviceList)
    ensures
        r.deep_view() == (match *collection {
            Ok(Some(devices)) => listed_devices(devices@),
            _ => Seq::empty(),
        }),
{
    let mut result: DeviceList = Vec::new();
    assert(result.deep_view() =~= Seq::<(Seq<char>, Seq<char>)>::empty());
    match collection {
        Ok(Some(devices)) => {
            let mut i: usize = 0;
            while i < devices.len()
                invariant
                    i <= devices@.len(),
                    result.deep_view() == listed_devices(devices@.take(i as int)),
                decreases devices@.len() - i,
            {
                let ghost f = |device: DeviceReading| item_entry(device);
                let ghost before = result.deep_view();
                proof {
                    devices@.lemma_filter_map_take_succ(f, i as int);
                }
                if devices[i].item.ok() {
                    match device_id(&devices[i].id) {
                        Some(id) => {
                            let name = friendly_name(&devices[i].name);
                            result.push((id, name));
                            assert(result.deep_view() =~= before.push((id@, name@)));
                        },
                        None => {},
                    }
                }
                i += 1;
            }
            assert(devices@.take(devices@.len() as int) == devices@);
            result
        },
        _ => result,
    }
}

/// Active devices of a flow, read on the engine's thread. `reading` is what
/// that thread gave back, or why it could not be reached; no device is listed
/// then.
pub fn active_devices(
    reading: &Result<Result<Option<Vec<DeviceReading>>, String>, String>,
) -> (r: DeviceList)
    ensures
        r.deep_view() == (match *reading {
            Ok(Ok(Some(devices))) => listed_devices(devices@),
            _ => Seq::empty(),
        }),
{
    match reading {
        Ok(collection) => list_active_devices(collection),
        Err(_) => {
            let none: DeviceList = Vec::new();
            assert(none.deep_view() =~= Seq::<(Seq<char>, Seq<char>)>::empty());
            none
        },
    }
}

// ---------------------------------------------------------------------------
// Overview
// ---------------------------------------------------------------------------

/// What the calls on the default device of a flow returned: getting it, and
/// reading its identifier and its name.
#[derive(Debug)]
pub struct DefaultReading {
    pub device: ComCall,
    pub id: IdReading,
    pub name: NameReading,
}

/// What reading a flow for the overview returned: whether there is a collection
/// of active devices, the result code and value of its count, and the default
/// device.
#[derive(Debug)]
pub struct FlowReading {
    pub collection: Result<bool, String>,
    pub count_hr: i32,
    pub count: u32,
    pub default_device: DefaultReading,
}

/// A default device.
#[derive(Debug, PartialEq, Eq)]
pub struct DefaultDeviceInfo {
    pub id: String,
    pub name: String,
}

/// How many devices are active, and which are the default ones.
#[derive(Debug)]
pub struct DeviceOverview {
    pub playback_count: u32,
    pub recording_count: u32,
    pub default_playback: Option<DefaultDeviceInfo>,
    pub default_recording: Option<DefaultDeviceInfo>,
}

impl DeepView for DefaultDeviceInfo {
    type V = (Seq<char>, Seq<char>);

    open spec fn deep_view(&self) -> (Seq<char>, Seq<char>) {
        (self.id@, self.name@)
    }
}

/// Number of active devices of a flow; none where they cannot be counted.
pub open spec fn active_count(flow: FlowReading) -> u32 {
    match flow.collection {
        Ok(true) => if flow.count_hr < 0 {
            0
        } else {
            flow.count
        },
        _ => 0,
    }
}

/// Identifier and name of the default device of a flow, where there is one and
/// its identifier can be read.
pub open spec fn default_entry(reading: DefaultReading) -> Option<(Seq<char>, Seq<char>)> {
    if reading.device.succeeded() {
        match read_id(reading.id) {
            Some(id) => Some((id, read_name(reading.name))),
            None => None,
        }
    } else {
        None
    }
}

fn count_active(flow: &FlowReading) -> (r: u32)
    ensures
        r == active_count(*flow),
{
    match flow.collection {
        Ok(true) => collection_count(flow.count_hr, flow.count),
        _ => 0,
    }
}

/// The default device of a flow, where there is one and its identifier can be
/// read.
pub fn default_device_info(reading: &DefaultReading) -> (r: Option<DefaultDeviceInfo>)
    ensures
        r.deep_view() == default_entry(*reading),
{
    if reading.device.ok() {
        match device_id(&reading.id) {
            Some(id) => Some(DefaultDeviceInfo { id, name: friendly_name(&reading.name) }),
            None => None,
        }
    } else {
        None
    }
}

/// The overview of the devices, from what reading each flow returned.
pub fn overview_devices(playback: &FlowReading, recording: &FlowReading) -> (r: DeviceOverview)
    ensures
        r.playback_count == active_count(*playback),
        r.recording_count == active_count(*recording),
        r.default_playback.deep_view() == default_entry(playback.default_device),
        r.default_recording.deep_view() == default_entry(recording.default_device),
{
    DeviceOverview {
        playback_count: count_active(playback),
        recording_count: count_active(recording),
        default_playback: default_device_info(&playback.default_device),
        default_recording: default_device_info(&recording.default_device),
    }
}

} // verus!
