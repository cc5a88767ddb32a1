//! What is read of the system: sessions, devices, texts and colours.

use vstd::prelude::*;

use crate::app_routing::devices::{
    active_count, before_zero, default_entry, item_entry, item_id, listed_devices, listed_ids,
    read_name, terminated_text, DefaultReading, DeviceReading, FlowReading,
};
use crate::app_routing::ffi::{first_success, ComCall};
use crate::app_routing::sessions::{
    all_entries, device_entries, distinct_pids, session_entry, DeviceSessions, SessionReading,
};
use crate::appearance::colour_text;
use crate::encoding::utf16_text;
use crate::fakeaudio::{present_positions, tried, Candidate};
use crate::text::hex_digits;

verus! {

/// Did the call succeed and give something?
pub open spec fn worked(call: ComCall) -> bool {
    call.hr >= 0 && call.present
}

/// A session counts where its process could be told and is not the system's own;
/// it plays where its state could be read as active.
pub proof fn sessions_of_processes_count(s: SessionReading)
    ensures
        session_entry(s) is Some <==> worked(s.control) && worked(s.control2) && s.pid_hr >= 0
            && s.pid != 0,
        session_entry(s) matches Some(entry) ==> entry.0 == s.pid && (entry.1 <==> s.state_hr >= 0
            && s.state == 1),
{
}

/// The sessions of one more device come behind the others, in their order; a
/// device that cannot be asked has none.
pub proof fn one_more_device_with_sessions(devices: Seq<DeviceSessions>, d: DeviceSessions)
    ensures
        all_entries(Seq::empty()).len() == 0,
        all_entries(devices.push(d)) == all_entries(devices) + device_entries(d),
        device_entries(d) == (if worked(d.item) && worked(d.manager) && worked(d.enumerator)
            && d.count_hr >= 0 {
            d.sessions@.filter_map(|s: SessionReading| session_entry(s))
        } else {
            Seq::empty()
        }),
{
    assert(devices.push(d).drop_last() == devices);
}

/// One more session: its process is listed behind the others, unless it is
/// already.
pub proof fn one_more_session(entries: Seq<(u32, bool)>, entry: (u32, bool))
    ensures
        distinct_pids(Seq::empty()).len() == 0,
        distinct_pids(entries.push(entry)) == (if distinct_pids(entries).contains(entry.0) {
            distinct_pids(entries)
        } else {
            distinct_pids(entries).push(entry.0)
        }),
{
    assert(entries.push(entry).drop_last() == entries);
}

/// One more device: it is listed behind the others where its identifier can be
/// read, with its name, or with none where that cannot be read.
pub proof fn one_more_listed_device(devices: Seq<DeviceReading>, d: DeviceReading)
    ensures
        listed_devices(Seq::empty()).len() == 0,
        listed_ids(Seq::empty()).len() == 0,
        listed_devices(devices.push(d)) == (if worked(d.item) && worked(d.id.call) {
            listed_devices(devices).push(
                (
                    terminated_text(d.id.units@),
                    if worked(d.name.store) && d.name.value_hr >= 0 && d.name.value.vt == 31
                        && d.name.value.psz_val != 0 {
                        terminated_text(d.name.units@)
                    } else {
                        Seq::empty()
                    },
                ),
            )
        } else {
            listed_devices(devices)
        }),
        listed_ids(devices.push(d)) == (if worked(d.item) && worked(d.id.call) {
            listed_ids(devices).push(terminated_text(d.id.units@))
        } else {
            listed_ids(devices)
        }),
{
    let f = |device: DeviceReading| item_entry(device);
    let g = |device: DeviceReading| item_id(device);
    let more = devices.push(d);
    more.lemma_filter_map_take_succ(f, devices.len() as int);
    more.lemma_filter_map_take_succ(g, devices.len() as int);
    assert(more.take(devices.len() as int) == devices);
    assert(more.take(more.len() as int) == more);
}

/// The overview counts the active devices of a flow and shows its default
/// device, where they can be read.
pub proof fn overviews_count_and_name(flow: FlowReading, reading: DefaultReading)
    ensures
        flow.collection == Ok::<bool, String>(true) && flow.count_hr >= 0 ==> active_count(flow)
            == flow.count,
        flow.collection is Err || flow.count_hr < 0 ==> active_count(flow) == 0,
        default_entry(reading) is Some <==> worked(reading.device) && worked(reading.id.call),
        default_entry(reading) matches Some(entry) ==> entry.0 == terminated_text(
            reading.id.units@,
        ) && entry.1 == read_name(reading.name),
{
}

/// A text in memory goes up to the first zero, which must stand among its first
/// 1024 units.
pub proof fn texts_go_up_to_their_zero(units: Seq<u16>, n: int)
    requires
        0 <= n < units.len(),
        n < 1024,
        units[n] == 0,
        forall|i: int| 0 <= i < n ==> #[trigger] units[i] != 0,
    ensures
        terminated_text(units) == utf16_text(units.take(n)),
{
    let seen = if units.len() > 1024 {
        units.take(1024)
    } else {
        units
    };
    first_zero(seen, n);
    assert(seen.take(n) =~= units.take(n));
}

/// A text ends before the first zero.
pub proof fn first_zero(units: Seq<u16>, n: int)
    requires
        0 <= n < units.len(),
        units[n] == 0,
        forall|i: int| 0 <= i < n ==> #[trigger] units[i] != 0,
    ensures
        before_zero(units) == n,
    decreases n,
{
    if n > 0 {
        assert(units[0] != 0);
        assert forall|i: int| 0 <= i < n - 1 implies #[trigger] units.skip(1)[i] != 0 by {
            assert(units[i + 1] != 0);
        }
        first_zero(units.skip(1), n - 1);
    }
}

/// The first call that succeeds is the one that counts.
pub proof fn first_success_counts(calls: Seq<ComCall>, i: int)
    requires
        0 <= i < calls.len(),
        worked(calls[i]),
        forall|j: int| 0 <= j < i ==> !worked(#[trigger] calls[j]),
    ensures
        first_success(calls) == Some(i),
    decreases i,
{
    if i > 0 {
        assert(!worked(calls[0]));
        assert forall|j: int| 0 <= j < i - 1 implies !worked(#[trigger] calls.skip(1)[j]) by {
            assert(!worked(calls[j + 1]));
        }
        assert(calls.skip(1)[i - 1] == calls[i]);
        first_success_counts(calls.skip(1), i - 1);
    }
}

/// The digit of a number below sixteen.
pub open spec fn hex(d: int) -> char {
    if d < 10 {
        (48 + d) as char
    } else {
        (87 + d) as char
    }
}

/// The two digits of a byte.
pub open spec fn two_hex(n: int) -> Seq<char> {
    seq![hex(n / 16), hex(n % 16)]
}

proof fn bytes_have_two_digits(n: nat)
    requires
        n < 256,
    ensures
        hex_digits(n, 2) == two_hex(n as int),
{
    reveal_with_fuel(hex_digits, 3);
    assert(hex_digits(n, 2) =~= two_hex(n as int));
}

/// A colour is shown as red, green and blue, from the lowest byte of its value
/// up; the highest byte does not count.
pub proof fn colours_are_red_green_and_blue(value: u32, red: u32, green: u32, blue: u32, alpha: u32)
    requires
        red < 256,
        green < 256,
        blue < 256,
        alpha < 256,
        value == red + 256 * green + 65536 * blue + 16777216 * alpha,
    ensures
        colour_text(value) == seq!['#'] + two_hex(red as int) + two_hex(green as int) + two_hex(
            blue as int,
        ),
{
    assert(value % 256 == red);
    assert((value / 256) % 256 == green);
    assert((value / 65536) % 256 == blue);
    bytes_have_two_digits(red as nat);
    bytes_have_two_digits(green as nat);
    bytes_have_two_digits(blue as nat);
}

/// The devices of the list that could be had are tried in their order, the
/// default device before all of them.
pub proof fn devices_are_tried_in_order(items: Seq<ComCall>, item: ComCall, devices: Seq<usize>, i: int)
    requires
        items.len() < usize::MAX,
        0 <= i < devices.len(),
    ensures
        present_positions(Seq::empty()).len() == 0,
        present_positions(items.push(item)) == (if worked(item) {
            present_positions(items).push(items.len() as usize)
        } else {
            present_positions(items)
        }),
        tried(devices, true).len() == devices.len() + 1,
        tried(devices, true)[0] == Candidate::Preferred,
        tried(devices, true)[i + 1] == Candidate::Listed(devices[i]),
        tried(devices, false).len() == devices.len(),
        tried(devices, false)[i] == Candidate::Listed(devices[i]),
{
    assert(items.push(item).drop_last() == items);
}

} // verus!
