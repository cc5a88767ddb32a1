//! The audio engine and the system behind it: what their answers mean.

use vstd::prelude::*;

use crate::app_routing::devices::unpacked;
use crate::app_routing::ffi::{read_route, route_text, set_failure, ProcessEntry32W, Role};
use crate::app_routing::profile_apps::snapshot_process;
use crate::app_routing::watch::notified_text;
use crate::app_routing::{DeviceListView, Flow};
use crate::clock::{stamp_text, Moment};
use crate::encoding::utf16_text;
use crate::laws::readings::first_zero;
use crate::route_cli::{devices_lines, LineView};
use crate::text::hex_code;

verus! {

/// How a flow is called in messages.
pub open spec fn called(flow: Flow) -> Seq<char> {
    if flow == Flow::Output {
        "sortie"@
    } else {
        "entrée"@
    }
}

/// A route that was read is the device of its packed identifier; there is none
/// where nothing was found or nothing is stored, and any other failure tells its
/// code.
pub proof fn routes_are_read_as_stored(flow: Flow, hr: i32, units: Seq<u16>)
    ensures
        hr >= 0 ==> read_route(flow, hr, Some(units)) == Ok::<Option<Seq<char>>, Seq<char>>(
            unpacked(utf16_text(units)),
        ),
        hr >= 0 ==> read_route(flow, hr, None) == Ok::<Option<Seq<char>>, Seq<char>>(None),
        hr == -2147023728 ==> read_route(flow, hr, Some(units)) == Ok::<
            Option<Seq<char>>,
            Seq<char>,
        >(None) && read_route(flow, hr, None) == Ok::<Option<Seq<char>>, Seq<char>>(None),
        hr < 0 && hr != -2147023728 ==> read_route(flow, hr, Some(units)) == Err::<
            Option<Seq<char>>,
            Seq<char>,
        >(
            "Lecture de la route "@ + called(flow) + " impossible"@ + " (0x"@ + hex_code(hr as u32)
                + ")"@,
        ),
{
}

/// A route is erased by giving no device, and only so.
pub proof fn no_device_erases_the_route(flow: Flow, id: Seq<char>)
    ensures
        route_text(flow, None) is None,
        route_text(flow, Some(id)) is Some,
{
}

/// A route that could not be set tells its flow, its role and its code.
pub proof fn failed_routes_tell_why(flow: Flow, hr: i32)
    ensures
        set_failure(flow, Role::Console, hr) == "Routage "@ + called(flow) + " ("@ + "console"@
            + ") impossible"@ + " (0x"@ + hex_code(hr as u32) + ")"@,
        set_failure(flow, Role::Multimedia, hr) == "Routage "@ + called(flow) + " ("@
            + "multimédia"@ + ") impossible"@ + " (0x"@ + hex_code(hr as u32) + ")"@,
{
}

/// A process of the system is taken with its own number and its name up to the
/// first zero; the system's own process has no path.
pub proof fn processes_are_taken_as_listed(entry: ProcessEntry32W, exe: Option<Seq<char>>, n: int)
    requires
        0 <= n < entry.sz_exe_file@.len(),
        entry.sz_exe_file@[n] == 0,
        forall|i: int| 0 <= i < n ==> #[trigger] entry.sz_exe_file@[i] != 0,
    ensures
        snapshot_process(entry, exe).pid == entry.th32_process_id,
        snapshot_process(entry, exe).name == utf16_text(entry.sz_exe_file@.take(n)),
        snapshot_process(entry, exe).exe == (if entry.th32_process_id == 0 {
            None
        } else {
            exe
        }),
{
    first_zero(entry.sz_exe_file@, n);
}

/// The identifier in an event goes up to the first zero among its first 4096
/// units; an event without one names no device.
pub proof fn events_name_their_device(units: Seq<u16>, n: int)
    requires
        0 <= n < units.len(),
        n < 4096,
        units[n] == 0,
        forall|i: int| 0 <= i < n ==> #[trigger] units[i] != 0,
    ensures
        notified_text(Some(units)) == utf16_text(units.take(n)),
        notified_text(None).len() == 0,
{
    let seen = if units.len() > 4096 {
        units.take(4096)
    } else {
        units
    };
    first_zero(seen, n);
    assert(seen.take(n) =~= units.take(n));
}

/// A unit that is no surrogate is the character of its number, a pair of
/// surrogates is one character, and a surrogate alone is a replacement
/// character; the rest of the text is not affected.
pub proof fn wide_text_is_read_unit_by_unit(unit: u16, low: u16, rest: Seq<u16>)
    ensures
        unit < 0xD800 || unit >= 0xE000 ==> utf16_text(seq![unit] + rest) == seq![unit as char]
            + utf16_text(rest),
        0xDC00 <= unit < 0xE000 ==> utf16_text(seq![unit] + rest) == seq!['\u{FFFD}']
            + utf16_text(rest),
        0xD800 <= unit < 0xDC00 && 0xDC00 <= low < 0xE000 ==> utf16_text(seq![unit, low] + rest)
            == seq![
            (0x10000 + (unit - 0xD800) * 0x400 + (low - 0xDC00)) as char,
        ] + utf16_text(rest),
        0xD800 <= unit < 0xDC00 && (rest.len() == 0 || rest[0] < 0xDC00 || rest[0] >= 0xE000)
            ==> utf16_text(seq![unit] + rest) == seq!['\u{FFFD}'] + utf16_text(rest),
{
    assert((seq![unit] + rest).skip(1) =~= rest);
    assert((seq![unit, low] + rest).skip(2) =~= rest);
}

/// The number that two digits are.
pub open spec fn two(s: Seq<char>, at: int) -> int {
    (s[at] as int - 48) * 10 + (s[at + 1] as int - 48)
}

/// A date and time is written with its year, month, day, hour, minute and
/// second, each where it belongs.
pub proof fn stamps_tell_their_moment(m: Moment)
    requires
        0 <= m.year <= 9999,
        m.month < 100,
        m.day < 100,
        m.hour < 100,
        m.minute < 100,
        m.second < 100,
    ensures
        ({
            let s = stamp_text(m);
            &&& s.len() == 19
            &&& s[4] == '-' && s[7] == '-' && s[10] == ' ' && s[13] == '-' && s[16] == '-'
            &&& two(s, 0) * 100 + two(s, 2) == m.year
            &&& two(s, 5) == m.month
            &&& two(s, 8) == m.day
            &&& two(s, 11) == m.hour
            &&& two(s, 14) == m.minute
            &&& two(s, 17) == m.second
        }),
{
}

/// One more flow: its devices are printed under its name, each by its name and
/// its identifier, in their order.
pub proof fn one_more_flow_is_printed(
    lists: Seq<(Flow, DeviceListView)>,
    flow: Flow,
    devices: DeviceListView,
    i: int,
)
    ensures
        devices_lines(Seq::empty()).len() == 0,
        ({
            let before = devices_lines(lists);
            let lines = devices_lines(lists.push((flow, devices)));
            &&& lines.take(before.len() as int) == before
            &&& lines[before.len() as int] == LineView::Out(
                "== "@ + (if flow == Flow::Output {
                    "output"@
                } else {
                    "input"@
                }) + " =="@,
            )
            &&& devices.len() == 0 ==> lines.len() == before.len() + 2 && lines[(before.len()
                + 1) as int] == LineView::Out("  (aucun périphérique actif)"@)
            &&& devices.len() > 0 ==> lines.len() == before.len() + 1 + devices.len()
            &&& 0 <= i < devices.len() ==> lines[before.len() + 1 + i] == LineView::Out(
                "  "@ + devices[i].1 + "\n    "@ + devices[i].0,
            )
        }),
{
    let more = lists.push((flow, devices));
    assert(more.drop_last() == lists);
    let lines = devices_lines(more);
    let before = devices_lines(lists);
    assert(lines.take(before.len() as int) =~= before);
}

} // verus!
