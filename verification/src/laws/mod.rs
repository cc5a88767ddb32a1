//! What the operations of the library promise, said of what goes in and what
//! comes out.

use vstd::prelude::*;

use crate::app_routing::export::{RouteReadingView, RoutingReading};
use crate::app_routing::profile_apps::{ApplicationEntryView, ProcInfoView, RouteTargetView};
use crate::app_routing::{DeviceListView, Flow};
use crate::encoding::lowercase;

pub mod answers;
pub mod calls;
pub mod command_line;
pub mod devices;
pub mod engine;
pub mod exporting;
pub mod folder;
pub mod listing;
pub mod paths;
pub mod processes;
pub mod profile;
pub mod readings;
pub mod restoring;
pub mod script;
pub mod settings;
pub mod text;
pub mod versions;
pub mod views;
pub mod watching;

verus! {

/// Are the two characters the same, but for the case of an ASCII letter?
pub open spec fn same_letter(a: char, b: char) -> bool {
    ||| a == b
    ||| 'A' <= a <= 'Z' && b as int == a as int + 32
    ||| 'A' <= b <= 'Z' && a as int == b as int + 32
}

/// Are the two texts the same, but for the case of ASCII letters?
pub open spec fn same_but_case(a: Seq<char>, b: Seq<char>) -> bool {
    a.len() == b.len() && forall|i: int| 0 <= i < a.len() ==> same_letter(#[trigger] a[i], b[i])
}

/// Do both characters separate the parts of a path?
pub open spec fn both_separate(a: char, b: char) -> bool {
    (a == '/' || a == '\\') && (b == '/' || b == '\\')
}

/// Do the two paths name the same file: the same characters, but for the case of
/// ASCII letters and for which slash separates the parts?
pub open spec fn same_file(a: Seq<char>, b: Seq<char>) -> bool {
    a.len() == b.len() && forall|i: int|
        0 <= i < a.len() ==> same_letter(#[trigger] a[i], b[i]) || both_separate(a[i], b[i])
}

/// Is the device in the list the target, by its identifier or by its name?
pub open spec fn is_device_of(device: (Seq<char>, Seq<char>), target: RouteTargetView) -> bool {
    same_but_case(device.0, target.device_id) || (target.device_name is Some && same_but_case(
        device.1,
        target.device_name->Some_0,
    ))
}

/// Is some device of the list the target, by its identifier or by its name?
pub open spec fn is_there(devices: DeviceListView, target: RouteTargetView) -> bool {
    exists|i: int| 0 <= i < devices.len() && is_device_of(#[trigger] devices[i], target)
}

/// Is it the first process of the list with its number?
pub open spec fn is_first_with_pid(running: Seq<ProcInfoView>, k: int) -> bool {
    0 <= k < running.len() && forall|j: int|
        0 <= j < k ==> (#[trigger] running[j]).pid != running[k].pid
}

/// Does the process number occur among the sessions?
pub open spec fn has_session(sessions: Seq<(u32, bool)>, pid: u32) -> bool {
    exists|i: int| 0 <= i < sessions.len() && (#[trigger] sessions[i]).0 == pid
}

/// The lower-case form of a path, and of the empty text where there is none.
pub open spec fn lower_path(exe: Option<Seq<char>>) -> Seq<char> {
    match exe {
        Some(path) => lowercase(path),
        None => lowercase(Seq::empty()),
    }
}

/// The item that belongs to a flow, of one for playback and one for recording.
pub open spec fn of_flow<A>(flow: Flow, playback: A, recording: A) -> A {
    match flow {
        Flow::Output => playback,
        Flow::Input => recording,
    }
}

/// Is it the first reading of the list for its process and its flow?
pub open spec fn is_first_reading(routes: Seq<RouteReadingView>, r: int) -> bool {
    0 <= r < routes.len() && forall|j: int|
        0 <= j < r ==> !((#[trigger] routes[j]).pid == routes[r].pid && routes[j].flow
            == routes[r].flow)
}

/// Was this read as the route of a process in a flow?
pub open spec fn was_read(
    routes: Seq<RouteReadingView>,
    pid: u32,
    flow: Flow,
    route: Result<Option<Seq<char>>, Seq<char>>,
) -> bool {
    exists|r: int|
        is_first_reading(routes, r) && (#[trigger] routes[r]).pid == pid && routes[r].flow == flow
            && routes[r].route == route
}

/// Has the process number a session in the flow?
pub open spec fn is_heard(reading: RoutingReading, flow: Flow, pid: u32) -> bool {
    match of_flow(flow, reading.output_sessions, reading.input_sessions) {
        Ok(sessions) => has_session(sessions@, pid),
        Err(_) => false,
    }
}

/// Is the process at a place of the list the first with its number, with a
/// session in the flow and this route of its own there?
pub open spec fn has_own_route(
    reading: RoutingReading,
    flow: Flow,
    k: int,
    id: Seq<char>,
) -> bool {
    let running = reading.processes.deep_view();
    &&& is_first_with_pid(running, k)
    &&& is_heard(reading, flow, running[k].pid)
    &&& was_read(reading.routes.deep_view(), running[k].pid, flow, Ok(Some(id)))
}

/// Have the two processes the same path and the same name, in lower case?
pub open spec fn same_program(a: ProcInfoView, b: ProcInfoView) -> bool {
    lowercase(a.name) == lowercase(b.name) && lower_path(a.exe) == lower_path(b.exe)
}

/// Has the entry the path and the name of the process, in lower case?
pub open spec fn stands_for(entry: ApplicationEntryView, process: ProcInfoView) -> bool {
    lowercase(entry.process_name) == lowercase(process.name) && lower_path(entry.executable_path)
        == lower_path(process.exe)
}

/// The target that an entry stores for a flow.
pub open spec fn stored(entry: ApplicationEntryView, flow: Flow) -> Option<RouteTargetView> {
    of_flow(flow, entry.output, entry.input)
}

/// Is it the name that the list gives a device: that of the first device with
/// its identifier, and none where there is no such device?
pub open spec fn is_list_name(
    devices: DeviceListView,
    id: Seq<char>,
    name: Option<Seq<char>>,
) -> bool {
    match name {
        Some(name) => exists|i: int|
            0 <= i < devices.len() && same_but_case((#[trigger] devices[i]).0, id) && devices[i].1
                == name && forall|j: int|
                0 <= j < i ==> !same_but_case((#[trigger] devices[j]).0, id),
        None => forall|j: int|
            0 <= j < devices.len() ==> !same_but_case((#[trigger] devices[j]).0, id),
    }
}

} // verus!
