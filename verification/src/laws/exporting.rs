//! Exporting: every route in force has its entry, and every entry its route.

use vstd::prelude::*;

use crate::app_routing::export::{
    export_both, export_flow, export_pids, identified_with_pid, is_export, route_of,
    sessions_view, ExportView, IdentifiedView, RouteReadingView, RoutingReading,
};
use crate::app_routing::profile_apps::{process_with_pid, ApplicationEntryView};
use crate::app_routing::round_trip::{
    entry_of_application, exported_routes_are_in_force, first_process_is_identified, flow_pids,
    has_route, last_route_is_exported, routes_in_force_are_exported,
};
use crate::app_routing::sessions::{distinct_pids, distinct_pids_are_the_pids};
use crate::app_routing::{DeviceListView, Flow};
use crate::laws::devices::found_names_are_list_names;
use crate::laws::processes::first_process_with_a_number;
use crate::laws::{
    has_own_route, has_session, is_first_reading, is_first_with_pid, is_heard, is_list_name,
    of_flow, same_program, stands_for, stored, was_read,
};
use crate::text::decimal;

verus! {

/// The route of a process in a flow is the first that was read for it there,
/// whatever was read for the other flow or for other processes; where none was
/// read it has none.
pub proof fn first_reading_counts(routes: Seq<RouteReadingView>, pid: u32, flow: Flow)
    ensures
        forall|route: Result<Option<Seq<char>>, Seq<char>>| #[trigger]
            was_read(routes, pid, flow, route) ==> route_of(routes, pid, flow) == route,
        was_read(routes, pid, flow, route_of(routes, pid, flow)) || (route_of(routes, pid, flow)
            == Ok::<Option<Seq<char>>, Seq<char>>(None) && forall|r: int|
            0 <= r < routes.len() ==> !((#[trigger] routes[r]).pid == pid && routes[r].flow
                == flow)),
    decreases routes.len(),
{
    if routes.len() > 0 {
        let rest = routes.skip(1);
        first_reading_counts(rest, pid, flow);
        let mine = routes[0].pid == pid && routes[0].flow == flow;
        assert forall|route: Result<Option<Seq<char>>, Seq<char>>| #[trigger]
            was_read(routes, pid, flow, route) implies route_of(routes, pid, flow) == route by {
            let r = choose|r: int|
                is_first_reading(routes, r) && (#[trigger] routes[r]).pid == pid && routes[r].flow
                    == flow && routes[r].route == route;
            if mine {
                assert(r == 0);
            } else {
                assert(rest[r - 1] == routes[r]);
                assert(is_first_reading(rest, r - 1)) by {
                    assert forall|j: int| 0 <= j < r - 1 implies !((#[trigger] rest[j]).pid
                        == rest[r - 1].pid && rest[j].flow == rest[r - 1].flow) by {
                        assert(rest[j] == routes[j + 1]);
                    }
                }
                assert(was_read(rest, pid, flow, route));
            }
        }
        if mine {
            assert(is_first_reading(routes, 0));
            assert(was_read(routes, pid, flow, routes[0].route));
        } else if was_read(rest, pid, flow, route_of(rest, pid, flow)) {
            let r = choose|r: int|
                is_first_reading(rest, r) && (#[trigger] rest[r]).pid == pid && rest[r].flow == flow
                    && rest[r].route == route_of(rest, pid, flow);
            assert(routes[r + 1] == rest[r]);
            assert(is_first_reading(routes, r + 1)) by {
                assert forall|j: int| 0 <= j < r + 1 implies !((#[trigger] routes[j]).pid
                    == routes[r + 1].pid && routes[j].flow == routes[r + 1].flow) by {
                    if j > 0 {
                        assert(rest[j - 1] == routes[j]);
                    }
                }
            }
        } else {
            assert forall|r: int| 0 <= r < routes.len() implies !((#[trigger] routes[r]).pid == pid
                && routes[r].flow == flow) by {
                if r > 0 {
                    assert(rest[r - 1] == routes[r]);
                }
            }
        }
    }
}

proof fn heard_processes(reading: RoutingReading, flow: Flow, pid: u32)
    ensures
        flow_pids(reading, flow).contains(pid) <==> is_heard(reading, flow, pid),
{
    if let Ok(sessions) = of_flow(flow, reading.output_sessions, reading.input_sessions) {
        distinct_pids_are_the_pids(sessions@);
    }
}

proof fn own_routes(reading: RoutingReading, flow: Flow, k: int, id: Seq<char>)
    requires
        0 <= k < reading.processes.deep_view().len(),
    ensures
        has_own_route(reading, flow, k, id) <==> is_first_with_pid(
            reading.processes.deep_view(),
            k,
        ) && has_route(reading, flow, reading.processes.deep_view()[k], id),
{
    let running = reading.processes.deep_view();
    let pid = running[k].pid;
    heard_processes(reading, flow, pid);
    first_reading_counts(reading.routes.deep_view(), pid, flow);
    first_process_with_a_number(running, pid);
    assert(running.contains(running[k]));
}

/// Every target of an exported entry is the route that a running process has in
/// that flow, a process with a session there and with the lower-case path and
/// name of the entry; its device has the name that the list of the flow gives
/// it.
pub proof fn exported_targets_are_own_routes(
    playback: DeviceListView,
    recording: DeviceListView,
    reading: RoutingReading,
    entries: Seq<ApplicationEntryView>,
    warnings: Seq<Seq<char>>,
    i: int,
    flow: Flow,
)
    requires
        is_export(playback, recording, reading, entries, warnings),
        0 <= i < entries.len(),
        stored(entries[i], flow) is Some,
    ensures
        is_list_name(
            of_flow(flow, playback, recording),
            stored(entries[i], flow)->Some_0.device_id,
            stored(entries[i], flow)->Some_0.device_name,
        ),
        exists|k: int| #[trigger]
            has_own_route(reading, flow, k, stored(entries[i], flow)->Some_0.device_id)
                && stands_for(entries[i], reading.processes.deep_view()[k]),
{
    exported_routes_are_in_force(playback, recording, reading, entries, warnings, i, flow);
    let running = reading.processes.deep_view();
    let target = stored(entries[i], flow)->Some_0;
    found_names_are_list_names(of_flow(flow, playback, recording), target.device_id);
    let process = choose|process: crate::app_routing::profile_apps::ProcInfoView| #[trigger]
        has_route(reading, flow, process, target.device_id) && entry_of_application(
            entries[i],
            process,
        );
    first_process_with_a_number(running, process.pid);
    let k = choose|k: int|
        is_first_with_pid(running, k) && (#[trigger] running[k]).pid == process.pid
            && process_with_pid(running, process.pid) == Some(running[k]);
    own_routes(reading, flow, k, target.device_id);
    assert(has_own_route(reading, flow, k, target.device_id));
}

/// A running process with a session in a flow and a route of its own there has
/// an entry: one with its lower-case path and name and a target in this flow.
/// The target is that of the process, unless another process with the same path
/// and name has another route.
pub proof fn own_routes_are_exported(
    playback: DeviceListView,
    recording: DeviceListView,
    reading: RoutingReading,
    entries: Seq<ApplicationEntryView>,
    warnings: Seq<Seq<char>>,
    flow: Flow,
    k: int,
    id: Seq<char>,
)
    requires
        is_export(playback, recording, reading, entries, warnings),
        reading.activation is Ok,
        has_own_route(reading, flow, k, id),
    ensures
        exists|i: int|
            0 <= i < entries.len() && stands_for(
                #[trigger] entries[i],
                reading.processes.deep_view()[k],
            ) && stored(entries[i], flow) is Some && ((forall|j: int, other: Seq<char>| #[trigger]
                has_own_route(reading, flow, j, other) && same_program(
                    reading.processes.deep_view()[j],
                    reading.processes.deep_view()[k],
                ) ==> other == id) ==> stored(entries[i], flow)->Some_0.device_id == id),
{
    let running = reading.processes.deep_view();
    own_routes(reading, flow, k, id);
    routes_in_force_are_exported(
        playback,
        recording,
        reading,
        entries,
        warnings,
        flow,
        running[k],
        id,
    );
    let i = choose|i: int|
        0 <= i < entries.len() && entry_of_application(#[trigger] entries[i], running[k])
            && crate::app_routing::restore::target_of(entries[i], flow) is Some;
    assert(stands_for(entries[i], running[k]));
    assert(stored(entries[i], flow) is Some);
    exported_targets_are_own_routes(playback, recording, reading, entries, warnings, i, flow);
    let found = stored(entries[i], flow)->Some_0.device_id;
    let j = choose|j: int| #[trigger]
        has_own_route(reading, flow, j, found) && stands_for(entries[i], running[j]);
    assert(same_program(running[j], running[k]));
}

/// Is the first process number heard before the second: has it a session before
/// which the second has none?
pub open spec fn heard_before(sessions: Seq<(u32, bool)>, a: u32, b: u32) -> bool {
    exists|i: int|
        0 <= i < sessions.len() && (#[trigger] sessions[i]).0 == a && forall|j: int|
            0 <= j <= i ==> (#[trigger] sessions[j]).0 != b
}

proof fn processes_keep_their_order(sessions: Seq<(u32, bool)>, x: int, y: int)
    requires
        0 <= x < distinct_pids(sessions).len(),
        0 <= y < distinct_pids(sessions).len(),
        heard_before(sessions, distinct_pids(sessions)[x], distinct_pids(sessions)[y]),
    ensures
        x < y,
    decreases sessions.len(),
{
    let a = distinct_pids(sessions)[x];
    let b = distinct_pids(sessions)[y];
    let init = sessions.drop_last();
    let before = distinct_pids(init);
    distinct_pids_are_the_pids(init);
    let i = choose|i: int|
        0 <= i < sessions.len() && (#[trigger] sessions[i]).0 == a && forall|j: int|
            0 <= j <= i ==> (#[trigger] sessions[j]).0 != b;
    if y < before.len() {
        assert(before[y] == b && before.contains(b));
        let j = choose|j: int| 0 <= j < init.len() && (#[trigger] init[j]).0 == b;
        assert(sessions[j] == init[j]);
        assert(init[i] == sessions[i]);
        assert(before.contains(a));
        if x < before.len() {
            assert(heard_before(init, a, b)) by {
                assert forall|m: int| 0 <= m <= i implies (#[trigger] init[m]).0 != b by {
                    assert(sessions[m] == init[m]);
                }
            }
            processes_keep_their_order(init, x, y);
        }
    } else if x == y {
        assert(sessions[i].0 != b);
    }
}

/// Where several processes with one path and name have routes of their own in a
/// flow, the entry has the route of the one that is heard last.
pub proof fn last_process_heard_decides(
    playback: DeviceListView,
    recording: DeviceListView,
    reading: RoutingReading,
    entries: Seq<ApplicationEntryView>,
    warnings: Seq<Seq<char>>,
    flow: Flow,
    sessions: Seq<(u32, bool)>,
    k: int,
    id: Seq<char>,
    i: int,
)
    requires
        is_export(playback, recording, reading, entries, warnings),
        reading.activation is Ok,
        has_own_route(reading, flow, k, id),
        of_flow(flow, reading.output_sessions, reading.input_sessions) matches Ok(read)
            && read@ == sessions,
        forall|j: int, other: Seq<char>| #[trigger]
            has_own_route(reading, flow, j, other) && j != k && same_program(
                reading.processes.deep_view()[j],
                reading.processes.deep_view()[k],
            ) ==> heard_before(
                sessions,
                reading.processes.deep_view()[j].pid,
                reading.processes.deep_view()[k].pid,
            ),
        0 <= i < entries.len(),
        stands_for(entries[i], reading.processes.deep_view()[k]),
    ensures
        stored(entries[i], flow) is Some,
        stored(entries[i], flow)->Some_0.device_id == id,
{
    let running = reading.processes.deep_view();
    let pids = flow_pids(reading, flow);
    own_routes(reading, flow, k, id);
    assert(pids == distinct_pids(sessions));
    distinct_pids_are_the_pids(sessions);
    assert(pids.contains(running[k].pid));
    let x = choose|x: int| 0 <= x < pids.len() && pids[x] == running[k].pid;
    assert forall|m: int, other: crate::app_routing::profile_apps::ProcInfoView, found: Seq<char>|
        x < m < pids.len() && (#[trigger] pids[m]) == other.pid && #[trigger] has_route(
            reading,
            flow,
            other,
            found,
        ) implies crate::app_routing::export::identified(other).exe_lower
        != crate::app_routing::export::identified(running[k]).exe_lower
        || crate::app_routing::export::identified(other).name_lower
        != crate::app_routing::export::identified(running[k]).name_lower by {
        first_process_with_a_number(running, other.pid);
        let j = choose|j: int|
            is_first_with_pid(running, j) && (#[trigger] running[j]).pid == other.pid
                && process_with_pid(running, other.pid) == Some(running[j]);
        own_routes(reading, flow, j, found);
        assert(has_own_route(reading, flow, j, found));
        if same_program(running[j], running[k]) {
            assert(pids[m] != pids[x]);
            assert(heard_before(sessions, running[j].pid, running[k].pid));
            processes_keep_their_order(sessions, m, x);
        }
    }
    last_route_is_exported(
        playback,
        recording,
        reading,
        entries,
        warnings,
        flow,
        running[k],
        id,
        x,
        i,
    );
}

/// The path and the name of an exported entry are those of a running process.
pub proof fn exported_entries_name_a_process(
    playback: DeviceListView,
    recording: DeviceListView,
    reading: RoutingReading,
    entries: Seq<ApplicationEntryView>,
    warnings: Seq<Seq<char>>,
    i: int,
)
    requires
        is_export(playback, recording, reading, entries, warnings),
        0 <= i < entries.len(),
    ensures
        exists|k: int|
            0 <= k < reading.processes.deep_view().len() && (
            #[trigger] reading.processes.deep_view()[k]).name == entries[i].process_name
                && reading.processes.deep_view()[k].exe == entries[i].executable_path,
        entries[i].output is Some || entries[i].input is Some,
{
    crate::app_routing::round_trip::entry_names_a_process(
        playback,
        recording,
        reading,
        entries,
        warnings,
        i,
    );
    crate::app_routing::export::exported_entries_have_a_route(
        playback,
        recording,
        reading,
        entries,
        warnings,
    );
}

/// Where the engine cannot be activated nothing is exported, and the only
/// warning says why.
pub proof fn without_engine_nothing_is_exported(
    playback: DeviceListView,
    recording: DeviceListView,
    reading: RoutingReading,
    entries: Seq<ApplicationEntryView>,
    warnings: Seq<Seq<char>>,
)
    requires
        is_export(playback, recording, reading, entries, warnings),
        reading.activation is Err,
    ensures
        entries.len() == 0,
        warnings.len() == 1,
        warnings[0] == reading.activation->Err_0@,
{
}

// ---------------------------------------------------------------------------
// Warnings
// ---------------------------------------------------------------------------

/// The warning for a route that could not be read.
pub open spec fn route_warning(flow: Flow, pid: u32, reason: Seq<char>) -> Seq<char> {
    of_flow(flow, "Route sortie non lue pour "@, "Route entrée non lue pour "@) + decimal(
        pid as nat,
    ) + " : "@ + reason
}

/// The warning for sessions that could not be enumerated.
pub open spec fn sessions_warning(flow: Flow, reason: Seq<char>) -> Seq<char> {
    of_flow(flow, "Sessions sortie non énumérées : "@, "Sessions entrée non énumérées : "@) + reason
}

proof fn warnings_are_spelled(flow: Flow, pid: u32, reason: Seq<char>)
    ensures
        crate::app_routing::export::unread_route_warning(flow, pid, reason) == route_warning(
            flow,
            pid,
            reason,
        ),
        crate::app_routing::export::unread_sessions_warning(flow, reason) == sessions_warning(
            flow,
            reason,
        ),
{
    reveal_strlit("Route ");
    reveal_strlit("Sessions ");
    reveal_strlit("sortie");
    reveal_strlit("entrée");
    reveal_strlit(" non lue pour ");
    reveal_strlit(" non énumérées : ");
    reveal_strlit("Route sortie non lue pour ");
    reveal_strlit("Route entrée non lue pour ");
    reveal_strlit("Sessions sortie non énumérées : ");
    reveal_strlit("Sessions entrée non énumérées : ");
    assert(crate::app_routing::export::unread_route_warning(flow, pid, reason) =~= route_warning(
        flow,
        pid,
        reason,
    ));
    assert(crate::app_routing::export::unread_sessions_warning(flow, reason) =~= sessions_warning(
        flow,
        reason,
    ));
}

/// Was the route of a process that runs unreadable, for this reason?
spec fn unreadable(
    procs: Seq<IdentifiedView>,
    routes: Seq<RouteReadingView>,
    flow: Flow,
    pid: u32,
    reason: Seq<char>,
) -> bool {
    identified_with_pid(procs, pid) is Some && route_of(routes, pid, flow) == Err::<
        Option<Seq<char>>,
        Seq<char>,
    >(reason)
}

/// Is it the warning for an unreadable route of a process with a session?
spec fn warns_of_route(
    procs: Seq<IdentifiedView>,
    routes: Seq<RouteReadingView>,
    flow: Flow,
    sessions: Seq<(u32, bool)>,
    warning: Seq<char>,
) -> bool {
    exists|pid: u32, reason: Seq<char>|
        has_session(sessions, pid) && #[trigger] unreadable(procs, routes, flow, pid, reason)
            && warning == route_warning(flow, pid, reason)
}

proof fn pid_warnings(
    state: ExportView,
    flow: Flow,
    devices: DeviceListView,
    procs: Seq<IdentifiedView>,
    routes: Seq<RouteReadingView>,
    pids: Seq<u32>,
)
    ensures
        ({
            let after = export_pids(state, flow, devices, procs, routes, pids).warnings;
            &&& state.warnings.is_prefix_of(after)
            &&& forall|pid: u32, reason: Seq<char>|
                pids.contains(pid) && #[trigger] unreadable(procs, routes, flow, pid, reason)
                    ==> after.contains(route_warning(flow, pid, reason))
            &&& forall|w: int|
                state.warnings.len() <= w < after.len() ==> exists|pid: u32, reason: Seq<char>|
                    pids.contains(pid) && #[trigger] unreadable(procs, routes, flow, pid, reason)
                        && #[trigger] after[w] == route_warning(flow, pid, reason)
        }),
    decreases pids.len(),
{
    if pids.len() > 0 {
        let init = pids.drop_last();
        let last = pids.last();
        pid_warnings(state, flow, devices, procs, routes, init);
        let before = export_pids(state, flow, devices, procs, routes, init).warnings;
        let after = export_pids(state, flow, devices, procs, routes, pids).warnings;
        assert(pids.contains(last));
        assert forall|p: u32| #[trigger] init.contains(p) implies pids.contains(p) by {
            let k = choose|k: int| 0 <= k < init.len() && init[k] == p;
            assert(pids[k] == p);
        }
        assert forall|p: u32| #[trigger] pids.contains(p) && p != last implies init.contains(p) by {
            let k = choose|k: int| 0 <= k < pids.len() && pids[k] == p;
            assert(init[k] == p);
        }
        assert(before =~= after.subrange(0, before.len() as int));
        assert(state.warnings =~= after.subrange(0, state.warnings.len() as int)) by {
            assert(before.subrange(0, state.warnings.len() as int) =~= after.subrange(
                0,
                state.warnings.len() as int,
            ));
        }
        assert forall|x: Seq<char>| #[trigger] before.contains(x) implies after.contains(x) by {
            let k = choose|k: int| 0 <= k < before.len() && before[k] == x;
            assert(after[k] == x);
        }
        if identified_with_pid(procs, last) is Some && route_of(routes, last, flow) is Err {
            let reason = route_of(routes, last, flow)->Err_0;
            warnings_are_spelled(flow, last, reason);
            assert(after == before.push(route_warning(flow, last, reason)));
            assert(after[before.len() as int] == route_warning(flow, last, reason));
            assert(unreadable(procs, routes, flow, last, reason));
        }
        assert forall|pid: u32, reason: Seq<char>|
            pids.contains(pid) && #[trigger] unreadable(
                procs,
                routes,
                flow,
                pid,
                reason,
            ) implies after.contains(route_warning(flow, pid, reason)) by {
            if pid != last {
                assert(init.contains(pid));
                assert(before.contains(route_warning(flow, pid, reason)));
            }
        }
        assert forall|w: int| state.warnings.len() <= w < after.len() implies exists|
            pid: u32,
            reason: Seq<char>,
        |
            pids.contains(pid) && #[trigger] unreadable(procs, routes, flow, pid, reason)
                && #[trigger] after[w] == route_warning(flow, pid, reason) by {
            if w < before.len() {
                assert(after[w] == before[w]);
                let (pid, reason) = choose|pid: u32, reason: Seq<char>|
                    init.contains(pid) && #[trigger] unreadable(procs, routes, flow, pid, reason)
                        && #[trigger] before[w] == route_warning(flow, pid, reason);
                assert(pids.contains(pid) && unreadable(procs, routes, flow, pid, reason));
            } else {
                let reason = route_of(routes, last, flow)->Err_0;
                assert(pids.contains(last) && unreadable(procs, routes, flow, last, reason));
            }
        }
    } else {
        assert(state.warnings =~= state.warnings.subrange(0, state.warnings.len() as int));
    }
}

proof fn flow_warnings(
    state: ExportView,
    flow: Flow,
    devices: DeviceListView,
    procs: Seq<IdentifiedView>,
    routes: Seq<RouteReadingView>,
    sessions: Result<Seq<(u32, bool)>, Seq<char>>,
)
    ensures
        ({
            let after = export_flow(state, flow, devices, procs, routes, sessions).warnings;
            &&& state.warnings.is_prefix_of(after)
            &&& sessions is Err ==> after.contains(sessions_warning(flow, sessions->Err_0))
            &&& sessions is Ok ==> forall|pid: u32, reason: Seq<char>|
                has_session(sessions->Ok_0, pid) && #[trigger] unreadable(
                    procs,
                    routes,
                    flow,
                    pid,
                    reason,
                ) ==> after.contains(route_warning(flow, pid, reason))
            &&& forall|w: int|
                state.warnings.len() <= w < after.len() ==> (match sessions {
                    Err(reason) => #[trigger] after[w] == sessions_warning(flow, reason),
                    Ok(list) => warns_of_route(procs, routes, flow, list, after[w]),
                })
        }),
{
    let after = export_flow(state, flow, devices, procs, routes, sessions).warnings;
    match sessions {
        Err(reason) => {
            warnings_are_spelled(flow, 0, reason);
            assert(after[state.warnings.len() as int] == sessions_warning(flow, reason));
            assert(state.warnings =~= after.subrange(0, state.warnings.len() as int));
            assert(after.contains(sessions_warning(flow, reason)));
            assert forall|w: int| state.warnings.len() <= w < after.len() implies #[trigger] after[w]
                == sessions_warning(flow, reason) by {}
        },
        Ok(list) => {
            let pids = distinct_pids(list);
            distinct_pids_are_the_pids(list);
            pid_warnings(state, flow, devices, procs, routes, pids);
            assert forall|pid: u32| #[trigger] has_session(list, pid) <==> pids.contains(pid) by {
                if pids.contains(pid) {
                    let i = choose|i: int| 0 <= i < list.len() && (#[trigger] list[i]).0 == pid;
                    assert(list[i].0 == pid);
                }
            }
            assert forall|w: int| state.warnings.len() <= w < after.len() implies warns_of_route(
                procs,
                routes,
                flow,
                list,
                #[trigger] after[w],
            ) by {
                let (pid, reason) = choose|pid: u32, reason: Seq<char>|
                    pids.contains(pid) && #[trigger] unreadable(procs, routes, flow, pid, reason)
                        && #[trigger] after[w] == route_warning(flow, pid, reason);
                assert(has_session(list, pid) && unreadable(procs, routes, flow, pid, reason));
            }
        },
    }
}

/// Is there a running process with this number, a session in the flow and a
/// route there that could not be read for this reason?
pub open spec fn has_unread_route(
    reading: RoutingReading,
    flow: Flow,
    k: int,
    reason: Seq<char>,
) -> bool {
    let running = reading.processes.deep_view();
    &&& is_first_with_pid(running, k)
    &&& is_heard(reading, flow, running[k].pid)
    &&& was_read(reading.routes.deep_view(), running[k].pid, flow, Err(reason))
}

/// An export warns of every flow whose sessions could not be enumerated and of
/// every route that could not be read, and of nothing else.
pub proof fn exports_warn_of_what_was_not_read(
    playback: DeviceListView,
    recording: DeviceListView,
    reading: RoutingReading,
    entries: Seq<ApplicationEntryView>,
    warnings: Seq<Seq<char>>,
    flow: Flow,
)
    requires
        is_export(playback, recording, reading, entries, warnings),
        reading.activation is Ok,
    ensures
        of_flow(flow, reading.output_sessions, reading.input_sessions) matches Err(reason)
            ==> warnings.contains(sessions_warning(flow, reason@)),
        forall|k: int, reason: Seq<char>| #[trigger]
            has_unread_route(reading, flow, k, reason) ==> warnings.contains(
                route_warning(flow, reading.processes.deep_view()[k].pid, reason),
            ),
        forall|w: int|
            0 <= w < warnings.len() ==> is_due_warning(reading, Flow::Output, #[trigger] warnings[w])
                || is_due_warning(reading, Flow::Input, warnings[w]),
{
    let running = reading.processes.deep_view();
    let procs = crate::app_routing::export::all_identified(running);
    let routes = reading.routes.deep_view();
    let start = ExportView { records: Seq::empty(), warnings: Seq::empty() };
    let output = sessions_view(reading.output_sessions);
    let input = sessions_view(reading.input_sessions);
    let played = export_flow(start, Flow::Output, playback, procs, routes, output);
    flow_warnings(start, Flow::Output, playback, procs, routes, output);
    flow_warnings(played, Flow::Input, recording, procs, routes, input);
    assert(warnings == export_both(playback, recording, procs, routes, output, input).warnings);
    assert forall|x: Seq<char>| #[trigger] played.warnings.contains(x) implies warnings.contains(
        x,
    ) by {
        let k = choose|k: int| 0 <= k < played.warnings.len() && played.warnings[k] == x;
        assert(warnings[k] == x);
    }
    assert forall|k: int, reason: Seq<char>| #[trigger]
        has_unread_route(reading, flow, k, reason) implies warnings.contains(
        route_warning(flow, running[k].pid, reason),
    ) by {
        let pid = running[k].pid;
        first_process_with_a_number(running, pid);
        first_process_is_identified(running, pid);
        first_reading_counts(routes, pid, flow);
        assert(unreadable(procs, routes, flow, pid, reason));
    }
    assert forall|w: int| 0 <= w < warnings.len() implies is_due_warning(
        reading,
        Flow::Output,
        #[trigger] warnings[w],
    ) || is_due_warning(reading, Flow::Input, warnings[w]) by {
        if w < played.warnings.len() {
            assert(warnings[w] == played.warnings[w]);
            due(reading, Flow::Output, procs, routes, output, warnings[w]);
        } else {
            due(reading, Flow::Input, procs, routes, input, warnings[w]);
        }
    }
}

/// Is it a warning for sessions or for a route of the flow that could not be
/// read?
pub open spec fn is_due_warning(reading: RoutingReading, flow: Flow, warning: Seq<char>) -> bool {
    match of_flow(flow, reading.output_sessions, reading.input_sessions) {
        Err(reason) => warning == sessions_warning(flow, reason@),
        Ok(_) => exists|k: int, reason: Seq<char>| #[trigger]
            has_unread_route(reading, flow, k, reason) && warning == route_warning(
                flow,
                reading.processes.deep_view()[k].pid,
                reason,
            ),
    }
}

proof fn due(
    reading: RoutingReading,
    flow: Flow,
    procs: Seq<IdentifiedView>,
    routes: Seq<RouteReadingView>,
    sessions: Result<Seq<(u32, bool)>, Seq<char>>,
    warning: Seq<char>,
)
    requires
        procs == crate::app_routing::export::all_identified(reading.processes.deep_view()),
        routes == reading.routes.deep_view(),
        sessions == sessions_view(of_flow(flow, reading.output_sessions, reading.input_sessions)),
        match sessions {
            Err(reason) => warning == sessions_warning(flow, reason),
            Ok(list) => warns_of_route(procs, routes, flow, list, warning),
        },
    ensures
        is_due_warning(reading, flow, warning),
{
    if let Ok(list) = sessions {
        let running = reading.processes.deep_view();
        let (pid, reason) = choose|pid: u32, reason: Seq<char>|
            has_session(list, pid) && #[trigger] unreadable(procs, routes, flow, pid, reason)
                && warning == route_warning(flow, pid, reason);
        first_process_is_identified(running, pid);
        first_process_with_a_number(running, pid);
        first_reading_counts(routes, pid, flow);
        let k = choose|k: int|
            is_first_with_pid(running, k) && (#[trigger] running[k]).pid == pid && process_with_pid(
                running,
                pid,
            ) == Some(running[k]);
        assert(has_unread_route(reading, flow, k, reason));
    }
}

} // verus!
