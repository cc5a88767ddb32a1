//! What an export holds of the routes in force, and what previewing and
//! restoring it on the same machine does.

use vstd::prelude::*;

use crate::app_routing::export::{
    all_identified, export_both, export_both_is_sound, export_flow, export_one, export_pids,
    export_pids_keeps_records_sound, exported_identities_are_distinct, heard, identified,
    identified_with_pid, is_export, position_in_range, record_le, record_place, recorded,
    records_in_order, route_of, sessions_view, sound_records, target_for, with_route, ExportView,
    IdentifiedView, RecordView, RouteReadingView, RoutingReading,
};
use crate::app_routing::profile_apps::{
    matched_processes, name_of_device, process_with_pid, running_by_name, running_by_path, same_path,
    target_known, ApplicationEntryView, ProcInfoView, ProcessMatch,
};
use crate::app_routing::restore::{
    all_writes, all_written_flows, devices_of, entry_report, flow_report, flow_writes, full_report,
    preview_row, successful_writes_are_all_applied, target_of, target_preview, RestoreContext,
};
use crate::app_routing::sessions::distinct_pids;
use crate::app_routing::{DeviceListView, Flow};
use crate::encoding::lowercase;
use crate::laws::lower_path;
use crate::order::{ordered_from, ordering_keeps_items};
use crate::text::{eq_ascii_fold, text_le, text_le_total};

verus! {

// ---------------------------------------------------------------------------
// Where the records of an export come from
// ---------------------------------------------------------------------------

/// The other flow.
pub open spec fn other_flow(flow: Flow) -> Flow {
    match flow {
        Flow::Output => Flow::Input,
        Flow::Input => Flow::Output,
    }
}

/// Is the record that of the process's application?
pub open spec fn same_application(record: RecordView, process: IdentifiedView) -> bool {
    record.0 == process.exe_lower && record.1 == process.name_lower
}

/// Was the record made for a process of the list, under its own path and name?
pub open spec fn has_origin(record: RecordView, procs: Seq<IdentifiedView>) -> bool {
    exists|k: int|
        0 <= k < procs.len() && same_application(record, #[trigger] procs[k])
            && procs[k].info.name == record.2.process_name && procs[k].info.exe
            == record.2.executable_path
}

/// Does the process have the route, and does the record stand for its
/// application?
pub open spec fn is_source(
    procs: Seq<IdentifiedView>,
    routes: Seq<RouteReadingView>,
    flow: Flow,
    pid: u32,
    record: RecordView,
    id: Seq<char>,
) -> bool {
    identified_with_pid(procs, pid) is Some && same_application(
        record,
        identified_with_pid(procs, pid)->Some_0,
    ) && route_of(routes, pid, flow) == Ok::<Option<Seq<char>>, Seq<char>>(Some(id))
}

/// Is the record's target in a flow the route of one of the processes?
pub open spec fn is_explained(
    record: RecordView,
    flow: Flow,
    devices: DeviceListView,
    procs: Seq<IdentifiedView>,
    routes: Seq<RouteReadingView>,
    pids: Seq<u32>,
) -> bool {
    exists|pid: u32| #[trigger]
        pids.contains(pid) && is_source(
            procs,
            routes,
            flow,
            pid,
            record,
            target_of(record.2, flow)->Some_0.device_id,
        ) && target_of(record.2, flow)->Some_0 == target_for(
            devices,
            target_of(record.2, flow)->Some_0.device_id,
        )
}

/// Is there a record of the process's application that has a target in a flow?
pub open spec fn is_recorded(
    records: Seq<RecordView>,
    flow: Flow,
    process: IdentifiedView,
) -> bool {
    exists|i: int|
        0 <= i < records.len() && same_application(#[trigger] records[i], process) && target_of(
            records[i].2,
            flow,
        ) is Some
}

/// Has the process a route of its own in a flow?
pub open spec fn is_routed(
    procs: Seq<IdentifiedView>,
    routes: Seq<RouteReadingView>,
    flow: Flow,
    pid: u32,
) -> bool {
    identified_with_pid(procs, pid) is Some && route_of(routes, pid, flow) matches Ok(Some(_))
}

/// The records made of one flow: each has an origin and its targets in the flow
/// are routes of the processes, and the application of each process with a
/// route is recorded. What was recorded before is still there, with its targets
/// in the other flow.
spec fn flow_is_exported(
    before: Seq<RecordView>,
    after: Seq<RecordView>,
    flow: Flow,
    devices: DeviceListView,
    procs: Seq<IdentifiedView>,
    routes: Seq<RouteReadingView>,
    pids: Seq<u32>,
) -> bool {
    &&& before.len() <= after.len()
    &&& forall|i: int| 0 <= i < after.len() ==> has_origin(#[trigger] after[i], procs)
    &&& forall|i: int|
        0 <= i < after.len() && target_of((#[trigger] after[i]).2, flow) is Some ==> is_explained(
            after[i],
            flow,
            devices,
            procs,
            routes,
            pids,
        )
    &&& forall|i: int|
        0 <= i < before.len() ==> (#[trigger] after[i]).0 == before[i].0 && after[i].1
            == before[i].1 && target_of(after[i].2, other_flow(flow)) == target_of(
            before[i].2,
            other_flow(flow),
        )
    &&& forall|i: int|
        before.len() <= i < after.len() ==> target_of((#[trigger] after[i]).2, other_flow(flow))
            is None
    &&& forall|pid: u32| #[trigger]
        pids.contains(pid) && is_routed(procs, routes, flow, pid) ==> is_recorded(
            after,
            flow,
            identified_with_pid(procs, pid)->Some_0,
        )
}

proof fn found_process_is_listed(procs: Seq<IdentifiedView>, pid: u32)
    ensures
        identified_with_pid(procs, pid) matches Some(process) ==> process.info.pid == pid
            && exists|k: int| 0 <= k < procs.len() && #[trigger] procs[k] == process,
    decreases procs.len(),
{
    if procs.len() > 0 && procs[0].info.pid != pid {
        let rest = procs.skip(1);
        found_process_is_listed(rest, pid);
        if identified_with_pid(rest, pid) is Some {
            let process = identified_with_pid(rest, pid)->Some_0;
            let k = choose|k: int| 0 <= k < rest.len() && #[trigger] rest[k] == process;
            assert(procs[k + 1] == process);
        }
    } else if procs.len() > 0 {
        assert(procs[0] == identified_with_pid(procs, pid)->Some_0);
    }
}

proof fn one_more_route(
    before: Seq<RecordView>,
    state: ExportView,
    flow: Flow,
    devices: DeviceListView,
    procs: Seq<IdentifiedView>,
    routes: Seq<RouteReadingView>,
    pids: Seq<u32>,
    pid: u32,
)
    requires
        flow_is_exported(before, state.records, flow, devices, procs, routes, pids),
    ensures
        flow_is_exported(
            before,
            export_one(state, flow, devices, procs, routes, pid).records,
            flow,
            devices,
            procs,
            routes,
            pids.push(pid),
        ),
{
    let more = pids.push(pid);
    let records = state.records;
    let after = export_one(state, flow, devices, procs, routes, pid).records;
    assert(more[pids.len() as int] == pid);
    assert(more.contains(pid));
    assert forall|p: u32| #[trigger] pids.contains(p) implies more.contains(p) by {
        let k = choose|k: int| 0 <= k < pids.len() && pids[k] == p;
        assert(more[k] == p);
    }
    assert forall|p: u32| #[trigger] more.contains(p) && p != pid implies pids.contains(p) by {
        let k = choose|k: int| 0 <= k < more.len() && more[k] == p;
        assert(pids[k] == p);
    }
    assert forall|record: RecordView|
        is_explained(record, flow, devices, procs, routes, pids) implies #[trigger] is_explained(
        record,
        flow,
        devices,
        procs,
        routes,
        more,
    ) by {
        let id = target_of(record.2, flow)->Some_0.device_id;
        let p = choose|p: u32| #[trigger]
            pids.contains(p) && is_source(procs, routes, flow, p, record, id);
        assert(more.contains(p));
    }
    if is_routed(procs, routes, flow, pid) {
        let process = identified_with_pid(procs, pid)->Some_0;
        let id = route_of(routes, pid, flow)->Ok_0->Some_0;
        let target = target_for(devices, id);
        let identity = (process.exe_lower, process.name_lower);
        let made = recorded(records, identity, process.info.name, process.info.exe);
        let at = record_place(records, identity);
        position_in_range(records, identity);
        found_process_is_listed(procs, pid);
        assert(after == with_route(records, process, flow, target));
        assert(0 <= at < made.len());
        assert(same_application(after[at], process));
        assert(target_of(after[at].2, flow) == Some(target));
        assert(has_origin(after[at], procs)) by {
            if at < records.len() {
                assert(has_origin(records[at], procs));
                let k = choose|k: int|
                    0 <= k < procs.len() && same_application(records[at], #[trigger] procs[k])
                        && procs[k].info.name == records[at].2.process_name && procs[k].info.exe
                        == records[at].2.executable_path;
                assert(same_application(after[at], procs[k]));
            } else {
                let k = choose|k: int| 0 <= k < procs.len() && #[trigger] procs[k] == process;
                assert(same_application(after[at], procs[k]));
            }
        }
        assert(is_explained(after[at], flow, devices, procs, routes, more)) by {
            assert(more.contains(pid) && is_source(procs, routes, flow, pid, after[at], id));
        }
        assert forall|i: int| 0 <= i < after.len() && i != at implies #[trigger] after[i]
            == records[i] by {}
        assert forall|p: u32| #[trigger] more.contains(p) && is_routed(procs, routes, flow, p)
            implies is_recorded(after, flow, identified_with_pid(procs, p)->Some_0) by {
            let other = identified_with_pid(procs, p)->Some_0;
            if p == pid {
                assert(same_application(after[at], other));
            } else {
                assert(pids.contains(p));
                let i = choose|i: int|
                    0 <= i < records.len() && same_application(#[trigger] records[i], other)
                        && target_of(records[i].2, flow) is Some;
                assert(same_application(after[i], other));
                assert(target_of(after[i].2, flow) is Some);
            }
        }
    } else {
        assert(after == records);
        assert forall|p: u32| #[trigger] more.contains(p) && is_routed(procs, routes, flow, p)
            implies is_recorded(after, flow, identified_with_pid(procs, p)->Some_0) by {
            assert(pids.contains(p));
        }
    }
}

proof fn pids_are_exported(
    state: ExportView,
    flow: Flow,
    devices: DeviceListView,
    procs: Seq<IdentifiedView>,
    routes: Seq<RouteReadingView>,
    pids: Seq<u32>,
)
    requires
        forall|i: int|
            0 <= i < state.records.len() ==> has_origin(#[trigger] state.records[i], procs)
                && target_of(state.records[i].2, flow) is None,
    ensures
        flow_is_exported(
            state.records,
            export_pids(state, flow, devices, procs, routes, pids).records,
            flow,
            devices,
            procs,
            routes,
            pids,
        ),
    decreases pids.len(),
{
    if pids.len() > 0 {
        let init = pids.drop_last();
        pids_are_exported(state, flow, devices, procs, routes, init);
        one_more_route(
            state.records,
            export_pids(state, flow, devices, procs, routes, init),
            flow,
            devices,
            procs,
            routes,
            init,
            pids.last(),
        );
        assert(init.push(pids.last()) == pids);
    }
}

/// The processes of the sessions of a flow that were read, each once.
pub open spec fn flow_pids(reading: RoutingReading, flow: Flow) -> Seq<u32> {
    distinct_pids(
        heard(
            sessions_view(
                match flow {
                    Flow::Output => reading.output_sessions,
                    Flow::Input => reading.input_sessions,
                },
            ),
        ),
    )
}

/// The devices of a flow.
pub open spec fn flow_devices(
    playback: DeviceListView,
    recording: DeviceListView,
    flow: Flow,
) -> DeviceListView {
    match flow {
        Flow::Output => playback,
        Flow::Input => recording,
    }
}

spec fn all_records(
    playback: DeviceListView,
    recording: DeviceListView,
    reading: RoutingReading,
) -> Seq<RecordView> {
    export_both(
        playback,
        recording,
        all_identified(reading.processes.deep_view()),
        reading.routes.deep_view(),
        sessions_view(reading.output_sessions),
        sessions_view(reading.input_sessions),
    ).records
}

proof fn records_are_the_routes(
    playback: DeviceListView,
    recording: DeviceListView,
    reading: RoutingReading,
)
    ensures
        ({
            let records = all_records(playback, recording, reading);
            let procs = all_identified(reading.processes.deep_view());
            let routes = reading.routes.deep_view();
            &&& forall|i: int| 0 <= i < records.len() ==> has_origin(#[trigger] records[i], procs)
            &&& forall|i: int, flow: Flow|
                0 <= i < records.len() && (#[trigger] target_of(records[i].2, flow)) is Some
                    ==> is_explained(
                    records[i],
                    flow,
                    flow_devices(playback, recording, flow),
                    procs,
                    routes,
                    flow_pids(reading, flow),
                )
            &&& forall|pid: u32, flow: Flow| #[trigger]
                flow_pids(reading, flow).contains(pid) && is_routed(procs, routes, flow, pid)
                    ==> is_recorded(records, flow, identified_with_pid(procs, pid)->Some_0)
        }),
{
    let procs = all_identified(reading.processes.deep_view());
    let routes = reading.routes.deep_view();
    let start = ExportView { records: Seq::empty(), warnings: Seq::empty() };
    let output = sessions_view(reading.output_sessions);
    let input = sessions_view(reading.input_sessions);
    let played = export_flow(start, Flow::Output, playback, procs, routes, output);
    let records = all_records(playback, recording, reading);
    let out_pids = flow_pids(reading, Flow::Output);
    let in_pids = flow_pids(reading, Flow::Input);
    pids_are_exported(start, Flow::Output, playback, procs, routes, out_pids);
    assert(flow_is_exported(
        start.records,
        played.records,
        Flow::Output,
        playback,
        procs,
        routes,
        out_pids,
    )) by {
        if output is Err {
            assert(out_pids.len() == 0);
        }
    }
    pids_are_exported(played, Flow::Input, recording, procs, routes, in_pids);
    assert(flow_is_exported(
        played.records,
        records,
        Flow::Input,
        recording,
        procs,
        routes,
        in_pids,
    )) by {
        if input is Err {
            assert(in_pids.len() == 0);
        }
    }
    assert forall|i: int, flow: Flow|
        0 <= i < records.len() && (#[trigger] target_of(records[i].2, flow)) is Some implies
        is_explained(
        records[i],
        flow,
        flow_devices(playback, recording, flow),
        procs,
        routes,
        flow_pids(reading, flow),
    ) by {
        if flow == Flow::Output {
            assert(other_flow(Flow::Input) == Flow::Output);
            assert(i < played.records.len());
            assert(target_of(records[i].2, flow) == target_of(played.records[i].2, flow));
            assert(is_explained(played.records[i], flow, playback, procs, routes, out_pids));
            let id = target_of(records[i].2, flow)->Some_0.device_id;
            let pid = choose|pid: u32| #[trigger]
                out_pids.contains(pid) && is_source(
                    procs,
                    routes,
                    flow,
                    pid,
                    played.records[i],
                    id,
                );
            assert(out_pids.contains(pid) && is_source(procs, routes, flow, pid, records[i], id));
        }
    }
    assert forall|pid: u32, flow: Flow| #[trigger]
        flow_pids(reading, flow).contains(pid) && is_routed(procs, routes, flow, pid) implies
        is_recorded(records, flow, identified_with_pid(procs, pid)->Some_0) by {
        if flow == Flow::Output {
            let process = identified_with_pid(procs, pid)->Some_0;
            assert(is_recorded(played.records, flow, process));
            let i = choose|i: int|
                0 <= i < played.records.len() && same_application(
                    #[trigger] played.records[i],
                    process,
                ) && target_of(played.records[i].2, flow) is Some;
            assert(same_application(records[i], process));
            assert(target_of(records[i].2, flow) is Some);
        }
    }
}

// ---------------------------------------------------------------------------
// What an export holds
// ---------------------------------------------------------------------------

/// Do the entry and the process belong to one application: the same name and
/// the same path, in lower case?
pub open spec fn entry_of_application(entry: ApplicationEntryView, process: ProcInfoView) -> bool {
    let shown = identified(
        ProcInfoView { pid: 0, name: entry.process_name, exe: entry.executable_path },
    );
    shown.exe_lower == identified(process).exe_lower && shown.name_lower == identified(
        process,
    ).name_lower
}

/// Does the process run, with a session in the flow and this route of its own?
pub open spec fn has_route(
    reading: RoutingReading,
    flow: Flow,
    process: ProcInfoView,
    id: Seq<char>,
) -> bool {
    &&& reading.processes.deep_view().contains(process)
    &&& process_with_pid(reading.processes.deep_view(), process.pid) == Some(process)
    &&& flow_pids(reading, flow).contains(process.pid)
    &&& route_of(reading.routes.deep_view(), process.pid, flow) == Ok::<
        Option<Seq<char>>,
        Seq<char>,
    >(Some(id))
}

proof fn identified_process_runs(running: Seq<ProcInfoView>, k: int)
    requires
        0 <= k < running.len(),
    ensures
        all_identified(running)[k] == identified(running[k]),
        running.contains(all_identified(running)[k].info),
{
    assert(running.contains(running[k]));
}

/// An export invents nothing: every target of an exported entry is the route of
/// a running process of its application that has a session in the flow, under
/// the name that the device list gives its device.
pub proof fn exported_routes_are_in_force(
    playback: DeviceListView,
    recording: DeviceListView,
    reading: RoutingReading,
    entries: Seq<ApplicationEntryView>,
    warnings: Seq<Seq<char>>,
    i: int,
    flow: Flow,
)
    requires
        is_export(playback, recording, reading, entries, warnings),
        0 <= i < entries.len(),
        target_of(entries[i], flow) is Some,
    ensures
        ({
            let target = target_of(entries[i], flow)->Some_0;
            &&& target == target_for(flow_devices(playback, recording, flow), target.device_id)
            &&& exists|process: ProcInfoView| #[trigger]
                has_route(reading, flow, process, target.device_id) && entry_of_application(
                    entries[i],
                    process,
                )
        }),
{
    let records = all_records(playback, recording, reading);
    let running = reading.processes.deep_view();
    let procs = all_identified(running);
    let routes = reading.routes.deep_view();
    records_are_the_routes(playback, recording, reading);
    let at = record_of_entry(playback, recording, reading, entries, warnings, i);
    let record = records[at];
    let id = target_of(record.2, flow)->Some_0.device_id;
    let pids = flow_pids(reading, flow);
    assert(is_explained(
        record,
        flow,
        flow_devices(playback, recording, flow),
        procs,
        routes,
        pids,
    ));
    let pid = choose|pid: u32| #[trigger]
        pids.contains(pid) && is_source(procs, routes, flow, pid, record, id);
    let process = identified_with_pid(procs, pid)->Some_0;
    found_process_is_listed(procs, pid);
    let k = choose|k: int| 0 <= k < procs.len() && #[trigger] procs[k] == process;
    identified_process_runs(running, k);
    assert(has_origin(record, procs));
    let o = choose|o: int|
        0 <= o < procs.len() && same_application(record, #[trigger] procs[o])
            && procs[o].info.name == record.2.process_name && procs[o].info.exe
            == record.2.executable_path;
    identified_process_runs(running, o);
    first_process_is_identified(running, pid);
    assert(has_route(reading, flow, process.info, id));
    assert(entry_of_application(entries[i], process.info));
}

proof fn record_of_entry(
    playback: DeviceListView,
    recording: DeviceListView,
    reading: RoutingReading,
    entries: Seq<ApplicationEntryView>,
    warnings: Seq<Seq<char>>,
    i: int,
) -> (at: int)
    requires
        is_export(playback, recording, reading, entries, warnings),
        0 <= i < entries.len(),
    ensures
        0 <= at < all_records(playback, recording, reading).len(),
        all_records(playback, recording, reading)[at].2 == entries[i],
{
    let records = all_records(playback, recording, reading);
    let sorted = choose|sorted: Seq<RecordView>| #[trigger]
        records_in_order(records, sorted) && entries == sorted.map_values(
            |record: RecordView| record.2,
        );
    ordering_keeps_items(
        records,
        sorted,
        |a: RecordView, b: RecordView| record_le(a, b),
    );
    assert(sorted.contains(sorted[i]));
    assert(records.contains(sorted[i]));
    choose|k: int| 0 <= k < records.len() && records[k] == sorted[i]
}

/// An export forgets nothing: the application of every running process that has
/// a session in a flow and a route of its own there has an entry with a target
/// in this flow.
pub proof fn routes_in_force_are_exported(
    playback: DeviceListView,
    recording: DeviceListView,
    reading: RoutingReading,
    entries: Seq<ApplicationEntryView>,
    warnings: Seq<Seq<char>>,
    flow: Flow,
    process: ProcInfoView,
    id: Seq<char>,
)
    requires
        is_export(playback, recording, reading, entries, warnings),
        reading.activation is Ok,
        has_route(reading, flow, process, id),
    ensures
        exists|i: int|
            0 <= i < entries.len() && entry_of_application(#[trigger] entries[i], process)
                && target_of(entries[i], flow) is Some,
{
    let records = all_records(playback, recording, reading);
    let running = reading.processes.deep_view();
    let procs = all_identified(running);
    records_are_the_routes(playback, recording, reading);
    first_process_is_identified(running, process.pid);
    assert(is_routed(procs, reading.routes.deep_view(), flow, process.pid));
    assert(flow_pids(reading, flow).contains(process.pid));
    let at = choose|at: int|
        0 <= at < records.len() && same_application(#[trigger] records[at], identified(process))
            && target_of(records[at].2, flow) is Some;
    assert(has_origin(records[at], procs));
    let o = choose|o: int|
        0 <= o < procs.len() && same_application(records[at], #[trigger] procs[o])
            && procs[o].info.name == records[at].2.process_name && procs[o].info.exe
            == records[at].2.executable_path;
    identified_process_runs(running, o);
    let sorted = choose|sorted: Seq<RecordView>| #[trigger]
        records_in_order(records, sorted) && entries == sorted.map_values(
            |record: RecordView| record.2,
        );
    ordering_keeps_items(
        records,
        sorted,
        |a: RecordView, b: RecordView| record_le(a, b),
    );
    assert(records.contains(records[at]));
    assert(sorted.contains(records[at]));
    let i = choose|i: int| 0 <= i < sorted.len() && sorted[i] == records[at];
    assert(entries[i] == records[at].2);
    assert(entry_of_application(entries[i], process));
}

/// Is it the last of the processes that has a route in the flow and belongs to
/// its application?
pub open spec fn is_last_routed(
    procs: Seq<IdentifiedView>,
    routes: Seq<RouteReadingView>,
    flow: Flow,
    pids: Seq<u32>,
    k: int,
) -> bool {
    &&& 0 <= k < pids.len()
    &&& is_routed(procs, routes, flow, pids[k])
    &&& forall|m: int|
        k < m < pids.len() && is_routed(procs, routes, flow, #[trigger] pids[m]) ==> {
            let other = identified_with_pid(procs, pids[m])->Some_0;
            let process = identified_with_pid(procs, pids[k])->Some_0;
            other.exe_lower != process.exe_lower || other.name_lower != process.name_lower
        }
}

proof fn last_route_is_recorded(
    state: ExportView,
    flow: Flow,
    devices: DeviceListView,
    procs: Seq<IdentifiedView>,
    routes: Seq<RouteReadingView>,
    pids: Seq<u32>,
    k: int,
)
    requires
        sound_records(state.records),
        is_last_routed(procs, routes, flow, pids, k),
    ensures
        ({
            let after = export_pids(state, flow, devices, procs, routes, pids).records;
            let id = route_of(routes, pids[k], flow)->Ok_0->Some_0;
            forall|i: int|
                0 <= i < after.len() && same_application(
                    #[trigger] after[i],
                    identified_with_pid(procs, pids[k])->Some_0,
                ) ==> target_of(after[i].2, flow) == Some(target_for(devices, id))
        }),
    decreases pids.len(),
{
    let init = pids.drop_last();
    let last = pids.last();
    let process = identified_with_pid(procs, pids[k])->Some_0;
    let id = route_of(routes, pids[k], flow)->Ok_0->Some_0;
    let before = export_pids(state, flow, devices, procs, routes, init).records;
    let after = export_pids(state, flow, devices, procs, routes, pids).records;
    export_pids_keeps_records_sound(state, flow, devices, procs, routes, init);
    if k < init.len() {
        assert(is_last_routed(procs, routes, flow, init, k)) by {
            assert forall|m: int|
                k < m < init.len() && is_routed(procs, routes, flow, #[trigger] init[m]) implies ({
                let other = identified_with_pid(procs, init[m])->Some_0;
                other.exe_lower != process.exe_lower || other.name_lower != process.name_lower
            }) by {
                assert(pids[m] == init[m]);
            }
        }
        last_route_is_recorded(state, flow, devices, procs, routes, init, k);
    }
    if is_routed(procs, routes, flow, last) {
        let latest = identified_with_pid(procs, last)->Some_0;
        let target = target_for(devices, route_of(routes, last, flow)->Ok_0->Some_0);
        let identity = (latest.exe_lower, latest.name_lower);
        let at = record_place(before, identity);
        position_in_range(before, identity);
        assert(after == with_route(before, latest, flow, target));
        assert(same_application(after[at], latest));
        assert(target_of(after[at].2, flow) == Some(target));
        assert(pids[pids.len() - 1] == last);
        assert forall|i: int|
            0 <= i < after.len() && same_application(#[trigger] after[i], process) implies target_of(
            after[i].2,
            flow,
        ) == Some(target_for(devices, id)) by {
            if i != at {
                assert(after[i] == before[i]);
                if at < before.len() {
                    assert(same_application(before[at], latest));
                }
            }
        }
    } else {
        assert(after == before);
    }
}

/// Where several processes of one application have routes in a flow, the entry
/// of the application has that of the last of them, in the order of the
/// sessions.
pub proof fn last_route_is_exported(
    playback: DeviceListView,
    recording: DeviceListView,
    reading: RoutingReading,
    entries: Seq<ApplicationEntryView>,
    warnings: Seq<Seq<char>>,
    flow: Flow,
    process: ProcInfoView,
    id: Seq<char>,
    k: int,
    i: int,
)
    requires
        is_export(playback, recording, reading, entries, warnings),
        reading.activation is Ok,
        has_route(reading, flow, process, id),
        0 <= k < flow_pids(reading, flow).len(),
        flow_pids(reading, flow)[k] == process.pid,
        forall|m: int, other: ProcInfoView, found: Seq<char>|
            k < m < flow_pids(reading, flow).len() && (#[trigger] flow_pids(reading, flow)[m])
                == other.pid && #[trigger] has_route(reading, flow, other, found) ==> identified(
                other,
            ).exe_lower != identified(process).exe_lower || identified(other).name_lower
                != identified(process).name_lower,
        0 <= i < entries.len(),
        entry_of_application(entries[i], process),
    ensures
        target_of(entries[i], flow) is Some,
        target_of(entries[i], flow)->Some_0.device_id == id,
{
    let records = all_records(playback, recording, reading);
    let running = reading.processes.deep_view();
    let procs = all_identified(running);
    let routes = reading.routes.deep_view();
    let pids = flow_pids(reading, flow);
    let start = ExportView { records: Seq::empty(), warnings: Seq::empty() };
    let output = sessions_view(reading.output_sessions);
    let input = sessions_view(reading.input_sessions);
    let played = export_flow(start, Flow::Output, playback, procs, routes, output);
    let devices = flow_devices(playback, recording, flow);
    first_process_is_identified(running, process.pid);
    assert(is_last_routed(procs, routes, flow, pids, k)) by {
        assert forall|m: int|
            k < m < pids.len() && is_routed(procs, routes, flow, #[trigger] pids[m]) implies ({
            let other = identified_with_pid(procs, pids[m])->Some_0;
            other.exe_lower != identified(process).exe_lower || other.name_lower != identified(
                process,
            ).name_lower
        }) by {
            first_process_is_identified(running, pids[m]);
            let other = process_with_pid(running, pids[m])->Some_0;
            let found = route_of(routes, pids[m], flow)->Ok_0->Some_0;
            found_process_is_listed(procs, pids[m]);
            let o = choose|o: int|
                0 <= o < procs.len() && #[trigger] procs[o] == identified(other);
            identified_process_runs(running, o);
            assert(running.contains(other));
            assert(pids.contains(pids[m]));
            assert(has_route(reading, flow, other, found));
        }
    }
    let at = record_of_entry(playback, recording, reading, entries, warnings, i);
    records_are_the_routes(playback, recording, reading);
    assert(has_origin(records[at], procs));
    let o = choose|o: int|
        0 <= o < procs.len() && same_application(records[at], #[trigger] procs[o])
            && procs[o].info.name == records[at].2.process_name && procs[o].info.exe
            == records[at].2.executable_path;
    identified_process_runs(running, o);
    assert(same_application(records[at], identified(process)));
    export_both_is_sound(playback, recording, procs, routes, output, input);
    export_pids_keeps_records_sound(
        start,
        Flow::Output,
        playback,
        procs,
        routes,
        flow_pids(reading, Flow::Output),
    );
    if flow == Flow::Input {
        last_route_is_recorded(played, flow, devices, procs, routes, pids, k);
    } else {
        last_route_is_recorded(start, flow, devices, procs, routes, pids, k);
        pids_are_exported(start, Flow::Output, playback, procs, routes, pids);
        assert(pids.contains(process.pid) && is_routed(procs, routes, flow, process.pid));
        assert(is_recorded(played.records, flow, identified(process)));
        let r = choose|r: int|
            0 <= r < played.records.len() && same_application(
                #[trigger] played.records[r],
                identified(process),
            ) && target_of(played.records[r].2, flow) is Some;
        pids_are_exported(
            played,
            Flow::Input,
            recording,
            procs,
            routes,
            flow_pids(reading, Flow::Input),
        );
        assert(other_flow(Flow::Input) == Flow::Output);
        assert(flow_is_exported(
            played.records,
            records,
            Flow::Input,
            recording,
            procs,
            routes,
            flow_pids(reading, Flow::Input),
        )) by {
            if input is Err {
                assert(flow_pids(reading, Flow::Input).len() == 0);
            }
        }
        assert(same_application(records[r], identified(process)));
        assert(r == at);
    }
}

/// The first process with a number is identified by its own path and name.
pub proof fn first_process_is_identified(running: Seq<ProcInfoView>, pid: u32)
    ensures
        identified_with_pid(all_identified(running), pid) == (
        match process_with_pid(running, pid) {
            Some(process) => Some(identified(process)),
            None => None,
        }),
    decreases running.len(),
{
    if running.len() > 0 && running[0].pid != pid {
        assert(all_identified(running).skip(1) == all_identified(running.skip(1)));
        first_process_is_identified(running.skip(1), pid);
    }
}

/// The name and the path of an exported entry are those of a process that runs.
pub proof fn entry_names_a_process(
    playback: DeviceListView,
    recording: DeviceListView,
    reading: RoutingReading,
    entries: Seq<ApplicationEntryView>,
    warnings: Seq<Seq<char>>,
    i: int,
)
    requires
        is_export(playback, recording, reading, entries, warnings),
        0 <= i < entries.len(),
    ensures
        exists|k: int|
            0 <= k < reading.processes.deep_view().len() && (
            #[trigger] reading.processes.deep_view()[k]).name == entries[i].process_name
                && reading.processes.deep_view()[k].exe == entries[i].executable_path,
{
    let records = all_records(playback, recording, reading);
    let running = reading.processes.deep_view();
    let procs = all_identified(running);
    records_are_the_routes(playback, recording, reading);
    let at = record_of_entry(playback, recording, reading, entries, warnings, i);
    assert(has_origin(records[at], procs));
    let o = choose|o: int|
        0 <= o < procs.len() && same_application(records[at], #[trigger] procs[o])
            && procs[o].info.name == records[at].2.process_name && procs[o].info.exe
            == records[at].2.executable_path;
    identified_process_runs(running, o);
    assert(running[o].name == entries[i].process_name);
}

/// The entries of an export are in the order of their lower-case names, those of
/// one name in the order of their lower-case paths; and no two entries have both
/// in common.
pub proof fn exported_entries_are_in_order(
    playback: DeviceListView,
    recording: DeviceListView,
    reading: RoutingReading,
    entries: Seq<ApplicationEntryView>,
    warnings: Seq<Seq<char>>,
    i: int,
    j: int,
)
    requires
        is_export(playback, recording, reading, entries, warnings),
        0 <= i < j < entries.len(),
    ensures
        text_le(lowercase(entries[i].process_name), lowercase(entries[j].process_name)),
        lowercase(entries[i].process_name) == lowercase(entries[j].process_name) ==> text_le(
            lower_path(entries[i].executable_path),
            lower_path(entries[j].executable_path),
        ) && lower_path(entries[i].executable_path) != lower_path(entries[j].executable_path),
{
    let records = all_records(playback, recording, reading);
    let running = reading.processes.deep_view();
    let procs = all_identified(running);
    records_are_the_routes(playback, recording, reading);
    exported_identities_are_distinct(
        playback,
        recording,
        procs,
        reading.routes.deep_view(),
        sessions_view(reading.output_sessions),
        sessions_view(reading.input_sessions),
    );
    let le = |a: RecordView, b: RecordView| record_le(a, b);
    let sorted = choose|sorted: Seq<RecordView>| #[trigger]
        records_in_order(records, sorted) && entries == sorted.map_values(
            |record: RecordView| record.2,
        );
    let origin = choose|origin: Seq<int>| ordered_from(records, sorted, le, origin);
    assert forall|k: int| 0 <= k < sorted.len() implies (#[trigger] sorted[k]).0 == lower_path(
        sorted[k].2.executable_path,
    ) && sorted[k].1 == lowercase(sorted[k].2.process_name) by {
        let record = records[origin[k]];
        assert(sorted[k] == record);
        assert(has_origin(record, procs));
        let o = choose|o: int|
            0 <= o < procs.len() && same_application(record, #[trigger] procs[o])
                && procs[o].info.name == record.2.process_name && procs[o].info.exe
                == record.2.executable_path;
        identified_process_runs(running, o);
    }
    assert(record_le(sorted[i], sorted[j]));
    assert(origin[i] != origin[j]);
    assert(sorted[i] == records[origin[i]] && sorted[j] == records[origin[j]]);
    text_le_total(sorted[i].1, sorted[i].1);
}

// ---------------------------------------------------------------------------
// Restoring an export
// ---------------------------------------------------------------------------

/// Is the application of the entry known by a name or a path?
pub open spec fn is_named(entry: ApplicationEntryView) -> bool {
    entry.process_name.len() > 0 || entry.executable_path is Some
}

/// Is the device of every target of the entry in the list of its flow?
pub open spec fn devices_are_listed(
    playback: DeviceListView,
    recording: DeviceListView,
    entry: ApplicationEntryView,
) -> bool {
    forall|flow: Flow|
        (#[trigger] target_of(entry, flow)) is Some ==> name_of_device(
            flow_devices(playback, recording, flow),
            target_of(entry, flow)->Some_0.device_id,
        ) is Some
}

proof fn own_process_matches(
    entry: ApplicationEntryView,
    running: Seq<ProcInfoView>,
    k: int,
)
    requires
        is_named(entry),
        0 <= k < running.len(),
        running[k].name == entry.process_name,
        running[k].exe == entry.executable_path,
    ensures
        matched_processes(entry, running).0.len() > 0,
        entry.executable_path is Some ==> matched_processes(entry, running).1 == ProcessMatch::Path,
{
    if entry.executable_path is Some {
        let path = entry.executable_path->Some_0;
        let f = |p: ProcInfoView| p.exe is Some && same_path(p.exe->Some_0, path);
        running.lemma_filter_contains(f, k);
        assert(running_by_path(entry, running).contains(running[k]));
    } else {
        let f = |p: ProcInfoView| eq_ascii_fold(p.name, entry.process_name);
        running.lemma_filter_contains(f, k);
        assert(running_by_name(entry, running).contains(running[k]));
    }
}

proof fn named_device_is_known(devices: DeviceListView, id: Seq<char>)
    requires
        name_of_device(devices, id) is Some,
    ensures
        exists|i: int| 0 <= i < devices.len() && eq_ascii_fold((#[trigger] devices[i]).0, id),
    decreases devices.len(),
{
    if eq_ascii_fold(devices[0].0, id) {
        assert(eq_ascii_fold(devices[0].0, id));
    } else {
        let rest = devices.skip(1);
        named_device_is_known(rest, id);
        let i = choose|i: int| 0 <= i < rest.len() && eq_ascii_fold((#[trigger] rest[i]).0, id);
        assert(eq_ascii_fold(devices[i + 1].0, id));
    }
}

/// A preview of an export on the machine that it was made on shows each of its
/// applications as running, found by its path where it has one, and each target
/// whose device is listed as present.
pub proof fn preview_of_an_export(
    playback: DeviceListView,
    recording: DeviceListView,
    reading: RoutingReading,
    entries: Seq<ApplicationEntryView>,
    warnings: Seq<Seq<char>>,
    i: int,
)
    requires
        is_export(playback, recording, reading, entries, warnings),
        0 <= i < entries.len(),
        is_named(entries[i]),
    ensures
        ({
            let running = reading.processes.deep_view();
            let entry = entries[i];
            &&& preview_row(entry, running, playback, recording).running
            &&& entry.executable_path is Some ==> matched_processes(entry, running).1
                == ProcessMatch::Path
            &&& devices_are_listed(playback, recording, entry) ==> forall|flow: Flow|
                (#[trigger] target_of(entry, flow)) is Some ==> target_preview(
                    target_of(entry, flow),
                    flow_devices(playback, recording, flow),
                )->Some_0.present
        }),
{
    let running = reading.processes.deep_view();
    let entry = entries[i];
    records_are_the_routes(playback, recording, reading);
    let at = record_of_entry(playback, recording, reading, entries, warnings, i);
    let record = all_records(playback, recording, reading)[at];
    let procs = all_identified(running);
    assert(has_origin(record, procs));
    let k = choose|k: int|
        0 <= k < procs.len() && same_application(record, #[trigger] procs[k])
            && procs[k].info.name == record.2.process_name && procs[k].info.exe
            == record.2.executable_path;
    identified_process_runs(running, k);
    own_process_matches(entry, running, k);
    if devices_are_listed(playback, recording, entry) {
        assert forall|flow: Flow| (#[trigger] target_of(entry, flow)) is Some implies target_preview(
            target_of(entry, flow),
            flow_devices(playback, recording, flow),
        )->Some_0.present by {
            named_device_is_known(
                flow_devices(playback, recording, flow),
                target_of(entry, flow)->Some_0.device_id,
            );
        }
    }
}

/// Does the application run, found by its path where it has one, and is every
/// device of its targets there?
spec fn is_restorable(context: RestoreContext, entry: ApplicationEntryView) -> bool {
    &&& matched_processes(entry, context.running).0.len() > 0
    &&& entry.executable_path is Some ==> matched_processes(entry, context.running).1
        == ProcessMatch::Path
    &&& forall|flow: Flow|
        (#[trigger] target_of(entry, flow)) is Some ==> target_known(
            devices_of(context, flow),
            target_of(entry, flow)->Some_0,
        )
}

proof fn restorable_entries_are_not_missed(
    context: RestoreContext,
    entries: Seq<ApplicationEntryView>,
    outcomes: Seq<Result<(), Seq<char>>>,
)
    requires
        forall|i: int| 0 <= i < entries.len() ==> is_restorable(context, #[trigger] entries[i]),
    ensures
        full_report(context, entries, outcomes).missing.len() == 0,
        full_report(context, entries, outcomes).warnings.len() == 0,
        all_written_flows(context, entries) == stored_targets(entries),
    decreases entries.len(),
{
    if entries.len() > 0 {
        let init = entries.drop_last();
        let entry = entries.last();
        let split = all_writes(context, init).len() as int;
        assert forall|i: int| 0 <= i < init.len() implies is_restorable(
            context,
            #[trigger] init[i],
        ) by {
            assert(init[i] == entries[i]);
        }
        restorable_entries_are_not_missed(context, init, outcomes.take(split));
        assert(is_restorable(context, entries[entries.len() - 1]));
        assert(target_of(entry, Flow::Output) == entry.output);
        assert(target_of(entry, Flow::Input) == entry.input);
        let report = full_report(context, init, outcomes.take(split));
        let tail = outcomes.skip(split);
        let middle = flow_writes(context, entry, Flow::Output).len() as int;
        let played = flow_report(context, report, entry, Flow::Output, tail.take(middle));
        assert(entry_report(context, report, entry, tail) == flow_report(
            context,
            played,
            entry,
            Flow::Input,
            tail.skip(middle),
        ));
    }
}

/// Number of targets that some entries store.
pub open spec fn stored_targets(entries: Seq<ApplicationEntryView>) -> int
    decreases entries.len(),
{
    if entries.len() == 0 {
        0
    } else {
        stored_targets(entries.drop_last()) + (if entries.last().output is Some {
            1int
        } else {
            0
        }) + (if entries.last().input is Some {
            1int
        } else {
            0
        })
    }
}

/// Restoring an export on the machine that it was made on, its devices being
/// listed, misses no application and no device and gives no warning; where
/// every write succeeds, every stored target is applied.
pub proof fn restoring_an_export_misses_nothing(
    playback: DeviceListView,
    recording: DeviceListView,
    reading: RoutingReading,
    entries: Seq<ApplicationEntryView>,
    warnings: Seq<Seq<char>>,
    outcomes: Seq<Result<(), Seq<char>>>,
)
    requires
        is_export(playback, recording, reading, entries, warnings),
        forall|i: int|
            0 <= i < entries.len() ==> is_named(#[trigger] entries[i]) && devices_are_listed(
                playback,
                recording,
                entries[i],
            ),
        outcomes.len() == all_writes(
            (RestoreContext { running: reading.processes.deep_view(), playback, recording }),
            entries,
        ).len(),
    ensures
        ({
            let report = full_report(
                RestoreContext { running: reading.processes.deep_view(), playback, recording },
                entries,
                outcomes,
            );
            &&& report.missing.len() == 0
            &&& report.warnings.len() == 0
            &&& (forall|i: int| 0 <= i < outcomes.len() ==> #[trigger] outcomes[i] is Ok)
                ==> report.errors.len() == 0 && report.applied == stored_targets(entries)
        }),
{
    let context = RestoreContext { running: reading.processes.deep_view(), playback, recording };
    assert forall|i: int| 0 <= i < entries.len() implies is_restorable(
        context,
        #[trigger] entries[i],
    ) by {
        preview_of_an_export(playback, recording, reading, entries, warnings, i);
        assert forall|flow: Flow| (#[trigger] target_of(entries[i], flow)) is Some implies target_known(
            devices_of(context, flow),
            target_of(entries[i], flow)->Some_0,
        ) by {
            assert(devices_of(context, flow) == flow_devices(playback, recording, flow));
        }
    }
    restorable_entries_are_not_missed(context, entries, outcomes);
    if forall|i: int| 0 <= i < outcomes.len() ==> #[trigger] outcomes[i] is Ok {
        successful_writes_are_all_applied(context, entries, outcomes);
    }
}

} // verus!
