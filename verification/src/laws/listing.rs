//! Listing: every application with audio has its row, with its route in each
//! flow.

use vstd::prelude::*;

use crate::app_routing::export::{
    all_identified, heard, identified_with_pid, is_listing, plays, route_of, row_le, row_of,
    rows_in_order, sessions_view, shown_route, unsorted_rows, IdentifiedView, KeyedRowView,
    RouteReadingView, RoutingReading,
};
use crate::app_routing::profile_apps::{process_with_pid, AppSessionRowView, RouteTargetView};
use crate::app_routing::round_trip::first_process_is_identified;
use crate::app_routing::sessions::{distinct_pids, distinct_pids_are_the_pids};
use crate::app_routing::{DeviceListView, Flow};
use crate::encoding::lowercase;
use crate::laws::devices::found_names_are_list_names;
use crate::laws::exporting::first_reading_counts;
use crate::laws::processes::first_process_with_a_number;
use crate::laws::{
    has_session, is_first_with_pid, is_heard, is_list_name, of_flow, was_read,
};
use crate::order::ordered_from;
use crate::text::{text_le, text_le_total};

verus! {

/// Is it what a row shows of the route of a process in a flow: the device that
/// was read as its route there, under the name that the list of the flow gives
/// it, and nothing where none was read?
pub open spec fn shows_route(
    shown: Option<RouteTargetView>,
    devices: DeviceListView,
    routes: Seq<RouteReadingView>,
    pid: u32,
    flow: Flow,
) -> bool {
    &&& forall|id: Seq<char>| #[trigger]
        was_read(routes, pid, flow, Ok(Some(id))) ==> shown is Some && shown->Some_0.device_id == id
    &&& shown matches Some(target) ==> was_read(routes, pid, flow, Ok(Some(target.device_id)))
        && is_list_name(devices, target.device_id, target.device_name)
}

/// Does a session of the process play, in either flow?
pub open spec fn is_playing_somewhere(reading: RoutingReading, pid: u32) -> bool {
    exists|flow: Flow| #[trigger] plays_in(reading, flow, pid)
}

/// Does a session of the process in the flow play?
pub open spec fn plays_in(reading: RoutingReading, flow: Flow, pid: u32) -> bool {
    match of_flow(flow, reading.output_sessions, reading.input_sessions) {
        Ok(sessions) => exists|i: int|
            0 <= i < sessions@.len() && #[trigger] sessions@[i] == (pid, true),
        Err(_) => false,
    }
}

proof fn rows_of_pids(
    playback: DeviceListView,
    recording: DeviceListView,
    procs: Seq<IdentifiedView>,
    routes: Seq<RouteReadingView>,
    sessions: Seq<(u32, bool)>,
    pids: Seq<u32>,
)
    ensures
        ({
            let rows = pids.filter_map(
                |pid: u32| row_of(playback, recording, procs, routes, sessions, pid),
            );
            &&& forall|i: int|
                0 <= i < rows.len() ==> pids.contains((#[trigger] rows[i]).1.pid) && row_of(
                    playback,
                    recording,
                    procs,
                    routes,
                    sessions,
                    rows[i].1.pid,
                ) == Some(rows[i])
            &&& forall|pid: u32| #[trigger]
                pids.contains(pid) && identified_with_pid(procs, pid) is Some ==> exists|i: int|
                    0 <= i < rows.len() && (#[trigger] rows[i]).1.pid == pid
        }),
    decreases pids.len(),
{
    let f = |pid: u32| row_of(playback, recording, procs, routes, sessions, pid);
    if pids.len() > 0 {
        let init = pids.drop_last();
        let last = pids.last();
        rows_of_pids(playback, recording, procs, routes, sessions, init);
        assert(pids.take(pids.len() as int) == pids);
        assert(pids.take(pids.len() - 1) == init);
        pids.lemma_filter_map_take_succ(f, pids.len() - 1);
        let before = init.filter_map(f);
        let rows = pids.filter_map(f);
        assert(pids.contains(last));
        assert forall|i: int| 0 <= i < rows.len() implies pids.contains((#[trigger] rows[i]).1.pid)
            && row_of(playback, recording, procs, routes, sessions, rows[i].1.pid) == Some(
            rows[i],
        ) by {
            if i < before.len() {
                assert(rows[i] == before[i]);
                let k = choose|k: int| 0 <= k < init.len() && init[k] == before[i].1.pid;
                assert(pids[k] == rows[i].1.pid);
            } else {
                assert(Some(rows[i]) == f(last));
            }
        }
        assert forall|pid: u32| #[trigger]
            pids.contains(pid) && identified_with_pid(procs, pid) is Some implies exists|i: int|
            0 <= i < rows.len() && (#[trigger] rows[i]).1.pid == pid by {
            if pid == last {
                assert(f(last) is Some);
                assert(rows[before.len() as int] == f(last)->Some_0);
            } else {
                let k = choose|k: int| 0 <= k < pids.len() && pids[k] == pid;
                assert(init[k] == pid);
                assert(init.contains(pid));
                let i = choose|i: int| 0 <= i < before.len() && (#[trigger] before[i]).1.pid == pid;
                assert(rows[i] == before[i]);
            }
        }
    }
}

proof fn both_flows(reading: RoutingReading, pid: u32)
    ensures
        ({
            let sessions = heard(sessions_view(reading.output_sessions)) + heard(
                sessions_view(reading.input_sessions),
            );
            &&& distinct_pids(sessions).contains(pid) <==> is_heard(reading, Flow::Output, pid)
                || is_heard(reading, Flow::Input, pid)
            &&& plays(sessions, pid) <==> is_playing_somewhere(reading, pid)
        }),
{
    let output = heard(sessions_view(reading.output_sessions));
    let input = heard(sessions_view(reading.input_sessions));
    let sessions = output + input;
    distinct_pids_are_the_pids(sessions);
    if has_session(output, pid) {
        let i = choose|i: int| 0 <= i < output.len() && (#[trigger] output[i]).0 == pid;
        assert(sessions[i].0 == pid);
    }
    if has_session(input, pid) {
        let i = choose|i: int| 0 <= i < input.len() && (#[trigger] input[i]).0 == pid;
        assert(sessions[output.len() + i].0 == pid);
    }
    if has_session(sessions, pid) {
        let i = choose|i: int| 0 <= i < sessions.len() && (#[trigger] sessions[i]).0 == pid;
        if i < output.len() {
            assert(output[i].0 == pid);
        } else {
            assert(input[i - output.len()].0 == pid);
        }
    }
    if plays(sessions, pid) {
        let i = choose|i: int|
            0 <= i < sessions.len() && (#[trigger] sessions[i]).0 == pid && sessions[i].1;
        if i < output.len() {
            assert(output[i] == (pid, true));
            assert(plays_in(reading, Flow::Output, pid));
        } else {
            assert(input[i - output.len()] == (pid, true));
            assert(plays_in(reading, Flow::Input, pid));
        }
    }
    if plays_in(reading, Flow::Output, pid) {
        let i = choose|i: int| 0 <= i < output.len() && #[trigger] output[i] == (pid, true);
        assert(sessions[i].0 == pid && sessions[i].1);
    }
    if plays_in(reading, Flow::Input, pid) {
        let i = choose|i: int| 0 <= i < input.len() && #[trigger] input[i] == (pid, true);
        assert(sessions[output.len() + i].0 == pid && sessions[output.len() + i].1);
    }
    if is_playing_somewhere(reading, pid) {
        let flow = choose|flow: Flow| #[trigger] plays_in(reading, flow, pid);
        assert(flow == Flow::Output || flow == Flow::Input);
    }
}

proof fn shown_routes(
    devices: DeviceListView,
    routes: Seq<RouteReadingView>,
    pid: u32,
    flow: Flow,
)
    ensures
        shows_route(shown_route(devices, routes, pid, flow), devices, routes, pid, flow),
{
    first_reading_counts(routes, pid, flow);
    if let Ok(Some(id)) = route_of(routes, pid, flow) {
        found_names_are_list_names(devices, id);
    }
}

spec fn sorted_rows(
    playback: DeviceListView,
    recording: DeviceListView,
    reading: RoutingReading,
) -> Seq<KeyedRowView> {
    unsorted_rows(
        playback,
        recording,
        all_identified(reading.processes.deep_view()),
        reading.routes.deep_view(),
        heard(sessions_view(reading.output_sessions)) + heard(
            sessions_view(reading.input_sessions),
        ),
    )
}

/// Every row of the list is that of a running process with a session in either
/// flow: it has the number, the name and the path of the process, tells whether
/// one of its sessions plays, and shows its route in each flow, whatever was
/// read for the other.
pub proof fn rows_show_running_processes(
    playback: DeviceListView,
    recording: DeviceListView,
    reading: RoutingReading,
    listed: Seq<AppSessionRowView>,
    i: int,
)
    requires
        is_listing(playback, recording, reading, listed),
        0 <= i < listed.len(),
    ensures
        exists|k: int|
            is_first_with_pid(reading.processes.deep_view(), k) && (
            #[trigger] reading.processes.deep_view()[k]).pid == listed[i].pid
                && reading.processes.deep_view()[k].name == listed[i].process_name
                && reading.processes.deep_view()[k].exe == listed[i].executable_path,
        is_heard(reading, Flow::Output, listed[i].pid) || is_heard(
            reading,
            Flow::Input,
            listed[i].pid,
        ),
        listed[i].playing <==> is_playing_somewhere(reading, listed[i].pid),
        shows_route(
            listed[i].output,
            playback,
            reading.routes.deep_view(),
            listed[i].pid,
            Flow::Output,
        ),
        shows_route(
            listed[i].input,
            recording,
            reading.routes.deep_view(),
            listed[i].pid,
            Flow::Input,
        ),
{
    let running = reading.processes.deep_view();
    let procs = all_identified(running);
    let routes = reading.routes.deep_view();
    let sessions = heard(sessions_view(reading.output_sessions)) + heard(
        sessions_view(reading.input_sessions),
    );
    let rows = sorted_rows(playback, recording, reading);
    let pid = listed[i].pid;
    rows_of_pids(playback, recording, procs, routes, sessions, distinct_pids(sessions));
    let le = |a: KeyedRowView, b: KeyedRowView| row_le(a, b);
    let sorted = choose|sorted: Seq<KeyedRowView>| #[trigger]
        rows_in_order(rows, sorted) && listed == sorted.map_values(|row: KeyedRowView| row.1);
    let origin = choose|origin: Seq<int>| ordered_from(rows, sorted, le, origin);
    assert(sorted[i] == rows[origin[i]]);
    assert(rows[origin[i]].1 == listed[i]);
    both_flows(reading, pid);
    first_process_is_identified(running, pid);
    first_process_with_a_number(running, pid);
    shown_routes(playback, routes, pid, Flow::Output);
    shown_routes(recording, routes, pid, Flow::Input);
    let k = choose|k: int|
        is_first_with_pid(running, k) && (#[trigger] running[k]).pid == pid && process_with_pid(
            running,
            pid,
        ) == Some(running[k]);
    assert(running[k].pid == listed[i].pid);
}

/// Every running process with a session in either flow has a row in the list.
pub proof fn running_processes_with_audio_are_listed(
    playback: DeviceListView,
    recording: DeviceListView,
    reading: RoutingReading,
    listed: Seq<AppSessionRowView>,
    k: int,
)
    requires
        is_listing(playback, recording, reading, listed),
        0 <= k < reading.processes.deep_view().len(),
        is_heard(reading, Flow::Output, reading.processes.deep_view()[k].pid) || is_heard(
            reading,
            Flow::Input,
            reading.processes.deep_view()[k].pid,
        ),
    ensures
        exists|i: int|
            0 <= i < listed.len() && (#[trigger] listed[i]).pid
                == reading.processes.deep_view()[k].pid,
{
    let running = reading.processes.deep_view();
    let procs = all_identified(running);
    let routes = reading.routes.deep_view();
    let sessions = heard(sessions_view(reading.output_sessions)) + heard(
        sessions_view(reading.input_sessions),
    );
    let rows = sorted_rows(playback, recording, reading);
    let pid = running[k].pid;
    rows_of_pids(playback, recording, procs, routes, sessions, distinct_pids(sessions));
    both_flows(reading, pid);
    first_process_is_identified(running, pid);
    some_process_is_first(running, k);
    first_process_with_a_number(running, pid);
    let le = |a: KeyedRowView, b: KeyedRowView| row_le(a, b);
    let sorted = choose|sorted: Seq<KeyedRowView>| #[trigger]
        rows_in_order(rows, sorted) && listed == sorted.map_values(|row: KeyedRowView| row.1);
    let origin = choose|origin: Seq<int>| ordered_from(rows, sorted, le, origin);
    assert(distinct_pids(sessions).contains(pid) && identified_with_pid(procs, pid) is Some);
    let at = choose|at: int| 0 <= at < rows.len() && (#[trigger] rows[at]).1.pid == pid;
    assert(origin.contains(at));
    let i = choose|i: int| 0 <= i < origin.len() && origin[i] == at;
    assert(sorted[i] == rows[origin[i]]);
    assert(listed[i].pid == pid);
}

proof fn some_process_is_first(
    running: Seq<crate::app_routing::profile_apps::ProcInfoView>,
    k: int,
)
    requires
        0 <= k < running.len(),
    ensures
        process_with_pid(running, running[k].pid) is Some,
    decreases running.len(),
{
    if running[0].pid != running[k].pid {
        assert(running.skip(1)[k - 1] == running[k]);
        some_process_is_first(running.skip(1), k - 1);
    }
}

/// The rows are in the order of the lower-case names of their processes, those
/// of one name in the order of their numbers; no process has two rows.
pub proof fn rows_are_in_order(
    playback: DeviceListView,
    recording: DeviceListView,
    reading: RoutingReading,
    listed: Seq<AppSessionRowView>,
    i: int,
    j: int,
)
    requires
        is_listing(playback, recording, reading, listed),
        0 <= i < j < listed.len(),
    ensures
        listed[i].pid != listed[j].pid,
        text_le(lowercase(listed[i].process_name), lowercase(listed[j].process_name)),
        lowercase(listed[i].process_name) == lowercase(listed[j].process_name) ==> listed[i].pid
            < listed[j].pid,
{
    let running = reading.processes.deep_view();
    let procs = all_identified(running);
    let routes = reading.routes.deep_view();
    let sessions = heard(sessions_view(reading.output_sessions)) + heard(
        sessions_view(reading.input_sessions),
    );
    let rows = sorted_rows(playback, recording, reading);
    rows_of_pids(playback, recording, procs, routes, sessions, distinct_pids(sessions));
    crate::app_routing::export::listed_processes_are_distinct(
        playback,
        recording,
        procs,
        routes,
        sessions,
    );
    let le = |a: KeyedRowView, b: KeyedRowView| row_le(a, b);
    let sorted = choose|sorted: Seq<KeyedRowView>| #[trigger]
        rows_in_order(rows, sorted) && listed == sorted.map_values(|row: KeyedRowView| row.1);
    let origin = choose|origin: Seq<int>| ordered_from(rows, sorted, le, origin);
    assert(sorted[i] == rows[origin[i]]);
    assert(sorted[j] == rows[origin[j]]);
    assert(origin[i] != origin[j]);
    first_process_is_identified(running, listed[i].pid);
    first_process_is_identified(running, listed[j].pid);
    assert(sorted[i].0 == lowercase(listed[i].process_name));
    assert(sorted[j].0 == lowercase(listed[j].process_name));
    assert(row_le(sorted[i], sorted[j]));
    text_le_total(sorted[i].0, sorted[i].0);
}

} // verus!
