//! What calls give, said of their arguments and results.

use vstd::prelude::*;
use vstd::utf8::encode_utf8;

use crate::app_routing::export::{
    export_app_routes, identify, is_export, is_listing, list_active_app_routes, pids_to_read,
    Identified, RoutingReading,
};
use crate::app_routing::profile_apps::{
    device_known, paths_equal, process_with_pid, AppPreviewRow, AppSessionRow, ApplicationEntry,
    ApplicationEntryView, ProcInfo, ProcInfoView, RestoreReport, RouteTarget,
};
use crate::app_routing::profile_file::{
    attach_applications_to_profile, contents_view, holds_profile, profile_entries,
    restore_applications_in_profile, AttachedProfile,
};
use crate::app_routing::restore::RestoreReading;
use crate::app_routing::sessions::{distinct_pids, distinct_pids_are_the_pids};
use crate::app_routing::{DeviceList, Flow};
use crate::commands::{
    app_sessions, backup_done, delete_profile, import_done, import_profile, install_audio_module,
    previewed_applications, route_set, save_done, save_profile, set_app_route, update_settings,
    AppSessionsResult, BackupMade, BackupPlan, DeleteResult, ImportProfileResult, ImportStep,
    ModuleResult, RouteRequest, SaveProfileResult, SaveStep,
};
use crate::encoding::lowercase;
use crate::json::Json;
use crate::laws::answers::{imports_keep_their_name, profiles_are_saved_as_json};
use crate::laws::command_line::{
    bare, has_queried_name, is_pid_with_name, only_processes_with_the_name_are_meant,
    only_whole_names_mean_a_process,
};
use crate::laws::devices::targets_are_known_by_identifier_or_name;
use crate::laws::exporting::{exported_targets_are_own_routes, own_routes_are_exported};
use crate::laws::folder::{every_json_file_is_listed_once, rows_are_of};
use crate::laws::listing::{
    rows_show_running_processes, running_processes_with_audio_are_listed, shows_route,
};
use crate::laws::paths::ends_in_json;
use crate::laws::processes::first_process_with_a_number;
use crate::laws::settings::settings_are_kept_as_they_are;
use crate::laws::text::only_case_and_slashes_are_overlooked;
use crate::laws::{
    has_own_route, has_session, is_device_of, is_heard, lower_path, of_flow, same_but_case, same_file,
    same_program, stands_for, stored,
};
use crate::paths::{file_name, in_folder};
use crate::profiles::{
    all_taken, candidate, list_profiles, unique_path, was_taken, FolderEntry, ProfileEntry,
};
use crate::ps::{last_json, run_script, Captured};
use crate::route_cli::{names_process, resolve_process, NamedProcess};
use crate::settings::{load, LoadStep, Settings};
use crate::text::{lines_of, trimmed, unsigned_value};

verus! {

// ---------------------------------------------------------------------------
// Devices and processes
// ---------------------------------------------------------------------------

/// A target is known exactly where some device of the list, whichever, has its
/// identifier or its name.
pub proof fn known_devices_are_in_the_list(devices: DeviceList, target: RouteTarget, known: bool)
    requires
        call_ensures(device_known, (&devices, &target), known),
    ensures
        known <==> exists|i: int|
            0 <= i < devices@.len() && (same_but_case(
                (#[trigger] devices@[i]).0@,
                target.device_id@,
            ) || (target.device_name is Some && same_but_case(
                devices@[i].1@,
                target.device_name->Some_0@,
            ))),
{
    targets_are_known_by_identifier_or_name(devices.deep_view(), target.deep_view());
    let views = devices.deep_view();
    assert(forall|i: int|
        0 <= i < devices@.len() ==> #[trigger] views[i] == (devices@[i].0@, devices@[i].1@));
    if known {
        let i = choose|i: int|
            0 <= i < views.len() && is_device_of(#[trigger] views[i], target.deep_view());
        assert(views[i] == (devices@[i].0@, devices@[i].1@));
    } else {
        assert forall|i: int| 0 <= i < devices@.len() implies !(same_but_case(
            (#[trigger] devices@[i]).0@,
            target.device_id@,
        ) || (target.device_name is Some && same_but_case(
            devices@[i].1@,
            target.device_name->Some_0@,
        ))) by {
            assert(views[i] == (devices@[i].0@, devices@[i].1@));
        }
    }
}

/// Two paths are equal exactly where they name the same file.
pub proof fn equal_paths_name_one_file(a: &str, b: &str, equal: bool)
    requires
        call_ensures(paths_equal, (a, b), equal),
    ensures
        equal <==> same_file(a@, b@),
{
    only_case_and_slashes_are_overlooked(a@, b@);
}

/// Each process is identified by the lower-case forms of its own path and its
/// own name, in the order of the processes.
pub proof fn processes_are_identified_by_their_own_path(
    running: Vec<ProcInfo>,
    identified: Vec<Identified>,
    i: int,
)
    requires
        call_ensures(identify, (&running,), identified),
        0 <= i < running@.len(),
    ensures
        identified@.len() == running@.len(),
        identified@[i].info.deep_view() == running@[i].deep_view(),
        identified@[i].exe_lower@ == lower_path(running@[i].exe.deep_view()),
        identified@[i].name_lower@ == lowercase(running@[i].name@),
{
    assert(identified.deep_view().len() == running.deep_view().len());
    assert(identified.deep_view()[i] == identified@[i].deep_view());
    assert(running.deep_view()[i] == running@[i].deep_view());
}

// ---------------------------------------------------------------------------
// Routes
// ---------------------------------------------------------------------------

/// Every exported target is a route of a running process with the path and the
/// name of its entry, and every running process with a route of its own has an
/// entry with its own path and name.
pub proof fn exports_are_the_routes_in_force(
    playback: DeviceList,
    recording: DeviceList,
    reading: RoutingReading,
    exported: Result<(Vec<ApplicationEntry>, Vec<String>), String>,
    flow: Flow,
)
    requires
        call_ensures(export_app_routes, (&playback, &recording, &Ok(reading)), exported),
        reading.activation is Ok,
    ensures
        exported is Ok,
        forall|i: int|
            0 <= i < exported->Ok_0.0.deep_view().len() && stored(
                #[trigger] exported->Ok_0.0.deep_view()[i],
                flow,
            ) is Some ==> exists|k: int| #[trigger]
                has_own_route(
                    reading,
                    flow,
                    k,
                    stored(exported->Ok_0.0.deep_view()[i], flow)->Some_0.device_id,
                ) && stands_for(
                    exported->Ok_0.0.deep_view()[i],
                    reading.processes.deep_view()[k],
                ),
        forall|k: int, id: Seq<char>| #[trigger]
            has_own_route(reading, flow, k, id) ==> exists|i: int|
                0 <= i < exported->Ok_0.0.deep_view().len() && stands_for(
                    #[trigger] exported->Ok_0.0.deep_view()[i],
                    reading.processes.deep_view()[k],
                ) && stored(exported->Ok_0.0.deep_view()[i], flow) is Some,
{
    let entries = exported->Ok_0.0.deep_view();
    let warnings = exported->Ok_0.1.deep_view();
    let played = playback.deep_view();
    let recorded = recording.deep_view();
    assert(is_export(played, recorded, reading, entries, warnings));
    assert forall|i: int|
        0 <= i < entries.len() && stored(#[trigger] entries[i], flow) is Some implies exists|
        k: int,
    | #[trigger]
        has_own_route(reading, flow, k, stored(entries[i], flow)->Some_0.device_id) && stands_for(
            entries[i],
            reading.processes.deep_view()[k],
        ) by {
        exported_targets_are_own_routes(played, recorded, reading, entries, warnings, i, flow);
    }
    assert forall|k: int, id: Seq<char>| #[trigger]
        has_own_route(reading, flow, k, id) implies exists|i: int|
        0 <= i < entries.len() && stands_for(
            #[trigger] entries[i],
            reading.processes.deep_view()[k],
        ) && stored(entries[i], flow) is Some by {
        own_routes_are_exported(played, recorded, reading, entries, warnings, flow, k, id);
    }
}

/// Processes with different paths never share an entry.
pub proof fn different_programs_have_different_entries(
    playback: DeviceList,
    recording: DeviceList,
    reading: RoutingReading,
    exported: Result<(Vec<ApplicationEntry>, Vec<String>), String>,
    flow: Flow,
    a: int,
    b: int,
    a_id: Seq<char>,
    b_id: Seq<char>,
)
    requires
        call_ensures(export_app_routes, (&playback, &recording, &Ok(reading)), exported),
        reading.activation is Ok,
        has_own_route(reading, flow, a, a_id),
        has_own_route(reading, flow, b, b_id),
        !same_program(reading.processes.deep_view()[a], reading.processes.deep_view()[b]),
    ensures
        exists|i: int, j: int|
            0 <= i < exported->Ok_0.0.deep_view().len() && 0 <= j
                < exported->Ok_0.0.deep_view().len() && i != j && stands_for(
                #[trigger] exported->Ok_0.0.deep_view()[i],
                reading.processes.deep_view()[a],
            ) && stands_for(
                #[trigger] exported->Ok_0.0.deep_view()[j],
                reading.processes.deep_view()[b],
            ),
{
    let entries = exported->Ok_0.0.deep_view();
    let warnings = exported->Ok_0.1.deep_view();
    let played = playback.deep_view();
    let recorded = recording.deep_view();
    own_routes_are_exported(played, recorded, reading, entries, warnings, flow, a, a_id);
    own_routes_are_exported(played, recorded, reading, entries, warnings, flow, b, b_id);
    let i = choose|i: int|
        0 <= i < entries.len() && stands_for(
            #[trigger] entries[i],
            reading.processes.deep_view()[a],
        ) && stored(entries[i], flow) is Some;
    let j = choose|j: int|
        0 <= j < entries.len() && stands_for(
            #[trigger] entries[j],
            reading.processes.deep_view()[b],
        ) && stored(entries[j], flow) is Some;
    assert(i != j);
}

/// Every row of the list shows the route of its process in each flow, whatever
/// was read for the other, and every running process with a session is listed.
pub proof fn rows_show_both_routes(
    playback: DeviceList,
    recording: DeviceList,
    reading: RoutingReading,
    listed: Result<Vec<AppSessionRow>, String>,
    i: int,
    k: int,
)
    requires
        call_ensures(list_active_app_routes, (&playback, &recording, &Ok(reading)), listed),
        reading.activation is Ok,
    ensures
        listed is Ok,
        0 <= i < listed->Ok_0.deep_view().len() ==> {
            let row = listed->Ok_0.deep_view()[i];
            shows_route(
                row.output,
                playback.deep_view(),
                reading.routes.deep_view(),
                row.pid,
                Flow::Output,
            ) && shows_route(
                row.input,
                recording.deep_view(),
                reading.routes.deep_view(),
                row.pid,
                Flow::Input,
            )
        },
        0 <= k < reading.processes.deep_view().len() && (is_heard(
            reading,
            Flow::Output,
            reading.processes.deep_view()[k].pid,
        ) || is_heard(reading, Flow::Input, reading.processes.deep_view()[k].pid)) ==> exists|
            j: int,
        |
            0 <= j < listed->Ok_0.deep_view().len() && (
            #[trigger] listed->Ok_0.deep_view()[j]).pid == reading.processes.deep_view()[k].pid,
{
    let rows = listed->Ok_0.deep_view();
    let played = playback.deep_view();
    let recorded = recording.deep_view();
    assert(is_listing(played, recorded, reading, rows));
    if 0 <= i < rows.len() {
        rows_show_running_processes(played, recorded, reading, rows, i);
    }
    if 0 <= k < reading.processes.deep_view().len() && (is_heard(
        reading,
        Flow::Output,
        reading.processes.deep_view()[k].pid,
    ) || is_heard(reading, Flow::Input, reading.processes.deep_view()[k].pid)) {
        running_processes_with_audio_are_listed(played, recorded, reading, rows, k);
    }
}

/// A route is set for the process and the device that were asked for, in the
/// flow that was named; nothing is set in any other flow.
pub proof fn routes_are_set_as_asked(
    pid: u32,
    flow: &str,
    device_id: Option<String>,
    request: Result<RouteRequest, String>,
)
    requires
        call_ensures(set_app_route, (pid, flow, device_id), request),
    ensures
        request is Ok <==> flow@ == "output"@ || flow@ == "input"@,
        request matches Ok(request) ==> request.pid == pid && request.device_id == device_id && flow@
            == of_flow(request.flow, "output"@, "input"@),
{
    reveal_strlit("output");
    reveal_strlit("input");
    assert("output"@.len() == 6 && "input"@.len() == 5);
}

/// A route counts as set only where the engine was reached and set it.
pub proof fn only_set_routes_count(
    reached: Result<Result<(), String>, String>,
    done: Result<(), String>,
)
    requires
        call_ensures(route_set, (reached,), done),
    ensures
        done is Ok <==> reached is Ok && reached->Ok_0 is Ok,
        reached matches Err(reason) ==> done->Err_0@ == reason@,
{
}

/// Sessions are shown only where the routing engine is there and they could be
/// listed; else there is an error. The devices are shown either way.
pub proof fn sessions_need_the_engine(
    available: bool,
    playback: DeviceList,
    recording: DeviceList,
    listed: Result<Vec<AppSessionRow>, String>,
    shown: AppSessionsResult,
)
    requires
        call_ensures(app_sessions, (available, playback, recording, listed), shown),
    ensures
        shown.available == available,
        shown.error is None <==> available && listed is Ok,
        shown.error is None ==> shown.sessions == listed->Ok_0,
        shown.error is Some ==> shown.sessions@.len() == 0,
        shown.playback_devices.deep_view() == playback.deep_view(),
        shown.recording_devices.deep_view() == recording.deep_view(),
{
}

// ---------------------------------------------------------------------------
// The command line
// ---------------------------------------------------------------------------

/// A lower-case name means a process exactly where it is its whole name, or the
/// whole name of its executable, with or without `.exe`.
pub proof fn names_mean_whole_names(query: &str, process: NamedProcess, meant: bool)
    requires
        call_ensures(names_process, (query, &process), meant),
    ensures
        meant <==> bare(process.name@) == bare(query@) || (process.base is Some
            && process.base->Some_0@ == bare(query@)),
{
    only_whole_names_mean_a_process(query@, process.deep_view());
}

/// A query that is no number gives exactly the listed processes that have the
/// queried name.
pub proof fn queries_give_the_processes_with_the_name(
    query: &str,
    sessions: Vec<AppSessionRow>,
    found: Result<Vec<u32>, String>,
    i: int,
)
    requires
        call_ensures(resolve_process, (query, &sessions), found),
        unsigned_value(query@) is None,
        0 <= i < sessions@.len(),
    ensures
        has_queried_name(query@, sessions.deep_view()[i]) ==> found is Ok
            && found->Ok_0@.contains(sessions@[i].pid),
        found matches Ok(pids) ==> forall|k: int|
            0 <= k < pids@.len() ==> is_pid_with_name(
                query@,
                sessions.deep_view(),
                #[trigger] pids@[k],
            ),
{
    only_processes_with_the_name_are_meant(query@, sessions.deep_view());
    assert(sessions.deep_view()[i] == sessions@[i].deep_view());
}

// ---------------------------------------------------------------------------
// Profiles
// ---------------------------------------------------------------------------

/// A profile is exported to the path that was picked, and only where that path
/// names a JSON file.
pub proof fn profiles_are_saved_where_picked(picked: Option<String>, step: SaveStep)
    requires
        call_ensures(save_profile, (picked,), step),
    ensures
        step is Answer <==> picked is None,
        step is Export <==> picked is Some && file_name(picked->Some_0@) is Some && ends_in_json(
            file_name(picked->Some_0@)->Some_0,
        ),
        step is Export ==> step->Export_0@ == picked->Some_0@,
        step is Answer ==> !step->Answer_0.saved && step->Answer_0.path is None,
{
    if let Some(path) = picked {
        profiles_are_saved_as_json(path@);
    }
}

/// A profile counts as saved exactly where its export succeeded, under its path.
pub proof fn saved_profiles_were_exported(
    path: String,
    exported: Result<usize, String>,
    done: Result<SaveProfileResult, String>,
)
    requires
        call_ensures(save_done, (path, exported), done),
    ensures
        done is Ok <==> exported is Ok,
        done matches Ok(done) ==> done.saved && done.path is Some && done.path->Some_0@ == path@,
        exported matches Err(reason) ==> done->Err_0@ == reason@,
{
}

/// A file is imported exactly where it was picked and holds a valid profile,
/// under its own name.
pub proof fn only_profiles_are_imported(
    picked: Option<&str>,
    contents: Result<Vec<u8>, String>,
    step: ImportStep,
)
    requires
        call_ensures(import_profile, (picked, &contents), step),
    ensures
        step is Answer <==> picked is None,
        step is Copy <==> picked is Some && holds_profile(contents_view(contents)),
        step is Copy && file_name(picked->Some_0@) is Some ==> step->Copy_0@ == file_name(
            picked->Some_0@,
        )->Some_0,
        step is Answer ==> !step->Answer_0.imported && step->Answer_0.path is None,
{
    if let Some(source) = picked {
        imports_keep_their_name(source@);
    }
}

/// A profile counts as imported exactly where its copy was made, under the path
/// of the copy.
pub proof fn imported_profiles_were_copied(
    path: String,
    copied: Result<(), String>,
    done: Result<ImportProfileResult, String>,
)
    requires
        call_ensures(import_done, (path, copied), done),
    ensures
        done is Ok <==> copied is Ok,
        done matches Ok(done) ==> done.imported && done.path is Some && done.path->Some_0@ == path@,
{
}

/// A profile counts as deleted exactly where it was a file and was removed.
pub proof fn deleted_profiles_were_files(
    is_file: bool,
    removed: Result<(), String>,
    done: Result<DeleteResult, String>,
)
    requires
        call_ensures(delete_profile, (is_file, removed), done),
    ensures
        done is Ok <==> is_file && removed is Ok,
        done matches Ok(done) ==> done.deleted,
{
}

/// Every plain file whose name ends in `.json` is listed exactly once, whatever
/// its name says besides, and no other file is.
pub proof fn json_files_are_listed_once(
    entries: Vec<FolderEntry>,
    listed: Result<Vec<ProfileEntry>, String>,
)
    requires
        call_ensures(list_profiles, (&Ok(entries),), listed),
    ensures
        listed is Ok,
        exists|from: Seq<int>| rows_are_of(entries@, listed->Ok_0.deep_view(), from),
{
    every_json_file_is_listed_once(entries@, listed->Ok_0.deep_view());
}

/// The applications of a preview are shown as they are, where the profile has a
/// section and it could be read.
pub proof fn previews_need_the_section(
    has_applications: bool,
    preview: Result<Vec<AppPreviewRow>, String>,
    shown: Vec<AppPreviewRow>,
)
    requires
        call_ensures(previewed_applications, (has_applications, preview), shown),
    ensures
        has_applications && preview is Ok ==> shown == preview->Ok_0,
        !has_applications || preview is Err ==> shown@.len() == 0,
{
}

/// Retention is due only after a backup was made, in its folder and for as many
/// as the plan keeps; the backup stands under its name in that folder.
pub proof fn retention_follows_the_backup(
    plan: BackupPlan,
    exported: Result<usize, String>,
    done: Result<BackupMade, String>,
)
    requires
        call_ensures(backup_done, (&plan, &exported), done),
    ensures
        done is Ok <==> exported is Ok,
        done matches Ok(made) ==> made.path@ == in_folder(plan.folder@, plan.name@)
            && made.retention.folder@ == plan.folder@ && made.retention.keep == plan.keep,
{
}

/// The routes of a profile are what was exported, and reading the new profile
/// gives them back; where the export failed there are none, and the warning says
/// why.
pub proof fn exports_are_attached_whole(
    contents: Result<Vec<u8>, String>,
    exported: Result<(Vec<ApplicationEntry>, Vec<String>), String>,
    done: AttachedProfile,
)
    requires
        call_ensures(attach_applications_to_profile, (&contents, &exported), Ok(done)),
    ensures
        exported matches Ok(pair) ==> profile_entries(Ok(encode_utf8(done.content@))) == Ok::<
            Seq<ApplicationEntryView>,
            Seq<char>,
        >(pair.0.deep_view()) && done.count == pair.0@.len() && done.warnings.deep_view()
            == pair.1.deep_view(),
        exported matches Err(reason) ==> profile_entries(Ok(encode_utf8(done.content@))) == Ok::<
            Seq<ApplicationEntryView>,
            Seq<char>,
        >(Seq::empty()) && done.count == 0 && done.warnings@.len() == 1 && done.warnings@[0]@
            == reason@,
{
    let warnings = done.warnings.deep_view();
    assert(warnings.len() == done.warnings@.len());
    if let Err(reason) = exported {
        assert(warnings[0] == done.warnings@[0]@);
    }
}

/// A free name is one that is not taken: the name itself where it is free, and
/// else the first numbered one; all before it are taken.
pub proof fn free_names_are_the_first<F: Fn(&String) -> bool>(
    name: &str,
    taken: F,
    found: Option<String>,
)
    requires
        call_ensures(unique_path::<F>, (name, taken), found),
    ensures
        found matches Some(free) ==> call_ensures(taken, (&free,), false) && exists|attempt: nat|
            attempt >= 1 && free@ == #[trigger] candidate(name@, attempt) && forall|earlier: nat|
                1 <= earlier < attempt ==> #[trigger] is_taken(name@, taken, earlier),
        found is None ==> forall|earlier: nat|
            1 <= earlier <= 2147483647 ==> #[trigger] is_taken(name@, taken, earlier),
{
    if found is None {
        assert forall|earlier: nat| 1 <= earlier <= 2147483647 implies #[trigger] is_taken(
            name@,
            taken,
            earlier,
        ) by {
            assert(was_taken(name@, taken, earlier));
        }
    }
    if let Some(free) = found {
        let attempt = choose|attempt: nat|
            1 <= attempt <= 2147483647 && free@ == #[trigger] candidate(name@, attempt)
                && all_taken(name@, taken, attempt);
        assert forall|earlier: nat| 1 <= earlier < attempt implies #[trigger] is_taken(
            name@,
            taken,
            earlier,
        ) by {
            assert(was_taken(name@, taken, earlier));
        }
    }
}

/// Did `taken` say of the name with a number that it is taken?
pub open spec fn is_taken<F: Fn(&String) -> bool>(name: Seq<char>, taken: F, number: nat) -> bool {
    exists|s: &String| s@ == candidate(name, number) && #[trigger] call_ensures(taken, (s,), true)
}

/// The routes that are read are those of the processes that run and have a
/// session, each once.
pub proof fn routes_are_read_for_running_processes(
    running: Vec<ProcInfo>,
    sessions: Vec<(u32, bool)>,
    pids: Vec<u32>,
    pid: u32,
)
    requires
        call_ensures(pids_to_read, (&running, &sessions), pids),
    ensures
        pids@.no_duplicates(),
        pids@.contains(pid) <==> has_session(sessions@, pid) && exists|k: int|
            0 <= k < running.deep_view().len() && (#[trigger] running.deep_view()[k]).pid == pid,
{
    let heard = distinct_pids(sessions@);
    let runs = |pid: u32| process_with_pid(running.deep_view(), pid) is Some;
    distinct_pids_are_the_pids(sessions@);
    first_process_with_a_number(running.deep_view(), pid);
    filtering_keeps_distinct(heard, runs);
    if exists|k: int|
        0 <= k < running.deep_view().len() && (#[trigger] running.deep_view()[k]).pid == pid {
        some_process_is_found(running.deep_view(), pid);
    }
}

proof fn filtering_keeps_distinct(pids: Seq<u32>, keep: spec_fn(u32) -> bool)
    requires
        pids.no_duplicates(),
    ensures
        pids.filter(keep).no_duplicates(),
        forall|pid: u32| #[trigger]
            pids.filter(keep).contains(pid) <==> pids.contains(pid) && keep(pid),
    decreases pids.len(),
{
    reveal(Seq::filter);
    if pids.len() > 0 {
        let init = pids.drop_last();
        let last = pids.last();
        let before = init.filter(keep);
        let after = pids.filter(keep);
        filtering_keeps_distinct(init, keep);
        assert forall|pid: u32| #[trigger] pids.contains(pid) <==> init.contains(pid) || pid
            == last by {
            if pids.contains(pid) && pid != last {
                let k = choose|k: int| 0 <= k < pids.len() && pids[k] == pid;
                assert(init[k] == pid);
            }
            if init.contains(pid) {
                let k = choose|k: int| 0 <= k < init.len() && init[k] == pid;
                assert(pids[k] == pid);
            }
            assert(pids[pids.len() - 1] == last);
        }
        assert(!init.contains(last)) by {
            if init.contains(last) {
                let k = choose|k: int| 0 <= k < init.len() && init[k] == last;
                assert(pids[k] == pids[pids.len() - 1]);
            }
        }
        if keep(last) {
            assert(after == before.push(last));
            assert forall|pid: u32| #[trigger] after.contains(pid) <==> before.contains(pid) || pid
                == last by {
                if after.contains(pid) && pid != last {
                    let k = choose|k: int| 0 <= k < after.len() && after[k] == pid;
                    assert(before[k] == pid);
                }
                if before.contains(pid) {
                    let k = choose|k: int| 0 <= k < before.len() && before[k] == pid;
                    assert(after[k] == pid);
                }
                assert(after[before.len() as int] == last);
            }
            assert forall|i: int, j: int|
                0 <= i < after.len() && 0 <= j < after.len() && i != j implies after[i]
                != after[j] by {
                if i < before.len() && j < before.len() {
                    assert(before[i] != before[j]);
                } else if i < before.len() {
                    assert(before.contains(before[i]));
                } else {
                    assert(before.contains(before[j]));
                }
            }
        } else {
            assert(after == before);
        }
    }
}

proof fn some_process_is_found(running: Seq<ProcInfoView>, pid: u32)
    requires
        exists|k: int| 0 <= k < running.len() && (#[trigger] running[k]).pid == pid,
    ensures
        process_with_pid(running, pid) is Some,
    decreases running.len(),
{
    if running[0].pid != pid {
        let k = choose|k: int| 0 <= k < running.len() && (#[trigger] running[k]).pid == pid;
        assert(running.skip(1)[k - 1] == running[k]);
        some_process_is_found(running.skip(1), pid);
    }
}

/// The script's answer is what it printed last as a JSON object, and only where
/// it ended with code zero.
pub proof fn scripts_answer_where_they_succeed(
    action: &str,
    run: Result<Captured, String>,
    answer: Result<Json, String>,
)
    requires
        call_ensures(run_script, (action, &run), answer),
    ensures
        answer is Ok <==> run is Ok && run->Ok_0.code == Some(0i32) && last_json(
            lines_of(run->Ok_0.stdout@),
        ) is Some,
        answer matches Ok(json) ==> last_json(lines_of(run->Ok_0.stdout@)) == Some(
            json.deep_view(),
        ),
        run matches Err(reason) ==> answer->Err_0@ == reason@,
{
}

/// A restore of a profile that cannot be read, or on an engine that cannot be
/// reached for one with routes, fails with that reason; a profile without routes
/// needs no engine.
pub proof fn restores_need_routes_and_the_engine(
    entries: Result<Vec<ApplicationEntry>, String>,
    playback: DeviceList,
    recording: DeviceList,
    reading: Result<RestoreReading, String>,
    done: Result<RestoreReport, String>,
)
    requires
        call_ensures(
            restore_applications_in_profile,
            (&entries, &playback, &recording, &reading),
            done,
        ),
    ensures
        done is Ok <==> entries is Ok && (entries->Ok_0@.len() == 0 || reading is Ok),
        entries matches Err(reason) ==> done->Err_0@ == reason@,
        entries is Ok && entries->Ok_0@.len() == 0 ==> done->Ok_0.applied == 0
            && done->Ok_0.missing@.len() == 0 && done->Ok_0.errors@.len() == 0,
{
    if done is Ok {
        assert(done->Ok_0.missing.deep_view().len() == done->Ok_0.missing@.len());
        assert(done->Ok_0.errors.deep_view().len() == done->Ok_0.errors@.len());
    }
}

// ---------------------------------------------------------------------------
// Settings and the audio module
// ---------------------------------------------------------------------------

/// Settings that were read are used as they are; only where there are none the
/// first ones are created, and unreadable ones are never overwritten.
pub proof fn settings_are_loaded_or_created(
    path: &str,
    read: Option<Result<Settings, String>>,
    first: Settings,
    step: LoadStep,
)
    requires
        call_ensures(load, (path, read, first), step),
    ensures
        step is Create <==> read is None,
        step is Create ==> step->Create_0 == first,
        step is Use <==> read is Some && read->Some_0 is Ok,
        step is Use ==> step->Use_0 == read->Some_0->Ok_0,
{
}

/// New settings are kept exactly where their folder is more than white space and
/// could be made: as they are, but for the white space around the folder.
pub proof fn settings_are_updated_as_given(
    given: Settings,
    created: Result<(), String>,
    kept: Result<Settings, String>,
)
    requires
        call_ensures(update_settings, (given, created), kept),
    ensures
        kept is Ok <==> trimmed(given.profiles_folder@).len() > 0 && created is Ok,
        kept matches Ok(kept) ==> kept.profiles_folder@ == trimmed(given.profiles_folder@)
            && kept.backup_before_restore == given.backup_before_restore && kept.auto_save_on_start
            == given.auto_save_on_start && kept.keep_versions == given.keep_versions
            && kept.watch_devices == given.watch_devices,
{
    settings_are_kept_as_they_are(given.deep_view());
    crate::laws::text::trimming_takes_white_space_only(given.profiles_folder@);
}

/// The module counts as installed exactly where its installation ended with code
/// zero.
pub proof fn installations_end_with_zero(
    run: Result<Captured, String>,
    done: Result<ModuleResult, String>,
)
    requires
        call_ensures(install_audio_module, (&run,), done),
    ensures
        done is Ok <==> run is Ok && run->Ok_0.code == Some(0i32),
        done matches Ok(done) ==> done.ok,
{
}

} // verus!
