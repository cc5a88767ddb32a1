//! What contracts see of a value is what it holds, field by field.

use vstd::prelude::*;

use crate::app_routing::export::{Identified, RouteReading};
use crate::app_routing::profile_apps::{
    AppPreviewRow, AppSessionRow, ApplicationEntry, ProcInfo, RestoreReport, RouteTarget,
    TargetPreview,
};
use crate::app_routing::restore::RouteWrite;
use crate::app_routing::watch::WatchState;
use crate::profiles::ProfileEntry;
use crate::ps::RestoreInfo;
use crate::settings::Settings;

verus! {

/// A row of the list of applications.
pub proof fn rows_are_seen_whole(row: AppSessionRow)
    ensures
        row.deep_view().pid == row.pid,
        row.deep_view().process_name == row.process_name@,
        row.deep_view().executable_path == row.executable_path.deep_view(),
        row.deep_view().playing == row.playing,
        row.deep_view().output == row.output.deep_view(),
        row.deep_view().input == row.input.deep_view(),
{
}

/// An entry of a profile, and its targets.
pub proof fn entries_are_seen_whole(entry: ApplicationEntry, target: RouteTarget)
    ensures
        entry.deep_view().process_name == entry.process_name@,
        entry.deep_view().executable_path == entry.executable_path.deep_view(),
        entry.deep_view().output == entry.output.deep_view(),
        entry.deep_view().input == entry.input.deep_view(),
        target.deep_view().device_id == target.device_id@,
        target.deep_view().device_name == target.device_name.deep_view(),
{
}

/// A running process, alone and with its lower-case forms, and a reading of its
/// route.
pub proof fn processes_are_seen_whole(
    process: ProcInfo,
    identified: Identified,
    reading: RouteReading,
)
    ensures
        process.deep_view().pid == process.pid,
        process.deep_view().name == process.name@,
        process.deep_view().exe == process.exe.deep_view(),
        identified.deep_view().info == identified.info.deep_view(),
        identified.deep_view().exe_lower == identified.exe_lower@,
        identified.deep_view().name_lower == identified.name_lower@,
        reading.deep_view().pid == reading.pid,
        reading.deep_view().flow == reading.flow,
        reading.route matches Ok(route) ==> reading.deep_view().route == Ok::<
            Option<Seq<char>>,
            Seq<char>,
        >(route.deep_view()),
        reading.route matches Err(reason) ==> reading.deep_view().route == Err::<
            Option<Seq<char>>,
            Seq<char>,
        >(reason@),
{
}

/// A row of a preview, and its targets.
pub proof fn previews_are_seen_whole(row: AppPreviewRow, target: TargetPreview)
    ensures
        row.deep_view().process_name == row.process_name@,
        row.deep_view().executable_path == row.executable_path.deep_view(),
        row.deep_view().running == row.running,
        row.deep_view().output == row.output.deep_view(),
        row.deep_view().input == row.input.deep_view(),
        target.deep_view().device_id == target.device_id@,
        target.deep_view().device_name == target.device_name.deep_view(),
        target.deep_view().present == target.present,
{
}

/// A route to write, the report of a restore and what the script restored.
pub proof fn restores_are_seen_whole(write: RouteWrite, report: RestoreReport, info: RestoreInfo)
    ensures
        write.deep_view().pid == write.pid,
        write.deep_view().flow == write.flow,
        write.deep_view().device_id == write.device_id@,
        report.deep_view().applied == report.applied,
        report.deep_view().missing == report.missing.deep_view(),
        report.deep_view().warnings == report.warnings.deep_view(),
        report.deep_view().errors == report.errors.deep_view(),
        info.deep_view().ok == info.ok,
        info.deep_view().applied == info.applied,
        info.deep_view().missing == info.missing.deep_view(),
{
}

/// A profile of the folder, the settings and the state of the watch.
pub proof fn states_are_seen_whole(entry: ProfileEntry, settings: Settings, state: WatchState)
    ensures
        entry.deep_view().name == entry.name@,
        entry.deep_view().path == entry.path@,
        entry.deep_view().modified == entry.modified@,
        entry.deep_view().size == entry.size,
        settings.deep_view().profiles_folder == settings.profiles_folder@,
        settings.deep_view().backup_before_restore == settings.backup_before_restore,
        settings.deep_view().auto_save_on_start == settings.auto_save_on_start,
        settings.deep_view().keep_versions == settings.keep_versions,
        settings.deep_view().watch_devices == settings.watch_devices,
        state.deep_view().current == (state.current.0@, state.current.1@),
        state.deep_view().last_notified == (state.last_notified.0@, state.last_notified.1@),
{
}

} // verus!
