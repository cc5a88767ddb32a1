//! What the commands of the interface decide and answer.

use crate::app_routing::ffi::routing_unavailable_message;
use crate::app_routing::profile_apps::{
    AppPreviewRow, AppSessionRow, RestoreReport, RestoreReportView,
};
use crate::app_routing::profile_file::{is_valid_profile, profile_has_applications};
use crate::app_routing::{parse_flow, DeviceList, Flow};
use crate::clock;
use crate::json::Json;
use crate::paths;
use crate::profiles::{
    backup_file_name, list_profiles, restore_backup_file_name, unique_path, FolderEntry,
    ProfileEntry,
};
use crate::ps::{self, Captured, RestoreInfo, RestoreInfoView};
use crate::settings::{self, Settings};
use crate::text;
use vstd::prelude::*;

use crate::app_routing::ffi::routing_unavailable;
use crate::app_routing::flow_named;
use crate::app_routing::profile_file::{contents_view, has_section, holds_profile};
use crate::clock::{is_file_time, is_stamp_text};
use crate::json::{member, JsonView};
use crate::paths::in_folder;
use crate::profiles::{
    all_taken, backup_name, backup_names_have_their_stamp, candidate, is_profile_list, is_prune,
    newest_backup_is_kept, restore_backup_name, stamp_of, MAX_ATTEMPT,
};
use crate::ps::{decoded_restore_info, install_failure};
use crate::settings::{validated, ERR_PROFILE_PATH};
use crate::text::{decimal, text_le};

verus! {

/// Outcome of saving a profile.
#[derive(Debug)]
pub struct SaveProfileResult {
    pub saved: bool,
    pub path: Option<String>,
    pub message: String,
}

/// Outcome of importing a profile.
#[derive(Debug)]
pub struct ImportProfileResult {
    pub imported: bool,
    pub path: Option<String>,
    pub message: String,
}

/// Outcome of restoring a profile.
#[derive(Debug)]
pub struct RestoreProfileResult {
    pub message: String,
    pub applied: u32,
    pub missing: Vec<String>,
    pub warnings: Vec<String>,
}

/// Outcome of deleting a profile.
#[derive(Debug)]
pub struct DeleteResult {
    pub deleted: bool,
    pub message: String,
}

/// An active device.
#[derive(Debug)]
pub struct DeviceRef {
    pub id: String,
    pub name: String,
}

/// The applications with audio, and the devices that they can be sent to.
#[derive(Debug)]
pub struct AppSessionsResult {
    /// Is there a routing engine on this system?
    pub available: bool,
    /// Why the applications could not be listed.
    pub error: Option<String>,
    pub sessions: Vec<AppSessionRow>,
    pub playback_devices: Vec<DeviceRef>,
    pub recording_devices: Vec<DeviceRef>,
}

/// The folder of profiles and the profiles in it.
#[derive(Debug)]
pub struct ProfilesFolder {
    pub path: String,
    pub profiles: Vec<ProfileEntry>,
}

/// Outcome of installing the audio module.
#[derive(Debug)]
pub struct ModuleResult {
    pub ok: bool,
    pub message: String,
}

impl DeepView for DeviceRef {
    type V = (Seq<char>, Seq<char>);

    open spec fn deep_view(&self) -> (Seq<char>, Seq<char>) {
        (self.id@, self.name@)
    }
}

/// `reason` behind a message.
pub fn explained(message: &str, reason: &str) -> (r: String)
    ensures
        r@ == message@ + " : "@ + reason@,
{
    let mut out = text::owned(message);
    out.append(" : ");
    out.append(reason);
    out
}

/// A message with a count behind it, such as `· 3 application(s)`.
pub open spec fn counted(message: Seq<char>, n: nat, what: Seq<char>) -> Seq<char> {
    message + " · "@ + decimal(n) + what
}

/// A message with a count behind it.
pub fn with_count(message: &str, n: usize, what: &str) -> (r: String)
    ensures
        r@ == counted(message@, n as nat, what@),
{
    let mut out = text::owned(message);
    out.append(" · ");
    out.append(text::decimal_text(n as u64).as_str());
    out.append(what);
    out
}

// ---------------------------------------------------------------------------
// Exporting
// ---------------------------------------------------------------------------

/// Why the script did not export: its message, where its answer does not say
/// that all went well.
pub open spec fn export_refusal(answer: JsonView) -> Option<Seq<char>> {
    if member(answer, "ok"@) == Some(JsonView::Bool(true)) {
        None
    } else {
        match member(answer, "message"@) {
            Some(JsonView::Text(message)) => Some(message),
            _ => Some("Échec de la sauvegarde"@),
        }
    }
}

/// Did the script export? `answer` is what it answered, or why it did not.
pub fn run_export(answer: &Result<Json, String>) -> (r: Result<(), String>)
    ensures
        match *answer {
            Err(reason) => r is Err && r->Err_0@ == reason@,
            Ok(json) => match export_refusal(json.deep_view()) {
                None => r is Ok,
                Some(message) => r is Err && r->Err_0@ == message,
            },
        },
{
    match answer {
        Err(reason) => Err(reason.clone()),
        Ok(json) => {
            let accepted = match json.get("ok") {
                Some(ok) => match ok.as_bool() {
                    Some(ok) => ok,
                    None => false,
                },
                None => false,
            };
            if accepted {
                return Ok(());
            }
            match json.get("message") {
                Some(message) => match message.as_text() {
                    Some(message) => Err(text::owned(message)),
                    None => Err(text::owned("Échec de la sauvegarde")),
                },
                None => Err(text::owned("Échec de la sauvegarde")),
            }
        },
    }
}

/// Number of applications in an exported profile: none where attaching them
/// failed, as the profile is valid without them.
pub fn routed_applications(attached: &Result<usize, String>) -> (r: usize)
    ensures
        r == (match *attached {
            Ok(n) => n,
            Err(_) => 0,
        }),
{
    match attached {
        Ok(n) => *n,
        Err(_) => 0,
    }
}

/// A backup to make: where, and how many to keep afterwards.
#[derive(Debug)]
pub struct BackupPlan {
    pub folder: String,
    pub name: String,
    pub keep: u32,
}

/// Is it the plan of a backup in the folder of profiles, under the first free
/// name for `name`?
pub open spec fn is_backup_plan<F: Fn(&String) -> bool>(
    settings: Settings,
    name: Seq<char>,
    taken: F,
    plan: BackupPlan,
) -> bool {
    &&& plan.folder@ == settings.profiles_folder@
    &&& plan.keep == settings.keep_versions
    &&& call_ensures(taken, (&plan.name,), false)
    &&& exists|attempt: nat|
        1 <= attempt <= MAX_ATTEMPT && plan.name@ == #[trigger] candidate(name, attempt)
            && all_taken(name, taken, attempt)
}

fn plan_under<F: Fn(&String) -> bool>(settings: &Settings, name: &str, taken: F) -> (r: Option<
    BackupPlan,
>)
    requires
        forall|s: &String| call_requires(taken, (s,)),
    ensures
        match r {
            Some(plan) => is_backup_plan(*settings, name@, taken, plan),
            None => all_taken(name@, taken, (MAX_ATTEMPT + 1) as nat),
        },
{
    match unique_path(name, taken) {
        Some(name) => Some(
            BackupPlan {
                folder: settings.profiles_folder.clone(),
                name,
                keep: settings.keep_versions,
            },
        ),
        None => None,
    }
}

/// The backup to make at a stamp; nothing where no name is free. `taken` tells
/// which names are taken in the folder of profiles.
pub fn backup_at<F: Fn(&String) -> bool>(settings: &Settings, stamp: &str, taken: F) -> (r: Option<
    BackupPlan,
>)
    requires
        forall|s: &String| call_requires(taken, (s,)),
    ensures
        match r {
            Some(plan) => is_backup_plan(*settings, backup_name(stamp@), taken, plan),
            None => all_taken(backup_name(stamp@), taken, (MAX_ATTEMPT + 1) as nat),
        },
{
    let name = backup_file_name(stamp);
    plan_under(settings, name.as_str(), taken)
}

/// The backup to make now; nothing where no name is free.
pub fn create_auto_backup<F: Fn(&String) -> bool>(settings: &Settings, taken: F) -> (r: Option<
    BackupPlan,
>)
    requires
        forall|s: &String| call_requires(taken, (s,)),
    ensures
        exists|stamp: Seq<char>| #[trigger]
            is_stamp_text(stamp) && (match r {
                Some(plan) => is_backup_plan(*settings, backup_name(stamp), taken, plan),
                None => all_taken(backup_name(stamp), taken, (MAX_ATTEMPT + 1) as nat),
            }),
{
    let stamp = clock::timestamp();
    backup_at(settings, stamp.as_str(), taken)
}

/// When a backup is made without being asked for.
#[derive(Debug, Clone, Copy)]
pub enum Occasion {
    /// The program starts.
    Start,
    /// A default device changed.
    DevicesChanged,
}

/// Do the settings ask for a backup on the occasion?
pub open spec fn backup_owed(occasion: Occasion, settings: Settings) -> bool {
    match occasion {
        Occasion::Start => settings.auto_save_on_start,
        Occasion::DevicesChanged => settings.watch_devices,
    }
}

/// The backup to make now on an occasion: nothing where the settings do not ask
/// for one, or where no name is free.
pub fn automatic_backup<F: Fn(&String) -> bool>(
    occasion: Occasion,
    settings: &Settings,
    taken: F,
) -> (r: Option<BackupPlan>)
    requires
        forall|s: &String| call_requires(taken, (s,)),
    ensures
        r is Some ==> backup_owed(occasion, *settings),
        backup_owed(occasion, *settings) ==> exists|stamp: Seq<char>| #[trigger]
            is_stamp_text(stamp) && (match r {
                Some(plan) => is_backup_plan(*settings, backup_name(stamp), taken, plan),
                None => all_taken(backup_name(stamp), taken, (MAX_ATTEMPT + 1) as nat),
            }),
{
    let owed = match occasion {
        Occasion::Start => settings.auto_save_on_start,
        Occasion::DevicesChanged => settings.watch_devices,
    };
    if owed {
        create_auto_backup(settings, taken)
    } else {
        None
    }
}

/// The retention that a folder is due: all but the newest backups go.
#[derive(Debug)]
pub struct Retention {
    pub folder: String,
    pub keep: u32,
}

/// Is it the retention that follows the backup of a plan?
pub open spec fn is_retention_of(plan: BackupPlan, retention: Retention) -> bool {
    retention.folder@ == plan.folder@ && retention.keep == plan.keep
}

fn retention_after(plan: &BackupPlan) -> (r: Retention)
    ensures
        is_retention_of(*plan, r),
{
    Retention { folder: plan.folder.clone(), keep: plan.keep }
}

/// A backup that was made: its path, and the retention that is due now.
#[derive(Debug)]
pub struct BackupMade {
    pub path: String,
    pub retention: Retention,
}

/// What a backup comes to once its export was tried: its path and the retention
/// that is due, or why it was not made. Retention is never due where the export
/// failed.
pub fn backup_done(plan: &BackupPlan, exported: &Result<usize, String>) -> (r: Result<
    BackupMade,
    String,
>)
    ensures
        match (r, *exported) {
            (Ok(made), Ok(_)) => made.path@ == in_folder(plan.folder@, plan.name@)
                && is_retention_of(*plan, made.retention),
            (Err(message), Err(reason)) => message@ == reason@,
            _ => false,
        },
{
    match exported {
        Ok(_) => Ok(
            BackupMade {
                path: paths::join(plan.folder.as_str(), plan.name.as_str()),
                retention: retention_after(plan),
            },
        ),
        Err(reason) => Err(reason.clone()),
    }
}

/// An automatic backup that was just made survives the retention that follows
/// it, where no backup in the folder is newer and, if a single one is kept, none
/// is of the same second.
pub proof fn new_backup_survives_retention<F: Fn(&String) -> bool>(
    settings: Settings,
    stamp: Seq<char>,
    taken: F,
    plan: BackupPlan,
    retention: Retention,
    names: Seq<Seq<char>>,
    doomed: Seq<Seq<char>>,
)
    requires
        is_stamp_text(stamp),
        is_backup_plan(settings, backup_name(stamp), taken, plan),
        is_retention_of(plan, retention),
        names.no_duplicates(),
        is_prune(names, retention.keep as nat, doomed),
        forall|other: Seq<char>| #[trigger]
            names.contains(other) && other != plan.name@ && stamp_of(other) is Some ==> text_le(
                stamp_of(other)->Some_0,
                stamp,
            ) && (stamp_of(other)->Some_0 == stamp ==> settings.keep_versions >= 2),
    ensures
        !doomed.contains(plan.name@),
{
    if retention.keep > 0 {
        let attempt = choose|attempt: nat|
            1 <= attempt <= MAX_ATTEMPT && plan.name@ == #[trigger] candidate(
                backup_name(stamp),
                attempt,
            ) && all_taken(backup_name(stamp), taken, attempt);
        backup_names_have_their_stamp(stamp, attempt);
        newest_backup_is_kept(names, retention.keep as nat, doomed, plan.name@);
    }
}

// ---------------------------------------------------------------------------
// Saving
// ---------------------------------------------------------------------------

/// What to do about the place that the user chose for a profile.
#[derive(Debug)]
pub enum SaveStep {
    /// Nothing was chosen; answer this.
    Answer(SaveProfileResult),
    /// The place is refused, with this message.
    Refuse(String),
    /// Export to this path.
    Export(String),
}

/// Does the path name a file with the extension `json`?
pub open spec fn names_json(path: Seq<char>) -> bool {
    paths::file_name(path) is Some && paths::extension(paths::file_name(path)->Some_0) == Some(
        "json"@,
    )
}

fn is_json_path(path: &str) -> (r: bool)
    ensures
        r == names_json(path@),
{
    match paths::file_name_of(path) {
        Some(file) => match paths::extension_of(file) {
            Some(ext) => text::same(ext, "json"),
            None => false,
        },
        None => false,
    }
}

/// Decides on the place that the user chose for a profile.
pub fn save_profile(picked: Option<String>) -> (r: SaveStep)
    ensures
        match (r, picked) {
            (SaveStep::Answer(answer), None) => !answer.saved && answer.path is None
                && answer.message@ == "Sauvegarde annulée."@,
            (SaveStep::Refuse(message), Some(path)) => !names_json(path@) && message@
                == ERR_PROFILE_PATH@,
            (SaveStep::Export(target), Some(path)) => names_json(path@) && target@ == path@,
            _ => false,
        },
{
    match picked {
        None => SaveStep::Answer(
            SaveProfileResult {
                saved: false,
                path: None,
                message: text::owned("Sauvegarde annulée."),
            },
        ),
        Some(path) => {
            if is_json_path(path.as_str()) {
                SaveStep::Export(path)
            } else {
                SaveStep::Refuse(text::owned(settings::ERR_PROFILE_PATH))
            }
        },
    }
}

/// What is said of a saved profile with a number of applications.
pub open spec fn saved_message(routed: nat) -> Seq<char> {
    if routed > 0 {
        counted("Profil sauvegardé"@, routed, " application(s) routée(s)"@)
    } else {
        "Profil sauvegardé"@
    }
}

/// Outcome of saving a profile at a path; `exported` is the number of
/// applications in it, or why it was not exported.
pub fn save_done(path: String, exported: Result<usize, String>) -> (r: Result<
    SaveProfileResult,
    String,
>)
    ensures
        match (r, exported) {
            (Ok(done), Ok(routed)) => done.saved && done.path.deep_view() == Some(path@)
                && done.message@ == saved_message(routed as nat),
            (Err(message), Err(reason)) => message@ == reason@,
            _ => false,
        },
{
    match exported {
        Err(reason) => Err(reason),
        Ok(routed) => {
            let message = if routed > 0 {
                with_count("Profil sauvegardé", routed, " application(s) routée(s)")
            } else {
                text::owned("Profil sauvegardé")
            };
            Ok(SaveProfileResult { saved: true, path: Some(path), message })
        },
    }
}

// ---------------------------------------------------------------------------
// Applications
// ---------------------------------------------------------------------------

fn device_refs(devices: DeviceList) -> (r: Vec<DeviceRef>)
    ensures
        r.deep_view() == devices.deep_view(),
{
    let ghost all = devices@;
    let mut out: Vec<DeviceRef> = Vec::new();
    for device in it: devices
        invariant
            it.seq() == all,
            out@.len() == it.index(),
            forall|j: int|
                0 <= j < it.index() ==> (#[trigger] out@[j]).id == all[j].0 && out@[j].name
                    == all[j].1,
    {
        out.push(DeviceRef { id: device.0, name: device.1 });
    }
    assert(out.deep_view() =~= devices.deep_view());
    out
}

/// The answer to a request for the applications with audio. `listed` is what
/// listing them gave; it does not count where there is no engine.
pub fn app_sessions(
    available: bool,
    playback: DeviceList,
    recording: DeviceList,
    listed: Result<Vec<AppSessionRow>, String>,
) -> (r: AppSessionsResult)
    ensures
        r.available == available,
        r.playback_devices.deep_view() == playback.deep_view(),
        r.recording_devices.deep_view() == recording.deep_view(),
        if !available {
            r.sessions@.len() == 0 && r.error.deep_view() == Some(routing_unavailable())
        } else {
            match listed {
                Ok(rows) => r.sessions == rows && r.error is None,
                Err(reason) => r.sessions@.len() == 0 && r.error.deep_view() == Some(reason@),
            }
        },
{
    let none: Vec<AppSessionRow> = Vec::new();
    let (sessions, error) = if available {
        match listed {
            Ok(rows) => (rows, None),
            Err(reason) => (none, Some(reason)),
        }
    } else {
        (none, Some(routing_unavailable_message()))
    };
    AppSessionsResult {
        available,
        error,
        sessions,
        playback_devices: device_refs(playback),
        recording_devices: device_refs(recording),
    }
}

/// A route to set: of a process, on a flow, to a device or to none.
#[derive(Debug)]
pub struct RouteRequest {
    pub pid: u32,
    pub flow: Flow,
    pub device_id: Option<String>,
}

/// The route to set for a process on a flow that was asked for by name. Nothing
/// is to be set where the flow is not known.
pub fn set_app_route(pid: u32, flow: &str, device_id: Option<String>) -> (r: Result<
    RouteRequest,
    String,
>)
    ensures
        match (r, flow_named(flow@)) {
            (Ok(request), Some(named)) => request.pid == pid && request.flow == named
                && request.device_id == device_id,
            (Err(message), None) => message@
                == "Flux audio inconnu (attendu « output » ou « input »)"@,
            _ => false,
        },
{
    match parse_flow(flow) {
        Err(message) => Err(message),
        Ok(flow) => Ok(RouteRequest { pid, flow, device_id }),
    }
}

/// Outcome of setting a route: `reached` is what the engine's thread gave, or
/// why it could not be reached.
pub fn route_set(reached: Result<Result<(), String>, String>) -> (r: Result<(), String>)
    ensures
        match reached {
            Ok(Ok(_)) => r is Ok,
            Ok(Err(reason)) => r is Err && r->Err_0@ == reason@,
            Err(reason) => r is Err && r->Err_0@ == reason@,
        },
{
    match reached {
        Ok(done) => done,
        Err(reason) => Err(reason),
    }
}

/// The applications that the preview of a profile shows: none where it has no
/// section for them, or one that cannot be used.
pub fn previewed_applications(
    has_applications: bool,
    preview: Result<Vec<AppPreviewRow>, String>,
) -> (r: Vec<AppPreviewRow>)
    ensures
        match preview {
            Ok(rows) => if has_applications {
                r == rows
            } else {
                r@.len() == 0
            },
            Err(_) => r@.len() == 0,
        },
{
    match preview {
        Ok(rows) => {
            if has_applications {
                rows
            } else {
                Vec::new()
            }
        },
        Err(_) => Vec::new(),
    }
}

// ---------------------------------------------------------------------------
// Restoring
// ---------------------------------------------------------------------------

/// Is the profile still there?
pub fn profile_present(is_file: bool) -> (r: Result<(), String>)
    ensures
        match r {
            Ok(_) => is_file,
            Err(message) => !is_file && message@ == "Le profil n'existe plus"@,
        },
{
    if is_file {
        Ok(())
    } else {
        Err(text::owned("Le profil n'existe plus"))
    }
}

/// What to do next to restore a profile.
#[derive(Debug)]
pub enum RestoreStep {
    /// The restore is over; answer this.
    Finished(Result<RestoreProfileResult, String>),
    /// Export the configuration to this backup.
    Export(BackupPlan),
    /// A backup is wanted, but no name is free.
    NoFreeName,
    /// Apply the retention that is due, if any, and run the script.
    RunScript(Option<Retention>),
    /// Restore the routes of the profile; this is what the script restored.
    RestoreRoutes(RestoreInfo),
}

/// Is it the first step of a restore, for a backup at a stamp?
pub open spec fn begins_with<F: Fn(&String) -> bool>(
    is_file: bool,
    settings: Settings,
    stamp: Seq<char>,
    taken: F,
    step: RestoreStep,
) -> bool {
    if !is_file {
        step matches RestoreStep::Finished(Err(message)) && message@ == "Le profil n'existe plus"@
    } else if !settings.backup_before_restore {
        step matches RestoreStep::RunScript(retention) && retention is None
    } else {
        match step {
            RestoreStep::Export(plan) => is_backup_plan(
                settings,
                restore_backup_name(stamp),
                taken,
                plan,
            ),
            RestoreStep::NoFreeName => all_taken(
                restore_backup_name(stamp),
                taken,
                (MAX_ATTEMPT + 1) as nat,
            ),
            _ => false,
        }
    }
}

/// First step of a restore, for a backup at a stamp: a profile that is gone is
/// not restored, and where the settings ask for it the configuration is exported
/// first. `taken` tells which names are taken in the folder of profiles.
pub fn restore_begins_at<F: Fn(&String) -> bool>(
    is_file: bool,
    settings: &Settings,
    stamp: &str,
    taken: F,
) -> (r: RestoreStep)
    requires
        forall|s: &String| call_requires(taken, (s,)),
    ensures
        begins_with(is_file, *settings, stamp@, taken, r),
{
    match profile_present(is_file) {
        Err(message) => return RestoreStep::Finished(Err(message)),
        Ok(_) => {},
    }
    if !settings.backup_before_restore {
        return RestoreStep::RunScript(None);
    }
    let name = restore_backup_file_name(stamp);
    match plan_under(settings, name.as_str(), taken) {
        Some(plan) => RestoreStep::Export(plan),
        None => RestoreStep::NoFreeName,
    }
}

/// First step of a restore that begins now.
pub fn restore_begins<F: Fn(&String) -> bool>(is_file: bool, settings: &Settings, taken: F) -> (r:
    RestoreStep)
    requires
        forall|s: &String| call_requires(taken, (s,)),
    ensures
        exists|stamp: Seq<char>| #[trigger]
            is_stamp_text(stamp) && begins_with(is_file, *settings, stamp, taken, r),
{
    let stamp = clock::timestamp();
    restore_begins_at(is_file, settings, stamp.as_str(), taken)
}

/// Is it the step after the export of a backup? The script runs only where the
/// export succeeded, once retention was applied.
pub open spec fn follows_export(
    plan: BackupPlan,
    exported: Result<usize, String>,
    step: RestoreStep,
) -> bool {
    match (exported, step) {
        (Ok(_), RestoreStep::RunScript(Some(retention))) => is_retention_of(plan, retention),
        (Err(reason), RestoreStep::Finished(Err(message))) => message@ == reason@,
        _ => false,
    }
}

/// Step after the export of a backup.
pub fn restore_after_export(plan: &BackupPlan, exported: Result<usize, String>) -> (r: RestoreStep)
    ensures
        follows_export(*plan, exported, r),
{
    match exported {
        Ok(_) => RestoreStep::RunScript(Some(retention_after(plan))),
        Err(reason) => RestoreStep::Finished(Err(reason)),
    }
}

/// What the script restored. `answer` is what it answered, or why it did not.
pub open spec fn answered(answer: Result<Json, String>) -> Result<RestoreInfoView, Seq<char>> {
    match answer {
        Err(reason) => Err(reason@),
        Ok(json) => match decoded_restore_info(json.deep_view()) {
            Err(reason) => Err("Réponse audio invalide"@ + " : "@ + reason),
            Ok(info) => if info.ok {
                Ok(info)
            } else {
                Err("La restauration a échoué"@)
            },
        },
    }
}

/// What the script restored.
pub fn restore_answer(answer: &Result<Json, String>) -> (r: Result<RestoreInfo, String>)
    ensures
        match (r, answered(*answer)) {
            (Ok(info), Ok(expected)) => info.deep_view() == expected,
            (Err(message), Err(expected)) => message@ == expected,
            _ => false,
        },
{
    match answer {
        Err(reason) => Err(reason.clone()),
        Ok(json) => match ps::restore_info_from_json(json) {
            Err(reason) => Err(explained("Réponse audio invalide", reason.as_str())),
            Ok(info) => {
                if info.ok {
                    Ok(info)
                } else {
                    Err(text::owned("La restauration a échoué"))
                }
            },
        },
    }
}

/// Is it the step after the script ran? The routes are restored where the
/// profile, whose content is `contents`, has a section for them.
pub open spec fn follows_script(
    answer: Result<Json, String>,
    contents: Result<Vec<u8>, String>,
    step: RestoreStep,
) -> bool {
    match answered(answer) {
        Err(reason) => step matches RestoreStep::Finished(Err(message)) && message@ == reason,
        Ok(info) => if has_section(contents_view(contents)) {
            step matches RestoreStep::RestoreRoutes(restored) && restored.deep_view() == info
        } else {
            step matches RestoreStep::Finished(Ok(result)) && is_restored(info, None, result)
        },
    }
}

/// Step after the script ran.
pub fn restore_after_script(
    answer: &Result<Json, String>,
    contents: &Result<Vec<u8>, String>,
) -> (r: RestoreStep)
    ensures
        follows_script(*answer, *contents, r),
{
    match restore_answer(answer) {
        Err(message) => RestoreStep::Finished(Err(message)),
        Ok(info) => {
            if profile_has_applications(contents) {
                RestoreStep::RestoreRoutes(info)
            } else {
                RestoreStep::Finished(Ok(restore_profile(info, None)))
            }
        },
    }
}

/// Is it the step after the routes were restored?
pub open spec fn follows_routes(
    info: RestoreInfoView,
    routes: Result<RestoreReport, String>,
    step: RestoreStep,
) -> bool {
    step matches RestoreStep::Finished(Ok(result)) && is_restored(
        info,
        routes_view(Some(routes)),
        result,
    )
}

/// Step after the routes were restored; `info` is what the script restored.
pub fn restore_after_routes(info: RestoreInfo, routes: Result<RestoreReport, String>) -> (r:
    RestoreStep)
    requires
        restored(info.deep_view(), routes_view(Some(routes))).0 <= u32::MAX,
    ensures
        follows_routes(info.deep_view(), routes, r),
{
    RestoreStep::Finished(Ok(restore_profile(info, Some(routes))))
}

/// What is said of a restore that left a number of things out.
pub open spec fn restored_message(missing: nat) -> Seq<char> {
    if missing > 0 {
        counted("Configuration restaurée"@, missing, " élément(s) absent(s)"@)
    } else {
        "Configuration restaurée"@
    }
}

fn append_all(list: &mut Vec<String>, more: Vec<String>)
    ensures
        final(list).deep_view() == old(list).deep_view() + more.deep_view(),
{
    let ghost before = list.deep_view();
    let mut tail = more;
    list.append(&mut tail);
    assert(list.deep_view() =~= before + more.deep_view());
}

/// The answer to a restore: `info` is what the script restored, `routes` what
/// came of the applications, where the profile has a section for them.
pub open spec fn restored(
    info: RestoreInfoView,
    routes: Option<Result<RestoreReportView, Seq<char>>>,
) -> (int, Seq<Seq<char>>, Seq<Seq<char>>) {
    match routes {
        None => (info.applied as int, info.missing, Seq::empty()),
        Some(Ok(report)) => (
            info.applied + report.applied,
            info.missing + report.missing,
            report.warnings + report.errors,
        ),
        Some(Err(reason)) => (info.applied as int, info.missing.push(reason), Seq::empty()),
    }
}

/// What came of the applications, as contracts speak of it.
pub open spec fn routes_view(routes: Option<Result<RestoreReport, String>>) -> Option<
    Result<RestoreReportView, Seq<char>>,
> {
    match routes {
        None => None,
        Some(Ok(report)) => Some(Ok(report.deep_view())),
        Some(Err(reason)) => Some(Err(reason@)),
    }
}

/// Is it the answer to a restore: devices that the script restored and routes of
/// applications together, with what is missing counted in the message?
pub open spec fn is_restored(
    info: RestoreInfoView,
    routes: Option<Result<RestoreReportView, Seq<char>>>,
    result: RestoreProfileResult,
) -> bool {
    &&& (result.applied as int, result.missing.deep_view(), result.warnings.deep_view())
        == restored(info, routes)
    &&& result.message@ == restored_message(result.missing@.len())
}

/// The answer to a restore.
pub fn restore_profile(info: RestoreInfo, routes: Option<Result<RestoreReport, String>>) -> (r:
    RestoreProfileResult)
    requires
        restored(info.deep_view(), routes_view(routes)).0 <= u32::MAX,
    ensures
        is_restored(info.deep_view(), routes_view(routes), r),
{
    let mut applied: u32 = info.applied;
    let mut missing = info.missing;
    let mut warnings: Vec<String> = Vec::new();
    assert(warnings.deep_view() =~= Seq::<Seq<char>>::empty());
    match routes {
        None => {},
        Some(Ok(report)) => {
            applied = applied + report.applied;
            append_all(&mut missing, report.missing);
            append_all(&mut warnings, report.warnings);
            append_all(&mut warnings, report.errors);
            assert(warnings.deep_view() =~= report.warnings.deep_view()
                + report.errors.deep_view());
        },
        Some(Err(reason)) => {
            let ghost before = missing.deep_view();
            missing.push(reason);
            assert(missing.deep_view() =~= before.push(reason@));
        },
    }
    let message = if missing.len() > 0 {
        with_count("Configuration restaurée", missing.len(), " élément(s) absent(s)")
    } else {
        text::owned("Configuration restaurée")
    };
    RestoreProfileResult { message, applied, missing, warnings }
}

/// What comes of a step of a restore.
pub enum RestoreEvent {
    /// The export of the backup, with the number of applications in it.
    Exported(Result<usize, String>),
    /// The answer of the script, and the content of the profile then.
    Answered(Result<Json, String>, Result<Vec<u8>, String>),
    /// The report on the routes.
    Routed(Result<RestoreReport, String>),
}

/// Does one step follow another, after what came of that?
pub open spec fn follows(step: RestoreStep, event: RestoreEvent, next: RestoreStep) -> bool {
    match (step, event) {
        (RestoreStep::Export(plan), RestoreEvent::Exported(exported)) => follows_export(
            plan,
            exported,
            next,
        ),
        (RestoreStep::RunScript(_), RestoreEvent::Answered(answer, contents)) => follows_script(
            answer,
            contents,
            next,
        ),
        (RestoreStep::RestoreRoutes(info), RestoreEvent::Routed(routes)) => follows_routes(
            info.deep_view(),
            routes,
            next,
        ),
        _ => false,
    }
}

/// Are these the steps of a restore, with what came of each but the last?
pub open spec fn is_restore_run<F: Fn(&String) -> bool>(
    is_file: bool,
    settings: Settings,
    stamp: Seq<char>,
    taken: F,
    events: Seq<RestoreEvent>,
    steps: Seq<RestoreStep>,
) -> bool {
    &&& steps.len() == events.len() + 1
    &&& begins_with(is_file, settings, stamp, taken, steps[0])
    &&& forall|i: int|
        0 <= i < events.len() ==> follows(steps[i], #[trigger] events[i], steps[i + 1])
}

/// The script is run only for a profile that is there, and where the settings
/// ask for a backup only after the configuration was exported to it.
pub proof fn script_waits_for_the_backup<F: Fn(&String) -> bool>(
    is_file: bool,
    settings: Settings,
    stamp: Seq<char>,
    taken: F,
    events: Seq<RestoreEvent>,
    steps: Seq<RestoreStep>,
    i: int,
)
    requires
        is_restore_run(is_file, settings, stamp, taken, events, steps),
        0 <= i < steps.len(),
        steps[i] is RunScript,
    ensures
        is_file,
        settings.backup_before_restore ==> i == 1 && (steps[0] matches RestoreStep::Export(plan)
            && is_backup_plan(settings, restore_backup_name(stamp), taken, plan)) && (
        events[0] matches RestoreEvent::Exported(exported) && exported is Ok),
        !settings.backup_before_restore ==> i == 0,
{
    if i > 0 {
        assert(follows(steps[i - 1], events[i - 1], steps[i]));
        if i > 1 {
            assert(follows(steps[i - 2], events[i - 2], steps[i - 1]));
        }
    }
}

/// Nothing is restored where the profile is gone or the export of the backup
/// failed: the restore is over at once, with the reason.
pub proof fn failed_preparation_restores_nothing<F: Fn(&String) -> bool>(
    is_file: bool,
    settings: Settings,
    stamp: Seq<char>,
    taken: F,
    events: Seq<RestoreEvent>,
    steps: Seq<RestoreStep>,
)
    requires
        is_restore_run(is_file, settings, stamp, taken, events, steps),
    ensures
        !is_file ==> steps.len() == 1 && (steps[0] matches RestoreStep::Finished(Err(message))
            && message@ == "Le profil n'existe plus"@),
        events.len() > 0 && (events[0] matches RestoreEvent::Exported(exported) && exported is Err)
            ==> steps.len() == 2 && (steps[1] matches RestoreStep::Finished(Err(message))
            && message@ == events[0]->Exported_0->Err_0@),
        forall|i: int|
            0 <= i < steps.len() && (#[trigger] steps[i]) is RestoreRoutes ==> i > 0 && steps[i - 1]
                is RunScript,
{
    if events.len() > 0 {
        assert(follows(steps[0], events[0], steps[1]));
    }
    if events.len() > 1 {
        assert(follows(steps[1], events[1], steps[2]));
    }
    assert forall|i: int| 0 <= i < steps.len() && (#[trigger] steps[i]) is RestoreRoutes implies i
        > 0 && steps[i - 1] is RunScript by {
        if i > 0 {
            assert(follows(steps[i - 1], events[i - 1], steps[i]));
        }
    }
}

// ---------------------------------------------------------------------------
// Deleting and importing
// ---------------------------------------------------------------------------

/// Outcome of deleting a profile: `is_file` says whether it was there,
/// `removed` what removing it then gave.
pub fn delete_profile(is_file: bool, removed: Result<(), String>) -> (r: Result<
    DeleteResult,
    String,
>)
    ensures
        if !is_file {
            r is Err && r->Err_0@ == "Le profil n'existe plus"@
        } else {
            match removed {
                Ok(_) => r is Ok && r->Ok_0.deleted && r->Ok_0.message@ == "Profil supprimé"@,
                Err(reason) => r is Err && r->Err_0@ == "Suppression impossible"@ + " : "@
                    + reason@,
            }
        },
{
    match profile_present(is_file) {
        Err(message) => Err(message),
        Ok(_) => match removed {
            Ok(_) => Ok(DeleteResult { deleted: true, message: text::owned("Profil supprimé") }),
            Err(reason) => Err(explained("Suppression impossible", reason.as_str())),
        },
    }
}

/// What to do about the file that the user chose to import.
#[derive(Debug)]
pub enum ImportStep {
    /// Nothing was chosen; answer this.
    Answer(ImportProfileResult),
    /// The file is refused, with this message.
    Refuse(String),
    /// Copy the file to the folder of profiles, under this name or the first
    /// free one after it.
    Copy(String),
}

/// The name under which a file is imported: its own.
pub open spec fn import_name(source: Seq<char>) -> Seq<char> {
    match paths::file_name(source) {
        Some(name) => name,
        None => "profil.json"@,
    }
}

/// Decides on the file that the user chose to import; `contents` is what it
/// holds, or why it could not be read.
pub fn import_profile(picked: Option<&str>, contents: &Result<Vec<u8>, String>) -> (r: ImportStep)
    ensures
        match (r, picked) {
            (ImportStep::Answer(answer), None) => !answer.imported && answer.path is None
                && answer.message@ == "Importation annulée."@,
            (ImportStep::Refuse(message), Some(_)) => !holds_profile(contents_view(*contents))
                && message@ == "Ce fichier n’est pas un profil JSON valide"@,
            (ImportStep::Copy(name), Some(source)) => holds_profile(contents_view(*contents))
                && name@ == import_name(source@),
            _ => false,
        },
{
    match picked {
        None => ImportStep::Answer(
            ImportProfileResult {
                imported: false,
                path: None,
                message: text::owned("Importation annulée."),
            },
        ),
        Some(source) => {
            if !is_valid_profile(contents) {
                return ImportStep::Refuse(
                    text::owned("Ce fichier n’est pas un profil JSON valide"),
                );
            }
            match paths::file_name_of(source) {
                Some(name) => ImportStep::Copy(text::owned(name)),
                None => ImportStep::Copy(text::owned("profil.json")),
            }
        },
    }
}

/// Outcome of importing a profile to a path; `copied` is what copying gave.
pub fn import_done(path: String, copied: Result<(), String>) -> (r: Result<
    ImportProfileResult,
    String,
>)
    ensures
        match (r, copied) {
            (Ok(done), Ok(_)) => done.imported && done.path.deep_view() == Some(path@)
                && done.message@ == "Profil importé"@,
            (Err(message), Err(reason)) => message@ == "Copie du profil impossible"@ + " : "@
                + reason@,
            _ => false,
        },
{
    match copied {
        Ok(_) => Ok(
            ImportProfileResult {
                imported: true,
                path: Some(path),
                message: text::owned("Profil importé"),
            },
        ),
        Err(reason) => Err(explained("Copie du profil impossible", reason.as_str())),
    }
}

// ---------------------------------------------------------------------------
// Folder, settings and module
// ---------------------------------------------------------------------------

/// Is a folder of profiles there? `created` is what creating it gave.
pub fn folder_ready(created: Result<(), String>) -> (r: Result<(), String>)
    ensures
        match (r, created) {
            (Ok(_), Ok(_)) => true,
            (Err(message), Err(reason)) => message@ == ERR_PROFILE_PATH@ + " : "@ + reason@,
            _ => false,
        },
{
    match created {
        Ok(_) => Ok(()),
        Err(reason) => Err(explained(settings::ERR_PROFILE_PATH, reason.as_str())),
    }
}

/// The folder of profiles and the profiles in it; `listing` has the entries of
/// the folder, or the reason why it could not be opened.
pub fn profiles_folder(path: String, listing: &Result<Vec<FolderEntry>, String>) -> (r: Result<
    ProfilesFolder,
    String,
>)
    requires
        *listing matches Ok(entries) ==> forall|i: int|
            0 <= i < entries@.len() && (#[trigger] entries@[i]).facts is Some
                && entries@[i].facts->Some_0.modified is Some ==> is_file_time(
                entries@[i].facts->Some_0.modified->Some_0,
            ),
    ensures
        match (r, *listing) {
            (Ok(folder), Ok(entries)) => folder.path@ == path@ && is_profile_list(
                entries@,
                folder.profiles.deep_view(),
            ),
            (Err(message), Err(reason)) => message@
                == "Ouverture du dossier des profils impossible : "@ + reason@,
            _ => false,
        },
{
    match list_profiles(listing) {
        Ok(profiles) => Ok(ProfilesFolder { path, profiles }),
        Err(message) => Err(message),
    }
}

/// The settings to keep when new ones are given; `created` tells what came of
/// creating their folder.
pub fn update_settings(new_settings: Settings, created: Result<(), String>) -> (r: Result<
    Settings,
    String,
>)
    ensures
        match validated(new_settings.deep_view()) {
            None => r is Err && r->Err_0@ == ERR_PROFILE_PATH@,
            Some(expected) => match created {
                Ok(_) => r is Ok && r->Ok_0.deep_view() == expected,
                Err(reason) => r is Err && r->Err_0@ == ERR_PROFILE_PATH@ + " : "@ + reason@,
            },
        },
{
    match settings::validate(new_settings) {
        Err(message) => Err(message),
        Ok(settings) => match folder_ready(created) {
            Ok(_) => Ok(settings),
            Err(message) => Err(message),
        },
    }
}

/// Outcome of installing the audio module. `run` is what the command gave, or
/// why it could not be run.
pub fn install_audio_module(run: &Result<Captured, String>) -> (r: Result<ModuleResult, String>)
    ensures
        match *run {
            Err(reason) => r is Err && r->Err_0@ == reason@,
            Ok(captured) => if captured.code == Some(0i32) {
                r is Ok && r->Ok_0.ok && r->Ok_0.message@ == "Module AudioDeviceCmdlets installé."@
            } else {
                r is Err && r->Err_0@ == install_failure(captured.stderr@, captured.code)
            },
        },
{
    match ps::install_audio_module(run) {
        Ok(message) => Ok(ModuleResult { ok: true, message }),
        Err(message) => Err(message),
    }
}

} // verus!
