//! Answers: what is said of saving, importing and restoring, and how backups are
//! called.

use vstd::prelude::*;

use crate::app_routing::profile_apps::RestoreReportView;
use crate::commands::{
    import_name, is_backup_plan, is_restored, names_json, saved_message, BackupPlan,
    RestoreProfileResult,
};
use crate::laws::folder::{is_date_and_time, taken_names_are_numbered};
use crate::laws::paths::{ends_in_json, is_plain_name, json_files_end_in_json};
use crate::paths::file_name;
use crate::profiles::{backup_name, candidate, restore_backup_name, MAX_ATTEMPT};
use crate::ps::RestoreInfoView;
use crate::settings::Settings;
use crate::text::decimal;

verus! {

/// The answer to a restore adds up the devices that the script restored and the
/// routes of the applications: what was applied, what is missing, and warnings
/// before errors. The message counts what is missing, and only where something
/// is.
pub proof fn restores_are_added_up(
    info: RestoreInfoView,
    report: RestoreReportView,
    reason: Seq<char>,
    result: RestoreProfileResult,
)
    ensures
        is_restored(info, Some(Ok(report)), result) ==> result.applied == info.applied
            + report.applied && result.missing.deep_view() == info.missing + report.missing
            && result.warnings.deep_view() == report.warnings + report.errors,
        is_restored(info, None, result) ==> result.applied == info.applied
            && result.missing.deep_view() == info.missing && result.warnings@.len() == 0,
        is_restored(info, Some(Err(reason)), result) ==> result.applied == info.applied
            && result.missing.deep_view() == info.missing.push(reason) && result.warnings@.len()
            == 0,
        (is_restored(info, Some(Ok(report)), result) || is_restored(info, None, result)
            || is_restored(info, Some(Err(reason)), result)) ==> result.message@ == (
        if result.missing@.len() == 0 {
            "Configuration restaurée"@
        } else {
            "Configuration restaurée"@ + " · "@ + decimal(result.missing@.len())
                + " élément(s) absent(s)"@
        }),
{
    assert(result.warnings.deep_view().len() == result.warnings@.len());
}

/// Saving tells how many applications are routed, where there are any.
pub proof fn saving_tells_the_routed_applications(n: nat)
    ensures
        saved_message(0) == "Profil sauvegardé"@,
        n > 0 ==> saved_message(n) == "Profil sauvegardé"@ + " · "@ + decimal(n)
            + " application(s) routée(s)"@,
{
}

/// A profile is saved only under a path whose last part ends in `.json` behind
/// something else.
pub proof fn profiles_are_saved_as_json(path: Seq<char>)
    ensures
        names_json(path) <==> file_name(path) is Some && ends_in_json(file_name(path)->Some_0),
{
    if let Some(file) = file_name(path) {
        json_files_end_in_json(file);
    }
}

/// An imported profile keeps the name of its file.
pub proof fn imports_keep_their_name(source: Seq<char>)
    ensures
        file_name(source) is Some ==> import_name(source) == file_name(source)->Some_0,
        file_name(source) is None ==> import_name(source) == "profil.json"@,
{
}

/// Is it the name of a backup made at a date and time: with a number from two on
/// where the name itself is taken?
pub open spec fn is_called_after(name: Seq<char>, front: Seq<char>, stamp: Seq<char>) -> bool {
    ||| name == front + stamp + ".json"@
    ||| exists|k: nat|
        k >= 2 && name == front + stamp + seq![' ', '('] + #[trigger] decimal(k) + seq![')', '.']
            + "json"@
}

proof fn names_of_backups(front: Seq<char>, stamp: Seq<char>, attempt: nat)
    requires
        is_date_and_time(stamp),
        forall|i: int|
            0 <= i < front.len() ==> #[trigger] front[i] != '/' && front[i] != '\\' && front[i]
                != ':',
    ensures
        is_called_after(candidate(front + stamp + ".json"@, attempt), front, stamp),
{
    reveal_strlit(".json");
    reveal_strlit("json");
    let stem = front + stamp;
    let ext = "json"@;
    assert(".json"@ =~= seq!['.'] + ext);
    let name = stem + seq!['.'] + ext;
    assert(front + stamp + ".json"@ =~= name);
    assert(is_plain_name(name)) by {
        assert forall|i: int| 0 <= i < name.len() implies #[trigger] name[i] != '/' && name[i]
            != '\\' && name[i] != ':' by {
            if i < front.len() {
                assert(name[i] == front[i]);
            } else if i < stem.len() {
                let k = i - front.len();
                assert(name[i] == stamp[k]);
                assert(stamp[k] == '-' || stamp[k] == ' ' || '0' <= stamp[k] <= '9');
            } else if i > stem.len() {
                assert(name[i] == ext[i - stem.len() - 1]);
            }
        }
        assert(name.len() > 2);
    }
    if attempt >= 2 {
        taken_names_are_numbered(stem, ext, attempt);
        assert(candidate(name, attempt) == front + stamp + seq![' ', '('] + decimal(attempt)
            + seq![')', '.'] + "json"@);
    }
}

/// A backup is planned in the folder of profiles, under its date and time, with
/// a number where that name is taken; as many are kept as the settings say.
pub proof fn backups_are_called_by_date_and_time<F: Fn(&String) -> bool>(
    settings: Settings,
    stamp: Seq<char>,
    taken: F,
    plan: BackupPlan,
)
    requires
        is_date_and_time(stamp),
        is_backup_plan(settings, backup_name(stamp), taken, plan),
    ensures
        plan.folder@ == settings.profiles_folder@,
        plan.keep == settings.keep_versions,
        is_called_after(plan.name@, Seq::empty(), stamp),
{
    let attempt = choose|attempt: nat|
        1 <= attempt <= MAX_ATTEMPT && plan.name@ == #[trigger] candidate(
            backup_name(stamp),
            attempt,
        ) && crate::profiles::all_taken(backup_name(stamp), taken, attempt);
    assert(backup_name(stamp) =~= Seq::<char>::empty() + stamp + ".json"@);
    names_of_backups(Seq::empty(), stamp, attempt);
}

/// A backup before a restore is called so.
pub proof fn backups_before_a_restore_are_called_so<F: Fn(&String) -> bool>(
    settings: Settings,
    stamp: Seq<char>,
    taken: F,
    plan: BackupPlan,
)
    requires
        is_date_and_time(stamp),
        is_backup_plan(settings, restore_backup_name(stamp), taken, plan),
    ensures
        plan.folder@ == settings.profiles_folder@,
        plan.keep == settings.keep_versions,
        is_called_after(plan.name@, "Avant restauration "@, stamp),
{
    let attempt = choose|attempt: nat|
        1 <= attempt <= MAX_ATTEMPT && plan.name@ == #[trigger] candidate(
            restore_backup_name(stamp),
            attempt,
        ) && crate::profiles::all_taken(restore_backup_name(stamp), taken, attempt);
    let front = "Avant restauration "@;
    reveal_strlit("Avant restauration ");
    assert forall|i: int| 0 <= i < front.len() implies #[trigger] front[i] != '/' && front[i]
        != '\\' && front[i] != ':' by {
        if i < 6 {
        } else if i < 12 {
        } else {
        }
    }
    names_of_backups(front, stamp, attempt);
}

} // verus!
