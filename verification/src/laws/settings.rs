//! Settings: what is kept of them, and what they are at first.

use vstd::prelude::*;

use crate::commands::{backup_owed, Occasion};
use crate::paths::in_folder;
use crate::settings::{initial, initial_folder, validated, Settings, SettingsView};
use crate::text::{is_white, trimmed};

verus! {

/// Settings are refused exactly where their folder is empty or white space;
/// else they are kept as they are, but for the white space around the folder.
pub proof fn settings_are_kept_as_they_are(settings: SettingsView)
    ensures
        validated(settings) is None <==> forall|i: int|
            0 <= i < settings.profiles_folder.len() ==> is_white(
                #[trigger] settings.profiles_folder[i],
            ),
        validated(settings) matches Some(kept) ==> kept.profiles_folder == trimmed(
            settings.profiles_folder,
        ) && kept.backup_before_restore == settings.backup_before_restore && kept.auto_save_on_start
            == settings.auto_save_on_start && kept.keep_versions == settings.keep_versions
            && kept.watch_devices == settings.watch_devices,
{
    let folder = settings.profiles_folder;
    crate::laws::text::trimming_takes_white_space_only(folder);
    let (from, to) = choose|from: int, to: int|
        0 <= from <= to <= folder.len() && trimmed(folder) == #[trigger] folder.subrange(from, to)
            && (forall|i: int|
            0 <= i < from || to <= i < folder.len() ==> is_white(#[trigger] folder[i])) && (from
            < to ==> !is_white(folder[from]) && !is_white(folder[to - 1]));
    assert(trimmed(folder).len() == to - from);
    if from < to {
        assert(!is_white(folder[from]));
    }
}

/// At first a backup is made before a restore and ten versions are kept; nothing
/// else is done unasked.
pub proof fn first_settings(folder: Seq<char>)
    ensures
        initial(folder).profiles_folder == folder,
        initial(folder).backup_before_restore,
        !initial(folder).auto_save_on_start,
        !initial(folder).watch_devices,
        initial(folder).keep_versions == 10,
{
}

/// The first folder of profiles is in the documents of the user, or in their own
/// folder where there are no documents.
pub proof fn first_folder(user: Seq<char>)
    ensures
        initial_folder(Some(user), true) == Some(
            in_folder(in_folder(user, "Documents"@), "Audio Profiles"@),
        ),
        initial_folder(Some(user), false) == Some(in_folder(user, "Audio Profiles"@)),
        initial_folder(None, true) is None,
        initial_folder(None, false) is None,
{
}

/// A backup is made at the start exactly where the settings ask for it then, and
/// on a change exactly where they ask for it then.
pub proof fn backups_are_made_when_asked_for(settings: Settings)
    ensures
        backup_owed(Occasion::Start, settings) == settings.auto_save_on_start,
        backup_owed(Occasion::DevicesChanged, settings) == settings.watch_devices,
{
}

} // verus!
