//! Settings of the program.

use crate::paths;
use crate::text;
use vstd::prelude::*;

use crate::paths::in_folder;
use crate::text::trimmed;

verus! {

/// Folder of the program under the user's application data.
pub const APP_DATA_FOLDER: &'static str = "Audio Config Manager";

/// File that holds the settings.
pub const SETTINGS_FILE: &'static str = "settings.json";

/// Folder of profiles that is used unless another is chosen.
pub const DEFAULT_PROFILES_FOLDER_NAME: &'static str = "Audio Profiles";

/// Message where the folder of the program cannot be told.
pub const ERR_CONFIG_DIR: &'static str = "Dossier de configuration introuvable";

/// Message where a profile path is refused.
pub const ERR_PROFILE_PATH: &'static str = "Chemin de profil refusé";

/// Settings of the program.
#[derive(Debug, PartialEq)]
pub struct Settings {
    /// Folder in which profiles are kept.
    pub profiles_folder: String,
    /// Make a backup before every restore?
    pub backup_before_restore: bool,
    /// Make a backup when the program starts?
    pub auto_save_on_start: bool,
    /// Number of backups to keep (zero: all).
    pub keep_versions: u32,
    /// Make a backup when a default device changes?
    pub watch_devices: bool,
}

/// Settings, as contracts speak of them.
pub struct SettingsView {
    pub profiles_folder: Seq<char>,
    pub backup_before_restore: bool,
    pub auto_save_on_start: bool,
    pub keep_versions: u32,
    pub watch_devices: bool,
}

impl DeepView for Settings {
    type V = SettingsView;

    open spec fn deep_view(&self) -> SettingsView {
        SettingsView {
            profiles_folder: self.profiles_folder@,
            backup_before_restore: self.backup_before_restore,
            auto_save_on_start: self.auto_save_on_start,
            keep_versions: self.keep_versions,
            watch_devices: self.watch_devices,
        }
    }
}

impl Clone for Settings {
    fn clone(&self) -> (r: Settings)
        ensures
            r.deep_view() == self.deep_view(),
    {
        Settings {
            profiles_folder: self.profiles_folder.clone(),
            backup_before_restore: self.backup_before_restore,
            auto_save_on_start: self.auto_save_on_start,
            keep_versions: self.keep_versions,
            watch_devices: self.watch_devices,
        }
    }
}

/// The settings that hold before any are made, with a folder of profiles.
pub open spec fn initial(folder: Seq<char>) -> SettingsView {
    SettingsView {
        profiles_folder: folder,
        backup_before_restore: true,
        auto_save_on_start: false,
        keep_versions: 10,
        watch_devices: false,
    }
}

/// The settings that hold for a user who is not known. Those of a known user
/// have a folder in their documents: see `initial_settings`.
impl Default for Settings {
    fn default() -> (r: Settings)
        ensures
            r.deep_view() == initial("Audio Profiles"@),
    {
        Settings {
            profiles_folder: text::owned("Audio Profiles"),
            backup_before_restore: true,
            auto_save_on_start: false,
            keep_versions: 10,
            watch_devices: false,
        }
    }
}

/// The folder of profiles that is used unless another is chosen: in the
/// documents of the user where they have any, else in the user's own folder;
/// nothing where that is not known.
pub open spec fn initial_folder(
    user_profile: Option<Seq<char>>,
    has_documents: bool,
) -> Option<Seq<char>> {
    match user_profile {
        None => None,
        Some(user) => {
            let base = if has_documents {
                in_folder(user, "Documents"@)
            } else {
                user
            };
            Some(in_folder(base, DEFAULT_PROFILES_FOLDER_NAME@))
        },
    }
}

/// The folder that holds a user's documents.
pub fn documents_folder(user_profile: &str) -> (r: String)
    ensures
        r@ == in_folder(user_profile@, "Documents"@),
{
    paths::join(user_profile, "Documents")
}

/// The folder of profiles that is used unless another is chosen.
pub fn default_profiles_folder(user_profile: Option<&str>, has_documents: bool) -> (r: Option<
    String,
>)
    ensures
        r.deep_view() == initial_folder(user_profile.deep_view(), has_documents),
{
    match user_profile {
        None => None,
        Some(user) => {
            let base = if has_documents {
                documents_folder(user)
            } else {
                text::owned(user)
            };
            Some(paths::join(base.as_str(), DEFAULT_PROFILES_FOLDER_NAME))
        },
    }
}

/// The settings that hold before any are made, for a user.
pub fn initial_settings(user_profile: Option<&str>, has_documents: bool) -> (r: Settings)
    ensures
        r.deep_view() == initial(
            match initial_folder(user_profile.deep_view(), has_documents) {
                Some(folder) => folder,
                None => "Audio Profiles"@,
            },
        ),
{
    let settings = Settings::default();
    match default_profiles_folder(user_profile, has_documents) {
        Some(folder) => Settings {
            profiles_folder: folder,
            backup_before_restore: settings.backup_before_restore,
            auto_save_on_start: settings.auto_save_on_start,
            keep_versions: settings.keep_versions,
            watch_devices: settings.watch_devices,
        },
        None => settings,
    }
}

/// The folder of the program, under the user's application data.
pub fn config_dir(app_data: Option<&str>) -> (r: Result<String, String>)
    ensures
        match (r, app_data) {
            (Ok(folder), Some(base)) => folder@ == in_folder(base@, APP_DATA_FOLDER@),
            (Err(message), None) => message@ == ERR_CONFIG_DIR@,
            _ => false,
        },
{
    match app_data {
        Some(base) => Ok(paths::join(base, APP_DATA_FOLDER)),
        None => Err(text::owned(ERR_CONFIG_DIR)),
    }
}

/// What to do with the settings that were read.
#[derive(Debug)]
pub enum LoadStep {
    /// Use them.
    Use(Settings),
    /// There are none yet: save these and use them.
    Create(Settings),
    /// They cannot be used, for this reason.
    Refuse(String),
}

/// Decides on the settings that were read: `read` is nothing where the file at
/// `path` could not be read, else what its content stands for.
pub fn load(path: &str, read: Option<Result<Settings, String>>, initial: Settings) -> (r: LoadStep)
    ensures
        match (r, read) {
            (LoadStep::Use(settings), Some(Ok(found))) => settings == found,
            (LoadStep::Create(settings), None) => settings == initial,
            (LoadStep::Refuse(message), Some(Err(reason))) => message@
                == "Paramètres illisibles ("@ + path@ + "): "@ + reason@,
            _ => false,
        },
{
    match read {
        None => LoadStep::Create(initial),
        Some(Ok(found)) => LoadStep::Use(found),
        Some(Err(reason)) => {
            let mut message = text::owned("Paramètres illisibles (");
            message.append(path);
            message.append("): ");
            message.append(reason.as_str());
            LoadStep::Refuse(message)
        },
    }
}

/// Settings as they are kept: the white space around the folder is dropped, and
/// settings without a folder are refused.
pub open spec fn validated(settings: SettingsView) -> Option<SettingsView> {
    let folder = trimmed(settings.profiles_folder);
    if folder.len() == 0 {
        None
    } else {
        Some(SettingsView { profiles_folder: folder, ..settings })
    }
}

/// Settings as they are kept; those without a folder are refused.
pub fn validate(settings: Settings) -> (r: Result<Settings, String>)
    ensures
        match (r, validated(settings.deep_view())) {
            (Ok(kept), Some(expected)) => kept.deep_view() == expected,
            (Err(message), None) => message@ == ERR_PROFILE_PATH@,
            _ => false,
        },
{
    let folder = text::owned(text::trim(settings.profiles_folder.as_str()));
    if folder.as_str().is_empty() {
        return Err(text::owned(ERR_PROFILE_PATH));
    }
    Ok(
        Settings {
            profiles_folder: folder,
            backup_before_restore: settings.backup_before_restore,
            auto_save_on_start: settings.auto_save_on_start,
            keep_versions: settings.keep_versions,
            watch_devices: settings.watch_devices,
        },
    )
}

/// Settings that are kept stay as they are when they are kept again.
pub proof fn kept_settings_stay(settings: SettingsView)
    requires
        validated(settings) is Some,
    ensures
        validated(validated(settings)->Some_0) == validated(settings),
{
    text::trimming_twice_is_trimming_once(settings.profiles_folder);
}

/// Settings with another folder of profiles.
pub fn with_folder(settings: Settings, folder: String) -> (r: Settings)
    ensures
        r.deep_view() == (SettingsView { profiles_folder: folder@, ..settings.deep_view() }),
{
    Settings {
        profiles_folder: folder,
        backup_before_restore: settings.backup_before_restore,
        auto_save_on_start: settings.auto_save_on_start,
        keep_versions: settings.keep_versions,
        watch_devices: settings.watch_devices,
    }
}

} // verus!
