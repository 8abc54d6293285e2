//! User settings: what is persisted, where its files lie, and what a load
//! reports when the file is missing, unreadable or corrupt.
//!
//! Only shell state the user chose is kept; no query result and no process
//! information is written.
use vstd::prelude::*;

use crate::paths::{join_path, join_spec};
use crate::text::push_str;

verus! {

/// The colour theme the user chose.
#[derive(Clone, Copy, Debug, Default, PartialEq, Eq, Structural)]
pub enum ThemePreference {
    #[default]
    System,
    Light,
    Dark,
}

impl ThemePreference {
    pub open spec fn spec_label(self) -> Seq<char> {
        match self {
            ThemePreference::System => "跟随系统"@,
            ThemePreference::Light => "浅色"@,
            ThemePreference::Dark => "深色"@,
        }
    }

    pub fn label(self) -> (l: &'static str)
        ensures
            l@ == self.spec_label(),
    {
        match self {
            ThemePreference::System => "跟随系统",
            ThemePreference::Light => "浅色",
            ThemePreference::Dark => "深色",
        }
    }
}

/// The persisted settings.
#[derive(Clone, Debug)]
pub struct AppSettings {
    pub theme: ThemePreference,
    pub context_menu_enabled: bool,
    pub recent_tools: Vec<String>,
    pub favorite_tools: Vec<String>,
}

impl Default for AppSettings {
    /// The system theme, no context menu, no recent and no favourite tool.
    fn default() -> (s: Self)
        ensures
            s.theme == ThemePreference::System,
            !s.context_menu_enabled,
            s.recent_tools@.len() == 0,
            s.favorite_tools@.len() == 0,
    {
        AppSettings {
            theme: ThemePreference::System,
            context_menu_enabled: false,
            recent_tools: Vec::new(),
            favorite_tools: Vec::new(),
        }
    }
}

/// The settings a load produced, with the warning the interface must show
/// when it fell back to the defaults because of a problem.
#[derive(Clone, Debug)]
pub struct SettingsLoad {
    pub settings: AppSettings,
    pub warning: Option<String>,
}

/// `s` are the default settings.
pub open spec fn is_default(s: AppSettings) -> bool {
    &&& s.theme == ThemePreference::System
    &&& !s.context_menu_enabled
    &&& s.recent_tools@.len() == 0
    &&& s.favorite_tools@.len() == 0
}

impl SettingsLoad {
    /// No settings file exists yet: the defaults, without warning.
    pub fn missing() -> (l: Self)
        ensures
            is_default(l.settings),
            l.warning is None,
    {
        SettingsLoad { settings: AppSettings::default(), warning: None }
    }

    /// The settings file could not be read: the defaults, with a warning that
    /// names the reason.
    pub fn unreadable(reason: &str) -> (l: Self)
        ensures
            is_default(l.settings),
            l.warning matches Some(w) && w@ == "无法读取设置，已使用默认值："@ + reason@,
    {
        let mut warning = String::new();
        push_str(&mut warning, "无法读取设置，已使用默认值：");
        push_str(&mut warning, reason);
        SettingsLoad { settings: AppSettings::default(), warning: Some(warning) }
    }

    /// The settings file was read and understood.
    pub fn parsed(settings: AppSettings) -> (l: Self)
        ensures
            l.settings == settings,
            l.warning is None,
    {
        SettingsLoad { settings, warning: None }
    }

    /// The settings file could not be understood: the defaults, with a warning
    /// that names the parse error and either where the corrupt file was kept
    /// or why keeping it failed.
    pub fn corrupt(parse_error: &str, backup: Result<String, String>) -> (l: Self)
        ensures
            is_default(l.settings),
            l.warning matches Some(w) && w@ == match backup {
                Ok(path) => "设置文件已损坏，已使用默认值；原文件已备份为 "@ + path@ + "："@ + parse_error@,
                Err(failure) => "设置文件已损坏且无法创建备份，已使用默认值："@ + parse_error@ + "；备份失败："@
                    + failure@,
            },
    {
        let mut warning = String::new();
        match &backup {
            Ok(path) => {
                push_str(&mut warning, "设置文件已损坏，已使用默认值；原文件已备份为 ");
                push_str(&mut warning, path.as_str());
                push_str(&mut warning, "：");
                push_str(&mut warning, parse_error);
            },
            Err(failure) => {
                push_str(&mut warning, "设置文件已损坏且无法创建备份，已使用默认值：");
                push_str(&mut warning, parse_error);
                push_str(&mut warning, "；备份失败：");
                push_str(&mut warning, failure.as_str());
            },
        }
        SettingsLoad { settings: AppSettings::default(), warning: Some(warning) }
    }
}

/// The only way to the settings file and to the window state file of the
/// interface, all of them in one configuration directory.
#[derive(Clone, Debug)]
pub struct SettingsStore {
    directory: String,
    settings_path: String,
}

impl SettingsStore {
    pub closed spec fn spec_directory(&self) -> Seq<char> {
        self.directory@
    }

    pub closed spec fn spec_settings_path(&self) -> Seq<char> {
        self.settings_path@
    }

    /// The settings file is `settings.json` in the directory.
    pub open spec fn wf(&self) -> bool {
        self.spec_settings_path() == join_spec(self.spec_directory(), "settings.json"@)
    }

    /// The store of the configuration directory `directory`.
    pub fn from_directory(directory: String) -> (s: Self)
        ensures
            s.wf(),
            s.spec_directory() == directory@,
    {
        let settings_path = join_path(directory.as_str(), "settings.json");
        SettingsStore { directory, settings_path }
    }

    /// The configuration directory.
    pub fn directory(&self) -> (d: &str)
        ensures
            d@ == self.spec_directory(),
    {
        self.directory.as_str()
    }

    /// The settings file.
    pub fn settings_path(&self) -> (p: &str)
        ensures
            p@ == self.spec_settings_path(),
    {
        self.settings_path.as_str()
    }

    /// The file a save writes before it replaces the settings file.
    pub fn temporary_path(&self) -> (p: String)
        ensures
            p@ == join_spec(self.spec_directory(), "settings.json.tmp"@),
    {
        join_path(self.directory.as_str(), "settings.json.tmp")
    }

    /// The one fixed copy of the last corrupt settings file.
    pub fn backup_path(&self) -> (p: String)
        ensures
            p@ == join_spec(self.spec_directory(), "settings.corrupt.json"@),
    {
        join_path(self.directory.as_str(), "settings.corrupt.json")
    }

    /// The file the copy of a corrupt settings file is written to first.
    pub fn backup_temporary_path(&self) -> (p: String)
        ensures
            p@ == join_spec(self.spec_directory(), "settings.corrupt.tmp.json"@),
    {
        join_path(self.directory.as_str(), "settings.corrupt.tmp.json")
    }

    /// Where the interface keeps its window state.
    pub fn eframe_storage_path(&self) -> (p: String)
        ensures
            p@ == join_spec(self.spec_directory(), "eframe"@),
    {
        join_path(self.directory.as_str(), "eframe")
    }
}

} // verus!
