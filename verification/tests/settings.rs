use windows_toolbox::settings::{AppSettings, SettingsLoad, SettingsStore, ThemePreference};

#[test]
fn default_settings_follow_the_system_theme() {
    let settings = AppSettings::default();
    assert_eq!(settings.theme, ThemePreference::System);
    assert!(!settings.context_menu_enabled);
    assert!(settings.favorite_tools.is_empty());
    assert!(settings.recent_tools.is_empty());
    assert_eq!(ThemePreference::Dark.label(), "深色");
    assert_eq!(ThemePreference::System.label(), "跟随系统");
}

#[test]
fn store_files_live_in_the_configuration_directory() {
    let store = SettingsStore::from_directory(r"C:\Users\me\AppData\Local\Toolbox\WindowsToolbox\config".into());
    assert_eq!(store.settings_path(), r"C:\Users\me\AppData\Local\Toolbox\WindowsToolbox\config\settings.json");
    assert!(store.temporary_path().ends_with(r"\settings.json.tmp"));
    assert!(store.backup_path().ends_with(r"\settings.corrupt.json"));
    assert!(store.backup_temporary_path().ends_with(r"\settings.corrupt.tmp.json"));
    assert_eq!(store.eframe_storage_path(), r"C:\Users\me\AppData\Local\Toolbox\WindowsToolbox\config\eframe");
}

#[test]
fn load_problems_fall_back_to_defaults_with_a_warning() {
    assert!(SettingsLoad::missing().warning.is_none());
    let unreadable = SettingsLoad::unreadable("拒绝访问");
    assert_eq!(unreadable.warning.as_deref(), Some("无法读取设置，已使用默认值：拒绝访问"));
    let kept = SettingsLoad::corrupt("expected value", Ok(r"C:\c\settings.corrupt.json".into()));
    assert_eq!(
        kept.warning.as_deref(),
        Some(r"设置文件已损坏，已使用默认值；原文件已备份为 C:\c\settings.corrupt.json：expected value")
    );
    let lost = SettingsLoad::corrupt("expected value", Err("配置读写失败: busy".into()));
    assert_eq!(
        lost.warning.as_deref(),
        Some("设置文件已损坏且无法创建备份，已使用默认值：expected value；备份失败：配置读写失败: busy")
    );
    assert_eq!(lost.settings.theme, ThemePreference::System);
    let parsed = SettingsLoad::parsed(AppSettings { theme: ThemePreference::Dark, ..AppSettings::default() });
    assert_eq!(parsed.settings.theme, ThemePreference::Dark);
    assert!(parsed.warning.is_none());
}
