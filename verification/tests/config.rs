use sone_papdi::config::{
    config_path, default_max_entries, expand_tilde, GeneralConfig, KeybindsConfig,
    LockscreenConfig, ThemeConfig, WallpaperConfig, ClockConfig, LauncherConfig,
    NotificationConfig, AudioConfig, NetworkConfig, BarSectionConfig, default_bar_position,
    default_bar_height,
};

#[test]
fn test_default_config_parses() {
    assert_eq!(GeneralConfig::default().wm, "auto");
    assert_eq!(GeneralConfig::default().terminal, "foot");
    assert_eq!(default_bar_position(), "top");
    assert_eq!(default_bar_height(), 32);
    assert_eq!(default_max_entries(), 5000);
    assert_eq!(ThemeConfig::default().name, "nonchalant-dark");
    assert_eq!(LockscreenConfig::default().command, "swaylock");
    assert_eq!(KeybindsConfig::default().show_launcher, "Super+Space");
}

#[test]
fn section_defaults() {
    let g = GeneralConfig::default();
    assert_eq!((g.file_manager.as_str(), g.browser.as_str()), ("thunar", "firefox"));
    assert_eq!(ClockConfig::default().format, "%a %d %b  %H:%M");
    let l = LauncherConfig::default();
    assert_eq!((l.width, l.max_results, l.terminal_prefix.as_str()), (600, 12, "foot -e"));
    let n = NotificationConfig::default();
    assert_eq!((n.timeout_ms, n.timeout_critical_ms, n.max_visible, n.gap, n.width), (5000, 0, 5, 8, 360));
    assert_eq!(n.position, "top-right");
    let a = AudioConfig::default();
    assert_eq!((a.backend.as_str(), a.max_volume, a.scroll_step), ("auto", 150, 5));
    assert_eq!(NetworkConfig::default().primary_interface, "auto");
    assert!(BarSectionConfig::default().modules.is_empty());
    let t = ThemeConfig::default();
    assert!(t.dark_mode && t.colors.is_empty());
    assert_eq!(t.icon_theme, "Papirus-Dark");
    let k = KeybindsConfig::default();
    assert_eq!(k.lock, "Super+L");
}

#[test]
fn test_expand_tilde() {
    let expanded = expand_tilde("~/wallpaper.jpg", "/home/user");
    assert!(!expanded.starts_with('~'), "tilde should be expanded");
    assert!(expanded.ends_with("/wallpaper.jpg"));
    assert_eq!(expanded, "/home/user/wallpaper.jpg");
    assert_eq!(expand_tilde("~/x", "/home/user//"), "/home/user/x");
    assert_eq!(expand_tilde("~", "/home/user/"), "/home/user/");
    assert_eq!(expand_tilde("~other/x", "/home/user"), "~other/x");
    assert_eq!(expand_tilde("/abs", "/home/user"), "/abs");
}

#[test]
fn test_expand_paths_in_config() {
    let mut cfg = WallpaperConfig::default();
    assert!(cfg.path.starts_with('~'));
    cfg.expand_paths("/home/user");
    assert!(!cfg.path.starts_with('~'));
    assert_eq!(cfg.path, "/home/user/.config/rs-shell/wallpaper.jpg");
}

#[test]
fn config_path_under_home() {
    assert_eq!(config_path(Some("/home/u")), "/home/u/.config/rs-shell/config.toml");
    assert_eq!(config_path(None), "/root/.config/rs-shell/config.toml");
}
