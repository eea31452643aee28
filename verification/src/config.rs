use vstd::prelude::*;
use std::collections::HashMap;
use crate::paths::{joined, path_join};
use crate::text::{chars_of, string_from_chars};

verus! {

// ── Defaults ───────────────────────────────────────────────

/// The default `wm`: `auto`.
pub fn default_wm() -> (r: String)
    ensures
        r@ == "auto"@,
{
    "auto".to_owned()
}

/// The default `terminal`: `foot`.
pub fn default_terminal() -> (r: String)
    ensures
        r@ == "foot"@,
{
    "foot".to_owned()
}

/// The default `file_manager`: `thunar`.
pub fn default_file_manager() -> (r: String)
    ensures
        r@ == "thunar"@,
{
    "thunar".to_owned()
}

/// The default `browser`: `firefox`.
pub fn default_browser() -> (r: String)
    ensures
        r@ == "firefox"@,
{
    "firefox".to_owned()
}

/// The default `bar_position`: `top`.
pub fn default_bar_position() -> (r: String)
    ensures
        r@ == "top"@,
{
    "top".to_owned()
}

/// The default `bar_height`: `32`.
pub fn default_bar_height() -> (r: u32)
    ensures
        r == 32,
{
    32
}

/// The default `bar_font`: `JetBrains Mono 10`.
pub fn default_bar_font() -> (r: String)
    ensures
        r@ == "JetBrains Mono 10"@,
{
    "JetBrains Mono 10".to_owned()
}

/// The default `true`: `true`.
pub fn default_true() -> (r: bool)
    ensures
        r == true,
{
    true
}

/// The default `clock_format`: `%a %d %b  %H:%M`.
pub fn default_clock_format() -> (r: String)
    ensures
        r@ == "%a %d %b  %H:%M"@,
{
    "%a %d %b  %H:%M".to_owned()
}

/// The default `max_entries`: `5000`.
pub fn default_max_entries() -> (r: i64)
    ensures
        r == 5000,
{
    5000
}

/// The default `max_text_bytes`: `1048576`.
pub fn default_max_text_bytes() -> (r: usize)
    ensures
        r == 1048576,
{
    1048576
}

/// The default `max_image_bytes`: `10485760`.
pub fn default_max_image_bytes() -> (r: usize)
    ensures
        r == 10485760,
{
    10485760
}

/// The default `cleanup_days`: `30`.
pub fn default_cleanup_days() -> (r: i64)
    ensures
        r == 30,
{
    30
}

/// The default `paste_delay`: `140`.
pub fn default_paste_delay() -> (r: u64)
    ensures
        r == 140,
{
    140
}

/// The default `paste_method`: `wtype`.
pub fn default_paste_method() -> (r: String)
    ensures
        r@ == "wtype"@,
{
    "wtype".to_owned()
}

/// The default `ui_width`: `920`.
pub fn default_ui_width() -> (r: u32)
    ensures
        r == 920,
{
    920
}

/// The default `ui_height`: `620`.
pub fn default_ui_height() -> (r: u32)
    ensures
        r == 620,
{
    620
}

/// The default `launcher_width`: `600`.
pub fn default_launcher_width() -> (r: u32)
    ensures
        r == 600,
{
    600
}

/// The default `max_results`: `12`.
pub fn default_max_results() -> (r: usize)
    ensures
        r == 12,
{
    12
}

/// The default `terminal_prefix`: `foot -e`.
pub fn default_terminal_prefix() -> (r: String)
    ensures
        r@ == "foot -e"@,
{
    "foot -e".to_owned()
}

/// The default `timeout_ms`: `5000`.
pub fn default_timeout_ms() -> (r: i64)
    ensures
        r == 5000,
{
    5000
}

/// The default `max_visible`: `5`.
pub fn default_max_visible() -> (r: usize)
    ensures
        r == 5,
{
    5
}

/// The default `notif_position`: `top-right`.
pub fn default_notif_position() -> (r: String)
    ensures
        r@ == "top-right"@,
{
    "top-right".to_owned()
}

/// The default `notif_gap`: `8`.
pub fn default_notif_gap() -> (r: u32)
    ensures
        r == 8,
{
    8
}

/// The default `notif_width`: `360`.
pub fn default_notif_width() -> (r: u32)
    ensures
        r == 360,
{
    360
}

/// The default `device`: `auto`.
pub fn default_device() -> (r: String)
    ensures
        r@ == "auto"@,
{
    "auto".to_owned()
}

/// The default `audio_backend`: `auto`.
pub fn default_audio_backend() -> (r: String)
    ensures
        r@ == "auto"@,
{
    "auto".to_owned()
}

/// The default `max_volume`: `150`.
pub fn default_max_volume() -> (r: u32)
    ensures
        r == 150,
{
    150
}

/// The default `scroll_step`: `5`.
pub fn default_scroll_step() -> (r: u32)
    ensures
        r == 5,
{
    5
}

/// The default `primary_interface`: `auto`.
pub fn default_primary_interface() -> (r: String)
    ensures
        r@ == "auto"@,
{
    "auto".to_owned()
}

/// The default `wallpaper_path`: `~/.config/rs-shell/wallpaper.jpg`.
pub fn default_wallpaper_path() -> (r: String)
    ensures
        r@ == "~/.config/rs-shell/wallpaper.jpg"@,
{
    "~/.config/rs-shell/wallpaper.jpg".to_owned()
}

/// The default `wallpaper_mode`: `fill`.
pub fn default_wallpaper_mode() -> (r: String)
    ensures
        r@ == "fill"@,
{
    "fill".to_owned()
}

/// The default `wallpaper_backend`: `internal`.
pub fn default_wallpaper_backend() -> (r: String)
    ensures
        r@ == "internal"@,
{
    "internal".to_owned()
}

/// The default `theme_name`: `nonchalant-dark`.
pub fn default_theme_name() -> (r: String)
    ensures
        r@ == "nonchalant-dark"@,
{
    "nonchalant-dark".to_owned()
}

/// The default `icon_theme`: `Papirus-Dark`.
pub fn default_icon_theme() -> (r: String)
    ensures
        r@ == "Papirus-Dark"@,
{
    "Papirus-Dark".to_owned()
}

/// The default `gtk_theme`: `adw-gtk3-dark`.
pub fn default_gtk_theme() -> (r: String)
    ensures
        r@ == "adw-gtk3-dark"@,
{
    "adw-gtk3-dark".to_owned()
}

/// The default `theme_font`: `Inter 11`.
pub fn default_theme_font() -> (r: String)
    ensures
        r@ == "Inter 11"@,
{
    "Inter 11".to_owned()
}

/// The default `lockscreen_command`: `swaylock`.
pub fn default_lockscreen_command() -> (r: String)
    ensures
        r@ == "swaylock"@,
{
    "swaylock".to_owned()
}

/// The default `kb_show_launcher`: `Super+Space`.
pub fn default_kb_show_launcher() -> (r: String)
    ensures
        r@ == "Super+Space"@,
{
    "Super+Space".to_owned()
}

/// The default `kb_show_clipboard`: `Super+V`.
pub fn default_kb_show_clipboard() -> (r: String)
    ensures
        r@ == "Super+V"@,
{
    "Super+V".to_owned()
}

/// The default `kb_show_notifications`: `Super+N`.
pub fn default_kb_show_notifications() -> (r: String)
    ensures
        r@ == "Super+N"@,
{
    "Super+N".to_owned()
}

/// The default `kb_screenshot`: `Print`.
pub fn default_kb_screenshot() -> (r: String)
    ensures
        r@ == "Print"@,
{
    "Print".to_owned()
}

/// The default `kb_lock`: `Super+L`.
pub fn default_kb_lock() -> (r: String)
    ensures
        r@ == "Super+L"@,
{
    "Super+L".to_owned()
}

// ── Sections ───────────────────────────────────────────────

/// General settings: window manager and preferred applications.
#[derive(Debug, Clone)]
pub struct GeneralConfig {
    pub wm: String,
    pub terminal: String,
    pub file_manager: String,
    pub browser: String,
}

impl Default for GeneralConfig {
    fn default() -> (r: Self)
        ensures
            r.wm@ == "auto"@,
            r.terminal@ == "foot"@,
            r.file_manager@ == "thunar"@,
            r.browser@ == "firefox"@,
    {
        GeneralConfig {
            wm: default_wm(),
            terminal: default_terminal(),
            file_manager: default_file_manager(),
            browser: default_browser(),
        }
    }
}

/// The modules of one bar section.
#[derive(Debug, Clone)]
pub struct BarSectionConfig {
    pub modules: Vec<String>,
}

impl Default for BarSectionConfig {
    fn default() -> (r: Self)
        ensures
            r.modules@.len() == 0,
    {
        BarSectionConfig { modules: Vec::new() }
    }
}

/// The bar clock.
#[derive(Debug, Clone)]
pub struct ClockConfig {
    pub format: String,
}

impl Default for ClockConfig {
    fn default() -> (r: Self)
        ensures
            r.format@ == "%a %d %b  %H:%M"@,
    {
        ClockConfig { format: default_clock_format() }
    }
}

/// The application launcher.
#[derive(Debug, Clone)]
pub struct LauncherConfig {
    pub width: u32,
    pub max_results: usize,
    pub show_icons: bool,
    pub fuzzy: bool,
    pub terminal_prefix: String,
}

impl Default for LauncherConfig {
    fn default() -> (r: Self)
        ensures
            r.width == 600,
            r.max_results == 12,
            r.show_icons,
            r.fuzzy,
            r.terminal_prefix@ == "foot -e"@,
    {
        LauncherConfig {
            width: 600,
            max_results: 12,
            show_icons: true,
            fuzzy: true,
            terminal_prefix: default_terminal_prefix(),
        }
    }
}

/// Notification popups.
#[derive(Debug, Clone)]
pub struct NotificationConfig {
    pub timeout_ms: i64,
    pub timeout_critical_ms: i64,
    pub max_visible: usize,
    pub position: String,
    pub gap: u32,
    pub width: u32,
}

impl Default for NotificationConfig {
    fn default() -> (r: Self)
        ensures
            r.timeout_ms == 5000,
            r.timeout_critical_ms == 0,
            r.max_visible == 5,
            r.position@ == "top-right"@,
            r.gap == 8,
            r.width == 360,
    {
        NotificationConfig {
            timeout_ms: 5000,
            timeout_critical_ms: 0,
            max_visible: 5,
            position: default_notif_position(),
            gap: 8,
            width: 360,
        }
    }
}

/// Audio control.
#[derive(Debug, Clone)]
pub struct AudioConfig {
    pub backend: String,
    pub max_volume: u32,
    pub scroll_step: u32,
}

impl Default for AudioConfig {
    fn default() -> (r: Self)
        ensures
            r.backend@ == "auto"@,
            r.max_volume == 150,
            r.scroll_step == 5,
    {
        AudioConfig { backend: "auto".to_owned(), max_volume: 150, scroll_step: 5 }
    }
}

/// Network status.
#[derive(Debug, Clone)]
pub struct NetworkConfig {
    pub primary_interface: String,
}

impl Default for NetworkConfig {
    fn default() -> (r: Self)
        ensures
            r.primary_interface@ == "auto"@,
    {
        NetworkConfig { primary_interface: "auto".to_owned() }
    }
}

/// The wallpaper.
#[derive(Debug, Clone)]
pub struct WallpaperConfig {
    pub path: String,
    pub mode: String,
    pub backend: String,
}

impl Default for WallpaperConfig {
    fn default() -> (r: Self)
        ensures
            r.path@ == "~/.config/rs-shell/wallpaper.jpg"@,
            r.mode@ == "fill"@,
            r.backend@ == "internal"@,
    {
        WallpaperConfig {
            path: default_wallpaper_path(),
            mode: "fill".to_owned(),
            backend: "internal".to_owned(),
        }
    }
}

/// The theme; `colors` overrides single colors of the named theme.
#[derive(Debug, Clone)]
pub struct ThemeConfig {
    pub name: String,
    pub dark_mode: bool,
    pub icon_theme: String,
    pub gtk_theme: String,
    pub font: String,
    pub colors: HashMap<String, String>,
}

impl Default for ThemeConfig {
    fn default() -> (r: Self)
        ensures
            r.name@ == "nonchalant-dark"@,
            r.dark_mode,
            r.icon_theme@ == "Papirus-Dark"@,
            r.gtk_theme@ == "adw-gtk3-dark"@,
            r.font@ == "Inter 11"@,
            r.colors@ == Map::<String, String>::empty(),
    {
        ThemeConfig {
            name: default_theme_name(),
            dark_mode: true,
            icon_theme: default_icon_theme(),
            gtk_theme: default_gtk_theme(),
            font: default_theme_font(),
            colors: HashMap::new(),
        }
    }
}

/// The lock screen.
#[derive(Debug, Clone)]
pub struct LockscreenConfig {
    pub command: String,
    pub blur_background: bool,
}

impl Default for LockscreenConfig {
    fn default() -> (r: Self)
        ensures
            r.command@ == "swaylock"@,
            r.blur_background,
    {
        LockscreenConfig { command: default_lockscreen_command(), blur_background: true }
    }
}

/// Global key bindings.
#[derive(Debug, Clone)]
pub struct KeybindsConfig {
    pub show_launcher: String,
    pub show_clipboard: String,
    pub show_notifications: String,
    pub screenshot: String,
    pub lock: String,
}

impl Default for KeybindsConfig {
    fn default() -> (r: Self)
        ensures
            r.show_launcher@ == "Super+Space"@,
            r.show_clipboard@ == "Super+V"@,
            r.show_notifications@ == "Super+N"@,
            r.screenshot@ == "Print"@,
            r.lock@ == "Super+L"@,
    {
        KeybindsConfig {
            show_launcher: default_kb_show_launcher(),
            show_clipboard: default_kb_show_clipboard(),
            show_notifications: default_kb_show_notifications(),
            screenshot: default_kb_screenshot(),
            lock: default_kb_lock(),
        }
    }
}

// ── Paths ──────────────────────────────────────────────────

/// `s` without its trailing `/` characters.
pub open spec fn trim_slashes(s: Seq<char>) -> Seq<char>
    decreases s.len(),
{
    if s.len() > 0 && s.last() == '/' {
        trim_slashes(s.drop_last())
    } else {
        s
    }
}

/// A path with a leading `~` expanded: `~/rest` becomes the home directory
/// (without trailing slashes) followed by `/rest`, `~` alone becomes the home
/// directory, and every other path is kept.
pub open spec fn tilde_expanded(path: Seq<char>, home: Seq<char>) -> Seq<char> {
    if path.len() >= 2 && path[0] == '~' && path[1] == '/' {
        trim_slashes(home) + path.drop_first()
    } else if path == seq!['~'] {
        home
    } else {
        path
    }
}

/// Expand tilde in a path string to the home directory `home` (`$HOME`).
pub fn expand_tilde(path: &str, home: &str) -> (r: String)
    ensures
        r@ == tilde_expanded(path@, home@),
{
    let p = chars_of(path);
    if p.len() >= 2 && p[0] == '~' && p[1] == '/' {
        let h = chars_of(home);
        let mut end = h.len();
        assert(h@.take(end as int) =~= h@);
        while end > 0 && h[end - 1] == '/'
            invariant
                end <= h@.len(),
                trim_slashes(h@) == trim_slashes(h@.take(end as int)),
            decreases end,
        {
            assert(h@.take(end as int).drop_last() =~= h@.take(end - 1));
            end = end - 1;
        }
        let mut out: Vec<char> = Vec::new();
        for i in 0..end
            invariant
                end <= h@.len(),
                out@ == h@.take(i as int),
        {
            out.push(h[i]);
            assert(out@ =~= h@.take(i + 1));
        }
        let ghost head = out@;
        let n = p.len();
        for i in 1..n
            invariant
                n == p@.len(),
                n >= 2,
                out@ == head + p@.subrange(1, i as int),
        {
            out.push(p[i]);
            assert(out@ =~= head + p@.subrange(1, i + 1));
        }
        assert(p@.subrange(1, n as int) =~= p@.drop_first());
        return string_from_chars(&out);
    }
    if p.len() == 1 && p[0] == '~' {
        assert(p@ =~= seq!['~']);
        return home.to_owned();
    }
    proof {
        if p@ == seq!['~'] {
            assert(p@.len() == 1 && p@[0] == '~');
        }
    }
    path.to_owned()
}

impl WallpaperConfig {
    /// Expand a leading tilde in the wallpaper path (`ShellConfig::expand_paths`).
    pub fn expand_paths(&mut self, home: &str)
        ensures
            final(self).mode == old(self).mode,
            final(self).backend == old(self).backend,
            final(self).path@ == if old(self).path@.len() > 0 && old(self).path@[0] == '~' {
                tilde_expanded(old(self).path@, home@)
            } else {
                old(self).path@
            },
    {
        let p = chars_of(self.path.as_str());
        if p.len() > 0 && p[0] == '~' {
            self.path = expand_tilde(self.path.as_str(), home);
        }
    }
}

/// The config file: `.config/rs-shell/config.toml` under `$HOME` (or `/root`
/// when it is unset).
pub open spec fn config_path_of(home: Option<Seq<char>>) -> Seq<char> {
    joined(
        match home {
            Some(h) => h,
            None => "/root"@,
        },
        ".config/rs-shell/config.toml"@,
    )
}

/// Returns the config file path `~/.config/rs-shell/config.toml`, from `$HOME`.
pub fn config_path(home: Option<&str>) -> (r: String)
    ensures
        r@ == config_path_of(
            match home {
                Some(h) => Some(h@),
                None => None,
            },
        ),
{
    match home {
        Some(h) => path_join(h, ".config/rs-shell/config.toml"),
        None => path_join("/root", ".config/rs-shell/config.toml"),
    }
}

} // verus!
