use vstd::prelude::*;
use std::collections::HashMap;

verus! {

// ── Categories ───────────────────────────────────────────────

/// The subsystem a shell event comes from; every shell event belongs to exactly
/// one of these.
#[derive(Debug, Clone, Copy, PartialEq, Eq, Structural)]
pub enum EventCategory {
    Clipboard,
    Window,
    Battery,
    Network,
    Audio,
    Wireless,
    Wallpaper,
    Theme,
    Notification,
    Shell,
}

/// The topic name of a category, used for subscription filtering.
pub open spec fn topic_of(c: EventCategory) -> Seq<char> {
    match c {
        EventCategory::Clipboard => "clipboard"@,
        EventCategory::Window => "window"@,
        EventCategory::Battery => "battery"@,
        EventCategory::Network => "network"@,
        EventCategory::Audio => "audio"@,
        EventCategory::Wireless => "wireless"@,
        EventCategory::Wallpaper => "wallpaper"@,
        EventCategory::Theme => "theme"@,
        EventCategory::Notification => "notification"@,
        EventCategory::Shell => "shell"@,
    }
}

/// Category/topic name for a shell event of the given category.
pub fn event_topic(category: EventCategory) -> (r: &'static str)
    ensures
        r@ == topic_of(category),
{
    match category {
        EventCategory::Clipboard => "clipboard",
        EventCategory::Window => "window",
        EventCategory::Battery => "battery",
        EventCategory::Network => "network",
        EventCategory::Audio => "audio",
        EventCategory::Wireless => "wireless",
        EventCategory::Wallpaper => "wallpaper",
        EventCategory::Theme => "theme",
        EventCategory::Notification => "notification",
        EventCategory::Shell => "shell",
    }
}

/// The D-Bus signal name for events of a category.
pub open spec fn signal_of(c: EventCategory) -> Seq<char> {
    match c {
        EventCategory::Battery => "BatteryChanged"@,
        EventCategory::Audio => "VolumeChanged"@,
        EventCategory::Network => "NetworkChanged"@,
        EventCategory::Notification => "NotificationReceived"@,
        EventCategory::Theme => "ThemeChanged"@,
        EventCategory::Wallpaper => "WallpaperChanged"@,
        EventCategory::Window => "WindowChanged"@,
        EventCategory::Shell => "ShellEvent"@,
        EventCategory::Clipboard => "ClipboardChanged"@,
        EventCategory::Wireless => "WirelessChanged"@,
    }
}

/// Map an event category to its D-Bus signal name; every category has one.
pub fn signal_name(category: EventCategory) -> (r: Option<&'static str>)
    ensures
        r matches Some(s) && s@ == signal_of(category),
{
    match category {
        EventCategory::Battery => Some("BatteryChanged"),
        EventCategory::Audio => Some("VolumeChanged"),
        EventCategory::Network => Some("NetworkChanged"),
        EventCategory::Notification => Some("NotificationReceived"),
        EventCategory::Theme => Some("ThemeChanged"),
        EventCategory::Wallpaper => Some("WallpaperChanged"),
        EventCategory::Window => Some("WindowChanged"),
        EventCategory::Shell => Some("ShellEvent"),
        EventCategory::Clipboard => Some("ClipboardChanged"),
        EventCategory::Wireless => Some("WirelessChanged"),
    }
}

// ── Clipboard ────────────────────────────────────────────────

/// A single clipboard entry as stored in the database and returned by queries.
/// Times are Unix timestamps in seconds.
#[derive(Debug, Clone)]
pub struct ClipEntry {
    pub id: i64,
    pub mime: String,
    pub kind: ClipEntryKind,
    pub preview: String,
    pub content: Option<String>,
    pub pinned: bool,
    pub created_at: i64,
    pub updated_at: i64,
}

/// What kind of payload a clipboard entry holds.
#[derive(Debug, Clone, Copy, PartialEq, Eq, Structural)]
pub enum ClipEntryKind {
    Text,
    Link,
    Color,
    Image,
    File,
    Secret,
}

/// Clipboard subsystem events.
#[derive(Debug, Clone)]
pub enum ClipboardEvent {
    Stored { id: i64, mime: String, kind: ClipEntryKind, preview: String },
    Copied { id: i64 },
    Deleted { id: i64 },
    Cleared,
    PinnedToggled { id: i64, pinned: bool },
    SearchResult { query: String, results: Vec<ClipEntry> },
}

// ── Battery ──────────────────────────────────────────────────

#[derive(Debug, Clone, Copy, PartialEq, Eq, Structural)]
pub enum BatteryStatus {
    Charging,
    Discharging,
    Full,
    Unknown,
}

// ── Network ──────────────────────────────────────────────────

#[derive(Debug, Clone)]
pub struct NetworkState {
    pub connectivity: NetworkConnectivity,
    pub interfaces: Vec<NetworkInterface>,
}

#[derive(Debug, Clone, Copy, PartialEq, Eq, Structural)]
pub enum NetworkConnectivity {
    /// No connectivity (`None` on the wire).
    Offline,
    Limited,
    Portal,
    Full,
}

#[derive(Debug, Clone)]
pub struct NetworkInterface {
    pub name: String,
    pub kind: InterfaceKind,
    pub ip4: Option<String>,
    pub ip6: Option<String>,
    pub state: InterfaceState,
}

#[derive(Debug, Clone)]
pub enum InterfaceKind {
    Ethernet,
    Wifi,
    Loopback,
    Vpn,
    Other(String),
}

#[derive(Debug, Clone, Copy, PartialEq, Eq, Structural)]
pub enum InterfaceState {
    Connected,
    Disconnected,
    Connecting,
    Failed,
}

#[derive(Debug, Clone)]
pub enum NetworkEvent {
    StateChanged(NetworkState),
    InterfaceUp(NetworkInterface),
    InterfaceDown(String),
    ConnectivityChanged(NetworkConnectivity),
}

// ── Wireless ─────────────────────────────────────────────────

#[derive(Debug, Clone)]
pub struct WifiNetwork {
    pub ssid: String,
    pub signal_strength: u8,
    pub secured: bool,
    pub connected: bool,
}

#[derive(Debug, Clone)]
pub enum WirelessEvent {
    Connected(WifiNetwork),
    Disconnected,
    SignalStrengthChanged(u8),
    NetworksScanned(Vec<WifiNetwork>),
}

// ── Notification ─────────────────────────────────────────────

#[derive(Debug, Clone, Copy, PartialEq, Eq, Structural)]
pub enum NotificationUrgency {
    Low,
    Normal,
    Critical,
}

/// A desktop notification. The timestamp is Unix time in seconds.
#[derive(Debug, Clone)]
pub struct Notification {
    pub id: u32,
    pub app_name: String,
    pub summary: String,
    pub body: String,
    pub icon: Option<String>,
    pub urgency: NotificationUrgency,
    pub actions: Vec<(String, String)>,
    pub timestamp: i64,
    pub expire_timeout: Option<i32>,
}

#[derive(Debug, Clone)]
pub enum NotificationEvent {
    Received(Notification),
    Closed { id: u32, reason: CloseReason },
    ActionInvoked { id: u32, action_key: String },
}

#[derive(Debug, Clone, Copy)]
pub enum CloseReason {
    Expired,
    Dismissed,
    AppClosed,
    Undefined,
}

// ── Window ───────────────────────────────────────────────────

#[derive(Debug, Clone)]
pub struct WindowInfo {
    pub id: String,
    pub title: String,
    pub app_id: String,
    pub workspace: Option<String>,
    pub focused: bool,
    pub state: WindowState,
}

#[derive(Debug, Clone, Copy)]
pub enum WindowState {
    Normal,
    Minimized,
    Maximized,
    Fullscreen,
}

#[derive(Debug, Clone)]
pub enum WindowEvent {
    Opened(WindowInfo),
    Closed(String),
    FocusChanged(String),
    TitleChanged { id: String, title: String },
    WorkspaceChanged { id: String, workspace: String },
    StateChanged { id: String, state: WindowState },
    WorkspaceList(Vec<String>),
    ActiveWorkspaceChanged(String),
}

// ── Wallpaper / Theme ────────────────────────────────────────

#[derive(Debug, Clone)]
pub enum WallpaperEvent {
    Changed { path: String, output: Option<String> },
}

#[derive(Debug, Clone)]
pub enum ThemeEvent {
    Changed { name: String },
    ColorsUpdated(HashMap<String, String>),
    DarkModeToggled(bool),
}

// ── Lifecycle ────────────────────────────────────────────────

#[derive(Debug, Clone)]
pub enum ShellLifecycleEvent {
    DaemonStarted,
    ServiceStarted(String),
    ServiceFailed { name: String, error: String },
    ShuttingDown,
    LockScreen,
    Unlock,
    Suspend,
    Hibernate,
}

} // verus!
