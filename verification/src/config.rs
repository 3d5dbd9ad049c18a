//! The settings that an application keeps between runs, with their
//! defaults. Rates are in millionths of a KiB/s, other fractional
//! figures in millionths of their unit.

use crate::torrent::client::ClientType;
use vstd::prelude::*;

verus! {

/// The client that is imitated by default.
pub fn default_client_type() -> (r: ClientType)
    ensures
        r == ClientType::QBittorrent,
{
    ClientType::QBittorrent
}

/// The port that is announced by default.
pub fn default_port() -> (r: u16)
    ensures
        r == 6881,
{
    6881
}

/// The number of peers that is asked for by default.
pub fn default_num_want() -> (r: u32)
    ensures
        r == 50,
{
    50
}

/// The default upload rate: 50 KiB/s.
pub fn default_upload_rate() -> (r: i64)
    ensures
        r == 50_000_000,
{
    50_000_000
}

/// The default download rate: 100 KiB/s.
pub fn default_download_rate() -> (r: i64)
    ensures
        r == 100_000_000,
{
    100_000_000
}

/// The seconds between announces until a tracker names an interval.
pub fn default_announce_interval() -> (r: u64)
    ensures
        r == 1800,
{
    1800
}

/// The seconds between ticks.
pub fn default_update_interval() -> (r: u64)
    ensures
        r == 5,
{
    5
}

/// The default width of the window.
pub fn default_window_width() -> (r: u32)
    ensures
        r == 1200,
{
    1200
}

/// The default height of the window.
pub fn default_window_height() -> (r: u32)
    ensures
        r == 800,
{
    800
}

/// Whether dark mode is on by default.
pub fn default_dark_mode() -> (r: bool)
    ensures
        r,
{
    true
}

/// Whether the log is shown by default.
pub fn default_show_logs() -> (r: bool)
    ensures
        !r,
{
    false
}

/// The client to imitate where a session names none.
#[derive(Debug, Clone)]
pub struct ClientSettings {
    pub default_type: ClientType,
    /// The client's own default where none is given.
    pub default_version: Option<String>,
    pub default_port: u16,
    pub default_num_want: u32,
}

/// The rates and intervals of a session that names none.
#[derive(Debug, Clone)]
pub struct FakerSettings {
    pub default_upload_rate: i64,
    pub default_download_rate: i64,
    /// Seconds.
    pub default_announce_interval: u64,
    /// Seconds.
    pub update_interval: u64,
}

/// How the window looks.
#[derive(Debug, Clone)]
pub struct UiSettings {
    pub window_width: u32,
    pub window_height: u32,
    pub dark_mode: bool,
    pub show_logs: bool,
}

/// One session as the form of the application holds it.
#[derive(Debug, Clone)]
pub struct InstanceConfig {
    pub torrent_path: Option<String>,
    pub selected_client: ClientType,
    pub selected_client_version: Option<String>,
    pub upload_rate: i64,
    pub download_rate: i64,
    pub port: u16,
    pub completion_percent: i64,
    pub initial_uploaded: u64,
    pub initial_downloaded: u64,
    pub randomize_rates: bool,
    pub random_range_percent: i64,
    pub update_interval_seconds: u64,
    pub stop_at_ratio_enabled: bool,
    pub stop_at_ratio: i64,
    pub stop_at_uploaded_enabled: bool,
    pub stop_at_uploaded_gb: i64,
    pub stop_at_downloaded_enabled: bool,
    pub stop_at_downloaded_gb: i64,
    pub stop_at_seed_time_enabled: bool,
    pub stop_at_seed_time_hours: i64,
    pub stop_when_no_leechers: bool,
    pub progressive_rates_enabled: bool,
    pub target_upload_rate: i64,
    pub target_download_rate: i64,
    pub progressive_duration_hours: i64,
}

/// Everything that the application keeps between runs.
#[derive(Debug, Clone)]
pub struct AppConfig {
    pub client: ClientSettings,
    pub faker: FakerSettings,
    pub ui: UiSettings,
    pub instances: Vec<InstanceConfig>,
    pub active_instance_id: Option<usize>,
}

impl Default for ClientSettings {
    fn default() -> (r: ClientSettings)
        ensures
            r.default_type == ClientType::QBittorrent,
            r.default_version is None,
            r.default_port == 6881,
            r.default_num_want == 50,
    {
        ClientSettings {
            default_type: default_client_type(),
            default_version: None,
            default_port: default_port(),
            default_num_want: default_num_want(),
        }
    }
}

impl Default for FakerSettings {
    fn default() -> (r: FakerSettings)
        ensures
            r.default_upload_rate == 50_000_000,
            r.default_download_rate == 100_000_000,
            r.default_announce_interval == 1800,
            r.update_interval == 5,
    {
        FakerSettings {
            default_upload_rate: default_upload_rate(),
            default_download_rate: default_download_rate(),
            default_announce_interval: default_announce_interval(),
            update_interval: default_update_interval(),
        }
    }
}

impl Default for UiSettings {
    fn default() -> (r: UiSettings)
        ensures
            r.window_width == 1200,
            r.window_height == 800,
            r.dark_mode,
            !r.show_logs,
    {
        UiSettings {
            window_width: default_window_width(),
            window_height: default_window_height(),
            dark_mode: default_dark_mode(),
            show_logs: default_show_logs(),
        }
    }
}

impl Default for AppConfig {
    fn default() -> (r: AppConfig)
        ensures
            r.client.default_type == ClientType::QBittorrent,
            r.client.default_version is None,
            r.client.default_port == 6881,
            r.client.default_num_want == 50,
            r.faker.default_upload_rate == 50_000_000,
            r.faker.default_download_rate == 100_000_000,
            r.faker.default_announce_interval == 1800,
            r.faker.update_interval == 5,
            r.ui.window_width == 1200,
            r.ui.window_height == 800,
            r.ui.dark_mode,
            !r.ui.show_logs,
            r.instances@.len() == 0,
            r.active_instance_id is None,
    {
        AppConfig {
            client: ClientSettings::default(),
            faker: FakerSettings::default(),
            ui: UiSettings::default(),
            instances: Vec::new(),
            active_instance_id: None,
        }
    }
}

} // verus!
