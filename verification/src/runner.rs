//! What a front end hands to the engine: the choice of client, the
//! commands of a running session, and the configuration of a run.
//! Fractional figures are in millionths of their unit.

use crate::faker::FakerConfig;
use crate::text::text_eq;
use crate::torrent::client::ClientType;
use crate::units::{scale, scaled};
use vstd::prelude::*;
use vstd::string::*;

verus! {

/// The client as the command line names it.
#[derive(Clone, Copy, Debug, PartialEq, Eq, Structural)]
pub enum ClientArg {
    Qbittorrent,
    Utorrent,
    Transmission,
    Deluge,
}

/// The shell to write completions for.
#[derive(Clone, Copy, Debug, PartialEq, Eq, Structural)]
pub enum ShellArg {
    Bash,
    Zsh,
    Fish,
    PowerShell,
    Elvish,
}

/// A command read from the input of a running session.
#[derive(Clone, Copy, Debug, PartialEq, Eq, Structural)]
pub enum InputCommand {
    Pause,
    Resume,
    Stop,
    Scrape,
    Stats,
}

/// A command to the loop that runs a session.
#[derive(Clone, Copy, Debug, PartialEq, Eq, Structural)]
pub enum RunnerCommand {
    Pause,
    Resume,
    Stop,
    Scrape,
    Stats,
    Shutdown,
}

/// The client that a client argument stands for.
pub open spec fn client_of(arg: ClientArg) -> ClientType {
    match arg {
        ClientArg::Qbittorrent => ClientType::QBittorrent,
        ClientArg::Utorrent => ClientType::UTorrent,
        ClientArg::Transmission => ClientType::Transmission,
        ClientArg::Deluge => ClientType::Deluge,
    }
}

/// The client that a client argument stands for.
pub fn client_type_of(arg: ClientArg) -> (r: ClientType)
    ensures
        r == client_of(arg),
{
    match arg {
        ClientArg::Qbittorrent => ClientType::QBittorrent,
        ClientArg::Utorrent => ClientType::UTorrent,
        ClientArg::Transmission => ClientType::Transmission,
        ClientArg::Deluge => ClientType::Deluge,
    }
}

/// The client that goes by `name`: one of `utorrent`, `qbittorrent`,
/// `transmission` and `deluge`.
pub open spec fn client_named(name: Seq<char>) -> Option<ClientType> {
    if name == "utorrent"@ {
        Some(ClientType::UTorrent)
    } else if name == "qbittorrent"@ {
        Some(ClientType::QBittorrent)
    } else if name == "transmission"@ {
        Some(ClientType::Transmission)
    } else if name == "deluge"@ {
        Some(ClientType::Deluge)
    } else {
        None
    }
}

/// The client that goes by `name`.
pub fn client_type_named(name: &str) -> (r: Option<ClientType>)
    ensures
        r == client_named(name@),
{
    if text_eq(name, "utorrent") {
        Some(ClientType::UTorrent)
    } else if text_eq(name, "qbittorrent") {
        Some(ClientType::QBittorrent)
    } else if text_eq(name, "transmission") {
        Some(ClientType::Transmission)
    } else if text_eq(name, "deluge") {
        Some(ClientType::Deluge)
    } else {
        None
    }
}

/// The command to the loop that an input command stands for.
pub fn runner_command_of(command: InputCommand) -> (r: RunnerCommand)
    ensures
        r == match command {
            InputCommand::Pause => RunnerCommand::Pause,
            InputCommand::Resume => RunnerCommand::Resume,
            InputCommand::Stop => RunnerCommand::Stop,
            InputCommand::Scrape => RunnerCommand::Scrape,
            InputCommand::Stats => RunnerCommand::Stats,
        },
{
    match command {
        InputCommand::Pause => RunnerCommand::Pause,
        InputCommand::Resume => RunnerCommand::Resume,
        InputCommand::Stop => RunnerCommand::Stop,
        InputCommand::Scrape => RunnerCommand::Scrape,
        InputCommand::Stats => RunnerCommand::Stats,
    }
}

/// The configuration of one run as the command line gives it.
#[derive(Debug, Clone)]
pub struct RunnerConfig {
    pub torrent_path: String,
    pub client: ClientArg,
    pub client_version: Option<String>,
    pub upload_rate: i64,
    pub download_rate: i64,
    pub port: u16,
    pub completion: i64,
    pub initial_uploaded: u64,
    pub initial_downloaded: u64,
    pub stop_ratio: Option<i64>,
    /// GB uploaded at which to stop.
    pub stop_uploaded: Option<i64>,
    /// GB downloaded at which to stop.
    pub stop_downloaded: Option<i64>,
    /// Hours after which to stop.
    pub stop_time: Option<i64>,
    pub stop_when_no_leechers: bool,
    pub no_randomize: bool,
    pub random_range: i64,
    pub progressive: bool,
    pub target_upload: Option<i64>,
    pub target_download: Option<i64>,
    /// Hours over which the rates reach their targets.
    pub progressive_duration: i64,
    pub json_mode: bool,
    /// Seconds between the reports of a run.
    pub stats_interval: u64,
    pub save_session: bool,
    pub info_hash: String,
    pub torrent_name: String,
    pub torrent_size: u64,
}

/// Bytes in a GB.
pub const BYTES_PER_GB: u64 = 1_073_741_824;

/// Seconds in an hour.
pub const SECS_PER_HOUR: u64 = 3600;

/// A number of millionths of a unit in a smaller unit, `per_unit` of
/// which make one: rounded down, nothing where it is negative, and
/// capped.
pub open spec fn in_smaller_unit(millionths: i64, per_unit: u64) -> u64 {
    if millionths <= 0 {
        0
    } else {
        scaled(millionths as nat, per_unit as nat, 1, 1_000_000) as u64
    }
}

/// An optional number of millionths of a unit in a smaller unit.
pub open spec fn optional_in_smaller_unit(millionths: Option<i64>, per_unit: u64) -> Option<u64> {
    match millionths {
        Some(m) => Some(in_smaller_unit(m, per_unit)),
        None => None,
    }
}

/// The configuration of the session that a run asks for.
pub open spec fn faker_config_of(config: RunnerConfig) -> FakerConfig {
    FakerConfig {
        upload_rate: config.upload_rate,
        download_rate: config.download_rate,
        port: config.port,
        client_type: client_of(config.client),
        client_version: config.client_version,
        initial_uploaded: config.initial_uploaded,
        initial_downloaded: config.initial_downloaded,
        completion_percent: config.completion,
        num_want: 50,
        randomize_rates: !config.no_randomize,
        random_range_percent: config.random_range,
        stop_at_ratio: config.stop_ratio,
        stop_at_uploaded: optional_in_smaller_unit(config.stop_uploaded, BYTES_PER_GB),
        stop_at_downloaded: optional_in_smaller_unit(config.stop_downloaded, BYTES_PER_GB),
        stop_at_seed_time: optional_in_smaller_unit(config.stop_time, SECS_PER_HOUR),
        stop_when_no_leechers: config.stop_when_no_leechers,
        progressive_rates: config.progressive,
        target_upload_rate: config.target_upload,
        target_download_rate: config.target_download,
        progressive_duration: in_smaller_unit(config.progressive_duration, SECS_PER_HOUR),
        announce_interval: 1800,
        update_interval: 5,
    }
}

fn convert(millionths: i64, per_unit: u64) -> (r: u64)
    ensures
        r == in_smaller_unit(millionths, per_unit),
{
    if millionths <= 0 {
        0
    } else {
        scale(millionths as u64, per_unit, 1, 1_000_000)
    }
}

fn convert_optional(millionths: Option<i64>, per_unit: u64) -> (r: Option<u64>)
    ensures
        r == optional_in_smaller_unit(millionths, per_unit),
{
    match millionths {
        Some(m) => Some(convert(m, per_unit)),
        None => None,
    }
}

/// The configuration of the session that a run asks for: gigabytes
/// become bytes and hours become seconds.
pub fn create_faker_config(config: &RunnerConfig) -> (r: FakerConfig)
    ensures
        r == faker_config_of(*config),
{
    FakerConfig {
        upload_rate: config.upload_rate,
        download_rate: config.download_rate,
        port: config.port,
        client_type: client_type_of(config.client),
        client_version: config.client_version.clone(),
        initial_uploaded: config.initial_uploaded,
        initial_downloaded: config.initial_downloaded,
        completion_percent: config.completion,
        num_want: 50,
        randomize_rates: !config.no_randomize,
        random_range_percent: config.random_range,
        stop_at_ratio: config.stop_ratio,
        stop_at_uploaded: convert_optional(config.stop_uploaded, BYTES_PER_GB),
        stop_at_downloaded: convert_optional(config.stop_downloaded, BYTES_PER_GB),
        stop_at_seed_time: convert_optional(config.stop_time, SECS_PER_HOUR),
        stop_when_no_leechers: config.stop_when_no_leechers,
        progressive_rates: config.progressive,
        target_upload_rate: config.target_upload,
        target_download_rate: config.target_download,
        progressive_duration: convert(config.progressive_duration, SECS_PER_HOUR),
        announce_interval: 1800,
        update_interval: 5,
    }
}

/// The settings of a server, as its environment gives them.
#[derive(Debug, Clone)]
pub struct ServerConfig {
    pub client_default_type: String,
    pub client_default_port: u16,
    pub client_default_num_want: u32,
    pub faker_default_upload_rate: i64,
    pub faker_default_download_rate: i64,
    /// Seconds.
    pub faker_default_announce_interval: u64,
    /// Seconds.
    pub faker_update_interval: u64,
    pub ui_window_width: u32,
    pub ui_window_height: u32,
    pub ui_dark_mode: bool,
}

/// The configuration that a server gives to a session that names none:
/// a finished torrent that is seeded for 31 days at rates that vary by
/// half, as the client that the settings name, or as Transmission where
/// they name none that is known.
pub open spec fn server_defaults(config: ServerConfig) -> FakerConfig {
    FakerConfig {
        upload_rate: config.faker_default_upload_rate,
        download_rate: config.faker_default_download_rate,
        port: config.client_default_port,
        client_type: match client_named(config.client_default_type@) {
            Some(t) => t,
            None => ClientType::Transmission,
        },
        client_version: None,
        initial_uploaded: 0,
        initial_downloaded: 0,
        completion_percent: 100_000_000,
        num_want: config.client_default_num_want,
        randomize_rates: true,
        random_range_percent: 50_000_000,
        stop_at_ratio: None,
        stop_at_uploaded: None,
        stop_at_downloaded: None,
        stop_at_seed_time: Some(2_678_400u64),
        stop_when_no_leechers: false,
        progressive_rates: false,
        target_upload_rate: None,
        target_download_rate: None,
        progressive_duration: 3600,
        announce_interval: config.faker_default_announce_interval,
        update_interval: config.faker_update_interval,
    }
}

impl ServerConfig {
    /// The configuration of a session that names none.
    pub fn to_faker_defaults(&self) -> (r: FakerConfig)
        ensures
            r == server_defaults(*self),
    {
        FakerConfig {
            upload_rate: self.faker_default_upload_rate,
            download_rate: self.faker_default_download_rate,
            port: self.client_default_port,
            client_type: match client_type_named(self.client_default_type.as_str()) {
                Some(t) => t,
                None => ClientType::Transmission,
            },
            client_version: None,
            initial_uploaded: 0,
            initial_downloaded: 0,
            completion_percent: 100_000_000,
            num_want: self.client_default_num_want,
            randomize_rates: true,
            random_range_percent: 50_000_000,
            stop_at_ratio: None,
            stop_at_uploaded: None,
            stop_at_downloaded: None,
            stop_at_seed_time: Some(2_678_400),
            stop_when_no_leechers: false,
            progressive_rates: false,
            target_upload_rate: None,
            target_download_rate: None,
            progressive_duration: 3600,
            announce_interval: self.faker_default_announce_interval,
            update_interval: self.faker_update_interval,
        }
    }
}

} // verus!
