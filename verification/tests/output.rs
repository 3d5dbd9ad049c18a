use rustatio::config::{
    default_announce_interval, default_client_type, default_dark_mode, default_download_rate,
    default_num_want, default_port, default_show_logs, default_update_interval,
    default_upload_rate, default_window_height, default_window_width, AppConfig,
};
use rustatio::faker::{determine_stop_reason, first_stop_reason, FakerConfig, FakerState, FakerStats, StopReason};
use rustatio::output::{
    date_or_number, format_bytes, format_duration, format_state, join_path, AnnounceType,
    ClientsOutput, TorrentInfoOutput,
};
use rustatio::torrent::info::{TorrentFile, TorrentInfo};
use rustatio::runner::{
    client_type_named, client_type_of, create_faker_config, runner_command_of, ClientArg,
    InputCommand, RunnerCommand, RunnerConfig, ServerConfig,
};
use rustatio::session::Session;
use rustatio::torrent::client::ClientType;

#[test]
fn test_default_config() {
    let config = AppConfig::default();
    assert_eq!(config.faker.default_upload_rate as f64 / 1e6, 50.0);
    assert_eq!(config.faker.default_download_rate as f64 / 1e6, 100.0);
}

#[test]
fn defaults_of_every_setting() {
    assert_eq!(default_client_type(), ClientType::QBittorrent);
    assert_eq!(default_port(), 6881);
    assert_eq!(default_num_want(), 50);
    assert_eq!(default_upload_rate(), 50_000_000);
    assert_eq!(default_download_rate(), 100_000_000);
    assert_eq!(default_announce_interval(), 1800);
    assert_eq!(default_update_interval(), 5);
    assert_eq!(default_window_width(), 1200);
    assert_eq!(default_window_height(), 800);
    assert!(default_dark_mode());
    assert!(!default_show_logs());
    let config = AppConfig::default();
    assert_eq!(config.client.default_type, ClientType::QBittorrent);
    assert!(config.client.default_version.is_none());
    assert_eq!(config.client.default_port, 6881);
    assert_eq!(config.client.default_num_want, 50);
    assert_eq!(config.faker.default_announce_interval, 1800);
    assert_eq!(config.faker.update_interval, 5);
    assert_eq!(config.ui.window_width, 1200);
    assert_eq!(config.ui.window_height, 800);
    assert!(config.ui.dark_mode);
    assert!(!config.ui.show_logs);
    assert!(config.instances.is_empty());
    assert!(config.active_instance_id.is_none());
}

#[test]
fn bytes_for_people() {
    assert_eq!(format_bytes(0), "0 B");
    assert_eq!(format_bytes(1023), "1023 B");
    assert_eq!(format_bytes(1024), "1.00 KB");
    assert_eq!(format_bytes(1536), "1.50 KB");
    assert_eq!(format_bytes(1048576), "1.00 MB");
    assert_eq!(format_bytes(1048575), "1024.00 KB");
    assert_eq!(format_bytes(1_073_741_824), "1.00 GB");
    assert_eq!(format_bytes(1_099_511_627_776), "1.00 TB");
    assert_eq!(format_bytes(123_456_789), "117.74 MB");
    assert_eq!(format_bytes(u64::MAX), "16777216.00 TB");
    for bytes in [1152u64, 1157, 1162, 1163, 2047, 5_000_000, 987_654_321_012] {
        let unit = if bytes >= 1 << 40 {
            (1u64 << 40, "TB")
        } else if bytes >= 1 << 30 {
            (1 << 30, "GB")
        } else if bytes >= 1 << 20 {
            (1 << 20, "MB")
        } else {
            (1 << 10, "KB")
        };
        assert_eq!(
            format_bytes(bytes),
            format!("{:.2} {}", bytes as f64 / unit.0 as f64, unit.1)
        );
    }
}

#[test]
fn durations_for_people() {
    assert_eq!(format_duration(0), "0s");
    assert_eq!(format_duration(59), "59s");
    assert_eq!(format_duration(60), "1m 00s");
    assert_eq!(format_duration(61), "1m 01s");
    assert_eq!(format_duration(3599), "59m 59s");
    assert_eq!(format_duration(3600), "1h 00m 00s");
    assert_eq!(format_duration(3661), "1h 01m 01s");
    assert_eq!(format_duration(360_000), "100h 00m 00s");
}

#[test]
fn state_names() {
    assert_eq!(format_state(&FakerState::Idle), "idle");
    assert_eq!(format_state(&FakerState::Running), "running");
    assert_eq!(format_state(&FakerState::Paused), "paused");
    assert_eq!(format_state(&FakerState::Stopped), "stopped");
    assert_eq!(format_state(&FakerState::Completed), "completed");
    assert_ne!(AnnounceType::Started, AnnounceType::Periodic);
}

#[test]
fn clients_listing() {
    let listing = ClientsOutput::new();
    let shown: Vec<(&str, &str, &str)> = listing
        .clients
        .iter()
        .map(|c| (c.id.as_str(), c.name.as_str(), c.default_version.as_str()))
        .collect();
    assert_eq!(
        shown,
        vec![
            ("qbittorrent", "qBittorrent", "5.1.4"),
            ("utorrent", "uTorrent", "3.5.5"),
            ("transmission", "Transmission", "4.0.5"),
            ("deluge", "Deluge", "2.1.1"),
        ]
    );
}

#[test]
fn test_session_create_and_update() {
    // torrent_size = 50 MB, so 100 MB uploaded = ratio 2.0
    let torrent_size = 1024 * 1024 * 50; // 50 MB
    let mut session = Session::new(
        "abcdef1234567890",
        "Test Torrent",
        "/path/to/test.torrent",
        torrent_size,
        "qbittorrent",
        Some("5.1.4".to_string()),
        1_700_000_000,
    );

    assert_eq!(session.uploaded, 0);
    assert_eq!(session.ratio().unwrap() as f64 / 1e6, 0.0);

    session.update(1024 * 1024 * 100, 1024 * 1024 * 50, 3600, 1_700_003_600);
    assert_eq!(session.uploaded, 1024 * 1024 * 100);
    // 100 MB uploaded / 50 MB torrent size = 2.0 ratio
    assert_eq!(session.ratio().unwrap() as f64 / 1e6, 2.0);
}

#[test]
fn session_keeps_its_times_and_sums_the_seed_time() {
    let mut session = Session::new("h", "n", "p", 0, "deluge", None, 10);
    assert_eq!(session.version, 1);
    assert_eq!(session.created_at, 10);
    assert_eq!(session.updated_at, 10);
    assert_eq!(session.upload_rate, 50_000_000);
    assert_eq!(session.download_rate, 100_000_000);
    assert_eq!(session.port, 6881);
    assert_eq!(session.ratio(), Some(0));
    assert_eq!(session.summary().ratio_display, "0.000");
    session.update(5, 6, 100, 20);
    session.update(7, 8, 50, 30);
    assert_eq!(session.uploaded, 7);
    assert_eq!(session.downloaded, 8);
    assert_eq!(session.total_seed_time_secs, 150);
    assert_eq!(session.created_at, 10);
    assert_eq!(session.updated_at, 30);
    assert_eq!(session.ratio(), None);
    let summary = session.summary();
    assert_eq!(summary.ratio, None);
    assert_eq!(summary.ratio_display, "inf");
    assert_eq!(summary.info_hash, "h");
    assert_eq!(summary.torrent_name, "n");
    assert_eq!(summary.total_seed_time_secs, 150);
    assert_eq!(summary.updated_at, 30);
    session.update(0, 0, u64::MAX, 40);
    assert_eq!(session.total_seed_time_secs, u64::MAX);
}

#[test]
fn session_ratio_is_written_with_three_decimals() {
    let mut session = Session::new("h", "n", "p", 3000, "c", None, 0);
    for uploaded in [0u64, 1, 1000, 1500, 4500, 2999, 3000, 123_456_789] {
        session.update(uploaded, 0, 0, 0);
        let summary = session.summary();
        assert_eq!(summary.ratio_display, format!("{:.3}", uploaded as f64 / 3000.0));
        assert_eq!(summary.ratio, Some(uploaded * 1_000_000 / 3000));
    }
    let mut session = Session::new("h", "n", "p", 16, "c", None, 0);
    session.update(1, 0, 0, 0);
    assert_eq!(session.summary().ratio_display, "0.062");
    session.update(3, 0, 0, 0);
    assert_eq!(session.summary().ratio_display, "0.188");
}

fn run() -> RunnerConfig {
    RunnerConfig {
        torrent_path: "t.torrent".to_string(),
        client: ClientArg::Deluge,
        client_version: Some("2.0.0".to_string()),
        upload_rate: 1,
        download_rate: 2,
        port: 7000,
        completion: 3,
        initial_uploaded: 4,
        initial_downloaded: 5,
        stop_ratio: Some(6),
        stop_uploaded: Some(1_500_000),
        stop_downloaded: Some(-1),
        stop_time: Some(2_500_000),
        stop_when_no_leechers: true,
        no_randomize: true,
        random_range: 7,
        progressive: true,
        target_upload: Some(8),
        target_download: None,
        progressive_duration: 500_000,
        json_mode: false,
        stats_interval: 1,
        save_session: false,
        info_hash: String::new(),
        torrent_name: String::new(),
        torrent_size: 0,
    }
}

#[test]
fn run_configuration_becomes_session_configuration() {
    let config = create_faker_config(&run());
    assert_eq!(config.upload_rate, 1);
    assert_eq!(config.download_rate, 2);
    assert_eq!(config.port, 7000);
    assert_eq!(config.client_type, ClientType::Deluge);
    assert_eq!(config.client_version.as_deref(), Some("2.0.0"));
    assert_eq!(config.initial_uploaded, 4);
    assert_eq!(config.initial_downloaded, 5);
    assert_eq!(config.completion_percent, 3);
    assert_eq!(config.num_want, 50);
    assert!(!config.randomize_rates);
    assert_eq!(config.random_range_percent, 7);
    assert_eq!(config.stop_at_ratio, Some(6));
    assert_eq!(config.stop_at_uploaded, Some(1_610_612_736));
    assert_eq!(config.stop_at_downloaded, Some(0));
    assert_eq!(config.stop_at_seed_time, Some(9000));
    assert!(config.stop_when_no_leechers);
    assert!(config.progressive_rates);
    assert_eq!(config.target_upload_rate, Some(8));
    assert_eq!(config.target_download_rate, None);
    assert_eq!(config.progressive_duration, 1800);
    assert_eq!(config.announce_interval, 1800);
    assert_eq!(config.update_interval, 5);
}

#[test]
fn clients_and_commands_by_name() {
    assert_eq!(client_type_of(ClientArg::Qbittorrent), ClientType::QBittorrent);
    assert_eq!(client_type_of(ClientArg::Utorrent), ClientType::UTorrent);
    assert_eq!(client_type_of(ClientArg::Transmission), ClientType::Transmission);
    assert_eq!(client_type_of(ClientArg::Deluge), ClientType::Deluge);
    assert_eq!(client_type_named("utorrent"), Some(ClientType::UTorrent));
    assert_eq!(client_type_named("qbittorrent"), Some(ClientType::QBittorrent));
    assert_eq!(client_type_named("transmission"), Some(ClientType::Transmission));
    assert_eq!(client_type_named("deluge"), Some(ClientType::Deluge));
    assert_eq!(client_type_named("Deluge"), None);
    assert_eq!(client_type_named(""), None);
    assert_eq!(runner_command_of(InputCommand::Pause), RunnerCommand::Pause);
    assert_eq!(runner_command_of(InputCommand::Resume), RunnerCommand::Resume);
    assert_eq!(runner_command_of(InputCommand::Stop), RunnerCommand::Stop);
    assert_eq!(runner_command_of(InputCommand::Scrape), RunnerCommand::Scrape);
    assert_eq!(runner_command_of(InputCommand::Stats), RunnerCommand::Stats);
}

#[test]
fn server_defaults() {
    let server = ServerConfig {
        client_default_type: "transmission".to_string(),
        client_default_port: 59859,
        client_default_num_want: 50,
        faker_default_upload_rate: 700_000_000,
        faker_default_download_rate: 0,
        faker_default_announce_interval: 1800,
        faker_update_interval: 5,
        ui_window_width: 1200,
        ui_window_height: 800,
        ui_dark_mode: true,
    };
    let config = server.to_faker_defaults();
    assert_eq!(config.upload_rate, 700_000_000);
    assert_eq!(config.download_rate, 0);
    assert_eq!(config.port, 59859);
    assert_eq!(config.client_type, ClientType::Transmission);
    assert_eq!(config.completion_percent, 100_000_000);
    assert_eq!(config.random_range_percent, 50_000_000);
    assert!(config.randomize_rates);
    assert_eq!(config.stop_at_seed_time, Some(2_678_400));
    assert_eq!(config.progressive_duration, 3600);
    let mut other = server.clone();
    other.client_default_type = "qbittorrent".to_string();
    assert_eq!(other.to_faker_defaults().client_type, ClientType::QBittorrent);
    other.client_default_type = "unknown".to_string();
    assert_eq!(other.to_faker_defaults().client_type, ClientType::Transmission);
}

fn stats() -> FakerStats {
    FakerStats {
        uploaded: 0,
        downloaded: 0,
        left: 0,
        seeders: 0,
        leechers: 1,
        ratio: 0,
        session_ratio: 0,
        elapsed_time: 0,
        state: FakerState::Stopped,
        last_announce: None,
        next_announce: None,
        announce_count: 0,
        session_uploaded: 0,
        session_downloaded: 0,
        current_upload_rate: 0,
        current_download_rate: 0,
        average_upload_rate: 0,
        average_download_rate: 0,
        upload_progress: 0,
        download_progress: 0,
        ratio_progress: 0,
        seed_time_progress: 0,
        eta_ratio: None,
        eta_uploaded: None,
        eta_seed_time: None,
        upload_rate_history: vec![],
        download_rate_history: vec![],
        ratio_history: vec![],
    }
}

#[test]
fn stop_reason_is_told_from_the_figures() {
    let mut config = FakerConfig::default();
    let mut figures = stats();
    assert_eq!(first_stop_reason(&config, &figures), None);
    assert_eq!(determine_stop_reason(&config, &figures), StopReason::UserInterrupt);
    config.stop_when_no_leechers = true;
    figures.leechers = 0;
    assert_eq!(determine_stop_reason(&config, &figures), StopReason::UserInterrupt);
    figures.announce_count = 1;
    assert_eq!(determine_stop_reason(&config, &figures), StopReason::NoLeechers);
    config.stop_at_seed_time = Some(3);
    figures.elapsed_time = 3000;
    assert_eq!(determine_stop_reason(&config, &figures), StopReason::TargetSeedTime);
    config.stop_at_downloaded = Some(10);
    figures.session_downloaded = 10;
    assert_eq!(determine_stop_reason(&config, &figures), StopReason::TargetDownloaded);
    config.stop_at_uploaded = Some(10);
    figures.session_uploaded = 11;
    assert_eq!(determine_stop_reason(&config, &figures), StopReason::TargetUploaded);
    config.stop_at_ratio = Some(1_500_000);
    figures.ratio = 1_498_999;
    assert_eq!(determine_stop_reason(&config, &figures), StopReason::TargetUploaded);
    figures.ratio = 1_499_000;
    assert_eq!(determine_stop_reason(&config, &figures), StopReason::TargetRatio);
}

#[test]
fn torrent_listing_shows_every_field() {
    let torrent = TorrentInfo {
        info_hash: [0xab; 20],
        announce: "http://a/announce".to_string(),
        announce_list: Some(vec![vec!["http://b/announce".to_string(), "http://a/announce".to_string()]]),
        name: "pack".to_string(),
        total_size: 1536 + 1_048_576,
        piece_length: 16384,
        num_pieces: 65,
        creation_date: Some(1_431_648_000),
        comment: Some("hello".to_string()),
        created_by: None,
        is_single_file: false,
        files: vec![
            TorrentFile { path: vec!["dir".to_string(), "sub".to_string(), "a.bin".to_string()], length: 1536 },
            TorrentFile { path: vec!["b.bin".to_string()], length: 1_048_576 },
            TorrentFile { path: vec![], length: 0 },
        ],
    };
    let shown = TorrentInfoOutput::from(&torrent);
    assert_eq!(shown.name, "pack");
    assert_eq!(shown.size, 1_050_112);
    assert_eq!(shown.size_human, "1.00 MB");
    assert_eq!(shown.info_hash, "ab".repeat(20));
    assert_eq!(shown.tracker, "http://a/announce");
    assert_eq!(shown.trackers, vec!["http://a/announce".to_string(), "http://b/announce".to_string()]);
    assert_eq!(shown.num_pieces, 65);
    assert_eq!(shown.piece_length, 16384);
    assert_eq!(shown.piece_length_human, "16.00 KB");
    assert!(!shown.is_single_file);
    assert_eq!(shown.files.len(), 3);
    assert_eq!(shown.files[0].path, "dir/sub/a.bin");
    assert_eq!(shown.files[0].size, 1536);
    assert_eq!(shown.files[0].size_human, "1.50 KB");
    assert_eq!(shown.files[1].path, "b.bin");
    assert_eq!(shown.files[1].size_human, "1.00 MB");
    assert_eq!(shown.files[2].path, "");
    assert_eq!(shown.files[2].size_human, "0 B");
    assert_eq!(shown.creation_date.as_deref(), Some("2015-05-15 00:00:00 UTC"));
    assert_eq!(shown.comment.as_deref(), Some("hello"));
    assert!(shown.created_by.is_none());

    let mut undated = torrent.clone();
    undated.creation_date = None;
    assert!(TorrentInfoOutput::from(&undated).creation_date.is_none());
    let mut early = torrent.clone();
    early.creation_date = Some(-1);
    assert_eq!(
        TorrentInfoOutput::from(&early).creation_date.as_deref(),
        Some("1969-12-31 23:59:59 UTC")
    );
    let mut far = torrent.clone();
    far.creation_date = Some(i64::MAX);
    assert_eq!(
        TorrentInfoOutput::from(&far).creation_date.as_deref(),
        Some("9223372036854775807")
    );
    far.creation_date = Some(i64::MIN);
    assert_eq!(
        TorrentInfoOutput::from(&far).creation_date.as_deref(),
        Some("-9223372036854775808")
    );
    assert_eq!(date_or_number(5, Some("x".to_string())), "x");
    assert_eq!(date_or_number(-5, None), "-5");
    assert_eq!(date_or_number(0, None), "0");
    assert_eq!(join_path(&vec!["a".to_string(), "".to_string(), "c".to_string()]), "a//c");
}
