use rustatio::faker::{
    jitter_from_pick, jitter_span_of, FakerConfig, FakerError, FakerState, FakerStats,
    RatioFaker, StopReason, TickOutcome,
};
use rustatio::protocol::tracker::{AnnounceResponse, TrackerEvent};
use rustatio::torrent::client::{ClientConfig, ClientType};
use rustatio::torrent::info::TorrentInfo;

const KIB: i64 = 1_000_000;
const PERCENT: i64 = 1_000_000;
const MIB: u64 = 1_048_576;

fn torrent(total_size: u64) -> TorrentInfo {
    TorrentInfo {
        info_hash: [7u8; 20],
        announce: "http://tracker.example.com/announce".to_string(),
        announce_list: None,
        name: "test".to_string(),
        total_size,
        piece_length: 16384,
        num_pieces: 64,
        creation_date: None,
        comment: None,
        created_by: None,
        is_single_file: true,
        files: vec![],
    }
}

fn steady(upload: i64, download: i64) -> FakerConfig {
    let mut config = FakerConfig::default();
    config.upload_rate = upload;
    config.download_rate = download;
    config.randomize_rates = false;
    config
}

fn session(total_size: u64, config: FakerConfig) -> RatioFaker {
    RatioFaker::with_identity(
        torrent(total_size),
        config,
        ClientConfig::get(ClientType::QBittorrent, None),
        "-qB5140-abcdefghijkl".to_string(),
        "0123ABCD".to_string(),
        0,
    )
}

fn response(interval: i64, seeders: i64, leechers: i64) -> AnnounceResponse {
    AnnounceResponse {
        interval,
        min_interval: None,
        tracker_id: None,
        complete: seeders,
        incomplete: leechers,
        warning: None,
    }
}

fn tick(faker: &mut RatioFaker, now: u64) -> TickOutcome {
    faker.update(now, 0, 0).unwrap()
}

#[test]
fn test_faker_config_default() {
    let config = FakerConfig::default();
    assert_eq!(config.upload_rate as f64 / 1e6, 50.0);
    assert_eq!(config.download_rate as f64 / 1e6, 100.0);
}

#[test]
fn default_config_has_every_default() {
    let config = FakerConfig::default();
    assert_eq!(config.port, 6881);
    assert_eq!(config.client_type, ClientType::QBittorrent);
    assert!(config.client_version.is_none());
    assert_eq!(config.num_want, 50);
    assert!(config.randomize_rates);
    assert_eq!(config.random_range_percent, 20 * PERCENT);
    assert_eq!(config.progressive_duration, 3600);
    assert_eq!(config.announce_interval, 1800);
    assert_eq!(config.update_interval, 5);
    assert!(!config.progressive_rates);
    assert!(!config.stop_when_no_leechers);
    assert!(config.stop_at_ratio.is_none());
    let copy = config.clone();
    assert_eq!(copy.upload_rate, config.upload_rate);
    assert_eq!(copy.announce_interval, config.announce_interval);
}

#[test]
fn new_session_is_idle_with_its_initial_counters() {
    let mut config = steady(50 * KIB, 100 * KIB);
    config.initial_uploaded = 500;
    config.initial_downloaded = 100;
    config.completion_percent = 25 * PERCENT;
    let faker = session(1000, config);
    let stats = faker.get_stats();
    assert_eq!(stats.state, FakerState::Idle);
    assert_eq!(faker.state, FakerState::Idle);
    assert_eq!(stats.uploaded, 500);
    assert_eq!(stats.downloaded, 350);
    assert_eq!(stats.left, 650);
    assert_eq!(stats.ratio, 500_000);
    assert_eq!(stats.session_uploaded, 0);
    assert_eq!(stats.session_downloaded, 0);
    assert_eq!(stats.announce_count, 0);
    assert!(stats.last_announce.is_none());
    assert!(stats.next_announce.is_none());
    assert!(stats.upload_rate_history.is_empty());
    assert_eq!(faker.announce_interval, 1800);
    assert_eq!(faker.get_torrent().total_size, 1000);
}

#[test]
fn completion_is_taken_between_nothing_and_all() {
    let mut config = steady(0, 0);
    config.completion_percent = 250 * PERCENT;
    assert_eq!(session(1000, config).get_stats().left, 0);
    let mut config = steady(0, 0);
    config.completion_percent = -5 * PERCENT;
    assert_eq!(session(1000, config).get_stats().left, 1000);
    let mut config = steady(0, 0);
    config.completion_percent = 99_990_000;
    assert_eq!(session(MIB, config).get_stats().left, 105);
}

#[test]
fn generated_identity_has_its_shape() {
    let faker = RatioFaker::new(torrent(1000), FakerConfig::default(), 5).unwrap();
    assert_eq!(faker.peer_id.len(), 20);
    assert!(faker.peer_id.starts_with("-qB5140-"));
    assert!(faker.peer_id.as_bytes()[8..].iter().all(|b| b.is_ascii_alphanumeric()));
    assert_eq!(faker.key.len(), 8);
    assert!(faker.key.chars().all(|c| c.is_ascii_digit() || ('A'..='F').contains(&c)));
    assert_eq!(faker.start_time, 5);
    assert_eq!(faker.state, FakerState::Idle);
}

#[test]
fn start_gives_the_started_announce() {
    let mut faker = session(1000, steady(50 * KIB, 0));
    let request = faker.start(10_000).unwrap();
    assert_eq!(request.event, TrackerEvent::Started);
    assert_eq!(request.info_hash, [7u8; 20]);
    assert_eq!(request.peer_id, "-qB5140-abcdefghijkl");
    assert_eq!(request.port, 6881);
    assert_eq!(request.uploaded, 0);
    assert_eq!(request.downloaded, 0);
    assert_eq!(request.left, 1000);
    assert!(request.compact);
    assert!(!request.no_peer_id);
    assert!(request.ip.is_none());
    assert_eq!(request.numwant, Some(50));
    assert_eq!(request.key.as_deref(), Some("0123ABCD"));
    assert!(request.tracker_id.is_none());
    assert_eq!(faker.state, FakerState::Running);
    assert_eq!(faker.get_stats().state, FakerState::Running);
    assert_eq!(faker.get_stats().last_announce, Some(10_000));
    assert_eq!(faker.get_stats().next_announce, Some(10_000 + 1_800_000));
    match faker.start(11_000) {
        Err(FakerError::InvalidState(m)) => assert_eq!(m, "Session is already under way"),
        _ => panic!("expected InvalidState"),
    }
    assert_eq!(faker.start_time, 10_000);
}

#[test]
fn tick_of_an_idle_session_is_an_error() {
    let mut faker = session(1000, steady(50 * KIB, 0));
    match faker.update(5000, 0, 0) {
        Err(e) => {
            assert!(matches!(e, FakerError::InvalidState(_)));
            assert_eq!(e.message(), "Invalid state: Session is not under way");
        }
        Ok(_) => panic!("expected InvalidState"),
    }
    assert_eq!(faker.get_stats().uploaded, 0);
    assert!(faker.update_stats_only(5000, 0, 0).is_err());
    assert!(faker.tick(5000).is_err());
    assert!(faker.pause().is_err());
    assert!(faker.resume(1).is_err());
}

#[test]
fn tick_moves_rate_times_time() {
    let mut faker = session(10 * MIB, steady(50 * KIB, 100 * KIB));
    faker.start(0).unwrap();
    let outcome = tick(&mut faker, 5000);
    assert!(!outcome.completed);
    assert!(outcome.stopped.is_none());
    assert!(!outcome.announce);
    let stats = faker.get_stats();
    assert_eq!(stats.uploaded, 256_000);
    assert_eq!(stats.session_uploaded, 256_000);
    assert_eq!(stats.downloaded, 512_000);
    assert_eq!(stats.session_downloaded, 512_000);
    assert_eq!(stats.left, 10 * MIB - 512_000);
    assert_eq!(stats.current_upload_rate, 50 * KIB);
    assert_eq!(stats.current_download_rate, 100 * KIB);
    assert_eq!(stats.elapsed_time, 5000);
    assert_eq!(stats.average_upload_rate, 50_000_000);
    assert_eq!(stats.average_download_rate, 100_000_000);
    assert_eq!(stats.ratio, 256_000 * 1_000_000 / (10 * MIB));
    assert_eq!(stats.session_ratio, 500_000);
    assert_eq!(stats.upload_rate_history, vec![50 * KIB]);
    assert_eq!(stats.download_rate_history, vec![100 * KIB]);
    assert_eq!(stats.ratio_history, vec![stats.ratio]);
    tick(&mut faker, 5500);
    assert_eq!(faker.get_stats().uploaded, 256_000 + 25_600);
}

#[test]
fn jitter_scales_the_rate_within_its_range() {
    let mut config = steady(50 * KIB, 0);
    config.randomize_rates = true;
    config.random_range_percent = 20 * PERCENT;
    let mut faker = session(MIB, config.clone());
    faker.start(0).unwrap();
    faker.update(5000, 100_000, 0).unwrap();
    assert_eq!(faker.get_stats().current_upload_rate, 55 * KIB);
    assert_eq!(faker.get_stats().uploaded, 281_600);

    let mut faker = session(MIB, config.clone());
    faker.start(0).unwrap();
    faker.update(5000, -100_000, 0).unwrap();
    assert_eq!(faker.get_stats().uploaded, 230_400);

    let mut faker = session(MIB, config.clone());
    faker.start(0).unwrap();
    faker.update(5000, 500_000, 0).unwrap();
    assert_eq!(faker.get_stats().current_upload_rate, 60 * KIB);
    assert_eq!(faker.get_stats().uploaded, 307_200);

    let mut faker = session(MIB, config);
    faker.start(0).unwrap();
    faker.update(5000, -500_000, 0).unwrap();
    assert_eq!(faker.get_stats().current_upload_rate, 40 * KIB);
}

#[test]
fn jitter_beyond_all_adds_nothing() {
    let mut config = steady(50 * KIB, 0);
    config.randomize_rates = true;
    config.random_range_percent = 300 * PERCENT;
    let mut faker = session(MIB, config);
    faker.start(0).unwrap();
    faker.update(5000, -2_000_000, 0).unwrap();
    let stats = faker.get_stats();
    assert_eq!(stats.current_upload_rate, -50 * KIB);
    assert_eq!(stats.uploaded, 0);
    assert_eq!(stats.session_uploaded, 0);
}

#[test]
fn zero_upload_rate_uploads_nothing_whatever_the_jitter() {
    let mut config = steady(0, 0);
    config.randomize_rates = true;
    config.random_range_percent = 100 * PERCENT;
    let mut faker = session(MIB, config);
    faker.start(0).unwrap();
    for (i, jitter) in [0i64, 1_000_000, -1_000_000, 123_456].iter().enumerate() {
        faker.update(5000 * (i as u64 + 1), *jitter, *jitter).unwrap();
        assert_eq!(faker.get_stats().uploaded, 0);
        assert_eq!(faker.get_stats().session_uploaded, 0);
    }
}

#[test]
fn no_jitter_range_gives_the_base_rate() {
    let mut config = steady(50 * KIB, 30 * KIB);
    config.randomize_rates = true;
    config.random_range_percent = 0;
    let mut faker = session(100 * MIB, config);
    faker.start(0).unwrap();
    for (i, jitter) in [999_999i64, -999_999, 1, i64::MAX, i64::MIN].iter().enumerate() {
        faker.update(1000 * (i as u64 + 1), *jitter, -*jitter.max(&(i64::MIN + 1))).unwrap();
        let stats = faker.get_stats();
        assert_eq!(stats.current_upload_rate, 50 * KIB);
        assert_eq!(stats.current_download_rate, 30 * KIB);
        assert_eq!(stats.uploaded, 51_200 * (i as u64 + 1));
    }
}

#[test]
fn drawn_jitter_stays_in_its_range() {
    let mut config = steady(50 * KIB, 0);
    config.random_range_percent = 20 * PERCENT;
    let faker = session(MIB, config);
    for _ in 0..200 {
        let j = faker.draw_jitter();
        assert!((-200_000..=200_000).contains(&j));
    }
    let mut config = steady(50 * KIB, 0);
    config.random_range_percent = -3;
    let faker = session(MIB, config);
    assert_eq!(faker.draw_jitter(), 0);
}

#[test]
fn tick_with_draws_of_its_own_stays_in_range() {
    let mut config = FakerConfig::default();
    config.upload_rate = 100 * KIB;
    config.download_rate = 0;
    let mut faker = session(MIB, config);
    faker.start(0).unwrap();
    let mut last = 0;
    for i in 1..=20u64 {
        faker.tick(i * 1000).unwrap();
        let stats = faker.get_stats();
        let delta = stats.uploaded - last;
        assert!((81_920..=122_880).contains(&delta));
        assert!(stats.session_uploaded >= last);
        last = stats.uploaded;
    }
}

#[test]
fn progressive_rate_moves_towards_its_target() {
    let mut config = steady(0, 100 * KIB);
    config.progressive_rates = true;
    config.target_upload_rate = Some(100 * KIB);
    config.target_download_rate = Some(20 * KIB);
    config.progressive_duration = 100;
    let mut faker = session(1000 * MIB, config);
    faker.start(0).unwrap();
    tick(&mut faker, 25_000);
    assert_eq!(faker.get_stats().current_upload_rate, 0);
    assert_eq!(faker.get_stats().current_download_rate, 100 * KIB);
    tick(&mut faker, 50_000);
    assert_eq!(faker.get_stats().current_upload_rate, 25 * KIB);
    assert_eq!(faker.get_stats().current_download_rate, 80 * KIB);
    tick(&mut faker, 100_000);
    assert_eq!(faker.get_stats().current_upload_rate, 50 * KIB);
    tick(&mut faker, 250_000);
    assert_eq!(faker.get_stats().current_upload_rate, 100 * KIB);
    assert_eq!(faker.get_stats().current_download_rate, 20 * KIB);
    tick(&mut faker, 300_000);
    assert_eq!(faker.get_stats().current_upload_rate, 100 * KIB);
}

#[test]
fn download_stops_at_completion_and_completed_comes_once() {
    let mut config = steady(0, 1024 * KIB);
    config.completion_percent = 99_990_000;
    let mut faker = session(MIB, config);
    faker.start(0).unwrap();
    faker.announce_succeeded(TrackerEvent::Started, &response(60, 1, 1), 0);
    assert_eq!(faker.get_stats().left, 105);
    let before = faker.get_stats().downloaded;
    let outcome = tick(&mut faker, 5000);
    assert!(outcome.completed);
    assert!(outcome.stopped.is_none());
    let stats = faker.get_stats();
    assert_eq!(stats.left, 0);
    assert_eq!(stats.downloaded, before + 105);
    assert_eq!(stats.session_downloaded, 105);
    assert_eq!(stats.state, FakerState::Completed);
    assert_eq!(faker.state, FakerState::Completed);
    let request = faker.announce_request(TrackerEvent::Completed);
    assert_eq!(request.left, 0);
    assert_eq!(request.event, TrackerEvent::Completed);

    let mut completed = 1;
    let mut periodic = 0;
    for i in 2..=40u64 {
        let outcome = tick(&mut faker, i * 5000);
        if outcome.completed {
            completed += 1;
        }
        if outcome.announce {
            periodic += 1;
            let request = faker.announce_request(TrackerEvent::Periodic);
            assert_eq!(request.left, 0);
            faker.announce_succeeded(TrackerEvent::Periodic, &response(60, 1, 1), i * 5000);
        }
        assert_eq!(faker.get_stats().left, 0);
        assert_eq!(faker.get_stats().downloaded, before + 105);
        assert_eq!(faker.state, FakerState::Completed);
    }
    assert_eq!(completed, 1);
    assert_eq!(periodic, 3);
}

#[test]
fn periodic_announces_follow_the_interval() {
    let mut faker = session(MIB, steady(10 * KIB, 0));
    let mut announces = 0;
    faker.start(0).unwrap();
    announces += 1;
    faker.announce_succeeded(TrackerEvent::Started, &response(60, 10, 4), 0);
    assert_eq!(faker.announce_interval, 60);
    assert_eq!(faker.get_stats().seeders, 10);
    assert_eq!(faker.get_stats().leechers, 4);
    assert_eq!(faker.get_stats().announce_count, 1);
    let mut now = 0;
    let mut round = 0;
    while now + 5000 <= 305_000 {
        now += 5000;
        let outcome = tick(&mut faker, now);
        if outcome.announce {
            announces += 1;
            round += 1;
            assert_eq!(now % 60_000, 0);
            faker.announce_succeeded(TrackerEvent::Periodic, &response(60, 10 + round, round), now);
            let stats = faker.get_stats();
            assert_eq!(stats.seeders, 10 + round);
            assert_eq!(stats.leechers, round);
            assert_eq!(stats.last_announce, Some(now));
            assert_eq!(stats.next_announce, Some(now + 60_000));
        }
    }
    assert_eq!(announces, 6);
    assert_eq!(faker.get_stats().announce_count, 6);
}

#[test]
fn failed_announce_is_not_retried_before_the_next_interval() {
    let mut faker = session(MIB, steady(10 * KIB, 0));
    faker.start(0).unwrap();
    faker.announce_succeeded(TrackerEvent::Started, &response(60, 0, 1), 0);
    let mut asked = vec![];
    for i in 1..=36u64 {
        if tick(&mut faker, i * 5000).announce {
            asked.push(i * 5000);
        }
    }
    assert_eq!(asked, vec![60_000, 120_000, 180_000]);
    assert_eq!(faker.get_stats().announce_count, 1);
    assert_eq!(faker.state, FakerState::Running);
}

#[test]
fn stats_only_tick_asks_for_no_announce() {
    let mut faker = session(MIB, steady(10 * KIB, 0));
    faker.start(0).unwrap();
    faker.announce_succeeded(TrackerEvent::Started, &response(1, 0, 1), 0);
    let outcome = faker.update_stats_only(5000, 0, 0).unwrap();
    assert!(!outcome.announce);
    assert_eq!(faker.get_stats().uploaded, 51_200);
    assert_eq!(faker.get_stats().next_announce, Some(1000));
    assert!(tick(&mut faker, 6000).announce);
}

#[test]
fn answer_sets_interval_and_tracker_id() {
    let mut faker = session(MIB, steady(10 * KIB, 0));
    faker.start(0).unwrap();
    let mut first = response(120, 3, 2);
    first.tracker_id = Some("tid".to_string());
    faker.announce_succeeded(TrackerEvent::Started, &first, 1000);
    assert_eq!(faker.tracker_id.as_deref(), Some("tid"));
    assert_eq!(faker.announce_interval, 120);
    assert_eq!(faker.get_stats().last_announce, Some(1000));
    assert_eq!(faker.get_stats().next_announce, Some(121_000));
    assert_eq!(faker.announce_request(TrackerEvent::Periodic).tracker_id.as_deref(), Some("tid"));
    faker.announce_succeeded(TrackerEvent::Periodic, &response(-5, 4, 0), 2000);
    assert_eq!(faker.tracker_id.as_deref(), Some("tid"));
    assert_eq!(faker.announce_interval, 0);
    assert_eq!(faker.get_stats().next_announce, Some(2000));
    faker.announce_succeeded(TrackerEvent::Completed, &response(999, 8, 9), 3000);
    assert_eq!(faker.announce_interval, 0);
    assert_eq!(faker.get_stats().seeders, 8);
    assert_eq!(faker.get_stats().leechers, 9);
    assert_eq!(faker.get_stats().last_announce, Some(2000));
    assert_eq!(faker.get_stats().announce_count, 3);
    faker.announce_succeeded(TrackerEvent::Stopped, &response(1, 1, 1), 4000);
    assert_eq!(faker.get_stats().seeders, 8);
    assert_eq!(faker.get_stats().announce_count, 3);
}

#[test]
fn stop_at_ratio_stops_the_session() {
    let mut config = steady(KIB, 0);
    config.stop_at_ratio = Some(2_000_000);
    let mut faker = session(MIB, config);
    faker.start(0).unwrap();
    let mut now = 0;
    let reason = loop {
        now += 5000;
        let outcome = tick(&mut faker, now);
        if let Some(reason) = outcome.stopped {
            assert!(!outcome.announce);
            break reason;
        }
        assert!(now < 3_000_000);
    };
    assert_eq!(reason, StopReason::TargetRatio);
    assert_eq!(now, 2_050_000);
    let stats = faker.get_stats();
    assert_eq!(stats.state, FakerState::Stopped);
    assert_eq!(faker.state, FakerState::Stopped);
    assert_eq!(stats.uploaded, 2_099_200);
    assert!(stats.uploaded.abs_diff(2_097_152) < 5 * 1024);
    assert_eq!(stats.ratio_progress, 100_000_000);
    assert!(faker.update(now + 5000, 0, 0).is_err());
    assert!(faker.stop().is_none());
}

#[test]
fn ratio_target_counts_as_reached_a_thousandth_early() {
    let mut config = steady(0, 0);
    config.stop_at_ratio = Some(2_000_000);
    config.initial_uploaded = 1_998_999;
    let mut faker = session(1_000_000, config.clone());
    faker.start(0).unwrap();
    assert!(tick(&mut faker, 1000).stopped.is_none());
    config.initial_uploaded = 1_999_000;
    let mut faker = session(1_000_000, config);
    faker.start(0).unwrap();
    assert_eq!(tick(&mut faker, 1000).stopped, Some(StopReason::TargetRatio));
}

#[test]
fn ratio_target_of_zero_stops_at_the_first_tick() {
    let mut config = steady(50 * KIB, 0);
    config.stop_at_ratio = Some(0);
    let mut faker = session(MIB, config);
    faker.start(0).unwrap();
    let outcome = tick(&mut faker, 1);
    assert_eq!(outcome.stopped, Some(StopReason::TargetRatio));
    assert_eq!(faker.state, FakerState::Stopped);
}

#[test]
fn other_stop_targets() {
    let mut config = steady(10 * KIB, 0);
    config.stop_at_uploaded = Some(100_000);
    let mut faker = session(MIB, config);
    faker.start(0).unwrap();
    assert!(tick(&mut faker, 5000).stopped.is_none());
    assert_eq!(faker.get_stats().upload_progress, 51_200_000);
    assert_eq!(faker.get_stats().eta_uploaded, Some(4));
    assert_eq!(tick(&mut faker, 10_000).stopped, Some(StopReason::TargetUploaded));
    assert_eq!(faker.get_stats().upload_progress, 100_000_000);

    let mut config = steady(0, 10 * KIB);
    config.stop_at_downloaded = Some(51_200);
    let mut faker = session(MIB, config);
    faker.start(0).unwrap();
    assert_eq!(tick(&mut faker, 5000).stopped, Some(StopReason::TargetDownloaded));

    let mut config = steady(0, 0);
    config.stop_at_seed_time = Some(10);
    let mut faker = session(MIB, config);
    faker.start(0).unwrap();
    assert!(tick(&mut faker, 9_999).stopped.is_none());
    assert_eq!(faker.get_stats().seed_time_progress, 90_000_000);
    assert_eq!(faker.get_stats().eta_seed_time, Some(1));
    assert_eq!(tick(&mut faker, 10_000).stopped, Some(StopReason::TargetSeedTime));

    let mut config = steady(0, 0);
    config.stop_when_no_leechers = true;
    let mut faker = session(MIB, config);
    faker.start(0).unwrap();
    assert!(tick(&mut faker, 1000).stopped.is_none());
    faker.announce_succeeded(TrackerEvent::Started, &response(1800, 5, 2), 1000);
    assert!(tick(&mut faker, 2000).stopped.is_none());
    faker.announce_succeeded(TrackerEvent::Periodic, &response(1800, 5, 0), 2000);
    assert_eq!(tick(&mut faker, 3000).stopped, Some(StopReason::NoLeechers));
}

#[test]
fn first_stop_target_in_order_wins() {
    let mut config = steady(10 * KIB, 0);
    config.stop_at_ratio = Some(0);
    config.stop_at_uploaded = Some(0);
    config.stop_at_seed_time = Some(0);
    let mut faker = session(MIB, config.clone());
    faker.start(0).unwrap();
    assert_eq!(tick(&mut faker, 1000).stopped, Some(StopReason::TargetRatio));
    config.stop_at_ratio = None;
    let mut faker = session(MIB, config.clone());
    faker.start(0).unwrap();
    assert_eq!(tick(&mut faker, 1000).stopped, Some(StopReason::TargetUploaded));
    config.stop_at_uploaded = None;
    config.stop_at_downloaded = Some(0);
    let mut faker = session(MIB, config);
    faker.start(0).unwrap();
    assert_eq!(tick(&mut faker, 1000).stopped, Some(StopReason::TargetDownloaded));
}

#[test]
fn torrent_without_size_has_no_ratio_and_never_completes() {
    let mut faker = session(0, steady(50 * KIB, 50 * KIB));
    assert_eq!(faker.get_stats().left, 0);
    assert_eq!(faker.get_stats().ratio, 0);
    faker.start(0).unwrap();
    for i in 1..=10u64 {
        let outcome = tick(&mut faker, i * 5000);
        assert!(!outcome.completed);
        assert_eq!(faker.get_stats().ratio, 0);
        assert_eq!(faker.get_stats().left, 0);
        assert_eq!(faker.state, FakerState::Running);
    }
    assert_eq!(faker.get_stats().uploaded, 10 * 256_000);
    assert_eq!(faker.get_stats().downloaded, 0);
}

#[test]
fn pause_and_resume_skip_the_pause() {
    let mut faker = session(MIB, steady(10 * KIB, 0));
    faker.start(0).unwrap();
    tick(&mut faker, 5000);
    faker.pause().unwrap();
    assert_eq!(faker.state, FakerState::Paused);
    assert_eq!(faker.get_stats().state, FakerState::Paused);
    let outcome = tick(&mut faker, 50_000);
    assert!(!outcome.completed && !outcome.announce && outcome.stopped.is_none());
    assert_eq!(faker.get_stats().uploaded, 51_200);
    faker.pause().unwrap();
    faker.resume(100_000).unwrap();
    assert_eq!(faker.state, FakerState::Running);
    tick(&mut faker, 105_000);
    assert_eq!(faker.get_stats().uploaded, 102_400);
    faker.resume(200_000).unwrap();
    tick(&mut faker, 110_000);
    assert_eq!(faker.get_stats().uploaded, 153_600);
}

#[test]
fn stop_is_idempotent() {
    let mut faker = session(MIB, steady(10 * KIB, 0));
    faker.start(0).unwrap();
    tick(&mut faker, 5000);
    let request = faker.stop().unwrap();
    assert_eq!(request.event, TrackerEvent::Stopped);
    assert_eq!(request.uploaded, 51_200);
    assert_eq!(faker.state, FakerState::Stopped);
    assert_eq!(faker.get_stats().state, FakerState::Stopped);
    for _ in 0..5 {
        assert!(faker.stop().is_none());
        assert_eq!(faker.state, FakerState::Stopped);
        assert_eq!(faker.get_stats().uploaded, 51_200);
    }
    assert_eq!(faker.start(10_000).unwrap().event, TrackerEvent::Started);
    assert_eq!(faker.state, FakerState::Running);
}

#[test]
fn counters_never_run_backwards_and_left_stays_in_bounds() {
    let mut config = FakerConfig::default();
    config.random_range_percent = 250 * PERCENT;
    config.upload_rate = 777 * KIB;
    config.download_rate = 13 * KIB;
    let total = 3 * MIB;
    let mut faker = session(total, config);
    faker.start(0).unwrap();
    let mut previous: FakerStats = faker.get_stats();
    let mut now = 0;
    for i in 0..300u64 {
        now += 1 + (i * 7919) % 9000;
        let up = ((i as i64 * 104_729) % 5_000_001) - 2_500_000;
        let down = ((i as i64 * 1_299_709) % 5_000_001) - 2_500_000;
        faker.update(now, up, down).unwrap();
        let stats = faker.get_stats();
        assert!(stats.session_uploaded >= previous.session_uploaded);
        assert!(stats.uploaded >= previous.uploaded);
        assert!(stats.left <= previous.left);
        assert!(stats.left <= total);
        assert!(stats.upload_rate_history.len() <= 60);
        assert!(stats.download_rate_history.len() <= 60);
        assert!(stats.ratio_history.len() <= 60);
        previous = stats;
    }
    assert_eq!(previous.upload_rate_history.len(), 60);
    assert_eq!(previous.left, 0);
}

#[test]
fn history_drops_its_oldest_sample() {
    let mut config = steady(0, 0);
    config.progressive_rates = true;
    config.target_upload_rate = Some(1000 * KIB);
    config.progressive_duration = 1000;
    let mut faker = session(MIB, config);
    faker.start(0).unwrap();
    for i in 1..=61u64 {
        tick(&mut faker, i * 1000);
    }
    let history = faker.get_stats().upload_rate_history;
    assert_eq!(history.len(), 60);
    assert_eq!(history[0], KIB);
    assert_eq!(history[59], 60 * KIB);
}

#[test]
fn scrape_url_of_the_session() {
    let faker = session(MIB, steady(0, 0));
    assert_eq!(
        faker.scrape().unwrap(),
        format!("http://tracker.example.com/scrape?info_hash={}", "%07".repeat(20))
    );
}

#[test]
fn huge_steps_saturate() {
    let mut faker = session(MIB, steady(i64::MAX, 0));
    faker.start(0).unwrap();
    tick(&mut faker, u64::MAX);
    let stats = faker.get_stats();
    assert_eq!(stats.uploaded, u64::MAX);
    assert_eq!(stats.session_uploaded, u64::MAX);
    tick(&mut faker, u64::MAX);
    assert_eq!(faker.get_stats().uploaded, u64::MAX);
    faker.announce_succeeded(TrackerEvent::Periodic, &response(i64::MAX, 0, 0), u64::MAX - 5);
    assert_eq!(faker.get_stats().next_announce, Some(u64::MAX));
}

#[test]
fn faker_error_messages_name_their_kind() {
    assert_eq!(FakerError::InvalidState("a".into()).message(), "Invalid state: a");
    assert_eq!(FakerError::ConfigError("b".into()).message(), "Configuration error: b");
    assert_eq!(
        FakerError::TrackerError(rustatio::protocol::tracker::TrackerError::HttpError("c".into()))
            .message(),
        "Tracker error: HTTP error: c"
    );
}

#[test]
fn picks_count_up_from_the_lower_bound() {
    let range = 20 * PERCENT;
    assert_eq!(jitter_span_of(range), 400_001);
    assert_eq!(jitter_from_pick(0, range), -200_000);
    assert_eq!(jitter_from_pick(1, range), -199_999);
    assert_eq!(jitter_from_pick(200_000, range), 0);
    assert_eq!(jitter_from_pick(400_000, range), 200_000);
    assert_eq!(jitter_from_pick(400_001, range), 200_000);
    assert_eq!(jitter_from_pick(u64::MAX, range), 200_000);
    assert_eq!(jitter_span_of(0), 1);
    assert_eq!(jitter_span_of(-7), 1);
    assert_eq!(jitter_span_of(99), 1);
    assert_eq!(jitter_span_of(100), 3);
    assert_eq!(jitter_from_pick(0, 0), 0);
    assert_eq!(jitter_from_pick(5, -7), 0);
    assert_eq!(jitter_span_of(i64::MAX), 2 * 92_233_720_368_547_758 + 1);
    assert_eq!(jitter_from_pick(0, i64::MAX), -92_233_720_368_547_758);
}

#[test]
fn draws_reach_both_sides_of_the_base() {
    let mut config = FakerConfig::default();
    config.random_range_percent = 20 * PERCENT;
    let faker = session(MIB, config);
    let draws: Vec<i64> = (0..400).map(|_| faker.draw_jitter()).collect();
    assert!(draws.iter().any(|j| *j < 0));
    assert!(draws.iter().any(|j| *j > 0));
    assert!(draws.iter().any(|j| *j != draws[0]));
}

#[test]
fn new_session_presents_the_client_of_its_configuration() {
    let mut config = FakerConfig::default();
    config.client_type = ClientType::UTorrent;
    let faker = RatioFaker::new(torrent(1000), config, 0).unwrap();
    assert_eq!(faker.tracker_client.client_config.client_type, ClientType::UTorrent);
    assert_eq!(faker.tracker_client.client_config.user_agent, "uTorrent/355");
    assert!(faker.peer_id.starts_with("-UT3550-"));
    let mut config = FakerConfig::default();
    config.client_type = ClientType::Transmission;
    config.client_version = Some("3.00".to_string());
    let faker = RatioFaker::new(torrent(1000), config, 0).unwrap();
    assert_eq!(faker.tracker_client.client_config.user_agent, "Transmission/3.00");
    assert_eq!(faker.tracker_client.client_config.num_want, 80);
    assert!(faker.peer_id.starts_with("-TR3000-"));
}

#[test]
fn continued_session_counts_the_share_once() {
    let mut config = steady(0, 0);
    config.completion_percent = 25 * PERCENT;
    config.initial_uploaded = 77;
    config.initial_downloaded = 100;
    let faker = RatioFaker::continued(torrent(1000), config.clone(), 3);
    let stats = faker.get_stats();
    assert_eq!(stats.uploaded, 77);
    assert_eq!(stats.downloaded, 250);
    assert_eq!(stats.left, 750);
    assert_eq!(stats.state, FakerState::Idle);
    assert_eq!(faker.start_time, 3);
    config.initial_downloaded = 600;
    let stats = RatioFaker::continued(torrent(1000), config.clone(), 0).get_stats();
    assert_eq!(stats.downloaded, 600);
    assert_eq!(stats.left, 400);
    config.initial_downloaded = 5000;
    let stats = RatioFaker::continued(torrent(1000), config, 0).get_stats();
    assert_eq!(stats.downloaded, 5000);
    assert_eq!(stats.left, 0);
}

#[test]
fn reloaded_session_has_the_counters_and_the_state_written_down() {
    let mut config = steady(0, 0);
    config.completion_percent = 25 * PERCENT;
    config.initial_uploaded = 77;
    config.initial_downloaded = 100;
    for state in [
        FakerState::Idle,
        FakerState::Paused,
        FakerState::Stopped,
        FakerState::Completed,
    ] {
        let (faker, request) = RatioFaker::reloaded(torrent(1000), config.clone(), state, 9);
        assert!(request.is_none());
        assert_eq!(faker.state, state);
        let stats = faker.get_stats();
        assert_eq!(stats.state, state);
        assert_eq!(stats.uploaded, 77);
        assert_eq!(stats.downloaded, 100);
        assert_eq!(stats.left, 900);
        assert!(stats.last_announce.is_none());
    }
    let (faker, request) = RatioFaker::reloaded(torrent(1000), config, FakerState::Running, 9);
    let request = request.unwrap();
    assert_eq!(request.event, TrackerEvent::Started);
    assert_eq!(request.uploaded, 77);
    assert_eq!(request.downloaded, 100);
    assert_eq!(request.left, 900);
    assert_eq!(request.peer_id, faker.peer_id);
    assert_eq!(faker.state, FakerState::Running);
    assert_eq!(faker.get_stats().state, FakerState::Running);
    assert_eq!(faker.get_stats().last_announce, Some(9));
    assert_eq!(faker.get_stats().next_announce, Some(9 + 1_800_000));
}

#[test]
fn announces_of_a_tick_come_in_their_order() {
    let quiet = TickOutcome { completed: false, stopped: None, announce: false };
    assert!(quiet.announces().is_empty());
    let due = TickOutcome { completed: false, stopped: None, announce: true };
    assert_eq!(due.announces(), vec![TrackerEvent::Periodic]);
    let done = TickOutcome { completed: true, stopped: None, announce: false };
    assert_eq!(done.announces(), vec![TrackerEvent::Completed]);
    let done_and_due = TickOutcome { completed: true, stopped: None, announce: true };
    assert_eq!(done_and_due.announces(), vec![TrackerEvent::Completed, TrackerEvent::Periodic]);
    let ended = TickOutcome {
        completed: false,
        stopped: Some(StopReason::TargetRatio),
        announce: false,
    };
    assert_eq!(ended.announces(), vec![TrackerEvent::Stopped]);
    let done_and_ended = TickOutcome {
        completed: true,
        stopped: Some(StopReason::TargetUploaded),
        announce: true,
    };
    assert_eq!(done_and_ended.announces(), vec![TrackerEvent::Completed, TrackerEvent::Stopped]);
}

#[test]
fn completed_and_stopped_in_one_tick_are_announced_in_that_order() {
    let mut config = steady(0, 1024 * KIB);
    config.completion_percent = 99_990_000;
    config.stop_at_downloaded = Some(1);
    let mut faker = session(MIB, config);
    faker.start(0).unwrap();
    let outcome = tick(&mut faker, 1000);
    assert!(outcome.completed);
    assert!(outcome.stopped.is_some());
    assert_eq!(outcome.announces(), vec![TrackerEvent::Completed, TrackerEvent::Stopped]);
    assert_eq!(faker.state, FakerState::Stopped);
    assert_eq!(faker.stats.left, 0);
}

#[test]
fn a_counter_at_its_cap_gains_less_than_the_session() {
    let mut config = steady(10 * KIB, 0);
    config.initial_uploaded = u64::MAX - 1;
    let mut faker = session(MIB, config);
    faker.start(0).unwrap();
    tick(&mut faker, 1000);
    assert_eq!(faker.stats.session_uploaded, 10_240);
    assert_eq!(faker.stats.uploaded, u64::MAX);
}

#[test]
fn both_upload_counters_gain_the_same() {
    let mut config = steady(10 * KIB, 0);
    config.initial_uploaded = 500;
    let mut faker = session(MIB, config);
    faker.start(0).unwrap();
    let mut now = 0;
    for step in [1000u64, 250, 1, 0, 4999] {
        let before = (faker.stats.uploaded, faker.stats.session_uploaded);
        now += step;
        tick(&mut faker, now);
        assert_eq!(
            faker.stats.uploaded - before.0,
            faker.stats.session_uploaded - before.1
        );
        assert_eq!(faker.stats.uploaded - before.0, 10 * 1024 * step / 1000);
    }
}

#[test]
fn download_takes_from_what_is_left() {
    let mut config = steady(0, 100 * KIB);
    config.completion_percent = 50 * PERCENT;
    let mut faker = session(MIB, config);
    faker.start(0).unwrap();
    let left = faker.stats.left;
    let downloaded = faker.stats.downloaded;
    tick(&mut faker, 1000);
    assert_eq!(left - faker.stats.left, 102_400);
    assert_eq!(faker.stats.downloaded - downloaded, 102_400);
    assert_eq!(faker.stats.session_downloaded, 102_400);
    let outcome = tick(&mut faker, 60_000);
    assert!(outcome.completed);
    assert_eq!(faker.stats.left, 0);
    assert_eq!(faker.stats.downloaded, MIB);
    assert_eq!(faker.stats.session_downloaded, MIB / 2);
}

#[test]
fn start_and_answer_set_the_schedule() {
    let mut faker = session(MIB, steady(10 * KIB, 0));
    let request = faker.start(5).unwrap();
    assert_eq!(request.event, TrackerEvent::Started);
    let mut answer = response(60, 9, 4);
    answer.tracker_id = Some("tid".to_string());
    faker.announce_succeeded(TrackerEvent::Started, &answer, 10);
    assert_eq!(faker.state, FakerState::Running);
    assert_eq!(faker.stats.state, FakerState::Running);
    assert_eq!(faker.announce_interval, 60);
    assert_eq!(faker.stats.last_announce, Some(10));
    assert_eq!(faker.stats.next_announce, Some(60_010));
    assert_eq!(faker.stats.seeders, 9);
    assert_eq!(faker.stats.leechers, 4);
    assert_eq!(faker.tracker_id.as_deref(), Some("tid"));
    let periodic = faker.announce_request(TrackerEvent::Periodic);
    assert_eq!(periodic.event, TrackerEvent::Periodic);
    assert_eq!(periodic.tracker_id.as_deref(), Some("tid"));
    faker.announce_succeeded(TrackerEvent::Periodic, &response(30, 1, 0), 70_000);
    assert_eq!(faker.announce_interval, 30);
    assert_eq!(faker.stats.next_announce, Some(100_000));
    assert_eq!(faker.stats.last_announce, Some(70_000));
    assert_eq!(faker.tracker_id.as_deref(), Some("tid"));
    assert_eq!(faker.stats.seeders, 1);
    assert_eq!(faker.stats.leechers, 0);
}
