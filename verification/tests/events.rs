use rustatio::events::{announce_event, scrape_event, tick_events, SessionEvent};
use rustatio::faker::{StopReason, TickOutcome};
use rustatio::protocol::tracker::{AnnounceResponse, ScrapeResponse, TrackerError};

#[test]
fn completion_is_told_before_the_stop() {
    let quiet = TickOutcome { completed: false, stopped: None, announce: true };
    assert!(tick_events(&quiet).is_empty());
    let both = TickOutcome {
        completed: true,
        stopped: Some(StopReason::TargetDownloaded),
        announce: false,
    };
    let events = tick_events(&both);
    assert_eq!(events.len(), 2);
    assert!(matches!(events[0], SessionEvent::Completed));
    assert!(matches!(events[1], SessionEvent::Stopped(StopReason::TargetDownloaded)));
    let done = TickOutcome { completed: true, stopped: None, announce: false };
    assert!(matches!(tick_events(&done)[..], [SessionEvent::Completed]));
    let stop = TickOutcome { completed: false, stopped: Some(StopReason::NoLeechers), announce: false };
    assert!(matches!(tick_events(&stop)[..], [SessionEvent::Stopped(StopReason::NoLeechers)]));
}

#[test]
fn announce_outcomes_become_events() {
    let ok = Ok(AnnounceResponse {
        interval: 60,
        min_interval: None,
        tracker_id: None,
        complete: 4,
        incomplete: 2,
        warning: None,
    });
    assert!(matches!(
        announce_event(&ok),
        SessionEvent::AnnounceOk { seeders: 4, leechers: 2, interval: 60 }
    ));
    let refused = Err(TrackerError::TrackerFailure("torrent not registered".to_string()));
    assert!(matches!(
        announce_event(&refused),
        SessionEvent::AnnounceFailed(m) if m == "torrent not registered"
    ));
    let failed = Err(TrackerError::HttpError("HTTP status 502".to_string()));
    assert!(matches!(
        announce_event(&failed),
        SessionEvent::AnnounceFailed(m) if m == "HTTP error: HTTP status 502"
    ));
}

#[test]
fn scrape_answer_becomes_an_event() {
    let response = ScrapeResponse { complete: 9, incomplete: 8, downloaded: 7, name: None };
    assert!(matches!(
        scrape_event(&response),
        SessionEvent::ScrapeOk { seeders: 9, leechers: 8, downloaded: 7 }
    ));
}
