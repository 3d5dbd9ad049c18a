//! What a session tells those who watch it.

use crate::faker::{StopReason, TickOutcome};
use crate::protocol::tracker::{
    tracker_fault_text, AnnounceResponse, ScrapeResponse, TrackerError, TrackerFault,
};
use vstd::prelude::*;

verus! {

/// One thing that happened to a session.
#[derive(Debug, Clone)]
pub enum SessionEvent {
    Started,
    AnnounceOk { seeders: i64, leechers: i64, interval: i64 },
    /// Holds the failure as a line of text; a tracker's own reason stands
    /// in it as the tracker gave it.
    AnnounceFailed(String),
    ScrapeOk { seeders: i64, leechers: i64, downloaded: i64 },
    Paused,
    Resumed,
    Completed,
    Stopped(StopReason),
}

/// The content of a [`SessionEvent`].
pub enum SessionEventModel {
    Started,
    AnnounceOk { seeders: i64, leechers: i64, interval: i64 },
    AnnounceFailed(Seq<char>),
    ScrapeOk { seeders: i64, leechers: i64, downloaded: i64 },
    Paused,
    Resumed,
    Completed,
    Stopped(StopReason),
}

impl View for SessionEvent {
    type V = SessionEventModel;

    open spec fn view(&self) -> SessionEventModel {
        match self {
            SessionEvent::Started => SessionEventModel::Started,
            SessionEvent::AnnounceOk { seeders, leechers, interval } =>
                SessionEventModel::AnnounceOk {
                seeders: *seeders,
                leechers: *leechers,
                interval: *interval,
            },
            SessionEvent::AnnounceFailed(m) => SessionEventModel::AnnounceFailed(m@),
            SessionEvent::ScrapeOk { seeders, leechers, downloaded } => SessionEventModel::ScrapeOk {
                seeders: *seeders,
                leechers: *leechers,
                downloaded: *downloaded,
            },
            SessionEvent::Paused => SessionEventModel::Paused,
            SessionEvent::Resumed => SessionEventModel::Resumed,
            SessionEvent::Completed => SessionEventModel::Completed,
            SessionEvent::Stopped(reason) => SessionEventModel::Stopped(*reason),
        }
    }
}

/// The models of a list of events, in order.
pub open spec fn event_models(events: Seq<SessionEvent>) -> Seq<SessionEventModel> {
    Seq::new(events.len(), |i: int| events[i]@)
}

/// What a tick gives to tell: the completion, if the torrent was
/// completed in it, and after that the stop, if a stop predicate fired.
pub open spec fn events_of_tick(outcome: TickOutcome) -> Seq<SessionEventModel> {
    (if outcome.completed {
        seq![SessionEventModel::Completed]
    } else {
        Seq::empty()
    }) + match outcome.stopped {
        Some(reason) => seq![SessionEventModel::Stopped(reason)],
        None => Seq::empty(),
    }
}

/// The events that a tick gives to tell, in their order.
pub fn tick_events(outcome: &TickOutcome) -> (r: Vec<SessionEvent>)
    ensures
        event_models(r@) == events_of_tick(*outcome),
{
    let mut events: Vec<SessionEvent> = Vec::new();
    if outcome.completed {
        events.push(SessionEvent::Completed);
    }
    if let Some(reason) = outcome.stopped {
        events.push(SessionEvent::Stopped(reason));
    }
    assert(event_models(events@) =~= events_of_tick(*outcome));
    events
}

/// The event that tells how an announce went.
pub fn announce_event(outcome: &Result<AnnounceResponse, TrackerError>) -> (r: SessionEvent)
    ensures
        r@ == match outcome {
            Ok(response) => SessionEventModel::AnnounceOk {
                seeders: response.complete,
                leechers: response.incomplete,
                interval: response.interval,
            },
            Err(e) => SessionEventModel::AnnounceFailed(
                match e@ {
                    TrackerFault::TrackerFailure(reason) => reason,
                    other => tracker_fault_text(other),
                },
            ),
        },
{
    match outcome {
        Ok(response) => SessionEvent::AnnounceOk {
            seeders: response.complete,
            leechers: response.incomplete,
            interval: response.interval,
        },
        Err(TrackerError::TrackerFailure(reason)) => SessionEvent::AnnounceFailed(reason.clone()),
        Err(e) => SessionEvent::AnnounceFailed(e.message()),
    }
}

/// The event that tells of a scrape that went well.
pub fn scrape_event(response: &ScrapeResponse) -> (r: SessionEvent)
    ensures
        r@ == (SessionEventModel::ScrapeOk {
            seeders: response.complete,
            leechers: response.incomplete,
            downloaded: response.downloaded,
        }),
{
    SessionEvent::ScrapeOk {
        seeders: response.complete,
        leechers: response.incomplete,
        downloaded: response.downloaded,
    }
}

} // verus!
