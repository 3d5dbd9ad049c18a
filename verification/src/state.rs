//! The supervisor's registry of sessions: creating, finding and deleting
//! them by their identifiers, the rule by which a session takes over the
//! counters of its predecessor, and the snapshot that is persisted.
//!
//! The registry does no I/O and holds no locks or tasks; it says which
//! announces and events are to be sent, and whoever drives it sends them.

use crate::faker::{
    answered, completion_share, continued, continued_downloaded, faker_fault_text,
    identity_shaped, reloaded, is_request_of, paused, resumed,
    started, starts_in, stopped, tick_model, ticks_in, well_formed, FakerConfig, FakerFault,
    FakerState, FakerStats, RatioFaker, SessionModel, TickOutcome,
};
use crate::protocol::tracker::{
    scrape_base, scrape_url, tracker_fault_text, url_normal_form, AnnounceResponse, TrackerFault,
};
use crate::random::is_token_char;
use crate::session_laws::{
    lemma_step_keeps_well_formed, lemma_untouched_stays, step, touches, Command,
};
use crate::protocol::tracker::{AnnounceRequest, TrackerEvent};
use crate::random::fresh_token;
use crate::text::{bytes_eq, hex_lower_text, text_eq};
use crate::torrent::client::{fingerprint, ClientModel};
use crate::torrent::info::{TorrentInfo, TorrentModel};
use vstd::prelude::*;
use vstd::string::*;

verus! {

/// Where a session came from.
#[derive(Clone, Copy, Debug, PartialEq, Eq, Structural)]
pub enum InstanceSource {
    /// Created by a command.
    Manual,
    /// Created for a torrent file found in the watch folder.
    WatchFolder,
}

/// What the registry tells its subscribers.
#[derive(Debug, Clone)]
pub enum InstanceEvent {
    Created { id: String, torrent_name: String, info_hash: String, auto_started: bool },
    Deleted { id: String },
}

/// The content of an [`InstanceEvent`].
pub enum InstanceEventModel {
    Created { id: Seq<char>, torrent_name: Seq<char>, info_hash: Seq<char>, auto_started: bool },
    Deleted { id: Seq<char> },
}

impl View for InstanceEvent {
    type V = InstanceEventModel;

    open spec fn view(&self) -> InstanceEventModel {
        match self {
            InstanceEvent::Created { id, torrent_name, info_hash, auto_started } =>
                InstanceEventModel::Created {
                id: id@,
                torrent_name: torrent_name@,
                info_hash: info_hash@,
                auto_started: *auto_started,
            },
            InstanceEvent::Deleted { id } => InstanceEventModel::Deleted { id: id@ },
        }
    }
}

/// One line of the engine's log.
#[derive(Debug, Clone)]
pub struct LogEvent {
    /// Milliseconds since the Unix epoch.
    pub timestamp: u64,
    pub level: String,
    pub message: String,
}

/// A message with the session that it is about in front, in brackets.
pub open spec fn scoped_text(scope: Option<Seq<char>>, message: Seq<char>) -> Seq<char> {
    match scope {
        Some(id) => "["@ + id + "] "@ + message,
        None => message,
    }
}

impl LogEvent {
    /// A log line of `level` written at `timestamp`.
    pub fn new(level: &str, message: String, timestamp: u64) -> (r: LogEvent)
        ensures
            r.timestamp == timestamp,
            r.level@ == level@,
            r.message == message,
    {
        LogEvent { timestamp, level: String::from_str(level), message }
    }

    /// A log line of `level` written at `timestamp` about the session with
    /// the identifier `scope`, which is put in front of the message.
    pub fn scoped(level: &str, scope: Option<&str>, message: &str, timestamp: u64) -> (r: LogEvent)
        ensures
            r.timestamp == timestamp,
            r.level@ == level@,
            r.message@ == scoped_text(scope.deep_view(), message@),
    {
        let text = match scope {
            Some(id) => {
                let mut text = String::from_str("[");
                text.append(id);
                text.append("] ");
                text.append(message);
                text
            },
            None => String::from_str(message),
        };
        LogEvent { timestamp, level: String::from_str(level), message: text }
    }
}

/// A session in the registry.
#[derive(Debug)]
pub struct FakerInstance {
    pub id: String,
    pub faker: RatioFaker,
    /// The configuration as the user gave it; the session's own starts
    /// from the cumulative counters.
    pub config: FakerConfig,
    /// Bytes uploaded for this torrent over all runs up to the last stop.
    pub cumulative_uploaded: u64,
    /// Bytes downloaded for this torrent over all runs up to the last
    /// stop.
    pub cumulative_downloaded: u64,
    /// Seconds since the Unix epoch.
    pub created_at: u64,
    /// The day on which the session was made or last changed by a
    /// command, a tick or a tracker's answer, in seconds since the Unix
    /// epoch. Making a session again from what was written down of it
    /// keeps the day that was written down.
    pub updated_at: u64,
    pub source: InstanceSource,
}

/// The content of a [`FakerInstance`].
pub struct InstanceModel {
    pub id: Seq<char>,
    pub session: SessionModel,
    pub torrent: TorrentModel,
    pub config: FakerConfig,
    pub cumulative_uploaded: u64,
    pub cumulative_downloaded: u64,
    pub created_at: u64,
    pub updated_at: u64,
    pub source: InstanceSource,
}

impl View for FakerInstance {
    type V = InstanceModel;

    open spec fn view(&self) -> InstanceModel {
        InstanceModel {
            id: self.id@,
            session: self.faker@,
            torrent: self.faker.torrent@,
            config: self.config,
            cumulative_uploaded: self.cumulative_uploaded,
            cumulative_downloaded: self.cumulative_downloaded,
            created_at: self.created_at,
            updated_at: self.updated_at,
            source: self.source,
        }
    }
}

/// What is written down of a session.
#[derive(Debug)]
pub struct PersistedInstance {
    pub id: String,
    pub torrent: TorrentInfo,
    pub config: FakerConfig,
    pub cumulative_uploaded: u64,
    pub cumulative_downloaded: u64,
    pub state: FakerState,
    /// Seconds since the Unix epoch.
    pub created_at: u64,
    /// Seconds since the Unix epoch.
    pub updated_at: u64,
    pub source: InstanceSource,
}

/// The content of a [`PersistedInstance`].
pub struct PersistedModel {
    pub id: Seq<char>,
    pub torrent: TorrentModel,
    /// The torrent's size, as the counters count it.
    pub total_size: u64,
    pub config: FakerConfig,
    pub cumulative_uploaded: u64,
    pub cumulative_downloaded: u64,
    pub state: FakerState,
    pub created_at: u64,
    pub updated_at: u64,
    pub source: InstanceSource,
}

impl View for PersistedInstance {
    type V = PersistedModel;

    open spec fn view(&self) -> PersistedModel {
        PersistedModel {
            id: self.id@,
            torrent: self.torrent@,
            total_size: self.torrent.total_size,
            config: self.config,
            cumulative_uploaded: self.cumulative_uploaded,
            cumulative_downloaded: self.cumulative_downloaded,
            state: self.state,
            created_at: self.created_at,
            updated_at: self.updated_at,
            source: self.source,
        }
    }
}

/// The version of the persisted format.
pub const STATE_VERSION: u32 = 1;

/// What is written down of the registry.
#[derive(Debug)]
pub struct PersistedState {
    pub instances: Vec<PersistedInstance>,
    pub version: u32,
}

/// The models of a list of persisted sessions, in order.
pub open spec fn persisted_models(items: Seq<PersistedInstance>) -> Seq<PersistedModel> {
    Seq::new(items.len(), |i: int| items[i]@)
}

/// A session with its place in the registry, as a listing shows it.
#[derive(Debug)]
pub struct InstanceInfo {
    pub id: String,
    pub torrent: TorrentInfo,
    pub config: FakerConfig,
    pub stats: FakerStats,
    pub created_at: u64,
    pub source: InstanceSource,
}

/// A torrent that was loaded but has no session yet.
#[derive(Debug)]
pub struct StoredTorrent {
    pub id: String,
    pub torrent: TorrentInfo,
}

/// The registry of sessions.
#[derive(Debug)]
pub struct AppState {
    /// The sessions; no identifier occurs twice.
    pub instances: Vec<FakerInstance>,
    /// Loaded torrents by identifier; where one occurs twice, the later
    /// entry counts.
    pub torrents: Vec<StoredTorrent>,
}

/// The models of a list of sessions, in order.
pub open spec fn instance_models(items: Seq<FakerInstance>) -> Seq<InstanceModel> {
    Seq::new(items.len(), |i: int| items[i]@)
}

/// The content of a [`StoredTorrent`].
pub struct StoredModel {
    pub id: Seq<char>,
    pub torrent: TorrentModel,
}

/// The models of a list of stored torrents, in order.
pub open spec fn stored_models(items: Seq<StoredTorrent>) -> Seq<StoredModel> {
    Seq::new(items.len(), |i: int| StoredModel { id: items[i].id@, torrent: items[i].torrent@ })
}

/// The content of an [`AppState`].
pub struct RegistryModel {
    pub instances: Seq<InstanceModel>,
    pub torrents: Seq<StoredModel>,
}

impl View for AppState {
    type V = RegistryModel;

    open spec fn view(&self) -> RegistryModel {
        RegistryModel {
            instances: instance_models(self.instances@),
            torrents: stored_models(self.torrents@),
        }
    }
}

/// The place of the first session with the identifier `id`.
pub open spec fn slot_of(items: Seq<InstanceModel>, id: Seq<char>) -> Option<int>
    decreases items.len(),
{
    if items.len() == 0 {
        None
    } else {
        match slot_of(items.drop_last(), id) {
            Some(i) => Some(i),
            None => if items.last().id == id {
                Some(items.len() - 1)
            } else {
                None
            },
        }
    }
}

/// The place of the first session for the torrent with `info_hash`.
pub open spec fn slot_of_hash(items: Seq<InstanceModel>, info_hash: Seq<u8>) -> Option<int>
    decreases items.len(),
{
    if items.len() == 0 {
        None
    } else {
        match slot_of_hash(items.drop_last(), info_hash) {
            Some(i) => Some(i),
            None => if items.last().session.info_hash == info_hash {
                Some(items.len() - 1)
            } else {
                None
            },
        }
    }
}

/// What [`slot_of`] finds is the first session with the identifier.
pub proof fn lemma_slot_of(items: Seq<InstanceModel>, id: Seq<char>)
    ensures
        match slot_of(items, id) {
            Some(i) => 0 <= i < items.len() && items[i].id == id && forall|k: int|
                0 <= k < i ==> items[k].id != id,
            None => forall|k: int| 0 <= k < items.len() ==> items[k].id != id,
        },
    decreases items.len(),
{
    if items.len() > 0 {
        let front = items.drop_last();
        lemma_slot_of(front, id);
        assert forall|k: int| 0 <= k < front.len() implies front[k] == items[k] by {}
        match slot_of(front, id) {
            Some(i) => {
                assert(front[i] == items[i]);
                assert forall|k: int| 0 <= k < i implies items[k].id != id by {
                    assert(front[k].id != id);
                }
            },
            None => {
                assert forall|k: int| 0 <= k < front.len() implies items[k].id != id by {
                    assert(front[k].id != id);
                }
            },
        }
    }
}

/// What [`slot_of_hash`] finds is the first session for the torrent.
pub proof fn lemma_slot_of_hash(items: Seq<InstanceModel>, info_hash: Seq<u8>)
    ensures
        match slot_of_hash(items, info_hash) {
            Some(i) => 0 <= i < items.len() && items[i].session.info_hash == info_hash
                && forall|k: int| 0 <= k < i ==> items[k].session.info_hash != info_hash,
            None => forall|k: int|
                0 <= k < items.len() ==> items[k].session.info_hash != info_hash,
        },
    decreases items.len(),
{
    if items.len() > 0 {
        let front = items.drop_last();
        lemma_slot_of_hash(front, info_hash);
        assert forall|k: int| 0 <= k < front.len() implies front[k] == items[k] by {}
        match slot_of_hash(front, info_hash) {
            Some(i) => {
                assert(front[i] == items[i]);
                assert forall|k: int| 0 <= k < i implies items[k].session.info_hash
                    != info_hash by {
                    assert(front[k].session.info_hash != info_hash);
                }
            },
            None => {
                assert forall|k: int| 0 <= k < front.len() implies items[k].session.info_hash
                    != info_hash by {
                    assert(front[k].session.info_hash != info_hash);
                }
            },
        }
    }
}

/// A place is the place of its own identifier where no identifier occurs
/// twice.
pub proof fn lemma_slot_of_own(items: Seq<InstanceModel>, i: int)
    requires
        distinct_ids(items),
        0 <= i < items.len(),
    ensures
        slot_of(items, items[i].id) == Some(i),
{
    lemma_slot_of(items, items[i].id);
}

/// Whether no identifier occurs twice.
pub open spec fn distinct_ids(items: Seq<InstanceModel>) -> bool {
    forall|i: int, j: int| 0 <= i < j < items.len() ==> items[i].id != items[j].id
}

/// What holds of every registry: no identifier occurs twice, and every
/// session is well formed.
pub open spec fn valid(items: Seq<InstanceModel>) -> bool {
    &&& distinct_ids(items)
    &&& forall|i: int| 0 <= i < items.len() ==> well_formed(#[trigger] items[i].session)
}

/// The session put into the registry: in the place of the one with its
/// identifier, or at the end.
pub open spec fn placed(items: Seq<InstanceModel>, instance: InstanceModel) -> Seq<InstanceModel> {
    match slot_of(items, instance.id) {
        Some(i) => items.update(i, instance),
        None => items.push(instance),
    }
}

/// Putting a well-formed session into a valid registry leaves it valid.
pub proof fn lemma_placed_valid(items: Seq<InstanceModel>, instance: InstanceModel)
    requires
        valid(items),
        well_formed(instance.session),
    ensures
        valid(placed(items, instance)),
        slot_of(placed(items, instance), instance.id) is Some,
        placed(items, instance)[slot_of(placed(items, instance), instance.id)->Some_0]
            == instance,
{
    lemma_slot_of(items, instance.id);
    lemma_slot_of(placed(items, instance), instance.id);
    let after = placed(items, instance);
    match slot_of(items, instance.id) {
        Some(i) => {
            assert(after[i].id == instance.id);
        },
        None => {
            assert(after[items.len() as int].id == instance.id);
        },
    }
}

/// The counters, the creation time and the source that a new session
/// with `id` for the torrent with `info_hash` starts from: those of the
/// session with the same identifier where that is for the same torrent,
/// else zero, `created_at` and `source`.
pub open spec fn inherited(
    items: Seq<InstanceModel>,
    id: Seq<char>,
    info_hash: Seq<u8>,
    source: InstanceSource,
    created_at: u64,
) -> (u64, u64, u64, InstanceSource) {
    match slot_of(items, id) {
        Some(i) => if items[i].session.info_hash == info_hash {
            (
                items[i].cumulative_uploaded,
                items[i].cumulative_downloaded,
                items[i].created_at,
                items[i].source,
            )
        } else {
            (0, 0, created_at, source)
        },
        None => (0, 0, created_at, source),
    }
}

/// `config` with the counters to start from set to `uploaded` and
/// `downloaded`.
pub open spec fn starting_from(config: FakerConfig, uploaded: u64, downloaded: u64) -> FakerConfig {
    FakerConfig { initial_uploaded: uploaded, initial_downloaded: downloaded, ..config }
}

/// The fingerprint that a session with the configuration `config`
/// presents.
pub open spec fn client_of_config(config: FakerConfig) -> ClientModel {
    fingerprint(config.client_type, config.client_version.deep_view())
}

/// The session that creation at `now`, on the day `created_at`, puts
/// into the registry, given the peer id and key that it drew. It
/// continues from the counters that it takes over, and counts the
/// completion share only as far as they do not hold it.
pub open spec fn new_instance(
    items: Seq<InstanceModel>,
    id: Seq<char>,
    torrent: TorrentModel,
    total_size: u64,
    config: FakerConfig,
    source: InstanceSource,
    now: u64,
    created_at: u64,
    peer_id: Seq<char>,
    key: Seq<char>,
) -> InstanceModel {
    let from = inherited(items, id, torrent.info_hash, source, created_at);
    InstanceModel {
        id,
        session: continued(
            torrent,
            total_size,
            starting_from(config, from.0, from.1),
            client_of_config(config),
            peer_id,
            key,
            now,
        ),
        torrent,
        config,
        cumulative_uploaded: from.0,
        cumulative_downloaded: from.1,
        created_at: from.2,
        updated_at: created_at,
        source: from.3,
    }
}

fn with_counters(config: &FakerConfig, uploaded: u64, downloaded: u64) -> (r: FakerConfig)
    ensures
        r == starting_from(*config, uploaded, downloaded),
{
    let mut copy = config.clone();
    copy.initial_uploaded = uploaded;
    copy.initial_downloaded = downloaded;
    copy
}

impl AppState {
    /// An empty registry.
    pub fn new() -> (r: AppState)
        ensures
            r@.instances.len() == 0,
            r@.torrents.len() == 0,
            valid(r@.instances),
    {
        AppState { instances: Vec::new(), torrents: Vec::new() }
    }

    /// The place of the session with the identifier `id`.
    pub fn find_slot(&self, id: &str) -> (r: Option<usize>)
        ensures
            match r {
                Some(i) => slot_of(self@.instances, id@) == Some(i as int) && i < self.instances@.len(),
                None => slot_of(self@.instances, id@) is None,
            },
    {
        let mut i: usize = 0;
        let ghost all = self@.instances;
        assert(all.subrange(0, 0).len() == 0);
        while i < self.instances.len()
            invariant
                i <= self.instances.len(),
                all == self@.instances,
                all.len() == self.instances@.len(),
                slot_of(all.subrange(0, i as int), id@) is None,
            decreases self.instances.len() - i,
        {
            proof {
                assert(all.subrange(0, i + 1).drop_last() == all.subrange(0, i as int));
                assert(all.subrange(0, i + 1).last() == self.instances@[i as int]@);
            }
            if text_eq(self.instances[i].id.as_str(), id) {
                proof {
                    lemma_slot_prefix(all, id@, i + 1);
                }
                return Some(i);
            }
            i += 1;
        }
        assert(all.subrange(0, i as int) == all);
        None
    }

    /// Whether a session has the identifier `id`.
    pub fn instance_exists(&self, id: &str) -> (r: bool)
        ensures
            r == slot_of(self@.instances, id@) is Some,
    {
        self.find_slot(id).is_some()
    }
}

/// A place found among the first `n` sessions is the place among all.
pub proof fn lemma_slot_prefix(items: Seq<InstanceModel>, id: Seq<char>, n: int)
    requires
        0 <= n <= items.len(),
        slot_of(items.subrange(0, n), id) is Some,
    ensures
        slot_of(items, id) == slot_of(items.subrange(0, n), id),
    decreases items.len() - n,
{
    if n < items.len() {
        assert(items.subrange(0, n + 1).drop_last() == items.subrange(0, n));
        lemma_slot_prefix(items, id, n + 1);
    } else {
        assert(items.subrange(0, n) == items);
    }
}

/// Whether `after` is `before` with a new session for `torrent` put in
/// under `id`.
pub open spec fn creates(
    before: Seq<InstanceModel>,
    after: Seq<InstanceModel>,
    id: Seq<char>,
    torrent: TorrentModel,
    total_size: u64,
    config: FakerConfig,
    source: InstanceSource,
    now: u64,
    created_at: u64,
) -> bool {
    &&& slot_of(after, id) is Some
    &&& identity_shaped(
        after[slot_of(after, id)->Some_0].session.peer_id,
        after[slot_of(after, id)->Some_0].session.key,
        client_of_config(config).peer_id_prefix,
    )
    &&& after == placed(
        before,
        new_instance(
            before,
            id,
            torrent,
            total_size,
            config,
            source,
            now,
            created_at,
            after[slot_of(after, id)->Some_0].session.peer_id,
            after[slot_of(after, id)->Some_0].session.key,
        ),
    )
}

/// Whether a session in `state` can start.
fn can_start(state: &FakerState) -> (r: bool)
    ensures
        r == starts_in(*state),
{
    match state {
        FakerState::Idle | FakerState::Stopped => true,
        _ => false,
    }
}

/// Whether a session in `state` is advanced by a tick.
fn is_under_way(state: &FakerState) -> (r: bool)
    ensures
        r == ticks_in(*state),
{
    match state {
        FakerState::Running | FakerState::Completed => true,
        _ => false,
    }
}

/// Whether `state` is that of a paused session.
fn is_paused(state: &FakerState) -> (r: bool)
    ensures
        r == (*state is Paused),
{
    match state {
        FakerState::Paused => true,
        _ => false,
    }
}

/// Whether `state` is that of a stopped session.
fn is_stopped(state: &FakerState) -> (r: bool)
    ensures
        r == (*state is Stopped),
{
    match state {
        FakerState::Stopped => true,
        _ => false,
    }
}

/// Whether `event` is the `stopped` announce.
fn is_stopped_event(event: &TrackerEvent) -> (r: bool)
    ensures
        r == (*event is Stopped),
{
    match event {
        TrackerEvent::Stopped => true,
        _ => false,
    }
}

/// The registry after the command `c` to the session at place `i`,
/// given on the day `at`: the session follows the command, and where
/// the command changes it, it is stamped with the day.
pub open spec fn after_command(items: Seq<InstanceModel>, i: int, c: Command, at: u64) -> Seq<
    InstanceModel,
> {
    items.update(
        i,
        InstanceModel {
            session: step(items[i].session, c),
            updated_at: if touches(items[i].session, c) {
                at
            } else {
                items[i].updated_at
            },
            ..items[i]
        },
    )
}

/// The message for an identifier that no session has.
pub open spec fn not_found() -> Seq<char> {
    "Instance not found"@
}

fn no_instance() -> (r: String)
    ensures
        r@ == not_found(),
{
    String::from_str("Instance not found")
}

impl AppState {
    /// Puts `instance` in the place of the session with its identifier,
    /// or at the end.
    fn place(&mut self, instance: FakerInstance)
        ensures
            final(self)@.instances == placed(old(self)@.instances, instance@),
            final(self).torrents == old(self).torrents,
    {
        let ghost before = self@.instances;
        let ghost model = instance@;
        match self.find_slot(instance.id.as_str()) {
            Some(i) => {
                self.instances[i] = instance;
                assert(self@.instances =~= before.update(i as int, model));
            },
            None => {
                self.instances.push(instance);
                assert(self@.instances =~= before.push(model));
            },
        }
    }

    /// Creates a session for `torrent` under `id`. Where a session with
    /// that identifier exists for the same torrent, the new one takes over
    /// its cumulative counters, its creation time and its source;
    /// otherwise it starts from zero, on the day `created_at`, with
    /// `source`. The session's own clock starts at `now`.
    fn create_instance_internal(
        &mut self,
        id: &str,
        torrent: TorrentInfo,
        config: FakerConfig,
        source: InstanceSource,
        now: u64,
        created_at: u64,
    ) -> (r: Result<(), String>)
        ensures
            r is Ok,
            creates(
                old(self)@.instances,
                final(self)@.instances,
                id@,
                torrent@,
                torrent.total_size,
                config,
                source,
                now,
                created_at,
            ),
            valid(old(self)@.instances) ==> valid(final(self)@.instances),
            final(self).torrents == old(self).torrents,
    {
        let ghost before = self@.instances;
        let (uploaded, downloaded, kept_at, kept_source) = match self.find_slot(id) {
            Some(i) => {
                let existing = &self.instances[i];
                if bytes_eq(
                    existing.faker.torrent.info_hash.as_slice(),
                    torrent.info_hash.as_slice(),
                ) {
                    (
                        existing.cumulative_uploaded,
                        existing.cumulative_downloaded,
                        existing.created_at,
                        existing.source,
                    )
                } else {
                    (0, 0, created_at, source)
                }
            },
            None => (0, 0, created_at, source),
        };
        let faker_config = with_counters(&config, uploaded, downloaded);
        let faker = RatioFaker::continued(torrent, faker_config, now);
        let instance = FakerInstance {
            id: String::from_str(id),
            faker,
            config,
            cumulative_uploaded: uploaded,
            cumulative_downloaded: downloaded,
            created_at: kept_at,
            updated_at: created_at,
            source: kept_source,
        };
        let ghost model = instance@;
        self.place(instance);
        proof {
            lemma_slot_of(before, id@);
            lemma_slot_of(self@.instances, id@);
            match slot_of(before, id@) {
                Some(i) => {
                    assert(self@.instances[i] == model);
                },
                None => {
                    assert(self@.instances[before.len() as int] == model);
                },
            }
            if valid(before) {
                lemma_placed_valid(before, model);
            }
            let at = slot_of(self@.instances, id@)->Some_0;
            if valid(before) {
                assert(self@.instances[at] == model);
            }
        }
        Ok(())
    }
}

/// The event that tells of a new session for `torrent` under `id`.
pub open spec fn created_event(id: Seq<char>, torrent: TorrentModel, auto_started: bool)
    -> InstanceEventModel {
    InstanceEventModel::Created {
        id,
        torrent_name: torrent.name,
        info_hash: hex_lower_text(torrent.info_hash),
        auto_started,
    }
}

/// The message that refuses to delete a session from the watch folder.
pub open spec fn watch_folder_refusal() -> Seq<char> {
    "Cannot delete watch folder instance. Delete the torrent file from the watch folder instead, or use force delete."@
}

/// The session with its cumulative counters brought up to its figures.
pub open spec fn settled(instance: InstanceModel) -> InstanceModel {
    InstanceModel {
        cumulative_uploaded: instance.session.stats.uploaded,
        cumulative_downloaded: instance.session.stats.downloaded,
        ..instance
    }
}

impl AppState {
    /// Creates a session by command.
    pub fn create_instance(
        &mut self,
        id: &str,
        torrent: TorrentInfo,
        config: FakerConfig,
        now: u64,
        created_at: u64,
    ) -> (r: Result<(), String>)
        ensures
            r is Ok,
            creates(
                old(self)@.instances,
                final(self)@.instances,
                id@,
                torrent@,
                torrent.total_size,
                config,
                InstanceSource::Manual,
                now,
                created_at,
            ),
            valid(old(self)@.instances) ==> valid(final(self)@.instances),
            final(self).torrents == old(self).torrents,
    {
        self.create_instance_internal(id, torrent, config, InstanceSource::Manual, now, created_at)
    }

    /// Creates an idle session with the default configuration for a
    /// torrent that was loaded, and gives the event that tells of it.
    pub fn create_idle_instance(&mut self, id: &str, torrent: TorrentInfo, now: u64, created_at: u64)
        -> (r: Result<InstanceEvent, String>)
        ensures
            r is Ok,
            r->Ok_0@ == created_event(id@, torrent@, false),
            creates(
                old(self)@.instances,
                final(self)@.instances,
                id@,
                torrent@,
                torrent.total_size,
                crate::faker::default_config(),
                InstanceSource::Manual,
                now,
                created_at,
            ),
            valid(old(self)@.instances) ==> valid(final(self)@.instances),
            final(self).torrents == old(self).torrents,
    {
        let event = InstanceEvent::Created {
            id: String::from_str(id),
            torrent_name: torrent.name.clone(),
            info_hash: torrent.info_hash_hex(),
            auto_started: false,
        };
        match self.create_instance_internal(
            id,
            torrent,
            FakerConfig::default(),
            InstanceSource::Manual,
            now,
            created_at,
        ) {
            Ok(()) => Ok(event),
            Err(e) => Err(e),
        }
    }

    /// Creates a session for a torrent file from the watch folder, and
    /// gives the event that tells of it.
    pub fn create_instance_with_event(
        &mut self,
        id: &str,
        torrent: TorrentInfo,
        config: FakerConfig,
        auto_started: bool,
        now: u64,
        created_at: u64,
    ) -> (r: Result<InstanceEvent, String>)
        ensures
            r is Ok,
            r->Ok_0@ == created_event(id@, torrent@, auto_started),
            creates(
                old(self)@.instances,
                final(self)@.instances,
                id@,
                torrent@,
                torrent.total_size,
                config,
                InstanceSource::WatchFolder,
                now,
                created_at,
            ),
            valid(old(self)@.instances) ==> valid(final(self)@.instances),
            final(self).torrents == old(self).torrents,
    {
        let event = InstanceEvent::Created {
            id: String::from_str(id),
            torrent_name: torrent.name.clone(),
            info_hash: torrent.info_hash_hex(),
            auto_started,
        };
        match self.create_instance_internal(
            id,
            torrent,
            config,
            InstanceSource::WatchFolder,
            now,
            created_at,
        ) {
            Ok(()) => Ok(event),
            Err(e) => Err(e),
        }
    }

    /// Starts the session under `id` at `now` and gives the `started`
    /// announce to send. A session that starts is stamped with the day
    /// `at`.
    pub fn start_instance(&mut self, id: &str, now: u64, at: u64) -> (r: Result<
        AnnounceRequest,
        String,
    >)
        ensures
            match slot_of(old(self)@.instances, id@) {
                Some(i) => {
                    &&& final(self)@.instances == after_command(
                        old(self)@.instances,
                        i,
                        Command::Start { now },
                        at,
                    )
                    &&& r is Ok <==> starts_in(old(self)@.instances[i].session.state)
                    &&& r is Ok ==> is_request_of(
                        r->Ok_0,
                        final(self)@.instances[i].session,
                        TrackerEvent::Started,
                    )
                    &&& r is Err ==> r->Err_0@ == faker_fault_text(
                        FakerFault::InvalidState("Session is already under way"@),
                    )
                },
                None => final(self)@.instances == old(self)@.instances && r is Err && r->Err_0@ == not_found(),
            },
            valid(old(self)@.instances) ==> valid(final(self)@.instances),
            final(self).torrents == old(self).torrents,
    {
        let ghost before = self@.instances;
        proof {
            lemma_slot_of(before, id@);
        }
        match self.find_slot(id) {
            Some(i) => {
                let touched = can_start(&self.instances[i].faker.state);
                let outcome = self.instances[i].faker.start(now);
                if touched {
                    self.instances[i].updated_at = at;
                }
                proof {
                    assert(self@.instances =~= after_command(
                        before,
                        i as int,
                        Command::Start { now },
                        at,
                    ));
                    lemma_step_keeps_valid(before, i as int, Command::Start { now }, at);
                }
                match outcome {
                    Ok(request) => Ok(request),
                    Err(e) => Err(e.message()),
                }
            },
            None => Err(no_instance()),
        }
    }

    /// Stops the session under `id`, brings its cumulative counters up to
    /// its figures, and gives those figures and the `stopped` announce to
    /// send, if there is one. A session that had not stopped is stamped
    /// with the day `at`.
    pub fn stop_instance(&mut self, id: &str, at: u64) -> (r: Result<
        (FakerStats, Option<AnnounceRequest>),
        String,
    >)
        ensures
            match slot_of(old(self)@.instances, id@) {
                Some(i) => {
                    &&& final(self)@.instances == after_stop(old(self)@.instances, i, at)
                    &&& r is Ok
                    &&& r->Ok_0.0@ == final(self)@.instances[i].session.stats
                    &&& r->Ok_0.1 is Some <==> !(old(self)@.instances[i].session.state is Stopped)
                    &&& r->Ok_0.1 is Some ==> is_request_of(
                        r->Ok_0.1->Some_0,
                        final(self)@.instances[i].session,
                        TrackerEvent::Stopped,
                    )
                },
                None => final(self)@.instances == old(self)@.instances && r is Err && r->Err_0@ == not_found(),
            },
            valid(old(self)@.instances) ==> valid(final(self)@.instances),
            final(self).torrents == old(self).torrents,
    {
        let ghost before = self@.instances;
        proof {
            lemma_slot_of(before, id@);
        }
        match self.find_slot(id) {
            Some(i) => {
                let touched = !is_stopped(&self.instances[i].faker.state);
                let request = self.instances[i].faker.stop();
                if touched {
                    self.instances[i].updated_at = at;
                }
                let stats = self.instances[i].faker.get_stats();
                self.instances[i].cumulative_uploaded = stats.uploaded;
                self.instances[i].cumulative_downloaded = stats.downloaded;
                proof {
                    assert(self@.instances =~= after_stop(before, i as int, at));
                    if valid(before) {
                        lemma_step_keeps_well_formed(before[i as int].session, Command::Stop);
                    }
                    lemma_update_keeps_valid(before, i as int, self@.instances[i as int]);
                }
                Ok((stats, request))
            },
            None => Err(no_instance()),
        }
    }

    /// Pauses the session under `id`. A session that was under way is
    /// stamped with the day `at`.
    pub fn pause_instance(&mut self, id: &str, at: u64) -> (r: Result<(), String>)
        ensures
            match slot_of(old(self)@.instances, id@) {
                Some(i) => {
                    &&& final(self)@.instances == after_command(
                        old(self)@.instances,
                        i,
                        Command::Pause,
                        at,
                    )
                    &&& r is Err <==> starts_in(old(self)@.instances[i].session.state)
                    &&& r is Err ==> r->Err_0@ == faker_fault_text(
                        FakerFault::InvalidState("Session is not under way"@),
                    )
                },
                None => final(self)@.instances == old(self)@.instances && r is Err && r->Err_0@ == not_found(),
            },
            valid(old(self)@.instances) ==> valid(final(self)@.instances),
            final(self).torrents == old(self).torrents,
    {
        let ghost before = self@.instances;
        proof {
            lemma_slot_of(before, id@);
        }
        match self.find_slot(id) {
            Some(i) => {
                let touched = is_under_way(&self.instances[i].faker.state);
                let outcome = self.instances[i].faker.pause();
                if touched {
                    self.instances[i].updated_at = at;
                }
                proof {
                    assert(self@.instances =~= after_command(before, i as int, Command::Pause, at));
                    lemma_step_keeps_valid(before, i as int, Command::Pause, at);
                }
                match outcome {
                    Ok(()) => Ok(()),
                    Err(e) => Err(e.message()),
                }
            },
            None => Err(no_instance()),
        }
    }

    /// Lets the session under `id` run again from `now`. A session that
    /// was paused is stamped with the day `at`.
    pub fn resume_instance(&mut self, id: &str, now: u64, at: u64) -> (r: Result<(), String>)
        ensures
            match slot_of(old(self)@.instances, id@) {
                Some(i) => {
                    &&& final(self)@.instances == after_command(
                        old(self)@.instances,
                        i,
                        Command::Resume { now },
                        at,
                    )
                    &&& r is Err <==> starts_in(old(self)@.instances[i].session.state)
                    &&& r is Err ==> r->Err_0@ == faker_fault_text(
                        FakerFault::InvalidState("Session is not under way"@),
                    )
                },
                None => final(self)@.instances == old(self)@.instances && r is Err && r->Err_0@ == not_found(),
            },
            valid(old(self)@.instances) ==> valid(final(self)@.instances),
            final(self).torrents == old(self).torrents,
    {
        let ghost before = self@.instances;
        proof {
            lemma_slot_of(before, id@);
        }
        match self.find_slot(id) {
            Some(i) => {
                let touched = is_paused(&self.instances[i].faker.state);
                let outcome = self.instances[i].faker.resume(now);
                if touched {
                    self.instances[i].updated_at = at;
                }
                proof {
                    assert(self@.instances =~= after_command(
                        before,
                        i as int,
                        Command::Resume { now },
                        at,
                    ));
                    lemma_step_keeps_valid(before, i as int, Command::Resume { now }, at);
                }
                match outcome {
                    Ok(()) => Ok(()),
                    Err(e) => Err(e.message()),
                }
            },
            None => Err(no_instance()),
        }
    }

    /// Advances the session under `id` by one tick at `now`, with the
    /// given draws, and gives what the tick asks for and the figures
    /// after it. A session that the tick advances is stamped with the day
    /// `at`.
    pub fn update_instance(
        &mut self,
        id: &str,
        now: u64,
        upload_jitter: i64,
        download_jitter: i64,
        at: u64,
    ) -> (r: Result<(TickOutcome, FakerStats), String>)
        ensures
            match slot_of(old(self)@.instances, id@) {
                Some(i) => {
                    &&& final(self)@.instances == after_command(
                        old(self)@.instances,
                        i,
                        Command::Tick { now, upload_jitter, download_jitter, announcing: true },
                        at,
                    )
                    &&& r is Err <==> starts_in(old(self)@.instances[i].session.state)
                    &&& r is Ok ==> r->Ok_0.0 == tick_model(
                        old(self)@.instances[i].session,
                        now,
                        upload_jitter,
                        download_jitter,
                        true,
                    ).1 && r->Ok_0.1@ == final(self)@.instances[i].session.stats
                    &&& r is Err ==> r->Err_0@ == faker_fault_text(
                        FakerFault::InvalidState("Session is not under way"@),
                    )
                },
                None => final(self)@.instances == old(self)@.instances && r is Err && r->Err_0@ == not_found(),
            },
            valid(old(self)@.instances) ==> valid(final(self)@.instances),
            final(self).torrents == old(self).torrents,
    {
        let ghost before = self@.instances;
        proof {
            lemma_slot_of(before, id@);
        }
        match self.find_slot(id) {
            Some(i) => {
                let touched = is_under_way(&self.instances[i].faker.state);
                let outcome = self.instances[i].faker.update(now, upload_jitter, download_jitter);
                if touched {
                    self.instances[i].updated_at = at;
                }
                proof {
                    assert(self@.instances =~= after_command(
                        before,
                        i as int,
                        Command::Tick { now, upload_jitter, download_jitter, announcing: true },
                        at,
                    ));
                    lemma_step_keeps_valid(
                        before,
                        i as int,
                        Command::Tick { now, upload_jitter, download_jitter, announcing: true },
                        at,
                    );
                }
                match outcome {
                    Ok(tick) => Ok((tick, self.instances[i].faker.get_stats())),
                    Err(e) => Err(e.message()),
                }
            },
            None => Err(no_instance()),
        }
    }

    /// Advances the session under `id` as [`AppState::update_instance`]
    /// does, but asks for no periodic announce.
    pub fn update_stats_only(
        &mut self,
        id: &str,
        now: u64,
        upload_jitter: i64,
        download_jitter: i64,
        at: u64,
    ) -> (r: Result<(TickOutcome, FakerStats), String>)
        ensures
            match slot_of(old(self)@.instances, id@) {
                Some(i) => {
                    &&& final(self)@.instances == after_command(
                        old(self)@.instances,
                        i,
                        Command::Tick { now, upload_jitter, download_jitter, announcing: false },
                        at,
                    )
                    &&& r is Err <==> starts_in(old(self)@.instances[i].session.state)
                    &&& r is Ok ==> r->Ok_0.0 == tick_model(
                        old(self)@.instances[i].session,
                        now,
                        upload_jitter,
                        download_jitter,
                        false,
                    ).1 && r->Ok_0.1@ == final(self)@.instances[i].session.stats
                    &&& r is Err ==> r->Err_0@ == faker_fault_text(
                        FakerFault::InvalidState("Session is not under way"@),
                    )
                },
                None => final(self)@.instances == old(self)@.instances && r is Err && r->Err_0@ == not_found(),
            },
            valid(old(self)@.instances) ==> valid(final(self)@.instances),
            final(self).torrents == old(self).torrents,
    {
        let ghost before = self@.instances;
        proof {
            lemma_slot_of(before, id@);
        }
        match self.find_slot(id) {
            Some(i) => {
                let touched = is_under_way(&self.instances[i].faker.state);
                let outcome = self.instances[i].faker.update_stats_only(
                    now,
                    upload_jitter,
                    download_jitter,
                );
                if touched {
                    self.instances[i].updated_at = at;
                }
                proof {
                    assert(self@.instances =~= after_command(
                        before,
                        i as int,
                        Command::Tick { now, upload_jitter, download_jitter, announcing: false },
                        at,
                    ));
                    lemma_step_keeps_valid(
                        before,
                        i as int,
                        Command::Tick { now, upload_jitter, download_jitter, announcing: false },
                        at,
                    );
                }
                match outcome {
                    Ok(tick) => Ok((tick, self.instances[i].faker.get_stats())),
                    Err(e) => Err(e.message()),
                }
            },
            None => Err(no_instance()),
        }
    }

    /// The figures of the session under `id`.
    pub fn get_stats(&self, id: &str) -> (r: Result<FakerStats, String>)
        ensures
            match slot_of(self@.instances, id@) {
                Some(i) => r is Ok && r->Ok_0@ == self@.instances[i].session.stats,
                None => r is Err && r->Err_0@ == not_found(),
            },
    {
        proof {
            lemma_slot_of(self@.instances, id@);
        }
        match self.find_slot(id) {
            Some(i) => Ok(self.instances[i].faker.get_stats()),
            None => Err(no_instance()),
        }
    }
}

/// A command to one session of a valid registry leaves the registry
/// valid.
pub proof fn lemma_step_keeps_valid(items: Seq<InstanceModel>, i: int, c: Command, at: u64)
    requires
        0 <= i < items.len(),
    ensures
        valid(items) ==> valid(after_command(items, i, c, at)),
{
    if valid(items) {
        lemma_step_keeps_well_formed(items[i].session, c);
        lemma_update_keeps_valid(items, i, after_command(items, i, c, at)[i]);
    }
}

/// Replacing a session by a well-formed one with the same identifier
/// leaves a valid registry valid.
pub proof fn lemma_update_keeps_valid(items: Seq<InstanceModel>, i: int, instance: InstanceModel)
    requires
        0 <= i < items.len(),
        instance.id == items[i].id,
    ensures
        valid(items) && well_formed(instance.session) ==> valid(items.update(i, instance)),
{
    if valid(items) && well_formed(instance.session) {
        let after = items.update(i, instance);
        assert forall|a: int, b: int| 0 <= a < b < after.len() implies after[a].id
            != after[b].id by {
            assert(items[a].id != items[b].id);
        }
        assert forall|k: int| 0 <= k < after.len() implies well_formed(
            #[trigger] after[k].session,
        ) by {
            if k != i {
                assert(well_formed(items[k].session));
            }
        }
    }
}

/// Milliseconds between two snapshots while a session runs.
pub const SAVE_INTERVAL: u64 = 30_000;

/// What is written down of a session.
pub open spec fn persisted_of(instance: InstanceModel) -> PersistedModel {
    PersistedModel {
        id: instance.id,
        torrent: instance.torrent,
        total_size: instance.session.total_size,
        config: instance.config,
        cumulative_uploaded: instance.session.stats.uploaded,
        cumulative_downloaded: instance.session.stats.downloaded,
        state: instance.session.stats.state,
        created_at: instance.created_at,
        updated_at: instance.updated_at,
        source: instance.source,
    }
}

/// The session that is made again at `now` from what was written down
/// of it, given the peer id and key that it draws: its counters and its
/// state are exactly those written down, and where it ran it is started.
pub open spec fn restored_instance(p: PersistedModel, peer_id: Seq<char>, key: Seq<char>, now: u64)
    -> InstanceModel {
    InstanceModel {
        id: p.id,
        session: reloaded(
            p.torrent,
            p.total_size,
            starting_from(p.config, p.cumulative_uploaded, p.cumulative_downloaded),
            client_of_config(p.config),
            peer_id,
            key,
            now,
            p.state,
        ),
        torrent: p.torrent,
        config: p.config,
        cumulative_uploaded: p.cumulative_uploaded,
        cumulative_downloaded: p.cumulative_downloaded,
        created_at: p.created_at,
        updated_at: p.updated_at,
        source: p.source,
    }
}

/// Whether `after` is `before` with the session of `p` made again and
/// put in under its identifier.
pub open spec fn restores(
    before: Seq<InstanceModel>,
    p: PersistedModel,
    now: u64,
    after: Seq<InstanceModel>,
) -> bool {
    &&& slot_of(after, p.id) is Some
    &&& identity_shaped(
        after[slot_of(after, p.id)->Some_0].session.peer_id,
        after[slot_of(after, p.id)->Some_0].session.key,
        client_of_config(p.config).peer_id_prefix,
    )
    &&& after == placed(
        before,
        restored_instance(
            p,
            after[slot_of(after, p.id)->Some_0].session.peer_id,
            after[slot_of(after, p.id)->Some_0].session.key,
            now,
        ),
    )
}

/// Whether `order` is the order to send the `started` announce of the
/// session of `p`, as it stands in `after` right after it was made
/// again.
pub open spec fn orders_start(p: PersistedModel, after: Seq<InstanceModel>, order: StartOrder) -> bool {
    &&& slot_of(after, p.id) is Some
    &&& order.id@ == p.id
    &&& is_request_of(
        order.request,
        after[slot_of(after, p.id)->Some_0].session,
        TrackerEvent::Started,
    )
}

/// Whether `after` is `before` with the sessions of `saved` made again,
/// one after the other, and `orders` holds, in the order of `saved`, one
/// order for each of them that ran when it was written down, and no
/// other.
pub open spec fn loaded(
    before: Seq<InstanceModel>,
    saved: Seq<PersistedModel>,
    now: u64,
    after: Seq<InstanceModel>,
    orders: Seq<StartOrder>,
) -> bool
    decreases saved.len(),
{
    if saved.len() == 0 {
        after == before && orders.len() == 0
    } else if saved.last().state is Running {
        orders.len() > 0 && exists|mid: Seq<InstanceModel>|
            loaded(before, saved.drop_last(), now, mid, orders.drop_last()) && #[trigger] restores(
                mid,
                saved.last(),
                now,
                after,
            ) && orders_start(saved.last(), after, orders.last())
    } else {
        exists|mid: Seq<InstanceModel>|
            loaded(before, saved.drop_last(), now, mid, orders) && #[trigger] restores(
                mid,
                saved.last(),
                now,
                after,
            )
    }
}

/// Making one more session again extends what was loaded.
pub proof fn lemma_loaded_one_more(
    before: Seq<InstanceModel>,
    saved: Seq<PersistedModel>,
    now: u64,
    mid: Seq<InstanceModel>,
    after: Seq<InstanceModel>,
    front: Seq<StartOrder>,
    orders: Seq<StartOrder>,
)
    requires
        saved.len() > 0,
        loaded(before, saved.drop_last(), now, mid, front),
        restores(mid, saved.last(), now, after),
        if saved.last().state is Running {
            orders.len() > 0 && orders.drop_last() == front && orders_start(
                saved.last(),
                after,
                orders.last(),
            )
        } else {
            orders == front
        },
    ensures
        loaded(before, saved, now, after, orders),
{
}

/// The number of sessions among `saved` that ran when they were written
/// down.
pub open spec fn running_count(saved: Seq<PersistedModel>) -> nat
    decreases saved.len(),
{
    if saved.len() == 0 {
        0
    } else {
        running_count(saved.drop_last()) + if saved.last().state is Running {
            1nat
        } else {
            0nat
        }
    }
}

/// Loading gives as many orders as sessions ran.
pub proof fn lemma_one_order_for_each_running(
    before: Seq<InstanceModel>,
    saved: Seq<PersistedModel>,
    now: u64,
    after: Seq<InstanceModel>,
    orders: Seq<StartOrder>,
)
    requires
        loaded(before, saved, now, after, orders),
    ensures
        orders.len() == running_count(saved),
    decreases saved.len(),
{
    if saved.len() > 0 {
        if saved.last().state is Running {
            let mid = choose|mid: Seq<InstanceModel>|
                loaded(before, saved.drop_last(), now, mid, orders.drop_last())
                    && #[trigger] restores(mid, saved.last(), now, after) && orders_start(
                    saved.last(),
                    after,
                    orders.last(),
                );
            lemma_one_order_for_each_running(before, saved.drop_last(), now, mid, orders.drop_last());
        } else {
            let mid = choose|mid: Seq<InstanceModel>|
                loaded(before, saved.drop_last(), now, mid, orders) && #[trigger] restores(
                    mid,
                    saved.last(),
                    now,
                    after,
                );
            lemma_one_order_for_each_running(before, saved.drop_last(), now, mid, orders);
        }
    }
}

/// A session that is written down, made again at any time and written
/// down again is written down as before, whatever was written down.
pub proof fn lemma_snapshot_is_stable(p: PersistedModel, peer_id: Seq<char>, key: Seq<char>, now: u64)
    ensures
        persisted_of(restored_instance(p, peer_id, key, now)) == p,
{
}

/// Whether no identifier occurs twice among what was written down.
pub open spec fn distinct_saved_ids(saved: Seq<PersistedModel>) -> bool {
    forall|i: int, j: int| 0 <= i < j < saved.len() ==> saved[i].id != saved[j].id
}

/// What is written down of every session of a registry, in the
/// registry's order.
pub open spec fn snapshot(items: Seq<InstanceModel>) -> Seq<PersistedModel> {
    Seq::new(items.len(), |i: int| persisted_of(items[i]))
}

/// What is written down of a registry in which no identifier occurs
/// twice holds no identifier twice.
pub proof fn lemma_snapshot_has_distinct_ids(items: Seq<InstanceModel>)
    requires
        distinct_ids(items),
    ensures
        distinct_saved_ids(snapshot(items)),
{
}

/// The snapshot of a registry, loaded at any time into an empty
/// registry, gives a registry with the same snapshot, whenever the two
/// snapshots are taken.
pub proof fn lemma_snapshot_reload_snapshot(
    items: Seq<InstanceModel>,
    now: u64,
    after: Seq<InstanceModel>,
    orders: Seq<StartOrder>,
)
    requires
        distinct_ids(items),
        loaded(Seq::empty(), snapshot(items), now, after, orders),
    ensures
        snapshot(after) == snapshot(items),
{
    lemma_snapshot_has_distinct_ids(items);
    lemma_reload_is_stable(snapshot(items), now, after, orders);
    assert(snapshot(after) =~= snapshot(items));
}

/// What was written down, loaded into an empty registry and written down
/// again, is written down as before: the same sessions in the same
/// order, each with the same counters, state, configuration and times.
pub proof fn lemma_reload_is_stable(
    saved: Seq<PersistedModel>,
    now: u64,
    after: Seq<InstanceModel>,
    orders: Seq<StartOrder>,
)
    requires
        distinct_saved_ids(saved),
        loaded(Seq::empty(), saved, now, after, orders),
    ensures
        after.len() == saved.len(),
        forall|i: int|
            0 <= i < saved.len() ==> persisted_of(#[trigger] after[i]) == saved[i],
    decreases saved.len(),
{
    if saved.len() > 0 {
        let last = saved.last();
        let front = saved.drop_last();
        let front_orders = if last.state is Running {
            orders.drop_last()
        } else {
            orders
        };
        let mid = choose|mid: Seq<InstanceModel>|
            loaded(Seq::empty(), front, now, mid, front_orders) && #[trigger] restores(
                mid,
                last,
                now,
                after,
            );
        assert forall|i: int, j: int| 0 <= i < j < front.len() implies front[i].id
            != front[j].id by {
            assert(saved[i].id != saved[j].id);
        }
        lemma_reload_is_stable(front, now, mid, front_orders);
        lemma_slot_of(mid, last.id);
        assert forall|k: int| 0 <= k < mid.len() implies mid[k].id != last.id by {
            assert(persisted_of(mid[k]) == front[k]);
            assert(saved[k].id != saved[saved.len() - 1].id);
        }
        assert(slot_of(mid, last.id) is None);
        lemma_slot_of(after, last.id);
        let at = slot_of(after, last.id)->Some_0;
        let made = restored_instance(last, after[at].session.peer_id, after[at].session.key, now);
        assert(after == mid.push(made));
        lemma_snapshot_is_stable(last, after[at].session.peer_id, after[at].session.key, now);
        assert forall|i: int| 0 <= i < saved.len() implies persisted_of(#[trigger] after[i])
            == saved[i] by {
            if i < mid.len() {
                assert(after[i] == mid[i]);
                assert(persisted_of(mid[i]) == front[i]);
            } else {
                assert(after[i] == made);
            }
        }
    }
}

/// A session that is made again from what was written down of a torrent
/// of the size that the counters count is well formed.
pub proof fn lemma_restored_well_formed(
    p: PersistedModel,
    peer_id: Seq<char>,
    key: Seq<char>,
    now: u64,
)
    requires
        p.total_size == p.torrent.total_size,
    ensures
        well_formed(restored_instance(p, peer_id, key, now).session),
{
}

/// Taking a session out of a valid registry leaves it valid.
pub proof fn lemma_remove_keeps_valid(items: Seq<InstanceModel>, i: int)
    requires
        0 <= i < items.len(),
    ensures
        valid(items) ==> valid(items.remove(i)),
        valid(items) ==> slot_of(items.remove(i), items[i].id) is None,
{
    if valid(items) {
        let after = items.remove(i);
        assert forall|a: int, b: int| 0 <= a < b < after.len() implies after[a].id
            != after[b].id by {
            let a0 = if a < i {
                a
            } else {
                a + 1
            };
            let b0 = if b < i {
                b
            } else {
                b + 1
            };
            assert(items[a0].id != items[b0].id);
        }
        assert forall|k: int| 0 <= k < after.len() implies well_formed(
            #[trigger] after[k].session,
        ) by {
            let k0 = if k < i {
                k
            } else {
                k + 1
            };
            assert(well_formed(items[k0].session));
        }
        lemma_slot_of(after, items[i].id);
        if slot_of(after, items[i].id) is Some {
            let k = slot_of(after, items[i].id)->Some_0;
            let k0 = if k < i {
                k
            } else {
                k + 1
            };
            assert(items[k0].id == items[i].id);
            if k0 < i {
                assert(items[k0].id != items[i].id);
            } else {
                assert(items[i].id != items[k0].id);
            }
        }
    }
}

/// The message that refuses a snapshot of a later version.
pub open spec fn later_version() -> Seq<char> {
    "Saved state has a later version than this program reads"@
}

/// A session that is created anew under the identifier of one for the
/// same torrent starts from that one's cumulative counters, with nothing
/// counted for the session yet; the completion share counts only as far
/// as the bytes downloaded do not hold it.
pub proof fn lemma_same_torrent_keeps_counters(
    items: Seq<InstanceModel>,
    i: int,
    torrent: TorrentModel,
    total_size: u64,
    config: FakerConfig,
    source: InstanceSource,
    now: u64,
    created_at: u64,
    peer_id: Seq<char>,
    key: Seq<char>,
)
    requires
        distinct_ids(items),
        0 <= i < items.len(),
        torrent.info_hash == items[i].session.info_hash,
    ensures
        ({
            let made = new_instance(
                items,
                items[i].id,
                torrent,
                total_size,
                config,
                source,
                now,
                created_at,
                peer_id,
                key,
            );
            let share = completion_share(total_size, config.completion_percent);
            &&& made.cumulative_uploaded == items[i].cumulative_uploaded
            &&& made.cumulative_downloaded == items[i].cumulative_downloaded
            &&& made.session.stats.uploaded == items[i].cumulative_uploaded
            &&& made.session.stats.downloaded == if items[i].cumulative_downloaded >= share {
                items[i].cumulative_downloaded
            } else {
                share
            }
            &&& made.session.stats.session_uploaded == 0
            &&& made.session.stats.session_downloaded == 0
            &&& made.created_at == items[i].created_at
            &&& made.source == items[i].source
        }),
{
    lemma_slot_of_own(items, i);
}

/// A session that is created anew under the identifier of one for
/// another torrent, or under an identifier that is free, starts from
/// zero: nothing is uploaded, and no more is downloaded than the
/// completion share.
pub proof fn lemma_other_torrent_resets_counters(
    items: Seq<InstanceModel>,
    id: Seq<char>,
    torrent: TorrentModel,
    total_size: u64,
    config: FakerConfig,
    source: InstanceSource,
    now: u64,
    created_at: u64,
    peer_id: Seq<char>,
    key: Seq<char>,
)
    requires
        match slot_of(items, id) {
            Some(i) => items[i].session.info_hash != torrent.info_hash,
            None => true,
        },
    ensures
        ({
            let made = new_instance(
                items,
                id,
                torrent,
                total_size,
                config,
                source,
                now,
                created_at,
                peer_id,
                key,
            );
            &&& made.cumulative_uploaded == 0
            &&& made.cumulative_downloaded == 0
            &&& made.session.stats.uploaded == 0
            &&& made.session.stats.downloaded == completion_share(
                total_size,
                config.completion_percent,
            )
            &&& made.session.stats.session_uploaded == 0
            &&& made.session.stats.session_downloaded == 0
            &&& made.created_at == created_at
            &&& made.source == source
        }),
{
}

/// A command that does not touch the session it is given to leaves the
/// registry, and with it the snapshot, as it is, whatever the day.
pub proof fn lemma_untouched_keeps_registry(items: Seq<InstanceModel>, i: int, c: Command, at: u64)
    requires
        valid(items),
        0 <= i < items.len(),
        !touches(items[i].session, c),
    ensures
        after_command(items, i, c, at) == items,
        snapshot(after_command(items, i, c, at)) == snapshot(items),
{
    lemma_untouched_stays(items[i].session, c);
    assert(after_command(items, i, c, at) =~= items);
}

/// The registry after the session at place `i` was stopped on the day
/// `at`.
pub open spec fn after_stop(items: Seq<InstanceModel>, i: int, at: u64) -> Seq<InstanceModel> {
    items.update(i, settled(after_command(items, i, Command::Stop, at)[i]))
}

/// A session that is stopped and then created anew under its identifier
/// for the same torrent shows at once the bytes uploaded that it showed
/// when it stopped, has nothing counted for the new session, and is
/// idle.
pub proof fn lemma_recreation_after_stop(
    items: Seq<InstanceModel>,
    i: int,
    at: u64,
    torrent: TorrentModel,
    total_size: u64,
    config: FakerConfig,
    source: InstanceSource,
    now: u64,
    created_at: u64,
    peer_id: Seq<char>,
    key: Seq<char>,
)
    requires
        distinct_ids(items),
        0 <= i < items.len(),
        torrent.info_hash == items[i].session.info_hash,
    ensures
        ({
            let made = new_instance(
                after_stop(items, i, at),
                items[i].id,
                torrent,
                total_size,
                config,
                source,
                now,
                created_at,
                peer_id,
                key,
            );
            &&& made.session.stats.uploaded == items[i].session.stats.uploaded
            &&& made.session.stats.session_uploaded == 0
            &&& made.session.stats.session_downloaded == 0
            &&& made.session.state is Idle
            &&& made.session.stats.state is Idle
            &&& made.cumulative_uploaded == items[i].session.stats.uploaded
            &&& made.cumulative_downloaded == items[i].session.stats.downloaded
            &&& made.session.info_hash == torrent.info_hash
        }),
{
    let stopped = after_stop(items, i, at);
    assert forall|a: int, b: int| 0 <= a < b < stopped.len() implies stopped[a].id
        != stopped[b].id by {
        assert(stopped[a].id == items[a].id);
        assert(stopped[b].id == items[b].id);
    }
    lemma_same_torrent_keeps_counters(
        stopped,
        i,
        torrent,
        total_size,
        config,
        source,
        now,
        created_at,
        peer_id,
        key,
    );
}

/// A session that is stopped and then created anew under its identifier
/// for another torrent shows nothing uploaded, has nothing counted for
/// the new session, is idle, and has the new torrent's info hash.
pub proof fn lemma_other_torrent_after_stop(
    items: Seq<InstanceModel>,
    i: int,
    at: u64,
    torrent: TorrentModel,
    total_size: u64,
    config: FakerConfig,
    source: InstanceSource,
    now: u64,
    created_at: u64,
    peer_id: Seq<char>,
    key: Seq<char>,
)
    requires
        distinct_ids(items),
        0 <= i < items.len(),
        torrent.info_hash != items[i].session.info_hash,
    ensures
        ({
            let made = new_instance(
                after_stop(items, i, at),
                items[i].id,
                torrent,
                total_size,
                config,
                source,
                now,
                created_at,
                peer_id,
                key,
            );
            &&& made.session.stats.uploaded == 0
            &&& made.session.stats.session_uploaded == 0
            &&& made.session.stats.session_downloaded == 0
            &&& made.session.state is Idle
            &&& made.cumulative_uploaded == 0
            &&& made.cumulative_downloaded == 0
            &&& made.session.info_hash == torrent.info_hash
            &&& made.torrent == torrent
        }),
{
    let stopped = after_stop(items, i, at);
    assert forall|a: int, b: int| 0 <= a < b < stopped.len() implies stopped[a].id
        != stopped[b].id by {
        assert(stopped[a].id == items[a].id);
        assert(stopped[b].id == items[b].id);
    }
    lemma_slot_of_own(stopped, i);
    lemma_other_torrent_resets_counters(
        stopped,
        items[i].id,
        torrent,
        total_size,
        config,
        source,
        now,
        created_at,
        peer_id,
        key,
    );
}

/// Creating a session anew for the same torrent, with the same
/// configuration, after it was stopped counts as downloaded what was
/// downloaded when it stopped, and adds no share a second time.
pub proof fn lemma_recreation_adds_no_share(total_size: u64, config: FakerConfig, downloaded: u64)
    requires
        downloaded >= completion_share(total_size, config.completion_percent),
    ensures
        continued_downloaded(total_size, starting_from(config, 0, downloaded)) == downloaded,
{
}

/// The event that tells of the deletion of the session under `id`.
pub open spec fn deleted_event(id: Seq<char>) -> InstanceEventModel {
    InstanceEventModel::Deleted { id }
}

/// The torrent stored under `id`, if there is one.
pub open spec fn stored_under(torrents: Seq<StoredModel>, id: Seq<char>) -> Option<TorrentModel>
    decreases torrents.len(),
{
    if torrents.len() == 0 {
        None
    } else if torrents.last().id == id {
        Some(torrents.last().torrent)
    } else {
        stored_under(torrents.drop_last(), id)
    }
}

/// An announce to send for the session under an identifier.
#[derive(Debug)]
pub struct StartOrder {
    pub id: String,
    pub request: AnnounceRequest,
}

impl AppState {
    /// Takes the session at place `i` out of the registry.
    fn remove_at(&mut self, i: usize) -> (r: FakerInstance)
        requires
            i < old(self).instances@.len(),
        ensures
            final(self)@.instances == old(self)@.instances.remove(i as int),
            r@ == old(self)@.instances[i as int],
            final(self).torrents == old(self).torrents,
    {
        let ghost before = self@.instances;
        let taken = self.instances.remove(i);
        assert(self@.instances =~= before.remove(i as int));
        taken
    }

    /// Deletes the session under `id` and gives the event that tells of
    /// it. A session from the watch folder is deleted only by `force`.
    /// Where no session has the identifier, nothing happens.
    pub fn delete_instance(&mut self, id: &str, force: bool) -> (r: Result<
        Option<InstanceEvent>,
        String,
    >)
        ensures
            match slot_of(old(self)@.instances, id@) {
                Some(i) => if !force && old(self)@.instances[i].source is WatchFolder {
                    final(self)@.instances == old(self)@.instances && r is Err && r->Err_0@ == watch_folder_refusal()
                } else {
                    final(self)@.instances == old(self)@.instances.remove(i) && r is Ok && r->Ok_0 is Some
                        && r->Ok_0->Some_0@ == deleted_event(id@)
                },
                None => final(self)@.instances == old(self)@.instances && r is Ok && r->Ok_0 is None,
            },
            valid(old(self)@.instances) ==> valid(final(self)@.instances),
            final(self).torrents == old(self).torrents,
            valid(old(self)@.instances) && r is Ok ==> slot_of(final(self)@.instances, id@) is None,
    {
        proof {
            lemma_slot_of(self@.instances, id@);
        }
        match self.find_slot(id) {
            Some(i) => {
                if !force {
                    match self.instances[i].source {
                        InstanceSource::WatchFolder => {
                            return Err(
                                String::from_str(
                                    "Cannot delete watch folder instance. Delete the torrent file from the watch folder instead, or use force delete.",
                                ),
                            );
                        },
                        InstanceSource::Manual => {},
                    }
                }
                proof {
                    lemma_remove_keeps_valid(self@.instances, i as int);
                }
                let _ = self.remove_at(i);
                Ok(Some(InstanceEvent::Deleted { id: String::from_str(id) }))
            },
            None => Ok(None),
        }
    }

    /// The identifier of the first session for the torrent with
    /// `info_hash`.
    pub fn find_instance_by_info_hash(&self, info_hash: &[u8; 20]) -> (r: Option<String>)
        ensures
            match slot_of_hash(self@.instances, info_hash@) {
                Some(i) => r is Some && r->Some_0@ == self@.instances[i].id,
                None => r is None,
            },
    {
        match self.find_slot_by_hash(info_hash) {
            Some(i) => Some(self.instances[i].id.clone()),
            None => None,
        }
    }

    /// The place of the first session for the torrent with `info_hash`.
    fn find_slot_by_hash(&self, info_hash: &[u8; 20]) -> (r: Option<usize>)
        ensures
            match r {
                Some(i) => slot_of_hash(self@.instances, info_hash@) == Some(i as int)
                    && i < self.instances@.len(),
                None => slot_of_hash(self@.instances, info_hash@) is None,
            },
    {
        let mut i: usize = 0;
        let ghost all = self@.instances;
        assert(all.subrange(0, 0).len() == 0);
        while i < self.instances.len()
            invariant
                i <= self.instances.len(),
                all == self@.instances,
                all.len() == self.instances@.len(),
                slot_of_hash(all.subrange(0, i as int), info_hash@) is None,
            decreases self.instances.len() - i,
        {
            proof {
                assert(all.subrange(0, i + 1).drop_last() == all.subrange(0, i as int));
                assert(all.subrange(0, i + 1).last() == self.instances@[i as int]@);
            }
            if bytes_eq(self.instances[i].faker.torrent.info_hash.as_slice(), info_hash.as_slice()) {
                proof {
                    lemma_hash_slot_prefix(all, info_hash@, i + 1);
                }
                return Some(i);
            }
            i += 1;
        }
        assert(all.subrange(0, i as int) == all);
        None
    }

    /// Deletes the first session for the torrent with `info_hash`,
    /// whatever its source, and gives the event that tells of it.
    pub fn delete_instance_by_info_hash(&mut self, info_hash: &[u8; 20]) -> (r: Result<
        Option<InstanceEvent>,
        String,
    >)
        ensures
            r is Ok,
            match slot_of_hash(old(self)@.instances, info_hash@) {
                Some(i) => final(self)@.instances == old(self)@.instances.remove(i) && r->Ok_0 is Some
                    && r->Ok_0->Some_0@ == deleted_event(old(self)@.instances[i].id),
                None => final(self)@.instances == old(self)@.instances && r->Ok_0 is None,
            },
            valid(old(self)@.instances) ==> valid(final(self)@.instances),
            final(self).torrents == old(self).torrents,
    {
        proof {
            lemma_slot_of_hash(self@.instances, info_hash@);
        }
        match self.find_slot_by_hash(info_hash) {
            Some(i) => {
                proof {
                    lemma_remove_keeps_valid(self@.instances, i as int);
                }
                let taken = self.remove_at(i);
                Ok(Some(InstanceEvent::Deleted { id: taken.id }))
            },
            None => Ok(None),
        }
    }

    /// Sets the source of the session under `id`.
    pub fn update_instance_source(&mut self, id: &str, source: InstanceSource) -> (r: Result<
        (),
        String,
    >)
        ensures
            match slot_of(old(self)@.instances, id@) {
                Some(i) => final(self)@.instances == old(self)@.instances.update(
                    i,
                    InstanceModel { source, ..old(self)@.instances[i] },
                ) && r is Ok,
                None => final(self)@.instances == old(self)@.instances && r is Err && r->Err_0@ == not_found(),
            },
            valid(old(self)@.instances) ==> valid(final(self)@.instances),
            final(self).torrents == old(self).torrents,
    {
        let ghost before = self@.instances;
        proof {
            lemma_slot_of(before, id@);
        }
        match self.find_slot(id) {
            Some(i) => {
                self.instances[i].source = source;
                proof {
                    assert(self@.instances =~= before.update(
                        i as int,
                        InstanceModel { source, ..before[i as int] },
                    ));
                    if valid(before) {
                        lemma_update_keeps_valid(before, i as int, self@.instances[i as int]);
                    }
                }
                Ok(())
            },
            None => Err(no_instance()),
        }
    }

    /// Sets the source of the first session for the torrent with
    /// `info_hash`, if there is one.
    pub fn update_instance_source_by_info_hash(
        &mut self,
        info_hash: &[u8; 20],
        source: InstanceSource,
    ) -> (r: Result<(), String>)
        ensures
            r is Ok,
            match slot_of_hash(old(self)@.instances, info_hash@) {
                Some(i) => final(self)@.instances == old(self)@.instances.update(
                    i,
                    InstanceModel { source, ..old(self)@.instances[i] },
                ),
                None => final(self)@.instances == old(self)@.instances,
            },
            valid(old(self)@.instances) ==> valid(final(self)@.instances),
            final(self).torrents == old(self).torrents,
    {
        let ghost before = self@.instances;
        proof {
            lemma_slot_of_hash(before, info_hash@);
        }
        match self.find_slot_by_hash(info_hash) {
            Some(i) => {
                self.instances[i].source = source;
                proof {
                    assert(self@.instances =~= before.update(
                        i as int,
                        InstanceModel { source, ..before[i as int] },
                    ));
                    if valid(before) {
                        lemma_update_keeps_valid(before, i as int, self@.instances[i as int]);
                    }
                }
                Ok(())
            },
            None => Ok(()),
        }
    }

    /// Gives the session under `id` the configuration `config` without
    /// touching the session itself.
    pub fn update_instance_config_only(&mut self, id: &str, config: FakerConfig) -> (r: Result<
        (),
        String,
    >)
        ensures
            match slot_of(old(self)@.instances, id@) {
                Some(i) => final(self)@.instances == old(self)@.instances.update(
                    i,
                    InstanceModel { config, ..old(self)@.instances[i] },
                ) && r is Ok,
                None => final(self)@.instances == old(self)@.instances && r is Err && r->Err_0@ == not_found(),
            },
            valid(old(self)@.instances) ==> valid(final(self)@.instances),
            final(self).torrents == old(self).torrents,
    {
        let ghost before = self@.instances;
        proof {
            lemma_slot_of(before, id@);
        }
        match self.find_slot(id) {
            Some(i) => {
                self.instances[i].config = config;
                proof {
                    assert(self@.instances =~= before.update(
                        i as int,
                        InstanceModel { config, ..before[i as int] },
                    ));
                    if valid(before) {
                        lemma_update_keeps_valid(before, i as int, self@.instances[i as int]);
                    }
                }
                Ok(())
            },
            None => Err(no_instance()),
        }
    }

    /// Gives the session under `id` the configuration `config` and makes
    /// the session anew at `now`, on the day `at`: it continues from its
    /// cumulative counters, and counts the completion share only as far as
    /// they do not hold it.
    pub fn update_instance_config(
        &mut self,
        id: &str,
        config: FakerConfig,
        now: u64,
        at: u64,
    ) -> (r: Result<(), String>)
        ensures
            match slot_of(old(self)@.instances, id@) {
                Some(i) => final(self)@.instances == old(self)@.instances.update(
                    i,
                    InstanceModel {
                        config,
                        session: continued(
                            old(self)@.instances[i].session.torrent,
                            old(self)@.instances[i].session.total_size,
                            starting_from(
                                config,
                                old(self)@.instances[i].cumulative_uploaded,
                                old(self)@.instances[i].cumulative_downloaded,
                            ),
                            client_of_config(config),
                            final(self)@.instances[i].session.peer_id,
                            final(self)@.instances[i].session.key,
                            now,
                        ),
                        updated_at: at,
                        ..old(self)@.instances[i]
                    },
                ) && r is Ok,
                None => final(self)@.instances == old(self)@.instances && r is Err && r->Err_0@ == not_found(),
            },
            valid(old(self)@.instances) ==> valid(final(self)@.instances),
            final(self).torrents == old(self).torrents,
    {
        let ghost before = self@.instances;
        proof {
            lemma_slot_of(before, id@);
        }
        match self.find_slot(id) {
            Some(i) => {
                let torrent = self.instances[i].faker.torrent.clone();
                let faker_config = with_counters(
                    &config,
                    self.instances[i].cumulative_uploaded,
                    self.instances[i].cumulative_downloaded,
                );
                let faker = RatioFaker::continued(torrent, faker_config, now);
                self.instances[i].faker = faker;
                self.instances[i].config = config;
                self.instances[i].updated_at = at;
                proof {
                    assert(self@.instances[i as int].torrent == before[i as int].torrent);
                    assert(self@.instances =~= before.update(i as int, self@.instances[i as int]));
                    if valid(before) {
                        lemma_update_keeps_valid(before, i as int, self@.instances[i as int]);
                    }
                }
                Ok(())
            },
            None => Err(no_instance()),
        }
    }

    /// Takes in the tracker's answer, received at `now`, to the announce
    /// of `event` by the session under `id`. But for the answer to
    /// `stopped`, which changes nothing, the session is stamped with the
    /// day `at`.
    pub fn record_announce(
        &mut self,
        id: &str,
        event: TrackerEvent,
        response: &AnnounceResponse,
        now: u64,
        at: u64,
    ) -> (r: Result<(), String>)
        ensures
            match slot_of(old(self)@.instances, id@) {
                Some(i) => final(self)@.instances == after_command(
                    old(self)@.instances,
                    i,
                    Command::Answer { event, response: response@, now },
                    at,
                ) && r is Ok,
                None => final(self)@.instances == old(self)@.instances && r is Err && r->Err_0@ == not_found(),
            },
            valid(old(self)@.instances) ==> valid(final(self)@.instances),
            final(self).torrents == old(self).torrents,
    {
        let ghost before = self@.instances;
        proof {
            lemma_slot_of(before, id@);
        }
        match self.find_slot(id) {
            Some(i) => {
                let touched = !is_stopped_event(&event);
                self.instances[i].faker.announce_succeeded(event, response, now);
                if touched {
                    self.instances[i].updated_at = at;
                }
                proof {
                    assert(self@.instances =~= after_command(
                        before,
                        i as int,
                        Command::Answer { event, response: response@, now },
                        at,
                    ));
                    lemma_step_keeps_valid(
                        before,
                        i as int,
                        Command::Answer { event, response: response@, now },
                        at,
                    );
                }
                Ok(())
            },
            None => Err(no_instance()),
        }
    }

    /// The sessions with their figures, in the registry's order.
    pub fn list_instances(&self) -> (r: Vec<InstanceInfo>)
        ensures
            r@.len() == self@.instances.len(),
            forall|i: int|
                0 <= i < r@.len() ==> {
                    &&& (#[trigger] r@[i]).id@ == self@.instances[i].id
                    &&& r@[i].torrent@ == self@.instances[i].torrent
                    &&& r@[i].config == self@.instances[i].config
                    &&& r@[i].stats@ == self@.instances[i].session.stats
                    &&& r@[i].created_at == self@.instances[i].created_at
                    &&& r@[i].source == self@.instances[i].source
                },
    {
        let mut out: Vec<InstanceInfo> = Vec::new();
        let mut i: usize = 0;
        while i < self.instances.len()
            invariant
                i <= self.instances.len(),
                out@.len() == i,
                forall|k: int|
                    0 <= k < i ==> {
                        &&& (#[trigger] out@[k]).id@ == self@.instances[k].id
                        &&& out@[k].torrent@ == self@.instances[k].torrent
                        &&& out@[k].config == self@.instances[k].config
                        &&& out@[k].stats@ == self@.instances[k].session.stats
                        &&& out@[k].created_at == self@.instances[k].created_at
                        &&& out@[k].source == self@.instances[k].source
                    },
            decreases self.instances.len() - i,
        {
            let instance = &self.instances[i];
            out.push(
                InstanceInfo {
                    id: instance.id.clone(),
                    torrent: instance.faker.torrent.clone(),
                    config: instance.config.clone(),
                    stats: instance.faker.get_stats(),
                    created_at: instance.created_at,
                    source: instance.source,
                },
            );
            i += 1;
        }
        out
    }

    /// Stores a loaded torrent under `id`.
    pub fn store_torrent(&mut self, id: &str, torrent: TorrentInfo)
        ensures
            final(self)@.torrents == old(self)@.torrents.push(
                StoredModel { id: id@, torrent: torrent@ },
            ),
            stored_under(final(self)@.torrents, id@) == Some(torrent@),
            forall|other: Seq<char>|
                other != id@ ==> stored_under(final(self)@.torrents, other) == stored_under(
                    old(self)@.torrents,
                    other,
                ),
            final(self).instances == old(self).instances,
    {
        let ghost before = self@.torrents;
        self.torrents.push(StoredTorrent { id: String::from_str(id), torrent });
        assert(self@.torrents =~= before.push(StoredModel { id: id@, torrent: torrent@ }));
        assert(self@.torrents.drop_last() == before);
    }

    /// The torrent stored under `id`.
    pub fn get_torrent(&self, id: &str) -> (r: Option<TorrentInfo>)
        ensures
            match stored_under(self@.torrents, id@) {
                Some(t) => r is Some && r->Some_0@ == t,
                None => r is None,
            },
    {
        let ghost all = self@.torrents;
        let mut i: usize = self.torrents.len();
        assert(all.subrange(0, i as int) == all);
        while i > 0
            invariant
                i <= self.torrents.len(),
                all == self@.torrents,
                all.len() == self.torrents@.len(),
                stored_under(all, id@) == stored_under(all.subrange(0, i as int), id@),
            decreases i,
        {
            proof {
                let front = all.subrange(0, i as int);
                assert(front.drop_last() == all.subrange(0, i - 1));
                assert(front.last() == all[i - 1]);
                assert(all[i - 1].id == self.torrents@[i - 1].id@);
                assert(all[i - 1].torrent == self.torrents@[i - 1].torrent@);
            }
            i -= 1;
            if text_eq(self.torrents[i].id.as_str(), id) {
                return Some(self.torrents[i].torrent.clone());
            }
        }
        assert(all.subrange(0, 0).len() == 0);
        None
    }

    /// A fresh identifier: ten characters, each a letter, a digit, `_` or
    /// `-`.
    pub fn next_instance_id(&self) -> (r: String)
        ensures
            r@.len() == 10,
            forall|i: int| 0 <= i < 10 ==> is_token_char(#[trigger] r@[i]),
    {
        fresh_token()
    }

    /// What is written down of the registry: every session, in the
    /// registry's order, each with the day on which it last changed.
    pub fn save_state(&self) -> (r: PersistedState)
        ensures
            r.version == STATE_VERSION,
            persisted_models(r.instances@) == snapshot(self@.instances),
    {
        let mut out: Vec<PersistedInstance> = Vec::new();
        let mut i: usize = 0;
        while i < self.instances.len()
            invariant
                i <= self.instances.len(),
                out@.len() == i,
                forall|k: int| 0 <= k < i ==> (#[trigger] out@[k])@ == persisted_of(self@.instances[k]),
            decreases self.instances.len() - i,
        {
            let instance = &self.instances[i];
            out.push(
                PersistedInstance {
                    id: instance.id.clone(),
                    torrent: instance.faker.torrent.clone(),
                    config: instance.config.clone(),
                    cumulative_uploaded: instance.faker.stats.uploaded,
                    cumulative_downloaded: instance.faker.stats.downloaded,
                    state: instance.faker.stats.state,
                    created_at: instance.created_at,
                    updated_at: instance.updated_at,
                    source: instance.source,
                },
            );
            i += 1;
        }
        assert(persisted_models(out@) =~= snapshot(self@.instances));
        PersistedState { instances: out, version: STATE_VERSION }
    }

    /// Makes the session of `persisted` again at `now` and puts it in
    /// under its identifier; where it ran when it was written down, it is
    /// started, and the `started` announce to send is given.
    pub fn restore_instance(&mut self, persisted: &PersistedInstance, now: u64) -> (r: Option<
        AnnounceRequest,
    >)
        ensures
            restores(old(self)@.instances, persisted@, now, final(self)@.instances),
            r is Some <==> persisted.state is Running,
            r is Some ==> is_request_of(
                r->Some_0,
                final(self)@.instances[slot_of(final(self)@.instances, persisted.id@)->Some_0].session,
                TrackerEvent::Started,
            ),
            valid(old(self)@.instances) ==> valid(final(self)@.instances),
            final(self).torrents == old(self).torrents,
    {
        let ghost before = self@.instances;
        let faker_config = with_counters(
            &persisted.config,
            persisted.cumulative_uploaded,
            persisted.cumulative_downloaded,
        );
        let (faker, request) = RatioFaker::reloaded(
            persisted.torrent.clone(),
            faker_config,
            persisted.state,
            now,
        );
        let instance = FakerInstance {
            id: persisted.id.clone(),
            faker,
            config: persisted.config.clone(),
            cumulative_uploaded: persisted.cumulative_uploaded,
            cumulative_downloaded: persisted.cumulative_downloaded,
            created_at: persisted.created_at,
            updated_at: persisted.updated_at,
            source: persisted.source,
        };
        let ghost model = instance@;
        self.place(instance);
        proof {
            lemma_slot_of(before, persisted.id@);
            lemma_slot_of(self@.instances, persisted.id@);
            match slot_of(before, persisted.id@) {
                Some(i) => {
                    assert(self@.instances[i] == model);
                },
                None => {
                    assert(self@.instances[before.len() as int] == model);
                },
            }
            lemma_restored_well_formed(persisted@, model.session.peer_id, model.session.key, now);
            if valid(before) {
                lemma_placed_valid(before, model);
            }
        }
        request
    }

    /// Makes the sessions of `saved` again at `now`, one after the other,
    /// and gives their number and the `started` announces to send for
    /// those that ran when they were written down. A snapshot of a later
    /// version than this one is refused, and nothing is made of it.
    pub fn load_saved_state(&mut self, saved: &PersistedState, now: u64) -> (r: Result<
        (usize, Vec<StartOrder>),
        String,
    >)
        ensures
            r is Ok <==> saved.version <= STATE_VERSION,
            r is Ok ==> r->Ok_0.0 == saved.instances@.len() && loaded(
                old(self)@.instances,
                persisted_models(saved.instances@),
                now,
                final(self)@.instances,
                r->Ok_0.1@,
            ),
            r is Ok ==> r->Ok_0.1@.len() == running_count(persisted_models(saved.instances@)),
            r is Err ==> final(self)@.instances == old(self)@.instances && r->Err_0@ == later_version(),
            valid(old(self)@.instances) ==> valid(final(self)@.instances),
            final(self).torrents == old(self).torrents,
    {
        if saved.version > STATE_VERSION {
            return Err(String::from_str("Saved state has a later version than this program reads"));
        }
        let ghost before = self@.instances;
        let ghost all = persisted_models(saved.instances@);
        let mut orders: Vec<StartOrder> = Vec::new();
        let mut i: usize = 0;
        assert(all.subrange(0, 0).len() == 0);
        while i < saved.instances.len()
            invariant
                i <= saved.instances.len(),
                all == persisted_models(saved.instances@),
                loaded(before, all.subrange(0, i as int), now, self@.instances, orders@),
                valid(before) ==> valid(self@.instances),
                self.torrents == old(self).torrents,
            decreases saved.instances.len() - i,
        {
            let ghost mid = self@.instances;
            let ghost front = orders@;
            let persisted = &saved.instances[i];
            let request = self.restore_instance(persisted, now);
            if let Some(request) = request {
                orders.push(StartOrder { id: persisted.id.clone(), request });
            }
            proof {
                let next = all.subrange(0, i + 1);
                assert(next.drop_last() == all.subrange(0, i as int));
                assert(next.last() == persisted@);
                if persisted.state is Running {
                    assert(orders@.drop_last() == front);
                }
                lemma_loaded_one_more(before, next, now, mid, self@.instances, front, orders@);
            }
            i += 1;
        }
        assert(all.subrange(0, i as int) == all);
        proof {
            lemma_one_order_for_each_running(before, all, now, self@.instances, orders@);
        }
        Ok((i, orders))
    }

    /// The URL to scrape the tracker of the session under `id` at.
    pub fn scrape_instance(&self, id: &str) -> (r: Result<String, String>)
        ensures
            match slot_of(self@.instances, id@) {
                Some(i) => match url_normal_form(scrape_base(self@.instances[i].torrent.announce)) {
                    Ok(endpoint) => r is Ok && r->Ok_0@ == scrape_url(
                        endpoint,
                        self@.instances[i].session.info_hash,
                    ),
                    Err(m) => r is Err && r->Err_0@ == tracker_fault_text(TrackerFault::Url(m)),
                },
                None => r is Err && r->Err_0@ == not_found(),
            },
    {
        proof {
            lemma_slot_of(self@.instances, id@);
        }
        match self.find_slot(id) {
            Some(i) => match self.instances[i].faker.scrape() {
                Ok(url) => Ok(url),
                Err(e) => Err(e.message()),
            },
            None => Err(no_instance()),
        }
    }

    /// One turn of the driver of the session under `id`, at `now` on the
    /// day `at`: where the session exists and is running or completed, it
    /// is ticked with draws of its own, and what the tick asks for is
    /// given; otherwise the driver is to end.
    pub fn drive(&mut self, id: &str, now: u64, at: u64) -> (r: Option<TickOutcome>)
        ensures
            match slot_of(old(self)@.instances, id@) {
                Some(i) => if ticks_in(old(self)@.instances[i].session.state) {
                    r is Some && exists|up: i64, down: i64|
                        {
                            &&& final(self)@.instances == #[trigger] after_command(
                                old(self)@.instances,
                                i,
                                Command::Tick {
                                    now,
                                    upload_jitter: up,
                                    download_jitter: down,
                                    announcing: true,
                                },
                                at,
                            )
                            &&& r->Some_0 == tick_model(
                                old(self)@.instances[i].session,
                                now,
                                up,
                                down,
                                true,
                            ).1
                        }
                } else {
                    r is None && final(self)@.instances == old(self)@.instances
                },
                None => r is None && final(self)@.instances == old(self)@.instances,
            },
            valid(old(self)@.instances) ==> valid(final(self)@.instances),
            final(self).torrents == old(self).torrents,
    {
        let ghost before = self@.instances;
        proof {
            lemma_slot_of(before, id@);
        }
        match self.find_slot(id) {
            Some(i) => {
                match self.instances[i].faker.state {
                    FakerState::Running | FakerState::Completed => {},
                    _ => {
                        return None;
                    },
                }
                let up = self.instances[i].faker.draw_jitter();
                let down = self.instances[i].faker.draw_jitter();
                let outcome = self.instances[i].faker.update(now, up, down);
                self.instances[i].updated_at = at;
                proof {
                    assert(self@.instances =~= after_command(
                        before,
                        i as int,
                        Command::Tick {
                            now,
                            upload_jitter: up,
                            download_jitter: down,
                            announcing: true,
                        },
                        at,
                    ));
                    lemma_step_keeps_valid(
                        before,
                        i as int,
                        Command::Tick {
                            now,
                            upload_jitter: up,
                            download_jitter: down,
                            announcing: true,
                        },
                        at,
                    );
                }
                match outcome {
                    Ok(tick) => Some(tick),
                    Err(_) => None,
                }
            },
            None => None,
        }
    }
}

/// Whether a snapshot is due at `now`, the last one having been made at
/// `last_save`.
pub fn save_due(last_save: u64, now: u64) -> (r: bool)
    ensures
        r == (now - last_save >= SAVE_INTERVAL),
{
    now >= last_save && now - last_save >= SAVE_INTERVAL
}

/// A place found among the first `n` sessions is the place among all.
pub proof fn lemma_hash_slot_prefix(items: Seq<InstanceModel>, info_hash: Seq<u8>, n: int)
    requires
        0 <= n <= items.len(),
        slot_of_hash(items.subrange(0, n), info_hash) is Some,
    ensures
        slot_of_hash(items, info_hash) == slot_of_hash(items.subrange(0, n), info_hash),
    decreases items.len() - n,
{
    if n < items.len() {
        assert(items.subrange(0, n + 1).drop_last() == items.subrange(0, n));
        lemma_hash_slot_prefix(items, info_hash, n + 1);
    } else {
        assert(items.subrange(0, n) == items);
    }
}

} // verus!
