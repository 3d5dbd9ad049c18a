//! The session engine: the rate model, the counters that a tick advances,
//! the stop predicates and the state machine of one faking session.
//!
//! The engine does no I/O. It is handed the time, in milliseconds of a
//! clock that does not run backwards, and says which announces are to be
//! sent; whoever drives it sends them and hands the responses back.

use crate::protocol::tracker::{
    scrape_base, scrape_url, tracker_fault_text, url_normal_form, AnnounceRequest, AnnounceResponse,
    AnnounceResponseModel, TrackerClient, TrackerError, TrackerEvent, TrackerFault,
};
use crate::random::random_below;
use crate::session_laws::{lemma_step_keeps_well_formed, Command};
use crate::torrent::client::{
    fingerprint, is_alnum, is_upper_hex, ClientConfig, ClientModel, ClientType,
};
use crate::torrent::info::{TorrentInfo, TorrentModel};
use crate::units::{
    add_capped, capped, capped_sum, floored_difference, magnitude, scale, scaled, size_of,
    FULL_PERCENT,
};
use vstd::arithmetic::div_mod::{
    lemma_div_is_ordered, lemma_div_multiples_vanish, lemma_div_pos_is_pos,
};
use vstd::prelude::*;
use vstd::string::*;

verus! {

/// The number of samples that each history keeps.
pub const HISTORY_LEN: usize = 60;

/// The states of a session.
#[derive(Clone, Copy, Debug, PartialEq, Eq, Structural)]
pub enum FakerState {
    Idle,
    Running,
    Paused,
    Stopped,
    Completed,
}

/// Why a session stopped.
#[derive(Clone, Copy, Debug, PartialEq, Eq, Structural)]
pub enum StopReason {
    UserCommand,
    UserInterrupt,
    TargetRatio,
    TargetUploaded,
    TargetDownloaded,
    TargetSeedTime,
    NoLeechers,
    Error,
}

/// Why a command to a session failed.
#[derive(Debug)]
pub enum FakerError {
    TrackerError(TrackerError),
    /// The command makes no sense in the session's state.
    InvalidState(String),
    ConfigError(String),
}

/// The content of a [`FakerError`].
pub enum FakerFault {
    Tracker(TrackerFault),
    InvalidState(Seq<char>),
    Config(Seq<char>),
}

impl View for FakerError {
    type V = FakerFault;

    open spec fn view(&self) -> FakerFault {
        match self {
            FakerError::TrackerError(e) => FakerFault::Tracker(e@),
            FakerError::InvalidState(m) => FakerFault::InvalidState(m@),
            FakerError::ConfigError(m) => FakerFault::Config(m@),
        }
    }
}

/// A fault as a line of text.
pub open spec fn faker_fault_text(fault: FakerFault) -> Seq<char> {
    match fault {
        FakerFault::Tracker(f) => "Tracker error: "@ + tracker_fault_text(f),
        FakerFault::InvalidState(m) => "Invalid state: "@ + m,
        FakerFault::Config(m) => "Configuration error: "@ + m,
    }
}

impl FakerError {
    /// The error as a line of text.
    pub fn message(&self) -> (r: String)
        ensures
            r@ == faker_fault_text(self@),
    {
        match self {
            FakerError::TrackerError(e) => {
                let mut r = String::from_str("Tracker error: ");
                r.append(e.message().as_str());
                r
            },
            FakerError::InvalidState(m) => {
                let mut r = String::from_str("Invalid state: ");
                r.append(m.as_str());
                r
            },
            FakerError::ConfigError(m) => {
                let mut r = String::from_str("Configuration error: ");
                r.append(m.as_str());
                r
            },
        }
    }
}

/// How a session behaves. Rates are in millionths of a KiB/s, percentages
/// in millionths of a percent, ratios in millionths.
#[derive(Debug)]
pub struct FakerConfig {
    pub upload_rate: i64,
    pub download_rate: i64,
    /// The port to announce.
    pub port: u16,
    pub client_type: ClientType,
    /// The client's version; its default where none is given.
    pub client_version: Option<String>,
    /// Bytes uploaded before the session.
    pub initial_uploaded: u64,
    /// Bytes downloaded before the session.
    pub initial_downloaded: u64,
    /// How much of the torrent is there already.
    pub completion_percent: i64,
    /// The number of peers to ask for.
    pub num_want: u32,
    /// Whether each tick varies the rates by chance.
    pub randomize_rates: bool,
    /// How far a rate may vary from its base, to either side.
    pub random_range_percent: i64,
    pub stop_at_ratio: Option<i64>,
    /// Session bytes uploaded at which to stop.
    pub stop_at_uploaded: Option<u64>,
    /// Session bytes downloaded at which to stop.
    pub stop_at_downloaded: Option<u64>,
    /// Seconds after which to stop.
    pub stop_at_seed_time: Option<u64>,
    /// Whether to stop once the tracker reports no leechers.
    pub stop_when_no_leechers: bool,
    /// Whether the rates move towards their targets over time.
    pub progressive_rates: bool,
    pub target_upload_rate: Option<i64>,
    pub target_download_rate: Option<i64>,
    /// Seconds over which the rates reach their targets.
    pub progressive_duration: u64,
    /// Seconds between announces until the tracker names an interval.
    pub announce_interval: u64,
    /// Seconds between ticks.
    pub update_interval: u64,
}

/// The configuration that stands where none is given.
pub open spec fn default_config() -> FakerConfig {
    FakerConfig {
        upload_rate: 50_000_000,
        download_rate: 100_000_000,
        port: 6881,
        client_type: ClientType::QBittorrent,
        client_version: None,
        initial_uploaded: 0,
        initial_downloaded: 0,
        completion_percent: 0,
        num_want: 50,
        randomize_rates: true,
        random_range_percent: 20_000_000,
        stop_at_ratio: None,
        stop_at_uploaded: None,
        stop_at_downloaded: None,
        stop_at_seed_time: None,
        stop_when_no_leechers: false,
        progressive_rates: false,
        target_upload_rate: None,
        target_download_rate: None,
        progressive_duration: 3600,
        announce_interval: 1800,
        update_interval: 5,
    }
}

impl Default for FakerConfig {
    fn default() -> (r: FakerConfig)
        ensures
            r == default_config(),
    {
        FakerConfig {
            upload_rate: 50_000_000,
            download_rate: 100_000_000,
            port: 6881,
            client_type: ClientType::QBittorrent,
            client_version: None,
            initial_uploaded: 0,
            initial_downloaded: 0,
            completion_percent: 0,
            num_want: 50,
            randomize_rates: true,
            random_range_percent: 20_000_000,
            stop_at_ratio: None,
            stop_at_uploaded: None,
            stop_at_downloaded: None,
            stop_at_seed_time: None,
            stop_when_no_leechers: false,
            progressive_rates: false,
            target_upload_rate: None,
            target_download_rate: None,
            progressive_duration: 3600,
            announce_interval: 1800,
            update_interval: 5,
        }
    }
}

impl Clone for FakerConfig {
    fn clone(&self) -> (r: FakerConfig)
        ensures
            r == *self,
    {
        FakerConfig {
            upload_rate: self.upload_rate,
            download_rate: self.download_rate,
            port: self.port,
            client_type: self.client_type,
            client_version: self.client_version.clone(),
            initial_uploaded: self.initial_uploaded,
            initial_downloaded: self.initial_downloaded,
            completion_percent: self.completion_percent,
            num_want: self.num_want,
            randomize_rates: self.randomize_rates,
            random_range_percent: self.random_range_percent,
            stop_at_ratio: self.stop_at_ratio,
            stop_at_uploaded: self.stop_at_uploaded,
            stop_at_downloaded: self.stop_at_downloaded,
            stop_at_seed_time: self.stop_at_seed_time,
            stop_when_no_leechers: self.stop_when_no_leechers,
            progressive_rates: self.progressive_rates,
            target_upload_rate: self.target_upload_rate,
            target_download_rate: self.target_download_rate,
            progressive_duration: self.progressive_duration,
            announce_interval: self.announce_interval,
            update_interval: self.update_interval,
        }
    }
}

/// The rate that moves from `start` to `target` in a straight line over
/// `duration` seconds, after `elapsed` of them; the target from then on.
pub open spec fn progressive_rate(start: int, target: int, elapsed: nat, duration: nat) -> int {
    if elapsed >= duration {
        target
    } else if target >= start {
        start + ((target - start) * elapsed) / (duration as int)
    } else {
        start - ((start - target) * elapsed) / (duration as int)
    }
}

/// The rate before chance: the configured one, or the progressive one.
pub open spec fn base_rate(
    progressive: bool,
    rate: i64,
    target: Option<i64>,
    elapsed: nat,
    duration: nat,
) -> int {
    if progressive {
        progressive_rate(
            rate as int,
            match target {
                Some(t) => t as int,
                None => rate as int,
            },
            elapsed,
            duration,
        )
    } else {
        rate as int
    }
}

/// How far, in millionths, a rate may vary from its base where chance
/// has the range `range_percent`.
pub open spec fn jitter_bound(range_percent: int) -> int {
    if range_percent <= 0 {
        0
    } else {
        range_percent / 100
    }
}

/// The number of draws that chance with the range `range_percent` has
/// to choose from: one for every millionth from the bound below to the
/// bound above.
pub open spec fn jitter_span(range_percent: int) -> int {
    2 * jitter_bound(range_percent) + 1
}

/// The draw that the pick `pick` out of [`jitter_span`] stands for: the
/// picks count up from the bound below, and a pick beyond the span
/// stands for the bound above.
pub open spec fn jitter_at(pick: u64, range_percent: int) -> int {
    let bound = jitter_bound(range_percent);
    if pick > 2 * bound {
        bound
    } else {
        pick - bound
    }
}

/// The number of draws to choose from where chance has the range
/// `range_percent`.
pub fn jitter_span_of(range_percent: i64) -> (r: u64)
    ensures
        r == jitter_span(range_percent as int),
        r > 0,
{
    let bound: u64 = if range_percent <= 0 {
        0
    } else {
        (range_percent / 100) as u64
    };
    2 * bound + 1
}

/// The draw, in millionths, that the pick `pick` stands for where chance
/// has the range `range_percent`.
pub fn jitter_from_pick(pick: u64, range_percent: i64) -> (r: i64)
    ensures
        r == jitter_at(pick, range_percent as int),
        -jitter_bound(range_percent as int) <= r <= jitter_bound(range_percent as int),
{
    let bound: i64 = if range_percent <= 0 {
        0
    } else {
        range_percent / 100
    };
    if pick > 2 * (bound as u64) {
        bound
    } else {
        (pick as i128 - bound as i128) as i64
    }
}

/// The draw `jitter` brought into the range that `range_percent` allows.
pub open spec fn bounded_jitter(jitter: int, range_percent: int) -> int {
    let bound = jitter_bound(range_percent);
    if jitter < -bound {
        -bound
    } else if jitter > bound {
        bound
    } else {
        jitter
    }
}

/// `base` times `factor` millionths, rounded towards zero and kept within
/// the 64-bit signed numbers.
pub open spec fn varied_rate(base: int, factor: int) -> int {
    let size = magnitude(base) * magnitude(factor) / 1_000_000;
    if (base < 0) != (factor < 0) {
        if size > -i64::MIN {
            i64::MIN as int
        } else {
            -size
        }
    } else {
        if size > i64::MAX {
            i64::MAX as int
        } else {
            size as int
        }
    }
}

/// The rate of one tick: the base rate, multiplied by one plus the
/// bounded draw where rates are randomized.
pub open spec fn current_rate(randomize: bool, base: int, jitter: int, range_percent: int) -> int {
    if randomize {
        varied_rate(base, 1_000_000 + bounded_jitter(jitter, range_percent))
    } else {
        base
    }
}

/// The bytes that `rate` moves in `dt` milliseconds: `rate * 1024 * dt`
/// with the units taken out, never less than nothing.
pub open spec fn bytes_for(rate: int, dt: nat) -> nat {
    if rate <= 0 {
        0
    } else {
        scaled(rate as nat, 1024, dt, 1_000_000_000)
    }
}

fn calculate_progressive_rate(start: i64, target: i64, elapsed: u64, duration: u64) -> (r: i64)
    ensures
        r == progressive_rate(start as int, target as int, elapsed as nat, duration as nat),
{
    if elapsed >= duration {
        return target;
    }
    if target >= start {
        let diff: u64 = (target as i128 - start as i128) as u64;
        let step = scale(diff, elapsed, 1, duration);
        proof {
            lemma_partial_step(diff as int, elapsed as int, duration as int);
        }
        ((start as i128) + (step as i128)) as i64
    } else {
        let diff: u64 = (start as i128 - target as i128) as u64;
        let step = scale(diff, elapsed, 1, duration);
        proof {
            lemma_partial_step(diff as int, elapsed as int, duration as int);
        }
        ((start as i128) - (step as i128)) as i64
    }
}

proof fn lemma_partial_step(diff: int, elapsed: int, duration: int)
    requires
        0 <= diff <= u64::MAX,
        0 <= elapsed < duration,
    ensures
        diff * elapsed * 1 == diff * elapsed,
        0 <= (diff * elapsed) / duration <= diff,
        scaled(diff as nat, elapsed as nat, 1, duration as nat) == (diff * elapsed) / duration,
{
    let part = diff * elapsed;
    let whole = duration * diff;
    assert(part * 1 == part) by (nonlinear_arith);
    assert(0 <= part <= whole) by (nonlinear_arith)
        requires
            part == diff * elapsed,
            whole == duration * diff,
            0 <= diff,
            0 <= elapsed < duration,
    ;
    lemma_div_is_ordered(part, whole, duration);
    lemma_div_multiples_vanish(diff, duration);
    lemma_div_pos_is_pos(part, duration);
    assert(whole / duration == diff);
    assert(0 <= part / duration <= diff);
    assert((diff as nat * elapsed as nat * 1) as int == part);
}

fn base_rate_at(progressive_rates: bool, rate: i64, target: Option<i64>, elapsed: u64, duration: u64)
    -> (r: i64)
    ensures
        r == base_rate(progressive_rates, rate, target, elapsed as nat, duration as nat),
{
    if progressive_rates {
        let goal = match target {
            Some(t) => t,
            None => rate,
        };
        calculate_progressive_rate(rate, goal, elapsed, duration)
    } else {
        rate
    }
}

fn vary(base: i64, factor: i64) -> (r: i64)
    ensures
        r == varied_rate(base as int, factor as int),
{
    let size = scale(size_of(base), size_of(factor), 1, 1_000_000);
    proof {
        assert(magnitude(base as int) * magnitude(factor as int) * 1 == magnitude(base as int)
            * magnitude(factor as int)) by (nonlinear_arith);
        assert(magnitude(base as int) * magnitude(factor as int) >= 0) by (nonlinear_arith);
    }
    proof {
        let exact = magnitude(base as int) * magnitude(factor as int) / 1_000_000;
        if exact > u64::MAX {
            assert(size == u64::MAX);
        } else {
            assert(size == exact);
        }
    }
    if (base < 0) != (factor < 0) {
        if size > i64::MAX as u64 {
            i64::MIN
        } else {
            -(size as i64)
        }
    } else {
        if size > i64::MAX as u64 {
            i64::MAX
        } else {
            size as i64
        }
    }
}

fn rate_now(randomize: bool, base: i64, jitter: i64, range_percent: i64) -> (r: i64)
    ensures
        r == current_rate(randomize, base as int, jitter as int, range_percent as int),
{
    if randomize {
        let bound: i64 = if range_percent <= 0 {
            0
        } else {
            range_percent / 100
        };
        let j: i64 = if jitter < -bound {
            -bound
        } else if jitter > bound {
            bound
        } else {
            jitter
        };
        vary(base, 1_000_000 + j)
    } else {
        base
    }
}

fn bytes_moved(rate: i64, dt: u64) -> (r: u64)
    ensures
        r == bytes_for(rate as int, dt as nat),
{
    if rate <= 0 {
        0
    } else {
        scale(rate as u64, 1024, dt, 1_000_000_000)
    }
}

/// What a session has done so far and what the tracker last said.
/// Rates are in millionths of a KiB/s, percentages in millionths of a
/// percent, ratios in millionths, times in milliseconds unless named
/// otherwise.
#[derive(Debug)]
pub struct FakerStats {
    /// Bytes uploaded, over all runs of the same torrent.
    pub uploaded: u64,
    /// Bytes downloaded, over all runs of the same torrent.
    pub downloaded: u64,
    /// Bytes of the torrent still missing.
    pub left: u64,
    pub seeders: i64,
    pub leechers: i64,
    /// Uploaded bytes over the torrent's size.
    pub ratio: u64,
    /// Session bytes uploaded over session bytes downloaded, taken as
    /// at least one.
    pub session_ratio: u64,
    /// Time since the session started.
    pub elapsed_time: u64,
    pub state: FakerState,
    /// When the last announce was made.
    pub last_announce: Option<u64>,
    /// When the next periodic announce is due.
    pub next_announce: Option<u64>,
    /// The number of announce responses taken in.
    pub announce_count: u64,
    pub session_uploaded: u64,
    pub session_downloaded: u64,
    pub current_upload_rate: i64,
    pub current_download_rate: i64,
    pub average_upload_rate: u64,
    pub average_download_rate: u64,
    pub upload_progress: u64,
    pub download_progress: u64,
    pub ratio_progress: u64,
    pub seed_time_progress: u64,
    /// Seconds until the target ratio, as far as can be told.
    pub eta_ratio: Option<u64>,
    /// Seconds until the upload target, as far as can be told.
    pub eta_uploaded: Option<u64>,
    /// Seconds until the seed time is over.
    pub eta_seed_time: Option<u64>,
    pub upload_rate_history: Vec<i64>,
    pub download_rate_history: Vec<i64>,
    pub ratio_history: Vec<u64>,
}

/// The content of a [`FakerStats`].
pub struct StatsModel {
    pub uploaded: u64,
    pub downloaded: u64,
    pub left: u64,
    pub seeders: i64,
    pub leechers: i64,
    pub ratio: u64,
    pub session_ratio: u64,
    pub elapsed_time: u64,
    pub state: FakerState,
    pub last_announce: Option<u64>,
    pub next_announce: Option<u64>,
    pub announce_count: u64,
    pub session_uploaded: u64,
    pub session_downloaded: u64,
    pub current_upload_rate: i64,
    pub current_download_rate: i64,
    pub average_upload_rate: u64,
    pub average_download_rate: u64,
    pub upload_progress: u64,
    pub download_progress: u64,
    pub ratio_progress: u64,
    pub seed_time_progress: u64,
    pub eta_ratio: Option<u64>,
    pub eta_uploaded: Option<u64>,
    pub eta_seed_time: Option<u64>,
    pub upload_rate_history: Seq<i64>,
    pub download_rate_history: Seq<i64>,
    pub ratio_history: Seq<u64>,
}

impl View for FakerStats {
    type V = StatsModel;

    open spec fn view(&self) -> StatsModel {
        StatsModel {
            uploaded: self.uploaded,
            downloaded: self.downloaded,
            left: self.left,
            seeders: self.seeders,
            leechers: self.leechers,
            ratio: self.ratio,
            session_ratio: self.session_ratio,
            elapsed_time: self.elapsed_time,
            state: self.state,
            last_announce: self.last_announce,
            next_announce: self.next_announce,
            announce_count: self.announce_count,
            session_uploaded: self.session_uploaded,
            session_downloaded: self.session_downloaded,
            current_upload_rate: self.current_upload_rate,
            current_download_rate: self.current_download_rate,
            average_upload_rate: self.average_upload_rate,
            average_download_rate: self.average_download_rate,
            upload_progress: self.upload_progress,
            download_progress: self.download_progress,
            ratio_progress: self.ratio_progress,
            seed_time_progress: self.seed_time_progress,
            eta_ratio: self.eta_ratio,
            eta_uploaded: self.eta_uploaded,
            eta_seed_time: self.eta_seed_time,
            upload_rate_history: self.upload_rate_history@,
            download_rate_history: self.download_rate_history@,
            ratio_history: self.ratio_history@,
        }
    }
}

impl Clone for FakerStats {
    fn clone(&self) -> (r: FakerStats)
        ensures
            r@ == self@,
    {
        FakerStats {
            uploaded: self.uploaded,
            downloaded: self.downloaded,
            left: self.left,
            seeders: self.seeders,
            leechers: self.leechers,
            ratio: self.ratio,
            session_ratio: self.session_ratio,
            elapsed_time: self.elapsed_time,
            state: self.state,
            last_announce: self.last_announce,
            next_announce: self.next_announce,
            announce_count: self.announce_count,
            session_uploaded: self.session_uploaded,
            session_downloaded: self.session_downloaded,
            current_upload_rate: self.current_upload_rate,
            current_download_rate: self.current_download_rate,
            average_upload_rate: self.average_upload_rate,
            average_download_rate: self.average_download_rate,
            upload_progress: self.upload_progress,
            download_progress: self.download_progress,
            ratio_progress: self.ratio_progress,
            seed_time_progress: self.seed_time_progress,
            eta_ratio: self.eta_ratio,
            eta_uploaded: self.eta_uploaded,
            eta_seed_time: self.eta_seed_time,
            upload_rate_history: copy_samples(&self.upload_rate_history),
            download_rate_history: copy_samples(&self.download_rate_history),
            ratio_history: copy_samples(&self.ratio_history),
        }
    }
}

fn copy_samples<T: Copy>(samples: &Vec<T>) -> (r: Vec<T>)
    ensures
        r@ == samples@,
{
    let mut out: Vec<T> = Vec::new();
    let mut i: usize = 0;
    while i < samples.len()
        invariant
            i <= samples.len(),
            out@ == samples@.subrange(0, i as int),
        decreases samples.len() - i,
    {
        out.push(samples[i]);
        assert(out@ =~= samples@.subrange(0, i + 1));
        i += 1;
    }
    assert(samples@.subrange(0, i as int) =~= samples@);
    out
}

/// A history with one more sample, and without its oldest one where it
/// would hold more than sixty.
pub open spec fn pushed<T>(history: Seq<T>, sample: T) -> Seq<T> {
    let longer = history.push(sample);
    if longer.len() > HISTORY_LEN {
        longer.remove(0)
    } else {
        longer
    }
}

fn push_sample<T>(history: &mut Vec<T>, sample: T)
    ensures
        final(history)@ == pushed(old(history)@, sample),
{
    history.push(sample);
    if history.len() > HISTORY_LEN {
        let _ = history.remove(0);
    }
}

/// Uploaded bytes over the torrent's size, which is zero for a torrent
/// without size.
pub open spec fn ratio_of(uploaded: u64, total_size: u64) -> u64 {
    if total_size > 0 {
        scaled(uploaded as nat, 1_000_000, 1, total_size as nat) as u64
    } else {
        0
    }
}

/// Session bytes uploaded over session bytes downloaded, the latter
/// taken as at least one.
pub open spec fn session_ratio_of(uploaded: u64, downloaded: u64) -> u64 {
    scaled(
        uploaded as nat,
        1_000_000,
        1,
        if downloaded == 0 {
            1
        } else {
            downloaded as nat
        },
    ) as u64
}

/// The rate at which `bytes` were moved in `elapsed` milliseconds.
pub open spec fn average_rate(bytes: u64, elapsed: u64) -> u64 {
    (scaled(bytes as nat, 1_000_000_000, 1, elapsed as nat) / 1024) as u64
}

/// How far `value` is on the way to `target`, at most one hundred
/// percent; a target of zero is reached at once.
pub open spec fn progress_of(value: u64, target: u64) -> u64 {
    if target == 0 {
        FULL_PERCENT
    } else {
        let share = scaled(value as nat, FULL_PERCENT as nat, 1, target as nat);
        if share > FULL_PERCENT {
            FULL_PERCENT
        } else {
            share as u64
        }
    }
}

/// The seconds that `remaining` bytes take at the rate `average`.
pub open spec fn eta_secs(remaining: u64, average: u64) -> u64 {
    (scaled(remaining as nat, 1_000_000, 1, average as nat) / 1024) as u64
}

/// The bytes whose upload makes the ratio `target` against `downloaded`.
pub open spec fn ratio_target_bytes(target: i64, downloaded: u64) -> u64 {
    if target <= 0 {
        0
    } else {
        scaled(target as nat, downloaded as nat, 1, 1_000_000) as u64
    }
}

fn ratio_now(uploaded: u64, total_size: u64) -> (r: u64)
    ensures
        r == ratio_of(uploaded, total_size),
{
    if total_size > 0 {
        scale(uploaded, 1_000_000, 1, total_size)
    } else {
        0
    }
}

fn session_ratio_now(uploaded: u64, downloaded: u64) -> (r: u64)
    ensures
        r == session_ratio_of(uploaded, downloaded),
{
    let base: u64 = if downloaded == 0 {
        1
    } else {
        downloaded
    };
    scale(uploaded, 1_000_000, 1, base)
}

fn average_now(bytes: u64, elapsed: u64) -> (r: u64)
    requires
        elapsed > 0,
    ensures
        r == average_rate(bytes, elapsed),
{
    scale(bytes, 1_000_000_000, 1, elapsed) / 1024
}

fn progress_now(value: u64, target: u64) -> (r: u64)
    ensures
        r == progress_of(value, target),
{
    if target == 0 {
        FULL_PERCENT
    } else {
        let share = scale(value, FULL_PERCENT, 1, target);
        if share > FULL_PERCENT {
            FULL_PERCENT
        } else {
            share
        }
    }
}

fn eta_now(remaining: u64, average: u64) -> (r: u64)
    requires
        average > 0,
    ensures
        r == eta_secs(remaining, average),
{
    scale(remaining, 1_000_000, 1, average) / 1024
}

fn ratio_target_now(target: i64, downloaded: u64) -> (r: u64)
    ensures
        r == ratio_target_bytes(target, downloaded),
{
    if target <= 0 {
        0
    } else {
        scale(target as u64, downloaded, 1, 1_000_000)
    }
}

/// The counters and rates after the transfer of one tick of `dt`
/// milliseconds, with the draws `upload_jitter` and `download_jitter`.
/// Upload counts in full; download counts as far as bytes are left.
pub open spec fn transferred(
    config: FakerConfig,
    stats: StatsModel,
    dt: u64,
    upload_jitter: i64,
    download_jitter: i64,
) -> StatsModel {
    let secs = (stats.elapsed_time / 1000) as nat;
    let up_rate = current_rate(
        config.randomize_rates,
        base_rate(
            config.progressive_rates,
            config.upload_rate,
            config.target_upload_rate,
            secs,
            config.progressive_duration as nat,
        ),
        upload_jitter as int,
        config.random_range_percent as int,
    );
    let down_rate = current_rate(
        config.randomize_rates,
        base_rate(
            config.progressive_rates,
            config.download_rate,
            config.target_download_rate,
            secs,
            config.progressive_duration as nat,
        ),
        download_jitter as int,
        config.random_range_percent as int,
    );
    let up = bytes_for(up_rate, dt as nat);
    let down = bytes_for(down_rate, dt as nat);
    let got = if down < stats.left {
        down
    } else {
        stats.left as nat
    };
    StatsModel {
        uploaded: capped_sum(stats.uploaded as nat, up) as u64,
        session_uploaded: capped_sum(stats.session_uploaded as nat, up) as u64,
        downloaded: capped_sum(stats.downloaded as nat, got) as u64,
        session_downloaded: capped_sum(stats.session_downloaded as nat, got) as u64,
        left: (stats.left - got) as u64,
        current_upload_rate: up_rate as i64,
        current_download_rate: down_rate as i64,
        upload_rate_history: pushed(stats.upload_rate_history, up_rate as i64),
        download_rate_history: pushed(stats.download_rate_history, down_rate as i64),
        ..stats
    }
}

/// The derived figures after a tick, `elapsed` milliseconds into the
/// session: ratios, average rates, progress towards each stop target and
/// the time each is still away.
pub open spec fn measured(config: FakerConfig, total_size: u64, stats: StatsModel, elapsed: u64)
    -> StatsModel {
    let ratio = ratio_of(stats.uploaded, total_size);
    let average_up = if elapsed > 0 {
        average_rate(stats.session_uploaded, elapsed)
    } else {
        stats.average_upload_rate
    };
    let average_down = if elapsed > 0 {
        average_rate(stats.session_downloaded, elapsed)
    } else {
        stats.average_download_rate
    };
    let secs = elapsed / 1000;
    StatsModel {
        ratio,
        session_ratio: session_ratio_of(stats.session_uploaded, stats.session_downloaded),
        ratio_history: pushed(stats.ratio_history, ratio),
        elapsed_time: elapsed,
        average_upload_rate: average_up,
        average_download_rate: average_down,
        upload_progress: match config.stop_at_uploaded {
            Some(t) => progress_of(stats.session_uploaded, t),
            None => 0,
        },
        eta_uploaded: match config.stop_at_uploaded {
            Some(t) => if average_up > 0 {
                Some(
                    eta_secs(
                        floored_difference(t as nat, stats.session_uploaded as nat) as u64,
                        average_up,
                    ),
                )
            } else {
                stats.eta_uploaded
            },
            None => None,
        },
        download_progress: match config.stop_at_downloaded {
            Some(t) => progress_of(stats.session_downloaded, t),
            None => 0,
        },
        ratio_progress: match config.stop_at_ratio {
            Some(t) => if t <= 0 {
                FULL_PERCENT
            } else {
                progress_of(ratio, t as u64)
            },
            None => 0,
        },
        eta_ratio: match config.stop_at_ratio {
            Some(t) => if average_up > 0 && stats.downloaded > 0 {
                Some(
                    eta_secs(
                        floored_difference(
                            ratio_target_bytes(t, stats.downloaded) as nat,
                            stats.uploaded as nat,
                        ) as u64,
                        average_up,
                    ),
                )
            } else {
                stats.eta_ratio
            },
            None => None,
        },
        seed_time_progress: match config.stop_at_seed_time {
            Some(t) => progress_of(secs as u64, t),
            None => 0,
        },
        eta_seed_time: match config.stop_at_seed_time {
            Some(t) => Some(floored_difference(t as nat, secs as nat) as u64),
            None => None,
        },
        ..stats
    }
}

/// The first stop predicate that holds, in the order ratio, uploaded,
/// downloaded, seed time, no leechers. The ratio target counts as reached
/// one thousandth early.
pub open spec fn stop_reason(config: FakerConfig, stats: StatsModel) -> Option<StopReason> {
    if config.stop_at_ratio is Some && stats.ratio >= config.stop_at_ratio->Some_0 - 1000 {
        Some(StopReason::TargetRatio)
    } else if config.stop_at_uploaded is Some && stats.session_uploaded
        >= config.stop_at_uploaded->Some_0 {
        Some(StopReason::TargetUploaded)
    } else if config.stop_at_downloaded is Some && stats.session_downloaded
        >= config.stop_at_downloaded->Some_0 {
        Some(StopReason::TargetDownloaded)
    } else if config.stop_at_seed_time is Some && stats.elapsed_time / 1000
        >= config.stop_at_seed_time->Some_0 {
        Some(StopReason::TargetSeedTime)
    } else if config.stop_when_no_leechers && stats.leechers == 0 && stats.announce_count >= 1 {
        Some(StopReason::NoLeechers)
    } else {
        None
    }
}

/// The first stop predicate that holds of `stats` under `config`, if any
/// does.
pub fn first_stop_reason(config: &FakerConfig, stats: &FakerStats) -> (r: Option<StopReason>)
    ensures
        r == stop_reason(*config, stats@),
{
    if let Some(t) = config.stop_at_ratio {
        if stats.ratio as i128 >= t as i128 - 1000 {
            return Some(StopReason::TargetRatio);
        }
    }
    if let Some(t) = config.stop_at_uploaded {
        if stats.session_uploaded >= t {
            return Some(StopReason::TargetUploaded);
        }
    }
    if let Some(t) = config.stop_at_downloaded {
        if stats.session_downloaded >= t {
            return Some(StopReason::TargetDownloaded);
        }
    }
    if let Some(t) = config.stop_at_seed_time {
        if stats.elapsed_time / 1000 >= t {
            return Some(StopReason::TargetSeedTime);
        }
    }
    if config.stop_when_no_leechers && stats.leechers == 0 && stats.announce_count >= 1 {
        return Some(StopReason::NoLeechers);
    }
    None
}

/// Why a session with the figures `stats` stopped: the first stop
/// predicate that holds, or an interrupt by the user where none does.
pub fn determine_stop_reason(config: &FakerConfig, stats: &FakerStats) -> (r: StopReason)
    ensures
        r == match stop_reason(*config, stats@) {
            Some(reason) => reason,
            None => StopReason::UserInterrupt,
        },
{
    match first_stop_reason(config, stats) {
        Some(reason) => reason,
        None => StopReason::UserInterrupt,
    }
}

/// When the announce after one made at `now` is due, with `interval`
/// seconds between them.
pub open spec fn due_time(now: u64, interval: u64) -> u64 {
    capped(now + interval * 1000) as u64
}

/// The seconds that a tracker's interval stands for: a negative one
/// counts as zero.
pub open spec fn interval_secs(interval: i64) -> u64 {
    if interval < 0 {
        0
    } else {
        interval as u64
    }
}

fn due_at(now: u64, interval: u64) -> (r: u64)
    ensures
        r == due_time(now, interval),
{
    let wait = scale(interval, 1000, 1, 1);
    proof {
        assert(interval as nat * 1000 * 1 == interval * 1000) by (nonlinear_arith);
        assert((interval * 1000) as int / 1 == interval * 1000);
    }
    add_capped(now, wait)
}

/// The figures of a tick that a caller acts on.
#[derive(Debug, Clone, Copy)]
pub struct TickOutcome {
    /// The last missing byte arrived in this tick: a `completed` announce
    /// is to be sent.
    pub completed: bool,
    /// A stop predicate fired and the session is stopped: a `stopped`
    /// announce is to be sent.
    pub stopped: Option<StopReason>,
    /// A periodic announce is due and is to be sent.
    pub announce: bool,
}

/// The outcome of a tick that asks for nothing.
pub open spec fn quiet() -> TickOutcome {
    TickOutcome { completed: false, stopped: None, announce: false }
}

/// The announces that a tick asks for, in the order in which they are to
/// be sent: `completed`, where the torrent was completed in the tick,
/// and after it `stopped`, where a stop predicate fired, or else the
/// periodic one, where it fell due.
pub open spec fn announces_of(outcome: TickOutcome) -> Seq<TrackerEvent> {
    (if outcome.completed {
        seq![TrackerEvent::Completed]
    } else {
        Seq::empty()
    }) + (if outcome.stopped is Some {
        seq![TrackerEvent::Stopped]
    } else if outcome.announce {
        seq![TrackerEvent::Periodic]
    } else {
        Seq::empty()
    })
}

impl TickOutcome {
    /// The announces to send after the tick, in their order.
    pub fn announces(&self) -> (r: Vec<TrackerEvent>)
        ensures
            r@ == announces_of(*self),
    {
        let mut events: Vec<TrackerEvent> = Vec::new();
        if self.completed {
            events.push(TrackerEvent::Completed);
        }
        if self.stopped.is_some() {
            events.push(TrackerEvent::Stopped);
        } else if self.announce {
            events.push(TrackerEvent::Periodic);
        }
        assert(events@ =~= announces_of(*self));
        events
    }
}

/// One faking session.
#[derive(Debug)]
pub struct RatioFaker {
    pub torrent: TorrentInfo,
    pub config: FakerConfig,
    pub tracker_client: TrackerClient,
    /// The state; `stats.state` always says the same.
    pub state: FakerState,
    pub stats: FakerStats,
    pub peer_id: String,
    pub key: String,
    /// What the tracker asked to be sent back to it.
    pub tracker_id: Option<String>,
    /// When the session was started.
    pub start_time: u64,
    /// When the session was last ticked or resumed.
    pub last_update: u64,
    /// Seconds between periodic announces.
    pub announce_interval: u64,
}

/// The content of a [`RatioFaker`].
pub struct SessionModel {
    pub torrent: TorrentModel,
    /// The torrent's size, as the counters count it.
    pub total_size: u64,
    pub info_hash: Seq<u8>,
    pub config: FakerConfig,
    /// The fingerprint that the session presents.
    pub client: ClientModel,
    pub state: FakerState,
    pub stats: StatsModel,
    pub peer_id: Seq<char>,
    pub key: Seq<char>,
    pub tracker_id: Option<Seq<char>>,
    pub start_time: u64,
    pub last_update: u64,
    pub announce_interval: u64,
}

impl View for RatioFaker {
    type V = SessionModel;

    open spec fn view(&self) -> SessionModel {
        SessionModel {
            torrent: self.torrent@,
            total_size: self.torrent.total_size,
            info_hash: self.torrent.info_hash@,
            config: self.config,
            client: self.tracker_client.client_config@,
            state: self.state,
            stats: self.stats@,
            peer_id: self.peer_id@,
            key: self.key@,
            tracker_id: self.tracker_id.deep_view(),
            start_time: self.start_time,
            last_update: self.last_update,
            announce_interval: self.announce_interval,
        }
    }
}

/// What holds of every session: size and info hash are the torrent's,
/// both copies of the state agree, no more bytes are left than the
/// torrent has, no history holds more than sixty samples, and an announce
/// that was made has its successor scheduled one interval later.
pub open spec fn well_formed(s: SessionModel) -> bool {
    &&& s.total_size == s.torrent.total_size
    &&& s.info_hash == s.torrent.info_hash
    &&& s.state == s.stats.state
    &&& s.stats.left <= s.total_size
    &&& s.stats.upload_rate_history.len() <= HISTORY_LEN
    &&& s.stats.download_rate_history.len() <= HISTORY_LEN
    &&& s.stats.ratio_history.len() <= HISTORY_LEN
    &&& match s.stats.last_announce {
        Some(last) => s.stats.next_announce == Some(due_time(last, s.announce_interval)),
        None => s.stats.next_announce is None,
    }
}

/// Whether a session in `state` is advanced by a tick.
pub open spec fn ticks_in(state: FakerState) -> bool {
    state is Running || state is Completed
}

/// The session after a tick at `now` and what the tick asks for. A
/// session that is neither running nor completed stays as it is. With
/// `announcing` off, no periodic announce is asked for.
pub open spec fn tick_model(
    s: SessionModel,
    now: u64,
    upload_jitter: i64,
    download_jitter: i64,
    announcing: bool,
) -> (SessionModel, TickOutcome) {
    if !ticks_in(s.state) {
        (s, quiet())
    } else {
        let dt = floored_difference(now as nat, s.last_update as nat) as u64;
        let moved = transferred(s.config, s.stats, dt, upload_jitter, download_jitter);
        let completed = s.stats.left > 0 && moved.left == 0;
        let seen = measured(
            s.config,
            s.total_size,
            moved,
            floored_difference(now as nat, s.start_time as nat) as u64,
        );
        let state = if completed {
            FakerState::Completed
        } else {
            s.state
        };
        match stop_reason(s.config, seen) {
            Some(reason) => (
                SessionModel {
                    state: FakerState::Stopped,
                    stats: StatsModel { state: FakerState::Stopped, ..seen },
                    last_update: now,
                    ..s
                },
                TickOutcome { completed, stopped: Some(reason), announce: false },
            ),
            None => {
                let due = announcing && seen.next_announce is Some && now
                    >= seen.next_announce->Some_0;
                (
                    SessionModel {
                        state,
                        stats: if due {
                            StatsModel {
                                state,
                                last_announce: Some(now),
                                next_announce: Some(due_time(now, s.announce_interval)),
                                ..seen
                            }
                        } else {
                            StatsModel { state, ..seen }
                        },
                        last_update: now,
                        ..s
                    },
                    TickOutcome { completed, stopped: None, announce: due },
                )
            },
        }
    }
}

impl RatioFaker {
    /// Moves the counters by one tick of `dt` milliseconds.
    fn transfer(&mut self, dt: u64, upload_jitter: i64, download_jitter: i64)
        ensures
            final(self).stats@ == transferred(
                old(self).config,
                old(self).stats@,
                dt,
                upload_jitter,
                download_jitter,
            ),
            final(self).torrent == old(self).torrent,
            final(self).config == old(self).config,
            final(self).tracker_client == old(self).tracker_client,
            final(self).state == old(self).state,
            final(self).peer_id == old(self).peer_id,
            final(self).key == old(self).key,
            final(self).tracker_id == old(self).tracker_id,
            final(self).start_time == old(self).start_time,
            final(self).last_update == old(self).last_update,
            final(self).announce_interval == old(self).announce_interval,
    {
        let secs = self.stats.elapsed_time / 1000;
        let up_rate = rate_now(
            self.config.randomize_rates,
            base_rate_at(
                self.config.progressive_rates,
                self.config.upload_rate,
                self.config.target_upload_rate,
                secs,
                self.config.progressive_duration,
            ),
            upload_jitter,
            self.config.random_range_percent,
        );
        let down_rate = rate_now(
            self.config.randomize_rates,
            base_rate_at(
                self.config.progressive_rates,
                self.config.download_rate,
                self.config.target_download_rate,
                secs,
                self.config.progressive_duration,
            ),
            download_jitter,
            self.config.random_range_percent,
        );
        let up = bytes_moved(up_rate, dt);
        let down = bytes_moved(down_rate, dt);
        let got = if down < self.stats.left {
            down
        } else {
            self.stats.left
        };
        self.stats.uploaded = add_capped(self.stats.uploaded, up);
        self.stats.session_uploaded = add_capped(self.stats.session_uploaded, up);
        self.stats.downloaded = add_capped(self.stats.downloaded, got);
        self.stats.session_downloaded = add_capped(self.stats.session_downloaded, got);
        self.stats.left = self.stats.left - got;
        self.stats.current_upload_rate = up_rate;
        self.stats.current_download_rate = down_rate;
        push_sample(&mut self.stats.upload_rate_history, up_rate);
        push_sample(&mut self.stats.download_rate_history, down_rate);
    }

    /// Brings the derived figures up to date, `elapsed` milliseconds into
    /// the session.
    fn update_progress_and_eta(&mut self, elapsed: u64)
        ensures
            final(self).stats@ == measured(
                old(self).config,
                old(self).torrent.total_size,
                old(self).stats@,
                elapsed,
            ),
            final(self).torrent == old(self).torrent,
            final(self).config == old(self).config,
            final(self).tracker_client == old(self).tracker_client,
            final(self).state == old(self).state,
            final(self).peer_id == old(self).peer_id,
            final(self).key == old(self).key,
            final(self).tracker_id == old(self).tracker_id,
            final(self).start_time == old(self).start_time,
            final(self).last_update == old(self).last_update,
            final(self).announce_interval == old(self).announce_interval,
    {
        let ratio = ratio_now(self.stats.uploaded, self.torrent.total_size);
        self.stats.ratio = ratio;
        self.stats.session_ratio = session_ratio_now(
            self.stats.session_uploaded,
            self.stats.session_downloaded,
        );
        push_sample(&mut self.stats.ratio_history, ratio);
        self.stats.elapsed_time = elapsed;
        if elapsed > 0 {
            self.stats.average_upload_rate = average_now(self.stats.session_uploaded, elapsed);
            self.stats.average_download_rate = average_now(
                self.stats.session_downloaded,
                elapsed,
            );
        }
        let average_up = self.stats.average_upload_rate;
        let secs = elapsed / 1000;
        match self.config.stop_at_uploaded {
            Some(t) => {
                self.stats.upload_progress = progress_now(self.stats.session_uploaded, t);
                if average_up > 0 {
                    self.stats.eta_uploaded = Some(
                        eta_now(t.saturating_sub(self.stats.session_uploaded), average_up),
                    );
                }
            },
            None => {
                self.stats.upload_progress = 0;
                self.stats.eta_uploaded = None;
            },
        }
        match self.config.stop_at_downloaded {
            Some(t) => {
                self.stats.download_progress = progress_now(self.stats.session_downloaded, t);
            },
            None => {
                self.stats.download_progress = 0;
            },
        }
        match self.config.stop_at_ratio {
            Some(t) => {
                self.stats.ratio_progress = if t <= 0 {
                    FULL_PERCENT
                } else {
                    progress_now(ratio, t as u64)
                };
                if average_up > 0 && self.stats.downloaded > 0 {
                    let goal = ratio_target_now(t, self.stats.downloaded);
                    self.stats.eta_ratio = Some(
                        eta_now(goal.saturating_sub(self.stats.uploaded), average_up),
                    );
                }
            },
            None => {
                self.stats.ratio_progress = 0;
                self.stats.eta_ratio = None;
            },
        }
        match self.config.stop_at_seed_time {
            Some(t) => {
                self.stats.seed_time_progress = progress_now(secs, t);
                self.stats.eta_seed_time = Some(t.saturating_sub(secs));
            },
            None => {
                self.stats.seed_time_progress = 0;
                self.stats.eta_seed_time = None;
            },
        }
    }

    /// The first stop predicate that holds, if any does.
    fn check_stop_conditions(&self) -> (r: Option<StopReason>)
        ensures
            r == stop_reason(self.config, self.stats@),
    {
        first_stop_reason(&self.config, &self.stats)
    }

    /// Advances a running or completed session by one tick.
    fn advance(
        &mut self,
        now: u64,
        upload_jitter: i64,
        download_jitter: i64,
        announcing: bool,
    ) -> (r: TickOutcome)
        requires
            ticks_in(old(self).state),
        ensures
            final(self)@ == tick_model(
                old(self)@,
                now,
                upload_jitter,
                download_jitter,
                announcing,
            ).0,
            r == tick_model(old(self)@, now, upload_jitter, download_jitter, announcing).1,
            final(self).torrent == old(self).torrent,
            final(self).tracker_client == old(self).tracker_client,
    {
        let dt = now.saturating_sub(self.last_update);
        self.last_update = now;
        let had_left = self.stats.left > 0;
        self.transfer(dt, upload_jitter, download_jitter);
        let completed = had_left && self.stats.left == 0;
        if completed {
            self.state = FakerState::Completed;
        }
        self.update_progress_and_eta(now.saturating_sub(self.start_time));
        self.stats.state = self.state;
        match self.check_stop_conditions() {
            Some(reason) => {
                self.state = FakerState::Stopped;
                self.stats.state = FakerState::Stopped;
                TickOutcome { completed, stopped: Some(reason), announce: false }
            },
            None => {
                let due = announcing && match self.stats.next_announce {
                    Some(t) => now >= t,
                    None => false,
                };
                if due {
                    self.stats.last_announce = Some(now);
                    self.stats.next_announce = Some(due_at(now, self.announce_interval));
                }
                TickOutcome { completed, stopped: None, announce: due }
            },
        }
    }
}

/// The bytes of a torrent of `total_size` that count as downloaded at
/// `percent` completion, the percentage taken between 0 and 100.
pub open spec fn completion_share(total_size: u64, percent: i64) -> u64 {
    let kept: nat = if percent < 0 {
        0
    } else if percent > FULL_PERCENT {
        FULL_PERCENT as nat
    } else {
        percent as nat
    };
    scaled(total_size as nat, kept, 1, FULL_PERCENT as nat) as u64
}

/// The bytes that count as downloaded when a session is created: those
/// downloaded before it and the share that is there already.
pub open spec fn initial_downloaded(total_size: u64, config: FakerConfig) -> u64 {
    capped_sum(
        config.initial_downloaded as nat,
        completion_share(total_size, config.completion_percent) as nat,
    ) as u64
}

/// The bytes that count as downloaded when a session continues one for
/// the same torrent: those that its predecessor had downloaded, and at
/// least the share that the configuration says is there.
pub open spec fn continued_downloaded(total_size: u64, config: FakerConfig) -> u64 {
    let share = completion_share(total_size, config.completion_percent);
    if config.initial_downloaded >= share {
        config.initial_downloaded
    } else {
        share
    }
}

/// The figures of a session in `state` that has not run yet, with
/// `downloaded` bytes of the torrent counted as downloaded.
pub open spec fn stats_from(
    total_size: u64,
    config: FakerConfig,
    downloaded: u64,
    state: FakerState,
) -> StatsModel {
    StatsModel {
        uploaded: config.initial_uploaded,
        downloaded,
        left: floored_difference(total_size as nat, downloaded as nat) as u64,
        seeders: 0,
        leechers: 0,
        ratio: ratio_of(config.initial_uploaded, total_size),
        session_ratio: 0,
        elapsed_time: 0,
        state,
        last_announce: None,
        next_announce: None,
        announce_count: 0,
        session_uploaded: 0,
        session_downloaded: 0,
        current_upload_rate: 0,
        current_download_rate: 0,
        average_upload_rate: 0,
        average_download_rate: 0,
        upload_progress: 0,
        download_progress: 0,
        ratio_progress: 0,
        seed_time_progress: 0,
        eta_ratio: None,
        eta_uploaded: None,
        eta_seed_time: None,
        upload_rate_history: Seq::empty(),
        download_rate_history: Seq::empty(),
        ratio_history: Seq::empty(),
    }
}

/// The figures of a session that has not run yet.
pub open spec fn initial_stats(total_size: u64, config: FakerConfig) -> StatsModel {
    stats_from(total_size, config, initial_downloaded(total_size, config), FakerState::Idle)
}

/// A session for `torrent` in `state` that has not run yet, made at
/// `now`, with `downloaded` bytes counted as downloaded.
pub open spec fn session_with(
    torrent: TorrentModel,
    total_size: u64,
    config: FakerConfig,
    client: ClientModel,
    peer_id: Seq<char>,
    key: Seq<char>,
    now: u64,
    downloaded: u64,
    state: FakerState,
) -> SessionModel {
    SessionModel {
        torrent,
        total_size,
        info_hash: torrent.info_hash,
        config,
        client,
        state,
        stats: stats_from(total_size, config, downloaded, state),
        peer_id,
        key,
        tracker_id: None,
        start_time: now,
        last_update: now,
        announce_interval: config.announce_interval,
    }
}

/// A session as it is created at `now`: idle, its counters taken from
/// the configuration, the completion share added to the bytes
/// downloaded.
pub open spec fn created(
    torrent: TorrentModel,
    total_size: u64,
    config: FakerConfig,
    client: ClientModel,
    peer_id: Seq<char>,
    key: Seq<char>,
    now: u64,
) -> SessionModel {
    session_with(
        torrent,
        total_size,
        config,
        client,
        peer_id,
        key,
        now,
        initial_downloaded(total_size, config),
        FakerState::Idle,
    )
}

/// A session as it is created at `now` to continue one for the same
/// torrent: idle, its counters those of the configuration, which hold the
/// completion share already where the predecessor has run.
pub open spec fn continued(
    torrent: TorrentModel,
    total_size: u64,
    config: FakerConfig,
    client: ClientModel,
    peer_id: Seq<char>,
    key: Seq<char>,
    now: u64,
) -> SessionModel {
    session_with(
        torrent,
        total_size,
        config,
        client,
        peer_id,
        key,
        now,
        continued_downloaded(total_size, config),
        FakerState::Idle,
    )
}

/// A session as it is made again at `now` from what was written down of
/// it: its counters are exactly those of the configuration and its state
/// is `state`; one that ran is started.
pub open spec fn reloaded(
    torrent: TorrentModel,
    total_size: u64,
    config: FakerConfig,
    client: ClientModel,
    peer_id: Seq<char>,
    key: Seq<char>,
    now: u64,
    state: FakerState,
) -> SessionModel {
    if state is Running {
        started(
            session_with(
                torrent,
                total_size,
                config,
                client,
                peer_id,
                key,
                now,
                config.initial_downloaded,
                FakerState::Idle,
            ),
            now,
        )
    } else {
        session_with(
            torrent,
            total_size,
            config,
            client,
            peer_id,
            key,
            now,
            config.initial_downloaded,
            state,
        )
    }
}

/// Whether a peer id and a key have the shape of a session's own: the
/// peer id is `prefix`, which has eight characters, and twelve of
/// `0-9A-Za-z`; the key is eight upper-case hexadecimal digits.
pub open spec fn identity_shaped(peer_id: Seq<char>, key: Seq<char>, prefix: Seq<char>) -> bool {
    &&& peer_id.len() == 20
    &&& peer_id.subrange(0, 8) == prefix
    &&& forall|i: int| 8 <= i < 20 ==> is_alnum(#[trigger] peer_id[i])
    &&& key.len() == 8
    &&& forall|i: int| 0 <= i < 8 ==> is_upper_hex(#[trigger] key[i])
}

/// Whether a session in `state` can be started.
pub open spec fn starts_in(state: FakerState) -> bool {
    state is Idle || state is Stopped
}

/// The session after `start` at `now`: running, with the `started`
/// announce as its last and the next one an interval later. A session
/// that is under way stays as it is.
pub open spec fn started(s: SessionModel, now: u64) -> SessionModel {
    if starts_in(s.state) {
        SessionModel {
            state: FakerState::Running,
            stats: StatsModel {
                state: FakerState::Running,
                last_announce: Some(now),
                next_announce: Some(due_time(now, s.announce_interval)),
                ..s.stats
            },
            start_time: now,
            last_update: now,
            ..s
        }
    } else {
        s
    }
}

/// The session after `pause`: a running or completed one is paused.
pub open spec fn paused(s: SessionModel) -> SessionModel {
    if ticks_in(s.state) {
        SessionModel {
            state: FakerState::Paused,
            stats: StatsModel { state: FakerState::Paused, ..s.stats },
            ..s
        }
    } else {
        s
    }
}

/// The session after `resume` at `now`: a paused one runs again, and the
/// time it was paused for moves no bytes.
pub open spec fn resumed(s: SessionModel, now: u64) -> SessionModel {
    if s.state is Paused {
        SessionModel {
            state: FakerState::Running,
            stats: StatsModel { state: FakerState::Running, ..s.stats },
            last_update: now,
            ..s
        }
    } else {
        s
    }
}

/// The session after `stop`.
pub open spec fn stopped(s: SessionModel) -> SessionModel {
    SessionModel {
        state: FakerState::Stopped,
        stats: StatsModel { state: FakerState::Stopped, ..s.stats },
        ..s
    }
}

/// `count + 1`, capped.
pub open spec fn counted(count: u64) -> u64 {
    capped_sum(count as nat, 1) as u64
}

/// The session after the tracker answered, at `now`, the announce of
/// `event`. Every answer but that to `stopped` brings the counts of
/// seeders and leechers and, where it has one, the tracker id. The answer
/// to `started` or to a periodic announce also sets the interval and
/// schedules the next announce one interval after `now`.
pub open spec fn answered(
    s: SessionModel,
    event: TrackerEvent,
    response: AnnounceResponseModel,
    now: u64,
) -> SessionModel {
    let tracker_id = match response.tracker_id {
        Some(id) => Some(id),
        None => s.tracker_id,
    };
    match event {
        TrackerEvent::Stopped => s,
        TrackerEvent::Completed => SessionModel {
            tracker_id,
            stats: StatsModel {
                seeders: response.complete as i64,
                leechers: response.incomplete as i64,
                announce_count: counted(s.stats.announce_count),
                ..s.stats
            },
            ..s
        },
        _ => SessionModel {
            tracker_id,
            announce_interval: interval_secs(response.interval as i64),
            stats: StatsModel {
                seeders: response.complete as i64,
                leechers: response.incomplete as i64,
                announce_count: counted(s.stats.announce_count),
                last_announce: Some(now),
                next_announce: Some(due_time(now, interval_secs(response.interval as i64))),
                ..s.stats
            },
            ..s
        },
    }
}

/// Whether `r` is the announce of `event` that the session `s` makes.
pub open spec fn is_request_of(r: AnnounceRequest, s: SessionModel, event: TrackerEvent) -> bool {
    &&& r.info_hash@ == s.info_hash
    &&& r.peer_id@ == s.peer_id
    &&& r.port == s.config.port
    &&& r.uploaded == s.stats.uploaded
    &&& r.downloaded == s.stats.downloaded
    &&& r.left == s.stats.left
    &&& r.compact == s.client.supports_compact
    &&& !r.no_peer_id
    &&& r.event == event
    &&& r.ip is None
    &&& r.numwant == Some(s.config.num_want)
    &&& r.key.deep_view() == Some(s.key)
    &&& r.tracker_id.deep_view() == s.tracker_id
}

fn completion_bytes(total_size: u64, percent: i64) -> (r: u64)
    ensures
        r == completion_share(total_size, percent),
{
    let kept: u64 = if percent < 0 {
        0
    } else if percent as u64 > FULL_PERCENT {
        FULL_PERCENT
    } else {
        percent as u64
    };
    scale(total_size, kept, 1, FULL_PERCENT)
}

fn invalid_state(text: &str) -> (r: FakerError)
    ensures
        r@ == FakerFault::InvalidState(text@),
{
    FakerError::InvalidState(String::from_str(text))
}

fn copy_text(text: &Option<String>) -> (r: Option<String>)
    ensures
        r.deep_view() == text.deep_view(),
{
    match text {
        Some(t) => Some(t.clone()),
        None => None,
    }
}

/// The fingerprint, the peer id and the key of a new session.
struct Identity {
    client_config: ClientConfig,
    peer_id: String,
    key: String,
}

fn fresh_identity(config: &FakerConfig) -> (r: Identity)
    ensures
        r.client_config@ == fingerprint(config.client_type, config.client_version.deep_view()),
        identity_shaped(r.peer_id@, r.key@, r.client_config.peer_id_prefix@),
{
    let client_config = ClientConfig::get(config.client_type, copy_text(&config.client_version));
    let peer_id = client_config.generate_peer_id();
    let key = ClientConfig::generate_key();
    Identity { client_config, peer_id, key }
}

impl RatioFaker {
    /// A session for `torrent` with a fresh peer id and key, created at
    /// `now`. It presents the fingerprint of the client that the
    /// configuration names.
    pub fn new(torrent: TorrentInfo, config: FakerConfig, now: u64) -> (r: Result<
        RatioFaker,
        FakerError,
    >)
        ensures
            r is Ok,
            r->Ok_0@ == created(
                torrent@,
                torrent.total_size,
                config,
                fingerprint(config.client_type, config.client_version.deep_view()),
                r->Ok_0.peer_id@,
                r->Ok_0.key@,
                now,
            ),
            r->Ok_0.torrent == torrent,
            well_formed(r->Ok_0@),
            identity_shaped(
                r->Ok_0.peer_id@,
                r->Ok_0.key@,
                r->Ok_0.tracker_client.client_config.peer_id_prefix@,
            ),
    {
        let identity = fresh_identity(&config);
        Ok(
            RatioFaker::with_identity(
                torrent,
                config,
                identity.client_config,
                identity.peer_id,
                identity.key,
                now,
            ),
        )
    }

    /// A session for `torrent` with a fresh peer id and key, created at
    /// `now` to continue one for the same torrent: the counters of the
    /// configuration are those of the predecessor, and the completion
    /// share counts only as far as they do not hold it yet.
    pub fn continued(torrent: TorrentInfo, config: FakerConfig, now: u64) -> (r: RatioFaker)
        ensures
            r@ == continued(
                torrent@,
                torrent.total_size,
                config,
                fingerprint(config.client_type, config.client_version.deep_view()),
                r.peer_id@,
                r.key@,
                now,
            ),
            r.torrent == torrent,
            well_formed(r@),
            identity_shaped(r.peer_id@, r.key@, r.tracker_client.client_config.peer_id_prefix@),
    {
        let identity = fresh_identity(&config);
        let share = completion_bytes(torrent.total_size, config.completion_percent);
        let downloaded = if config.initial_downloaded >= share {
            config.initial_downloaded
        } else {
            share
        };
        RatioFaker::build(
            torrent,
            config,
            identity.client_config,
            identity.peer_id,
            identity.key,
            now,
            downloaded,
            FakerState::Idle,
        )
    }

    /// A session for `torrent` with a fresh peer id and key, made again
    /// at `now` from what was written down of it: its counters are
    /// exactly those of the configuration, and its state is `state`. One
    /// that ran is started, and the `started` announce to send is given.
    pub fn reloaded(torrent: TorrentInfo, config: FakerConfig, state: FakerState, now: u64) -> (r: (
        RatioFaker,
        Option<AnnounceRequest>,
    ))
        ensures
            r.0@ == reloaded(
                torrent@,
                torrent.total_size,
                config,
                fingerprint(config.client_type, config.client_version.deep_view()),
                r.0.peer_id@,
                r.0.key@,
                now,
                state,
            ),
            r.0.torrent == torrent,
            well_formed(r.0@),
            identity_shaped(
                r.0.peer_id@,
                r.0.key@,
                r.0.tracker_client.client_config.peer_id_prefix@,
            ),
            r.1 is Some <==> state is Running,
            r.1 is Some ==> is_request_of(r.1->Some_0, r.0@, TrackerEvent::Started),
    {
        let identity = fresh_identity(&config);
        let downloaded = config.initial_downloaded;
        match state {
            FakerState::Running => {
                let mut faker = RatioFaker::build(
                    torrent,
                    config,
                    identity.client_config,
                    identity.peer_id,
                    identity.key,
                    now,
                    downloaded,
                    FakerState::Idle,
                );
                let request = match faker.start(now) {
                    Ok(request) => Some(request),
                    Err(_) => None,
                };
                (faker, request)
            },
            _ => (
                RatioFaker::build(
                    torrent,
                    config,
                    identity.client_config,
                    identity.peer_id,
                    identity.key,
                    now,
                    downloaded,
                    state,
                ),
                None,
            ),
        }
    }

    /// A session for `torrent` that presents itself as `client_config`
    /// with the given peer id and key, created at `now`.
    pub fn with_identity(
        torrent: TorrentInfo,
        config: FakerConfig,
        client_config: ClientConfig,
        peer_id: String,
        key: String,
        now: u64,
    ) -> (r: RatioFaker)
        ensures
            r@ == created(
                torrent@,
                torrent.total_size,
                config,
                client_config@,
                peer_id@,
                key@,
                now,
            ),
            r.torrent == torrent,
            r.tracker_client.client_config == client_config,
            r.peer_id == peer_id,
            r.key == key,
            well_formed(r@),
    {
        let share = completion_bytes(torrent.total_size, config.completion_percent);
        let downloaded = add_capped(config.initial_downloaded, share);
        RatioFaker::build(
            torrent,
            config,
            client_config,
            peer_id,
            key,
            now,
            downloaded,
            FakerState::Idle,
        )
    }

    /// A session in `state` that has not run yet, with `downloaded` bytes
    /// counted as downloaded.
    fn build(
        torrent: TorrentInfo,
        config: FakerConfig,
        client_config: ClientConfig,
        peer_id: String,
        key: String,
        now: u64,
        downloaded: u64,
        state: FakerState,
    ) -> (r: RatioFaker)
        ensures
            r@ == session_with(
                torrent@,
                torrent.total_size,
                config,
                client_config@,
                peer_id@,
                key@,
                now,
                downloaded,
                state,
            ),
            r.torrent == torrent,
            r.tracker_client.client_config == client_config,
            r.peer_id == peer_id,
            r.key == key,
            well_formed(r@),
    {
        let left = torrent.total_size.saturating_sub(downloaded);
        let stats = FakerStats {
            uploaded: config.initial_uploaded,
            downloaded,
            left,
            seeders: 0,
            leechers: 0,
            ratio: ratio_now(config.initial_uploaded, torrent.total_size),
            session_ratio: 0,
            elapsed_time: 0,
            state,
            last_announce: None,
            next_announce: None,
            announce_count: 0,
            session_uploaded: 0,
            session_downloaded: 0,
            current_upload_rate: 0,
            current_download_rate: 0,
            average_upload_rate: 0,
            average_download_rate: 0,
            upload_progress: 0,
            download_progress: 0,
            ratio_progress: 0,
            seed_time_progress: 0,
            eta_ratio: None,
            eta_uploaded: None,
            eta_seed_time: None,
            upload_rate_history: Vec::new(),
            download_rate_history: Vec::new(),
            ratio_history: Vec::new(),
        };
        let announce_interval = config.announce_interval;
        RatioFaker {
            torrent,
            config,
            tracker_client: TrackerClient::new(client_config),
            state,
            stats,
            peer_id,
            key,
            tracker_id: None,
            start_time: now,
            last_update: now,
            announce_interval,
        }
    }

    /// The announce of `event` with the session's present counters.
    pub fn announce_request(&self, event: TrackerEvent) -> (r: AnnounceRequest)
        ensures
            is_request_of(r, self@, event),
    {
        AnnounceRequest {
            info_hash: self.torrent.info_hash,
            peer_id: self.peer_id.clone(),
            port: self.config.port,
            uploaded: self.stats.uploaded,
            downloaded: self.stats.downloaded,
            left: self.stats.left,
            compact: self.tracker_client.client_config.supports_compact,
            no_peer_id: false,
            event,
            ip: None,
            numwant: Some(self.config.num_want),
            key: Some(self.key.clone()),
            tracker_id: copy_text(&self.tracker_id),
        }
    }

    /// Starts an idle or stopped session at `now` and gives the `started`
    /// announce to send. A session that is under way is left alone, which
    /// is an `InvalidState` error.
    pub fn start(&mut self, now: u64) -> (r: Result<AnnounceRequest, FakerError>)
        ensures
            final(self)@ == started(old(self)@, now),
            well_formed(old(self)@) ==> well_formed(final(self)@),
            final(self).torrent == old(self).torrent,
            final(self).tracker_client == old(self).tracker_client,
            r is Ok <==> starts_in(old(self).state),
            r is Ok ==> is_request_of(r->Ok_0, final(self)@, TrackerEvent::Started),
            r is Err ==> r->Err_0@ == FakerFault::InvalidState("Session is already under way"@),
    {
        proof {
            if well_formed(old(self)@) {
                lemma_step_keeps_well_formed(old(self)@, Command::Start { now });
            }
        }
        match self.state {
            FakerState::Idle | FakerState::Stopped => {
                self.state = FakerState::Running;
                self.stats.state = FakerState::Running;
                self.start_time = now;
                self.last_update = now;
                self.stats.last_announce = Some(now);
                self.stats.next_announce = Some(due_at(now, self.announce_interval));
                Ok(self.announce_request(TrackerEvent::Started))
            },
            _ => Err(invalid_state("Session is already under way")),
        }
    }

    /// Stops the session and gives the `stopped` announce to send; a
    /// session that is stopped already stays so, and gives none.
    pub fn stop(&mut self) -> (r: Option<AnnounceRequest>)
        ensures
            final(self)@ == stopped(old(self)@),
            well_formed(old(self)@) ==> well_formed(final(self)@),
            final(self).torrent == old(self).torrent,
            final(self).tracker_client == old(self).tracker_client,
            r is Some <==> !(old(self).state is Stopped),
            r is Some ==> is_request_of(r->Some_0, final(self)@, TrackerEvent::Stopped),
    {
        proof {
            if well_formed(old(self)@) {
                lemma_step_keeps_well_formed(old(self)@, Command::Stop);
            }
        }
        let was_stopped = match self.state {
            FakerState::Stopped => true,
            _ => false,
        };
        self.state = FakerState::Stopped;
        self.stats.state = FakerState::Stopped;
        if was_stopped {
            None
        } else {
            Some(self.announce_request(TrackerEvent::Stopped))
        }
    }

    /// Pauses a running or completed session. A paused one stays paused;
    /// one that is idle or stopped is left alone, which is an
    /// `InvalidState` error.
    pub fn pause(&mut self) -> (r: Result<(), FakerError>)
        ensures
            final(self)@ == paused(old(self)@),
            well_formed(old(self)@) ==> well_formed(final(self)@),
            final(self).torrent == old(self).torrent,
            final(self).tracker_client == old(self).tracker_client,
            r is Err <==> starts_in(old(self).state),
            r is Err ==> r->Err_0@ == FakerFault::InvalidState("Session is not under way"@),
    {
        proof {
            if well_formed(old(self)@) {
                lemma_step_keeps_well_formed(old(self)@, Command::Pause);
            }
        }
        match self.state {
            FakerState::Running | FakerState::Completed => {
                self.state = FakerState::Paused;
                self.stats.state = FakerState::Paused;
                Ok(())
            },
            FakerState::Paused => Ok(()),
            _ => Err(invalid_state("Session is not under way")),
        }
    }

    /// Lets a paused session run again from `now`. One that runs already
    /// is left as it is; one that is idle or stopped is left alone, which
    /// is an `InvalidState` error.
    pub fn resume(&mut self, now: u64) -> (r: Result<(), FakerError>)
        ensures
            final(self)@ == resumed(old(self)@, now),
            well_formed(old(self)@) ==> well_formed(final(self)@),
            final(self).torrent == old(self).torrent,
            final(self).tracker_client == old(self).tracker_client,
            r is Err <==> starts_in(old(self).state),
            r is Err ==> r->Err_0@ == FakerFault::InvalidState("Session is not under way"@),
    {
        proof {
            if well_formed(old(self)@) {
                lemma_step_keeps_well_formed(old(self)@, Command::Resume { now });
            }
        }
        match self.state {
            FakerState::Paused => {
                self.state = FakerState::Running;
                self.stats.state = FakerState::Running;
                self.last_update = now;
                Ok(())
            },
            FakerState::Running | FakerState::Completed => Ok(()),
            _ => Err(invalid_state("Session is not under way")),
        }
    }

    /// Takes in the tracker's answer, received at `now`, to the announce
    /// of `event`.
    pub fn announce_succeeded(&mut self, event: TrackerEvent, response: &AnnounceResponse, now: u64)
        ensures
            final(self)@ == answered(old(self)@, event, response@, now),
            well_formed(old(self)@) ==> well_formed(final(self)@),
            final(self).torrent == old(self).torrent,
            final(self).tracker_client == old(self).tracker_client,
    {
        proof {
            if well_formed(old(self)@) {
                lemma_step_keeps_well_formed(old(self)@, Command::Answer { event, response: response@, now });
            }
        }
        match event {
            TrackerEvent::Stopped => {},
            TrackerEvent::Completed => {
                if response.tracker_id.is_some() {
                    self.tracker_id = copy_text(&response.tracker_id);
                }
                self.stats.seeders = response.complete;
                self.stats.leechers = response.incomplete;
                self.stats.announce_count = add_capped(self.stats.announce_count, 1);
            },
            _ => {
                if response.tracker_id.is_some() {
                    self.tracker_id = copy_text(&response.tracker_id);
                }
                let interval: u64 = if response.interval < 0 {
                    0
                } else {
                    response.interval as u64
                };
                self.announce_interval = interval;
                self.stats.seeders = response.complete;
                self.stats.leechers = response.incomplete;
                self.stats.announce_count = add_capped(self.stats.announce_count, 1);
                self.stats.last_announce = Some(now);
                self.stats.next_announce = Some(due_at(now, interval));
            },
        }
    }

    /// Advances the session by one tick at `now`, with the draws
    /// `upload_jitter` and `download_jitter` in millionths. A paused
    /// session stays as it is; a tick of an idle or stopped session is an
    /// `InvalidState` error.
    pub fn update(&mut self, now: u64, upload_jitter: i64, download_jitter: i64) -> (r: Result<
        TickOutcome,
        FakerError,
    >)
        ensures
            final(self)@ == tick_model(old(self)@, now, upload_jitter, download_jitter, true).0,
            well_formed(old(self)@) ==> well_formed(final(self)@),
            final(self).torrent == old(self).torrent,
            final(self).tracker_client == old(self).tracker_client,
            r is Err <==> starts_in(old(self).state),
            r is Ok ==> r->Ok_0 == tick_model(
                old(self)@,
                now,
                upload_jitter,
                download_jitter,
                true,
            ).1,
            r is Err ==> r->Err_0@ == FakerFault::InvalidState("Session is not under way"@),
    {
        proof {
            if well_formed(old(self)@) {
                lemma_step_keeps_well_formed(old(self)@, Command::Tick { now, upload_jitter, download_jitter, announcing: true });
            }
        }
        match self.state {
            FakerState::Running | FakerState::Completed => Ok(
                self.advance(now, upload_jitter, download_jitter, true),
            ),
            FakerState::Paused => Ok(
                TickOutcome { completed: false, stopped: None, announce: false },
            ),
            _ => Err(invalid_state("Session is not under way")),
        }
    }

    /// Advances the session as [`RatioFaker::update`] does, but asks for
    /// no periodic announce and leaves the schedule alone.
    pub fn update_stats_only(&mut self, now: u64, upload_jitter: i64, download_jitter: i64) -> (r:
        Result<TickOutcome, FakerError>)
        ensures
            final(self)@ == tick_model(old(self)@, now, upload_jitter, download_jitter, false).0,
            well_formed(old(self)@) ==> well_formed(final(self)@),
            final(self).torrent == old(self).torrent,
            final(self).tracker_client == old(self).tracker_client,
            r is Err <==> starts_in(old(self).state),
            r is Ok ==> r->Ok_0 == tick_model(
                old(self)@,
                now,
                upload_jitter,
                download_jitter,
                false,
            ).1,
            r is Err ==> r->Err_0@ == FakerFault::InvalidState("Session is not under way"@),
    {
        proof {
            if well_formed(old(self)@) {
                lemma_step_keeps_well_formed(old(self)@, Command::Tick { now, upload_jitter, download_jitter, announcing: false });
            }
        }
        match self.state {
            FakerState::Running | FakerState::Completed => Ok(
                self.advance(now, upload_jitter, download_jitter, false),
            ),
            FakerState::Paused => Ok(
                TickOutcome { completed: false, stopped: None, announce: false },
            ),
            _ => Err(invalid_state("Session is not under way")),
        }
    }

    /// A draw for one rate: some number of millionths within the range
    /// that the configuration allows to either side.
    pub fn draw_jitter(&self) -> (r: i64)
        ensures
            -jitter_bound(self.config.random_range_percent as int) <= r <= jitter_bound(
                self.config.random_range_percent as int,
            ),
    {
        let pick = random_below(jitter_span_of(self.config.random_range_percent));
        jitter_from_pick(pick, self.config.random_range_percent)
    }

    /// Advances the session by one tick at `now`, with draws of its own.
    pub fn tick(&mut self, now: u64) -> (r: Result<TickOutcome, FakerError>)
        ensures
            exists|up: i64, down: i64|
                {
                    &&& final(self)@ == (#[trigger] tick_model(old(self)@, now, up, down, true)).0
                    &&& r is Ok ==> r->Ok_0 == tick_model(old(self)@, now, up, down, true).1
                },
            well_formed(old(self)@) ==> well_formed(final(self)@),
            final(self).torrent == old(self).torrent,
            final(self).tracker_client == old(self).tracker_client,
            r is Err <==> starts_in(old(self).state),
            r is Err ==> r->Err_0@ == FakerFault::InvalidState("Session is not under way"@),
    {
        let up = self.draw_jitter();
        let down = self.draw_jitter();
        self.update(now, up, down)
    }

    /// The session's figures.
    pub fn get_stats(&self) -> (r: FakerStats)
        ensures
            r@ == self.stats@,
    {
        self.stats.clone()
    }

    /// The torrent that the session is about.
    pub fn get_torrent(&self) -> (r: &TorrentInfo)
        ensures
            *r == self.torrent,
    {
        &self.torrent
    }

    /// The URL to scrape the session's tracker at.
    pub fn scrape(&self) -> (r: Result<String, TrackerError>)
        ensures
            match url_normal_form(scrape_base(self.torrent.announce@)) {
                Ok(endpoint) => r is Ok && r->Ok_0@ == scrape_url(endpoint, self.torrent.info_hash@),
                Err(m) => r is Err && r->Err_0@ == TrackerFault::Url(m),
            },
    {
        self.tracker_client.build_scrape_url(self.torrent.get_tracker_url(), &self.torrent.info_hash)
    }
}

} // verus!
