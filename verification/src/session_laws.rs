//! What holds of a session over its whole life, proved of the model that
//! the engine's commands follow.

use crate::faker::{
    answered, base_rate, bounded_jitter, bytes_for, counted, current_rate, initial_stats,
    interval_secs, paused, pushed, resumed, started, starts_in, stats_from, stopped, tick_model,
    ticks_in, varied_rate, well_formed, FakerConfig, FakerState, SessionModel, StopReason,
};
use crate::protocol::tracker::{AnnounceResponse, AnnounceResponseModel, TrackerEvent};
use crate::units::{capped_sum, floored_difference, magnitude};
use vstd::arithmetic::div_mod::lemma_div_is_ordered;
use vstd::prelude::*;

verus! {

/// What can be done to a session.
pub enum Command {
    Start { now: u64 },
    Tick { now: u64, upload_jitter: i64, download_jitter: i64, announcing: bool },
    Pause,
    Resume { now: u64 },
    Stop,
    /// The tracker's answer to an announce came in.
    Answer { event: TrackerEvent, response: AnnounceResponseModel, now: u64 },
}

/// The session after one command.
pub open spec fn step(s: SessionModel, c: Command) -> SessionModel {
    match c {
        Command::Start { now } => started(s, now),
        Command::Tick { now, upload_jitter, download_jitter, announcing } => tick_model(
            s,
            now,
            upload_jitter,
            download_jitter,
            announcing,
        ).0,
        Command::Pause => paused(s),
        Command::Resume { now } => resumed(s, now),
        Command::Stop => stopped(s),
        Command::Answer { event, response, now } => answered(s, event, response, now),
    }
}

/// Whether a command changes the session it is given to: a start of a
/// session that can start, a tick or a pause of one that is under way, the
/// resuming of a paused one, the stop of one that has not stopped, and an
/// answer to any announce but `stopped`.
pub open spec fn touches(s: SessionModel, c: Command) -> bool {
    match c {
        Command::Start { .. } => starts_in(s.state),
        Command::Tick { .. } => ticks_in(s.state),
        Command::Pause => ticks_in(s.state),
        Command::Resume { .. } => s.state is Paused,
        Command::Stop => !(s.state is Stopped),
        Command::Answer { event, .. } => !(event is Stopped),
    }
}

/// A command that does not touch a well-formed session leaves it as it
/// is.
pub proof fn lemma_untouched_stays(s: SessionModel, c: Command)
    requires
        well_formed(s),
        !touches(s, c),
    ensures
        step(s, c) == s,
{
}

/// The announce that a command has sent, if it has one sent. A tick may
/// ask for more than one; they are told by [`completes`] and by the
/// tick's outcome.
pub open spec fn sends_stopped(s: SessionModel, c: Command) -> bool {
    match c {
        Command::Stop => !(s.state is Stopped),
        Command::Tick { now, upload_jitter, download_jitter, announcing } => tick_model(
            s,
            now,
            upload_jitter,
            download_jitter,
            announcing,
        ).1.stopped is Some,
        _ => false,
    }
}

/// Whether a command has a `completed` announce sent.
pub open spec fn completes(s: SessionModel, c: Command) -> bool {
    match c {
        Command::Tick { now, upload_jitter, download_jitter, announcing } => tick_model(
            s,
            now,
            upload_jitter,
            download_jitter,
            announcing,
        ).1.completed,
        _ => false,
    }
}

/// The session after a sequence of commands.
pub open spec fn run(s: SessionModel, commands: Seq<Command>) -> SessionModel
    decreases commands.len(),
{
    if commands.len() == 0 {
        s
    } else {
        step(run(s, commands.drop_last()), commands.last())
    }
}

/// The number of `completed` announces that a sequence of commands has
/// sent.
pub open spec fn completions(s: SessionModel, commands: Seq<Command>) -> nat
    decreases commands.len(),
{
    if commands.len() == 0 {
        0
    } else {
        completions(s, commands.drop_last()) + if completes(
            run(s, commands.drop_last()),
            commands.last(),
        ) {
            1nat
        } else {
            0nat
        }
    }
}

/// A history never grows beyond sixty samples.
pub proof fn lemma_pushed_length<T>(history: Seq<T>, sample: T)
    requires
        history.len() <= 60,
    ensures
        pushed(history, sample).len() <= 60,
{
}

/// A tick never lowers the bytes uploaded, in the session or in all, and
/// never raises the bytes that are left.
pub proof fn lemma_tick_is_monotone(
    s: SessionModel,
    now: u64,
    upload_jitter: i64,
    download_jitter: i64,
    announcing: bool,
)
    ensures
        tick_model(s, now, upload_jitter, download_jitter, announcing).0.stats.session_uploaded
            >= s.stats.session_uploaded,
        tick_model(s, now, upload_jitter, download_jitter, announcing).0.stats.uploaded
            >= s.stats.uploaded,
        tick_model(s, now, upload_jitter, download_jitter, announcing).0.stats.session_downloaded
            >= s.stats.session_downloaded,
        tick_model(s, now, upload_jitter, download_jitter, announcing).0.stats.left
            <= s.stats.left,
        tick_model(s, now, upload_jitter, download_jitter, announcing).0.total_size
            == s.total_size,
{
}

/// Every command keeps a session well formed; so the bytes left never
/// exceed the torrent's size.
pub proof fn lemma_step_keeps_well_formed(s: SessionModel, c: Command)
    requires
        well_formed(s),
    ensures
        well_formed(step(s, c)),
        step(s, c).stats.left <= step(s, c).total_size,
        step(s, c).total_size == s.total_size,
{
    match c {
        Command::Tick { now, upload_jitter, download_jitter, announcing } => {
            lemma_tick_is_monotone(s, now, upload_jitter, download_jitter, announcing);
        },
        _ => {},
    }
}

/// No command lowers the session's uploaded bytes or raises the bytes
/// left.
pub proof fn lemma_step_is_monotone(s: SessionModel, c: Command)
    ensures
        step(s, c).stats.session_uploaded >= s.stats.session_uploaded,
        step(s, c).stats.left <= s.stats.left,
{
    match c {
        Command::Tick { now, upload_jitter, download_jitter, announcing } => {
            lemma_tick_is_monotone(s, now, upload_jitter, download_jitter, announcing);
        },
        _ => {},
    }
}

/// Over any sequence of commands a session stays well formed, the
/// session's uploaded bytes never go down and the bytes left never go
/// up.
pub proof fn lemma_run_is_monotone(s: SessionModel, commands: Seq<Command>)
    requires
        well_formed(s),
    ensures
        well_formed(run(s, commands)),
        run(s, commands).total_size == s.total_size,
        run(s, commands).stats.left <= run(s, commands).total_size,
        run(s, commands).stats.session_uploaded >= s.stats.session_uploaded,
        run(s, commands).stats.left <= s.stats.left,
    decreases commands.len(),
{
    if commands.len() > 0 {
        lemma_run_is_monotone(s, commands.drop_last());
        lemma_step_keeps_well_formed(run(s, commands.drop_last()), commands.last());
        lemma_step_is_monotone(run(s, commands.drop_last()), commands.last());
    }
}

/// A `completed` announce is sent only by the tick in which the last
/// missing byte arrives, and that tick leaves the session completed, or
/// stopped where a stop predicate fired in the same tick.
pub proof fn lemma_completed_on_transition(s: SessionModel, c: Command)
    requires
        completes(s, c),
    ensures
        s.stats.left > 0,
        step(s, c).stats.left == 0,
        ticks_in(s.state),
        step(s, c).state is Completed || (step(s, c).state is Stopped && sends_stopped(s, c)),
{
}

/// Once nothing is left, no `completed` announce is sent any more.
pub proof fn lemma_no_completion_when_nothing_left(s: SessionModel, commands: Seq<Command>)
    requires
        s.stats.left == 0,
    ensures
        completions(s, commands) == 0,
        run(s, commands).stats.left == 0,
    decreases commands.len(),
{
    if commands.len() > 0 {
        lemma_no_completion_when_nothing_left(s, commands.drop_last());
        lemma_step_is_monotone(run(s, commands.drop_last()), commands.last());
    }
}

/// Over any sequence of commands, a `completed` announce is sent at most
/// once.
pub proof fn lemma_completed_at_most_once(s: SessionModel, commands: Seq<Command>)
    ensures
        completions(s, commands) <= 1,
        completions(s, commands) == 1 ==> run(s, commands).stats.left == 0,
    decreases commands.len(),
{
    if commands.len() > 0 {
        let front = commands.drop_last();
        lemma_completed_at_most_once(s, front);
        lemma_step_is_monotone(run(s, front), commands.last());
        if completes(run(s, front), commands.last()) {
            lemma_completed_on_transition(run(s, front), commands.last());
        }
    }
}

/// After the answer to `started` or to a periodic announce, the next
/// announce is due one interval of that answer after the last, as far as
/// that moment can be written in 64 bits.
pub proof fn lemma_answer_schedules_next(
    s: SessionModel,
    event: TrackerEvent,
    response: AnnounceResponseModel,
    now: u64,
)
    requires
        event is Started || event is Periodic,
        now + interval_secs(response.interval as i64) * 1000 <= u64::MAX,
    ensures
        answered(s, event, response, now).stats.last_announce == Some(now),
        answered(s, event, response, now).stats.next_announce is Some,
        answered(s, event, response, now).stats.next_announce->Some_0 - now == interval_secs(
            response.interval as i64,
        ) * 1000,
        answered(s, event, response, now).announce_interval == interval_secs(
            response.interval as i64,
        ),
{
}

/// In a well-formed session that has announced, the next announce is due
/// one interval after the last, as far as that moment can be written in
/// 64 bits.
pub proof fn lemma_schedule(s: SessionModel)
    requires
        well_formed(s),
        s.stats.last_announce is Some,
        s.stats.last_announce->Some_0 + s.announce_interval * 1000 <= u64::MAX,
    ensures
        s.stats.next_announce is Some,
        s.stats.next_announce->Some_0 - s.stats.last_announce->Some_0 == s.announce_interval
            * 1000,
{
}

/// Stopping twice is stopping once: the second `stop` changes nothing and
/// has no announce sent.
pub proof fn lemma_stop_is_idempotent(s: SessionModel)
    ensures
        step(step(s, Command::Stop), Command::Stop) == step(s, Command::Stop),
        step(s, Command::Stop).state is Stopped,
        !sends_stopped(step(s, Command::Stop), Command::Stop),
{
}

/// A stopped session stays stopped, and has no `stopped` announce sent,
/// under every command but `start`.
pub proof fn lemma_stopped_stays_silent(s: SessionModel, c: Command)
    requires
        s.state is Stopped,
        !(c is Start),
    ensures
        step(s, c).state is Stopped,
        !sends_stopped(s, c),
{
}

/// With an upload rate of zero that does not progress, a tick uploads
/// nothing, whatever the draw.
pub proof fn lemma_zero_rate_uploads_nothing(
    s: SessionModel,
    now: u64,
    upload_jitter: i64,
    download_jitter: i64,
    announcing: bool,
)
    requires
        s.config.upload_rate == 0,
        !s.config.progressive_rates,
    ensures
        tick_model(s, now, upload_jitter, download_jitter, announcing).0.stats.uploaded
            == s.stats.uploaded,
        tick_model(s, now, upload_jitter, download_jitter, announcing).0.stats.session_uploaded
            == s.stats.session_uploaded,
{
    assert(varied_rate(0, 1_000_000 + bounded_jitter(
        upload_jitter as int,
        s.config.random_range_percent as int,
    )) == 0) by {
        let f = 1_000_000 + bounded_jitter(
            upload_jitter as int,
            s.config.random_range_percent as int,
        );
        assert(magnitude(0) * magnitude(f) == 0) by (nonlinear_arith);
    }
}

/// With a jitter range of zero, the rates of a tick are the base rates,
/// whatever the draws.
pub proof fn lemma_no_range_gives_base_rate(
    s: SessionModel,
    now: u64,
    upload_jitter: i64,
    download_jitter: i64,
    announcing: bool,
)
    requires
        ticks_in(s.state),
        s.config.random_range_percent == 0,
    ensures
        tick_model(
            s,
            now,
            upload_jitter,
            download_jitter,
            announcing,
        ).0.stats.current_upload_rate == base_rate(
            s.config.progressive_rates,
            s.config.upload_rate,
            s.config.target_upload_rate,
            (s.stats.elapsed_time / 1000) as nat,
            s.config.progressive_duration as nat,
        ),
        tick_model(
            s,
            now,
            upload_jitter,
            download_jitter,
            announcing,
        ).0.stats.current_download_rate == base_rate(
            s.config.progressive_rates,
            s.config.download_rate,
            s.config.target_download_rate,
            (s.stats.elapsed_time / 1000) as nat,
            s.config.progressive_duration as nat,
        ),
{
    let secs = (s.stats.elapsed_time / 1000) as nat;
    let up = base_rate(
        s.config.progressive_rates,
        s.config.upload_rate,
        s.config.target_upload_rate,
        secs,
        s.config.progressive_duration as nat,
    );
    let down = base_rate(
        s.config.progressive_rates,
        s.config.download_rate,
        s.config.target_download_rate,
        secs,
        s.config.progressive_duration as nat,
    );
    lemma_base_rate_in_range(
        s.config.progressive_rates,
        s.config.upload_rate,
        s.config.target_upload_rate,
        secs,
        s.config.progressive_duration as nat,
    );
    lemma_base_rate_in_range(
        s.config.progressive_rates,
        s.config.download_rate,
        s.config.target_download_rate,
        secs,
        s.config.progressive_duration as nat,
    );
    lemma_unvaried(up);
    lemma_unvaried(down);
}

/// A rate times one is the rate.
pub proof fn lemma_unvaried(base: int)
    requires
        i64::MIN <= base <= i64::MAX,
    ensures
        varied_rate(base, 1_000_000) == base,
{
    let m = magnitude(base);
    assert(magnitude(1_000_000) == 1_000_000);
    assert(m * 1_000_000 / 1_000_000 == m) by (nonlinear_arith);
}

/// The base rate lies between the configured rate and its target.
pub proof fn lemma_base_rate_in_range(
    progressive: bool,
    rate: i64,
    target: Option<i64>,
    elapsed: nat,
    duration: nat,
)
    ensures
        i64::MIN <= base_rate(progressive, rate, target, elapsed, duration) <= i64::MAX,
{
    if progressive && elapsed < duration {
        let goal = match target {
            Some(t) => t as int,
            None => rate as int,
        };
        let diff = if goal >= rate {
            goal - rate
        } else {
            rate - goal
        };
        let part = diff * elapsed;
        let whole = duration * diff;
        assert(0 <= part <= whole) by (nonlinear_arith)
            requires
                part == diff * elapsed,
                whole == duration * diff,
                0 <= diff,
                0 <= elapsed < duration,
        ;
        vstd::arithmetic::div_mod::lemma_div_is_ordered(part, whole, duration as int);
        vstd::arithmetic::div_mod::lemma_div_multiples_vanish(diff, duration as int);
        vstd::arithmetic::div_mod::lemma_div_pos_is_pos(part, duration as int);
        assert(whole / (duration as int) == diff);
    }
}

/// A ratio target of zero stops a session at its first tick.
pub proof fn lemma_zero_ratio_target_stops(
    s: SessionModel,
    now: u64,
    upload_jitter: i64,
    download_jitter: i64,
    announcing: bool,
)
    requires
        ticks_in(s.state),
        s.config.stop_at_ratio == Some(0i64),
    ensures
        tick_model(s, now, upload_jitter, download_jitter, announcing).1.stopped == Some(
            StopReason::TargetRatio,
        ),
        tick_model(s, now, upload_jitter, download_jitter, announcing).0.state is Stopped,
{
}

/// A torrent without size has the ratio zero.
pub proof fn lemma_no_size_no_ratio(
    s: SessionModel,
    now: u64,
    upload_jitter: i64,
    download_jitter: i64,
    announcing: bool,
)
    requires
        s.total_size == 0,
        ticks_in(s.state),
    ensures
        tick_model(s, now, upload_jitter, download_jitter, announcing).0.stats.ratio == 0,
{
}

/// A session for a torrent without size never enters Completed.
pub proof fn lemma_no_size_never_completes(s: SessionModel, commands: Seq<Command>)
    requires
        well_formed(s),
        s.total_size == 0,
        !(s.state is Completed),
    ensures
        !(run(s, commands).state is Completed),
        completions(s, commands) == 0,
    decreases commands.len(),
{
    if commands.len() > 0 {
        let front = commands.drop_last();
        lemma_no_size_never_completes(s, front);
        lemma_run_is_monotone(s, front);
        lemma_no_completion_when_nothing_left(s, commands);
    }
}

/// The rate at which a tick of the session `s` downloads, given the
/// draw `download_jitter`.
pub open spec fn download_rate_of(s: SessionModel, download_jitter: i64) -> int {
    current_rate(
        s.config.randomize_rates,
        base_rate(
            s.config.progressive_rates,
            s.config.download_rate,
            s.config.target_download_rate,
            (s.stats.elapsed_time / 1000) as nat,
            s.config.progressive_duration as nat,
        ),
        download_jitter as int,
        s.config.random_range_percent as int,
    )
}

/// The rate at which a tick of the session `s` uploads, given the draw
/// `upload_jitter`.
pub open spec fn upload_rate_of(s: SessionModel, upload_jitter: i64) -> int {
    current_rate(
        s.config.randomize_rates,
        base_rate(
            s.config.progressive_rates,
            s.config.upload_rate,
            s.config.target_upload_rate,
            (s.stats.elapsed_time / 1000) as nat,
            s.config.progressive_duration as nat,
        ),
        upload_jitter as int,
        s.config.random_range_percent as int,
    )
}

/// The milliseconds that a tick at `now` accounts for.
pub open spec fn tick_span(s: SessionModel, now: u64) -> nat {
    floored_difference(now as nat, s.last_update as nat)
}

/// What a tick at `now` uploads: what the upload rate moves in the time
/// of the tick, and nothing in a session that is not under way.
pub open spec fn upload_gain(s: SessionModel, now: u64, upload_jitter: i64) -> nat {
    if ticks_in(s.state) {
        bytes_for(upload_rate_of(s, upload_jitter), tick_span(s, now))
    } else {
        0
    }
}

/// What a tick at `now` downloads: what the download rate moves in the
/// time of the tick, but no more than is left, and nothing in a session
/// that is not under way.
pub open spec fn download_gain(s: SessionModel, now: u64, download_jitter: i64) -> nat {
    if ticks_in(s.state) {
        let asked = bytes_for(download_rate_of(s, download_jitter), tick_span(s, now));
        if asked < s.stats.left {
            asked
        } else {
            s.stats.left as nat
        }
    } else {
        0
    }
}

/// Every tick, in every state and with every rate and draw, adds one and
/// the same number of bytes to the uploaded bytes of the session and to
/// those of all runs, each counter stopping at the largest number that
/// 64 bits hold. Neither counter ever falls, and while neither stands at
/// that number both have gained the same.
pub proof fn lemma_tick_uploads(
    s: SessionModel,
    now: u64,
    upload_jitter: i64,
    download_jitter: i64,
    announcing: bool,
)
    ensures
        ({
            let after = tick_model(s, now, upload_jitter, download_jitter, announcing).0.stats;
            let gain = upload_gain(s, now, upload_jitter);
            &&& after.uploaded == capped_sum(s.stats.uploaded as nat, gain)
            &&& after.session_uploaded == capped_sum(s.stats.session_uploaded as nat, gain)
            &&& after.uploaded >= s.stats.uploaded
            &&& after.session_uploaded >= s.stats.session_uploaded
            &&& after.uploaded < u64::MAX && after.session_uploaded < u64::MAX ==> after.uploaded
                - s.stats.uploaded == after.session_uploaded - s.stats.session_uploaded
        }),
{
}

/// Every tick, in every state and with every rate and draw, takes from
/// the bytes left what it adds to the bytes downloaded, in the session
/// and in all, each counter stopping at the largest number that 64 bits
/// hold: the bytes that the download rate asks for, or all that is left
/// where that is less. What is left never grows and never exceeds what
/// was left.
pub proof fn lemma_tick_downloads(
    s: SessionModel,
    now: u64,
    upload_jitter: i64,
    download_jitter: i64,
    announcing: bool,
)
    ensures
        ({
            let after = tick_model(s, now, upload_jitter, download_jitter, announcing).0.stats;
            let gain = download_gain(s, now, download_jitter);
            &&& gain <= s.stats.left
            &&& after.left == s.stats.left - gain
            &&& after.downloaded == capped_sum(s.stats.downloaded as nat, gain)
            &&& after.session_downloaded == capped_sum(s.stats.session_downloaded as nat, gain)
            &&& after.downloaded < u64::MAX && after.session_downloaded < u64::MAX ==> {
                &&& after.downloaded - s.stats.downloaded == gain
                &&& after.session_downloaded - s.stats.session_downloaded == gain
            }
        }),
{
}

/// A tick asks for the `completed` announce exactly where the session is
/// under way, bytes are left, and the download rate asks for at least as
/// many in the time of the tick. Then nothing is left, and the session is
/// completed, or stopped where a stop predicate fired in the same tick.
/// Otherwise the tick does not make the session completed.
pub proof fn lemma_completion_rule(
    s: SessionModel,
    now: u64,
    upload_jitter: i64,
    download_jitter: i64,
    announcing: bool,
)
    ensures
        ({
            let after = tick_model(s, now, upload_jitter, download_jitter, announcing);
            let asked = bytes_for(download_rate_of(s, download_jitter), tick_span(s, now));
            &&& after.1.completed <==> ticks_in(s.state) && s.stats.left > 0 && asked
                >= s.stats.left
            &&& after.1.completed ==> after.0.stats.left == 0
            &&& after.1.completed && after.1.stopped is None ==> after.0.state is Completed
                && after.0.stats.state is Completed
            &&& after.1.stopped is Some ==> after.0.state is Stopped && after.0.stats.state
                is Stopped
            &&& !after.1.completed && after.1.stopped is None ==> after.0.state == s.state
            &&& !after.1.completed && s.stats.left > 0 ==> after.0.stats.left > 0 || !ticks_in(
                s.state,
            )
        }),
{
}

/// A session that can start, started at `now`, whose `started` announce
/// the tracker answers at `at`: the announce is that of `started`, the
/// session runs, the interval is the answer's, the last announce was at
/// `at` and the next is due one interval later, as far as that moment
/// can be written in 64 bits; the seeders and leechers are the answer's,
/// and so is the tracker id, or the one that the session had where the
/// answer has none.
pub proof fn lemma_start_then_answer(s: SessionModel, now: u64, response: AnnounceResponse, at: u64)
    requires
        starts_in(s.state),
    ensures
        ({
            let after = answered(started(s, now), TrackerEvent::Started, response@, at);
            let interval = interval_secs(response.interval);
            &&& after.state is Running
            &&& after.stats.state is Running
            &&& after.announce_interval == interval
            &&& response.interval >= 0 ==> after.announce_interval == response.interval
            &&& after.stats.last_announce == Some(at)
            &&& after.stats.next_announce is Some
            &&& at + interval * 1000 <= u64::MAX ==> after.stats.next_announce->Some_0 - at
                == interval * 1000
            &&& at + interval * 1000 > u64::MAX ==> after.stats.next_announce->Some_0 == u64::MAX
            &&& after.stats.seeders == response.complete
            &&& after.stats.leechers == response.incomplete
            &&& response.tracker_id is Some ==> after.tracker_id == response@.tracker_id
            &&& s.tracker_id is None ==> after.tracker_id == response@.tracker_id
            &&& response.tracker_id is None ==> after.tracker_id == s.tracker_id
            &&& after.stats.uploaded == s.stats.uploaded
            &&& after.stats.left == s.stats.left
        }),
{
}

/// The answer, taken in at `at`, to a periodic announce: the interval is
/// the answer's, the last announce was at `at` and the next is due one
/// interval later, as far as that moment can be written in 64 bits; the
/// seeders and leechers are the answer's; the state and the counters stay
/// as they are.
pub proof fn lemma_periodic_answer(s: SessionModel, response: AnnounceResponse, at: u64)
    ensures
        ({
            let after = answered(s, TrackerEvent::Periodic, response@, at);
            let interval = interval_secs(response.interval);
            &&& after.state == s.state
            &&& after.announce_interval == interval
            &&& response.interval >= 0 ==> after.announce_interval == response.interval
            &&& after.stats.last_announce == Some(at)
            &&& after.stats.next_announce is Some
            &&& at + interval * 1000 <= u64::MAX ==> after.stats.next_announce->Some_0 - at
                == interval * 1000
            &&& at + interval * 1000 > u64::MAX ==> after.stats.next_announce->Some_0 == u64::MAX
            &&& after.stats.seeders == response.complete
            &&& after.stats.leechers == response.incomplete
            &&& after.stats.announce_count == counted(s.stats.announce_count)
            &&& after.stats.uploaded == s.stats.uploaded
            &&& after.stats.downloaded == s.stats.downloaded
            &&& after.stats.left == s.stats.left
        }),
{
}

/// A session with an upload rate of zero that does not progress, which
/// shows the rate zero as every new session does, uploads nothing and
/// shows the rate zero after any commands, whatever the draws.
pub proof fn lemma_zero_rate_never_uploads(s: SessionModel, commands: Seq<Command>)
    requires
        s.config.upload_rate == 0,
        !s.config.progressive_rates,
        s.stats.current_upload_rate == 0,
    ensures
        run(s, commands).config == s.config,
        run(s, commands).stats.uploaded == s.stats.uploaded,
        run(s, commands).stats.session_uploaded == s.stats.session_uploaded,
        run(s, commands).stats.current_upload_rate == 0,
    decreases commands.len(),
{
    if commands.len() > 0 {
        let front = run(s, commands.drop_last());
        lemma_zero_rate_never_uploads(s, commands.drop_last());
        match commands.last() {
            Command::Tick { now, upload_jitter, download_jitter, announcing } => {
                lemma_zero_rate_uploads_nothing(
                    front,
                    now,
                    upload_jitter,
                    download_jitter,
                    announcing,
                );
                if ticks_in(front.state) {
                    lemma_zero_rate_is_shown(front, now, upload_jitter, download_jitter, announcing);
                }
            },
            _ => {},
        }
    }
}

/// A session for a torrent without size that shows the ratio zero, as
/// every new session for such a torrent does, shows the ratio zero after
/// any commands, and every sample in its history of ratios is zero.
pub proof fn lemma_no_size_ratio_stays_zero(s: SessionModel, commands: Seq<Command>)
    requires
        s.total_size == 0,
        s.stats.ratio == 0,
        forall|i: int| 0 <= i < s.stats.ratio_history.len() ==> s.stats.ratio_history[i] == 0,
    ensures
        run(s, commands).total_size == 0,
        run(s, commands).stats.ratio == 0,
        forall|i: int|
            0 <= i < run(s, commands).stats.ratio_history.len() ==> run(
                s,
                commands,
            ).stats.ratio_history[i] == 0,
    decreases commands.len(),
{
    if commands.len() > 0 {
        let front = run(s, commands.drop_last());
        lemma_no_size_ratio_stays_zero(s, commands.drop_last());
        match commands.last() {
            Command::Tick { now, upload_jitter, download_jitter, announcing } => {
                if ticks_in(front.state) {
                    lemma_no_size_adds_zero_sample(
                        front,
                        now,
                        upload_jitter,
                        download_jitter,
                        announcing,
                    );
                }
            },
            _ => {},
        }
    }
}

/// A new session for a torrent without size shows the ratio zero and has
/// no samples yet.
pub proof fn lemma_new_session_without_size(config: FakerConfig, downloaded: u64)
    ensures
        stats_from(0, config, downloaded, FakerState::Idle).ratio == 0,
        stats_from(0, config, downloaded, FakerState::Idle).ratio_history.len() == 0,
        stats_from(0, config, downloaded, FakerState::Idle).current_upload_rate == 0,
{
}

/// With an upload rate of zero that does not progress, the rate of a
/// tick is zero, whatever the draw.
pub proof fn lemma_zero_rate_is_shown(
    s: SessionModel,
    now: u64,
    upload_jitter: i64,
    download_jitter: i64,
    announcing: bool,
)
    requires
        ticks_in(s.state),
        s.config.upload_rate == 0,
        !s.config.progressive_rates,
    ensures
        tick_model(s, now, upload_jitter, download_jitter, announcing).0.stats.current_upload_rate
            == 0,
{
    let f = 1_000_000 + bounded_jitter(upload_jitter as int, s.config.random_range_percent as int);
    assert(magnitude(0) * magnitude(f) == 0) by (nonlinear_arith);
}

/// With a jitter range of zero and rates that do not progress, a tick
/// runs at the configured rates, whatever the draws, and uploads what
/// the configured rate moves in its time, as long as the counter stays
/// below the largest number that 64 bits hold.
pub proof fn lemma_no_range_moves_configured_bytes(
    s: SessionModel,
    now: u64,
    upload_jitter: i64,
    download_jitter: i64,
    announcing: bool,
)
    requires
        ticks_in(s.state),
        s.config.random_range_percent == 0,
        !s.config.progressive_rates,
    ensures
        ({
            let after = tick_model(s, now, upload_jitter, download_jitter, announcing).0.stats;
            &&& after.current_upload_rate == s.config.upload_rate
            &&& after.current_download_rate == s.config.download_rate
            &&& after.uploaded < u64::MAX ==> after.uploaded - s.stats.uploaded == bytes_for(
                s.config.upload_rate as int,
                tick_span(s, now),
            )
        }),
{
    lemma_unvaried(s.config.upload_rate as int);
    lemma_unvaried(s.config.download_rate as int);
}

/// For a torrent without size a tick shows the ratio zero and adds the
/// sample zero to the history of ratios.
pub proof fn lemma_no_size_adds_zero_sample(
    s: SessionModel,
    now: u64,
    upload_jitter: i64,
    download_jitter: i64,
    announcing: bool,
)
    requires
        s.total_size == 0,
        ticks_in(s.state),
    ensures
        ({
            let after = tick_model(s, now, upload_jitter, download_jitter, announcing).0.stats;
            &&& after.ratio == 0
            &&& after.ratio_history.len() > 0
            &&& after.ratio_history.last() == 0
        }),
{
}

/// Of a torrent of 1,048,576 bytes, 105 are left at a completion of
/// 99.99 %.
pub proof fn lemma_nearly_complete_leaves_105(config: FakerConfig)
    requires
        config.completion_percent == 99_990_000,
        config.initial_downloaded == 0,
    ensures
        initial_stats(1_048_576, config).left == 105,
        initial_stats(1_048_576, config).downloaded == 1_048_471,
{
    assert(1_048_576nat * 99_990_000nat * 1nat / 100_000_000 == 1_048_471) by (nonlinear_arith);
}

/// A running session that has 105 bytes left and downloads at
/// 1024 KiB/s, steadily and with no stop target set, is completed by one
/// tick of a second or more: nothing is left, the 105 bytes count as
/// downloaded, and the tick asks for the `completed` announce.
pub proof fn lemma_last_bytes_complete(
    s: SessionModel,
    now: u64,
    upload_jitter: i64,
    download_jitter: i64,
    announcing: bool,
)
    requires
        s.state is Running,
        s.stats.left == 105,
        s.stats.downloaded == 1_048_471,
        s.stats.session_downloaded == 0,
        s.config.download_rate == 1_024_000_000,
        !s.config.randomize_rates,
        !s.config.progressive_rates,
        s.config.stop_at_ratio is None,
        s.config.stop_at_uploaded is None,
        s.config.stop_at_downloaded is None,
        s.config.stop_at_seed_time is None,
        !s.config.stop_when_no_leechers,
        now - s.last_update >= 1000,
    ensures
        ({
            let after = tick_model(s, now, upload_jitter, download_jitter, announcing);
            &&& after.0.stats.left == 0
            &&& after.0.stats.downloaded == 1_048_576
            &&& after.0.stats.session_downloaded == 105
            &&& after.1.completed
            &&& after.1.stopped is None
            &&& after.0.state is Completed
            &&& after.0.stats.state is Completed
        }),
{
    let dt = tick_span(s, now);
    let product = 1_024_000_000nat * 1024 * dt;
    assert(product >= 1_024_000_000nat * 1024 * 1000) by (nonlinear_arith)
        requires
            product == 1_024_000_000nat * 1024 * dt,
            dt >= 1000,
    ;
    assert(1_024_000_000nat * 1024 * 1000 == 1_048_576_000_000_000);
    lemma_div_is_ordered(1_048_576_000_000_000, product as int, 1_000_000_000);
    assert(1_048_576_000_000_000int / 1_000_000_000 == 1_048_576) by (nonlinear_arith);
    assert(bytes_for(1_024_000_000, dt) >= 105);
}

/// Whether a configuration sets no stop target.
pub open spec fn runs_on(config: FakerConfig) -> bool {
    &&& config.stop_at_ratio is None
    &&& config.stop_at_uploaded is None
    &&& config.stop_at_downloaded is None
    &&& config.stop_at_seed_time is None
    &&& !config.stop_when_no_leechers
}

/// One round of a driver whose tracker answers at once: the session is
/// ticked at `now`, and where the tick asks for a periodic announce, the
/// answer `response` is taken in at the same moment. The second
/// component says whether an announce was made.
pub open spec fn round(
    s: SessionModel,
    now: u64,
    jitter: (i64, i64),
    response: AnnounceResponseModel,
) -> (SessionModel, bool) {
    let ticked = tick_model(s, now, jitter.0, jitter.1, true);
    if ticked.1.announce {
        (answered(ticked.0, TrackerEvent::Periodic, response, now), true)
    } else {
        (ticked.0, false)
    }
}

/// The session after `k` rounds, one every five seconds from the moment
/// zero on, with the draws that `jitters` gives for each.
pub open spec fn after_rounds(
    s: SessionModel,
    k: nat,
    jitters: spec_fn(nat) -> (i64, i64),
    response: AnnounceResponseModel,
) -> SessionModel
    decreases k,
{
    if k == 0 {
        s
    } else {
        round(
            after_rounds(s, (k - 1) as nat, jitters, response),
            (5000 * k) as u64,
            jitters(k),
            response,
        ).0
    }
}

/// The number of periodic announces made in `k` rounds.
pub open spec fn announces_in_rounds(
    s: SessionModel,
    k: nat,
    jitters: spec_fn(nat) -> (i64, i64),
    response: AnnounceResponseModel,
) -> nat
    decreases k,
{
    if k == 0 {
        0
    } else {
        announces_in_rounds(s, (k - 1) as nat, jitters, response) + if round(
            after_rounds(s, (k - 1) as nat, jitters, response),
            (5000 * k) as u64,
            jitters(k),
            response,
        ).1 {
            1nat
        } else {
            0nat
        }
    }
}

/// A session that was started at the moment zero, whose tracker answers
/// every announce at once with an interval of 60 seconds, and that sets
/// no stop target, makes one periodic announce every twelfth round of
/// five seconds, at the full minute: after `k` rounds it has made
/// `k / 12`, the next is due at the next full minute, and the counts of
/// seeders and leechers are those of the last answer.
pub proof fn lemma_announce_cadence(
    s: SessionModel,
    k: nat,
    jitters: spec_fn(nat) -> (i64, i64),
    response: AnnounceResponseModel,
)
    requires
        ticks_in(s.state),
        runs_on(s.config),
        s.announce_interval == 60,
        s.stats.next_announce == Some(60_000u64),
        response.interval == 60,
        k <= 1_000_000,
    ensures
        announces_in_rounds(s, k, jitters, response) == k / 12,
        after_rounds(s, k, jitters, response).stats.next_announce == Some(
            (60_000 * (k / 12 + 1)) as u64,
        ),
        after_rounds(s, k, jitters, response).announce_interval == 60,
        after_rounds(s, k, jitters, response).config == s.config,
        ticks_in(after_rounds(s, k, jitters, response).state),
        k > 0 ==> round(
            after_rounds(s, (k - 1) as nat, jitters, response),
            (5000 * k) as u64,
            jitters(k),
            response,
        ).1 == (k % 12 == 0),
        k >= 12 ==> after_rounds(s, k, jitters, response).stats.seeders == response.complete as i64
            && after_rounds(s, k, jitters, response).stats.leechers
            == response.incomplete as i64,
    decreases k,
{
    if k > 0 {
        let before = (k - 1) as nat;
        lemma_announce_cadence(s, before, jitters, response);
        let mid = after_rounds(s, before, jitters, response);
        let now = (5000 * k) as u64;
        assert(now == 5000 * k);
        let ticked = tick_model(mid, now, jitters(k).0, jitters(k).1, true);
        assert(ticked.1.stopped is None);
        assert(ticked.1.announce == (now >= 60_000 * (before / 12 + 1)));
        if ticked.1.announce {
            assert(k / 12 == before / 12 + 1);
            assert(now == 60_000 * (k / 12));
            assert(interval_secs(response.interval as i64) == 60);
            assert(now + 60 * 1000 <= u64::MAX);
        } else {
            assert(k / 12 == before / 12);
        }
    }
}

/// Over 305 seconds such a session makes five periodic announces, which
/// with the `started` one are six.
pub proof fn lemma_six_announces_in_305_seconds(
    s: SessionModel,
    jitters: spec_fn(nat) -> (i64, i64),
    response: AnnounceResponseModel,
)
    requires
        ticks_in(s.state),
        runs_on(s.config),
        s.announce_interval == 60,
        s.stats.next_announce == Some(60_000u64),
        response.interval == 60,
    ensures
        announces_in_rounds(s, 61, jitters, response) == 5,
        1 + announces_in_rounds(s, 61, jitters, response) == 6,
{
    lemma_announce_cadence(s, 61, jitters, response);
}

} // verus!
