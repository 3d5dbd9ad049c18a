//! Figures written for people: byte counts, durations and the names of
//! states and clients.

use crate::faker::FakerState;
use crate::text::{
    append_decimal, append_padded_decimal, decimal_text, hex_lower_text, padded_decimal,
    signed_decimal, signed_decimal_text,
};
use crate::torrent::info::{all_tracker_urls, FileModel, TorrentInfo};
use vstd::prelude::*;
use vstd::string::*;

verus! {

/// Bytes in a KB.
pub const KB: u64 = 1024;

/// Bytes in a MB.
pub const MB: u64 = 1024 * 1024;

/// Bytes in a GB.
pub const GB: u64 = 1024 * 1024 * 1024;

/// Bytes in a TB.
pub const TB: u64 = 1024 * 1024 * 1024 * 1024;

/// The kind of an announce as an event names it.
#[derive(Clone, Copy, Debug, PartialEq, Eq, Structural)]
pub enum AnnounceType {
    Started,
    Periodic,
    Completed,
    Stopped,
}

/// The name of a state.
pub open spec fn state_name(state: FakerState) -> Seq<char> {
    match state {
        FakerState::Idle => "idle"@,
        FakerState::Running => "running"@,
        FakerState::Paused => "paused"@,
        FakerState::Stopped => "stopped"@,
        FakerState::Completed => "completed"@,
    }
}

/// The name of a state, in lower case.
pub fn format_state(state: &FakerState) -> (r: String)
    ensures
        r@ == state_name(*state),
{
    match state {
        FakerState::Idle => String::from_str("idle"),
        FakerState::Running => String::from_str("running"),
        FakerState::Paused => String::from_str("paused"),
        FakerState::Stopped => String::from_str("stopped"),
        FakerState::Completed => String::from_str("completed"),
    }
}

/// `amount / unit` in hundredths, rounded to the nearest and, half way
/// between two, to the even one.
pub open spec fn hundredths(amount: nat, unit: nat) -> nat {
    let whole = amount * 100 / unit;
    let rest = amount * 100 % unit;
    if 2 * rest > unit || (2 * rest == unit && whole % 2 == 1) {
        whole + 1
    } else {
        whole
    }
}

/// A number of hundredths with two digits after the point.
pub open spec fn two_decimals(h: nat) -> Seq<char> {
    decimal_text(h / 100).push('.') + padded_decimal(h % 100, 2)
}

/// A byte count in the largest unit that it fills, with two digits after
/// the point; below a KB, in whole bytes.
pub open spec fn bytes_text(bytes: u64) -> Seq<char> {
    if bytes >= TB {
        two_decimals(hundredths(bytes as nat, TB as nat)) + " TB"@
    } else if bytes >= GB {
        two_decimals(hundredths(bytes as nat, GB as nat)) + " GB"@
    } else if bytes >= MB {
        two_decimals(hundredths(bytes as nat, MB as nat)) + " MB"@
    } else if bytes >= KB {
        two_decimals(hundredths(bytes as nat, KB as nat)) + " KB"@
    } else {
        decimal_text(bytes as nat) + " B"@
    }
}

fn in_unit(bytes: u64, unit: u64, name: &str) -> (r: String)
    requires
        unit >= 1024,
        bytes >= unit,
    ensures
        r@ == two_decimals(hundredths(bytes as nat, unit as nat)) + name@,
{
    let scaled: u128 = (bytes as u128) * 100;
    let whole: u128 = scaled / (unit as u128);
    let rest: u128 = scaled % (unit as u128);
    assert(whole <= scaled);
    let h: u128 = if 2 * rest > unit as u128 || (2 * rest == unit as u128 && whole % 2 == 1) {
        whole + 1
    } else {
        whole
    };
    assert(whole * 1024 <= scaled) by {
        assert(whole * (unit as u128) <= scaled) by (nonlinear_arith)
            requires
                whole == scaled / (unit as u128),
                unit > 0,
        ;
        assert(whole * 1024 <= whole * (unit as u128)) by (nonlinear_arith)
            requires
                unit >= 1024,
                whole >= 0,
        ;
    }
    let mut out = String::new();
    append_decimal(&mut out, (h / 100) as u64);
    out.append(".");
    append_padded_decimal(&mut out, (h % 100) as u64, 2);
    out.append(name);
    proof {
        reveal_strlit(".");
        assert(out@ =~= two_decimals(h as nat) + name@);
    }
    out
}

/// Writes a byte count for people.
pub fn format_bytes(bytes: u64) -> (r: String)
    ensures
        r@ == bytes_text(bytes),
{
    if bytes >= TB {
        in_unit(bytes, TB, " TB")
    } else if bytes >= GB {
        in_unit(bytes, GB, " GB")
    } else if bytes >= MB {
        in_unit(bytes, MB, " MB")
    } else if bytes >= KB {
        in_unit(bytes, KB, " KB")
    } else {
        let mut out = String::new();
        append_decimal(&mut out, bytes);
        out.append(" B");
        out
    }
}

/// A number of seconds as hours, minutes and seconds, the larger units
/// only where they are not zero.
pub open spec fn duration_text(secs: u64) -> Seq<char> {
    let hours = (secs / 3600) as nat;
    let minutes = ((secs % 3600) / 60) as nat;
    let seconds = (secs % 60) as nat;
    if hours > 0 {
        decimal_text(hours) + "h "@ + padded_decimal(minutes, 2) + "m "@ + padded_decimal(
            seconds,
            2,
        ) + "s"@
    } else if minutes > 0 {
        decimal_text(minutes) + "m "@ + padded_decimal(seconds, 2) + "s"@
    } else {
        decimal_text(seconds) + "s"@
    }
}

/// Writes a number of seconds for people.
pub fn format_duration(secs: u64) -> (r: String)
    ensures
        r@ == duration_text(secs),
{
    let hours = secs / 3600;
    let minutes = (secs % 3600) / 60;
    let seconds = secs % 60;
    let mut out = String::new();
    if hours > 0 {
        append_decimal(&mut out, hours);
        out.append("h ");
        append_padded_decimal(&mut out, minutes, 2);
        out.append("m ");
        append_padded_decimal(&mut out, seconds, 2);
        out.append("s");
    } else if minutes > 0 {
        append_decimal(&mut out, minutes);
        out.append("m ");
        append_padded_decimal(&mut out, seconds, 2);
        out.append("s");
    } else {
        append_decimal(&mut out, seconds);
        out.append("s");
    }
    assert(out@ =~= duration_text(secs));
    out
}

/// One client that can be imitated, as a listing shows it.
#[derive(Debug, Clone)]
pub struct ClientInfo {
    pub id: String,
    pub name: String,
    pub default_version: String,
}

/// The clients that can be imitated.
#[derive(Debug, Clone)]
pub struct ClientsOutput {
    pub clients: Vec<ClientInfo>,
}

fn client_info(id: &str, name: &str, default_version: &str) -> (r: ClientInfo)
    ensures
        r.id@ == id@,
        r.name@ == name@,
        r.default_version@ == default_version@,
{
    ClientInfo {
        id: String::from_str(id),
        name: String::from_str(name),
        default_version: String::from_str(default_version),
    }
}

impl ClientsOutput {
    /// The four clients with their default versions.
    pub fn new() -> (r: ClientsOutput)
        ensures
            r.clients@.len() == 4,
            r.clients@[0].id@ == "qbittorrent"@,
            r.clients@[0].name@ == "qBittorrent"@,
            r.clients@[0].default_version@ == "5.1.4"@,
            r.clients@[1].id@ == "utorrent"@,
            r.clients@[1].name@ == "uTorrent"@,
            r.clients@[1].default_version@ == "3.5.5"@,
            r.clients@[2].id@ == "transmission"@,
            r.clients@[2].name@ == "Transmission"@,
            r.clients@[2].default_version@ == "4.0.5"@,
            r.clients@[3].id@ == "deluge"@,
            r.clients@[3].name@ == "Deluge"@,
            r.clients@[3].default_version@ == "2.1.1"@,
    {
        let mut clients: Vec<ClientInfo> = Vec::new();
        clients.push(client_info("qbittorrent", "qBittorrent", "5.1.4"));
        clients.push(client_info("utorrent", "uTorrent", "3.5.5"));
        clients.push(client_info("transmission", "Transmission", "4.0.5"));
        clients.push(client_info("deluge", "Deluge", "2.1.1"));
        ClientsOutput { clients }
    }
}

/// One file of a torrent, as a listing shows it.
#[derive(Debug, Clone)]
pub struct FileOutput {
    /// The path components joined by `/`.
    pub path: String,
    pub size: u64,
    pub size_human: String,
}

/// A torrent, as a listing shows it.
#[derive(Debug, Clone)]
pub struct TorrentInfoOutput {
    pub name: String,
    pub size: u64,
    pub size_human: String,
    /// The info hash in lower-case hexadecimal.
    pub info_hash: String,
    pub tracker: String,
    /// Every tracker URL, each once.
    pub trackers: Vec<String>,
    pub num_pieces: usize,
    pub piece_length: u64,
    pub piece_length_human: String,
    pub is_single_file: bool,
    pub files: Vec<FileOutput>,
    pub creation_date: Option<String>,
    pub created_by: Option<String>,
    pub comment: Option<String>,
}

/// The moment `secs` seconds after the Unix epoch, in universal time,
/// written out as `format` asks; nothing where the calendar does not
/// reach that far or the format cannot be followed.
pub uninterp spec fn timestamp_text(secs: i64, format: Seq<char>) -> Option<Seq<char>>;

/// How a listing writes a moment: year, month and day, then hour, minute
/// and second, and the name of the time.
pub open spec fn date_format() -> Seq<char> {
    "%Y-%m-%d %H:%M:%S UTC"@
}

/// `chrono::DateTime::from_timestamp` with no nanoseconds, and the moment
/// it gives written by `format` and `write_to` into a new text; nothing
/// where the seconds lie beyond the calendar or the writing fails. The
/// text depends on the seconds and the format alone.
#[verifier::external_body]
fn format_timestamp(secs: i64, format: &str) -> (r: Option<String>)
    ensures
        r.deep_view() == timestamp_text(secs, format@),
{
    let moment = chrono::DateTime::from_timestamp(secs, 0)?;
    let mut out = String::new();
    match moment.format(format).write_to(&mut out) {
        Ok(()) => Some(out),
        Err(_) => None,
    }
}

/// A creation date as a listing shows it: the moment written out, or
/// the bare number of seconds where it cannot be written as a moment.
pub open spec fn date_text(secs: i64, written: Option<Seq<char>>) -> Seq<char> {
    match written {
        Some(t) => t,
        None => signed_decimal_text(secs as int),
    }
}

/// The creation date `secs` as a listing shows it, given the moment
/// written out.
pub fn date_or_number(secs: i64, written: Option<String>) -> (r: String)
    ensures
        r@ == date_text(secs, written.deep_view()),
{
    match written {
        Some(t) => t,
        None => signed_decimal(secs),
    }
}

/// Path components joined by `/`.
pub open spec fn joined_path(parts: Seq<Seq<char>>) -> Seq<char>
    decreases parts.len(),
{
    if parts.len() == 0 {
        Seq::empty()
    } else if parts.len() == 1 {
        parts[0]
    } else {
        joined_path(parts.drop_last()).push('/') + parts.last()
    }
}

/// Joins path components by `/`.
pub fn join_path(parts: &Vec<String>) -> (r: String)
    ensures
        r@ == joined_path(parts.deep_view()),
{
    let ghost all = parts.deep_view();
    let mut out = String::new();
    let mut i: usize = 0;
    assert(all.subrange(0, 0).len() == 0);
    while i < parts.len()
        invariant
            i <= parts.len(),
            all == parts.deep_view(),
            all.len() == parts@.len(),
            out@ == joined_path(all.subrange(0, i as int)),
        decreases parts.len() - i,
    {
        proof {
            assert(all.subrange(0, i + 1).drop_last() == all.subrange(0, i as int));
            assert(all.subrange(0, i + 1).last() == parts@[i as int]@);
            if i == 0 {
                assert(all.subrange(0, 1)[0] == parts@[0]@);
            }
        }
        let ghost before = out@;
        if i > 0 {
            out.append("/");
        }
        out.append(parts[i].as_str());
        proof {
            reveal_strlit("/");
            if i > 0 {
                assert(out@ =~= before.push('/') + parts@[i as int]@);
            } else {
                assert(before.len() == 0);
                assert(out@ =~= parts@[0]@);
            }
        }
        i += 1;
    }
    assert(all.subrange(0, i as int) == all);
    out
}

/// The file `file` as a listing shows it.
pub open spec fn shows_file(shown: FileOutput, file: FileModel) -> bool {
    &&& shown.path@ == joined_path(file.path)
    &&& shown.size == file.length
    &&& shown.size_human@ == bytes_text(shown.size)
}

/// An optional creation date as a listing shows it.
pub open spec fn shown_date(date: Option<int>) -> Option<Seq<char>> {
    match date {
        Some(d) => Some(date_text(d as i64, timestamp_text(d as i64, date_format()))),
        None => None,
    }
}

impl TorrentInfoOutput {
    /// The torrent as a listing shows it: sizes also written for people,
    /// the info hash in hexadecimal, every tracker once, each file's path
    /// joined by `/`, and the creation date written as a moment.
    pub fn from(torrent: &TorrentInfo) -> (r: TorrentInfoOutput)
        ensures
            r.name@ == torrent@.name,
            r.size == torrent.total_size,
            r.size_human@ == bytes_text(torrent.total_size),
            r.info_hash@ == hex_lower_text(torrent@.info_hash),
            r.tracker@ == torrent@.announce,
            r.trackers.deep_view() == all_tracker_urls(torrent@),
            r.num_pieces == torrent.num_pieces,
            r.piece_length == torrent.piece_length,
            r.piece_length_human@ == bytes_text(torrent.piece_length),
            r.is_single_file == torrent.is_single_file,
            r.files@.len() == torrent@.files.len(),
            forall|i: int|
                0 <= i < r.files@.len() ==> shows_file(#[trigger] r.files@[i], torrent@.files[i]),
            r.creation_date.deep_view() == shown_date(torrent@.creation_date),
            r.created_by.deep_view() == torrent@.created_by,
            r.comment.deep_view() == torrent@.comment,
    {
        let mut files: Vec<FileOutput> = Vec::new();
        let mut i: usize = 0;
        while i < torrent.files.len()
            invariant
                i <= torrent.files.len(),
                files@.len() == i,
                forall|k: int|
                    0 <= k < i ==> shows_file(#[trigger] files@[k], torrent.files@[k]@),
            decreases torrent.files.len() - i,
        {
            let file = &torrent.files[i];
            files.push(
                FileOutput {
                    path: join_path(&file.path),
                    size: file.length,
                    size_human: format_bytes(file.length),
                },
            );
            i += 1;
        }
        let creation_date = match torrent.creation_date {
            Some(secs) => Some(
                date_or_number(secs, format_timestamp(secs, "%Y-%m-%d %H:%M:%S UTC")),
            ),
            None => None,
        };
        TorrentInfoOutput {
            name: torrent.name.clone(),
            size: torrent.total_size,
            size_human: format_bytes(torrent.total_size),
            info_hash: torrent.info_hash_hex(),
            tracker: torrent.announce.clone(),
            trackers: torrent.get_all_tracker_urls(),
            num_pieces: torrent.num_pieces,
            piece_length: torrent.piece_length,
            piece_length_human: format_bytes(torrent.piece_length),
            is_single_file: torrent.is_single_file,
            files,
            creation_date,
            created_by: match &torrent.created_by {
                Some(t) => Some(t.clone()),
                None => None,
            },
            comment: match &torrent.comment {
                Some(t) => Some(t.clone()),
                None => None,
            },
        }
    }
}

} // verus!
