//! Requests to a tracker and what it answers: the URLs of announce and
//! scrape requests, and the decoding of the responses.

use crate::protocol::bencode::{
    bencode_fault_text, decoded_root, dict_field, find_dict, find_int, find_text, get_int, int_field,
    missing_key_fault, parse, text_field, value_result, BencodeError, BencodeFault, BencodeModel,
    BencodeValue,
};
use crate::text::{
    append_chars, append_decimal, append_percent_encoded, decimal_text, ends_with, find_char,
    index_from, percent_text, prefix_ends_with, to_chars,
};
use crate::torrent::client::ClientConfig;
use vstd::prelude::*;
use vstd::slice::slice_subrange;
use vstd::string::*;

verus! {

/// Why a request to a tracker gave no usable answer.
#[derive(Debug)]
pub enum TrackerError {
    /// The transport failed, or the tracker answered with a status that
    /// is not a success.
    HttpError(String),
    /// The body is not bencoded, or a required field is absent or of the
    /// wrong kind.
    BencodeError(BencodeError),
    /// The tracker refused the request; holds its reason as it gave it.
    TrackerFailure(String),
    /// The body does not have the shape of a response.
    InvalidResponse(String),
    /// The tracker URL is no URL.
    UrlError(String),
}

/// The content of a [`TrackerError`].
pub enum TrackerFault {
    Http(Seq<char>),
    Bencode(BencodeFault),
    TrackerFailure(Seq<char>),
    InvalidResponse(Seq<char>),
    Url(Seq<char>),
}

impl View for TrackerError {
    type V = TrackerFault;

    open spec fn view(&self) -> TrackerFault {
        match self {
            TrackerError::HttpError(m) => TrackerFault::Http(m@),
            TrackerError::BencodeError(e) => TrackerFault::Bencode(e@),
            TrackerError::TrackerFailure(m) => TrackerFault::TrackerFailure(m@),
            TrackerError::InvalidResponse(m) => TrackerFault::InvalidResponse(m@),
            TrackerError::UrlError(m) => TrackerFault::Url(m@),
        }
    }
}

/// A fault as a line of text.
pub open spec fn tracker_fault_text(fault: TrackerFault) -> Seq<char> {
    match fault {
        TrackerFault::Http(m) => "HTTP error: "@ + m,
        TrackerFault::Bencode(f) => "Bencode error: "@ + bencode_fault_text(f),
        TrackerFault::TrackerFailure(m) => "Tracker returned error: "@ + m,
        TrackerFault::InvalidResponse(m) => "Invalid response: "@ + m,
        TrackerFault::Url(m) => "URL parse error: "@ + m,
    }
}

fn labelled(label: &str, text: &str) -> (r: String)
    ensures
        r@ == label@ + text@,
{
    let mut r = String::from_str(label);
    r.append(text);
    r
}

impl TrackerError {
    /// The error as a line of text.
    pub fn message(&self) -> (r: String)
        ensures
            r@ == tracker_fault_text(self@),
    {
        match self {
            TrackerError::HttpError(m) => labelled("HTTP error: ", m.as_str()),
            TrackerError::BencodeError(e) => labelled("Bencode error: ", e.message().as_str()),
            TrackerError::TrackerFailure(m) => labelled("Tracker returned error: ", m.as_str()),
            TrackerError::InvalidResponse(m) => labelled("Invalid response: ", m.as_str()),
            TrackerError::UrlError(m) => labelled("URL parse error: ", m.as_str()),
        }
    }
}

/// The lifecycle event that an announce reports, if any.
#[derive(Clone, Copy, Debug, PartialEq, Eq, Structural)]
pub enum TrackerEvent {
    Started,
    Stopped,
    Completed,
    /// A periodic announce, which names no event.
    Periodic,
}

/// The value of the `event` parameter for an event.
pub open spec fn event_name(event: TrackerEvent) -> Option<Seq<char>> {
    match event {
        TrackerEvent::Started => Some("started"@),
        TrackerEvent::Stopped => Some("stopped"@),
        TrackerEvent::Completed => Some("completed"@),
        TrackerEvent::Periodic => None,
    }
}

impl TrackerEvent {
    /// The value of the `event` parameter, which a periodic announce does
    /// not have.
    pub fn as_str(&self) -> (r: Option<&'static str>)
        ensures
            r.deep_view() == event_name(*self),
    {
        match self {
            TrackerEvent::Started => Some("started"),
            TrackerEvent::Stopped => Some("stopped"),
            TrackerEvent::Completed => Some("completed"),
            TrackerEvent::Periodic => None,
        }
    }
}

/// What one announce reports to the tracker.
#[derive(Debug, Clone)]
pub struct AnnounceRequest {
    pub info_hash: [u8; 20],
    pub peer_id: String,
    pub port: u16,
    pub uploaded: u64,
    pub downloaded: u64,
    pub left: u64,
    pub compact: bool,
    pub no_peer_id: bool,
    pub event: TrackerEvent,
    pub ip: Option<String>,
    pub numwant: Option<u32>,
    pub key: Option<String>,
    pub tracker_id: Option<String>,
}

/// What a tracker answers to an announce.
#[derive(Debug, Clone)]
pub struct AnnounceResponse {
    /// Seconds to wait before the next announce.
    pub interval: i64,
    pub min_interval: Option<i64>,
    /// To be sent back with every later announce.
    pub tracker_id: Option<String>,
    /// Seeders.
    pub complete: i64,
    /// Leechers.
    pub incomplete: i64,
    pub warning: Option<String>,
}

/// The content of an [`AnnounceResponse`].
pub struct AnnounceResponseModel {
    pub interval: int,
    pub min_interval: Option<int>,
    pub tracker_id: Option<Seq<char>>,
    pub complete: int,
    pub incomplete: int,
    pub warning: Option<Seq<char>>,
}

/// An optional 64-bit integer as a mathematical one.
pub open spec fn optional_int(v: Option<i64>) -> Option<int> {
    match v {
        Some(i) => Some(i as int),
        None => None,
    }
}

impl View for AnnounceResponse {
    type V = AnnounceResponseModel;

    open spec fn view(&self) -> AnnounceResponseModel {
        AnnounceResponseModel {
            interval: self.interval as int,
            min_interval: optional_int(self.min_interval),
            tracker_id: self.tracker_id.deep_view(),
            complete: self.complete as int,
            incomplete: self.incomplete as int,
            warning: self.warning.deep_view(),
        }
    }
}

/// What a tracker answers to a scrape, for one torrent.
#[derive(Debug, Clone)]
pub struct ScrapeResponse {
    /// Seeders.
    pub complete: i64,
    /// Leechers.
    pub incomplete: i64,
    /// Completed downloads.
    pub downloaded: i64,
    pub name: Option<String>,
}

/// The content of a [`ScrapeResponse`].
pub struct ScrapeResponseModel {
    pub complete: int,
    pub incomplete: int,
    pub downloaded: int,
    pub name: Option<Seq<char>>,
}

impl View for ScrapeResponse {
    type V = ScrapeResponseModel;

    open spec fn view(&self) -> ScrapeResponseModel {
        ScrapeResponseModel {
            complete: self.complete as int,
            incomplete: self.incomplete as int,
            downloaded: self.downloaded as int,
            name: self.name.deep_view(),
        }
    }
}

/// A parameter that is sent only where it has a value.
pub open spec fn optional_param(name: Seq<char>, value: Option<Seq<char>>) -> Seq<char> {
    match value {
        Some(v) => name + v,
        None => Seq::empty(),
    }
}

/// A parameter that is sent only where `sent` holds.
pub open spec fn flag_param(text: Seq<char>, sent: bool) -> Seq<char> {
    if sent {
        text
    } else {
        Seq::empty()
    }
}

/// An optional number written in decimal.
pub open spec fn optional_decimal(v: Option<u32>) -> Option<Seq<char>> {
    match v {
        Some(n) => Some(decimal_text(n as nat)),
        None => None,
    }
}

/// `start` followed by the query of an announce: the parameters in their
/// fixed order, the info hash as twenty `%XX` pairs, the peer id as it
/// stands.
pub open spec fn with_announce_query(
    start: Seq<char>,
    req: AnnounceRequest,
    supports_crypto: bool,
) -> Seq<char> {
    start + "info_hash="@ + percent_text(req.info_hash@) + "&peer_id="@ + req.peer_id@ + "&port="@
        + decimal_text(req.port as nat) + "&uploaded="@ + decimal_text(req.uploaded as nat)
        + "&downloaded="@ + decimal_text(req.downloaded as nat) + "&left="@ + decimal_text(
        req.left as nat,
    ) + (if req.compact {
        "&compact=1"@
    } else {
        "&compact=0"@
    }) + flag_param("&no_peer_id=1"@, req.no_peer_id) + optional_param(
        "&event="@,
        event_name(req.event),
    ) + optional_param("&ip="@, req.ip.deep_view()) + optional_param(
        "&numwant="@,
        optional_decimal(req.numwant),
    ) + optional_param("&key="@, req.key.deep_view()) + optional_param(
        "&trackerid="@,
        req.tracker_id.deep_view(),
    ) + flag_param("&supportcrypto=1"@, supports_crypto)
}

/// What joins a query to `base`: `?`, or `&` where `base` has a `?`
/// already.
pub open spec fn separator(base: Seq<char>) -> char {
    if base.contains('?') {
        '&'
    } else {
        '?'
    }
}

/// The URL of an announce to the tracker at `base`.
pub open spec fn announce_url(base: Seq<char>, req: AnnounceRequest, supports_crypto: bool) -> Seq<
    char,
> {
    with_announce_query(base.push(separator(base)), req, supports_crypto)
}

fn append_optional(s: &mut String, name: &str, value: &Option<String>)
    ensures
        final(s)@ == old(s)@ + optional_param(name@, value.deep_view()),
{
    match value {
        Some(v) => {
            s.append(name);
            s.append(v.as_str());
            assert(old(s)@ + name@ + v@ =~= old(s)@ + (name@ + v@));
        },
        None => {
            assert(s@ =~= old(s)@ + Seq::<char>::empty());
        },
    }
}

fn append_flag(s: &mut String, text: &str, sent: bool)
    ensures
        final(s)@ == old(s)@ + flag_param(text@, sent),
{
    if sent {
        s.append(text);
    } else {
        assert(s@ =~= old(s)@ + Seq::<char>::empty());
    }
}

fn append_number(s: &mut String, name: &str, n: u64)
    ensures
        final(s)@ == old(s)@ + name@ + decimal_text(n as nat),
{
    s.append(name);
    append_decimal(s, n);
}

/// Builds requests for one client and reads the tracker's answers.
#[derive(Debug)]
pub struct TrackerClient {
    pub client_config: ClientConfig,
}

impl TrackerClient {
    /// A tracker client that presents itself as `client_config`.
    pub fn new(client_config: ClientConfig) -> (r: TrackerClient)
        ensures
            r.client_config == client_config,
    {
        TrackerClient { client_config }
    }

    /// The URL of the announce `request` to the tracker at `tracker_url`.
    pub fn build_announce_url(&self, tracker_url: &str, request: &AnnounceRequest) -> (r: Result<
        String,
        TrackerError,
    >)
        ensures
            r is Ok,
            r->Ok_0@ == announce_url(tracker_url@, *request, self.client_config.supports_crypto),
    {
        let base = to_chars(tracker_url);
        let mut url = String::from_str(tracker_url);
        if find_char(base.as_slice(), '?') < base.len() {
            url.append("&");
        } else {
            url.append("?");
        }
        proof {
            reveal_strlit("&");
            reveal_strlit("?");
            assert(url@ =~= tracker_url@.push(separator(tracker_url@)));
        }
        url.append("info_hash=");
        append_percent_encoded(&mut url, request.info_hash.as_slice());
        url.append("&peer_id=");
        url.append(request.peer_id.as_str());
        append_number(&mut url, "&port=", request.port as u64);
        append_number(&mut url, "&uploaded=", request.uploaded);
        append_number(&mut url, "&downloaded=", request.downloaded);
        append_number(&mut url, "&left=", request.left);
        if request.compact {
            url.append("&compact=1");
        } else {
            url.append("&compact=0");
        }
        append_flag(&mut url, "&no_peer_id=1", request.no_peer_id);
        match request.event.as_str() {
            Some(name) => {
                let ghost before = url@;
                url.append("&event=");
                url.append(name);
                assert(url@ == before + optional_param("&event="@, event_name(request.event)))
                    by {
                    assert(before + "&event="@ + name@ =~= before + ("&event="@ + name@));
                }
            },
            None => {
                assert(url@ =~= url@ + Seq::<char>::empty());
            },
        }
        append_optional(&mut url, "&ip=", &request.ip);
        match request.numwant {
            Some(n) => {
                let ghost before = url@;
                append_number(&mut url, "&numwant=", n as u64);
                assert(url@ == before + optional_param(
                    "&numwant="@,
                    optional_decimal(request.numwant),
                )) by {
                    assert(before + "&numwant="@ + decimal_text(n as nat) =~= before + (
                    "&numwant="@ + decimal_text(n as nat)));
                }
            },
            None => {
                assert(url@ =~= url@ + Seq::<char>::empty());
            },
        }
        append_optional(&mut url, "&key=", &request.key);
        append_optional(&mut url, "&trackerid=", &request.tracker_id);
        append_flag(&mut url, "&supportcrypto=1", self.client_config.supports_crypto);
        Ok(url)
    }
}

/// The normal form that URL parsing gives to a text, or the parser's
/// message where the text is no absolute URL.
pub uninterp spec fn url_normal_form(text: Seq<char>) -> Result<Seq<char>, Seq<char>>;

/// `url::Url::parse`, and the parsed URL written out again: the URL in
/// its normal form, or the message of the parse error. Both depend on the
/// text alone.
#[verifier::external_body]
fn normalize_url(text: &str) -> (r: Result<String, String>)
    ensures
        match r {
            Ok(u) => url_normal_form(text@) == Ok::<Seq<char>, Seq<char>>(u@),
            Err(m) => url_normal_form(text@) == Err::<Seq<char>, Seq<char>>(m@),
        },
{
    match url::Url::parse(text) {
        Ok(u) => Ok(u.to_string()),
        Err(e) => Err(e.to_string()),
    }
}

/// The announce URL `url` turned towards scrape: where the path, which
/// ends at the first `?`, ends with the segment `/announce`, that segment
/// becomes `/scrape`; any other URL stays as it is.
pub open spec fn scrape_base(url: Seq<char>) -> Seq<char> {
    let q = index_from(url, '?', 0);
    let path = url.subrange(0, q);
    if ends_with(path, "/announce"@) {
        path.subrange(0, path.len() - "/announce"@.len()) + "/scrape"@ + url.subrange(
            q,
            url.len() as int,
        )
    } else {
        url
    }
}

/// The scrape URL for a torrent at the scrape endpoint `endpoint`: the
/// info hash joins it as twenty `%XX` pairs.
pub open spec fn scrape_url(endpoint: Seq<char>, info_hash: Seq<u8>) -> Seq<char> {
    endpoint.push(separator(endpoint)) + "info_hash="@ + percent_text(info_hash)
}

/// Whether an HTTP status is a success.
pub open spec fn is_success(status: u16) -> bool {
    200 <= status < 300
}

/// The message for an HTTP status that is no success.
pub open spec fn status_text(status: u16) -> Seq<char> {
    "HTTP status "@ + decimal_text(status as nat)
}

/// The reason with which a decoded body refuses a request, if it does.
pub open spec fn failure_reason(decoded: Result<BencodeModel, BencodeFault>) -> Option<
    Seq<char>,
> {
    match decoded {
        Ok(BencodeModel::Dict(d)) => text_field(d, "failure reason".spec_bytes()),
        _ => None,
    }
}

/// The integer under `key`, or zero.
pub open spec fn int_or_zero(dict: Map<Seq<u8>, BencodeModel>, key: Seq<u8>) -> int {
    match int_field(dict, key) {
        Some(i) => i,
        None => 0,
    }
}

/// The announce response that a decoded body holds: it must be a
/// dictionary without `failure reason` and with an integer `interval`;
/// absent counts of seeders and leechers are zero.
pub open spec fn announce_response_of(root: BencodeModel) -> Result<
    AnnounceResponseModel,
    TrackerFault,
> {
    match root {
        BencodeModel::Dict(d) => match text_field(d, "failure reason".spec_bytes()) {
            Some(reason) => Err(TrackerFault::TrackerFailure(reason)),
            None => match int_field(d, "interval".spec_bytes()) {
                None => Err(TrackerFault::Bencode(missing_key_fault("interval"@))),
                Some(interval) => Ok(
                    AnnounceResponseModel {
                        interval,
                        min_interval: int_field(d, "min interval".spec_bytes()),
                        tracker_id: text_field(d, "tracker id".spec_bytes()),
                        complete: int_or_zero(d, "complete".spec_bytes()),
                        incomplete: int_or_zero(d, "incomplete".spec_bytes()),
                        warning: text_field(d, "warning message".spec_bytes()),
                    },
                ),
            },
        },
        _ => Err(TrackerFault::InvalidResponse("Response is not a dictionary"@)),
    }
}

/// The scrape response that a decoded body holds for the torrent with
/// `info_hash`: the dictionary `files` must hold, under the raw hash, a
/// dictionary with the three integer counts.
pub open spec fn scrape_response_of(root: BencodeModel, info_hash: Seq<u8>) -> Result<
    ScrapeResponseModel,
    TrackerFault,
> {
    match root {
        BencodeModel::Dict(d) => match dict_field(d, "files".spec_bytes()) {
            None => Err(TrackerFault::InvalidResponse("Missing 'files' in scrape response"@)),
            Some(files) => match dict_field(files, info_hash) {
                None => Err(
                    TrackerFault::InvalidResponse("Torrent not found in scrape response"@),
                ),
                Some(stats) => if int_field(stats, "complete".spec_bytes()) is None {
                    Err(TrackerFault::Bencode(missing_key_fault("complete"@)))
                } else if int_field(stats, "incomplete".spec_bytes()) is None {
                    Err(TrackerFault::Bencode(missing_key_fault("incomplete"@)))
                } else if int_field(stats, "downloaded".spec_bytes()) is None {
                    Err(TrackerFault::Bencode(missing_key_fault("downloaded"@)))
                } else {
                    Ok(
                        ScrapeResponseModel {
                            complete: int_field(stats, "complete".spec_bytes())->Some_0,
                            incomplete: int_field(stats, "incomplete".spec_bytes())->Some_0,
                            downloaded: int_field(stats, "downloaded".spec_bytes())->Some_0,
                            name: text_field(stats, "name".spec_bytes()),
                        },
                    )
                },
            },
        },
        _ => Err(TrackerFault::InvalidResponse("Response is not a dictionary"@)),
    }
}

/// What decoding made of a body, read as an announce response.
pub open spec fn announce_decoded(decoded: Result<BencodeModel, BencodeFault>) -> Result<
    AnnounceResponseModel,
    TrackerFault,
> {
    match decoded {
        Ok(root) => announce_response_of(root),
        Err(f) => Err(TrackerFault::Bencode(f)),
    }
}

/// What decoding made of a body, read as a scrape response.
pub open spec fn scrape_decoded(
    decoded: Result<BencodeModel, BencodeFault>,
    info_hash: Seq<u8>,
) -> Result<ScrapeResponseModel, TrackerFault> {
    match decoded {
        Ok(root) => scrape_response_of(root, info_hash),
        Err(f) => Err(TrackerFault::Bencode(f)),
    }
}

/// What an HTTP answer to an announce amounts to. A body that gives a
/// `failure reason` is a tracker failure whatever the status; otherwise a
/// status that is no success is an HTTP error, and a success is read as
/// an announce response.
pub open spec fn announce_outcome_of(
    status: u16,
    decoded: Result<BencodeModel, BencodeFault>,
) -> Result<AnnounceResponseModel, TrackerFault> {
    match failure_reason(decoded) {
        Some(reason) => Err(TrackerFault::TrackerFailure(reason)),
        None => if is_success(status) {
            announce_decoded(decoded)
        } else {
            Err(TrackerFault::Http(status_text(status)))
        },
    }
}

/// What an HTTP answer to a scrape amounts to. A body that gives a
/// `failure reason`, and any status that is no success, is a tracker
/// failure; a success is read as a scrape response.
pub open spec fn scrape_outcome_of(
    status: u16,
    decoded: Result<BencodeModel, BencodeFault>,
    info_hash: Seq<u8>,
) -> Result<ScrapeResponseModel, TrackerFault> {
    match failure_reason(decoded) {
        Some(reason) => Err(TrackerFault::TrackerFailure(reason)),
        None => if is_success(status) {
            scrape_decoded(decoded, info_hash)
        } else {
            Err(TrackerFault::TrackerFailure(status_text(status)))
        },
    }
}

/// The outcome of reading an announce response, as models.
pub open spec fn announce_result(r: Result<AnnounceResponse, TrackerError>) -> Result<
    AnnounceResponseModel,
    TrackerFault,
> {
    match r {
        Ok(a) => Ok(a@),
        Err(e) => Err(e@),
    }
}

/// The outcome of reading a scrape response, as models.
pub open spec fn scrape_result(r: Result<ScrapeResponse, TrackerError>) -> Result<
    ScrapeResponseModel,
    TrackerFault,
> {
    match r {
        Ok(a) => Ok(a@),
        Err(e) => Err(e@),
    }
}

fn invalid_response(text: &str) -> (r: TrackerError)
    ensures
        r@ == TrackerFault::InvalidResponse(text@),
{
    TrackerError::InvalidResponse(String::from_str(text))
}

fn status_message(status: u16) -> (r: String)
    ensures
        r@ == status_text(status),
{
    let mut m = String::from_str("HTTP status ");
    append_decimal(&mut m, status as u64);
    m
}

/// Turns an announce URL towards scrape.
pub fn to_scrape_base(tracker_url: &str) -> (r: String)
    ensures
        r@ == scrape_base(tracker_url@),
{
    let chars = to_chars(tracker_url);
    let q = find_char(chars.as_slice(), '?');
    let tail = to_chars("/announce");
    if prefix_ends_with(chars.as_slice(), q, tail.as_slice()) {
        let mut out = String::new();
        append_chars(&mut out, slice_subrange(chars.as_slice(), 0, q - tail.len()));
        out.append("/scrape");
        append_chars(&mut out, slice_subrange(chars.as_slice(), q, chars.len()));
        proof {
            let path = tracker_url@.subrange(0, q as int);
            assert(path.subrange(0, path.len() - "/announce"@.len()) =~= tracker_url@.subrange(
                0,
                q - tail@.len(),
            ));
            assert(out@ =~= scrape_base(tracker_url@));
        }
        out
    } else {
        String::from_str(tracker_url)
    }
}

/// The scrape URL for the torrent with `info_hash` at the scrape
/// endpoint `endpoint`.
pub fn scrape_url_at(endpoint: &str, info_hash: &[u8; 20]) -> (r: String)
    ensures
        r@ == scrape_url(endpoint@, info_hash@),
{
    let base = to_chars(endpoint);
    let mut url = String::from_str(endpoint);
    if find_char(base.as_slice(), '?') < base.len() {
        url.append("&");
    } else {
        url.append("?");
    }
    proof {
        reveal_strlit("&");
        reveal_strlit("?");
        assert(url@ =~= endpoint@.push(separator(endpoint@)));
    }
    url.append("info_hash=");
    append_percent_encoded(&mut url, info_hash.as_slice());
    url
}

/// Reads the announce response that the decoded body `root` holds.
pub fn announce_response_from(root: &BencodeValue) -> (r: Result<AnnounceResponse, TrackerError>)
    ensures
        announce_result(r) == announce_response_of(root@),
{
    let dict = match root {
        BencodeValue::Dict(d) => d,
        _ => {
            return Err(invalid_response("Response is not a dictionary"));
        },
    };
    if let Some(reason) = find_text(dict, "failure reason") {
        return Err(TrackerError::TrackerFailure(reason));
    }
    let interval = match get_int(dict, "interval") {
        Ok(i) => i,
        Err(e) => {
            return Err(TrackerError::BencodeError(e));
        },
    };
    let complete = match find_int(dict, "complete") {
        Some(i) => i,
        None => 0,
    };
    let incomplete = match find_int(dict, "incomplete") {
        Some(i) => i,
        None => 0,
    };
    let min_interval = find_int(dict, "min interval");
    let tracker_id = find_text(dict, "tracker id");
    let warning = find_text(dict, "warning message");
    Ok(AnnounceResponse { interval, min_interval, tracker_id, complete, incomplete, warning })
}

/// Reads the scrape response that the decoded body `root` holds for the
/// torrent with `info_hash`.
pub fn scrape_response_from(root: &BencodeValue, info_hash: &[u8; 20]) -> (r: Result<
    ScrapeResponse,
    TrackerError,
>)
    ensures
        scrape_result(r) == scrape_response_of(root@, info_hash@),
{
    let dict = match root {
        BencodeValue::Dict(d) => d,
        _ => {
            return Err(invalid_response("Response is not a dictionary"));
        },
    };
    let files = match find_dict(dict, "files".as_bytes()) {
        Some(f) => f,
        None => {
            return Err(invalid_response("Missing 'files' in scrape response"));
        },
    };
    let stats = match find_dict(files, info_hash.as_slice()) {
        Some(s) => s,
        None => {
            return Err(invalid_response("Torrent not found in scrape response"));
        },
    };
    let complete = match get_int(stats, "complete") {
        Ok(i) => i,
        Err(e) => {
            return Err(TrackerError::BencodeError(e));
        },
    };
    let incomplete = match get_int(stats, "incomplete") {
        Ok(i) => i,
        Err(e) => {
            return Err(TrackerError::BencodeError(e));
        },
    };
    let downloaded = match get_int(stats, "downloaded") {
        Ok(i) => i,
        Err(e) => {
            return Err(TrackerError::BencodeError(e));
        },
    };
    let name = find_text(stats, "name");
    Ok(ScrapeResponse { complete, incomplete, downloaded, name })
}

impl TrackerClient {
    /// The URL of a scrape for the torrent with `info_hash`, derived from
    /// the announce URL `tracker_url`; a URL that does not parse is a
    /// `UrlError`.
    pub fn build_scrape_url(&self, tracker_url: &str, info_hash: &[u8; 20]) -> (r: Result<
        String,
        TrackerError,
    >)
        ensures
            match url_normal_form(scrape_base(tracker_url@)) {
                Ok(endpoint) => r is Ok && r->Ok_0@ == scrape_url(endpoint, info_hash@),
                Err(m) => r is Err && r->Err_0@ == TrackerFault::Url(m),
            },
    {
        let base = to_scrape_base(tracker_url);
        match normalize_url(base.as_str()) {
            Ok(endpoint) => Ok(scrape_url_at(endpoint.as_str(), info_hash)),
            Err(m) => Err(TrackerError::UrlError(m)),
        }
    }

    /// Decodes the body of an announce response.
    pub fn parse_announce_response(&self, data: &[u8]) -> (r: Result<
        AnnounceResponse,
        TrackerError,
    >)
        ensures
            announce_result(r) == announce_decoded(decoded_root(data@)),
    {
        match parse(data) {
            Ok(root) => announce_response_from(&root),
            Err(e) => Err(TrackerError::BencodeError(e)),
        }
    }

    /// Decodes the body of a scrape response for the torrent with
    /// `info_hash`.
    pub fn parse_scrape_response(&self, data: &[u8], info_hash: &[u8; 20]) -> (r: Result<
        ScrapeResponse,
        TrackerError,
    >)
        ensures
            scrape_result(r) == scrape_decoded(decoded_root(data@), info_hash@),
    {
        match parse(data) {
            Ok(root) => scrape_response_from(&root, info_hash),
            Err(e) => Err(TrackerError::BencodeError(e)),
        }
    }

    /// What the HTTP answer with `status` and `body` to an announce
    /// amounts to.
    pub fn announce_outcome(&self, status: u16, body: &[u8]) -> (r: Result<
        AnnounceResponse,
        TrackerError,
    >)
        ensures
            announce_result(r) == announce_outcome_of(status, decoded_root(body@)),
    {
        let decoded = parse(body);
        announce_outcome_from(status, decoded)
    }

    /// What the HTTP answer with `status` and `body` to a scrape for the
    /// torrent with `info_hash` amounts to.
    pub fn scrape_outcome(&self, status: u16, body: &[u8], info_hash: &[u8; 20]) -> (r: Result<
        ScrapeResponse,
        TrackerError,
    >)
        ensures
            scrape_result(r) == scrape_outcome_of(status, decoded_root(body@), info_hash@),
    {
        let decoded = parse(body);
        scrape_outcome_from(status, decoded, info_hash)
    }
}

/// What an HTTP answer to an announce amounts to, given its status and
/// what decoding made of its body.
pub fn announce_outcome_from(status: u16, decoded: Result<BencodeValue, BencodeError>) -> (r:
    Result<AnnounceResponse, TrackerError>)
    ensures
        announce_result(r) == announce_outcome_of(status, value_result(decoded)),
{
    let success = 200 <= status && status < 300;
    match decoded {
        Ok(root) => {
            let refused = match &root {
                BencodeValue::Dict(d) => find_text(d, "failure reason"),
                _ => None,
            };
            match refused {
                Some(reason) => Err(TrackerError::TrackerFailure(reason)),
                None => if success {
                    announce_response_from(&root)
                } else {
                    Err(TrackerError::HttpError(status_message(status)))
                },
            }
        },
        Err(e) => if success {
            Err(TrackerError::BencodeError(e))
        } else {
            Err(TrackerError::HttpError(status_message(status)))
        },
    }
}

/// What an HTTP answer to a scrape amounts to, given its status and what
/// decoding made of its body.
pub fn scrape_outcome_from(
    status: u16,
    decoded: Result<BencodeValue, BencodeError>,
    info_hash: &[u8; 20],
) -> (r: Result<ScrapeResponse, TrackerError>)
    ensures
        scrape_result(r) == scrape_outcome_of(status, value_result(decoded), info_hash@),
{
    let success = 200 <= status && status < 300;
    match decoded {
        Ok(root) => {
            let refused = match &root {
                BencodeValue::Dict(d) => find_text(d, "failure reason"),
                _ => None,
            };
            match refused {
                Some(reason) => Err(TrackerError::TrackerFailure(reason)),
                None => if success {
                    scrape_response_from(&root, info_hash)
                } else {
                    Err(TrackerError::TrackerFailure(status_message(status)))
                },
            }
        },
        Err(e) => if success {
            Err(TrackerError::BencodeError(e))
        } else {
            Err(TrackerError::TrackerFailure(status_message(status)))
        },
    }
}

} // verus!
