use rustatio::protocol::bencode::{parse, BencodeError};
use rustatio::protocol::tracker::{
    announce_outcome_from, announce_response_from, scrape_outcome_from, scrape_response_from,
    scrape_url_at, to_scrape_base, AnnounceRequest, TrackerClient, TrackerError, TrackerEvent,
};
use rustatio::torrent::client::{ClientConfig, ClientType};

fn client() -> TrackerClient {
    TrackerClient::new(ClientConfig::get(ClientType::QBittorrent, None))
}

fn hash() -> [u8; 20] {
    let mut h = [0u8; 20];
    for (i, b) in h.iter_mut().enumerate() {
        *b = (i as u8) * 13 + 1;
    }
    h
}

fn encoded_hash() -> String {
    hash().iter().map(|b| format!("%{:02X}", b)).collect()
}

fn request(event: TrackerEvent) -> AnnounceRequest {
    AnnounceRequest {
        info_hash: hash(),
        peer_id: "-qB5140-abcdefghijkl".to_string(),
        port: 6881,
        uploaded: 1234,
        downloaded: 0,
        left: 18446744073709551615,
        compact: true,
        no_peer_id: false,
        event,
        ip: None,
        numwant: Some(50),
        key: Some("ABCDEF01".to_string()),
        tracker_id: None,
    }
}

#[test]
fn event_names() {
    assert_eq!(TrackerEvent::Started.as_str(), Some("started"));
    assert_eq!(TrackerEvent::Stopped.as_str(), Some("stopped"));
    assert_eq!(TrackerEvent::Completed.as_str(), Some("completed"));
    assert_eq!(TrackerEvent::Periodic.as_str(), None);
}

#[test]
fn announce_url_has_the_parameters_in_order() {
    let url = client()
        .build_announce_url("http://t.example/announce", &request(TrackerEvent::Started))
        .unwrap();
    assert_eq!(
        url,
        format!(
            "http://t.example/announce?info_hash={}&peer_id=-qB5140-abcdefghijkl&port=6881&uploaded=1234&downloaded=0&left=18446744073709551615&compact=1&event=started&numwant=50&key=ABCDEF01&supportcrypto=1",
            encoded_hash()
        )
    );
}

#[test]
fn periodic_announce_names_no_event() {
    let url = client()
        .build_announce_url("http://t.example/announce", &request(TrackerEvent::Periodic))
        .unwrap();
    assert!(!url.contains("event="));
    assert!(url.contains("&compact=1&numwant=50"));
}

#[test]
fn announce_url_joins_with_ampersand_after_a_query() {
    let url = client()
        .build_announce_url("http://t.example/announce?passkey=x", &request(TrackerEvent::Stopped))
        .unwrap();
    assert!(url.starts_with("http://t.example/announce?passkey=x&info_hash=%01%0E"));
    assert!(url.contains("&event=stopped&"));
}

#[test]
fn announce_url_carries_every_optional_parameter() {
    let mut req = request(TrackerEvent::Completed);
    req.compact = false;
    req.no_peer_id = true;
    req.ip = Some("10.0.0.1".to_string());
    req.numwant = None;
    req.key = None;
    req.tracker_id = Some("tid".to_string());
    let mut config = ClientConfig::get(ClientType::Deluge, None);
    config.supports_crypto = false;
    let url = TrackerClient::new(config).build_announce_url("u", &req).unwrap();
    assert_eq!(
        url,
        format!(
            "u?info_hash={}&peer_id=-qB5140-abcdefghijkl&port=6881&uploaded=1234&downloaded=0&left=18446744073709551615&compact=0&no_peer_id=1&event=completed&ip=10.0.0.1&trackerid=tid",
            encoded_hash()
        )
    );
}

#[test]
fn info_hash_is_percent_encoded_in_upper_case() {
    let mut req = request(TrackerEvent::Periodic);
    req.info_hash = [0xab; 20];
    let url = client().build_announce_url("u", &req).unwrap();
    assert!(url.starts_with(&format!("u?info_hash={}&peer_id=", "%AB".repeat(20))));
}

#[test]
fn scrape_base_replaces_the_final_announce_segment() {
    assert_eq!(to_scrape_base("http://t/announce"), "http://t/scrape");
    assert_eq!(to_scrape_base("http://t/x/announce?k=v"), "http://t/x/scrape?k=v");
    assert_eq!(to_scrape_base("http://t/announce/x"), "http://t/announce/x");
    assert_eq!(to_scrape_base("http://t/announce.php"), "http://t/announce.php");
    assert_eq!(to_scrape_base("http://t/a?x=/announce"), "http://t/a?x=/announce");
    assert_eq!(to_scrape_base("/announce"), "/scrape");
    assert_eq!(to_scrape_base(""), "");
}

#[test]
fn scrape_url_appends_the_info_hash() {
    assert_eq!(
        scrape_url_at("http://t/scrape", &hash()),
        format!("http://t/scrape?info_hash={}", encoded_hash())
    );
    assert_eq!(
        scrape_url_at("http://t/scrape?k=v", &hash()),
        format!("http://t/scrape?k=v&info_hash={}", encoded_hash())
    );
}

#[test]
fn build_scrape_url_goes_through_url_parsing() {
    let url = client().build_scrape_url("HTTP://Tracker.Example:80/announce", &hash()).unwrap();
    assert_eq!(url, format!("http://tracker.example/scrape?info_hash={}", encoded_hash()));
    match client().build_scrape_url("not a url", &hash()) {
        Err(TrackerError::UrlError(m)) => assert!(!m.is_empty()),
        _ => panic!("expected a URL error"),
    }
}

#[test]
fn announce_response_is_decoded() {
    let body = b"d8:completei5e10:incompletei3e8:intervali1800e12:min intervali60e10:tracker id3:abc15:warning message4:caree";
    let r = client().parse_announce_response(body).unwrap();
    assert_eq!(r.interval, 1800);
    assert_eq!(r.min_interval, Some(60));
    assert_eq!(r.tracker_id.as_deref(), Some("abc"));
    assert_eq!(r.complete, 5);
    assert_eq!(r.incomplete, 3);
    assert_eq!(r.warning.as_deref(), Some("care"));
}

#[test]
fn announce_response_defaults_the_counts() {
    let r = client().parse_announce_response(b"d8:intervali60e5:peers0:e").unwrap();
    assert_eq!(r.interval, 60);
    assert_eq!(r.complete, 0);
    assert_eq!(r.incomplete, 0);
    assert_eq!(r.min_interval, None);
    assert!(r.tracker_id.is_none());
    assert!(r.warning.is_none());
}

#[test]
fn announce_response_failures() {
    match client().parse_announce_response(b"d14:failure reason9:not founde") {
        Err(TrackerError::TrackerFailure(m)) => assert_eq!(m, "not found"),
        _ => panic!("expected a tracker failure"),
    }
    match client().parse_announce_response(b"li1ee") {
        Err(TrackerError::InvalidResponse(m)) => assert_eq!(m, "Response is not a dictionary"),
        _ => panic!("expected an invalid response"),
    }
    match client().parse_announce_response(b"d8:completei1ee") {
        Err(TrackerError::BencodeError(BencodeError::InvalidStructure(m))) => {
            assert_eq!(m, "Missing or invalid key: interval")
        }
        _ => panic!("expected a missing key"),
    }
    assert!(matches!(
        client().parse_announce_response(b"<html>"),
        Err(TrackerError::BencodeError(BencodeError::ParseError(_)))
    ));
}

#[test]
fn announce_outcome_depends_on_status_and_body() {
    let ok = b"d8:intervali60ee";
    assert_eq!(client().announce_outcome(200, ok).unwrap().interval, 60);
    assert_eq!(client().announce_outcome(299, ok).unwrap().interval, 60);
    match client().announce_outcome(404, ok) {
        Err(TrackerError::HttpError(m)) => assert_eq!(m, "HTTP status 404"),
        _ => panic!("expected an HTTP error"),
    }
    match client().announce_outcome(199, b"garbage") {
        Err(TrackerError::HttpError(m)) => assert_eq!(m, "HTTP status 199"),
        _ => panic!("expected an HTTP error"),
    }
    match client().announce_outcome(300, ok) {
        Err(TrackerError::HttpError(m)) => assert_eq!(m, "HTTP status 300"),
        _ => panic!("expected an HTTP error"),
    }
    let refused = b"d14:failure reason6:bannede";
    for status in [200u16, 400, 500] {
        match client().announce_outcome(status, refused) {
            Err(TrackerError::TrackerFailure(m)) => assert_eq!(m, "banned"),
            _ => panic!("expected a tracker failure"),
        }
    }
    assert!(matches!(
        client().announce_outcome(200, b"garbage"),
        Err(TrackerError::BencodeError(BencodeError::ParseError(_)))
    ));
    assert!(matches!(
        announce_outcome_from(200, parse(b"i1e")),
        Err(TrackerError::InvalidResponse(_))
    ));
}

fn scrape_body() -> Vec<u8> {
    let mut body = b"d5:filesd20:".to_vec();
    body.extend_from_slice(&hash());
    body.extend_from_slice(b"d8:completei7e10:downloadedi99e10:incompletei2e4:name1:nee5:flagsdee");
    body
}

#[test]
fn scrape_response_is_decoded() {
    let r = client().parse_scrape_response(&scrape_body(), &hash()).unwrap();
    assert_eq!(r.complete, 7);
    assert_eq!(r.incomplete, 2);
    assert_eq!(r.downloaded, 99);
    assert_eq!(r.name.as_deref(), Some("n"));
    let root = parse(&scrape_body()).unwrap();
    assert_eq!(scrape_response_from(&root, &hash()).unwrap().complete, 7);
}

#[test]
fn scrape_response_failures() {
    match client().parse_scrape_response(&scrape_body(), &[9u8; 20]) {
        Err(TrackerError::InvalidResponse(m)) => {
            assert_eq!(m, "Torrent not found in scrape response")
        }
        _ => panic!("expected an invalid response"),
    }
    match client().parse_scrape_response(b"de", &hash()) {
        Err(TrackerError::InvalidResponse(m)) => {
            assert_eq!(m, "Missing 'files' in scrape response")
        }
        _ => panic!("expected an invalid response"),
    }
    match client().parse_scrape_response(b"i1e", &hash()) {
        Err(TrackerError::InvalidResponse(m)) => assert_eq!(m, "Response is not a dictionary"),
        _ => panic!("expected an invalid response"),
    }
    let mut body = b"d5:filesd20:".to_vec();
    body.extend_from_slice(&hash());
    body.extend_from_slice(b"d8:completei7e10:incompletei2eeee");
    match client().parse_scrape_response(&body, &hash()) {
        Err(TrackerError::BencodeError(BencodeError::InvalidStructure(m))) => {
            assert_eq!(m, "Missing or invalid key: downloaded")
        }
        _ => panic!("expected a missing key"),
    }
}

#[test]
fn scrape_outcome_depends_on_status_and_body() {
    assert_eq!(client().scrape_outcome(200, &scrape_body(), &hash()).unwrap().downloaded, 99);
    match client().scrape_outcome(404, &scrape_body(), &hash()) {
        Err(TrackerError::TrackerFailure(m)) => assert_eq!(m, "HTTP status 404"),
        _ => panic!("expected a tracker failure"),
    }
    match client().scrape_outcome(200, b"d14:failure reason2:noe", &hash()) {
        Err(TrackerError::TrackerFailure(m)) => assert_eq!(m, "no"),
        _ => panic!("expected a tracker failure"),
    }
    assert!(matches!(
        scrape_outcome_from(200, parse(b"garbage"), &hash()),
        Err(TrackerError::BencodeError(_))
    ));
}

#[test]
fn tracker_error_messages_name_their_kind() {
    assert_eq!(TrackerError::HttpError("a".into()).message(), "HTTP error: a");
    assert_eq!(TrackerError::TrackerFailure("b".into()).message(), "Tracker returned error: b");
    assert_eq!(TrackerError::InvalidResponse("c".into()).message(), "Invalid response: c");
    assert_eq!(TrackerError::UrlError("d".into()).message(), "URL parse error: d");
    assert_eq!(
        TrackerError::BencodeError(BencodeError::ParseError("e".into())).message(),
        "Bencode error: Failed to parse bencode: e"
    );
    let root = parse(b"d8:intervali1ee").unwrap();
    assert_eq!(announce_response_from(&root).unwrap().interval, 1);
}
