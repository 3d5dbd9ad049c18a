//! The fingerprints of the clients that a session can present to a tracker.

use crate::random::draw_many;
use crate::text::{
    append_chars, hex_char, pad_to_width, padded, push_char, remove_char, split, split_text,
    to_chars, without_char,
};
use vstd::prelude::*;
use vstd::string::*;

verus! {

/// The clients that can be imitated.
#[derive(Clone, Copy, Debug, PartialEq, Eq, Structural)]
pub enum ClientType {
    UTorrent,
    QBittorrent,
    Transmission,
    Deluge,
}

/// The HTTP version that a client speaks.
#[derive(Clone, Copy, Debug, PartialEq, Eq, Structural)]
pub enum HttpVersion {
    Http10,
    Http11,
}

/// What a tracker can observe of a client, apart from the session's own
/// peer id and key.
#[derive(Debug, Clone)]
pub struct ClientConfig {
    pub client_type: ClientType,
    /// The version as it was given, with its dots.
    pub version: String,
    /// The first eight characters of every peer id of this client.
    pub peer_id_prefix: String,
    pub user_agent: String,
    pub http_version: HttpVersion,
    /// The number of peers that the client asks for by default.
    pub num_want: u32,
    pub supports_compact: bool,
    pub supports_crypto: bool,
}

/// The content of a [`ClientConfig`].
pub struct ClientModel {
    pub client_type: ClientType,
    pub version: Seq<char>,
    pub peer_id_prefix: Seq<char>,
    pub user_agent: Seq<char>,
    pub http_version: HttpVersion,
    pub num_want: nat,
    pub supports_compact: bool,
    pub supports_crypto: bool,
}

impl View for ClientConfig {
    type V = ClientModel;

    open spec fn view(&self) -> ClientModel {
        ClientModel {
            client_type: self.client_type,
            version: self.version@,
            peer_id_prefix: self.peer_id_prefix@,
            user_agent: self.user_agent@,
            http_version: self.http_version,
            num_want: self.num_want as nat,
            supports_compact: self.supports_compact,
            supports_crypto: self.supports_crypto,
        }
    }
}

/// The version that stands for a client where none is given.
pub open spec fn default_version(t: ClientType) -> Seq<char> {
    match t {
        ClientType::UTorrent => "3.5.5"@,
        ClientType::QBittorrent => "5.1.4"@,
        ClientType::Transmission => "4.0.5"@,
        ClientType::Deluge => "2.1.1"@,
    }
}

/// The three characters that open a client's peer ids.
pub open spec fn client_tag(t: ClientType) -> Seq<char> {
    match t {
        ClientType::UTorrent => "-UT"@,
        ClientType::QBittorrent => "-qB"@,
        ClientType::Transmission => "-TR"@,
        ClientType::Deluge => "-DE"@,
    }
}

/// The name that opens a client's user agent.
pub open spec fn client_name(t: ClientType) -> Seq<char> {
    match t {
        ClientType::UTorrent => "uTorrent"@,
        ClientType::QBittorrent => "qBittorrent"@,
        ClientType::Transmission => "Transmission"@,
        ClientType::Deluge => "Deluge"@,
    }
}

/// The first three pieces of a dotted version, joined.
pub open spec fn joined_triple(parts: Seq<Seq<char>>) -> Seq<char> {
    parts[0] + parts[1] + parts[2]
}

/// The digits that a version puts into the peer id, before they are
/// brought to four characters. uTorrent drops the dots. The others join
/// major, minor and patch where the version has three pieces or more;
/// Transmission with two pieces joins the major and the minor filled up
/// to two characters; a version with fewer pieces gives the digits of the
/// client's `x.y.0` default.
pub open spec fn version_code(t: ClientType, version: Seq<char>) -> Seq<char> {
    let parts = split_text(version, '.');
    match t {
        ClientType::UTorrent => without_char(version, '.'),
        ClientType::QBittorrent => if parts.len() >= 3 {
            joined_triple(parts)
        } else {
            "514"@
        },
        ClientType::Transmission => if parts.len() >= 3 {
            joined_triple(parts)
        } else if parts.len() == 2 {
            parts[0] + padded(parts[1], 2, '0')
        } else {
            "400"@
        },
        ClientType::Deluge => if parts.len() >= 3 {
            joined_triple(parts)
        } else {
            "211"@
        },
    }
}

/// The peer-id prefix of a client in a version: the tag, the version's
/// digits cut down or filled up with `0` to four characters, and a dash.
pub open spec fn peer_id_prefix_of(t: ClientType, version: Seq<char>) -> Seq<char> {
    client_tag(t) + padded(version_code(t, version), 4, '0') + seq!['-']
}

/// The user agent of a client in a version: the name, a slash and the
/// version, which uTorrent writes without its dots.
pub open spec fn user_agent_of(t: ClientType, version: Seq<char>) -> Seq<char> {
    client_name(t) + seq!['/'] + match t {
        ClientType::UTorrent => without_char(version, '.'),
        _ => version,
    }
}

/// The number of peers that a client asks for by default.
pub open spec fn default_num_want(t: ClientType) -> nat {
    match t {
        ClientType::Transmission => 80,
        _ => 200,
    }
}

/// The fingerprint of a client in a version, or in its default version.
pub open spec fn fingerprint(t: ClientType, version: Option<Seq<char>>) -> ClientModel {
    let v = match version {
        Some(v) => v,
        None => default_version(t),
    };
    ClientModel {
        client_type: t,
        version: v,
        peer_id_prefix: peer_id_prefix_of(t, v),
        user_agent: user_agent_of(t, v),
        http_version: HttpVersion::Http11,
        num_want: default_num_want(t),
        supports_compact: true,
        supports_crypto: true,
    }
}

/// A peer-id prefix has exactly eight characters.
pub proof fn lemma_prefix_length(t: ClientType, version: Seq<char>)
    ensures
        peer_id_prefix_of(t, version).len() == 8,
{
    reveal_strlit("-UT");
    reveal_strlit("-qB");
    reveal_strlit("-TR");
    reveal_strlit("-DE");
}

fn joined(parts: &Vec<Vec<char>>) -> (r: Vec<char>)
    requires
        parts@.len() >= 3,
    ensures
        r@ == joined_triple(parts.deep_view()),
{
    let mut out: Vec<char> = Vec::new();
    let mut k: usize = 0;
    while k < 3
        invariant
            k <= 3,
            parts@.len() >= 3,
            out@ == if k == 0 {
                Seq::<char>::empty()
            } else if k == 1 {
                parts@[0]@
            } else if k == 2 {
                parts@[0]@ + parts@[1]@
            } else {
                parts@[0]@ + parts@[1]@ + parts@[2]@
            },
        decreases 3 - k,
    {
        let piece = &parts[k];
        let mut j: usize = 0;
        let ghost before = out@;
        assert(out@ =~= before + piece@.subrange(0, 0));
        while j < piece.len()
            invariant
                j <= piece.len(),
                out@ == before + piece@.subrange(0, j as int),
            decreases piece.len() - j,
        {
            out.push(piece[j]);
            assert(out@ =~= before + piece@.subrange(0, j + 1));
            j += 1;
        }
        assert(piece@.subrange(0, j as int) =~= piece@);
        assert(Seq::<char>::empty() + piece@ =~= piece@);
        k += 1;
    }
    proof {
        let d = parts.deep_view();
        assert(d[0] =~= parts@[0]@);
        assert(d[1] =~= parts@[1]@);
        assert(d[2] =~= parts@[2]@);
    }
    out
}

fn assemble(
    client_type: ClientType,
    version: String,
    tag: &str,
    code: &Vec<char>,
    name: &str,
    shown: &Vec<char>,
    num_want: u32,
) -> (r: ClientConfig)
    ensures
        r@ == (ClientModel {
            client_type,
            version: version@,
            peer_id_prefix: tag@ + padded(code@, 4, '0') + seq!['-'],
            user_agent: name@ + seq!['/'] + shown@,
            http_version: HttpVersion::Http11,
            num_want: num_want as nat,
            supports_compact: true,
            supports_crypto: true,
        }),
{
    let digits = pad_to_width(code.as_slice(), 4, '0');
    let mut peer_id_prefix = String::from_str(tag);
    append_chars(&mut peer_id_prefix, digits.as_slice());
    push_char(&mut peer_id_prefix, '-');
    let mut user_agent = String::from_str(name);
    push_char(&mut user_agent, '/');
    append_chars(&mut user_agent, shown.as_slice());
    proof {
        assert(peer_id_prefix@ =~= tag@ + padded(code@, 4, '0') + seq!['-']);
        assert(user_agent@ =~= name@ + seq!['/'] + shown@);
    }
    ClientConfig {
        client_type,
        version,
        peer_id_prefix,
        user_agent,
        http_version: HttpVersion::Http11,
        num_want,
        supports_compact: true,
        supports_crypto: true,
    }
}

fn given_or(version: Option<String>, default: &str) -> (r: String)
    ensures
        r@ == match version {
            Some(v) => v@,
            None => default@,
        },
{
    match version {
        Some(v) => v,
        None => String::from_str(default),
    }
}

impl ClientConfig {
    /// The fingerprint of `client_type` in `version`, or in the client's
    /// default version where none is given.
    pub fn get(client_type: ClientType, version: Option<String>) -> (r: ClientConfig)
        ensures
            r@ == fingerprint(client_type, version.deep_view()),
            r.peer_id_prefix@.len() == 8,
    {
        proof {
            let v = match version.deep_view() {
                Some(v) => v,
                None => default_version(client_type),
            };
            lemma_prefix_length(client_type, v);
        }
        match client_type {
            ClientType::UTorrent => ClientConfig::utorrent(version),
            ClientType::QBittorrent => ClientConfig::qbittorrent(version),
            ClientType::Transmission => ClientConfig::transmission(version),
            ClientType::Deluge => ClientConfig::deluge(version),
        }
    }

    fn utorrent(version: Option<String>) -> (r: ClientConfig)
        ensures
            r@ == fingerprint(ClientType::UTorrent, version.deep_view()),
    {
        let version = given_or(version, "3.5.5");
        let chars = to_chars(version.as_str());
        let code = remove_char(chars.as_slice(), '.');
        assemble(ClientType::UTorrent, version, "-UT", &code, "uTorrent", &code, 200)
    }

    fn qbittorrent(version: Option<String>) -> (r: ClientConfig)
        ensures
            r@ == fingerprint(ClientType::QBittorrent, version.deep_view()),
    {
        let version = given_or(version, "5.1.4");
        let chars = to_chars(version.as_str());
        let parts = split(chars.as_slice(), '.');
        let code = if parts.len() >= 3 {
            joined(&parts)
        } else {
            to_chars("514")
        };
        assemble(ClientType::QBittorrent, version, "-qB", &code, "qBittorrent", &chars, 200)
    }

    fn transmission(version: Option<String>) -> (r: ClientConfig)
        ensures
            r@ == fingerprint(ClientType::Transmission, version.deep_view()),
    {
        let version = given_or(version, "4.0.5");
        let chars = to_chars(version.as_str());
        let parts = split(chars.as_slice(), '.');
        let code = if parts.len() >= 3 {
            joined(&parts)
        } else if parts.len() == 2 {
            let mut code = parts[0].clone();
            let minor = pad_to_width(parts[1].as_slice(), 2, '0');
            let ghost major = code@;
            let mut j: usize = 0;
            assert(code@ =~= major + minor@.subrange(0, 0));
            while j < minor.len()
                invariant
                    j <= minor.len(),
                    code@ == major + minor@.subrange(0, j as int),
                decreases minor.len() - j,
            {
                code.push(minor[j]);
                assert(code@ =~= major + minor@.subrange(0, j + 1));
                j += 1;
            }
            proof {
                assert(minor@.subrange(0, j as int) =~= minor@);
                let d = parts.deep_view();
                assert(d[0] =~= parts@[0]@);
                assert(d[1] =~= parts@[1]@);
            }
            code
        } else {
            to_chars("400")
        };
        assemble(ClientType::Transmission, version, "-TR", &code, "Transmission", &chars, 80)
    }

    fn deluge(version: Option<String>) -> (r: ClientConfig)
        ensures
            r@ == fingerprint(ClientType::Deluge, version.deep_view()),
    {
        let version = given_or(version, "2.1.1");
        let chars = to_chars(version.as_str());
        let parts = split(chars.as_slice(), '.');
        let code = if parts.len() >= 3 {
            joined(&parts)
        } else {
            to_chars("211")
        };
        assemble(ClientType::Deluge, version, "-DE", &code, "Deluge", &chars, 200)
    }
}

/// The character that a number below 62 picks out of `0-9A-Za-z`.
pub open spec fn alnum_char(i: int) -> char {
    if i < 10 {
        (48 + i) as char
    } else if i < 36 {
        (55 + i) as char
    } else {
        (61 + i) as char
    }
}

/// Whether `c` is one of `0-9A-Za-z`.
pub open spec fn is_alnum(c: char) -> bool {
    48 <= c as int <= 57 || 65 <= c as int <= 90 || 97 <= c as int <= 122
}

/// Whether `c` is one of `0-9A-F`.
pub open spec fn is_upper_hex(c: char) -> bool {
    48 <= c as int <= 57 || 65 <= c as int <= 70
}

/// The peer id that the numbers `picks` give after `prefix`: one
/// character of `0-9A-Za-z` for each.
pub open spec fn peer_id_text(prefix: Seq<char>, picks: Seq<u64>) -> Seq<char> {
    prefix + Seq::new(picks.len(), |i: int| alnum_char(picks[i] as int % 62))
}

/// The key that the numbers `picks` give: one upper-case hexadecimal
/// digit for each.
pub open spec fn key_text(picks: Seq<u64>) -> Seq<char> {
    Seq::new(picks.len(), |i: int| hex_char(picks[i] as int % 16, true))
}

/// Writes the peer id that `picks` give after `prefix`.
pub fn peer_id_from(prefix: &str, picks: &[u64]) -> (r: String)
    ensures
        r@ == peer_id_text(prefix@, picks@),
        r@.len() == prefix@.len() + picks@.len(),
        forall|i: int| prefix@.len() <= i < r@.len() ==> is_alnum(#[trigger] r@[i]),
{
    let mut id = String::from_str(prefix);
    let mut i: usize = 0;
    while i < picks.len()
        invariant
            i <= picks.len(),
            id@.len() == prefix@.len() + i,
            id@.subrange(0, prefix@.len() as int) == prefix@,
            forall|k: int|
                0 <= k < i ==> #[trigger] id@[prefix@.len() + k] == alnum_char(
                    picks@[k] as int % 62,
                ),
        decreases picks.len() - i,
    {
        let p: u8 = (picks[i] % 62) as u8;
        let c = if p < 10 {
            (48 + p) as char
        } else if p < 36 {
            (55 + p) as char
        } else {
            (61 + p) as char
        };
        let ghost before = id@;
        push_char(&mut id, c);
        proof {
            assert(id@.subrange(0, prefix@.len() as int) =~= before.subrange(
                0,
                prefix@.len() as int,
            ));
            assert forall|k: int| 0 <= k < i + 1 implies #[trigger] id@[prefix@.len() + k]
                == alnum_char(picks@[k] as int % 62) by {
                if k < i {
                    assert(id@[prefix@.len() + k] == before[prefix@.len() + k]);
                }
            }
        }
        i += 1;
    }
    proof {
        assert(id@ =~= peer_id_text(prefix@, picks@)) by {
            assert forall|j: int| 0 <= j < id@.len() implies id@[j] == peer_id_text(
                prefix@,
                picks@,
            )[j] by {
                if j < prefix@.len() {
                    assert(id@.subrange(0, prefix@.len() as int)[j] == id@[j]);
                } else {
                    let k = j - prefix@.len();
                    assert(id@[prefix@.len() + k] == alnum_char(picks@[k] as int % 62));
                }
            }
        }
        assert forall|j: int| prefix@.len() <= j < id@.len() implies is_alnum(
            #[trigger] id@[j],
        ) by {
            let k = j - prefix@.len();
            assert(id@[prefix@.len() + k] == alnum_char(picks@[k] as int % 62));
        }
    }
    id
}

/// Writes the key that `picks` give.
pub fn key_from(picks: &[u64]) -> (r: String)
    ensures
        r@ == key_text(picks@),
        r@.len() == picks@.len(),
        forall|i: int| 0 <= i < r@.len() ==> is_upper_hex(#[trigger] r@[i]),
{
    let mut key = String::new();
    let mut i: usize = 0;
    while i < picks.len()
        invariant
            i <= picks.len(),
            key@.len() == i,
            forall|k: int| 0 <= k < i ==> #[trigger] key@[k] == hex_char(
                picks@[k] as int % 16,
                true,
            ),
        decreases picks.len() - i,
    {
        let d: u8 = (picks[i] % 16) as u8;
        let c = if d < 10 {
            (48 + d) as char
        } else {
            (55 + d) as char
        };
        push_char(&mut key, c);
        i += 1;
    }
    assert(key@ =~= key_text(picks@));
    key
}

impl ClientConfig {
    /// A fresh peer id: the prefix and twelve characters drawn from
    /// `0-9A-Za-z`.
    pub fn generate_peer_id(&self) -> (r: String)
        ensures
            r@.len() == self.peer_id_prefix@.len() + 12,
            r@.subrange(0, self.peer_id_prefix@.len() as int) == self.peer_id_prefix@,
            forall|i: int| self.peer_id_prefix@.len() <= i < r@.len() ==> is_alnum(#[trigger] r@[i]),
    {
        let picks = draw_many(12, 62);
        let id = peer_id_from(self.peer_id_prefix.as_str(), picks.as_slice());
        assert(id@.subrange(0, self.peer_id_prefix@.len() as int) =~= self.peer_id_prefix@);
        id
    }

    /// A fresh key: eight upper-case hexadecimal digits.
    pub fn generate_key() -> (r: String)
        ensures
            r@.len() == 8,
            forall|i: int| 0 <= i < 8 ==> is_upper_hex(#[trigger] r@[i]),
    {
        let picks = draw_many(8, 16);
        key_from(picks.as_slice())
    }
}

} // verus!
