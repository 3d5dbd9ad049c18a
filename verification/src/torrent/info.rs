//! Torrent metadata read from the bytes of a torrent file.

use crate::protocol::bencode::{
    bencode_fault_text, decoding, bytes_field, decoded_root, dict_field, find_dict,
    find_int, find_list, find_text, get_bytes, get_int, get_string, int_field, list_field,
    list_model, missing_key_fault, parse, parse_front, text_field, BencodeError, BencodeFault,
    BencodeModel, BencodeValue,
};
use crate::text::{hex_lower, hex_lower_text, lossy_text, utf8_lossy};
use sha1::Digest;
use vstd::prelude::*;
use vstd::slice::slice_subrange;
use vstd::string::*;

verus! {

/// Why a torrent could not be read.
#[derive(Debug)]
pub enum TorrentError {
    /// The bytes are not bencoded, or a required field is absent or of the
    /// wrong kind.
    BencodeError(BencodeError),
    /// The decoded value does not have the shape of a torrent.
    InvalidStructure(String),
}

/// The content of a [`TorrentError`].
pub enum TorrentFault {
    Bencode(BencodeFault),
    InvalidStructure(Seq<char>),
}

impl View for TorrentError {
    type V = TorrentFault;

    open spec fn view(&self) -> TorrentFault {
        match self {
            TorrentError::BencodeError(e) => TorrentFault::Bencode(e@),
            TorrentError::InvalidStructure(m) => TorrentFault::InvalidStructure(m@),
        }
    }
}

/// A fault as a line of text.
pub open spec fn torrent_fault_text(fault: TorrentFault) -> Seq<char> {
    match fault {
        TorrentFault::Bencode(f) => "Bencode error: "@ + bencode_fault_text(f),
        TorrentFault::InvalidStructure(m) => "Invalid torrent structure: "@ + m,
    }
}

impl TorrentError {
    /// The error as a line of text.
    pub fn message(&self) -> (r: String)
        ensures
            r@ == torrent_fault_text(self@),
    {
        match self {
            TorrentError::BencodeError(e) => {
                let mut r = String::from_str("Bencode error: ");
                r.append(e.message().as_str());
                r
            },
            TorrentError::InvalidStructure(m) => {
                let mut r = String::from_str("Invalid torrent structure: ");
                r.append(m.as_str());
                r
            },
        }
    }
}

/// One file of a torrent.
#[derive(Debug)]
pub struct TorrentFile {
    /// Path components, outermost directory first.
    pub path: Vec<String>,
    /// Length in bytes.
    pub length: u64,
}

/// The content of a [`TorrentFile`].
pub struct FileModel {
    pub path: Seq<Seq<char>>,
    pub length: nat,
}

impl View for TorrentFile {
    type V = FileModel;

    open spec fn view(&self) -> FileModel {
        FileModel { path: self.path.deep_view(), length: self.length as nat }
    }
}

/// The metadata of one torrent.
#[derive(Debug)]
pub struct TorrentInfo {
    /// SHA-1 of the bencoded `info` value as it stands in the file.
    pub info_hash: [u8; 20],
    /// Primary tracker URL.
    pub announce: String,
    /// Tiers of further tracker URLs.
    pub announce_list: Option<Vec<Vec<String>>>,
    pub name: String,
    /// Sum of the lengths of all files, in bytes.
    pub total_size: u64,
    pub piece_length: u64,
    pub num_pieces: usize,
    /// Seconds since the Unix epoch.
    pub creation_date: Option<i64>,
    pub comment: Option<String>,
    pub created_by: Option<String>,
    pub is_single_file: bool,
    pub files: Vec<TorrentFile>,
}

/// The content of a [`TorrentInfo`].
pub struct TorrentModel {
    pub info_hash: Seq<u8>,
    pub announce: Seq<char>,
    pub announce_list: Option<Seq<Seq<Seq<char>>>>,
    pub name: Seq<char>,
    pub total_size: nat,
    pub piece_length: nat,
    pub num_pieces: nat,
    pub creation_date: Option<int>,
    pub comment: Option<Seq<char>>,
    pub created_by: Option<Seq<char>>,
    pub is_single_file: bool,
    pub files: Seq<FileModel>,
}

/// The models of a list of files, in order.
pub open spec fn files_view(files: Seq<TorrentFile>) -> Seq<FileModel> {
    Seq::new(files.len(), |i: int| files[i]@)
}

impl View for TorrentInfo {
    type V = TorrentModel;

    open spec fn view(&self) -> TorrentModel {
        TorrentModel {
            info_hash: self.info_hash@,
            announce: self.announce@,
            announce_list: self.announce_list.deep_view(),
            name: self.name@,
            total_size: self.total_size as nat,
            piece_length: self.piece_length as nat,
            num_pieces: self.num_pieces as nat,
            creation_date: match self.creation_date {
                Some(d) => Some(d as int),
                None => None,
            },
            comment: self.comment.deep_view(),
            created_by: self.created_by.deep_view(),
            is_single_file: self.is_single_file,
            files: files_view(self.files@),
        }
    }
}

/// The SHA-1 digest of a byte string: twenty bytes.
pub uninterp spec fn sha1_digest(data: Seq<u8>) -> Seq<u8>;

/// `sha1::Sha1::digest`: the SHA-1 digest of `data`, which depends on the
/// bytes alone.
#[verifier::external_body]
fn sha1_of(data: &[u8]) -> (r: [u8; 20])
    ensures
        r@ == sha1_digest(data@),
{
    sha1::Sha1::digest(data).into()
}

/// Whether `pat` stands in `data` at index `i`.
pub open spec fn occurs_at(data: Seq<u8>, pat: Seq<u8>, i: int) -> bool {
    0 <= i && i + pat.len() <= data.len() && data.subrange(i, i + pat.len()) == pat
}

/// The least index at or after `start` at which `pat` stands in `data`.
pub open spec fn find_from(data: Seq<u8>, pat: Seq<u8>, start: int) -> Option<int>
    decreases data.len() - start + 1,
{
    if start < 0 || start + pat.len() > data.len() {
        None
    } else if occurs_at(data, pat, start) {
        Some(start)
    } else {
        find_from(data, pat, start + 1)
    }
}

/// What [`find_from`] finds is the first occurrence at or after `start`.
pub proof fn lemma_find_from_is_first(data: Seq<u8>, pat: Seq<u8>, start: int)
    requires
        0 <= start,
    ensures
        match find_from(data, pat, start) {
            Some(i) => start <= i && occurs_at(data, pat, i) && forall|j: int|
                start <= j < i ==> !occurs_at(data, pat, j),
            None => forall|j: int| start <= j ==> !occurs_at(data, pat, j),
        },
    decreases data.len() - start + 1,
{
    if start + pat.len() > data.len() {
    } else if occurs_at(data, pat, start) {
    } else {
        lemma_find_from_is_first(data, pat, start + 1);
    }
}

/// Whether `pat` stands in `data` at index `i`, where it fits there.
fn matches_at(data: &[u8], pat: &[u8], i: usize) -> (r: bool)
    requires
        i + pat@.len() <= data@.len(),
    ensures
        r == occurs_at(data@, pat@, i as int),
{
    let mut k: usize = 0;
    while k < pat.len()
        invariant
            k <= pat.len(),
            pat.len() == pat@.len(),
            data.len() == data@.len(),
            i + pat@.len() <= data@.len(),
            forall|j: int| 0 <= j < k ==> data@[i + j] == pat@[j],
        decreases pat.len() - k,
    {
        if data[i + k] != pat[k] {
            assert(data@.subrange(i as int, i + pat@.len())[k as int] == data@[i + k]);
            return false;
        }
        k += 1;
    }
    assert(data@.subrange(i as int, i + pat@.len()) =~= pat@);
    true
}

/// The first index at which `pat` stands in `data`.
pub fn find(data: &[u8], pat: &[u8]) -> (r: Option<usize>)
    ensures
        match r {
            Some(i) => find_from(data@, pat@, 0) == Some(i as int) && i + pat@.len()
                <= data@.len() && occurs_at(data@, pat@, i as int) && forall|j: int|
                0 <= j < i ==> !occurs_at(data@, pat@, j),
            None => find_from(data@, pat@, 0) is None && forall|j: int|
                0 <= j ==> !occurs_at(data@, pat@, j),
        },
{
    proof {
        lemma_find_from_is_first(data@, pat@, 0);
    }
    search(data, pat)
}

fn search(data: &[u8], pat: &[u8]) -> (r: Option<usize>)
    ensures
        match r {
            Some(i) => find_from(data@, pat@, 0) == Some(i as int) && i + pat@.len()
                <= data@.len(),
            None => find_from(data@, pat@, 0) is None,
        },
{
    if pat.len() > data.len() {
        return None;
    }
    let last: usize = data.len() - pat.len();
    let mut i: usize = 0;
    loop
        invariant
            last == data@.len() - pat@.len(),
            i <= last,
            find_from(data@, pat@, 0) == find_from(data@, pat@, i as int),
        decreases last - i,
    {
        if matches_at(data, pat, i) {
            return Some(i);
        }
        if i == last {
            assert(find_from(data@, pat@, i + 1) is None);
            return None;
        }
        i += 1;
    }
}

/// The bytes that stand in a torrent file right before the `info` value.
pub open spec fn info_marker() -> Seq<u8> {
    "4:info".spec_bytes()
}

/// The failure that carries `text` as an invalid structure.
pub open spec fn invalid(text: Seq<char>) -> TorrentFault {
    TorrentFault::InvalidStructure(text)
}

fn invalid_structure(text: &str) -> (r: TorrentError)
    ensures
        r@ == invalid(text@),
{
    TorrentError::InvalidStructure(String::from_str(text))
}

/// The info hash of the torrent file `data`: the SHA-1 digest of the
/// bytes of the value that follows the first `4:info` in the file, taken
/// as they stand there.
pub open spec fn info_hash_of(data: Seq<u8>) -> Result<Seq<u8>, TorrentFault> {
    match decoding(data) {
        Err(m) => Err(TorrentFault::Bencode(BencodeFault::ParseError(m))),
        Ok(root) => if !(root.0 is Dict) {
            Err(invalid("Root is not a dictionary"@))
        } else {
            match find_from(data, info_marker(), 0) {
                None => Err(invalid("Could not find info dictionary"@)),
                Some(i) => {
                    let start = i + info_marker().len();
                    match decoding(data.subrange(start, data.len() as int)) {
                        Err(m) => Err(TorrentFault::Bencode(BencodeFault::ParseError(m))),
                        Ok(info) => Ok(
                            sha1_digest(data.subrange(start, data.len() - info.1)),
                        ),
                    }
                },
            }
        },
    }
}

/// Computes the info hash of a torrent file from its bytes.
pub fn calculate_info_hash(torrent_data: &[u8]) -> (r: Result<[u8; 20], TorrentError>)
    ensures
        match info_hash_of(torrent_data@) {
            Ok(h) => r is Ok && r->Ok_0@ == h,
            Err(e) => r is Err && r->Err_0@ == e,
        },
{
    let root = match parse(torrent_data) {
        Ok(v) => v,
        Err(e) => {
            return Err(TorrentError::BencodeError(e));
        },
    };
    match root {
        BencodeValue::Dict(_) => {},
        _ => {
            return Err(invalid_structure("Root is not a dictionary"));
        },
    }
    let marker = "4:info".as_bytes();
    let total = torrent_data.len();
    let start = match find(torrent_data, marker) {
        Some(i) => i + marker.len(),
        None => {
            return Err(invalid_structure("Could not find info dictionary"));
        },
    };
    let tail = slice_subrange(torrent_data, start, total);
    match parse_front(tail) {
        Ok(p) => {
            let info_bytes = slice_subrange(torrent_data, start, start + p.1);
            Ok(sha1_of(info_bytes))
        },
        Err(e) => Err(TorrentError::BencodeError(e)),
    }
}

/// The byte strings among `items` as text, in order; what is no byte
/// string is passed over.
pub open spec fn texts_of(items: Seq<BencodeModel>) -> Seq<Seq<char>>
    decreases items.len(),
{
    if items.len() == 0 {
        Seq::empty()
    } else {
        let front = texts_of(items.drop_last());
        match items.last() {
            BencodeModel::Bytes(b) => front.push(lossy_text(b)),
            _ => front,
        }
    }
}

/// The lists among `items`, each as its texts, in order; what is no list
/// is passed over.
pub open spec fn tiers_of(items: Seq<BencodeModel>) -> Seq<Seq<Seq<char>>>
    decreases items.len(),
{
    if items.len() == 0 {
        Seq::empty()
    } else {
        let front = tiers_of(items.drop_last());
        match items.last() {
            BencodeModel::List(l) => front.push(texts_of(l)),
            _ => front,
        }
    }
}

/// The model of a list relates to the list item by item.
pub proof fn lemma_list_model(items: Seq<BencodeValue>)
    ensures
        list_model(items).len() == items.len(),
        forall|i: int| 0 <= i < items.len() ==> #[trigger] list_model(items)[i] == items[i]@,
    decreases items.len(),
{
    if items.len() > 0 {
        lemma_list_model(items.drop_last());
    }
}

fn collect_texts(items: &Vec<BencodeValue>) -> (r: Vec<String>)
    ensures
        r.deep_view() == texts_of(list_model(items@)),
{
    let ghost m = list_model(items@);
    proof {
        lemma_list_model(items@);
    }
    let mut out: Vec<String> = Vec::new();
    let mut i: usize = 0;
    assert(out.deep_view() =~= texts_of(m.subrange(0, 0)));
    while i < items.len()
        invariant
            i <= items.len(),
            m == list_model(items@),
            m.len() == items@.len(),
            forall|k: int| 0 <= k < items@.len() ==> #[trigger] m[k] == items@[k]@,
            out.deep_view() == texts_of(m.subrange(0, i as int)),
        decreases items.len() - i,
    {
        let ghost before = out.deep_view();
        proof {
            assert(m.subrange(0, i + 1).drop_last() == m.subrange(0, i as int));
            assert(m.subrange(0, i + 1).last() == items@[i as int]@);
        }
        match &items[i] {
            BencodeValue::Bytes(b) => {
                let text = utf8_lossy(b.as_slice());
                out.push(text);
                assert(out.deep_view() =~= before.push(text@));
            },
            _ => {},
        }
        i += 1;
    }
    assert(m.subrange(0, i as int) == m);
    out
}

fn collect_tiers(items: &Vec<BencodeValue>) -> (r: Vec<Vec<String>>)
    ensures
        r.deep_view() == tiers_of(list_model(items@)),
{
    let ghost m = list_model(items@);
    proof {
        lemma_list_model(items@);
    }
    let mut out: Vec<Vec<String>> = Vec::new();
    let mut i: usize = 0;
    assert(out.deep_view() =~= tiers_of(m.subrange(0, 0)));
    while i < items.len()
        invariant
            i <= items.len(),
            m == list_model(items@),
            m.len() == items@.len(),
            forall|k: int| 0 <= k < items@.len() ==> #[trigger] m[k] == items@[k]@,
            out.deep_view() == tiers_of(m.subrange(0, i as int)),
        decreases items.len() - i,
    {
        let ghost before = out.deep_view();
        proof {
            assert(m.subrange(0, i + 1).drop_last() == m.subrange(0, i as int));
            assert(m.subrange(0, i + 1).last() == items@[i as int]@);
        }
        match &items[i] {
            BencodeValue::List(l) => {
                let tier = collect_texts(l);
                out.push(tier);
                assert(out.deep_view() =~= before.push(tier.deep_view()));
            },
            _ => {},
        }
        i += 1;
    }
    assert(m.subrange(0, i as int) == m);
    out
}

/// The sum of the lengths of `files`.
pub open spec fn total_length(files: Seq<FileModel>) -> nat
    decreases files.len(),
{
    if files.len() == 0 {
        0
    } else {
        total_length(files.drop_last()) + files.last().length
    }
}

/// The file that one entry of `files` describes; its length must not be
/// negative.
pub open spec fn file_of(entry: BencodeModel) -> Result<FileModel, TorrentFault> {
    match entry {
        BencodeModel::Dict(d) => match int_field(d, "length".spec_bytes()) {
            None => Err(TorrentFault::Bencode(missing_key_fault("length"@))),
            Some(len) => if len < 0 {
                Err(invalid("File length is negative"@))
            } else {
                match list_field(d, "path".spec_bytes()) {
                    None => Err(invalid("Invalid file path"@)),
                    Some(p) => Ok(FileModel { path: texts_of(p), length: len as nat }),
                }
            },
        },
        _ => Err(invalid("Invalid file entry"@)),
    }
}

/// The files that the entries of `files` describe, in order, or the first
/// failure met on the way. A sum of lengths that no longer fits in 64 bits
/// is a failure at the entry that brings it about.
pub open spec fn files_of(items: Seq<BencodeModel>) -> Result<Seq<FileModel>, TorrentFault>
    decreases items.len(),
{
    if items.len() == 0 {
        Ok(Seq::empty())
    } else {
        match files_of(items.drop_last()) {
            Err(e) => Err(e),
            Ok(front) => match file_of(items.last()) {
                Err(e) => Err(e),
                Ok(f) => if total_length(front) + f.length > u64::MAX {
                    Err(invalid("Total size does not fit in 64 bits"@))
                } else {
                    Ok(front.push(f))
                },
            },
        }
    }
}

fn read_file(entry: &BencodeValue) -> (r: Result<TorrentFile, TorrentError>)
    ensures
        match file_of(entry@) {
            Ok(f) => r is Ok && r->Ok_0@ == f,
            Err(e) => r is Err && r->Err_0@ == e,
        },
{
    let dict = match entry {
        BencodeValue::Dict(d) => d,
        _ => {
            return Err(invalid_structure("Invalid file entry"));
        },
    };
    let length = match get_int(dict, "length") {
        Ok(i) => {
            if i < 0 {
                return Err(invalid_structure("File length is negative"));
            }
            i as u64
        },
        Err(e) => {
            return Err(TorrentError::BencodeError(e));
        },
    };
    let path = match find_list(dict, "path".as_bytes()) {
        Some(l) => collect_texts(l),
        None => {
            return Err(invalid_structure("Invalid file path"));
        },
    };
    Ok(TorrentFile { path, length })
}

fn read_files(items: &Vec<BencodeValue>) -> (r: Result<(Vec<TorrentFile>, u64), TorrentError>)
    ensures
        match files_of(list_model(items@)) {
            Ok(fs) => r is Ok && files_view(r->Ok_0.0@) == fs && r->Ok_0.1 == total_length(fs),
            Err(e) => r is Err && r->Err_0@ == e,
        },
{
    let ghost m = list_model(items@);
    proof {
        lemma_list_model(items@);
    }
    let mut files: Vec<TorrentFile> = Vec::new();
    let mut total: u64 = 0;
    let mut i: usize = 0;
    assert(files_view(files@) =~= Seq::<FileModel>::empty());
    while i < items.len()
        invariant
            i <= items.len(),
            m == list_model(items@),
            m.len() == items@.len(),
            forall|k: int| 0 <= k < items@.len() ==> #[trigger] m[k] == items@[k]@,
            files_of(m.subrange(0, i as int)) == Ok::<Seq<FileModel>, TorrentFault>(
                files_view(files@),
            ),
            total == total_length(files_view(files@)),
        decreases items.len() - i,
    {
        let ghost before = files_view(files@);
        proof {
            assert(m.subrange(0, i + 1).drop_last() == m.subrange(0, i as int));
            assert(m.subrange(0, i + 1).last() == items@[i as int]@);
            assert(m.subrange(0, items@.len() as int) == m);
        }
        let file = match read_file(&items[i]) {
            Ok(f) => f,
            Err(e) => {
                proof {
                    lemma_files_of_fault(m, i + 1);
                }
                return Err(e);
            },
        };
        if file.length > u64::MAX - total {
            proof {
                lemma_files_of_fault(m, i + 1);
            }
            return Err(invalid_structure("Total size does not fit in 64 bits"));
        }
        total = total + file.length;
        let ghost added = file@;
        files.push(file);
        proof {
            assert(files_view(files@) =~= before.push(added));
            assert(files_view(files@).drop_last() == before);
        }
        i += 1;
    }
    assert(m.subrange(0, i as int) == m);
    Ok((files, total))
}

/// A failure on the first `n` entries is the failure on all of them.
proof fn lemma_files_of_fault(items: Seq<BencodeModel>, n: int)
    requires
        0 <= n <= items.len(),
        files_of(items.subrange(0, n)) is Err,
    ensures
        files_of(items) == files_of(items.subrange(0, n)),
    decreases items.len() - n,
{
    if n < items.len() {
        assert(items.subrange(0, n + 1).drop_last() == items.subrange(0, n));
        lemma_files_of_fault(items, n + 1);
    } else {
        assert(items.subrange(0, n) == items);
    }
}

/// The files and the total size that the `info` dictionary gives to a
/// torrent called `name`: one file of that name where `length` is an
/// integer, which must not be negative, else the files listed under
/// `files`.
pub open spec fn layout_of(info: Map<Seq<u8>, BencodeModel>, name: Seq<char>) -> Result<
    (bool, nat, Seq<FileModel>),
    TorrentFault,
> {
    match int_field(info, "length".spec_bytes()) {
        Some(len) => if len < 0 {
            Err(invalid("Length is negative"@))
        } else {
            Ok((true, len as nat, seq![FileModel { path: seq![name], length: len as nat }]))
        },
        None => match list_field(info, "files".spec_bytes()) {
            Some(l) => match files_of(l) {
                Ok(fs) => Ok((false, total_length(fs), fs)),
                Err(e) => Err(e),
            },
            None => Err(invalid("Neither 'length' nor 'files' found in info dictionary"@)),
        },
    }
}

/// The torrent that the decoded file `root` describes, given the outcome
/// `hash` of computing its info hash, or the first failure met: the root
/// and `info` must be dictionaries, `announce`, `name` and `pieces` byte
/// strings, `piece length` an integer that is not negative, and the
/// length of `pieces` a multiple of 20.
pub open spec fn torrent_of(root: BencodeModel, hash: Result<Seq<u8>, TorrentFault>) -> Result<
    TorrentModel,
    TorrentFault,
> {
    if !(root is Dict) {
        Err(invalid("Root is not a dictionary"@))
    } else {
        let top = root->Dict_0;
        if bytes_field(top, "announce".spec_bytes()) is None {
            Err(TorrentFault::Bencode(missing_key_fault("announce"@)))
        } else if dict_field(top, "info".spec_bytes()) is None {
            Err(invalid("Missing info dictionary"@))
        } else if hash is Err {
            Err(hash->Err_0)
        } else {
            let info = dict_field(top, "info".spec_bytes())->Some_0;
            if bytes_field(info, "name".spec_bytes()) is None {
                Err(TorrentFault::Bencode(missing_key_fault("name"@)))
            } else if int_field(info, "piece length".spec_bytes()) is None {
                Err(TorrentFault::Bencode(missing_key_fault("piece length"@)))
            } else if int_field(info, "piece length".spec_bytes())->Some_0 < 0 {
                Err(invalid("Piece length is negative"@))
            } else if bytes_field(info, "pieces".spec_bytes()) is None {
                Err(TorrentFault::Bencode(missing_key_fault("pieces"@)))
            } else if bytes_field(info, "pieces".spec_bytes())->Some_0.len() % 20 != 0 {
                Err(invalid("Length of pieces is not a multiple of 20"@))
            } else {
                let name = text_field(info, "name".spec_bytes())->Some_0;
                match layout_of(info, name) {
                    Err(e) => Err(e),
                    Ok(layout) => Ok(
                        TorrentModel {
                            info_hash: hash->Ok_0,
                            announce: text_field(top, "announce".spec_bytes())->Some_0,
                            announce_list: match list_field(top, "announce-list".spec_bytes()) {
                                Some(l) => Some(tiers_of(l)),
                                None => None,
                            },
                            name,
                            total_size: layout.1,
                            piece_length: int_field(
                                info,
                                "piece length".spec_bytes(),
                            )->Some_0 as nat,
                            num_pieces: bytes_field(info, "pieces".spec_bytes())->Some_0.len()
                                / 20,
                            creation_date: int_field(top, "creation date".spec_bytes()),
                            comment: text_field(top, "comment".spec_bytes()),
                            created_by: text_field(top, "created by".spec_bytes()),
                            is_single_file: layout.0,
                            files: layout.2,
                        },
                    ),
                }
            }
        }
    }
}

/// The outcome of reading a torrent, as models.
pub open spec fn outcome(r: Result<TorrentInfo, TorrentError>) -> Result<
    TorrentModel,
    TorrentFault,
> {
    match r {
        Ok(t) => Ok(t@),
        Err(e) => Err(e@),
    }
}

impl TorrentInfo {
    /// Reads a torrent from the bytes of a torrent file.
    pub fn from_bytes(data: &[u8]) -> (r: Result<TorrentInfo, TorrentError>)
        ensures
            outcome(r) == match decoded_root(data@) {
                Ok(root) => torrent_of(root, info_hash_of(data@)),
                Err(f) => Err(TorrentFault::Bencode(f)),
            },
    {
        match parse(data) {
            Ok(value) => TorrentInfo::from_value(&value, data),
            Err(e) => Err(TorrentError::BencodeError(e)),
        }
    }

    /// Reads a torrent from the decoded content `root` of a torrent file;
    /// `data` holds the file's bytes, from which the info hash is taken.
    pub fn from_value(root: &BencodeValue, data: &[u8]) -> (r: Result<TorrentInfo, TorrentError>)
        ensures
            outcome(r) == torrent_of(root@, info_hash_of(data@)),
    {
        let top = match root {
            BencodeValue::Dict(d) => d,
            _ => {
                return Err(invalid_structure("Root is not a dictionary"));
            },
        };
        let announce = match get_string(top, "announce") {
            Ok(a) => a,
            Err(e) => {
                return Err(TorrentError::BencodeError(e));
            },
        };
        let announce_list = match find_list(top, "announce-list".as_bytes()) {
            Some(l) => Some(collect_tiers(l)),
            None => None,
        };
        let info = match find_dict(top, "info".as_bytes()) {
            Some(d) => d,
            None => {
                return Err(invalid_structure("Missing info dictionary"));
            },
        };
        let info_hash = match calculate_info_hash(data) {
            Ok(h) => h,
            Err(e) => {
                return Err(e);
            },
        };
        let name = match get_string(info, "name") {
            Ok(n) => n,
            Err(e) => {
                return Err(TorrentError::BencodeError(e));
            },
        };
        let piece_length = match get_int(info, "piece length") {
            Ok(i) => {
                if i < 0 {
                    return Err(invalid_structure("Piece length is negative"));
                }
                i as u64
            },
            Err(e) => {
                return Err(TorrentError::BencodeError(e));
            },
        };
        let pieces = match get_bytes(info, "pieces") {
            Ok(b) => b,
            Err(e) => {
                return Err(TorrentError::BencodeError(e));
            },
        };
        if pieces.len() % 20 != 0 {
            return Err(invalid_structure("Length of pieces is not a multiple of 20"));
        }
        let num_pieces = pieces.len() / 20;
        let (is_single_file, total_size, files) = match get_int(info, "length") {
            Ok(i) => {
                if i < 0 {
                    return Err(invalid_structure("Length is negative"));
                }
                let length = i as u64;
                let mut path: Vec<String> = Vec::new();
                path.push(name.clone());
                let mut files: Vec<TorrentFile> = Vec::new();
                files.push(TorrentFile { path, length });
                proof {
                    assert(files@[0]@.path =~= seq![name@]);
                    assert(files_view(files@) =~= seq![
                        FileModel { path: seq![name@], length: length as nat },
                    ]);
                }
                (true, length, files)
            },
            Err(_) => match find_list(info, "files".as_bytes()) {
                Some(l) => match read_files(l) {
                    Ok(p) => (false, p.1, p.0),
                    Err(e) => {
                        return Err(e);
                    },
                },
                None => {
                    return Err(
                        invalid_structure("Neither 'length' nor 'files' found in info dictionary"),
                    );
                },
            },
        };
        let creation_date = find_int(top, "creation date");
        let comment = find_text(top, "comment");
        let created_by = find_text(top, "created by");
        Ok(
            TorrentInfo {
                info_hash,
                announce,
                announce_list,
                name,
                total_size,
                piece_length,
                num_pieces,
                creation_date,
                comment,
                created_by,
                is_single_file,
                files,
            },
        )
    }

    /// The primary tracker URL.
    pub fn get_tracker_url(&self) -> (r: &str)
        ensures
            r@ == self.announce@,
    {
        self.announce.as_str()
    }

    /// The primary tracker URL and every URL of the announce list, each
    /// once, in the order in which they first occur.
    pub fn get_all_tracker_urls(&self) -> (r: Vec<String>)
        ensures
            r.deep_view() == all_tracker_urls(self@),
            r.deep_view().no_duplicates(),
            forall|u: Seq<char>| #[trigger]
                r.deep_view().contains(u) <==> listed_urls(self@).contains(u),
    {
        let mut urls: Vec<String> = Vec::new();
        assert(urls.deep_view() =~= Seq::<Seq<char>>::empty());
        push_distinct(&mut urls, &self.announce);
        proof {
            let first = seq![self.announce@];
            assert(first.drop_last() =~= Seq::<Seq<char>>::empty());
            assert(distinct(first.drop_last()) =~= Seq::<Seq<char>>::empty());
            assert(urls.deep_view() =~= distinct(first));
        }
        if let Some(list) = &self.announce_list {
            let ghost tiers = list.deep_view();
            let ghost first = seq![self.announce@];
            let mut i: usize = 0;
            assert(tiers.subrange(0, 0) =~= Seq::<Seq<Seq<char>>>::empty());
            assert(first + flatten(tiers.subrange(0, 0)) =~= first);
            while i < list.len()
                invariant
                    i <= list.len(),
                    tiers == list.deep_view(),
                    urls.deep_view() == distinct(first + flatten(tiers.subrange(0, i as int))),
                decreases list.len() - i,
            {
                let tier = &list[i];
                let ghost done = first + flatten(tiers.subrange(0, i as int));
                let ghost t = tier.deep_view();
                let mut j: usize = 0;
                assert(done + t.subrange(0, 0) =~= done);
                while j < tier.len()
                    invariant
                        j <= tier.len(),
                        t == tier.deep_view(),
                        urls.deep_view() == distinct(done + t.subrange(0, j as int)),
                    decreases tier.len() - j,
                {
                    proof {
                        let next = done + t.subrange(0, j + 1);
                        assert(next.drop_last() =~= done + t.subrange(0, j as int));
                        assert(next.last() == tier@[j as int]@);
                    }
                    push_distinct(&mut urls, &tier[j]);
                    j += 1;
                }
                proof {
                    assert(t.subrange(0, j as int) =~= t);
                    assert(tiers.subrange(0, i + 1).drop_last() =~= tiers.subrange(0, i as int));
                    assert(tiers.subrange(0, i + 1).last() == t);
                    assert(done + t =~= first + flatten(tiers.subrange(0, i + 1)));
                }
                i += 1;
            }
            assert(tiers.subrange(0, i as int) =~= tiers);
        } else {
            assert(seq![self.announce@] + Seq::<Seq<char>>::empty() =~= seq![self.announce@]);
        }
        proof {
            lemma_distinct(listed_urls(self@));
        }
        urls
    }

    /// The info hash as forty lower-case hexadecimal digits.
    pub fn info_hash_hex(&self) -> (r: String)
        ensures
            r@ == hex_lower_text(self.info_hash@),
    {
        hex_lower(self.info_hash.as_slice())
    }
}

/// The URLs of all tiers, one after the other.
pub open spec fn flatten(tiers: Seq<Seq<Seq<char>>>) -> Seq<Seq<char>>
    decreases tiers.len(),
{
    if tiers.len() == 0 {
        Seq::empty()
    } else {
        flatten(tiers.drop_last()) + tiers.last()
    }
}

/// `urls` without the later occurrences of what occurs more than once.
pub open spec fn distinct(urls: Seq<Seq<char>>) -> Seq<Seq<char>>
    decreases urls.len(),
{
    if urls.len() == 0 {
        Seq::empty()
    } else {
        let front = distinct(urls.drop_last());
        if front.contains(urls.last()) {
            front
        } else {
            front.push(urls.last())
        }
    }
}

/// The primary tracker URL followed by the URLs of the announce list.
pub open spec fn listed_urls(t: TorrentModel) -> Seq<Seq<char>> {
    seq![t.announce] + match t.announce_list {
        Some(tiers) => flatten(tiers),
        None => Seq::empty(),
    }
}

/// The tracker URLs of a torrent, each once.
pub open spec fn all_tracker_urls(t: TorrentModel) -> Seq<Seq<char>> {
    distinct(listed_urls(t))
}

/// [`distinct`] holds no value twice, and holds the values of its
/// argument and no others.
pub proof fn lemma_distinct(urls: Seq<Seq<char>>)
    ensures
        distinct(urls).no_duplicates(),
        forall|u: Seq<char>| #[trigger] distinct(urls).contains(u) <==> urls.contains(u),
    decreases urls.len(),
{
    if urls.len() > 0 {
        let front = urls.drop_last();
        lemma_distinct(front);
        assert forall|u: Seq<char>| #[trigger] distinct(urls).contains(u) <==> urls.contains(
            u,
        ) by {
            if urls.contains(u) {
                let k = choose|k: int| 0 <= k < urls.len() && urls[k] == u;
                if k < urls.len() - 1 {
                    assert(front[k] == u);
                    assert(front.contains(u));
                    assert(distinct(front).contains(u));
                    let m = choose|m: int| 0 <= m < distinct(front).len() && distinct(front)[m]
                        == u;
                    assert(distinct(urls)[m] == u);
                } else {
                    if distinct(front).contains(u) {
                    } else {
                        assert(distinct(urls).last() == u);
                    }
                }
            }
            if distinct(urls).contains(u) {
                let m = choose|m: int| 0 <= m < distinct(urls).len() && distinct(urls)[m] == u;
                if m < distinct(front).len() {
                    assert(distinct(front).contains(u));
                    let k = choose|k: int| 0 <= k < front.len() && front[k] == u;
                    assert(urls[k] == u);
                } else {
                    assert(urls[urls.len() - 1] == u);
                }
            }
        }
    }
}

fn holds(urls: &Vec<String>, url: &String) -> (r: bool)
    ensures
        r == urls.deep_view().contains(url@),
{
    let mut i: usize = 0;
    while i < urls.len()
        invariant
            i <= urls.len(),
            forall|k: int| 0 <= k < i ==> urls.deep_view()[k] != url@,
        decreases urls.len() - i,
    {
        if urls[i] == *url {
            assert(urls.deep_view()[i as int] == url@);
            return true;
        }
        i += 1;
    }
    false
}

fn push_distinct(urls: &mut Vec<String>, url: &String)
    ensures
        final(urls).deep_view() == if old(urls).deep_view().contains(url@) {
            old(urls).deep_view()
        } else {
            old(urls).deep_view().push(url@)
        },
{
    if !holds(urls, url) {
        urls.push(url.clone());
        assert(urls.deep_view() =~= old(urls).deep_view().push(url@));
    }
}

fn copy_texts(texts: &Vec<String>) -> (r: Vec<String>)
    ensures
        r@ == texts@,
{
    let mut out: Vec<String> = Vec::new();
    let mut i: usize = 0;
    while i < texts.len()
        invariant
            i <= texts.len(),
            out@ == texts@.subrange(0, i as int),
        decreases texts.len() - i,
    {
        out.push(texts[i].clone());
        assert(out@ =~= texts@.subrange(0, i + 1));
        i += 1;
    }
    assert(texts@.subrange(0, i as int) =~= texts@);
    out
}

fn copy_tiers(tiers: &Vec<Vec<String>>) -> (r: Vec<Vec<String>>)
    ensures
        r.deep_view() == tiers.deep_view(),
{
    let mut out: Vec<Vec<String>> = Vec::new();
    let mut i: usize = 0;
    while i < tiers.len()
        invariant
            i <= tiers.len(),
            out@.len() == i,
            forall|k: int| 0 <= k < i ==> #[trigger] out@[k]@ == tiers@[k]@,
        decreases tiers.len() - i,
    {
        out.push(copy_texts(&tiers[i]));
        i += 1;
    }
    assert(out.deep_view() =~= tiers.deep_view()) by {
        assert forall|k: int| 0 <= k < out@.len() implies out.deep_view()[k]
            == tiers.deep_view()[k] by {
            assert(out@[k]@ == tiers@[k]@);
            assert(out@[k].deep_view() =~= tiers@[k].deep_view());
        }
    }
    out
}

fn copy_files(files: &Vec<TorrentFile>) -> (r: Vec<TorrentFile>)
    ensures
        files_view(r@) == files_view(files@),
{
    let mut out: Vec<TorrentFile> = Vec::new();
    let mut i: usize = 0;
    while i < files.len()
        invariant
            i <= files.len(),
            out@.len() == i,
            forall|k: int| 0 <= k < i ==> #[trigger] out@[k]@ == files@[k]@,
        decreases files.len() - i,
    {
        let path = copy_texts(&files[i].path);
        let copy = TorrentFile { path, length: files[i].length };
        assert(copy.path.deep_view() =~= files@[i as int].path.deep_view());
        out.push(copy);
        i += 1;
    }
    assert(files_view(out@) =~= files_view(files@));
    out
}

fn copy_optional(text: &Option<String>) -> (r: Option<String>)
    ensures
        r.deep_view() == text.deep_view(),
{
    match text {
        Some(t) => Some(t.clone()),
        None => None,
    }
}

impl Clone for TorrentInfo {
    fn clone(&self) -> (r: TorrentInfo)
        ensures
            r@ == self@,
            r.info_hash == self.info_hash,
            r.total_size == self.total_size,
    {
        TorrentInfo {
            info_hash: self.info_hash,
            announce: self.announce.clone(),
            announce_list: match &self.announce_list {
                Some(tiers) => Some(copy_tiers(tiers)),
                None => None,
            },
            name: self.name.clone(),
            total_size: self.total_size,
            piece_length: self.piece_length,
            num_pieces: self.num_pieces,
            creation_date: self.creation_date,
            comment: copy_optional(&self.comment),
            created_by: copy_optional(&self.created_by),
            is_single_file: self.is_single_file,
            files: copy_files(&self.files),
        }
    }
}

} // verus!
