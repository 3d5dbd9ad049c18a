//! Bencoded values: decoding, and typed access to dictionary fields.

use crate::protocol::nesting::{nests_beyond, nests_deeper_than};
use crate::protocol::sorting::{keys_ascend, sorted_value};
use crate::text::{bytes_eq, utf8_lossy};
use serde::Deserialize;
use vstd::prelude::*;
use vstd::string::*;

verus! {

/// A bencoded value as the engine holds it.
#[derive(Debug)]
pub enum BencodeValue {
    Bytes(Vec<u8>),
    Int(i64),
    List(Vec<BencodeValue>),
    Dict(Vec<DictEntry>),
}

/// One key of a dictionary with its value. Where a key occurs twice in a
/// list of entries, the later entry is the one that counts.
#[derive(Debug)]
pub struct DictEntry {
    pub key: Vec<u8>,
    pub value: BencodeValue,
}

/// The mathematical content of a bencoded value.
pub enum BencodeModel {
    Bytes(Seq<u8>),
    Int(int),
    List(Seq<BencodeModel>),
    Dict(Map<Seq<u8>, BencodeModel>),
}

/// The dictionary that a list of entries stands for.
pub open spec fn entries_model(entries: Seq<DictEntry>) -> Map<Seq<u8>, BencodeModel>
    decreases entries, 0nat,
{
    if entries.len() == 0 {
        Map::empty()
    } else {
        entries_model(entries.drop_last()).insert(
            entries.last().key@,
            value_view(entries.last().value),
        )
    }
}

/// The models of a list of values, in order.
pub open spec fn list_model(items: Seq<BencodeValue>) -> Seq<BencodeModel>
    decreases items, 0nat,
{
    if items.len() == 0 {
        Seq::empty()
    } else {
        list_model(items.drop_last()).push(value_view(items.last()))
    }
}

/// The model of a value.
pub open spec fn value_view(v: BencodeValue) -> BencodeModel
    decreases v, 1nat,
{
    match v {
        BencodeValue::Bytes(b) => BencodeModel::Bytes(b@),
        BencodeValue::Int(i) => BencodeModel::Int(i as int),
        BencodeValue::List(l) => BencodeModel::List(list_model(l@)),
        BencodeValue::Dict(d) => BencodeModel::Dict(entries_model(d@)),
    }
}

/// Why decoding or reading a bencoded value failed.
#[derive(Debug)]
pub enum BencodeError {
    /// The bytes are not a bencoded value; holds the decoder's message.
    ParseError(String),
    /// A value is not of the expected shape; holds what was expected.
    InvalidStructure(String),
}

/// The content of a [`BencodeError`].
pub enum BencodeFault {
    ParseError(Seq<char>),
    InvalidStructure(Seq<char>),
}

impl View for BencodeError {
    type V = BencodeFault;

    open spec fn view(&self) -> BencodeFault {
        match self {
            BencodeError::ParseError(m) => BencodeFault::ParseError(m@),
            BencodeError::InvalidStructure(m) => BencodeFault::InvalidStructure(m@),
        }
    }
}

/// A fault as a line of text.
pub open spec fn bencode_fault_text(fault: BencodeFault) -> Seq<char> {
    match fault {
        BencodeFault::ParseError(m) => "Failed to parse bencode: "@ + m,
        BencodeFault::InvalidStructure(m) => "Invalid bencode structure: "@ + m,
    }
}

impl BencodeError {
    /// The error as a line of text.
    pub fn message(&self) -> (r: String)
        ensures
            r@ == bencode_fault_text(self@),
    {
        match self {
            BencodeError::ParseError(m) => {
                let mut r = String::from_str("Failed to parse bencode: ");
                r.append(m.as_str());
                r
            },
            BencodeError::InvalidStructure(m) => {
                let mut r = String::from_str("Invalid bencode structure: ");
                r.append(m.as_str());
                r
            },
        }
    }
}

impl View for BencodeValue {
    type V = BencodeModel;

    open spec fn view(&self) -> BencodeModel {
        value_view(*self)
    }
}

/// How many lists and dictionaries a value may have open at once.
pub const MAX_DEPTH: usize = 256;

/// The message for a value that is nested more deeply.
pub open spec fn too_deep() -> Seq<char> {
    "Value is nested too deeply"@
}

/// How many lists and dictionaries a value has open at once, at most.
pub open spec fn value_depth(v: BencodeValue) -> nat
    decreases v, 1nat,
{
    match v {
        BencodeValue::Bytes(_) => 0,
        BencodeValue::Int(_) => 0,
        BencodeValue::List(l) => 1 + list_depth(l@),
        BencodeValue::Dict(d) => 1 + entries_depth(d@),
    }
}

/// The greatest depth among the values of a list.
pub open spec fn list_depth(items: Seq<BencodeValue>) -> nat
    decreases items, 0nat,
{
    if items.len() == 0 {
        0
    } else {
        let front = list_depth(items.drop_last());
        let last = value_depth(items.last());
        if last > front {
            last
        } else {
            front
        }
    }
}

/// The greatest depth among the values of a list of entries.
pub open spec fn entries_depth(entries: Seq<DictEntry>) -> nat
    decreases entries, 0nat,
{
    if entries.len() == 0 {
        0
    } else {
        let front = entries_depth(entries.drop_last());
        let last = value_depth(entries.last().value);
        if last > front {
            last
        } else {
            front
        }
    }
}

/// Whether a value has at most `limit` lists and dictionaries open at
/// once.
pub fn depth_within(v: &BencodeValue, limit: usize) -> (r: bool)
    ensures
        r == (value_depth(*v) <= limit),
    decreases *v, 1nat,
{
    match v {
        BencodeValue::Bytes(_) => true,
        BencodeValue::Int(_) => true,
        BencodeValue::List(l) => limit > 0 && list_within(l, limit - 1),
        BencodeValue::Dict(d) => limit > 0 && entries_within(d, limit - 1),
    }
}

fn list_within(items: &Vec<BencodeValue>, limit: usize) -> (r: bool)
    ensures
        r == (list_depth(items@) <= limit),
    decreases *items, 0nat,
{
    let mut i: usize = 0;
    assert(items@.subrange(0, 0).len() == 0);
    while i < items.len()
        invariant
            i <= items.len(),
            list_depth(items@.subrange(0, i as int)) <= limit,
        decreases items.len() - i,
    {
        proof {
            assert(items@.subrange(0, i + 1).drop_last() == items@.subrange(0, i as int));
            assert(items@.subrange(0, i + 1).last() == items@[i as int]);
        }
        if !depth_within(&items[i], limit) {
            proof {
                lemma_list_depth_grows(items@, i + 1);
            }
            return false;
        }
        i += 1;
    }
    assert(items@.subrange(0, i as int) == items@);
    true
}

fn entries_within(entries: &Vec<DictEntry>, limit: usize) -> (r: bool)
    ensures
        r == (entries_depth(entries@) <= limit),
    decreases *entries, 0nat,
{
    let mut i: usize = 0;
    assert(entries@.subrange(0, 0).len() == 0);
    while i < entries.len()
        invariant
            i <= entries.len(),
            entries_depth(entries@.subrange(0, i as int)) <= limit,
        decreases entries.len() - i,
    {
        proof {
            assert(entries@.subrange(0, i + 1).drop_last() == entries@.subrange(0, i as int));
            assert(entries@.subrange(0, i + 1).last() == entries@[i as int]);
        }
        if !depth_within(&entries[i].value, limit) {
            proof {
                lemma_entries_depth_grows(entries@, i + 1);
            }
            return false;
        }
        i += 1;
    }
    assert(entries@.subrange(0, i as int) == entries@);
    true
}

proof fn lemma_list_depth_grows(items: Seq<BencodeValue>, n: int)
    requires
        0 <= n <= items.len(),
    ensures
        list_depth(items.subrange(0, n)) <= list_depth(items),
    decreases items.len() - n,
{
    if n < items.len() {
        assert(items.subrange(0, n + 1).drop_last() == items.subrange(0, n));
        lemma_list_depth_grows(items, n + 1);
    } else {
        assert(items.subrange(0, n) == items);
    }
}

proof fn lemma_entries_depth_grows(entries: Seq<DictEntry>, n: int)
    requires
        0 <= n <= entries.len(),
    ensures
        entries_depth(entries.subrange(0, n)) <= entries_depth(entries),
    decreases entries.len() - n,
{
    if n < entries.len() {
        assert(entries.subrange(0, n + 1).drop_last() == entries.subrange(0, n));
        lemma_entries_depth_grows(entries, n + 1);
    } else {
        assert(entries.subrange(0, n) == entries);
    }
}

/// `serde_bencode::value::Value`, of which the engine sees no more than
/// what [`value_model`] names.
#[verifier::external_type_specification]
#[verifier::external_body]
pub struct ExValue(serde_bencode::value::Value);

/// What a value of the decoder holds.
pub uninterp spec fn value_model(v: serde_bencode::value::Value) -> BencodeModel;

/// What the decoder makes of the front of `data`: the value that it reads
/// there and the number of bytes that follow it, or its error message.
pub uninterp spec fn bencode_decoding(data: Seq<u8>) -> Result<(BencodeModel, nat), Seq<char>>;

/// `serde_bencode::Deserializer` over `data`, asked for one
/// `serde_bencode::value::Value`. It reads one value from the front of the
/// input and leaves what follows it unread; the second component is the
/// number of bytes left. Both depend on the bytes alone. The decoder
/// calls itself for every list and dictionary that is open, so the input
/// must not open more than [`MAX_DEPTH`] at once.
#[verifier::external_body]
fn decode_front(data: &[u8]) -> (r: Result<(serde_bencode::value::Value, usize), String>)
    requires
        !nests_beyond(data@, MAX_DEPTH as nat),
    ensures
        match r {
            Ok(p) => bencode_decoding(data@) == Ok::<(BencodeModel, nat), Seq<char>>(
                (value_model(p.0), p.1 as nat),
            ) && p.1 <= data@.len(),
            Err(e) => bencode_decoding(data@) == Err::<(BencodeModel, nat), Seq<char>>(e@),
        },
{
    let mut rest: &[u8] = data;
    let mut de = serde_bencode::Deserializer::new(&mut rest);
    let value = serde_bencode::value::Value::deserialize(&mut de).map_err(|e| e.to_string())?;
    Ok((value, rest.len()))
}

/// Turns a `serde_bencode::value::Value` into a [`BencodeValue`], variant
/// by variant; the entries of a dictionary come in no particular order.
#[verifier::external_body]
fn lift(v: serde_bencode::value::Value) -> (r: BencodeValue)
    ensures
        r@ == value_model(v),
{
    match v {
        serde_bencode::value::Value::Bytes(b) => BencodeValue::Bytes(b),
        serde_bencode::value::Value::Int(i) => BencodeValue::Int(i),
        serde_bencode::value::Value::List(l) => BencodeValue::List(l.into_iter().map(lift).collect()),
        serde_bencode::value::Value::Dict(d) => BencodeValue::Dict(
            d.into_iter().map(|(key, v)| DictEntry { key, value: lift(v) }).collect(),
        ),
    }
}

/// The bytes that encoding gives for a value, or the encoder's message.
pub uninterp spec fn bencode_encoding(value: BencodeModel) -> Result<Seq<u8>, Seq<char>>;

/// Turns a [`BencodeValue`] into a `serde_bencode::value::Value`, variant
/// by variant; of two entries of a dictionary with one key, the later one
/// stays. It calls itself for every list and dictionary that is open.
#[verifier::external_body]
fn lower(v: &BencodeValue) -> (r: serde_bencode::value::Value)
    requires
        value_depth(*v) <= MAX_DEPTH,
    ensures
        value_model(r) == v@,
{
    match v {
        BencodeValue::Bytes(b) => serde_bencode::value::Value::Bytes(b.clone()),
        BencodeValue::Int(i) => serde_bencode::value::Value::Int(*i),
        BencodeValue::List(l) => serde_bencode::value::Value::List(l.iter().map(lower).collect()),
        BencodeValue::Dict(d) => serde_bencode::value::Value::Dict(
            d.iter().map(|e| (e.key.clone(), lower(&e.value))).collect(),
        ),
    }
}

/// `serde_bencode::to_bytes` on a `serde_bencode::value::Value`: the
/// bencoding of the value, with the keys of each dictionary in ascending
/// order. It depends on what the value holds alone.
#[verifier::external_body]
fn encode_value(v: &serde_bencode::value::Value) -> (r: Result<Vec<u8>, String>)
    ensures
        match r {
            Ok(b) => bencode_encoding(value_model(*v)) == Ok::<Seq<u8>, Seq<char>>(b@),
            Err(m) => bencode_encoding(value_model(*v)) == Err::<Seq<u8>, Seq<char>>(m@),
        },
{
    serde_bencode::to_bytes(v).map_err(|e| e.to_string())
}

/// Encodes a value, unless it is nested more deeply than [`MAX_DEPTH`].
pub fn encode(value: &BencodeValue) -> (r: Result<Vec<u8>, BencodeError>)
    ensures
        value_depth(*value) <= MAX_DEPTH ==> match bencode_encoding(value@) {
            Ok(b) => r is Ok && r->Ok_0@ == b,
            Err(m) => r is Err && r->Err_0@ == BencodeFault::ParseError(m),
        },
        value_depth(*value) > MAX_DEPTH ==> r is Err && r->Err_0@ == BencodeFault::ParseError(
            too_deep(),
        ),
{
    if !depth_within(value, MAX_DEPTH) {
        return Err(BencodeError::ParseError(String::from_str("Value is nested too deeply")));
    }
    let lowered = lower(value);
    match encode_value(&lowered) {
        Ok(b) => Ok(b),
        Err(m) => Err(BencodeError::ParseError(m)),
    }
}

/// What decoding makes of the front of `data`: nothing where the value
/// there is nested more deeply than [`MAX_DEPTH`], else what the decoder
/// makes of it.
pub open spec fn decoding(data: Seq<u8>) -> Result<(BencodeModel, nat), Seq<char>> {
    if nests_beyond(data, MAX_DEPTH as nat) {
        Err(too_deep())
    } else {
        bencode_decoding(data)
    }
}

/// What [`parse_front`] returns on `data`.
pub open spec fn parse_front_result(
    data: Seq<u8>,
    r: Result<(BencodeValue, usize), BencodeError>,
) -> bool {
    match decoding(data) {
        Ok(d) => {
            &&& r is Ok
            &&& r->Ok_0.0@ == d.0
            &&& keys_ascend(r->Ok_0.0)
            &&& r->Ok_0.1 + d.1 == data.len()
        },
        Err(msg) => r is Err && r->Err_0@ == BencodeFault::ParseError(msg),
    }
}

/// Decodes the value at the front of `data` and says how many bytes it
/// takes up; bytes after it are not looked at. The entries of every
/// dictionary in the value stand in the order of their keys, each key
/// once.
pub fn parse_front(data: &[u8]) -> (r: Result<(BencodeValue, usize), BencodeError>)
    ensures
        parse_front_result(data@, r),
{
    if nests_deeper_than(data, MAX_DEPTH) {
        return Err(BencodeError::ParseError(String::from_str("Value is nested too deeply")));
    }
    match decode_front(data) {
        Ok(p) => {
            let used = data.len() - p.1;
            let value = lift(p.0);
            Ok((sorted_value(&value), used))
        },
        Err(e) => Err(BencodeError::ParseError(e)),
    }
}

/// The value that decoding finds at the front of `data`, or the fault
/// that it ends in.
pub open spec fn decoded_root(data: Seq<u8>) -> Result<BencodeModel, BencodeFault> {
    match decoding(data) {
        Ok(d) => Ok(d.0),
        Err(m) => Err(BencodeFault::ParseError(m)),
    }
}

/// The outcome of decoding, as models.
pub open spec fn value_result(r: Result<BencodeValue, BencodeError>) -> Result<
    BencodeModel,
    BencodeFault,
> {
    match r {
        Ok(v) => Ok(v@),
        Err(e) => Err(e@),
    }
}

/// Decodes the value at the front of `data`. The entries of every
/// dictionary in it stand in the order of their keys, each key once.
pub fn parse(data: &[u8]) -> (r: Result<BencodeValue, BencodeError>)
    ensures
        value_result(r) == decoded_root(data@),
        r is Ok ==> keys_ascend(r->Ok_0),
{
    match parse_front(data) {
        Ok(p) => Ok(p.0),
        Err(e) => Err(e),
    }
}

/// The value under `key` in the dictionary that `entries` stands for.
pub fn lookup<'a>(entries: &'a Vec<DictEntry>, key: &[u8]) -> (r: Option<&'a BencodeValue>)
    ensures
        match r {
            Some(v) => entries_model(entries@).contains_key(key@) && entries_model(entries@)[key@]
                == v@,
            None => !entries_model(entries@).contains_key(key@),
        },
{
    let mut i: usize = entries.len();
    assert(entries@.subrange(0, i as int) == entries@);
    while i > 0
        invariant
            i <= entries.len(),
            entries_model(entries@).contains_key(key@) <==> entries_model(
                entries@.subrange(0, i as int),
            ).contains_key(key@),
            entries_model(entries@).contains_key(key@) ==> entries_model(entries@)[key@]
                == entries_model(entries@.subrange(0, i as int))[key@],
        decreases i,
    {
        let ghost front = entries@.subrange(0, i as int);
        assert(front.drop_last() == entries@.subrange(0, i - 1));
        assert(front.last() == entries@[i - 1]);
        i -= 1;
        if bytes_eq(entries[i].key.as_slice(), key) {
            return Some(&entries[i].value);
        }
    }
    assert(entries@.subrange(0, 0).len() == 0);
    None
}

/// The failure for a field that is absent or of the wrong kind.
pub open spec fn missing_key_fault(key: Seq<char>) -> BencodeFault {
    BencodeFault::InvalidStructure("Missing or invalid key: "@ + key)
}

fn missing_key(key: &str) -> (r: BencodeError)
    ensures
        r@ == missing_key_fault(key@),
{
    let mut msg = String::from_str("Missing or invalid key: ");
    msg.append(key);
    BencodeError::InvalidStructure(msg)
}

/// The integer under `key`, if the dictionary holds one there.
pub open spec fn int_field(dict: Map<Seq<u8>, BencodeModel>, key: Seq<u8>) -> Option<int> {
    if dict.contains_key(key) && dict[key] is Int {
        Some(dict[key]->Int_0)
    } else {
        None
    }
}

/// The byte string under `key`, if the dictionary holds one there.
pub open spec fn bytes_field(dict: Map<Seq<u8>, BencodeModel>, key: Seq<u8>) -> Option<Seq<u8>> {
    if dict.contains_key(key) && dict[key] is Bytes {
        Some(dict[key]->Bytes_0)
    } else {
        None
    }
}

/// The list under `key`, if the dictionary holds one there.
pub open spec fn list_field(dict: Map<Seq<u8>, BencodeModel>, key: Seq<u8>) -> Option<
    Seq<BencodeModel>,
> {
    if dict.contains_key(key) && dict[key] is List {
        Some(dict[key]->List_0)
    } else {
        None
    }
}

/// The dictionary under `key`, if the dictionary holds one there.
pub open spec fn dict_field(dict: Map<Seq<u8>, BencodeModel>, key: Seq<u8>) -> Option<
    Map<Seq<u8>, BencodeModel>,
> {
    if dict.contains_key(key) && dict[key] is Dict {
        Some(dict[key]->Dict_0)
    } else {
        None
    }
}

/// Reads the integer under `key`; a missing key or another kind of value
/// is an `InvalidStructure` error that names the key.
pub fn get_int(dict: &Vec<DictEntry>, key: &str) -> (r: Result<i64, BencodeError>)
    ensures
        match int_field(entries_model(dict@), key.spec_bytes()) {
            Some(i) => r is Ok && r->Ok_0 == i,
            None => r is Err && r->Err_0@ == missing_key_fault(key@),
        },
{
    match lookup(dict, key.as_bytes()) {
        Some(BencodeValue::Int(i)) => Ok(*i),
        _ => Err(missing_key(key)),
    }
}

/// Reads the byte string under `key`; a missing key or another kind of
/// value is an `InvalidStructure` error that names the key.
pub fn get_bytes(dict: &Vec<DictEntry>, key: &str) -> (r: Result<Vec<u8>, BencodeError>)
    ensures
        match bytes_field(entries_model(dict@), key.spec_bytes()) {
            Some(b) => r is Ok && r->Ok_0@ == b,
            None => r is Err && r->Err_0@ == missing_key_fault(key@),
        },
{
    match lookup(dict, key.as_bytes()) {
        Some(BencodeValue::Bytes(b)) => Ok(b.clone()),
        _ => Err(missing_key(key)),
    }
}

/// Reads the byte string under `key` as text, decoded lossily; a missing
/// key or another kind of value is an `InvalidStructure` error that names
/// the key.
pub fn get_string(dict: &Vec<DictEntry>, key: &str) -> (r: Result<String, BencodeError>)
    ensures
        match bytes_field(entries_model(dict@), key.spec_bytes()) {
            Some(b) => r is Ok && r->Ok_0@ == crate::text::lossy_text(b),
            None => r is Err && r->Err_0@ == missing_key_fault(key@),
        },
{
    match lookup(dict, key.as_bytes()) {
        Some(BencodeValue::Bytes(b)) => Ok(utf8_lossy(b.as_slice())),
        _ => Err(missing_key(key)),
    }
}

/// The text under `key`, if the dictionary holds a byte string there.
pub open spec fn text_field(dict: Map<Seq<u8>, BencodeModel>, key: Seq<u8>) -> Option<Seq<char>> {
    match bytes_field(dict, key) {
        Some(b) => Some(crate::text::lossy_text(b)),
        None => None,
    }
}

/// The integer under `key`, if there is one.
pub fn find_int(dict: &Vec<DictEntry>, key: &str) -> (r: Option<i64>)
    ensures
        match int_field(entries_model(dict@), key.spec_bytes()) {
            Some(i) => r == Some(i as i64) && r->Some_0 == i,
            None => r is None,
        },
{
    match lookup(dict, key.as_bytes()) {
        Some(BencodeValue::Int(i)) => Some(*i),
        _ => None,
    }
}

/// The byte string under `key` as text, decoded lossily, if there is one.
pub fn find_text(dict: &Vec<DictEntry>, key: &str) -> (r: Option<String>)
    ensures
        r.deep_view() == text_field(entries_model(dict@), key.spec_bytes()),
{
    match lookup(dict, key.as_bytes()) {
        Some(BencodeValue::Bytes(b)) => Some(utf8_lossy(b.as_slice())),
        _ => None,
    }
}

/// The dictionary under `key`, if there is one.
pub fn find_dict<'a>(dict: &'a Vec<DictEntry>, key: &[u8]) -> (r: Option<&'a Vec<DictEntry>>)
    ensures
        match dict_field(entries_model(dict@), key@) {
            Some(d) => r is Some && entries_model(r->Some_0@) == d,
            None => r is None,
        },
{
    match lookup(dict, key) {
        Some(BencodeValue::Dict(d)) => Some(d),
        _ => None,
    }
}

/// The list under `key`, if there is one.
pub fn find_list<'a>(dict: &'a Vec<DictEntry>, key: &[u8]) -> (r: Option<&'a Vec<BencodeValue>>)
    ensures
        match list_field(entries_model(dict@), key@) {
            Some(l) => r is Some && list_model(r->Some_0@) == l,
            None => r is None,
        },
{
    match lookup(dict, key) {
        Some(BencodeValue::List(l)) => Some(l),
        _ => None,
    }
}

} // verus!
