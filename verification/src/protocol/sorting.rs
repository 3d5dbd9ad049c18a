//! The order of the keys of a dictionary, and values brought into it.

use crate::protocol::bencode::{entries_model, list_model, value_view, BencodeValue, DictEntry};
use crate::text::bytes_eq;
use vstd::prelude::*;

verus! {

/// Whether the key `a` comes before the key `b`: at the first place
/// where they differ `a` has the smaller byte, or `a` ends there and `b`
/// goes on.
pub open spec fn key_before(a: Seq<u8>, b: Seq<u8>) -> bool
    decreases a.len(),
{
    if b.len() == 0 {
        false
    } else if a.len() == 0 {
        true
    } else if a[0] != b[0] {
        a[0] < b[0]
    } else {
        key_before(a.drop_first(), b.drop_first())
    }
}

/// No key comes before itself.
pub proof fn lemma_key_not_before_itself(a: Seq<u8>)
    ensures
        !key_before(a, a),
    decreases a.len(),
{
    if a.len() > 0 {
        lemma_key_not_before_itself(a.drop_first());
    }
}

/// A key that comes before a second one comes before every key that the
/// second one comes before.
pub proof fn lemma_key_before_chains(a: Seq<u8>, b: Seq<u8>, c: Seq<u8>)
    requires
        key_before(a, b),
        key_before(b, c),
    ensures
        key_before(a, c),
    decreases a.len(),
{
    if a.len() > 0 && a[0] == b[0] && b[0] == c[0] {
        lemma_key_before_chains(a.drop_first(), b.drop_first(), c.drop_first());
    }
}

/// Of two different keys one comes before the other.
pub proof fn lemma_key_before_either_way(a: Seq<u8>, b: Seq<u8>)
    requires
        a != b,
    ensures
        key_before(a, b) || key_before(b, a),
    decreases a.len(),
{
    if a.len() == 0 || b.len() == 0 {
        if a.len() == 0 && b.len() == 0 {
            assert(a =~= b);
        }
    } else if a[0] == b[0] {
        if a.drop_first() == b.drop_first() {
            assert(a.len() == a.drop_first().len() + 1);
            assert(b.len() == b.drop_first().len() + 1);
            assert forall|i: int| 0 <= i < a.len() implies a[i] == b[i] by {
                if i > 0 {
                    assert(a[i] == a.drop_first()[i - 1]);
                    assert(b[i] == b.drop_first()[i - 1]);
                }
            }
            assert(a =~= b);
        }
        lemma_key_before_either_way(a.drop_first(), b.drop_first());
    }
}

/// Whether `a` comes before `b` in the order of dictionary keys.
pub fn key_less(a: &[u8], b: &[u8]) -> (r: bool)
    ensures
        r == key_before(a@, b@),
{
    let mut i: usize = 0;
    assert(a@.skip(0) == a@);
    assert(b@.skip(0) == b@);
    loop
        invariant
            i <= a.len(),
            i <= b.len(),
            key_before(a@, b@) == key_before(a@.skip(i as int), b@.skip(i as int)),
        decreases a.len() - i,
    {
        if i >= b.len() {
            return false;
        }
        if i >= a.len() {
            return true;
        }
        assert(a@.skip(i as int)[0] == a@[i as int]);
        assert(b@.skip(i as int)[0] == b@[i as int]);
        if a[i] != b[i] {
            return a[i] < b[i];
        }
        assert(a@.skip(i as int).drop_first() == a@.skip(i + 1));
        assert(b@.skip(i as int).drop_first() == b@.skip(i + 1));
        i += 1;
    }
}

/// Whether the keys of a list of entries ascend: each comes before all
/// that follow it, so that none occurs twice.
pub open spec fn keys_ascending(entries: Seq<DictEntry>) -> bool {
    forall|i: int, j: int|
        #![trigger entries[i], entries[j]]
        0 <= i < j < entries.len() ==> key_before(entries[i].key@, entries[j].key@)
}

/// Whether the keys of every dictionary in a value ascend.
pub open spec fn keys_ascend(v: BencodeValue) -> bool
    decreases v, 1nat,
{
    match v {
        BencodeValue::Bytes(_) => true,
        BencodeValue::Int(_) => true,
        BencodeValue::List(l) => list_ascends(l@),
        BencodeValue::Dict(d) => keys_ascending(d@) && entries_ascend(d@),
    }
}

/// Whether the keys of every dictionary in the values of a list ascend.
pub open spec fn list_ascends(items: Seq<BencodeValue>) -> bool
    decreases items, 0nat,
{
    if items.len() == 0 {
        true
    } else {
        list_ascends(items.drop_last()) && keys_ascend(items.last())
    }
}

/// Whether the keys of every dictionary in the values of a list of
/// entries ascend.
pub open spec fn entries_ascend(entries: Seq<DictEntry>) -> bool
    decreases entries, 0nat,
{
    if entries.len() == 0 {
        true
    } else {
        entries_ascend(entries.drop_last()) && keys_ascend(entries.last().value)
    }
}

/// The values of a list of entries ascend together exactly where each of
/// them does.
pub proof fn lemma_entries_ascend_each(entries: Seq<DictEntry>)
    ensures
        entries_ascend(entries) <==> forall|i: int|
            0 <= i < entries.len() ==> keys_ascend(#[trigger] entries[i].value),
    decreases entries.len(),
{
    if entries.len() > 0 {
        let front = entries.drop_last();
        lemma_entries_ascend_each(front);
        if entries_ascend(entries) {
            assert forall|i: int| 0 <= i < entries.len() implies keys_ascend(
                #[trigger] entries[i].value,
            ) by {
                if i < front.len() {
                    assert(entries[i] == front[i]);
                }
            }
        }
        if forall|i: int| 0 <= i < entries.len() ==> keys_ascend(#[trigger] entries[i].value) {
            assert forall|i: int| 0 <= i < front.len() implies keys_ascend(
                #[trigger] front[i].value,
            ) by {
                assert(front[i] == entries[i]);
            }
            assert(keys_ascend(entries[entries.len() - 1].value));
        }
    }
}

/// A dictionary holds a key exactly where one of its entries has it.
pub proof fn lemma_model_holds_the_keys(entries: Seq<DictEntry>, key: Seq<u8>)
    ensures
        entries_model(entries).contains_key(key) <==> exists|i: int|
            0 <= i < entries.len() && (#[trigger] entries[i]).key@ == key,
    decreases entries.len(),
{
    if entries.len() > 0 {
        let front = entries.drop_last();
        lemma_model_holds_the_keys(front, key);
        if entries_model(entries).contains_key(key) {
            if entries.last().key@ == key {
                assert(entries[entries.len() - 1].key@ == key);
            } else {
                let i = choose|i: int| 0 <= i < front.len() && (#[trigger] front[i]).key@ == key;
                assert(entries[i].key@ == key);
            }
        }
        if exists|i: int| 0 <= i < entries.len() && (#[trigger] entries[i]).key@ == key {
            let i = choose|i: int| 0 <= i < entries.len() && (#[trigger] entries[i]).key@ == key;
            if i < front.len() {
                assert(front[i].key@ == key);
            }
        }
    }
}

/// Under the key of an entry that no later entry repeats, a dictionary
/// holds that entry's value.
pub proof fn lemma_model_holds_the_value(entries: Seq<DictEntry>, i: int)
    requires
        0 <= i < entries.len(),
        forall|j: int| i < j < entries.len() ==> (#[trigger] entries[j]).key@ != entries[i].key@,
    ensures
        entries_model(entries).contains_key(entries[i].key@),
        entries_model(entries)[entries[i].key@] == value_view(entries[i].value),
    decreases entries.len(),
{
    if i < entries.len() - 1 {
        let front = entries.drop_last();
        assert(front[i] == entries[i]);
        assert(entries[entries.len() - 1].key@ != entries[i].key@);
        assert forall|j: int| i < j < front.len() implies (#[trigger] front[j]).key@
            != front[i].key@ by {
            assert(front[j] == entries[j]);
        }
        lemma_model_holds_the_value(front, i);
    }
}

/// The list of entries with `entry` put at place `at`: in place of the
/// entry there, where that has the same key, and before it otherwise.
pub open spec fn with_entry(entries: Seq<DictEntry>, at: int, entry: DictEntry) -> Seq<DictEntry> {
    if at < entries.len() && entries[at].key@ == entry.key@ {
        entries.update(at, entry)
    } else {
        entries.insert(at, entry)
    }
}

/// An entry put at its place among ascending keys leaves the keys
/// ascending, and the dictionary is the one before with the entry's value
/// under its key.
pub proof fn lemma_with_entry(entries: Seq<DictEntry>, at: int, entry: DictEntry)
    requires
        keys_ascending(entries),
        0 <= at <= entries.len(),
        forall|j: int| 0 <= j < at ==> key_before((#[trigger] entries[j]).key@, entry.key@),
        at < entries.len() ==> !key_before(entries[at].key@, entry.key@),
    ensures
        keys_ascending(with_entry(entries, at, entry)),
        entries_model(with_entry(entries, at, entry)) == entries_model(entries).insert(
            entry.key@,
            value_view(entry.value),
        ),
{
    let after = with_entry(entries, at, entry);
    let replaced = at < entries.len() && entries[at].key@ == entry.key@;
    // Where each entry of the new list stood in the old one.
    let origin = |i: int|
        if i < at || replaced {
            i
        } else {
            i - 1
        };
    assert forall|i: int| 0 <= i < after.len() && i != at implies 0 <= origin(i) < entries.len()
        && #[trigger] after[i] == entries[origin(i)] by {}
    assert(after[at] == entry);
    assert forall|j: int| at < j < after.len() implies key_before(
        entry.key@,
        (#[trigger] after[j]).key@,
    ) by {
        let first = entries[at];
        if !replaced {
            lemma_key_before_either_way(first.key@, entry.key@);
        }
        if origin(j) > at {
            assert(key_before(entries[at].key@, entries[origin(j)].key@));
            if !replaced {
                lemma_key_before_chains(entry.key@, first.key@, after[j].key@);
            }
        }
    }
    assert forall|i: int, j: int| 0 <= i < j < after.len() implies key_before(
        after[i].key@,
        after[j].key@,
    ) by {
        if i != at && j != at {
            assert(key_before(entries[origin(i)].key@, entries[origin(j)].key@));
        }
    }
    assert forall|i: int, j: int| 0 <= i < j < after.len() implies after[j].key@
        != after[i].key@ by {
        lemma_key_not_before_itself(after[i].key@);
    }
    assert forall|i: int, j: int| 0 <= i < j < entries.len() implies entries[j].key@
        != entries[i].key@ by {
        lemma_key_not_before_itself(entries[i].key@);
    }
    let old_model = entries_model(entries);
    let new_model = entries_model(after);
    let wanted = old_model.insert(entry.key@, value_view(entry.value));
    assert forall|key: Seq<u8>| new_model.contains_key(key) <==> wanted.contains_key(key) by {
        lemma_model_holds_the_keys(entries, key);
        lemma_model_holds_the_keys(after, key);
        if new_model.contains_key(key) {
            let i = choose|i: int| 0 <= i < after.len() && (#[trigger] after[i]).key@ == key;
            if i != at {
                assert(entries[origin(i)].key@ == key);
            }
        }
        if wanted.contains_key(key) {
            if key == entry.key@ {
                assert(after[at].key@ == key);
            } else {
                let i = choose|i: int| 0 <= i < entries.len() && (#[trigger] entries[i]).key@ == key;
                let to = if i < at {
                    i
                } else if replaced {
                    i
                } else {
                    i + 1
                };
                assert(after[to].key@ == key);
            }
        }
    }
    assert forall|key: Seq<u8>| new_model.contains_key(key) implies new_model[key]
        == wanted[key] by {
        lemma_model_holds_the_keys(after, key);
        let i = choose|i: int| 0 <= i < after.len() && (#[trigger] after[i]).key@ == key;
        lemma_model_holds_the_value(after, i);
        if i != at {
            assert(after[i].key@ != after[at].key@);
            lemma_model_holds_the_value(entries, origin(i));
        }
    }
    assert(new_model =~= wanted);
}

/// Puts the value under the key into a list of entries whose keys
/// ascend, at the key's place.
fn put_entry(entries: &mut Vec<DictEntry>, key: Vec<u8>, value: BencodeValue)
    requires
        keys_ascending(old(entries)@),
        entries_ascend(old(entries)@),
        keys_ascend(value),
    ensures
        keys_ascending(final(entries)@),
        entries_ascend(final(entries)@),
        entries_model(final(entries)@) == entries_model(old(entries)@).insert(
            key@,
            value_view(value),
        ),
{
    let ghost before = entries@;
    let mut at: usize = 0;
    while at < entries.len() && key_less(entries[at].key.as_slice(), key.as_slice())
        invariant
            entries@ == before,
            at <= entries.len(),
            forall|j: int| 0 <= j < at ==> key_before((#[trigger] before[j]).key@, key@),
        decreases entries.len() - at,
    {
        at += 1;
    }
    let entry = DictEntry { key, value };
    proof {
        lemma_with_entry(before, at as int, entry);
        lemma_entries_ascend_each(before);
        lemma_entries_ascend_each(with_entry(before, at as int, entry));
    }
    if at < entries.len() && bytes_eq(entries[at].key.as_slice(), entry.key.as_slice()) {
        entries[at] = entry;
    } else {
        entries.insert(at, entry);
    }
    assert(entries@ == with_entry(before, at as int, entry));
}

/// The value with the entries of every dictionary in the order of their
/// keys. It stands for what the value stood for.
pub fn sorted_value(v: &BencodeValue) -> (r: BencodeValue)
    ensures
        r@ == v@,
        keys_ascend(r),
    decreases *v, 1nat,
{
    match v {
        BencodeValue::Bytes(b) => BencodeValue::Bytes(b.clone()),
        BencodeValue::Int(i) => BencodeValue::Int(*i),
        BencodeValue::List(l) => BencodeValue::List(sorted_list(l)),
        BencodeValue::Dict(d) => BencodeValue::Dict(sorted_entries(d)),
    }
}

fn sorted_list(items: &Vec<BencodeValue>) -> (r: Vec<BencodeValue>)
    ensures
        list_model(r@) == list_model(items@),
        list_ascends(r@),
    decreases *items, 0nat,
{
    let mut out: Vec<BencodeValue> = Vec::new();
    let mut i: usize = 0;
    assert(items@.subrange(0, 0).len() == 0);
    while i < items.len()
        invariant
            i <= items.len(),
            list_model(out@) == list_model(items@.subrange(0, i as int)),
            list_ascends(out@),
        decreases items.len() - i,
    {
        let ghost before = out@;
        let item = sorted_value(&items[i]);
        out.push(item);
        proof {
            assert(out@.drop_last() == before);
            assert(out@.last() == item);
            assert(items@.subrange(0, i + 1).drop_last() == items@.subrange(0, i as int));
            assert(items@.subrange(0, i + 1).last() == items@[i as int]);
        }
        i += 1;
    }
    assert(items@.subrange(0, i as int) == items@);
    out
}

fn sorted_entries(entries: &Vec<DictEntry>) -> (r: Vec<DictEntry>)
    ensures
        entries_model(r@) == entries_model(entries@),
        keys_ascending(r@),
        entries_ascend(r@),
    decreases *entries, 0nat,
{
    let mut out: Vec<DictEntry> = Vec::new();
    let mut i: usize = 0;
    assert(entries@.subrange(0, 0).len() == 0);
    while i < entries.len()
        invariant
            i <= entries.len(),
            entries_model(out@) == entries_model(entries@.subrange(0, i as int)),
            keys_ascending(out@),
            entries_ascend(out@),
        decreases entries.len() - i,
    {
        let value = sorted_value(&entries[i].value);
        put_entry(&mut out, entries[i].key.clone(), value);
        proof {
            assert(entries@.subrange(0, i + 1).drop_last() == entries@.subrange(0, i as int));
            assert(entries@.subrange(0, i + 1).last() == entries@[i as int]);
        }
        i += 1;
    }
    assert(entries@.subrange(0, i as int) == entries@);
    out
}

} // verus!
