//! How deeply the lists and dictionaries of a bencoded value are nested,
//! told from its bytes before they are decoded.
//!
//! The scan reads the bytes token by token: an integer runs from `i` to
//! the next `e`, a byte string is a decimal length, a colon and that many
//! bytes, `l` and `d` open a list or a dictionary and `e` closes it. It
//! ends where the first value ends or where no token can be read.

use vstd::prelude::*;

verus! {

/// Whether `b` is a decimal digit.
pub open spec fn is_digit(b: u8) -> bool {
    48 <= b <= 57
}

/// The least index at or after `from` that holds `byte`, or the length
/// of `data`.
pub open spec fn next_byte(data: Seq<u8>, byte: u8, from: int) -> int
    decreases data.len() - from,
{
    if from < 0 || from >= data.len() {
        data.len() as int
    } else if data[from] == byte {
        from
    } else {
        next_byte(data, byte, from + 1)
    }
}

/// The least index at or after `from` that holds no digit, or the length
/// of `data`.
pub open spec fn digits_end(data: Seq<u8>, from: int) -> int
    decreases data.len() - from,
{
    if from < 0 || from >= data.len() {
        data.len() as int
    } else if !is_digit(data[from]) {
        from
    } else {
        digits_end(data, from + 1)
    }
}

/// The number that the digits from `from` up to `to` write, or `cap`
/// where that is less.
pub open spec fn capped_number(data: Seq<u8>, from: int, to: int, cap: nat) -> nat
    decreases to - from,
{
    if to <= from {
        0
    } else {
        let v = capped_number(data, from, to - 1, cap) * 10 + (data[to - 1] - 48);
        if v > cap {
            cap
        } else {
            v as nat
        }
    }
}

/// Where the integer that starts at `pos` ends, if it ends.
pub open spec fn after_integer(data: Seq<u8>, pos: int) -> Option<int> {
    let e = next_byte(data, 101, pos + 1);
    if e >= data.len() {
        None
    } else {
        Some(e + 1)
    }
}

/// Where the byte string that starts at `pos` ends, if its length can be
/// read and it lies within `data`.
pub open spec fn after_string(data: Seq<u8>, pos: int) -> Option<int> {
    let colon = digits_end(data, pos);
    if colon >= data.len() || data[colon] != 58 {
        None
    } else {
        let n = capped_number(data, pos, colon, data.len() + 1);
        if colon + 1 + n > data.len() {
            None
        } else {
            Some(colon + 1 + n)
        }
    }
}

/// Whether the tokens from `pos` on, read with `depth` lists and
/// dictionaries open, open more than `limit` at once before the first
/// value ends.
pub open spec fn nests_beyond_from(data: Seq<u8>, pos: int, depth: nat, limit: nat) -> bool
    decreases data.len() - pos,
{
    if pos < 0 || pos >= data.len() {
        false
    } else if data[pos] == 108 || data[pos] == 100 {
        if depth >= limit {
            true
        } else {
            nests_beyond_from(data, pos + 1, depth + 1, limit)
        }
    } else if data[pos] == 101 {
        if depth <= 1 {
            false
        } else {
            nests_beyond_from(data, pos + 1, (depth - 1) as nat, limit)
        }
    } else {
        let next = if data[pos] == 105 {
            after_integer(data, pos)
        } else if is_digit(data[pos]) {
            after_string(data, pos)
        } else {
            None
        };
        match next {
            Some(n) => if depth == 0 || n <= pos {
                false
            } else {
                nests_beyond_from(data, n, depth, limit)
            },
            None => false,
        }
    }
}

/// Whether the value at the front of `data` has more than `limit` lists
/// and dictionaries open at once.
pub open spec fn nests_beyond(data: Seq<u8>, limit: nat) -> bool {
    nests_beyond_from(data, 0, 0, limit)
}

fn find_byte(data: &[u8], byte: u8, from: usize) -> (r: usize)
    requires
        from <= data@.len(),
    ensures
        r == next_byte(data@, byte, from as int),
        from <= r <= data@.len(),
{
    let mut i: usize = from;
    while i < data.len() && data[i] != byte
        invariant
            from <= i <= data.len(),
            next_byte(data@, byte, from as int) == next_byte(data@, byte, i as int),
        decreases data.len() - i,
    {
        i += 1;
    }
    i
}

fn find_digits_end(data: &[u8], from: usize) -> (r: usize)
    requires
        from <= data@.len(),
    ensures
        r == digits_end(data@, from as int),
        from <= r <= data@.len(),
        forall|k: int| from <= k < r ==> is_digit(#[trigger] data@[k]),
{
    let mut i: usize = from;
    while i < data.len() && 48 <= data[i] && data[i] <= 57
        invariant
            from <= i <= data.len(),
            digits_end(data@, from as int) == digits_end(data@, i as int),
            forall|k: int| from <= k < i ==> is_digit(#[trigger] data@[k]),
        decreases data.len() - i,
    {
        i += 1;
    }
    i
}

fn read_number(data: &[u8], from: usize, to: usize, cap: u128) -> (r: u128)
    requires
        from <= to <= data@.len(),
        cap <= 0x1_0000_0000_0000_0000,
        forall|k: int| from <= k < to ==> is_digit(#[trigger] data@[k]),
    ensures
        r == capped_number(data@, from as int, to as int, cap as nat),
        r <= cap,
{
    let mut acc: u128 = 0;
    let mut i: usize = from;
    while i < to
        invariant
            from <= i <= to <= data@.len(),
            cap <= 0x1_0000_0000_0000_0000,
            forall|k: int| from <= k < to ==> is_digit(#[trigger] data@[k]),
            acc == capped_number(data@, from as int, i as int, cap as nat),
            acc <= cap,
        decreases to - i,
    {
        assert(is_digit(data@[i as int]));
        let digit: u128 = (data[i] - 48) as u128;
        let v: u128 = acc * 10 + digit;
        acc = if v > cap {
            cap
        } else {
            v
        };
        i += 1;
    }
    acc
}

/// Whether the value at the front of `data` has more than `limit` lists
/// and dictionaries open at once.
pub fn nests_deeper_than(data: &[u8], limit: usize) -> (r: bool)
    ensures
        r == nests_beyond(data@, limit as nat),
{
    let mut pos: usize = 0;
    let mut depth: usize = 0;
    while pos < data.len()
        invariant
            pos <= data.len(),
            depth <= limit,
            nests_beyond(data@, limit as nat) == nests_beyond_from(
                data@,
                pos as int,
                depth as nat,
                limit as nat,
            ),
        decreases data.len() - pos,
    {
        let b = data[pos];
        if b == 108 || b == 100 {
            if depth >= limit {
                return true;
            }
            depth += 1;
            pos += 1;
        } else if b == 101 {
            if depth <= 1 {
                return false;
            }
            depth -= 1;
            pos += 1;
        } else {
            let next: usize = if b == 105 {
                let e = find_byte(data, 101, pos + 1);
                if e >= data.len() {
                    return false;
                }
                e + 1
            } else if 48 <= b && b <= 57 {
                let colon = find_digits_end(data, pos);
                if colon >= data.len() || data[colon] != 58 {
                    return false;
                }
                let n = read_number(data, pos, colon, data.len() as u128 + 1);
                if (colon as u128) + 1 + n > data.len() as u128 {
                    return false;
                }
                colon + 1 + n as usize
            } else {
                return false;
            };
            if depth == 0 || next <= pos {
                return false;
            }
            pos = next;
        }
    }
    false
}

} // verus!
