//! Small text helpers shared by the protocol and fingerprint modules.

use vstd::prelude::*;
use vstd::string::*;

verus! {

/// The text that lossy UTF-8 decoding gives for a byte string.
pub uninterp spec fn lossy_text(bytes: Seq<u8>) -> Seq<char>;

/// `String::from_utf8_lossy`: decodes `bytes` as UTF-8, putting U+FFFD in
/// place of what is not valid. The result depends on the bytes alone.
#[verifier::external_body]
pub(crate) fn utf8_lossy(bytes: &[u8]) -> (r: String)
    ensures
        r@ == lossy_text(bytes@),
{
    String::from_utf8_lossy(bytes).into_owned()
}

/// `String::push`: appends one character.
#[verifier::external_body]
pub(crate) fn push_char(s: &mut String, c: char)
    ensures
        final(s)@ == old(s)@.push(c),
{
    s.push(c)
}

/// Whether two byte strings hold the same bytes.
pub fn bytes_eq(a: &[u8], b: &[u8]) -> (r: bool)
    ensures
        r == (a@ == b@),
{
    if a.len() != b.len() {
        return false;
    }
    let mut i: usize = 0;
    while i < a.len()
        invariant
            i <= a.len(),
            a.len() == b.len(),
            a@.subrange(0, i as int) == b@.subrange(0, i as int),
        decreases a.len() - i,
    {
        if a[i] != b[i] {
            return false;
        }
        assert(a@.subrange(0, i + 1) == a@.subrange(0, i as int).push(a@[i as int]));
        assert(b@.subrange(0, i + 1) == b@.subrange(0, i as int).push(b@[i as int]));
        i += 1;
    }
    assert(a@ == a@.subrange(0, a.len() as int));
    assert(b@ == b@.subrange(0, b.len() as int));
    true
}

/// The character of a decimal digit.
pub open spec fn digit_char(d: int) -> char {
    (48 + d) as char
}

/// The character of a hexadecimal digit, with letters in upper or lower
/// case.
pub open spec fn hex_char(d: int, upper: bool) -> char {
    if d < 10 {
        (48 + d) as char
    } else if upper {
        (55 + d) as char
    } else {
        (87 + d) as char
    }
}

/// A natural number written in decimal, without leading zeros.
pub open spec fn decimal_text(n: nat) -> Seq<char>
    decreases n,
{
    if n < 10 {
        seq![digit_char(n as int)]
    } else {
        decimal_text(n / 10).push(digit_char((n % 10) as int))
    }
}

/// Each byte as two lower-case hexadecimal digits.
pub open spec fn hex_lower_text(bytes: Seq<u8>) -> Seq<char>
    decreases bytes.len(),
{
    if bytes.len() == 0 {
        Seq::empty()
    } else {
        hex_lower_text(bytes.drop_last()).push(hex_char(bytes.last() as int / 16, false)).push(
            hex_char(bytes.last() as int % 16, false),
        )
    }
}

/// Each byte as `%` and two upper-case hexadecimal digits.
pub open spec fn percent_text(bytes: Seq<u8>) -> Seq<char>
    decreases bytes.len(),
{
    if bytes.len() == 0 {
        Seq::empty()
    } else {
        percent_text(bytes.drop_last()).push('%').push(
            hex_char(bytes.last() as int / 16, true),
        ).push(hex_char(bytes.last() as int % 16, true))
    }
}

fn hex_digit(d: u8, upper: bool) -> (c: char)
    requires
        d < 16,
    ensures
        c == hex_char(d as int, upper),
{
    if d < 10 {
        (48 + d) as char
    } else if upper {
        (55 + d) as char
    } else {
        (87 + d) as char
    }
}

/// Appends `n` in decimal to `s`.
pub fn append_decimal(s: &mut String, n: u64)
    ensures
        final(s)@ == old(s)@ + decimal_text(n as nat),
    decreases n,
{
    if n >= 10 {
        append_decimal(s, n / 10);
    }
    push_char(s, (48 + (n % 10) as u8) as char);
    assert(final(s)@ =~= old(s)@ + decimal_text(n as nat));
}

/// The bytes in lower-case hexadecimal.
pub fn hex_lower(bytes: &[u8]) -> (r: String)
    ensures
        r@ == hex_lower_text(bytes@),
{
    let mut r = String::new();
    let mut i: usize = 0;
    assert(bytes@.subrange(0, 0) =~= Seq::<u8>::empty());
    while i < bytes.len()
        invariant
            i <= bytes.len(),
            r@ == hex_lower_text(bytes@.subrange(0, i as int)),
        decreases bytes.len() - i,
    {
        proof {
            assert(bytes@.subrange(0, i + 1).drop_last() == bytes@.subrange(0, i as int));
            assert(bytes@.subrange(0, i + 1).last() == bytes@[i as int]);
        }
        let b = bytes[i];
        push_char(&mut r, hex_digit(b / 16, false));
        push_char(&mut r, hex_digit(b % 16, false));
        i += 1;
    }
    assert(bytes@.subrange(0, i as int) == bytes@);
    r
}

/// Appends each byte to `s` as `%` and two upper-case hexadecimal digits.
pub fn append_percent_encoded(s: &mut String, bytes: &[u8])
    ensures
        final(s)@ == old(s)@ + percent_text(bytes@),
{
    let mut i: usize = 0;
    assert(bytes@.subrange(0, 0) =~= Seq::<u8>::empty());
    assert(s@ =~= old(s)@ + percent_text(bytes@.subrange(0, 0)));
    while i < bytes.len()
        invariant
            i <= bytes.len(),
            s@ == old(s)@ + percent_text(bytes@.subrange(0, i as int)),
        decreases bytes.len() - i,
    {
        proof {
            assert(bytes@.subrange(0, i + 1).drop_last() == bytes@.subrange(0, i as int));
            assert(bytes@.subrange(0, i + 1).last() == bytes@[i as int]);
        }
        let b = bytes[i];
        let ghost before = s@;
        push_char(s, '%');
        push_char(s, hex_digit(b / 16, true));
        push_char(s, hex_digit(b % 16, true));
        assert(s@ =~= old(s)@ + percent_text(bytes@.subrange(0, i + 1)));
        i += 1;
    }
    assert(bytes@.subrange(0, i as int) == bytes@);
}

/// The characters of `s`.
pub fn to_chars(s: &str) -> (r: Vec<char>)
    ensures
        r@ == s@,
{
    let n = s.unicode_len();
    let mut r: Vec<char> = Vec::new();
    let mut i: usize = 0;
    while i < n
        invariant
            i <= n,
            n == s@.len(),
            r@ == s@.subrange(0, i as int),
        decreases n - i,
    {
        r.push(s.get_char(i));
        assert(r@ =~= s@.subrange(0, i + 1));
        i += 1;
    }
    assert(s@.subrange(0, n as int) =~= s@);
    r
}

/// Appends the characters `chars` to `s`.
pub fn append_chars(s: &mut String, chars: &[char])
    ensures
        final(s)@ == old(s)@ + chars@,
{
    let mut i: usize = 0;
    assert(s@ =~= old(s)@ + chars@.subrange(0, 0));
    while i < chars.len()
        invariant
            i <= chars.len(),
            s@ == old(s)@ + chars@.subrange(0, i as int),
        decreases chars.len() - i,
    {
        push_char(s, chars[i]);
        assert(s@ =~= old(s)@ + chars@.subrange(0, i + 1));
        i += 1;
    }
    assert(chars@.subrange(0, i as int) =~= chars@);
}

/// `s` cut at each `sep`: the pieces between the separators, in order.
pub open spec fn split_text(s: Seq<char>, sep: char) -> Seq<Seq<char>>
    decreases s.len(),
{
    if s.len() == 0 {
        seq![Seq::empty()]
    } else {
        let front = split_text(s.drop_last(), sep);
        if s.last() == sep {
            front.push(Seq::empty())
        } else {
            front.drop_last().push(front.last().push(s.last()))
        }
    }
}

/// `s` without the characters equal to `c`.
pub open spec fn without_char(s: Seq<char>, c: char) -> Seq<char>
    decreases s.len(),
{
    if s.len() == 0 {
        Seq::empty()
    } else if s.last() == c {
        without_char(s.drop_last(), c)
    } else {
        without_char(s.drop_last(), c).push(s.last())
    }
}

/// `s` cut down or filled up with `fill` to exactly `width` characters.
pub open spec fn padded(s: Seq<char>, width: nat, fill: char) -> Seq<char> {
    if s.len() >= width {
        s.subrange(0, width as int)
    } else {
        s + Seq::new((width - s.len()) as nat, |i: int| fill)
    }
}

/// Cuts `s` at each `sep`.
pub fn split(s: &[char], sep: char) -> (r: Vec<Vec<char>>)
    ensures
        r.deep_view() == split_text(s@, sep),
        r.len() >= 1,
{
    let mut parts: Vec<Vec<char>> = Vec::new();
    let mut current: Vec<char> = Vec::new();
    let mut i: usize = 0;
    assert(s@.subrange(0, 0) =~= Seq::<char>::empty());
    assert(parts.deep_view().push(current@) =~= split_text(s@.subrange(0, 0), sep));
    while i < s.len()
        invariant
            i <= s.len(),
            parts.deep_view().push(current@) == split_text(s@.subrange(0, i as int), sep),
        decreases s.len() - i,
    {
        let ghost done = split_text(s@.subrange(0, i as int), sep);
        let ghost before = parts.deep_view();
        proof {
            assert(s@.subrange(0, i + 1).drop_last() == s@.subrange(0, i as int));
            assert(s@.subrange(0, i + 1).last() == s@[i as int]);
            assert(done.last() == current@);
            assert(done.drop_last() =~= before);
        }
        if s[i] == sep {
            let ghost piece = current;
            parts.push(current);
            current = Vec::new();
            assert(piece.deep_view() =~= piece@);
            assert(parts.deep_view() =~= before.push(piece@));
            assert(parts.deep_view() =~= done);
        } else {
            current.push(s[i]);
        }
        assert(parts.deep_view().push(current@) =~= split_text(s@.subrange(0, i + 1), sep));
        i += 1;
    }
    assert(s@.subrange(0, i as int) =~= s@);
    let ghost before = parts.deep_view();
    let ghost piece = current;
    parts.push(current);
    assert(piece.deep_view() =~= piece@);
    assert(parts.deep_view() =~= before.push(piece@));
    parts
}

/// Removes the characters equal to `c`.
pub fn remove_char(s: &[char], c: char) -> (r: Vec<char>)
    ensures
        r@ == without_char(s@, c),
{
    let mut out: Vec<char> = Vec::new();
    let mut i: usize = 0;
    assert(s@.subrange(0, 0) =~= Seq::<char>::empty());
    while i < s.len()
        invariant
            i <= s.len(),
            out@ == without_char(s@.subrange(0, i as int), c),
        decreases s.len() - i,
    {
        proof {
            assert(s@.subrange(0, i + 1).drop_last() == s@.subrange(0, i as int));
            assert(s@.subrange(0, i + 1).last() == s@[i as int]);
        }
        if s[i] != c {
            out.push(s[i]);
        }
        i += 1;
    }
    assert(s@.subrange(0, i as int) =~= s@);
    out
}

/// Cuts `s` down or fills it up with `fill` to exactly `width` characters.
pub fn pad_to_width(s: &[char], width: usize, fill: char) -> (r: Vec<char>)
    ensures
        r@ == padded(s@, width as nat, fill),
        r@.len() == width,
{
    let mut out: Vec<char> = Vec::new();
    let mut i: usize = 0;
    while i < width
        invariant
            i <= width,
            out@.len() == i,
            forall|k: int| 0 <= k < i ==> out@[k] == if k < s@.len() { s@[k] } else { fill },
        decreases width - i,
    {
        if i < s.len() {
            out.push(s[i]);
        } else {
            out.push(fill);
        }
        i += 1;
    }
    assert(out@ =~= padded(s@, width as nat, fill));
    out
}

/// The least index at or after `start` at which `c` stands in `s`, or the
/// length of `s` where it stands nowhere there.
pub open spec fn index_from(s: Seq<char>, c: char, start: int) -> int
    decreases s.len() - start,
{
    if start < 0 || start >= s.len() {
        s.len() as int
    } else if s[start] == c {
        start
    } else {
        index_from(s, c, start + 1)
    }
}

/// The first place of `c` in `s`, or the length of `s`.
pub fn find_char(s: &[char], c: char) -> (r: usize)
    ensures
        r == index_from(s@, c, 0),
        r <= s@.len(),
        (r < s@.len()) == s@.contains(c),
{
    let mut i: usize = 0;
    while i < s.len() && s[i] != c
        invariant
            i <= s.len(),
            index_from(s@, c, 0) == index_from(s@, c, i as int),
            forall|k: int| 0 <= k < i ==> s@[k] != c,
        decreases s.len() - i,
    {
        i += 1;
    }
    proof {
        if i < s.len() {
            assert(s@[i as int] == c);
        }
    }
    i
}

/// Whether `s` ends with `tail`.
pub open spec fn ends_with(s: Seq<char>, tail: Seq<char>) -> bool {
    s.len() >= tail.len() && s.subrange(s.len() - tail.len(), s.len() as int) == tail
}

/// Whether the first `end` characters of `s` end with `tail`.
pub fn prefix_ends_with(s: &[char], end: usize, tail: &[char]) -> (r: bool)
    requires
        end <= s@.len(),
    ensures
        r == ends_with(s@.subrange(0, end as int), tail@),
{
    if tail.len() > end {
        return false;
    }
    let base: usize = end - tail.len();
    let ghost head = s@.subrange(0, end as int);
    let mut k: usize = 0;
    while k < tail.len()
        invariant
            k <= tail.len(),
            base + tail.len() == end,
            end <= s@.len(),
            head == s@.subrange(0, end as int),
            forall|j: int| 0 <= j < k ==> s@[base + j] == tail@[j],
        decreases tail.len() - k,
    {
        if s[base + k] != tail[k] {
            assert(head.subrange(head.len() - tail@.len(), head.len() as int)[k as int]
                == s@[base + k]);
            return false;
        }
        k += 1;
    }
    assert(head.subrange(head.len() - tail@.len(), head.len() as int) =~= tail@);
    true
}

/// `n` in decimal, filled up with zeros in front to `width` digits; the
/// digits beyond `width` are dropped.
pub open spec fn padded_decimal(n: nat, width: nat) -> Seq<char>
    decreases width,
{
    if width == 0 {
        Seq::empty()
    } else {
        padded_decimal(n / 10, (width - 1) as nat).push(digit_char((n % 10) as int))
    }
}

/// The digits after the point of `n / 10^width`, without zeros at the
/// end; none for a whole number.
pub open spec fn fraction_digits(n: nat, width: nat) -> Seq<char>
    decreases width,
{
    if width == 0 || n == 0 {
        Seq::empty()
    } else if n % 10 == 0 {
        fraction_digits(n / 10, (width - 1) as nat)
    } else {
        padded_decimal(n, width)
    }
}

/// A number of millionths written as a decimal number: a sign where it
/// is negative, the whole part, and, where there is one, a point and the
/// fraction without zeros at its end.
pub open spec fn millionths_text(v: int) -> Seq<char> {
    let size: nat = if v < 0 {
        (-v) as nat
    } else {
        v as nat
    };
    let sign: Seq<char> = if v < 0 {
        seq!['-']
    } else {
        Seq::empty()
    };
    let fraction = fraction_digits(size % 1_000_000, 6);
    sign + decimal_text(size / 1_000_000) + if fraction.len() == 0 {
        Seq::<char>::empty()
    } else {
        seq!['.'] + fraction
    }
}

/// Appends `n` in decimal to `s`, filled up with zeros in front to `width`
/// digits.
pub fn append_padded_decimal(s: &mut String, n: u64, width: u8)
    ensures
        final(s)@ == old(s)@ + padded_decimal(n as nat, width as nat),
    decreases width,
{
    if width == 0 {
        assert(s@ =~= old(s)@ + padded_decimal(n as nat, 0));
    } else {
        append_padded_decimal(s, n / 10, width - 1);
        push_char(s, (48 + (n % 10) as u8) as char);
        assert(final(s)@ =~= old(s)@ + padded_decimal(n as nat, width as nat));
    }
}

fn append_fraction(s: &mut String, n: u64, width: u8)
    ensures
        final(s)@ == old(s)@ + fraction_digits(n as nat, width as nat),
    decreases width,
{
    if width == 0 || n == 0 {
        assert(s@ =~= old(s)@ + Seq::<char>::empty());
    } else if n % 10 == 0 {
        append_fraction(s, n / 10, width - 1);
    } else {
        append_padded_decimal(s, n, width);
    }
}

/// Appends a number of millionths to `s` as a decimal number.
pub fn append_millionths(s: &mut String, v: i64)
    ensures
        final(s)@ == old(s)@ + millionths_text(v as int),
{
    let size: u64 = if v >= 0 {
        v as u64
    } else {
        0x8000_0000_0000_0000u64 - ((v - i64::MIN) as u64)
    };
    let ghost start = s@;
    if v < 0 {
        push_char(s, '-');
    }
    let ghost signed = s@;
    append_decimal(s, size / 1_000_000);
    let fraction = size % 1_000_000;
    let mut digits = String::new();
    append_fraction(&mut digits, fraction, 6);
    assert(digits@ =~= fraction_digits(fraction as nat, 6));
    if digits.as_str().unicode_len() > 0 {
        push_char(s, '.');
        s.append(digits.as_str());
    }
    proof {
        let sign: Seq<char> = if v < 0 {
            seq!['-']
        } else {
            Seq::empty()
        };
        assert(signed =~= start + sign);
        assert(s@ =~= start + millionths_text(v as int));
    }
}

/// Whether two texts hold the same characters.
pub fn text_eq(a: &str, b: &str) -> (r: bool)
    ensures
        r == (a@ == b@),
{
    proof {
        vstd::utf8::encode_utf8_decode_utf8(a@);
        vstd::utf8::encode_utf8_decode_utf8(b@);
    }
    bytes_eq(a.as_bytes(), b.as_bytes())
}

/// A whole number written in decimal, with a sign where it is negative.
pub open spec fn signed_decimal_text(v: int) -> Seq<char> {
    if v < 0 {
        seq!['-'] + decimal_text((-v) as nat)
    } else {
        decimal_text(v as nat)
    }
}

/// `v` in decimal, with a sign where it is negative.
pub fn signed_decimal(v: i64) -> (r: String)
    ensures
        r@ == signed_decimal_text(v as int),
{
    let mut out = String::new();
    if v < 0 {
        push_char(&mut out, '-');
        let size: u64 = 0x8000_0000_0000_0000u64 - ((v - i64::MIN) as u64);
        append_decimal(&mut out, size);
    } else {
        append_decimal(&mut out, v as u64);
        assert(out@ =~= decimal_text(v as nat));
    }
    out
}

} // verus!
