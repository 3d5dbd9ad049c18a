use rustatio::protocol::bencode::{
    encode, get_bytes, get_int, get_string, lookup, parse, parse_front, BencodeError,
    BencodeValue, DictEntry,
};
use rustatio::protocol::sorting::{key_less, sorted_value};

fn entry(key: &str, value: BencodeValue) -> DictEntry {
    DictEntry { key: key.as_bytes().to_vec(), value }
}

#[test]
fn test_parse_simple_string() {
    let data = b"4:spam";
    let result = parse(data).unwrap();
    match result {
        BencodeValue::Bytes(b) => assert_eq!(b, b"spam"),
        _ => panic!("Expected bytes"),
    }
}

#[test]
fn test_parse_integer() {
    let data = b"i42e";
    let result = parse(data).unwrap();
    match result {
        BencodeValue::Int(i) => assert_eq!(i, 42),
        _ => panic!("Expected int"),
    }
}

#[test]
fn parse_list_keeps_order() {
    match parse(b"li1e3:abci-7ee").unwrap() {
        BencodeValue::List(items) => {
            assert_eq!(items.len(), 3);
            assert!(matches!(items[0], BencodeValue::Int(1)));
            assert!(matches!(&items[1], BencodeValue::Bytes(b) if b == b"abc"));
            assert!(matches!(items[2], BencodeValue::Int(-7)));
        }
        _ => panic!("Expected list"),
    }
}

#[test]
fn parse_dictionary_gives_every_entry() {
    match parse(b"d3:bari2e3:fooi1ee").unwrap() {
        BencodeValue::Dict(entries) => {
            assert_eq!(entries.len(), 2);
            assert!(matches!(lookup(&entries, b"foo"), Some(BencodeValue::Int(1))));
            assert!(matches!(lookup(&entries, b"bar"), Some(BencodeValue::Int(2))));
            assert!(lookup(&entries, b"baz").is_none());
        }
        _ => panic!("Expected dict"),
    }
}

#[test]
fn parse_rejects_what_is_not_bencode() {
    match parse(b"x") {
        Err(BencodeError::ParseError(m)) => {
            assert!(!m.is_empty());
            let text = BencodeError::ParseError(m.clone()).message();
            assert_eq!(text, format!("Failed to parse bencode: {}", m));
        }
        _ => panic!("Expected a parse error"),
    }
    assert!(matches!(parse(b""), Err(BencodeError::ParseError(_))));
    assert!(matches!(parse(b"5:abc"), Err(BencodeError::ParseError(_))));
}

#[test]
fn parse_front_counts_the_bytes_of_the_value() {
    let (value, used) = parse_front(b"i42e4:spam").unwrap();
    assert!(matches!(value, BencodeValue::Int(42)));
    assert_eq!(used, 4);
    let (value, used) = parse_front(b"d1:ai1eetrailing").unwrap();
    assert!(matches!(value, BencodeValue::Dict(_)));
    assert_eq!(used, 8);
}

#[test]
fn lookup_takes_the_later_of_two_entries() {
    let entries = vec![
        entry("k", BencodeValue::Int(1)),
        entry("k", BencodeValue::Int(2)),
    ];
    assert!(matches!(lookup(&entries, b"k"), Some(BencodeValue::Int(2))));
}

#[test]
fn typed_accessors_read_their_kind() {
    let entries = vec![
        entry("n", BencodeValue::Int(-5)),
        entry("s", BencodeValue::Bytes(b"text".to_vec())),
        entry("raw", BencodeValue::Bytes(vec![0xff, 0x41])),
    ];
    assert_eq!(get_int(&entries, "n").unwrap(), -5);
    assert_eq!(get_bytes(&entries, "s").unwrap(), b"text".to_vec());
    assert_eq!(get_string(&entries, "s").unwrap(), "text");
    assert_eq!(get_string(&entries, "raw").unwrap(), "\u{fffd}A");
}

#[test]
fn typed_accessors_name_the_missing_key() {
    let entries = vec![entry("n", BencodeValue::Int(1))];
    match get_int(&entries, "absent") {
        Err(BencodeError::InvalidStructure(m)) => {
            assert_eq!(m, "Missing or invalid key: absent");
            let text = BencodeError::InvalidStructure(m).message();
            assert_eq!(text, "Invalid bencode structure: Missing or invalid key: absent");
        }
        _ => panic!("Expected InvalidStructure"),
    }
    match get_bytes(&entries, "n") {
        Err(BencodeError::InvalidStructure(m)) => assert_eq!(m, "Missing or invalid key: n"),
        _ => panic!("Expected InvalidStructure"),
    }
    match get_string(&entries, "n") {
        Err(BencodeError::InvalidStructure(m)) => assert_eq!(m, "Missing or invalid key: n"),
        _ => panic!("Expected InvalidStructure"),
    }
}

#[test]
fn encode_writes_keys_in_order() {
    let value = BencodeValue::Dict(vec![
        entry("zeta", BencodeValue::Int(1)),
        entry("alpha", BencodeValue::List(vec![BencodeValue::Bytes(b"x".to_vec())])),
    ]);
    assert_eq!(encode(&value).unwrap(), b"d5:alphal1:xe4:zetai1ee".to_vec());
}

#[test]
fn encode_gives_back_what_was_parsed() {
    let inputs: Vec<&[u8]> = vec![
        b"i0e",
        b"i-42e",
        b"0:",
        b"4:spam",
        b"le",
        b"de",
        b"l4:spami42eli1eee",
        b"d3:bar4:spam3:fooi42e4:listl1:a1:bee",
        b"d8:announce3:url4:infod6:lengthi1e4:name1:xee",
    ];
    for input in inputs {
        let value = parse(input).unwrap();
        assert_eq!(encode(&value).unwrap(), input.to_vec());
    }
}

fn nested(depth: usize) -> Vec<u8> {
    let mut data = vec![b'l'; depth];
    data.extend(std::iter::repeat(b'e').take(depth));
    data
}

#[test]
fn deep_nesting_is_refused() {
    assert!(parse(&nested(256)).is_ok());
    match parse(&nested(257)) {
        Err(BencodeError::ParseError(m)) => assert_eq!(m, "Value is nested too deeply"),
        _ => panic!("expected a refusal"),
    }
    match parse(&vec![b'd'; 100_000]) {
        Err(BencodeError::ParseError(m)) => assert_eq!(m, "Value is nested too deeply"),
        _ => panic!("expected a refusal"),
    }
    let mut mixed = Vec::new();
    for _ in 0..300 {
        mixed.extend_from_slice(b"d1:al");
    }
    assert!(matches!(parse(&mixed), Err(BencodeError::ParseError(m)) if m == "Value is nested too deeply"));
}

#[test]
fn bytes_inside_strings_and_integers_open_nothing() {
    let mut data = b"l1000:".to_vec();
    data.extend(std::iter::repeat(b'l').take(500));
    data.extend(std::iter::repeat(b'd').take(500));
    data.extend_from_slice(b"i-12e");
    data.push(b'e');
    match parse(&data).unwrap() {
        BencodeValue::List(items) => {
            assert_eq!(items.len(), 2);
            assert!(matches!(&items[0], BencodeValue::Bytes(b) if b.len() == 1000));
            assert!(matches!(items[1], BencodeValue::Int(-12)));
        }
        _ => panic!("Expected list"),
    }
    let mut many = vec![b'l'];
    for _ in 0..5000 {
        many.extend_from_slice(b"lee");
        many.extend_from_slice(b"dee");
    }
    many.push(b'e');
    assert!(parse(&many).is_ok());
    let mut after = b"i1e".to_vec();
    after.extend(std::iter::repeat(b'l').take(10_000));
    assert!(matches!(parse(&after), Ok(BencodeValue::Int(1))));
}

#[test]
fn deep_values_are_not_encoded() {
    let mut value = BencodeValue::Int(1);
    for _ in 0..256 {
        value = BencodeValue::List(vec![value]);
    }
    assert_eq!(encode(&value).unwrap().len(), 256 + 3 + 256);
    value = BencodeValue::Dict(vec![entry("k", value)]);
    match encode(&value) {
        Err(BencodeError::ParseError(m)) => assert_eq!(m, "Value is nested too deeply"),
        _ => panic!("expected a refusal"),
    }
}

fn keys_of(value: &BencodeValue) -> Vec<Vec<u8>> {
    match value {
        BencodeValue::Dict(entries) => entries.iter().map(|e| e.key.clone()).collect(),
        _ => panic!("Expected dictionary"),
    }
}

#[test]
fn parsed_dictionaries_have_their_keys_in_order() {
    let data = b"d5:zebrai1e1:ai2e2:abi3e0:i4e1:bd1:yi5e1:xi6eee";
    let value = parse(data).unwrap();
    assert_eq!(
        keys_of(&value),
        vec![b"".to_vec(), b"a".to_vec(), b"ab".to_vec(), b"b".to_vec(), b"zebra".to_vec()]
    );
    let BencodeValue::Dict(entries) = &value else { panic!("Expected dictionary") };
    assert_eq!(keys_of(&entries[3].value), vec![b"x".to_vec(), b"y".to_vec()]);
    assert_eq!(get_int(entries, "zebra").unwrap(), 1);
    assert_eq!(get_int(entries, "ab").unwrap(), 3);
}

#[test]
fn dictionaries_inside_lists_are_in_order_too() {
    let value = parse(b"ld1:ci1e1:bi2e1:ai3eed2:\xff\x00i1e2:\x00\xffi2eee").unwrap();
    let BencodeValue::List(items) = &value else { panic!("Expected list") };
    assert_eq!(keys_of(&items[0]), vec![b"a".to_vec(), b"b".to_vec(), b"c".to_vec()]);
    assert_eq!(keys_of(&items[1]), vec![vec![0x00, 0xff], vec![0xff, 0x00]]);
}

#[test]
fn many_keys_come_out_in_order() {
    let mut data = b"d".to_vec();
    let mut expected: Vec<Vec<u8>> = Vec::new();
    for i in 0..200u32 {
        let key = format!("k{}", (i * 7919) % 1000);
        let text = format!("{}:{}i{}e", key.len(), key, i);
        data.extend_from_slice(text.as_bytes());
        expected.push(key.into_bytes());
    }
    data.push(b'e');
    expected.sort();
    expected.dedup();
    let value = parse(&data).unwrap();
    assert_eq!(keys_of(&value), expected);
}

#[test]
fn key_order_is_byte_by_byte() {
    assert!(key_less(b"", b"a"));
    assert!(key_less(b"a", b"ab"));
    assert!(key_less(b"ab", b"b"));
    assert!(key_less(b"Z", b"a"));
    assert!(key_less(&[0x7f], &[0x80]));
    assert!(!key_less(b"a", b"a"));
    assert!(!key_less(b"", b""));
    assert!(!key_less(b"b", b"ab"));
    assert!(!key_less(b"ab", b"a"));
}

#[test]
fn sorting_keeps_the_later_of_two_entries() {
    let value = BencodeValue::Dict(vec![
        entry("b", BencodeValue::Int(1)),
        entry("a", BencodeValue::Int(2)),
        entry("b", BencodeValue::Int(3)),
    ]);
    let sorted = sorted_value(&value);
    assert_eq!(keys_of(&sorted), vec![b"a".to_vec(), b"b".to_vec()]);
    let BencodeValue::Dict(entries) = &sorted else { panic!("Expected dictionary") };
    assert_eq!(get_int(entries, "a").unwrap(), 2);
    assert_eq!(get_int(entries, "b").unwrap(), 3);
}
