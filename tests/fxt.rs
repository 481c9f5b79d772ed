use std::str::Chars;

use env_logger::Env;
use fxt2txt::cipher::{decode_byte, encode_byte};
use fxt2txt::{parse_fxt, parse_fxt_impl, Decoder, FXTError, FileDecoder, TextDecoder};

const CONST_STR: &str =
    "[1001]Hello, world!\u{0}[1002]Yes, it works!\u{0}[1003]One-word\u{0}[1004]tschüss\u{0}\
    [1005]Message with closing bracket] inside\u{0}\
    []\u{0}[]\u{0}";

struct MockDecoder {
    pos: usize,
    chars: Chars<'static>,
}

impl MockDecoder {
    fn new() -> MockDecoder {
        MockDecoder {
            pos: 0,
            chars: CONST_STR.chars(),
        }
    }
}

impl Iterator for MockDecoder {
    type Item = char;
    fn next(&mut self) -> Option<Self::Item> {
        self.pos += 1;
        self.chars.next()
    }
}

/// The raw bytes that decode to the one-byte characters of `text`.
fn encode(text: &str) -> Vec<u8> {
    text.chars()
        .enumerate()
        .map(|(i, c)| encode_byte(c as u32 as u8, i))
        .collect()
}

#[test]
fn mock_works() {
    let decoder = MockDecoder::new();
    let first_six: String = decoder.take(6).collect();
    assert_eq!(first_six, "[1001]");
}

#[test]
fn parsing_works() {
    env_logger::Builder::from_env(Env::default().default_filter_or("debug")).init();
    let decoder = TextDecoder::new(MockDecoder::new().collect());
    let map = parse_fxt_impl(decoder).unwrap();
    assert_eq!(map.get("1001").unwrap(), "Hello, world!");
    assert_eq!(map.get("1002").unwrap(), "Yes, it works!");
    assert_eq!(map.get("1003").unwrap(), "One-word");
    assert_eq!(map.get("1004").unwrap(), "tschüss");
    assert_eq!(
        map.get("1005").unwrap(),
        "Message with closing bracket] inside"
    );
}

#[test]
fn decode_header_and_body_bytes() {
    assert_eq!(decode_byte(0xA5, 0), b'A');
    assert_eq!(decode_byte(8, 1), b'A');
    assert_eq!(decode_byte(0xC2, 7), b'A');
    assert_eq!(decode_byte(0x42, 8), b'A');
    assert_eq!(decode_byte(0x42, 1000), b'A');
    assert_eq!(decode_byte(0, 9), 255);
    assert_eq!(decode_byte(1, 20), 0);
}

#[test]
fn encode_known_bytes() {
    assert_eq!(encode_byte(b'A', 0), 0xA5);
    assert_eq!(encode_byte(b'A', 7), 0xC2);
    assert_eq!(encode_byte(b'A', 8), 0x42);
    assert_eq!(encode_byte(255, 9), 0);
}

#[test]
fn cipher_round_trip() {
    for pos in 0..20usize {
        for b in 0..=255u8 {
            assert_eq!(encode_byte(decode_byte(b, pos), pos), b);
            assert_eq!(decode_byte(encode_byte(b, pos), pos), b);
        }
    }
}

#[test]
fn file_decoder_counts_positions() {
    let mut d = FileDecoder::new(encode("[ab"));
    assert_eq!(d.position(), 0);
    assert_eq!(d.next_char(), Some('['));
    assert_eq!(d.next_char(), Some('a'));
    assert_eq!(d.position(), 2);
    assert_eq!(d.next_char(), Some('b'));
    assert_eq!(d.next_char(), None);
    assert_eq!(d.position(), 3);
    assert_eq!(d.next_char(), None);
    assert_eq!(d.position(), 3);
}

#[test]
fn file_decoder_example_bytes() {
    let bytes = vec![0xBF, 0xF8, 0xBD, 0x49, 0x62, 0xBE, 0x09, 0xE6, 0x6D];
    let mut d = FileDecoder::new(bytes);
    let mut out = String::new();
    while let Some(c) = d.next_char() {
        out.push(c);
    }
    assert_eq!(out, "[1001]Hel");
    assert_eq!(d.position(), 9);
}

#[test]
fn null_right_after_key_is_empty_value() {
    let map = parse_fxt(encode("[1001]\0")).unwrap();
    assert_eq!(map.len(), 1);
    assert_eq!(map.get("1001").unwrap(), "");
}

#[test]
fn text_decoder_hands_out_chars() {
    let mut d = TextDecoder::new("[ü".chars().collect());
    assert_eq!(d.next_char(), Some('['));
    assert_eq!(d.next_char(), Some('ü'));
    assert_eq!(d.next_char(), None);
    assert_eq!(d.position(), 2);
}

#[test]
fn null_position_counts_from_the_source_start() {
    let r = parse_fxt_impl(TextDecoder::new("[a]b\0[\0".chars().collect()));
    assert_eq!(r.err(), Some(FXTError::UnexpectedNullByte(7)));
}

#[test]
fn end_to_end_two_records() {
    let map = parse_fxt(encode("[1001]Hello, world!\0[1002]Yes, it works!\0")).unwrap();
    assert_eq!(map.len(), 2);
    assert_eq!(map.get("1001").unwrap(), "Hello, world!");
    assert_eq!(map.get("1002").unwrap(), "Yes, it works!");
    assert!(map.get("1003").is_none());
}

#[test]
fn later_record_of_a_key_wins() {
    let map = parse_fxt(encode("[k]first\0[k]second\0")).unwrap();
    assert_eq!(map.len(), 1);
    assert_eq!(map.get("k").unwrap(), "second");
}

#[test]
fn brackets_inside_value_are_kept() {
    let map = parse_fxt(encode("[1005]Message with closing bracket] inside\0[x]a[b]c\0")).unwrap();
    assert_eq!(
        map.get("1005").unwrap(),
        "Message with closing bracket] inside"
    );
    assert_eq!(map.get("x").unwrap(), "a[b]c");
}

#[test]
fn key_right_after_key_is_part_of_the_value() {
    let map = parse_fxt(encode("[k1][k2]v\0")).unwrap();
    assert_eq!(map.len(), 1);
    assert_eq!(map.get("k1").unwrap(), "[k2]v");
    assert!(map.get("k2").is_none());
}

#[test]
fn text_before_a_key_joins_the_key() {
    let map = parse_fxt(encode("ab[k]v\0")).unwrap();
    assert_eq!(map.get("abk").unwrap(), "v");
}

#[test]
fn dangling_key_at_end_is_dropped() {
    let map = parse_fxt(encode("[1]one\0[2]unfinished")).unwrap();
    assert_eq!(map.len(), 1);
    assert_eq!(map.get("1").unwrap(), "one");
    assert!(map.get("2").is_none());
    let map = parse_fxt(encode("[1]one\0[2]")).unwrap();
    assert_eq!(map.len(), 1);
}

#[test]
fn empty_key_and_value() {
    let map = parse_fxt(encode("[]\0")).unwrap();
    assert_eq!(map.get("").unwrap(), "");
}

#[test]
fn empty_input_gives_empty_map() {
    let map = parse_fxt(Vec::new()).unwrap();
    assert_eq!(map.len(), 0);
    assert!(map.entries().is_empty());
}

#[test]
fn null_between_records_is_fatal() {
    let r = parse_fxt(encode("[1]x\0\0"));
    assert_eq!(r.err(), Some(FXTError::UnexpectedNullByte(6)));
}

#[test]
fn null_inside_key_is_fatal() {
    let r = parse_fxt(encode("[1]x\0[12\0"));
    assert_eq!(r.err(), Some(FXTError::UnexpectedNullByte(9)));
}

#[test]
fn null_at_start_is_fatal() {
    let r = parse_fxt(encode("\0"));
    assert_eq!(r.err(), Some(FXTError::UnexpectedNullByte(1)));
}

#[test]
fn entries_list_each_key_once() {
    let map = parse_fxt(encode("[a]1\0[b]2\0[a]3\0")).unwrap();
    let mut pairs: Vec<(String, String)> = map.entries().clone();
    pairs.sort();
    assert_eq!(
        pairs,
        vec![
            ("a".to_string(), "3".to_string()),
            ("b".to_string(), "2".to_string())
        ]
    );
}
