//! Text helpers, held against the standard library.

use capi::json::{get_bool, get_i64, get_str, show_field, text_array};
use capi::strategies::Action;
use capi::text::{
    concat3, dec_i64, dec_u64, eq_ignore_ascii_case, has_suffix, hex_byte_string, hex_u64,
    is_whitespace, join, lines, parse_hex_i64, parse_hex_u64, parse_i64, parse_u64, rsplit_once,
    skip_past, split, split_once, str_eq, strip_prefix, to_ascii_lowercase, trim, trim_leading,
    trim_trailing, words,
};
use capi::update::expected_hash;
use serde_json::Value;

const SAMPLES: [&str; 12] = [
    "",
    " ",
    "abc",
    "  a b\tc \n",
    "a=b=c",
    "x\ny\n\nz",
    "\u{a0}nb\u{3000}",
    "--flag",
    "::host:80",
    "stra\u{df}e",
    "\u{130}I",
    "trailing//",
];

#[test]
fn whitespace_is_that_of_unicode() {
    for n in 0..=0x10FFFFu32 {
        if let Some(c) = char::from_u32(n) {
            assert_eq!(is_whitespace(c), c.is_whitespace(), "{n:x}");
        }
    }
}

#[test]
fn cutting_agrees_with_std() {
    for s in SAMPLES {
        assert_eq!(trim(s), s.trim());
        assert_eq!(split(s, ':'), s.split(':').map(str::to_owned).collect::<Vec<_>>());
        assert_eq!(words(s), s.split_whitespace().map(str::to_owned).collect::<Vec<_>>());
        assert_eq!(lines(s), s.lines().map(str::to_owned).collect::<Vec<_>>());
        assert_eq!(split_once(s, '='), s.split_once('='));
        assert_eq!(rsplit_once(s, ':'), s.rsplit_once(':'));
        assert_eq!(trim_leading(s, '-'), s.trim_start_matches('-'));
        assert_eq!(trim_trailing(s, '/'), s.trim_end_matches('/'));
        assert_eq!(strip_prefix(s, "::"), s.strip_prefix("::"));
        assert_eq!(has_suffix(s, "c"), s.ends_with("c"));
        assert_eq!(to_ascii_lowercase(s), s.to_ascii_lowercase());
        assert_eq!(
            skip_past(s, "//"),
            s.split_once("//").map(|(_, r)| r).unwrap_or(s)
        );
        for t in SAMPLES {
            assert_eq!(str_eq(s, t), s == t);
            assert_eq!(eq_ignore_ascii_case(s, t), s.eq_ignore_ascii_case(t));
        }
    }
    assert_eq!(concat3("a", "", "b"), "ab");
    assert_eq!(join(&vec!["a".into(), "b".into(), "c".into()], ", "), "a, b, c");
    assert_eq!(join(&vec![], ", "), "");
}

#[test]
fn numbers_agree_with_std() {
    for n in [0u64, 9, 10, 255, 65_536, u64::MAX] {
        assert_eq!(dec_u64(n), format!("{n}"));
        assert_eq!(hex_u64(n, 4, true), format!("{n:04X}"));
        assert_eq!(hex_u64(n, 0, false), format!("{n:x}"));
    }
    for n in [0i64, -1, 42, i64::MIN, i64::MAX] {
        assert_eq!(dec_i64(n), format!("{n}"));
    }
    assert_eq!(hex_byte_string(0x0a), "0x0A");
    for s in ["0", "+7", "-7", "", "+", "-", "007", "2147483648", "-2147483648", "1_0", "\u{663}"] {
        assert_eq!(parse_i64(s, i32::MIN as i64, i32::MAX as i64), s.parse::<i32>().ok().map(i64::from));
        assert_eq!(parse_u64(s, u64::MAX), s.parse::<u64>().ok());
        assert_eq!(parse_hex_u64(s, 255), u8::from_str_radix(s, 16).ok().map(u64::from));
        assert_eq!(
            parse_hex_i64(s, i32::MIN as i64, i32::MAX as i64),
            i32::from_str_radix(s, 16).ok().map(i64::from)
        );
    }
}

#[test]
fn case_is_that_of_unicode() {
    assert_eq!(expected_hash("ABC\u{130}  f", "f").unwrap(), "ABC\u{130}".to_lowercase());
    assert_eq!(Action::parse("MUTE"), Some(Action::Mute));
}

#[test]
fn json_fields() {
    let mut m = serde_json::Map::new();
    m.insert("n".into(), Value::from(-3));
    m.insert("s".into(), Value::from("x"));
    m.insert("b".into(), Value::from(true));
    m.insert("f".into(), Value::from(1.5));
    m.insert("big".into(), Value::from(u64::MAX));
    let v = Value::Object(m);
    assert_eq!(get_i64(&v, "n"), Some(-3));
    assert_eq!(get_i64(&v, "f"), None);
    assert_eq!(get_i64(&v, "big"), None);
    assert_eq!(get_str(&v, "s"), Some("x"));
    assert_eq!(get_str(&v, "n"), None);
    assert_eq!(get_bool(&v, "b"), Some(true));
    assert_eq!(get_bool(&Value::Null, "b"), None);
    assert_eq!(show_field(&v, "n"), "-3");
    assert_eq!(show_field(&v, "big"), "18446744073709551615");
    assert_eq!(show_field(&v, "f"), "1.5");
    assert_eq!(show_field(&v, "missing"), "null");
    assert_eq!(text_array(&vec!["a".into()])[0], Value::from("a"));
}
