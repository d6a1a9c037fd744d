//! Text, numbers, dates, times, JSON and escapes.

use ferroma_client::address::parse_url;
use ferroma_client::columns::{store_ids, store_list};
use ferroma_client::date::{parse_date, Date};
use ferroma_client::delay::Delay;
use ferroma_client::json::{from_value, parse_json, Json};
use ferroma_client::text::{
    contains, decimal, decimal_signed, join, parse_i64, parse_u64, split_once,
    to_lower, trim, trim_leading, trim_trailing,
};
use ferroma_client::time::{parse_or, parse_rfc3339, to_rfc3339, Timestamp};
use ferroma_client::util::{escape_fts, escape_like, urlencode};

#[test]
fn numbers_are_written_and_read_like_the_standard_library_does() {
    for n in [0u64, 7, 10, 99, 100, 1841, u64::MAX] {
        assert_eq!(decimal(n), n.to_string());
        assert_eq!(parse_u64(&n.to_string()), Some(n));
    }
    for n in [i64::MIN, -1, 0, 1, i64::MAX] {
        assert_eq!(decimal_signed(n), n.to_string());
        assert_eq!(parse_i64(&n.to_string()), Some(n));
    }
    for text in ["", "+", "-", "1 ", "0x1", "18446744073709551616", "9223372036854775808", "+5", "-0"] {
        assert_eq!(parse_u64(text), text.parse::<u64>().ok(), "{text}");
        assert_eq!(parse_i64(text), text.parse::<i64>().ok(), "{text}");
    }
}

#[test]
fn text_is_trimmed_and_lowered_like_the_standard_library_does() {
    for text in ["", "  a b \t", "\u{a0}x\u{2003}", "\u{3000}", "\u{85}y\u{2028}", "\u{200b}z", "ÀB"] {
        assert_eq!(trim(text), text.trim(), "{text:?}");
        assert_eq!(to_lower(text), text.to_ascii_lowercase());
    }
    assert_eq!(trim_trailing("a//", '/'), "a");
    assert_eq!(trim_leading("//a", '/'), "a");
    assert_eq!(split_once("a:b:c", ':'), Some(("a".to_string(), "b:c".to_string())));
    assert_eq!(split_once("abc", ':'), None);
    assert_eq!(join(&vec!["a".to_string(), String::new(), "c".to_string()], ", "), "a, , c");
    assert!(contains("seen flagged", "flag"));
    assert!(contains("x", ""));
    assert!(!contains("sen", "seen"));
}

#[test]
fn dates_round_trip() {
    let leap = Date { year: 2024, month: 2, day: 29 };
    assert_eq!(parse_date("2024-02-29"), Some(leap));
    assert_eq!(leap.to_string(), "2024-02-29");
    assert_eq!(parse_date("2023-02-29"), None);
    assert_eq!(parse_date("not a date"), None);
    assert_eq!(Date { year: 987, month: 1, day: 2 }.to_string(), "0987-01-02");
}

#[test]
fn times_are_read_and_written_in_utc() {
    let noon = Timestamp { secs: 1_789_560_000, nanos: 0 };
    assert_eq!(parse_rfc3339("2026-09-16T14:00:00+02:00"), Some(noon));
    assert_eq!(to_rfc3339(noon).as_deref(), Some("2026-09-16T12:00:00+00:00"));
    assert_eq!(
        parse_rfc3339("2026-09-16T12:00:00.5Z"),
        Some(Timestamp { secs: 1_789_560_000, nanos: 500_000_000 })
    );
    assert_eq!(parse_or("yesterday", noon), noon);
    assert_eq!(to_rfc3339(Timestamp { secs: i64::MAX, nanos: 0 }), None);
    assert_eq!(Delay::from_secs(2).shorter(Delay::from_millis(5)), Delay::from_millis(5));
    assert_eq!(Delay::from_secs(2).longer(Delay::from_millis(5)), Delay::from_secs(2));
}

#[test]
fn json_is_read_value_by_value() {
    let value = parse_json(r#"{"a":[1,-2,true,null,"x",1.5],"b":{"c":18446744073709551615}}"#).expect("json");
    match value.get("a") {
        Some(Json::Array(items)) => {
            assert_eq!(items[0], Json::Int(1));
            assert_eq!(items[1], Json::Int(-2));
            assert_eq!(items[2], Json::Bool(true));
            assert_eq!(items[3], Json::Null);
            assert_eq!(items[4].as_str(), Some("x"));
            assert_eq!(items[5], Json::Fraction("1.5".into()));
        }
        other => panic!("unexpected {other:?}"),
    }
    let inner = value.get("b").expect("b");
    assert_eq!(inner.uint_at("c"), Some(u64::MAX));
    assert_eq!(inner.int_at("c"), None);
    assert!(parse_json("{").is_err());
    let read: serde_json::Value = serde_json::from_slice(b"[{\"a\":1e2}]").expect("value");
    let object = Json::Object(vec![("a".to_string(), Json::Fraction("100.0".into()))]);
    assert_eq!(from_value(read), Json::Array(vec![object]));
    assert_eq!(value.clone(), value);
}

#[test]
fn lists_are_written_as_json_text() {
    let list = vec!["a\"b".to_string(), "\u{1f600}\n".to_string()];
    assert_eq!(store_list(&list).expect("text"), "[\"a\\\"b\",\"\u{1f600}\\n\"]");
    assert_eq!(store_list(&Vec::new()).expect("text"), "[]");
    assert_eq!(store_ids(&vec![1, -2]).expect("text"), "[1,-2]");
}

#[test]
fn escapes_keep_values_in_their_place() {
    assert_eq!(escape_fts("say \"hi\""), "say \"\"hi\"\"");
    assert_eq!(escape_like("100%_\\"), "100\\%\\_\\\\");
    assert_eq!(urlencode("1&limit=999"), "1%26limit%3D999");
    assert_eq!(urlencode("a b/\u{e9}~-_."), "a%20b%2F%C3%A9~-_.");
}

#[test]
fn urls_are_split_into_their_parts() {
    let parts = parse_url("https://mail.example.com:8443/api").expect("url");
    assert_eq!(parts.scheme, "https");
    assert_eq!(parts.host.as_deref(), Some("mail.example.com"));
    assert!(parse_url("mail.example.com/api").is_err());
}

#[test]
fn a_delay_is_shown_in_its_largest_unit() {
    assert_eq!(Delay::from_millis(0).to_debug_string(), "0ns");
    assert_eq!(Delay::from_millis(250).to_debug_string(), "250ms");
    assert_eq!(Delay::from_secs(60).to_debug_string(), "60s");
    assert_eq!(Delay::from_millis(1500).to_debug_string(), "1.5s");
    assert_eq!(Delay::from_millis(1050).to_debug_string(), "1.05s");
    assert_eq!(Delay::from_millis(1007).to_debug_string(), "1.007s");
    let longest = std::time::Duration::from_millis(u64::MAX);
    assert_eq!(Delay::from_millis(u64::MAX).to_debug_string(), format!("{longest:?}"));
}
