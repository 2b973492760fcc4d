use mnestic::ident::print_ids;
use mnestic::json::{render, text_array, Json, Number};
use mnestic::number::{decimal_text, hex_text, parse_i64, parse_unsigned, signed_decimal_text};
use mnestic::score::{at_most, below, equal, exceeds, Score};
use mnestic::text::{
    blank, contains_text, eq_ignore_ascii_case, join_texts, same_text, split_once, split_text,
    strip_prefix, trim, white_space,
};
use mnestic::time::{read_rfc3339_opt, Timestamp, FIRST_SECOND, LAST_SECOND};

#[test]
fn white_space_is_unicode() {
    for n in 0..=0x10ffffu32 {
        if let Some(c) = char::from_u32(n) {
            assert_eq!(white_space(c), c.is_whitespace(), "{n:x}");
        }
    }
}

#[test]
fn trimming() {
    for text in ["", "a", "  a b\t\n", "\u{2003}é\u{85}", " \n\u{3000}", "x "] {
        assert_eq!(trim(text), text.trim());
        assert_eq!(blank(text), text.trim().is_empty());
    }
}

#[test]
fn splitting_and_joining() {
    for text in ["", ":", "a", "a:b", ":a::b:", "é:ß"] {
        let parts = split_text(text, ':');
        assert_eq!(parts, text.split(':').map(str::to_string).collect::<Vec<_>>());
        assert_eq!(join_texts(&parts, ":"), text);
    }
    assert_eq!(split_once("a b c", ' '), Some(("a", "b c")));
    assert_eq!(split_once("abc", ' '), None);
    assert_eq!(strip_prefix("prefix rest", "prefix "), Some("rest"));
    assert_eq!(strip_prefix("pre", "prefix"), None);
    assert_eq!(join_texts(&vec![], ", "), "");
}

#[test]
fn comparing_texts() {
    assert!(same_text("a", "a") && !same_text("a", "A"));
    assert!(eq_ignore_ascii_case("BeArEr", "bearer"));
    assert!(!eq_ignore_ascii_case("bearer", "bearers"));
    assert!(!eq_ignore_ascii_case("[", "{"), "only letters have a case");
    for (whole, part) in [("abc", "bc"), ("abc", ""), ("", ""), ("", "a"), ("aab", "ab"), ("ab", "abc")] {
        assert_eq!(contains_text(whole, part), whole.contains(part), "{whole:?} {part:?}");
    }
}

#[test]
fn numbers_as_text() {
    for n in [0, 9, 10, 1536, u64::MAX] {
        assert_eq!(decimal_text(n), n.to_string());
        assert_eq!(parse_unsigned(&decimal_text(n), u64::MAX), Some(n));
    }
    for n in [0, -1, 10, i64::MIN, i64::MAX] {
        assert_eq!(signed_decimal_text(n), n.to_string());
        assert_eq!(parse_i64(&signed_decimal_text(n)), Some(n));
    }
    for text in ["", "+", "-", "+5", "-5", "-0", "007", "1_000", "٣", " 1", "18446744073709551616", "9223372036854775808", "-9223372036854775809"] {
        assert_eq!(parse_unsigned(text, u64::MAX), text.parse::<u64>().ok(), "{text:?}");
        assert_eq!(parse_i64(text), text.parse::<i64>().ok(), "{text:?}");
    }
    assert_eq!(parse_unsigned("300", 255), None);
    assert_eq!(hex_text(&[0, 255, 16]), "00ff10");
}

#[test]
fn scores_compare_as_numbers() {
    let values = [f64::NEG_INFINITY, -2.5, -0.0, 0.0, f64::MIN_POSITIVE, 1.0, f64::INFINITY, f64::NAN, -f64::NAN];
    for a in values {
        for b in values {
            let (x, y) = (a.to_bits(), b.to_bits());
            assert_eq!(below(x, y), a < b, "{a} {b}");
            assert_eq!(at_most(x, y), a <= b, "{a} {b}");
            assert_eq!(equal(x, y), a == b, "{a} {b}");
            let larger = f64::from_bits(if exceeds(y, x) { y } else { x });
            assert!(larger == a.max(b) || (larger.is_nan() && a.max(b).is_nan()), "{a} {b}");
        }
    }
}

#[test]
fn a_score_is_one_number() {
    for x in [0.5, -0.0, 1e300, 0.027868852459016394, f64::MIN_POSITIVE] {
        let score = Score::finite(x.to_string()).expect("a finite number");
        assert_eq!(score.bits(), x.to_bits());
        assert_eq!(render(&score.shown()).parse::<f64>().unwrap().to_bits(), x.to_bits());
        assert!(Score::not_finite(x.to_bits()).is_none());
    }
    for x in [f64::NAN, f64::INFINITY, f64::NEG_INFINITY] {
        let score = Score::not_finite(x.to_bits()).expect("no finite number");
        assert_eq!(score.bits(), x.to_bits());
        assert_eq!(render(&score.shown()), "null");
        assert!(Score::finite(x.to_string()).is_none());
    }
    assert!(Score::finite("high".to_string()).is_none());
}

#[test]
fn json_texts() {
    let value = Json::Object(vec![
        ("b".to_string(), Json::Array(vec![Json::Null, Json::Bool(false)])),
        ("a".to_string(), Json::Text("x\"\n".to_string())),
        ("n".to_string(), Json::Number(Number::Negative(-3))),
        ("u".to_string(), Json::Number(Number::Unsigned(u64::MAX))),
        ("f".to_string(), Json::Number(Number::Float("0.25".to_string()))),
    ]);
    assert_eq!(
        render(&value),
        r#"{"a":"x\"\n","b":[null,false],"f":0.25,"n":-3,"u":18446744073709551615}"#
    );
    assert_eq!(render(&value.copy()), render(&value));
    assert_eq!(render(&text_array(&vec!["é".to_string()])), r#"["é"]"#);
}

#[test]
fn json_fields() {
    let value = Json::empty_object()
        .with_text("t", "x")
        .with("n", Json::Number(Number::Unsigned(7)))
        .with("big", Json::Number(Number::Unsigned(u64::MAX)))
        .with("b", Json::Bool(true));
    assert_eq!(value.get_text("t"), Some("x"));
    assert_eq!(value.get_text("n"), None);
    assert_eq!(value.get_i64("n"), Some(7));
    assert_eq!(value.get_i64("big"), None);
    assert_eq!(value.get_bool("b"), Some(true));
    assert!(value.get("absent").is_none());
    assert!(Json::Null.get("t").is_none());
}

#[test]
fn times() {
    assert_eq!(Timestamp::new(1_700_000_000, 123_000_000).unwrap().to_rfc3339(), "2023-11-14T22:13:20.123+00:00");
    assert_eq!(Timestamp::new(1_700_000_000, 0).unwrap().to_listing(), "2023-11-14 22:13:20 UTC");
    assert!(Timestamp::new(i64::MAX, 0).is_none());
    assert_eq!(Timestamp::new(FIRST_SECOND, 0).unwrap().to_rfc3339(), "0001-01-01T00:00:00+00:00");
    assert_eq!(
        Timestamp::new(LAST_SECOND, 999_999_999).unwrap().to_rfc3339(),
        "9999-12-31T23:59:59.999999999+00:00"
    );
    assert!(Timestamp::new(0, 2_000_000_000).is_none());
    let t = Timestamp::parse("2023-11-14T23:13:20+01:00").unwrap();
    assert_eq!((t.secs(), t.nanos()), (1_700_000_000, 0));
    assert!(Timestamp::parse("yesterday").is_none());
    assert!(matches!(read_rfc3339_opt(None), Some(None)));
    assert!(matches!(read_rfc3339_opt(Some("2023-11-14T22:13:20Z")), Some(Some(_))));
    assert!(read_rfc3339_opt(Some("")).is_none());
    // The last second of a leap minute.
    assert!(Timestamp::parse("2016-12-31T23:59:60Z").is_some());
}

#[test]
fn identifiers_as_text() {
    assert_eq!(
        print_ids(&vec![0x0123456789abcdef_fedcba9876543210, u128::MAX]),
        vec!["01234567-89ab-cdef-fedc-ba9876543210", "ffffffff-ffff-ffff-ffff-ffffffffffff"]
    );
}
