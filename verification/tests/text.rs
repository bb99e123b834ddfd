use fusebox::encode::{base64_encode, url_encode};
use fusebox::table::Table;
use fusebox::text::{contains, decimal_text, hex_text, is_whitespace, parse_unsigned, trim};
use fusebox::time::{local_time, non_empty_label, now_ms, stamped_id, LAST_MOMENT_MS};
use fusebox::unicode::{is_alphabetic, is_alphanumeric, to_lowercase, to_uppercase, uppercase_char};

#[test]
fn white_space_is_that_of_char() {
    for code in 0..=0x10FFFFu32 {
        if let Some(c) = char::from_u32(code) {
            assert_eq!(is_whitespace(c), c.is_whitespace());
        }
    }
}

#[test]
fn trimming_takes_outer_white_space() {
    assert_eq!(trim(" a b\t"), "a b");
    assert_eq!(trim("\u{3000}x\u{a0}"), "x");
    assert_eq!(trim(" \n"), "");
}

#[test]
fn letters_and_cases_are_those_of_char() {
    for c in ['a', 'Z', '5', '\u{df}', '\u{3b1}', '\u{660}', '-'] {
        assert_eq!(is_alphabetic(c), c.is_alphabetic());
        assert_eq!(is_alphanumeric(c), c.is_alphanumeric());
        assert_eq!(uppercase_char(c), c.to_uppercase().collect::<String>());
    }
    assert_eq!(to_uppercase("stra\u{df}e"), "STRASSE");
    assert_eq!(to_lowercase("\u{3a3}A"), "\u{3c3}a");
}

#[test]
fn numbers_are_written_and_read() {
    assert_eq!(decimal_text(0), "0");
    assert_eq!(decimal_text(u128::MAX), u128::MAX.to_string());
    assert_eq!(hex_text(255), "ff");
    assert_eq!(parse_unsigned("+42", 100), Some(42));
    assert_eq!(parse_unsigned("101", 100), None);
    assert_eq!(parse_unsigned("", 100), None);
    assert_eq!(parse_unsigned("-1", 100), None);
    assert!(contains("Handshake2 failed", "shake2"));
    assert!(!contains("Handshake2 failed", "shake3"));
}

#[test]
fn ids_and_labels() {
    assert_eq!(stamped_id("x-", 255, 16), "x-ff-10");
    assert_eq!(non_empty_label("  a ".to_string()), Some("a".to_string()));
    assert_eq!(non_empty_label("   ".to_string()), None);
}

#[test]
fn the_clock_runs() {
    let now = now_ms();
    assert!(now > 1_600_000_000_000);
    let there = local_time(now as u64).unwrap();
    assert!(there.year >= 2020 && (1..=12).contains(&there.month) && there.weekday < 7);
    assert!(local_time(u64::MAX).is_none());
    assert!(local_time(LAST_MOMENT_MS).is_some());
    assert!(local_time(LAST_MOMENT_MS + 1).is_none());
    for ms in [0, 86_400_000, 951_782_400_000, 1_771_588_800_123, 8_100_000_000_000_000] {
        let t = local_time(ms).unwrap();
        let date = chrono::NaiveDate::from_ymd_opt(t.year, t.month, t.day).unwrap();
        let shown = date.and_hms_opt(t.hour, t.minute, t.second).unwrap().and_utc().timestamp();
        assert!((shown - (ms / 1000) as i64).abs() < 86_400);
        assert_eq!(i64::from(t.weekday), (shown.div_euclid(86_400) + 4).rem_euclid(7));
    }
}

#[test]
fn encodings_of_bytes() {
    assert_eq!(url_encode("a/b c~"), "a%2Fb%20c~");
    assert_eq!(base64_encode(b""), "");
    assert_eq!(base64_encode(b"f"), "Zg==");
    assert_eq!(base64_encode(b"foobar"), "Zm9vYmFy");
}

#[test]
fn tables_keep_their_keys_in_order() {
    let mut table = Table::new();
    for key in ["b", "a", "c", "a"] {
        table.insert(key.to_string(), key.len());
    }
    assert_eq!(table.entries.iter().map(|(key, _)| key.as_str()).collect::<Vec<_>>(), vec!["a", "b", "c"]);
    assert!(table.remove("b"));
    assert!(!table.remove("b"));
    assert_eq!(table.get("b"), None);
}
