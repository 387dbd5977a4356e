use claude_team::clock::timestamp_to_string;
use claude_team::text::{escape_xml_attr, is_whitespace_char, summarize_message, trim_str};

/// The summary computed with std's own string functions, used as an oracle.
fn std_summary(text: &str) -> String {
    let words = text.split_whitespace().take(10).collect::<Vec<_>>();
    if words.is_empty() {
        return String::new();
    }
    let summary = words.join(" ");
    if summary.chars().count() > 80 {
        let mut truncated: String = summary.chars().take(79).collect();
        truncated.push_str("...");
        truncated
    } else {
        summary
    }
}

#[test]
fn whitespace_matches_std_for_every_char() {
    for code in 0u32..=0x10FFFF {
        if let Some(c) = char::from_u32(code) {
            assert_eq!(is_whitespace_char(c), c.is_whitespace(), "U+{code:04X}");
        }
    }
}

#[test]
fn trim_matches_std_trim() {
    let cases = [
        "", "   ", "x", "  x  ", "\t\n a b \r\n", "\u{3000}wide\u{2009}", "\u{85}nel\u{a0}", "a\u{200b}",
    ];
    for case in cases {
        assert_eq!(trim_str(case), case.trim(), "{case:?}");
    }
}

#[test]
fn summary_of_short_text_is_its_words() {
    assert_eq!(summarize_message("hello from claudex"), "hello from claudex");
    assert_eq!(summarize_message("  a \t b\n\nc  "), "a b c");
    assert_eq!(summarize_message(""), "");
    assert_eq!(summarize_message(" \n\t "), "");
}

#[test]
fn summary_keeps_ten_words() {
    assert_eq!(
        summarize_message("1 2 3 4 5 6 7 8 9 10 11 12"),
        "1 2 3 4 5 6 7 8 9 10"
    );
}

#[test]
fn summary_longer_than_eighty_chars_is_cut() {
    let long = "x".repeat(100);
    let expected = format!("{}...", "x".repeat(79));
    assert_eq!(summarize_message(&long), expected);
    assert_eq!(summarize_message(&long).chars().count(), 82);
    let exactly = "y".repeat(80);
    assert_eq!(summarize_message(&exactly), exactly);
    let over = "z".repeat(81);
    assert_eq!(summarize_message(&over), format!("{}...", "z".repeat(79)));
}

#[test]
fn summary_agrees_with_std_oracle_on_samples() {
    let samples = [
        "Please look at the pull request and tell me whether the failing test is flaky or real.".to_string(),
        "supercalifragilisticexpialidocious ".repeat(5),
        "  héllo\u{3000}wörld\u{2028}日本語 テキスト  ".to_string(),
        "a\u{200b}b c".to_string(),
        "ÿ".repeat(90),
    ];
    for s in samples.iter() {
        let s: &str = s.as_ref();
        assert_eq!(summarize_message(s), std_summary(s), "{s:?}");
    }
}

#[test]
fn escape_replaces_markup_characters() {
    assert_eq!(escape_xml_attr("a&b\"c<d>e"), "a&amp;b&quot;c&lt;d&gt;e");
    assert_eq!(escape_xml_attr("plain 'text'"), "plain 'text'");
    assert_eq!(escape_xml_attr(""), "");
}

#[test]
fn summarising_a_summary_gives_it_back() {
    let samples = [
        "one two three four five six seven eight nine ten eleven".to_string(),
        "x".repeat(100),
        format!("{} {}", "a".repeat(77), "bbbbbbbbbb"),
        "  spaced\t\tout \n text ".to_string(),
        String::new(),
    ];
    for s in samples.iter() {
        let once = summarize_message(s);
        assert_eq!(summarize_message(&once), once, "{s:?}");
    }
}

#[test]
fn escaping_distributes_and_keeps_values_apart() {
    let a = "x&y";
    let b = "<\"z\">";
    assert_eq!(escape_xml_attr(&format!("{a}{b}")), escape_xml_attr(a) + &escape_xml_attr(b));
    assert_ne!(escape_xml_attr("&amp;"), escape_xml_attr("&"));
    assert_ne!(escape_xml_attr("&lt;"), escape_xml_attr("<"));
}

#[test]
fn clock_timestamp_is_rfc3339_millis_utc() {
    let ts = claude_team::clock::timestamp_now().expect("clock after the epoch");
    assert_eq!(ts.len(), 24);
    assert!(ts.ends_with('Z'));
    assert_eq!(&ts[10..11], "T");
    assert_eq!(&ts[19..20], ".");
}

#[test]
fn timestamp_text_has_calendar_date_and_time() {
    assert_eq!(timestamp_to_string(0, 0).as_deref(), Some("1970-01-01T00:00:00.000Z"));
    assert_eq!(
        timestamp_to_string(951_782_400, 123_456_789).as_deref(),
        Some("2000-02-29T00:00:00.123Z")
    );
    assert_eq!(
        timestamp_to_string(1_781_740_800, 0).as_deref(),
        Some("2026-06-18T00:00:00.000Z")
    );
    assert_eq!(
        timestamp_to_string(1_709_251_199, 999_999_999).as_deref(),
        Some("2024-02-29T23:59:59.999Z")
    );
    assert_eq!(
        timestamp_to_string(253_402_300_799, 0).as_deref(),
        Some("9999-12-31T23:59:59.000Z")
    );
    assert_eq!(timestamp_to_string(u64::MAX, 0), None);
}
