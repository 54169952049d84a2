//! Text utilities: truncation, Pango escaping, clock formatting, number
//! parsing and rendering.

use mpris_bridge::text::{truncate, pango_escape, replace_all, trim_ascii, str_eq, contains_str, starts_with_str, starts_with_ci};
use mpris_bridge::num::{u64_to_string, parse_u64, parse_dec};
use mpris_bridge::timefmt::fmt_time;

#[test]
fn truncate_keeps_short_labels() {
    assert_eq!(truncate("hello", 5), "hello");
    assert_eq!(truncate("", 3), "");
    assert_eq!(truncate("hi", 120), "hi");
}

#[test]
fn truncate_trims_to_exactly_max_with_ellipsis() {
    let t = truncate("hello world", 5);
    assert_eq!(t, "hell…");
    assert_eq!(t.chars().count(), 5);
    assert_eq!(t.chars().last(), Some('…'));
}

#[test]
fn truncate_result_never_exceeds_limit() {
    for max in 0..8usize {
        let t = truncate("abcdefghij", max);
        assert!(t.chars().count() <= max);
    }
}

#[test]
fn truncate_counts_characters_not_bytes() {
    // four characters, each more than one byte
    assert_eq!(truncate("éééé", 4), "éééé");
    assert_eq!(truncate("ééééé", 4), "ééé…");
}

#[test]
fn pango_escape_maps_the_five_characters() {
    assert_eq!(pango_escape("&<>'\""), "&amp;&lt;&gt;&apos;&quot;");
}

#[test]
fn pango_escape_is_identity_on_plain_text() {
    assert_eq!(pango_escape("Artist - Title 123"), "Artist - Title 123");
    let once = pango_escape("plain");
    assert_eq!(pango_escape(&once), once);
}

#[test]
fn pango_escape_reencodes_ampersands_on_second_pass() {
    let once = pango_escape("a&b");
    assert_eq!(once, "a&amp;b");
    let twice = pango_escape(&once);
    assert_eq!(twice, "a&amp;amp;b");
    assert_ne!(twice, once);
}

#[test]
fn fmt_time_clamps_negative_to_zero() {
    assert_eq!(fmt_time(-1_000_000), "0:00");
    assert_eq!(fmt_time(-1), "0:00");
}

#[test]
fn fmt_time_floors_to_whole_seconds() {
    assert_eq!(fmt_time(65_900_000), "1:05");
    assert_eq!(fmt_time(65_000_000), "1:05");
    assert_eq!(fmt_time(0), "0:00");
    assert_eq!(fmt_time(59_999_999), "0:59");
    assert_eq!(fmt_time(600_000_000), "10:00");
}

#[test]
fn u64_renders_in_decimal() {
    assert_eq!(u64_to_string(0), "0");
    assert_eq!(u64_to_string(65), "65");
    assert_eq!(u64_to_string(18446744073709551615), "18446744073709551615");
}

#[test]
fn parse_u64_accepts_digits_and_plus() {
    assert_eq!(parse_u64("0"), Some(0));
    assert_eq!(parse_u64("241000000"), Some(241000000));
    assert_eq!(parse_u64("+12"), Some(12));
    assert_eq!(parse_u64("18446744073709551615"), Some(18446744073709551615));
}

#[test]
fn parse_u64_rejects_garbage_and_overflow() {
    assert_eq!(parse_u64(""), None);
    assert_eq!(parse_u64("+"), None);
    assert_eq!(parse_u64("12a"), None);
    assert_eq!(parse_u64("-3"), None);
    assert_eq!(parse_u64("18446744073709551616"), None);
}

#[test]
fn parse_dec_reads_sign_and_fraction() {
    let d = parse_dec("-3.4").unwrap();
    assert!(d.neg);
    assert_eq!(d.units, 3);
    assert_eq!(d.abs_rounded(), 3);
    assert!(d.is_negative());
    let e = parse_dec("3.5").unwrap();
    assert_eq!(e.abs_rounded(), 4);
    assert!(!e.is_negative());
    let z = parse_dec("-0.0").unwrap();
    assert!(!z.is_negative());
    assert_eq!(parse_dec("1.2.3"), None);
    assert_eq!(parse_dec("."), None);
    assert_eq!(parse_dec("3."), None);
    assert_eq!(parse_dec(""), None);
}

#[test]
fn replace_all_substitutes_every_occurrence() {
    assert_eq!(replace_all("$HOME/x/$HOME", "$HOME", "/h"), "/h/x//h");
    assert_eq!(replace_all("abc", "x", "y"), "abc");
    assert_eq!(replace_all("aaa", "aa", "b"), "ba");
}

#[test]
fn trim_ascii_strips_both_ends() {
    assert_eq!(trim_ascii("  Playing\n"), "Playing");
    assert_eq!(trim_ascii("\t \r\n"), "");
    assert_eq!(trim_ascii("a b"), "a b");
}

#[test]
fn string_search_helpers() {
    assert!(str_eq("abc", "abc"));
    assert!(!str_eq("abc", "abd"));
    assert!(starts_with_str("firefox.instance_1", "firefox"));
    assert!(!starts_with_str("fire", "firefox"));
    assert!(contains_str("https://music.youtube.com/watch?v=1", "music.youtube.com"));
    assert!(!contains_str("abc", "zz"));
    assert!(starts_with_ci("FireFox-bin", "firefox"));
    assert!(!starts_with_ci("chromium", "firefox"));
}
