use splicefeed::digest::{Digest, HashStream, DIGEST_CHARS};
use splicefeed::domain::{redacted, ApiKey, EpisodeId, ErrorClass, ShowSlug};
use splicefeed::human::{duration_or, size_or};
use splicefeed::paths::{are_same_path, join_path};
use splicefeed::text::{
    align_left, align_right, cut_at_either, decimal_text, is_blank, join, sorts_before, tail_after,
    two_digit_text, without_prefix, without_suffix,
};
use splicefeed::timestamp::{
    Timestamp, MAX_NANOS, MIN_NANOS, STAMP_CLOCK, STAMP_FILE, STAMP_MINUTES, STAMP_SECONDS,
};
use splicefeed::weburl::WebUrl;

fn web(text: &str) -> WebUrl {
    WebUrl::parse(text).expect("valid url")
}

#[test]
fn instants_parse_and_print() {
    let at = Timestamp::parse("2026-07-05T14:00:00.125-04:00").expect("valid");
    assert_eq!(at.to_string(), "2026-07-05T18:00:00.125Z");
    assert_eq!(at.as_second(), 1_783_274_400);
    assert_eq!(at.nanos(), 1_783_274_400_125_000_000);
    assert_eq!(at.stamp(STAMP_SECONDS), "2026-07-05 18:00:00Z");
    assert_eq!(at.stamp(STAMP_MINUTES), "2026-07-05 18:00");
    assert_eq!(at.stamp(STAMP_CLOCK), "18:00:00");
    assert_eq!(at.stamp(STAMP_FILE), "20260705T180000.125Z");
    assert_eq!(at.rfc2822(), "Sun, 5 Jul 2026 18:00:00 +0000");
    assert!(Timestamp::parse("yesterday").is_err());
}

#[test]
fn instants_have_a_range() {
    assert!(Timestamp::from_nanos(MIN_NANOS).is_some());
    assert!(Timestamp::from_nanos(MAX_NANOS).is_some());
    assert!(Timestamp::from_nanos(MIN_NANOS - 1).is_none());
    assert!(Timestamp::from_nanos(MAX_NANOS + 1).is_none());
    let earliest = Timestamp::from_nanos(MIN_NANOS).expect("in range");
    assert_eq!(Timestamp::parse(&earliest.to_string()).ok(), Some(earliest));
    assert_eq!(Timestamp::from_nanos(-1).expect("in range").as_second(), 0);
}

#[test]
fn urls_are_edited_in_their_parts() {
    let base = web("http://nas.lan:8380");
    assert_eq!(base.as_str(), "http://nas.lan:8380/");
    let media = base
        .with_segments(&vec!["media".into(), "a b".into()])
        .expect("holds a path");
    assert_eq!(media.as_str(), "http://nas.lan:8380/media/a%20b");
    assert_eq!(media.path(), "/media/a%20b");
    let keyed = media.with_pair("listen key", "a&b").expect("short");
    assert_eq!(keyed.as_str(), "http://nas.lan:8380/media/a%20b?listen+key=a%26b");
    assert_eq!(keyed.query_pairs(), vec![("listen key".to_string(), "a&b".to_string())]);
    assert_eq!(
        keyed.text_with_pairs(&vec![("x".into(), "1".into())]),
        "http://nas.lan:8380/media/a%20b?x=1"
    );
    assert!(web("mailto:a@b.c").with_segments(&vec!["x".into()]).is_none());
    assert_eq!(
        WebUrl::parse("//no-scheme").expect_err("relative"),
        "relative URL without a base"
    );
}

#[test]
fn urls_keep_what_their_text_alone_would_lose() {
    // Read again, the first would have a host and the second no `/.`.
    let drive = web("file://h//C|");
    assert_eq!(drive.path(), drive.inner().path());
    let dotted = web("a:/.//").with_segments(&vec!["x".into()]).expect("holds a path");
    assert_eq!(dotted.as_str(), dotted.inner().as_str());
    assert_eq!(dotted.path(), dotted.inner().path());
    let host = web("file://host/").with_segments(&vec!["C:".into()]).expect("holds a path");
    assert_eq!(host.as_str(), "file://host/C:");
    assert_eq!(host.path(), "/C:");
    let copy = host.clone();
    assert_eq!(copy.as_str(), host.as_str());
}

#[test]
fn long_urls_are_urls() {
    let much = "x".repeat(3_000_000);
    let long = web(&format!("http://h/{much}"));
    let longer = long.with_segments(&vec![much.clone()]).expect("holds them");
    assert_eq!(longer.as_str().len(), "http://h/".len() + 2 * much.len() + 1);
    let longest = longer.with_pair("k", &much).expect("holds it");
    assert_eq!(longest.as_str().len(), longer.as_str().len() + "?k=".len() + much.len());
}

#[test]
fn pairs_join_what_query_there_is() {
    let with = |text: &str| web(text).with_pair("k", "v w\u{e9}").expect("short").to_string();
    assert_eq!(with("http://h/p"), "http://h/p?k=v+w%C3%A9");
    assert_eq!(with("http://h/p?"), "http://h/p?k=v+w%C3%A9");
    assert_eq!(with("http://h/p?a=b#f"), "http://h/p?a=b&k=v+w%C3%A9#f");
}

#[test]
fn redaction_keeps_what_stands_around_the_query() {
    let one = redacted(&web("http://h/p%20q?a=1&listen_key=one#part"));
    let two = redacted(&web("http://h/p%20q?a=1&listen_key=second#part"));
    assert_eq!(one.as_str(), "http://h/p%20q?a=1&listen_key=REDACTED#part");
    assert_eq!(one.as_str(), two.as_str());
}

#[test]
fn redaction_settles() {
    let signed = web("https://h/a.mp3?audio_token=t&exp=1&auth=h&listen_key=k&api_key=a");
    let shown = redacted(&signed);
    for secret in ["audio_token=t", "listen_key=k", "api_key=a"] {
        assert!(!shown.as_str().contains(secret), "{}", shown.as_str());
    }
    assert!(shown.as_str().contains("exp=1"));
    let again = redacted(&web(shown.as_str()));
    assert_eq!(again.as_str(), shown.as_str());
}

#[test]
fn digests_round_trip() {
    let digest = Digest::of_bytes(b"abc");
    assert_eq!(digest.to_hex().len(), DIGEST_CHARS);
    assert_eq!(
        digest.to_hex(),
        "6437b3ac38465133ffb63b75273a8db548c558465d79db03fd359c6cd5bd9d85"
    );
    let back = Digest::from_hex(&digest.to_hex()).expect("valid");
    assert!(back.same(&digest));
    let upper = Digest::from_hex(&digest.to_hex().to_uppercase()).expect("valid");
    assert!(upper.same(&digest));
    let fault = |text: &str| Digest::from_hex(text).err().expect("no digest");
    assert_eq!(fault("abc"), "expected 64 hex bytes, received 3");
    assert_eq!(fault("é"), "expected 64 hex bytes, received 2");
    assert_eq!(fault(&"z".repeat(64)), "invalid hex character: 'z'");
    let mut stream = HashStream::new();
    stream.update(b"a");
    stream.update(b"");
    stream.update(b"bc");
    assert!(stream.finish().same(&digest));
    assert!(!HashStream::new().finish().same(&digest));
}

#[test]
fn paths_join_as_paths_do() {
    assert_eq!(join_path("/data", "media"), "/data/media");
    assert_eq!(join_path("/data/", "media"), "/data/media");
    assert_eq!(join_path("", "media"), "media");
    assert_eq!(join_path("/data", "/etc"), "/etc");
}

#[test]
fn paths_compare_as_paths_do() {
    for (a, b) in [("/d", "/d/"), ("/d//e", "/d/e"), ("/d/./e/.", "/d/e"), ("", ""), ("/", "//")] {
        assert!(are_same_path(a, b), "{a} {b}");
        assert_eq!(std::path::Path::new(a) == std::path::Path::new(b), true);
    }
    for (a, b) in [("/d", "d"), ("/d", "/e"), ("/d/..", "/"), ("/d", "/d/e"), (".", ""), ("./d", "d")]
    {
        assert_eq!(are_same_path(a, b), std::path::Path::new(a) == std::path::Path::new(b), "{a} {b}");
    }
}

#[test]
fn texts_line_up() {
    assert_eq!(align_right("é", 3), "  é");
    assert_eq!(align_left("é", 3), "é  ");
    assert_eq!(align_right("long", 2), "long");
    assert_eq!(decimal_text(0), "0");
    assert_eq!(decimal_text(u64::MAX), "18446744073709551615");
    assert_eq!(two_digit_text(7), "07");
    assert_eq!(two_digit_text(123), "123");
    assert_eq!(join(&vec!["a".into(), "b".into()], ", "), "a, b");
    assert_eq!(join(&vec![], ", "), "");
    assert_eq!(without_prefix("//h", "//").as_deref(), Some("h"));
    assert_eq!(without_prefix("h", "//"), None);
    assert_eq!(without_suffix("a.xml", ".xml").as_deref(), Some("a"));
    assert_eq!(without_suffix("ml", ".xml"), None);
    assert_eq!(cut_at_either("a?b#c", '?', '#'), "a");
    assert_eq!(tail_after("a/b/c", '/'), "c");
    assert!(sorts_before("a", "ab") && sorts_before("Z", "a") && !sorts_before("a", "a"));
    assert!(is_blank(" \u{a0}\t") && !is_blank(" x"));
}

#[test]
fn quantities_read_as_people_write_them() {
    assert_eq!(size_or(Some(288_111_664), "?"), "288.11 MB");
    assert_eq!(size_or(Some(999), "?"), "999 B");
    assert_eq!(size_or(None, "?"), "?");
    assert_eq!(duration_or(Some(7236), "?"), "2h 36s");
    assert_eq!(duration_or(None, "—"), "—");
    assert_eq!(duration_or(Some(0), "?"), "0s");
    assert_eq!(duration_or(Some(9420), "?"), "2h 37m");
    let long = 2 * 31_557_600 + 2_630_016 + 3 * 86_400 + 4 * 3_600 + 5 * 60 + 6;
    assert_eq!(duration_or(Some(long), "?"), "2years 1month 3days 4h 5m 6s");
}

#[test]
fn identifiers_say_what_is_wrong_with_them() {
    let empty = ShowSlug::parse("").expect_err("empty");
    assert_eq!(empty.to_string(), "invalid show slug: must not be empty");
    let junk = ShowSlug::parse("a/b").expect_err("junk");
    assert_eq!(
        junk.to_string(),
        "invalid show slug: only ASCII letters, digits, `-`, `_`, and `.` are allowed"
    );
    assert_eq!(
        EpisodeId::parse("").expect_err("empty").to_string(),
        "invalid episode id: must not be empty"
    );
    assert_eq!(EpisodeId::parse("a/b").expect("any text will do").as_str(), "a/b");
    assert_eq!(ApiKey::new("k".into()).debug_text(), "ApiKey(<redacted>)");
    assert_eq!(ApiKey::new("k".into()).expose(), "k");
}

#[test]
fn error_classes_round_trip() {
    for class in [
        ErrorClass::Network,
        ErrorClass::HttpStatus,
        ErrorClass::Parse,
        ErrorClass::Disk,
    ] {
        assert_eq!(ErrorClass::parse(class.as_str()).ok(), Some(class));
    }
    assert!(ErrorClass::parse("http_status").is_err());
}
