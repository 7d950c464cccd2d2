use splicefeed::opml::{self, Subscription};
use splicefeed::rss::{self, hms, is_printable, Feed, Item};
use splicefeed::timestamp::{Timestamp, YEAR_ZERO_NANOS};
use splicefeed::weburl::WebUrl;

fn web(text: &str) -> WebUrl {
    WebUrl::parse(text).expect("valid url")
}

fn at(text: &str) -> Timestamp {
    Timestamp::parse(text).expect("valid ts")
}

fn feed() -> Feed {
    Feed {
        title: "Melodik Revolution".into(),
        link: web("http://nas.lan:8380/"),
        description: "Monthly trance & <melody>".into(),
        artwork: Some(web("http://nas.lan:8380/artwork/melodik-revolution.png")),
        items: vec![
            Item {
                title: "Melodik Revolution 162".into(),
                guid: "difm/melodik-revolution/162".into(),
                description: None,
                published_at: Some(at("2026-07-05T18:00:00Z")),
                enclosure_url: web("http://nas.lan:8380/media/melodik-revolution/162.mp3"),
                enclosure_bytes: 288_111_664,
                enclosure_mime: "audio/mpeg".into(),
                duration_secs: Some(7236),
            },
            Item {
                title: "Melodik Revolution 161".into(),
                guid: "difm/melodik-revolution/161".into(),
                description: Some("older & wiser".into()),
                published_at: Some(at("2026-06-07T18:00:00Z")),
                enclosure_url: web("http://nas.lan:8380/media/melodik-revolution/161.mp3"),
                enclosure_bytes: 100,
                enclosure_mime: "audio/mpeg".into(),
                duration_secs: None,
            },
        ],
    }
}

fn render(feed: &Feed) -> Vec<u8> {
    assert!(is_printable(feed));
    rss::write(feed)
}

#[test]
fn regeneration_is_byte_identical() {
    assert_eq!(render(&feed()), render(&feed()));
}

#[test]
fn no_time_of_render_leaks_in() {
    let xml = String::from_utf8(render(&feed())).expect("utf-8");
    assert!(!xml.contains("lastBuildDate"));
    assert!(!xml.contains("generator"));
}

#[test]
fn a_strict_parser_accepts_it() {
    let parsed = feed_rs::parser::parse(render(&feed()).as_slice()).expect("valid feed");
    assert_eq!(parsed.title.expect("title").content, "Melodik Revolution");
    assert_eq!(parsed.entries.len(), 2);

    let newest = &parsed.entries[0];
    assert_eq!(newest.id, "difm/melodik-revolution/162");
    let media = newest.media.first().expect("enclosure");
    let content = media.content.first().expect("content");
    assert_eq!(
        content.url.as_ref().expect("url").as_str(),
        "http://nas.lan:8380/media/melodik-revolution/162.mp3"
    );
    assert_eq!(content.size, Some(288_111_664));
    assert_eq!(
        content.content_type.as_ref().expect("mime").to_string(),
        "audio/mpeg"
    );
    assert_eq!(
        media.duration,
        Some(std::time::Duration::from_secs(7236)),
        "itunes:duration must parse as HH:MM:SS"
    );
    assert!(newest.published.is_some(), "pubDate must parse");
}

#[test]
fn xml_escaping_is_handled() {
    let xml = String::from_utf8(render(&feed())).expect("utf-8");
    assert!(xml.contains("Monthly trance &amp; &lt;melody&gt;"));
}

#[test]
fn duration_renders_as_hms() {
    assert_eq!(hms(7236), "02:00:36");
    assert_eq!(hms(59), "00:00:59");
}

#[test]
fn long_durations_keep_all_their_hours() {
    assert_eq!(hms(0), "00:00:00");
    assert_eq!(hms(360_000), "100:00:00");
    assert_eq!(hms(u32::MAX), "1193046:28:15");
}

#[test]
fn publication_dates_are_rfc_2822() {
    let xml = String::from_utf8(render(&feed())).expect("utf-8");
    assert!(xml.contains("<pubDate>Sun, 5 Jul 2026 18:00:00 +0000</pubDate>"), "{xml}");
    assert!(xml.contains("<itunes:duration>02:00:36</itunes:duration>"));
    assert!(xml.starts_with("<?xml version=\"1.0\" encoding=\"UTF-8\"?>"));
}

#[test]
fn dates_before_the_year_zero_cannot_be_printed() {
    let mut early = feed();
    early.items[0].published_at = Timestamp::from_nanos(YEAR_ZERO_NANOS - 1);
    assert!(!is_printable(&early));
    early.items[0].published_at = Timestamp::from_nanos(YEAR_ZERO_NANOS);
    assert!(is_printable(&early));
    let xml = String::from_utf8(rss::write(&early)).expect("utf-8");
    assert!(xml.contains("0000"));
}

fn subscriptions() -> Vec<Subscription> {
    vec![
        Subscription {
            title: "Melodik Revolution".into(),
            feed_url: web("http://nas.lan:8380/feeds/melodik-revolution.xml"),
        },
        Subscription {
            title: "Trance & <Friends>".into(),
            feed_url: web("http://nas.lan:8380/feeds/trance-friends.xml"),
        },
    ]
}

fn render_opml(subscriptions: &Vec<Subscription>) -> String {
    String::from_utf8(opml::write("splicefeed", subscriptions)).expect("utf-8")
}

#[test]
fn regeneration_is_byte_identical_and_well_formed() {
    let first = render_opml(&subscriptions());
    assert_eq!(first, render_opml(&subscriptions()));

    // Well-formed XML with the expected shape.
    let mut reader = quick_xml::Reader::from_str(&first);
    let mut outlines = 0;
    loop {
        match reader.read_event().expect("well-formed") {
            quick_xml::events::Event::Empty(e) if e.name().as_ref() == "outline" => {
                outlines += 1;
            }
            quick_xml::events::Event::Eof => break,
            _ => {}
        }
    }
    assert_eq!(outlines, 2);
}

#[test]
fn attributes_carry_urls_and_escaped_titles() {
    let xml = render_opml(&subscriptions());
    assert!(xml.contains(r#"<opml version="2.0">"#));
    assert!(xml.contains(r#"type="rss""#));
    assert!(xml.contains(r#"xmlUrl="http://nas.lan:8380/feeds/melodik-revolution.xml""#));
    assert!(
        xml.contains("Trance &amp; &lt;Friends&gt;"),
        "titles must be escaped: {xml}"
    );
    assert!(!xml.contains("dateCreated"), "no time-of-render output");
}

#[test]
fn an_empty_list_is_still_a_document() {
    let xml = render_opml(&vec![]);
    assert!(xml.contains("<body>") && xml.contains("</opml>"), "{xml}");
    assert!(!xml.contains("outline"));
}
