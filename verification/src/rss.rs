//! Deterministic podcast RSS: fixed element and attribute order, items in
//! the order given, and nothing that depends on when it is rendered.

use vstd::prelude::*;

use crate::text::{decimal_text, two_digit_text};
use crate::timestamp::Timestamp;
use crate::weburl::WebUrl;
use crate::xml::{
    finish_document, new_document, text_element, write_decl, write_empty, write_end, write_start,
    write_text, xml_document, xml_events, XmlEvent,
};

verus! {

/// A fully resolved feed, ready to serialise.
#[derive(Debug)]
pub struct Feed {
    /// Channel title.
    pub title: String,
    /// Channel link, the external base URL.
    pub link: WebUrl,
    /// Channel description.
    pub description: String,
    /// Cover art URL, if the show has artwork.
    pub artwork: Option<WebUrl>,
    /// Items, newest first.
    pub items: Vec<Item>,
}

/// One episode of a [`Feed`].
#[derive(Debug)]
pub struct Item {
    /// Episode title.
    pub title: String,
    /// Stable GUID (`<provider>/<show>/<episode>`), never a file path.
    pub guid: String,
    /// Episode notes, if any.
    pub description: Option<String>,
    /// Publication time, if known.
    pub published_at: Option<Timestamp>,
    /// Where the audio is served.
    pub enclosure_url: WebUrl,
    /// Exact byte length of the audio file.
    pub enclosure_bytes: u64,
    /// MIME type of the audio.
    pub enclosure_mime: String,
    /// Duration in seconds, if known.
    pub duration_secs: Option<u32>,
}

/// The itunes namespace.
pub const ITUNES_NS: &'static str = "http://www.itunes.com/dtds/podcast-1.0.dtd";

/// A duration as `HH:MM:SS`.
pub open spec fn hms_text(secs: nat) -> Seq<char> {
    crate::text::two_digits(secs / 3600) + ":"@ + crate::text::two_digits((secs % 3600) / 60)
        + ":"@ + crate::text::two_digits(secs % 60)
}

/// `HH:MM:SS`, the least ambiguous `itunes:duration` form.
pub fn hms(secs: u32) -> (text: String)
    ensures
        text@ == hms_text(secs as nat),
{
    let mut text = two_digit_text((secs / 3600) as u64);
    text.append(":");
    text.append(two_digit_text(((secs % 3600) / 60) as u64).as_str());
    text.append(":");
    text.append(two_digit_text((secs % 60) as u64).as_str());
    text
}

/// Whether a publication time can be printed as an RFC 2822 date, which
/// has no years before zero.
pub open spec fn item_printable(item: Item) -> bool {
    item.published_at matches Some(at) ==> at@ >= crate::timestamp::YEAR_ZERO_NANOS
}

/// Whether every publication time can be printed.
pub open spec fn feed_printable(feed: Feed) -> bool {
    forall|i: int| 0 <= i < feed.items@.len() ==> item_printable(#[trigger] feed.items@[i])
}

/// The events of an optional text element.
pub open spec fn opt_text_events(name: Seq<char>, text: Option<Seq<char>>) -> Seq<XmlEvent> {
    match text {
        Some(text) => crate::xml::text_events(name, text),
        None => Seq::empty(),
    }
}

/// The `pubDate` of an item.
pub open spec fn pub_date(item: Item) -> Option<Seq<char>> {
    match item.published_at {
        Some(at) => Some(crate::timestamp::timestamp_rfc2822(at@)),
        None => None,
    }
}

/// The `itunes:duration` of an item.
pub open spec fn item_duration(item: Item) -> Option<Seq<char>> {
    match item.duration_secs {
        Some(secs) => Some(hms_text(secs as nat)),
        None => None,
    }
}

/// What stands between an item's tags.
pub open spec fn item_inner(item: Item) -> Seq<XmlEvent> {
    crate::xml::text_events("title"@, item.title@) + guid_events(item.guid@) + opt_text_events(
        "pubDate"@,
        pub_date(item),
    ) + opt_text_events("description"@, crate::text::opt_text(item.description)) + seq![
        XmlEvent::Empty(
            "enclosure"@,
            seq![
                ("url"@, item.enclosure_url@),
                ("length"@, crate::text::decimal(item.enclosure_bytes as nat)),
                ("type"@, item.enclosure_mime@),
            ],
        ),
    ] + opt_text_events("itunes:duration"@, item_duration(item))
}

/// An item's GUID, which is no permalink.
pub open spec fn guid_events(guid: Seq<char>) -> Seq<XmlEvent> {
    seq![
        XmlEvent::Start("guid"@, seq![("isPermaLink"@, "false"@)]),
        XmlEvent::Text(guid),
        XmlEvent::End("guid"@),
    ]
}

/// The events of one item.
pub open spec fn item_events(item: Item) -> Seq<XmlEvent> {
    seq![XmlEvent::Start("item"@, Seq::empty())] + item_inner(item) + seq![XmlEvent::End("item"@)]
}

/// The events of all items, in order.
pub open spec fn items_events(items: Seq<Item>) -> Seq<XmlEvent>
    decreases items.len(),
{
    if items.len() == 0 {
        Seq::empty()
    } else {
        items_events(items.drop_last()) + item_events(items.last())
    }
}

/// The cover art element.
pub open spec fn artwork_events(artwork: Option<WebUrl>) -> Seq<XmlEvent> {
    match artwork {
        Some(url) => seq![XmlEvent::Empty("itunes:image"@, seq![("href"@, url@)])],
        None => Seq::empty(),
    }
}

/// What stands between the channel's tags.
pub open spec fn channel_inner(feed: Feed) -> Seq<XmlEvent> {
    crate::xml::text_events("title"@, feed.title@) + crate::xml::text_events("link"@, feed.link@)
        + crate::xml::text_events("description"@, feed.description@) + artwork_events(
        feed.artwork,
    ) + items_events(feed.items@)
}

/// The events of a feed.
pub open spec fn rss_events(feed: Feed) -> Seq<XmlEvent> {
    seq![XmlEvent::Decl] + (seq![
        XmlEvent::Start("rss"@, seq![("version"@, "2.0"@), ("xmlns:itunes"@, ITUNES_NS@)]),
    ] + (seq![XmlEvent::Start("channel"@, Seq::empty())] + channel_inner(feed) + seq![
        XmlEvent::End("channel"@),
    ]) + seq![XmlEvent::End("rss"@)])
}

fn no_attributes() -> (none: Vec<(String, String)>)
    ensures
        crate::weburl::pair_texts(none@) == Seq::<(Seq<char>, Seq<char>)>::empty(),
{
    let none: Vec<(String, String)> = Vec::new();
    assert(crate::weburl::pair_texts(none@) =~= Seq::empty());
    none
}

/// Whether every publication time of a feed can be printed.
pub fn is_printable(feed: &Feed) -> (printable: bool)
    ensures
        printable == feed_printable(*feed),
{
    let mut i: usize = 0;
    while i < feed.items.len()
        invariant
            i <= feed.items@.len(),
            forall|k: int| 0 <= k < i ==> item_printable(#[trigger] feed.items@[k]),
        decreases feed.items@.len() - i,
    {
        match &feed.items[i].published_at {
            Some(at) => {
                if at.nanos() < crate::timestamp::YEAR_ZERO_NANOS {
                    assert(!item_printable(feed.items@[i as int]));
                    return false;
                }
            },
            None => {},
        }
        i += 1;
    }
    true
}

/// Serialise a feed as podcast RSS 2.0. The bytes depend on the feed alone.
pub fn write(feed: &Feed) -> (bytes: Vec<u8>)
    requires
        feed_printable(*feed),
    ensures
        bytes@ == xml_document(rss_events(*feed)),
{
    let mut w = new_document();
    write_decl(&mut w);
    let mut attributes: Vec<(String, String)> = Vec::new();
    attributes.push(("version".to_owned(), "2.0".to_owned()));
    attributes.push(("xmlns:itunes".to_owned(), ITUNES_NS.to_owned()));
    assert(crate::weburl::pair_texts(attributes@) =~= seq![
        ("version"@, "2.0"@),
        ("xmlns:itunes"@, ITUNES_NS@),
    ]);
    write_start(&mut w, "rss", &attributes);
    write_start(&mut w, "channel", &no_attributes());
    text_element(&mut w, "title", feed.title.as_str());
    text_element(&mut w, "link", feed.link.as_str());
    text_element(&mut w, "description", feed.description.as_str());
    match &feed.artwork {
        Some(url) => {
            let mut href: Vec<(String, String)> = Vec::new();
            href.push(("href".to_owned(), url.to_string()));
            assert(crate::weburl::pair_texts(href@) =~= seq![("href"@, url@)]);
            write_empty(&mut w, "itunes:image", &href);
        },
        None => {},
    }
    let ghost head = xml_events(w);
    proof {
        assert(feed.items@.take(0) =~= Seq::empty());
        assert(head + items_events(feed.items@.take(0)) =~= head);
    }
    let mut i: usize = 0;
    while i < feed.items.len()
        invariant
            i <= feed.items@.len(),
            feed_printable(*feed),
            xml_events(w) == head + items_events(feed.items@.take(i as int)),
        decreases feed.items@.len() - i,
    {
        assert(item_printable(feed.items@[i as int]));
        write_item(&mut w, &feed.items[i]);
        proof {
            assert(feed.items@.take(i + 1).drop_last() =~= feed.items@.take(i as int));
            assert(head + items_events(feed.items@.take(i as int)) + item_events(
                feed.items@[i as int],
            ) =~= head + items_events(feed.items@.take(i + 1)));
        }
        i += 1;
    }
    assert(feed.items@.take(feed.items@.len() as int) =~= feed.items@);
    write_end(&mut w, "channel");
    write_end(&mut w, "rss");
    assert(xml_events(w) =~= rss_events(*feed));
    finish_document(w)
}

/// Write one item.
fn write_item(w: &mut quick_xml::Writer<Vec<u8>>, item: &Item)
    requires
        item_printable(*item),
    ensures
        xml_events(*final(w)) == xml_events(*old(w)) + item_events(*item),
{
    write_start(w, "item", &no_attributes());
    text_element(w, "title", item.title.as_str());
    let mut permalink: Vec<(String, String)> = Vec::new();
    permalink.push(("isPermaLink".to_owned(), "false".to_owned()));
    assert(crate::weburl::pair_texts(permalink@) =~= seq![("isPermaLink"@, "false"@)]);
    write_start(w, "guid", &permalink);
    write_text(w, item.guid.as_str());
    write_end(w, "guid");
    match &item.published_at {
        Some(at) => {
            text_element(w, "pubDate", at.rfc2822().as_str());
        },
        None => {},
    }
    match &item.description {
        Some(description) => {
            text_element(w, "description", description.as_str());
        },
        None => {},
    }
    let mut enclosure: Vec<(String, String)> = Vec::new();
    enclosure.push(("url".to_owned(), item.enclosure_url.to_string()));
    enclosure.push(("length".to_owned(), decimal_text(item.enclosure_bytes)));
    enclosure.push(("type".to_owned(), item.enclosure_mime.clone()));
    assert(crate::weburl::pair_texts(enclosure@) =~= seq![
        ("url"@, item.enclosure_url@),
        ("length"@, crate::text::decimal(item.enclosure_bytes as nat)),
        ("type"@, item.enclosure_mime@),
    ]);
    write_empty(w, "enclosure", &enclosure);
    match item.duration_secs {
        Some(secs) => {
            text_element(w, "itunes:duration", hms(secs).as_str());
        },
        None => {},
    }
    write_end(w, "item");
    assert(xml_events(*w) =~= xml_events(*old(w)) + item_events(*item));
}

/// An optional text element is balanced.
proof fn lemma_balanced_opt_text(name: Seq<char>, text: Option<Seq<char>>)
    ensures
        crate::xml::balanced(opt_text_events(name, text)),
{
    match text {
        Some(text) => {
            crate::xml::lemma_balanced_text(name, text);
        },
        None => {
            lemma_balanced_nothing();
        },
    }
}

/// No events are balanced.
proof fn lemma_balanced_nothing()
    ensures
        crate::xml::balanced(Seq::empty()),
{
}

/// An item is balanced.
proof fn lemma_balanced_item(item: Item)
    ensures
        crate::xml::balanced(item_events(item)),
{
    crate::xml::lemma_balanced_text("title"@, item.title@);
    lemma_balanced_guid(item.guid@);
    lemma_balanced_opt_text("pubDate"@, pub_date(item));
    lemma_balanced_opt_text("description"@, crate::text::opt_text(item.description));
    lemma_balanced_opt_text("itunes:duration"@, item_duration(item));
    let enclosure = seq![
        ("url"@, item.enclosure_url@),
        ("length"@, crate::text::decimal(item.enclosure_bytes as nat)),
        ("type"@, item.enclosure_mime@),
    ];
    crate::xml::lemma_balanced_empty("enclosure"@, enclosure);
    let a = crate::xml::text_events("title"@, item.title@);
    let b = a + guid_events(item.guid@);
    let c = b + opt_text_events("pubDate"@, pub_date(item));
    let d = c + opt_text_events("description"@, crate::text::opt_text(item.description));
    let e = d + seq![XmlEvent::Empty("enclosure"@, enclosure)];
    crate::xml::lemma_balanced_concat(a, guid_events(item.guid@));
    crate::xml::lemma_balanced_concat(b, opt_text_events("pubDate"@, pub_date(item)));
    crate::xml::lemma_balanced_concat(
        c,
        opt_text_events("description"@, crate::text::opt_text(item.description)),
    );
    crate::xml::lemma_balanced_concat(d, seq![XmlEvent::Empty("enclosure"@, enclosure)]);
    crate::xml::lemma_balanced_concat(
        e,
        opt_text_events("itunes:duration"@, item_duration(item)),
    );
    crate::xml::lemma_balanced_wrap("item"@, Seq::empty(), item_inner(item));
}

/// A GUID element is balanced.
proof fn lemma_balanced_guid(guid: Seq<char>)
    ensures
        crate::xml::balanced(guid_events(guid)),
{
    let inner = seq![XmlEvent::Text(guid)];
    assert forall|open: Seq<Seq<char>>| #[trigger] crate::xml::open_after(inner, open) == Some(
        open,
    ) by {
        crate::xml::lemma_open_after_one(XmlEvent::Text(guid), open);
    }
    crate::xml::lemma_balanced_wrap("guid"@, seq![("isPermaLink"@, "false"@)], inner);
    assert(seq![XmlEvent::Start("guid"@, seq![("isPermaLink"@, "false"@)])] + inner + seq![
        XmlEvent::End("guid"@),
    ] =~= guid_events(guid));
}

/// Items are balanced.
proof fn lemma_balanced_items(items: Seq<Item>)
    ensures
        crate::xml::balanced(items_events(items)),
    decreases items.len(),
{
    if items.len() > 0 {
        lemma_balanced_items(items.drop_last());
        lemma_balanced_item(items.last());
        crate::xml::lemma_balanced_concat(
            items_events(items.drop_last()),
            item_events(items.last()),
        );
    } else {
        lemma_balanced_nothing();
    }
}

/// A feed is well formed: every element it opens it closes, innermost
/// first.
pub proof fn law_feed_is_well_formed(feed: Feed)
    ensures
        crate::xml::balanced(rss_events(feed)),
{
    crate::xml::lemma_balanced_text("title"@, feed.title@);
    crate::xml::lemma_balanced_text("link"@, feed.link@);
    crate::xml::lemma_balanced_text("description"@, feed.description@);
    match feed.artwork {
        Some(url) => {
            crate::xml::lemma_balanced_empty("itunes:image"@, seq![("href"@, url@)]);
        },
        None => {
            lemma_balanced_nothing();
        },
    }
    lemma_balanced_items(feed.items@);
    let a = crate::xml::text_events("title"@, feed.title@);
    let b = a + crate::xml::text_events("link"@, feed.link@);
    let c = b + crate::xml::text_events("description"@, feed.description@);
    let d = c + artwork_events(feed.artwork);
    crate::xml::lemma_balanced_concat(a, crate::xml::text_events("link"@, feed.link@));
    crate::xml::lemma_balanced_concat(
        b,
        crate::xml::text_events("description"@, feed.description@),
    );
    crate::xml::lemma_balanced_concat(c, artwork_events(feed.artwork));
    crate::xml::lemma_balanced_concat(d, items_events(feed.items@));
    crate::xml::lemma_balanced_wrap("channel"@, Seq::empty(), channel_inner(feed));
    let channel = seq![XmlEvent::Start("channel"@, Seq::empty())] + channel_inner(feed) + seq![
        XmlEvent::End("channel"@),
    ];
    let attributes = seq![("version"@, "2.0"@), ("xmlns:itunes"@, ITUNES_NS@)];
    crate::xml::lemma_balanced_wrap("rss"@, attributes, channel);
    let decl = seq![XmlEvent::Decl];
    assert forall|open: Seq<Seq<char>>| #[trigger] crate::xml::open_after(decl, open) == Some(
        open,
    ) by {
        crate::xml::lemma_open_after_one(XmlEvent::Decl, open);
    }
    crate::xml::lemma_balanced_concat(
        decl,
        seq![XmlEvent::Start("rss"@, attributes)] + channel + seq![XmlEvent::End("rss"@)],
    );
}

/// The names of the elements a feed consists of.
pub open spec fn is_feed_element(name: Seq<char>) -> bool {
    ||| name == "rss"@
    ||| name == "channel"@
    ||| name == "title"@
    ||| name == "link"@
    ||| name == "description"@
    ||| name == "itunes:image"@
    ||| name == "item"@
    ||| name == "guid"@
    ||| name == "pubDate"@
    ||| name == "enclosure"@
    ||| name == "itunes:duration"@
}

/// Whether all elements have names from that list.
pub open spec fn only_feed_elements(events: Seq<XmlEvent>) -> bool {
    forall|i: int|
        0 <= i < events.len() ==> match #[trigger] events[i] {
            XmlEvent::Start(name, _) => is_feed_element(name),
            XmlEvent::Empty(name, _) => is_feed_element(name),
            _ => true,
        }
}

proof fn lemma_items_have_feed_elements(items: Seq<Item>)
    ensures
        only_feed_elements(items_events(items)),
    decreases items.len(),
{
    if items.len() > 0 {
        lemma_items_have_feed_elements(items.drop_last());
        let before = items_events(items.drop_last());
        let last = item_events(items.last());
        assert(only_feed_elements(last));
        assert forall|i: int| 0 <= i < (before + last).len() implies match #[trigger] (before
            + last)[i] {
            XmlEvent::Start(name, _) => is_feed_element(name),
            XmlEvent::Empty(name, _) => is_feed_element(name),
            _ => true,
        } by {
            if i < before.len() {
                assert((before + last)[i] == before[i]);
            } else {
                assert((before + last)[i] == last[i - before.len()]);
            }
        }
    }
}

/// Nothing in a feed depends on when it is rendered: it consists of the
/// listed elements alone, so there is no build date and no generator.
pub proof fn law_no_time_of_render(feed: Feed)
    ensures
        only_feed_elements(rss_events(feed)),
        !crate::xml::mentions(rss_events(feed), "lastBuildDate"@),
        !crate::xml::mentions(rss_events(feed), "generator"@),
{
    lemma_items_have_feed_elements(feed.items@);
    let items = items_events(feed.items@);
    let events = rss_events(feed);
    let head = crate::xml::text_events("title"@, feed.title@) + crate::xml::text_events(
        "link"@,
        feed.link@,
    ) + crate::xml::text_events("description"@, feed.description@) + artwork_events(feed.artwork);
    let before = seq![
        XmlEvent::Decl,
        XmlEvent::Start("rss"@, seq![("version"@, "2.0"@), ("xmlns:itunes"@, ITUNES_NS@)]),
        XmlEvent::Start("channel"@, Seq::empty()),
    ] + head;
    let after = seq![XmlEvent::End("channel"@), XmlEvent::End("rss"@)];
    assert(events =~= before + items + after);
    assert(only_feed_elements(before));
    assert forall|i: int| 0 <= i < events.len() implies match #[trigger] events[i] {
        XmlEvent::Start(name, _) => is_feed_element(name),
        XmlEvent::Empty(name, _) => is_feed_element(name),
        _ => true,
    } by {
        if i < before.len() {
            assert(events[i] == before[i]);
        } else if i < before.len() + items.len() {
            assert(events[i] == items[i - before.len()]);
        } else {
            assert(events[i] == after[i - before.len() - items.len()]);
        }
    }
    lemma_not_feed_elements();
}

/// Build dates and generators are no feed elements.
proof fn lemma_not_feed_elements()
    ensures
        !is_feed_element("lastBuildDate"@),
        !is_feed_element("generator"@),
{
    reveal_strlit("lastBuildDate");
    reveal_strlit("generator");
    reveal_strlit("rss");
    reveal_strlit("channel");
    reveal_strlit("title");
    reveal_strlit("link");
    reveal_strlit("description");
    reveal_strlit("itunes:image");
    reveal_strlit("item");
    reveal_strlit("guid");
    reveal_strlit("pubDate");
    reveal_strlit("enclosure");
    reveal_strlit("itunes:duration");
    assert("lastBuildDate"@.len() == 13 && "generator"@.len() == 9);
    assert("rss"@.len() == 3 && "channel"@.len() == 7 && "title"@.len() == 5);
    assert("link"@.len() == 4 && "description"@.len() == 11 && "itunes:image"@.len() == 12);
    assert("item"@.len() == 4 && "guid"@.len() == 4 && "pubDate"@.len() == 7);
    assert("enclosure"@.len() == 9 && "itunes:duration"@.len() == 15);
    assert("enclosure"@[0] == 'e' && "generator"@[0] == 'g');
}

/// An item reads back as what was put into it: between its tags there is one
/// title with its title, one guid that is no permalink with its guid, one
/// enclosure with the URL, size and type of its audio, and a publication
/// date, notes and a duration exactly if it has them.
pub proof fn law_items_read_back(item: Item)
    ensures
        item_events(item).len() >= 2,
        item_events(item)[0] == XmlEvent::Start("item"@, Seq::empty()),
        item_events(item).last() == XmlEvent::End("item"@),
        crate::xml::sole_text(item_events(item), "title"@, item.title@),
        crate::xml::sole_text(item_events(item), "guid"@, item.guid@),
        item_events(item).contains(
            XmlEvent::Start("guid"@, seq![("isPermaLink"@, "false"@)]),
        ),
        crate::xml::opt_sole_text(
            item_events(item),
            "pubDate"@,
            match item.published_at {
                Some(at) => Some(crate::timestamp::timestamp_rfc2822(at@)),
                None => None,
            },
        ),
        crate::xml::opt_sole_text(
            item_events(item),
            "description"@,
            match item.description {
                Some(notes) => Some(notes@),
                None => None,
            },
        ),
        crate::xml::sole_empty(
            item_events(item),
            "enclosure"@,
            seq![
                ("url"@, item.enclosure_url@),
                ("length"@, crate::text::decimal(item.enclosure_bytes as nat)),
                ("type"@, item.enclosure_mime@),
            ],
        ),
        crate::xml::opt_sole_text(
            item_events(item),
            "itunes:duration"@,
            match item.duration_secs {
                Some(secs) => Some(hms_text(secs as nat)),
                None => None,
            },
        ),
{
    lemma_item_front(item);
    lemma_item_back(item);
}

/// The events in front of an item's notes, and from its notes on.
proof fn lemma_item_split(item: Item) -> (halves: (Seq<XmlEvent>, Seq<XmlEvent>))
    ensures
        halves.0 == seq![XmlEvent::Start("item"@, Seq::empty())] + crate::xml::text_events(
            "title"@,
            item.title@,
        ) + guid_events(item.guid@) + opt_text_events("pubDate"@, pub_date(item)),
        halves.1 == opt_text_events("description"@, crate::text::opt_text(item.description))
            + enclosure_events(item) + opt_text_events("itunes:duration"@, item_duration(item))
            + seq![XmlEvent::End("item"@)],
        item_events(item) == halves.0 + halves.1,
{
    let front = seq![XmlEvent::Start("item"@, Seq::empty())] + crate::xml::text_events(
        "title"@,
        item.title@,
    ) + guid_events(item.guid@) + opt_text_events("pubDate"@, pub_date(item));
    let back = opt_text_events("description"@, crate::text::opt_text(item.description))
        + enclosure_events(item) + opt_text_events("itunes:duration"@, item_duration(item)) + seq![
        XmlEvent::End("item"@),
    ];
    assert(item_events(item) =~= front + back);
    (front, back)
}

/// The element that says where an item's audio is.
spec fn enclosure_events(item: Item) -> Seq<XmlEvent> {
    seq![
        XmlEvent::Empty(
            "enclosure"@,
            seq![
                ("url"@, item.enclosure_url@),
                ("length"@, crate::text::decimal(item.enclosure_bytes as nat)),
                ("type"@, item.enclosure_mime@),
            ],
        ),
    ]
}

/// What lacks in four parts lacks in the whole.
proof fn lemma_lacks_four(
    a: Seq<XmlEvent>,
    b: Seq<XmlEvent>,
    c: Seq<XmlEvent>,
    d: Seq<XmlEvent>,
    name: Seq<char>,
)
    requires
        crate::xml::lacks(a, name),
        crate::xml::lacks(b, name),
        crate::xml::lacks(c, name),
        crate::xml::lacks(d, name),
    ensures
        crate::xml::lacks(a + b + c + d, name),
{
    crate::xml::lemma_lacks_concat(a, b, name);
    crate::xml::lemma_lacks_concat(a + b, c, name);
    crate::xml::lemma_lacks_concat(a + b + c, d, name);
}

/// Title, guid and date stand in front of an item's notes, and only there.
proof fn lemma_item_front(item: Item)
    ensures
        crate::xml::sole_text(item_events(item), "title"@, item.title@),
        crate::xml::sole_text(item_events(item), "guid"@, item.guid@),
        item_events(item).contains(
            XmlEvent::Start("guid"@, seq![("isPermaLink"@, "false"@)]),
        ),
        crate::xml::opt_sole_text(item_events(item), "pubDate"@, pub_date(item)),
        item_events(item)[0] == XmlEvent::Start("item"@, Seq::empty()),
{
    lemma_names_differ();
    let open = seq![XmlEvent::Start("item"@, Seq::<(Seq<char>, Seq<char>)>::empty())];
    let title = crate::xml::text_events("title"@, item.title@);
    let guid = guid_events(item.guid@);
    let date = opt_text_events("pubDate"@, pub_date(item));
    let notes = opt_text_events("description"@, crate::text::opt_text(item.description));
    let enclosure = enclosure_events(item);
    let duration = opt_text_events("itunes:duration"@, item_duration(item));
    let close = seq![XmlEvent::End("item"@)];
    let (front, back) = lemma_item_split(item);
    lemma_opt_text_reads("pubDate"@, pub_date(item));
    lemma_opt_text_reads("description"@, crate::text::opt_text(item.description));
    lemma_opt_text_reads("itunes:duration"@, item_duration(item));
    crate::xml::law_text_elements("title"@, item.title@, "guid"@);
    crate::xml::law_text_elements("title"@, item.title@, "pubDate"@);
    assert(crate::xml::opens(guid[0], "guid"@));
    assert(crate::xml::sole_text(guid, "guid"@, item.guid@));
    lemma_lacks_four(notes, enclosure, duration, close, "title"@);
    lemma_lacks_four(notes, enclosure, duration, close, "guid"@);
    lemma_lacks_four(notes, enclosure, duration, close, "pubDate"@);
    crate::xml::lemma_lacks_concat(guid, date, "title"@);
    crate::xml::lemma_lacks_concat(guid + date, back, "title"@);
    crate::xml::lemma_lacks_concat(open, title, "guid"@);
    crate::xml::lemma_lacks_concat(date, back, "guid"@);
    crate::xml::lemma_lacks_concat(open, title, "pubDate"@);
    crate::xml::lemma_lacks_concat(open + title, guid, "pubDate"@);
    crate::xml::lemma_sole_text_within(open, title, guid + date + back, "title"@, item.title@);
    assert(front + back =~= open + title + (guid + date + back));
    crate::xml::lemma_sole_text_within(open + title, guid, date + back, "guid"@, item.guid@);
    assert(front + back =~= open + title + guid + (date + back));
    lemma_opt_text_within(open + title + guid, back, "pubDate"@, pub_date(item));
    assert((front + back)[4] == guid[0]);
    assert((front + back)[0] == open[0]);
}

/// Notes, enclosure and duration stand behind an item's date, and only
/// there.
proof fn lemma_item_back(item: Item)
    ensures
        crate::xml::opt_sole_text(
            item_events(item),
            "description"@,
            crate::text::opt_text(item.description),
        ),
        crate::xml::sole_empty(
            item_events(item),
            "enclosure"@,
            seq![
                ("url"@, item.enclosure_url@),
                ("length"@, crate::text::decimal(item.enclosure_bytes as nat)),
                ("type"@, item.enclosure_mime@),
            ],
        ),
        crate::xml::opt_sole_text(
            item_events(item),
            "itunes:duration"@,
            item_duration(item),
        ),
        item_events(item).len() >= 2,
        item_events(item).last() == XmlEvent::End("item"@),
{
    lemma_names_differ();
    let open = seq![XmlEvent::Start("item"@, Seq::<(Seq<char>, Seq<char>)>::empty())];
    let title = crate::xml::text_events("title"@, item.title@);
    let guid = guid_events(item.guid@);
    let date = opt_text_events("pubDate"@, pub_date(item));
    let notes = opt_text_events("description"@, crate::text::opt_text(item.description));
    let enclosure = enclosure_events(item);
    let duration = opt_text_events("itunes:duration"@, item_duration(item));
    let close = seq![XmlEvent::End("item"@)];
    let (front, back) = lemma_item_split(item);
    lemma_opt_text_reads("pubDate"@, pub_date(item));
    lemma_opt_text_reads("description"@, crate::text::opt_text(item.description));
    lemma_opt_text_reads("itunes:duration"@, item_duration(item));
    crate::xml::law_text_elements("title"@, item.title@, "description"@);
    crate::xml::law_text_elements("title"@, item.title@, "enclosure"@);
    crate::xml::law_text_elements("title"@, item.title@, "itunes:duration"@);
    lemma_lacks_four(open, title, guid, date, "description"@);
    lemma_lacks_four(open, title, guid, date, "enclosure"@);
    lemma_lacks_four(open, title, guid, date, "itunes:duration"@);
    crate::xml::lemma_lacks_concat(enclosure, duration, "description"@);
    crate::xml::lemma_lacks_concat(enclosure + duration, close, "description"@);
    lemma_opt_text_within(
        front,
        enclosure + duration + close,
        "description"@,
        crate::text::opt_text(item.description),
    );
    assert(front + back =~= front + notes + (enclosure + duration + close));
    crate::xml::lemma_lacks_concat(front, notes, "itunes:duration"@);
    crate::xml::lemma_lacks_concat(front + notes, enclosure, "itunes:duration"@);
    lemma_opt_text_within(
        front + notes + enclosure,
        close,
        "itunes:duration"@,
        item_duration(item),
    );
    assert(front + back =~= front + notes + enclosure + duration + close);
    crate::xml::lemma_lacks_concat(front, notes, "enclosure"@);
    crate::xml::lemma_lacks_concat(duration, close, "enclosure"@);
    let before = front + notes;
    let after = duration + close;
    let all = before + enclosure + after;
    assert(front + back =~= all);
    let k = before.len() as int;
    assert(all[k] == enclosure[0]);
    assert(crate::xml::opens(all[k], "enclosure"@));
    assert forall|j: int| 0 <= j < all.len() && j != k implies !crate::xml::opens(
        #[trigger] all[j],
        "enclosure"@,
    ) by {
        if j < k {
            assert(all[j] == before[j]);
        } else {
            assert(all[j] == after[j - k - 1]);
        }
    }
    assert(all.last() == close[0]);
}

/// The names of an item's elements differ.
proof fn lemma_names_differ()
    ensures
        "title"@.len() == 5,
        "guid"@.len() == 4,
        "item"@.len() == 4,
        "guid"@ != "item"@,
        "pubDate"@.len() == 7,
        "description"@.len() == 11,
        "enclosure"@.len() == 9,
        "itunes:duration"@.len() == 15,
        "link"@.len() == 4,
        "link"@ != "item"@,
        "link"@ != "guid"@,
        "itunes:image"@.len() == 12,
        "channel"@.len() == 7,
        "channel"@ != "pubDate"@,
        "rss"@.len() == 3,
{
    reveal_strlit("title");
    reveal_strlit("guid");
    reveal_strlit("item");
    reveal_strlit("pubDate");
    reveal_strlit("description");
    reveal_strlit("enclosure");
    reveal_strlit("itunes:duration");
    reveal_strlit("link");
    reveal_strlit("itunes:image");
    reveal_strlit("channel");
    reveal_strlit("rss");
    assert("guid"@[0] == 'g' && "item"@[0] == 'i' && "link"@[0] == 'l');
    assert("channel"@[0] == 'c' && "pubDate"@[0] == 'p');
}

/// An optional text element is an element of its name, where there is a
/// text, and of no other name.
proof fn lemma_opt_text_reads(name: Seq<char>, text: Option<Seq<char>>)
    ensures
        crate::xml::opt_sole_text(opt_text_events(name, text), name, text),
        forall|other: Seq<char>|
            other != name ==> #[trigger] crate::xml::lacks(opt_text_events(name, text), other),
{
    match text {
        Some(t) => {
            crate::xml::law_text_elements(name, t, name);
            assert forall|other: Seq<char>| other != name implies #[trigger] crate::xml::lacks(
                opt_text_events(name, text),
                other,
            ) by {
                crate::xml::law_text_elements(name, t, other);
            }
        },
        None => {},
    }
}

/// An optional text element that occurs in a part alone occurs in the whole.
proof fn lemma_opt_text_within(
    a: Seq<XmlEvent>,
    c: Seq<XmlEvent>,
    name: Seq<char>,
    text: Option<Seq<char>>,
)
    requires
        crate::xml::lacks(a, name),
        crate::xml::lacks(c, name),
    ensures
        crate::xml::opt_sole_text(a + opt_text_events(name, text) + c, name, text),
{
    lemma_opt_text_reads(name, text);
    match text {
        Some(t) => {
            crate::xml::lemma_sole_text_within(a, opt_text_events(name, text), c, name, t);
        },
        None => {
            crate::xml::lemma_lacks_concat(a, opt_text_events(name, text), name);
            crate::xml::lemma_lacks_concat(a + opt_text_events(name, text), c, name);
        },
    }
}

/// Everything in front of a feed's first item.
pub open spec fn feed_head(feed: Feed) -> Seq<XmlEvent> {
    rss_events(feed).take(rss_events(feed).len() - items_events(feed.items@).len() - 2)
}

/// A feed reads back as what was put into it: in front of its items stand
/// the declaration, the tags of an RSS 2.0 channel with the itunes
/// namespace, one title, link and description with its own, and its cover
/// art exactly if it has any; then come its items, and the closing tags.
pub proof fn law_feeds_read_back(feed: Feed)
    ensures
        rss_events(feed) == feed_head(feed) + items_events(feed.items@) + seq![
            XmlEvent::End("channel"@),
            XmlEvent::End("rss"@),
        ],
        feed_head(feed)[0] == XmlEvent::Decl,
        feed_head(feed)[1] == XmlEvent::Start(
            "rss"@,
            seq![
                ("version"@, "2.0"@),
                ("xmlns:itunes"@, "http://www.itunes.com/dtds/podcast-1.0.dtd"@),
            ],
        ),
        feed_head(feed)[2] == XmlEvent::Start("channel"@, Seq::empty()),
        crate::xml::sole_text(feed_head(feed), "title"@, feed.title@),
        crate::xml::sole_text(feed_head(feed), "link"@, feed.link@),
        crate::xml::sole_text(feed_head(feed), "description"@, feed.description@),
        match feed.artwork {
            Some(url) => crate::xml::sole_empty(
                feed_head(feed),
                "itunes:image"@,
                seq![("href"@, url@)],
            ),
            None => crate::xml::lacks(feed_head(feed), "itunes:image"@),
        },
        crate::xml::lacks(feed_head(feed), "item"@),
{
    lemma_names_differ();
    let open = seq![
        XmlEvent::Decl,
        XmlEvent::Start("rss"@, seq![("version"@, "2.0"@), ("xmlns:itunes"@, ITUNES_NS@)]),
        XmlEvent::Start("channel"@, Seq::empty()),
    ];
    let title = crate::xml::text_events("title"@, feed.title@);
    let link = crate::xml::text_events("link"@, feed.link@);
    let description = crate::xml::text_events("description"@, feed.description@);
    let artwork = artwork_events(feed.artwork);
    let items = items_events(feed.items@);
    let close = seq![XmlEvent::End("channel"@), XmlEvent::End("rss"@)];
    let head = open + title + link + description + artwork;
    assert(rss_events(feed) =~= head + items + close);
    assert(feed_head(feed) =~= head);
    assert forall|name: Seq<char>| name != "title"@ implies #[trigger] crate::xml::lacks(
        title,
        name,
    ) by {
        crate::xml::law_text_elements("title"@, feed.title@, name);
    }
    assert forall|name: Seq<char>| name != "link"@ implies #[trigger] crate::xml::lacks(
        link,
        name,
    ) by {
        crate::xml::law_text_elements("link"@, feed.link@, name);
    }
    assert forall|name: Seq<char>| name != "description"@ implies #[trigger] crate::xml::lacks(
        description,
        name,
    ) by {
        crate::xml::law_text_elements("description"@, feed.description@, name);
    }
    crate::xml::law_text_elements("title"@, feed.title@, "link"@);
    crate::xml::law_text_elements("link"@, feed.link@, "title"@);
    crate::xml::law_text_elements("description"@, feed.description@, "title"@);
    let a = open + title;
    let b = a + link;
    let c = b + description;
    let from_link = link + description + artwork;
    let from_description = description + artwork;
    assert(head =~= open + title + from_link);
    assert(head =~= a + link + from_description);
    crate::xml::lemma_lacks_concat(link, description, "title"@);
    crate::xml::lemma_lacks_concat(link + description, artwork, "title"@);
    crate::xml::lemma_lacks_concat(description, artwork, "link"@);
    crate::xml::lemma_lacks_concat(open, title, "link"@);
    crate::xml::lemma_lacks_concat(open, title, "description"@);
    crate::xml::lemma_lacks_concat(a, link, "description"@);
    crate::xml::lemma_lacks_concat(open, title, "itunes:image"@);
    crate::xml::lemma_lacks_concat(a, link, "itunes:image"@);
    crate::xml::lemma_lacks_concat(b, description, "itunes:image"@);
    crate::xml::lemma_lacks_concat(open, title, "item"@);
    crate::xml::lemma_lacks_concat(a, link, "item"@);
    crate::xml::lemma_lacks_concat(b, description, "item"@);
    crate::xml::lemma_lacks_concat(c, artwork, "item"@);
    crate::xml::lemma_sole_text_within(open, title, from_link, "title"@, feed.title@);
    crate::xml::lemma_sole_text_within(a, link, from_description, "link"@, feed.link@);
    crate::xml::lemma_sole_text_within(b, description, artwork, "description"@, feed.description@);
    match feed.artwork {
        Some(url) => {
            let k = c.len() as int;
            assert(head[k] == XmlEvent::Empty("itunes:image"@, seq![("href"@, url@)]));
            assert(crate::xml::opens(head[k], "itunes:image"@));
            assert forall|j: int| 0 <= j < head.len() && j != k implies !crate::xml::opens(
                #[trigger] head[j],
                "itunes:image"@,
            ) by {
                assert(head[j] == c[j]);
            }
        },
        None => {
            assert(head =~= c);
        },
    }
}

/// The items of a feed stand in its order: in front of item `i` as many
/// items start as come before it, its events follow whole, and behind it
/// come the others.
pub proof fn law_items_stand_in_order(items: Seq<Item>, i: int)
    requires
        0 <= i < items.len(),
    ensures
        items_events(items) == items_events(items.take(i)) + item_events(items[i]) + items_events(
            items.skip(i + 1),
        ),
        crate::xml::starts(items_events(items.take(i)), "item"@) == i,
        crate::xml::starts(items_events(items), "item"@) == items.len(),
{
    lemma_items_concat(items.take(i), items.skip(i));
    lemma_items_concat(seq![items[i]], items.skip(i + 1));
    assert(items.take(i) + items.skip(i) =~= items);
    assert(seq![items[i]] + items.skip(i + 1) =~= items.skip(i));
    assert(seq![items[i]].drop_last() =~= Seq::empty());
    assert(items_events(seq![items[i]].drop_last()) =~= Seq::empty());
    assert(items_events(seq![items[i]]) =~= item_events(items[i]));
    assert(items_events(items) =~= items_events(items.take(i)) + item_events(items[i])
        + items_events(items.skip(i + 1)));
    lemma_items_start(items.take(i));
    lemma_items_start(items);
}

proof fn lemma_items_concat(a: Seq<Item>, b: Seq<Item>)
    ensures
        items_events(a + b) == items_events(a) + items_events(b),
    decreases b.len(),
{
    if b.len() == 0 {
        assert(a + b =~= a);
        assert(items_events(a) + items_events(b) =~= items_events(a));
    } else {
        lemma_items_concat(a, b.drop_last());
        assert((a + b).drop_last() =~= a + b.drop_last());
        assert(items_events(a + b) =~= items_events(a) + items_events(b));
    }
}

proof fn lemma_items_start(items: Seq<Item>)
    ensures
        crate::xml::starts(items_events(items), "item"@) == items.len(),
    decreases items.len(),
{
    if items.len() > 0 {
        lemma_items_start(items.drop_last());
        let last = items.last();
        crate::xml::lemma_starts_concat(
            items_events(items.drop_last()),
            item_events(last),
            "item"@,
        );
        let open = seq![XmlEvent::Start("item"@, Seq::<(Seq<char>, Seq<char>)>::empty())];
        let inner = item_inner(last);
        let close = seq![XmlEvent::End("item"@)];
        crate::xml::lemma_starts_concat(open + inner, close, "item"@);
        crate::xml::lemma_starts_concat(open, inner, "item"@);
        assert(open.drop_last() =~= Seq::empty());
        assert(crate::xml::starts(open.drop_last(), "item"@) == 0);
        assert(close.drop_last() =~= Seq::empty());
        assert(crate::xml::starts(close.drop_last(), "item"@) == 0);
        lemma_inner_lacks_items(last);
        crate::xml::lemma_lacking_starts(inner, "item"@);
    }
}

proof fn lemma_inner_lacks_items(item: Item)
    ensures
        crate::xml::lacks(item_inner(item), "item"@),
{
    lemma_names_differ();
    let title = crate::xml::text_events("title"@, item.title@);
    let guid = guid_events(item.guid@);
    let date = opt_text_events("pubDate"@, pub_date(item));
    let notes = opt_text_events("description"@, crate::text::opt_text(item.description));
    let enclosure = seq![
        XmlEvent::Empty(
            "enclosure"@,
            seq![
                ("url"@, item.enclosure_url@),
                ("length"@, crate::text::decimal(item.enclosure_bytes as nat)),
                ("type"@, item.enclosure_mime@),
            ],
        ),
    ];
    let duration = opt_text_events("itunes:duration"@, item_duration(item));
    crate::xml::law_text_elements("title"@, item.title@, "item"@);
    lemma_opt_text_reads("pubDate"@, pub_date(item));
    lemma_opt_text_reads("description"@, crate::text::opt_text(item.description));
    lemma_opt_text_reads("itunes:duration"@, item_duration(item));
    crate::xml::lemma_lacks_concat(title, guid, "item"@);
    crate::xml::lemma_lacks_concat(title + guid, date, "item"@);
    crate::xml::lemma_lacks_concat(title + guid + date, notes, "item"@);
    crate::xml::lemma_lacks_concat(title + guid + date + notes, enclosure, "item"@);
    crate::xml::lemma_lacks_concat(
        title + guid + date + notes + enclosure,
        duration,
        "item"@,
    );
}

/// A duration in hours, minutes and seconds reads back: minutes and seconds
/// are below sixty and take two digits, and together they are the duration.
pub proof fn law_durations_read_back(secs: nat)
    ensures
        exists|h: nat, m: nat, s: nat|
            m < 60 && s < 60 && secs == h * 3600 + m * 60 + s && #[trigger] hms_parts(
                h,
                m,
                s,
            ) == hms_text(secs),
{
    let h = secs / 3600;
    let m = (secs % 3600) / 60;
    let s = secs % 60;
    assert(secs == h * 3600 + m * 60 + s);
    assert(hms_parts(h, m, s) == hms_text(secs));
}

/// Hours, minutes and seconds, each with two digits at least, and colons
/// between them.
pub open spec fn hms_parts(h: nat, m: nat, s: nat) -> Seq<char> {
    crate::text::two_digits(h) + ":"@ + crate::text::two_digits(m) + ":"@
        + crate::text::two_digits(s)
}

/// A feed can be written unless an item was published before the year zero,
/// which the dates of a feed do not have.
pub proof fn law_which_feeds_can_be_written(feed: Feed)
    ensures
        !feed_printable(feed) <==> exists|i: int|
            0 <= i < feed.items@.len() && (#[trigger] feed.items@[i]).published_at is Some
                && feed.items@[i].published_at->0@ < -62_167_219_200_000_000_000,
{
    if !feed_printable(feed) {
        let i = choose|i: int|
            0 <= i < feed.items@.len() && !item_printable(#[trigger] feed.items@[i]);
        assert(feed.items@[i].published_at is Some);
    }
    if exists|i: int|
        0 <= i < feed.items@.len() && (#[trigger] feed.items@[i]).published_at is Some
            && feed.items@[i].published_at->0@ < -62_167_219_200_000_000_000 {
        let i = choose|i: int|
            0 <= i < feed.items@.len() && (#[trigger] feed.items@[i]).published_at is Some
                && feed.items@[i].published_at->0@ < -62_167_219_200_000_000_000;
        assert(!item_printable(feed.items@[i]));
    }
}

} // verus!
