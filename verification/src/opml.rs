//! OPML 2.0 subscription lists: one import subscribes a podcast app to
//! every feed. The same determinism holds as for feeds; there is no
//! creation date.

use vstd::prelude::*;

use crate::weburl::WebUrl;
use crate::xml::{
    finish_document, new_document, text_element, write_decl, write_empty, write_end, write_start,
    xml_document, xml_events, XmlEvent,
};

verus! {

/// One feed in the subscription list.
#[derive(Debug)]
pub struct Subscription {
    /// Human-readable show title.
    pub title: String,
    /// Absolute feed URL.
    pub feed_url: WebUrl,
}

/// The outline of one subscription.
pub open spec fn outline(subscription: Subscription) -> XmlEvent {
    XmlEvent::Empty(
        "outline"@,
        seq![
            ("type"@, "rss"@),
            ("text"@, subscription.title@),
            ("title"@, subscription.title@),
            ("xmlUrl"@, subscription.feed_url@),
        ],
    )
}

/// The outlines, in order.
pub open spec fn outlines(subscriptions: Seq<Subscription>) -> Seq<XmlEvent> {
    subscriptions.map_values(|s: Subscription| outline(s))
}

/// What stands between the document's tags.
pub open spec fn opml_inner(title: Seq<char>, subscriptions: Seq<Subscription>) -> Seq<XmlEvent> {
    (seq![XmlEvent::Start("head"@, Seq::empty())] + crate::xml::text_events("title"@, title)
        + seq![XmlEvent::End("head"@)]) + (seq![XmlEvent::Start("body"@, Seq::empty())] + outlines(
        subscriptions,
    ) + seq![XmlEvent::End("body"@)])
}

/// The events of a subscription list.
pub open spec fn opml_events(title: Seq<char>, subscriptions: Seq<Subscription>) -> Seq<XmlEvent> {
    seq![XmlEvent::Decl] + (seq![XmlEvent::Start("opml"@, seq![("version"@, "2.0"@)])]
        + opml_inner(title, subscriptions) + seq![XmlEvent::End("opml"@)])
}

/// Serialise a subscription list, in the given order. The bytes depend on
/// the arguments alone.
pub fn write(title: &str, subscriptions: &Vec<Subscription>) -> (bytes: Vec<u8>)
    ensures
        bytes@ == xml_document(opml_events(title@, subscriptions@)),
{
    let none: Vec<(String, String)> = Vec::new();
    assert(crate::weburl::pair_texts(none@) =~= Seq::empty());
    let mut w = new_document();
    write_decl(&mut w);
    let mut version: Vec<(String, String)> = Vec::new();
    version.push(("version".to_owned(), "2.0".to_owned()));
    assert(crate::weburl::pair_texts(version@) =~= seq![("version"@, "2.0"@)]);
    write_start(&mut w, "opml", &version);
    write_start(&mut w, "head", &none);
    text_element(&mut w, "title", title);
    write_end(&mut w, "head");
    write_start(&mut w, "body", &none);
    let ghost head = xml_events(w);
    let mut i: usize = 0;
    assert(head + outlines(subscriptions@).take(0) =~= head);
    while i < subscriptions.len()
        invariant
            i <= subscriptions@.len(),
            xml_events(w) == head + outlines(subscriptions@).take(i as int),
        decreases subscriptions@.len() - i,
    {
        let mut attributes: Vec<(String, String)> = Vec::new();
        attributes.push(("type".to_owned(), "rss".to_owned()));
        attributes.push(("text".to_owned(), subscriptions[i].title.clone()));
        attributes.push(("title".to_owned(), subscriptions[i].title.clone()));
        attributes.push(("xmlUrl".to_owned(), subscriptions[i].feed_url.to_string()));
        assert(crate::weburl::pair_texts(attributes@) =~= seq![
            ("type"@, "rss"@),
            ("text"@, subscriptions@[i as int].title@),
            ("title"@, subscriptions@[i as int].title@),
            ("xmlUrl"@, subscriptions@[i as int].feed_url@),
        ]);
        write_empty(&mut w, "outline", &attributes);
        assert(xml_events(w) =~= head + outlines(subscriptions@).take(i + 1));
        i += 1;
    }
    assert(outlines(subscriptions@).take(subscriptions@.len() as int) =~= outlines(
        subscriptions@,
    ));
    write_end(&mut w, "body");
    write_end(&mut w, "opml");
    assert(xml_events(w) =~= opml_events(title@, subscriptions@));
    finish_document(w)
}

/// A list holds one outline per subscription, in order, and nothing else but
/// its frame.
pub proof fn law_one_outline_per_subscription(
    title: Seq<char>,
    subscriptions: Seq<Subscription>,
    i: int,
)
    requires
        0 <= i < subscriptions.len(),
    ensures
        opml_events(title, subscriptions)[8 + i] == outline(subscriptions[i]),
        opml_events(title, subscriptions).len() == subscriptions.len() + 10,
{
}

/// Nothing in a subscription list depends on when it is rendered: there is
/// no creation date.
pub proof fn law_no_creation_date(title: Seq<char>, subscriptions: Seq<Subscription>)
    ensures
        !crate::xml::mentions(opml_events(title, subscriptions), "dateCreated"@),
{
    reveal_strlit("dateCreated");
    reveal_strlit("opml");
    reveal_strlit("head");
    reveal_strlit("title");
    reveal_strlit("body");
    reveal_strlit("outline");
    assert("dateCreated"@.len() == 11 && "opml"@.len() == 4 && "head"@.len() == 4);
    assert("title"@.len() == 5 && "body"@.len() == 4 && "outline"@.len() == 7);
    let events = opml_events(title, subscriptions);
    let before = seq![
        XmlEvent::Decl,
        XmlEvent::Start("opml"@, seq![("version"@, "2.0"@)]),
        XmlEvent::Start("head"@, Seq::empty()),
        XmlEvent::Start("title"@, Seq::empty()),
        XmlEvent::Text(title),
        XmlEvent::End("title"@),
        XmlEvent::End("head"@),
        XmlEvent::Start("body"@, Seq::empty()),
    ];
    let listed = outlines(subscriptions);
    let after = seq![XmlEvent::End("body"@), XmlEvent::End("opml"@)];
    assert(events =~= before + listed + after);
    assert(!crate::xml::mentions(before, "dateCreated"@));
    assert(!crate::xml::mentions(listed, "dateCreated"@));
    assert(!crate::xml::mentions(after, "dateCreated"@));
    crate::xml::lemma_mentions_concat(before, listed, "dateCreated"@);
    crate::xml::lemma_mentions_concat(before + listed, after, "dateCreated"@);
}

/// A subscription list is well formed: every element it opens it closes,
/// innermost first.
pub proof fn law_list_is_well_formed(title: Seq<char>, subscriptions: Seq<Subscription>)
    ensures
        crate::xml::balanced(opml_events(title, subscriptions)),
{
    crate::xml::lemma_balanced_text("title"@, title);
    crate::xml::lemma_balanced_wrap(
        "head"@,
        Seq::empty(),
        crate::xml::text_events("title"@, title),
    );
    lemma_balanced_outlines(subscriptions);
    crate::xml::lemma_balanced_wrap("body"@, Seq::empty(), outlines(subscriptions));
    crate::xml::lemma_balanced_concat(
        seq![XmlEvent::Start("head"@, Seq::empty())] + crate::xml::text_events("title"@, title)
            + seq![XmlEvent::End("head"@)],
        seq![XmlEvent::Start("body"@, Seq::empty())] + outlines(subscriptions) + seq![
            XmlEvent::End("body"@),
        ],
    );
    crate::xml::lemma_balanced_wrap(
        "opml"@,
        seq![("version"@, "2.0"@)],
        opml_inner(title, subscriptions),
    );
    let decl = seq![XmlEvent::Decl];
    assert forall|open: Seq<Seq<char>>| #[trigger] crate::xml::open_after(decl, open) == Some(
        open,
    ) by {
        crate::xml::lemma_open_after_one(XmlEvent::Decl, open);
    }
    crate::xml::lemma_balanced_concat(
        decl,
        seq![XmlEvent::Start("opml"@, seq![("version"@, "2.0"@)])] + opml_inner(
            title,
            subscriptions,
        ) + seq![XmlEvent::End("opml"@)],
    );
}

/// Outlines are balanced.
proof fn lemma_balanced_outlines(subscriptions: Seq<Subscription>)
    ensures
        crate::xml::balanced(outlines(subscriptions)),
    decreases subscriptions.len(),
{
    let all = outlines(subscriptions);
    if subscriptions.len() > 0 {
        lemma_balanced_outlines(subscriptions.drop_last());
        assert(all.drop_last() =~= outlines(subscriptions.drop_last()));
        assert forall|open: Seq<Seq<char>>| #[trigger] crate::xml::open_after(all, open) == Some(
            open,
        ) by {
            assert(crate::xml::open_after(all.drop_last(), open) == Some(open));
            assert(all.last() == outline(subscriptions.last()));
        }
    } else {
        assert(all =~= Seq::empty());
    }
}

/// A subscription list reads back as what was put into it: an OPML 2.0
/// document with its title, and for each subscription, in order, one outline
/// that names the show and its feed.
pub proof fn law_subscriptions_read_back(
    title: Seq<char>,
    subscriptions: Seq<Subscription>,
    i: int,
)
    requires
        0 <= i < subscriptions.len(),
    ensures
        ({
            let events = opml_events(title, subscriptions);
            &&& events[0] == XmlEvent::Decl
            &&& events[1] == XmlEvent::Start("opml"@, seq![("version"@, "2.0"@)])
            &&& events[2] == XmlEvent::Start("head"@, Seq::empty())
            &&& events[3] == XmlEvent::Start("title"@, Seq::empty())
            &&& events[4] == XmlEvent::Text(title)
            &&& events[5] == XmlEvent::End("title"@)
            &&& events[6] == XmlEvent::End("head"@)
            &&& events[7] == XmlEvent::Start("body"@, Seq::empty())
            &&& events[8 + i] matches XmlEvent::Empty(name, attributes) && name == "outline"@
                && attributes.contains(("type"@, "rss"@)) && attributes.contains(
                ("text"@, subscriptions[i].title@),
            ) && attributes.contains(("title"@, subscriptions[i].title@)) && attributes.contains(
                ("xmlUrl"@, subscriptions[i].feed_url@),
            ) && attributes.len() == 4
            &&& events[events.len() - 2] == XmlEvent::End("body"@)
            &&& events[events.len() - 1] == XmlEvent::End("opml"@)
            &&& events.len() == 10 + subscriptions.len()
        }),
{
    let events = opml_events(title, subscriptions);
    assert(events[8 + i] == outline(subscriptions[i]));
    match outline(subscriptions[i]) {
        XmlEvent::Empty(_, attributes) => {
            assert(attributes[0] == ("type"@, "rss"@));
            assert(attributes[1] == ("text"@, subscriptions[i].title@));
            assert(attributes[2] == ("title"@, subscriptions[i].title@));
            assert(attributes[3] == ("xmlUrl"@, subscriptions[i].feed_url@));
        },
        _ => {},
    }
}

} // verus!
