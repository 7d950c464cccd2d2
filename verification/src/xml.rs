//! XML written event by event.

use vstd::prelude::*;

verus! {

/// One thing written to a document.
pub enum XmlEvent {
    /// The declaration, version 1.0 in UTF-8.
    Decl,
    /// An opening tag with its attributes.
    Start(Seq<char>, Seq<(Seq<char>, Seq<char>)>),
    /// An element without content.
    Empty(Seq<char>, Seq<(Seq<char>, Seq<char>)>),
    /// Character data, unescaped.
    Text(Seq<char>),
    /// A closing tag.
    End(Seq<char>),
}

/// The bytes a writer that indents by two spaces makes of these events.
pub uninterp spec fn xml_document(events: Seq<XmlEvent>) -> Seq<u8>;

/// The events written to a writer so far.
pub uninterp spec fn xml_events(writer: quick_xml::Writer<Vec<u8>>) -> Seq<XmlEvent>;

/// The event writer of the `quick-xml` crate.
#[verifier::external_type_specification]
#[verifier::external_body]
#[verifier::reject_recursive_types(W)]
pub struct ExXmlWriter<W>(quick_xml::Writer<W>);

/// Calls `quick_xml::Writer::new_with_indent`, two spaces a level: nothing
/// written yet.
#[verifier::external_body]
pub(crate) fn new_document() -> (writer: quick_xml::Writer<Vec<u8>>)
    ensures
        xml_events(writer).len() == 0,
{
    quick_xml::Writer::new_with_indent(Vec::new(), b' ', 2)
}

/// Calls `quick_xml::Writer::write_event` with the declaration. Writing to
/// memory cannot fail.
#[verifier::external_body]
pub(crate) fn write_decl(writer: &mut quick_xml::Writer<Vec<u8>>)
    ensures
        xml_events(*final(writer)) == xml_events(*old(writer)).push(XmlEvent::Decl),
{
    let decl = quick_xml::events::BytesDecl::new("1.0", Some("UTF-8"), None);
    let _ = writer.write_event(quick_xml::events::Event::Decl(decl));
}

/// Calls `quick_xml::Writer::write_event` with an opening tag; attribute
/// values are escaped. Writing to memory cannot fail.
#[verifier::external_body]
pub(crate) fn write_start(
    writer: &mut quick_xml::Writer<Vec<u8>>,
    name: &str,
    attributes: &Vec<(String, String)>,
)
    ensures
        xml_events(*final(writer)) == xml_events(*old(writer)).push(
            XmlEvent::Start(name@, crate::weburl::pair_texts(attributes@)),
        ),
{
    let tag = quick_xml::events::BytesStart::new(name).with_attributes(
        attributes.iter().map(|(key, value)| (key.as_str(), value.as_str())),
    );
    let _ = writer.write_event(quick_xml::events::Event::Start(tag));
}

/// Calls `quick_xml::Writer::write_event` with an empty element; attribute
/// values are escaped. Writing to memory cannot fail.
#[verifier::external_body]
pub(crate) fn write_empty(
    writer: &mut quick_xml::Writer<Vec<u8>>,
    name: &str,
    attributes: &Vec<(String, String)>,
)
    ensures
        xml_events(*final(writer)) == xml_events(*old(writer)).push(
            XmlEvent::Empty(name@, crate::weburl::pair_texts(attributes@)),
        ),
{
    let tag = quick_xml::events::BytesStart::new(name).with_attributes(
        attributes.iter().map(|(key, value)| (key.as_str(), value.as_str())),
    );
    let _ = writer.write_event(quick_xml::events::Event::Empty(tag));
}

/// Calls `quick_xml::Writer::write_event` with character data, which is
/// escaped. Writing to memory cannot fail.
#[verifier::external_body]
pub(crate) fn write_text(writer: &mut quick_xml::Writer<Vec<u8>>, text: &str)
    ensures
        xml_events(*final(writer)) == xml_events(*old(writer)).push(XmlEvent::Text(text@)),
{
    let data = quick_xml::events::BytesText::new(text);
    let _ = writer.write_event(quick_xml::events::Event::Text(data));
}

/// Calls `quick_xml::Writer::write_event` with a closing tag. Writing to
/// memory cannot fail.
#[verifier::external_body]
pub(crate) fn write_end(writer: &mut quick_xml::Writer<Vec<u8>>, name: &str)
    ensures
        xml_events(*final(writer)) == xml_events(*old(writer)).push(XmlEvent::End(name@)),
{
    let tag = quick_xml::events::BytesEnd::new(name);
    let _ = writer.write_event(quick_xml::events::Event::End(tag));
}

/// Calls `quick_xml::Writer::into_inner`: the bytes written, which depend
/// on the events alone.
#[verifier::external_body]
pub(crate) fn finish_document(writer: quick_xml::Writer<Vec<u8>>) -> (bytes: Vec<u8>)
    ensures
        bytes@ == xml_document(xml_events(writer)),
{
    writer.into_inner()
}

/// An element that holds text alone.
pub open spec fn text_events(name: Seq<char>, text: Seq<char>) -> Seq<XmlEvent> {
    seq![XmlEvent::Start(name, Seq::empty()), XmlEvent::Text(text), XmlEvent::End(name)]
}

/// Write an element that holds text alone.
pub(crate) fn text_element(writer: &mut quick_xml::Writer<Vec<u8>>, name: &str, text: &str)
    ensures
        xml_events(*final(writer)) == xml_events(*old(writer)) + text_events(name@, text@),
{
    let none: Vec<(String, String)> = Vec::new();
    assert(crate::weburl::pair_texts(none@) =~= Seq::empty());
    write_start(writer, name, &none);
    write_text(writer, text);
    write_end(writer, name);
    assert(xml_events(*writer) =~= xml_events(*old(writer)) + text_events(name@, text@));
}

/// The open elements after `events`, given those open before; `None` when a
/// closing tag closes nothing that is open.
pub open spec fn open_after(events: Seq<XmlEvent>, open: Seq<Seq<char>>) -> Option<Seq<Seq<char>>>
    decreases events.len(),
{
    if events.len() == 0 {
        Some(open)
    } else {
        match open_after(events.drop_last(), open) {
            Some(open) => match events.last() {
                XmlEvent::Start(name, _) => Some(open.push(name)),
                XmlEvent::End(name) => if open.len() > 0 && open.last() == name {
                    Some(open.drop_last())
                } else {
                    None
                },
                _ => Some(open),
            },
            None => None,
        }
    }
}

/// Whether every opened element is closed, innermost first, wherever the
/// events stand.
pub open spec fn balanced(events: Seq<XmlEvent>) -> bool {
    forall|open: Seq<Seq<char>>| #[trigger] open_after(events, open) == Some(open)
}

/// Events one after the other open and close what each part does.
pub proof fn lemma_open_after_concat(
    a: Seq<XmlEvent>,
    b: Seq<XmlEvent>,
    open: Seq<Seq<char>>,
)
    ensures
        open_after(a + b, open) == match open_after(a, open) {
            Some(mid) => open_after(b, mid),
            None => None,
        },
    decreases b.len(),
{
    if b.len() == 0 {
        assert(a + b =~= a);
    } else {
        lemma_open_after_concat(a, b.drop_last(), open);
        assert((a + b).drop_last() =~= a + b.drop_last());
        assert((a + b).last() == b.last());
    }
}

/// Balanced parts make a balanced whole.
pub proof fn lemma_balanced_concat(a: Seq<XmlEvent>, b: Seq<XmlEvent>)
    requires
        balanced(a),
        balanced(b),
    ensures
        balanced(a + b),
{
    assert forall|open: Seq<Seq<char>>| #[trigger] open_after(a + b, open) == Some(open) by {
        lemma_open_after_concat(a, b, open);
        assert(open_after(a, open) == Some(open));
        assert(open_after(b, open) == Some(open));
    }
}

/// An element around balanced content is balanced.
pub proof fn lemma_balanced_wrap(
    name: Seq<char>,
    attributes: Seq<(Seq<char>, Seq<char>)>,
    inner: Seq<XmlEvent>,
)
    requires
        balanced(inner),
    ensures
        balanced(seq![XmlEvent::Start(name, attributes)] + inner + seq![XmlEvent::End(name)]),
{
    let first = seq![XmlEvent::Start(name, attributes)];
    let last = seq![XmlEvent::End(name)];
    assert forall|open: Seq<Seq<char>>| #[trigger] open_after(
        first + inner + last,
        open,
    ) == Some(open) by {
        lemma_open_after_concat(first + inner, last, open);
        lemma_open_after_concat(first, inner, open);
        lemma_open_after_one(XmlEvent::Start(name, attributes), open);
        let inside = open.push(name);
        assert(open_after(inner, inside) == Some(inside));
        lemma_open_after_one(XmlEvent::End(name), inside);
        assert(inside.drop_last() =~= open);
    }
}

/// What a single event opens or closes.
pub proof fn lemma_open_after_one(event: XmlEvent, open: Seq<Seq<char>>)
    ensures
        open_after(seq![event], open) == match event {
            XmlEvent::Start(name, _) => Some(open.push(name)),
            XmlEvent::End(name) => if open.len() > 0 && open.last() == name {
                Some(open.drop_last())
            } else {
                None
            },
            _ => Some(open),
        },
{
    let one = seq![event];
    assert(one.drop_last() =~= Seq::empty());
    assert(open_after(one.drop_last(), open) == Some(open));
    assert(one.last() == event);
}

/// A text element is balanced.
pub proof fn lemma_balanced_text(name: Seq<char>, text: Seq<char>)
    ensures
        balanced(text_events(name, text)),
{
    let inner = seq![XmlEvent::Text(text)];
    assert(balanced(inner)) by {
        assert forall|open: Seq<Seq<char>>| #[trigger] open_after(inner, open) == Some(open) by {
            lemma_open_after_one(XmlEvent::Text(text), open);
        }
    }
    lemma_balanced_wrap(name, Seq::empty(), inner);
    assert(seq![XmlEvent::Start(name, Seq::empty())] + inner + seq![XmlEvent::End(name)]
        =~= text_events(name, text));
}

/// An empty element is balanced.
pub proof fn lemma_balanced_empty(name: Seq<char>, attributes: Seq<(Seq<char>, Seq<char>)>)
    ensures
        balanced(seq![XmlEvent::Empty(name, attributes)]),
{
    assert forall|open: Seq<Seq<char>>| #[trigger] open_after(
        seq![XmlEvent::Empty(name, attributes)],
        open,
    ) == Some(open) by {
        lemma_open_after_one(XmlEvent::Empty(name, attributes), open);
    }
}

/// Whether an element of this name occurs.
pub open spec fn mentions(events: Seq<XmlEvent>, name: Seq<char>) -> bool {
    exists|i: int|
        0 <= i < events.len() && match #[trigger] events[i] {
            XmlEvent::Start(n, _) => n == name,
            XmlEvent::Empty(n, _) => n == name,
            _ => false,
        }
}

/// An element occurs in a whole exactly where it occurs in a part.
pub proof fn lemma_mentions_concat(a: Seq<XmlEvent>, b: Seq<XmlEvent>, name: Seq<char>)
    ensures
        mentions(a + b, name) == (mentions(a, name) || mentions(b, name)),
{
    let both = a + b;
    if mentions(a, name) {
        let i = choose|i: int|
            0 <= i < a.len() && match #[trigger] a[i] {
                XmlEvent::Start(n, _) => n == name,
                XmlEvent::Empty(n, _) => n == name,
                _ => false,
            };
        assert(both[i] == a[i]);
    }
    if mentions(b, name) {
        let i = choose|i: int|
            0 <= i < b.len() && match #[trigger] b[i] {
                XmlEvent::Start(n, _) => n == name,
                XmlEvent::Empty(n, _) => n == name,
                _ => false,
            };
        assert(both[a.len() + i] == b[i]);
    }
    if mentions(both, name) {
        let i = choose|i: int|
            0 <= i < both.len() && match #[trigger] both[i] {
                XmlEvent::Start(n, _) => n == name,
                XmlEvent::Empty(n, _) => n == name,
                _ => false,
            };
        if i < a.len() {
            assert(a[i] == both[i]);
        } else {
            assert(b[i - a.len()] == both[i]);
        }
    }
}

/// Whether a start tag, or an element without content, has this name.
pub open spec fn opens(event: XmlEvent, name: Seq<char>) -> bool {
    match event {
        XmlEvent::Start(n, _) => n == name,
        XmlEvent::Empty(n, _) => n == name,
        _ => false,
    }
}

/// Whether events hold exactly one element of this name, and that holds
/// this text and nothing else.
pub open spec fn sole_text(events: Seq<XmlEvent>, name: Seq<char>, text: Seq<char>) -> bool {
    exists|i: int|
        0 <= i && i + 2 < events.len() && #[trigger] opens(events[i], name) && events[i] is Start
            && events[i + 1] == XmlEvent::Text(text) && events[i + 2] == XmlEvent::End(name) && (
        forall|j: int|
            0 <= j < events.len() && j != i ==> !opens(#[trigger] events[j], name))
}

/// Whether events hold exactly one element of this name, and that is without
/// content and has these attributes.
pub open spec fn sole_empty(
    events: Seq<XmlEvent>,
    name: Seq<char>,
    attributes: Seq<(Seq<char>, Seq<char>)>,
) -> bool {
    exists|i: int|
        0 <= i < events.len() && #[trigger] opens(events[i], name) && events[i]
            == XmlEvent::Empty(name, attributes) && (forall|j: int|
            0 <= j < events.len() && j != i ==> !opens(#[trigger] events[j], name))
}

/// Whether no element of this name occurs.
pub open spec fn lacks(events: Seq<XmlEvent>, name: Seq<char>) -> bool {
    forall|j: int| 0 <= j < events.len() ==> !opens(#[trigger] events[j], name)
}

/// Whether an element of this name holds an optional text: once with the
/// text, or not at all.
pub open spec fn opt_sole_text(
    events: Seq<XmlEvent>,
    name: Seq<char>,
    text: Option<Seq<char>>,
) -> bool {
    match text {
        Some(text) => sole_text(events, name, text),
        None => lacks(events, name),
    }
}

/// An element that occurs in a part alone occurs in the whole.
pub proof fn lemma_sole_text_within(
    a: Seq<XmlEvent>,
    b: Seq<XmlEvent>,
    c: Seq<XmlEvent>,
    name: Seq<char>,
    text: Seq<char>,
)
    requires
        lacks(a, name),
        sole_text(b, name, text),
        lacks(c, name),
    ensures
        sole_text(a + b + c, name, text),
{
    let all = a + b + c;
    let i = choose|i: int|
        0 <= i && i + 2 < b.len() && #[trigger] opens(b[i], name) && b[i] is Start && b[i + 1]
            == XmlEvent::Text(text) && b[i + 2] == XmlEvent::End(name) && (forall|j: int|
            0 <= j < b.len() && j != i ==> !opens(#[trigger] b[j], name));
    let k = a.len() + i;
    assert(all[k] == b[i] && all[k + 1] == b[i + 1] && all[k + 2] == b[i + 2]);
    assert(opens(all[k], name));
    assert forall|j: int| 0 <= j < all.len() && j != k implies !opens(#[trigger] all[j], name) by {
        if j < a.len() {
            assert(all[j] == a[j]);
        } else if j < a.len() + b.len() {
            assert(all[j] == b[j - a.len()]);
        } else {
            assert(all[j] == c[j - a.len() - b.len()]);
        }
    }
}

/// What occurs in no part occurs nowhere.
pub proof fn lemma_lacks_concat(a: Seq<XmlEvent>, b: Seq<XmlEvent>, name: Seq<char>)
    requires
        lacks(a, name),
        lacks(b, name),
    ensures
        lacks(a + b, name),
{
    assert forall|j: int| 0 <= j < (a + b).len() implies !opens(#[trigger] (a + b)[j], name) by {
        if j < a.len() {
            assert((a + b)[j] == a[j]);
        } else {
            assert((a + b)[j] == b[j - a.len()]);
        }
    }
}

/// A text element is an element of its name with its text, and of no other
/// name.
pub proof fn law_text_elements(name: Seq<char>, text: Seq<char>, other: Seq<char>)
    ensures
        sole_text(text_events(name, text), name, text),
        other != name ==> lacks(text_events(name, text), other),
{
    let events = text_events(name, text);
    assert(opens(events[0], name));
}

/// How many start tags of this name there are.
pub open spec fn starts(events: Seq<XmlEvent>, name: Seq<char>) -> nat
    decreases events.len(),
{
    if events.len() == 0 {
        0
    } else {
        starts(events.drop_last(), name) + match events.last() {
            XmlEvent::Start(n, _) => if n == name {
                1nat
            } else {
                0nat
            },
            _ => 0nat,
        }
    }
}

/// Start tags add up.
pub proof fn lemma_starts_concat(a: Seq<XmlEvent>, b: Seq<XmlEvent>, name: Seq<char>)
    ensures
        starts(a + b, name) == starts(a, name) + starts(b, name),
    decreases b.len(),
{
    if b.len() == 0 {
        assert(a + b =~= a);
    } else {
        lemma_starts_concat(a, b.drop_last(), name);
        assert((a + b).drop_last() =~= a + b.drop_last());
    }
}

/// Where an element does not occur, it does not start.
pub proof fn lemma_lacking_starts(events: Seq<XmlEvent>, name: Seq<char>)
    requires
        lacks(events, name),
    ensures
        starts(events, name) == 0,
    decreases events.len(),
{
    if events.len() > 0 {
        assert forall|j: int| 0 <= j < events.drop_last().len() implies !opens(
            #[trigger] events.drop_last()[j],
            name,
        ) by {
            assert(events.drop_last()[j] == events[j]);
        }
        lemma_lacking_starts(events.drop_last(), name);
        assert(!opens(events[events.len() - 1], name));
    }
}

} // verus!
