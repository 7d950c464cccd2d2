//! Absolute URLs, modelled by the text they serialise to.

use vstd::prelude::*;

use crate::text::{chars_of, cut_at_either, from_chars, up_to_either};

verus! {

/// Longest URL, in bytes, that the `url` crate supports. A serialised URL is
/// ASCII, so each of its characters is a byte.
pub const MAX_URL_BYTES: usize = 0xffff_ffff;

/// What the `url` crate says of a longer one.
pub const URL_TOO_LONG: &'static str = "URLs more than 4 GB are not supported";

/// A URL of the `url` crate. Two of them are equal exactly if they serialise
/// to the same text, so that what its methods give back is told by that
/// text.
#[verifier::external_type_specification]
#[verifier::external_body]
pub struct ExUrl(url::Url);

/// The text a URL serialises to, as `url::Url::as_str` gives it.
pub uninterp spec fn url_text(url: url::Url) -> Seq<char>;

/// What `url::Url::parse` makes of a text: the serialisation of the URL, or
/// the message of its error.
pub uninterp spec fn url_parsed(text: Seq<char>) -> Result<Seq<char>, Seq<char>>;

/// What `url::Url::path` returns for the URL with this serialisation.
pub uninterp spec fn url_path(text: Seq<char>) -> Seq<char>;

/// The pairs `url::Url::query_pairs` yields for the URL with this
/// serialisation, decoded.
pub uninterp spec fn url_pairs(text: Seq<char>) -> Seq<(Seq<char>, Seq<char>)>;

/// The serialisation after `query_pairs_mut().append_pair(key, value)`.
pub uninterp spec fn url_with_pair(
    text: Seq<char>,
    key: Seq<char>,
    value: Seq<char>,
) -> Seq<char>;

/// What `query_pairs_mut().clear().extend_pairs(pairs)` writes behind the
/// question mark.
pub uninterp spec fn query_encoded(pairs: Seq<(Seq<char>, Seq<char>)>) -> Seq<char>;

/// The serialisation after
/// `path_segments_mut()?.pop_if_empty().extend(segments)`; `None` where the
/// URL cannot hold a path.
pub uninterp spec fn url_extended(
    text: Seq<char>,
    segments: Seq<Seq<char>>,
) -> Option<Seq<char>>;

/// The views of a list of key-value pairs.
pub open spec fn pair_texts(pairs: Seq<(String, String)>) -> Seq<(Seq<char>, Seq<char>)> {
    pairs.map_values(|p: (String, String)| (p.0@, p.1@))
}

/// The part of a serialised URL before its query and fragment.
pub open spec fn before_query(text: Seq<char>) -> Seq<char> {
    up_to_either(text, '?', '#')
}

/// Whether a serialised URL has a query, be it empty.
pub open spec fn has_query(text: Seq<char>) -> bool {
    let at = before_query(text).len() as int;
    at < text.len() && text[at] == '?'
}

/// Whether a serialised URL has a query that is empty.
pub open spec fn has_empty_query(text: Seq<char>) -> bool {
    let at = before_query(text).len() as int;
    has_query(text) && (at + 1 == text.len() || text[at + 1] == '#')
}

/// The fragment of a serialised URL, from its `#` on; nothing without one.
pub open spec fn fragment_part(text: Seq<char>) -> Seq<char> {
    text.skip(up_to_either(text, '#', '#').len() as int)
}

/// Bytes of a character in UTF-8.
pub open spec fn utf8_width(c: char) -> nat {
    if (c as u32) < 0x80 {
        1
    } else if (c as u32) < 0x800 {
        2
    } else if (c as u32) < 0x10000 {
        3
    } else {
        4
    }
}

/// Bytes of a character in a form-encoded query: a plain one, a space among
/// them, takes one, and any other three for each of its bytes.
pub open spec fn form_width(c: char) -> nat {
    if ('a' <= c && c <= 'z') || ('A' <= c && c <= 'Z') || ('0' <= c && c <= '9') || c == '*' || c
        == '-' || c == '.' || c == '_' || c == ' ' {
        1
    } else {
        3 * utf8_width(c)
    }
}

/// Bytes of a text in a form-encoded query.
pub open spec fn form_len(text: Seq<char>) -> nat
    decreases text.len(),
{
    if text.len() == 0 {
        0
    } else {
        form_len(text.drop_last()) + form_width(text.last())
    }
}

/// Bytes of a URL after one more query pair: what separates it from the
/// rest, the key, `=`, and the value.
pub open spec fn appended_len(text: Seq<char>, key: Seq<char>, value: Seq<char>) -> nat {
    text.len() + if has_empty_query(text) {
        0nat
    } else {
        1nat
    } + form_len(key) + 1 + form_len(value)
}

/// Most bytes a character takes in a path segment: none where it is
/// dropped, one where it stays, and three for each byte that is escaped.
pub open spec fn segment_width(c: char) -> nat {
    if c == '\t' || c == '\n' || c == '\r' {
        0
    } else if (c as u32) < 0x20 || (c as u32) >= 0x7f || c == ' ' || c == '"' || c == '#' || c
        == '%' || c == '/' || c == '<' || c == '>' || c == '?' || c == '\\' || c == '`' || c == '{'
        || c == '}' {
        3 * utf8_width(c)
    } else {
        1
    }
}

/// Most bytes a text takes as a path segment.
pub open spec fn segment_len(text: Seq<char>) -> nat
    decreases text.len(),
{
    if text.len() == 0 {
        0
    } else {
        segment_len(text.drop_last()) + segment_width(text.last())
    }
}

/// Most bytes that path segments take, with two for the slashes around
/// each.
pub open spec fn segments_len(segments: Seq<Seq<char>>) -> nat
    decreases segments.len(),
{
    if segments.len() == 0 {
        0
    } else {
        segments_len(segments.drop_last()) + segment_len(segments.last()) + 2
    }
}

/// Whether a URL with these segments added stays within what is supported.
pub open spec fn segments_fit(text: Seq<char>, segments: Seq<Seq<char>>) -> bool {
    text.len() + segments_len(segments) <= MAX_URL_BYTES
}

/// `clone` of a `url::Url` gives the same URL.
pub assume_specification[ <url::Url as Clone>::clone ](url: &url::Url) -> (copy: url::Url)
    ensures
        copy == *url,
;

/// Calls `url::Url::parse`. The outcome depends on the text alone.
#[verifier::external_body]
fn parse_url(text: &str) -> (parsed: Result<url::Url, String>)
    ensures
        match parsed {
            Ok(url) => url_parsed(text@) == Ok::<Seq<char>, Seq<char>>(url_text(url)),
            Err(reason) => url_parsed(text@) == Err::<Seq<char>, Seq<char>>(reason@),
        },
{
    match url::Url::parse(text) {
        Ok(url) => Ok(url),
        Err(error) => Err(error.to_string()),
    }
}

/// Calls `url::Url::as_str`.
#[verifier::external_body]
fn text_of(url: &url::Url) -> (text: &str)
    ensures
        text@ == url_text(*url),
{
    url.as_str()
}

/// Calls `url::Url::path`.
#[verifier::external_body]
fn path_of(url: &url::Url) -> (path: String)
    ensures
        path@ == url_path(url_text(*url)),
{
    url.path().to_owned()
}

/// Calls `url::Url::query_pairs`. Only a URL with a query has pairs.
#[verifier::external_body]
fn pairs_of(url: &url::Url) -> (pairs: Vec<(String, String)>)
    ensures
        pair_texts(pairs@) == url_pairs(url_text(*url)),
        pairs@.len() > 0 ==> has_query(url_text(*url)),
{
    url.query_pairs().map(|(key, value)| (key.into_owned(), value.into_owned())).collect()
}

/// Calls `append_pair` on `url::Url::query_pairs_mut`: the pairs of the
/// result are those of the URL and the new one after them, and it is longer
/// by the encoded pair and what separates it. The bound is the one the
/// `url` crate has.
#[verifier::external_body]
fn append_pair(url: &url::Url, key: &str, value: &str) -> (edited: url::Url)
    requires
        appended_len(url_text(*url), key@, value@) <= MAX_URL_BYTES,
    ensures
        url_text(edited) == url_with_pair(url_text(*url), key@, value@),
        url_text(edited).len() == appended_len(url_text(*url), key@, value@),
        url_pairs(url_text(edited)) == url_pairs(url_text(*url)).push((key@, value@)),
{
    let mut edited = url.clone();
    edited.query_pairs_mut().append_pair(key, value);
    edited
}

/// Calls `set_fragment` with nothing, then `clear` and `extend_pairs` on
/// `url::Url::query_pairs_mut`: what stands before the query stays, and the
/// query is the encoding of the pairs. With the fragment of the URL behind
/// it again, where that is still supported, its pairs are the given ones.
#[verifier::external_body]
fn replace_pairs(url: &url::Url, pairs: &Vec<(String, String)>) -> (text: String)
    requires
        url_text(*url).len() <= MAX_URL_BYTES,
        has_query(url_text(*url)),
    ensures
        text@ == before_query(url_text(*url)) + "?"@ + query_encoded(pair_texts(pairs@)),
        (text@ + fragment_part(url_text(*url))).len() <= MAX_URL_BYTES ==> url_pairs(
            text@ + fragment_part(url_text(*url)),
        ) == pair_texts(pairs@),
{
    let mut edited = url.clone();
    edited.set_fragment(None);
    edited.query_pairs_mut().clear().extend_pairs(pairs.iter().map(|(k, v)| (k, v)));
    String::from(edited)
}

/// Calls `pop_if_empty` and `extend` on `url::Url::path_segments_mut`,
/// which leaves the query as it is and adds no more than the segments take
/// with a slash on either side. The bound keeps the result within the one
/// the `url` crate has.
#[verifier::external_body]
fn extend_path(url: &url::Url, segments: &Vec<String>) -> (edited: Option<url::Url>)
    requires
        segments_fit(url_text(*url), crate::text::texts(segments@)),
    ensures
        match edited {
            Some(edited) => url_extended(url_text(*url), crate::text::texts(segments@)) == Some(
                url_text(edited),
            ) && url_pairs(url_text(edited)) == url_pairs(url_text(*url)) && url_text(edited).len()
                <= url_text(*url).len() + segments_len(crate::text::texts(segments@)),
            None => url_extended(url_text(*url), crate::text::texts(segments@)) is None,
        },
{
    let mut edited = url.clone();
    edited.path_segments_mut().ok()?.pop_if_empty().extend(segments);
    Some(edited)
}

/// Bytes of a character in UTF-8.
fn utf8_size(c: char) -> (size: u128)
    ensures
        size == utf8_width(c),
{
    let code: u32 = c as u32;
    if code < 0x80 {
        1
    } else if code < 0x800 {
        2
    } else if code < 0x10000 {
        3
    } else {
        4
    }
}

/// Bytes of a text in a form-encoded query.
fn form_size(text: &str) -> (size: u128)
    ensures
        size == form_len(text@),
        size <= 12 * usize::MAX,
{
    let chars = chars_of(text);
    let mut size: u128 = 0;
    let mut i: usize = 0;
    assert(chars@.take(0) =~= Seq::empty());
    while i < chars.len()
        invariant
            i <= chars@.len(),
            size == form_len(chars@.take(i as int)),
            size <= 12 * i,
        decreases chars@.len() - i,
    {
        let c: char = chars[i];
        proof {
            assert(chars@.take(i + 1).drop_last() =~= chars@.take(i as int));
            assert(chars@.take(i + 1).last() == c);
        }
        let plain = ('a' <= c && c <= 'z') || ('A' <= c && c <= 'Z') || ('0' <= c && c <= '9') || c
            == '*' || c == '-' || c == '.' || c == '_' || c == ' ';
        let width: u128 = if plain {
            1
        } else {
            3 * utf8_size(c)
        };
        size = size + width;
        i += 1;
    }
    assert(chars@.take(chars@.len() as int) =~= chars@);
    size
}

/// Most bytes a text takes as a path segment.
fn segment_size(text: &str) -> (size: u128)
    ensures
        size == segment_len(text@),
        size <= 12 * usize::MAX,
{
    let chars = chars_of(text);
    let mut size: u128 = 0;
    let mut i: usize = 0;
    assert(chars@.take(0) =~= Seq::empty());
    while i < chars.len()
        invariant
            i <= chars@.len(),
            size == segment_len(chars@.take(i as int)),
            size <= 12 * i,
        decreases chars@.len() - i,
    {
        let c: char = chars[i];
        let code: u32 = c as u32;
        proof {
            assert(chars@.take(i + 1).drop_last() =~= chars@.take(i as int));
            assert(chars@.take(i + 1).last() == c);
        }
        let dropped = c == '\t' || c == '\n' || c == '\r';
        let escaped = code < 0x20 || code >= 0x7f || c == ' ' || c == '"' || c == '#' || c == '%'
            || c == '/' || c == '<' || c == '>' || c == '?' || c == '\\' || c == '`' || c == '{'
            || c == '}';
        let width: u128 = if dropped {
            0
        } else if escaped {
            3 * utf8_size(c)
        } else {
            1
        };
        size = size + width;
        i += 1;
    }
    assert(chars@.take(chars@.len() as int) =~= chars@);
    size
}

/// The part before the first of two characters is no longer than the whole.
proof fn lemma_up_to_either_len(s: Seq<char>, a: char, b: char)
    ensures
        up_to_either(s, a, b).len() <= s.len(),
    decreases s.len(),
{
    if s.len() > 0 {
        lemma_up_to_either_len(s.drop_first(), a, b);
    }
}

/// Whether a serialised URL has a query that is empty.
fn query_is_empty(text: &str) -> (empty: bool)
    ensures
        empty == has_empty_query(text@),
{
    let chars = chars_of(text);
    let at: usize = chars_of(cut_at_either(text, '?', '#').as_str()).len();
    if at >= chars.len() || chars[at] != '?' {
        return false;
    }
    chars.len() - at == 1 || chars[at + 1] == '#'
}

/// The fragment of a serialised URL, from its `#` on.
fn fragment_of(text: &str) -> (fragment: String)
    ensures
        fragment@ == fragment_part(text@),
{
    let chars = chars_of(text);
    let at: usize = chars_of(cut_at_either(text, '#', '#').as_str()).len();
    proof {
        lemma_up_to_either_len(text@, '#', '#');
    }
    let total: usize = chars.len();
    let fragment = from_chars(&chars, at, total);
    assert(fragment@ =~= fragment_part(text@));
    fragment
}

/// An absolute URL, modelled by its serialisation.
#[derive(Debug, PartialEq, Eq)]
pub struct WebUrl {
    inner: url::Url,
}

impl View for WebUrl {
    type V = Seq<char>;

    closed spec fn view(&self) -> Seq<char> {
        url_text(self.inner)
    }
}

impl Clone for WebUrl {
    fn clone(&self) -> (copy: Self)
        ensures
            copy == *self,
    {
        proof {
            use_type_invariant(self);
        }
        WebUrl { inner: self.inner.clone() }
    }
}

impl WebUrl {
    #[verifier::type_invariant]
    closed spec fn well_formed(self) -> bool {
        url_text(self.inner).len() <= MAX_URL_BYTES
    }

    /// Parse an absolute URL. Texts that the parser rejects give its
    /// message; one longer than [`MAX_URL_BYTES`] gives [`URL_TOO_LONG`].
    pub fn parse(text: &str) -> (url: Result<WebUrl, String>)
        ensures
            match url {
                Ok(url) => url_parsed(text@) == Ok::<Seq<char>, Seq<char>>(url@) && url@.len()
                    <= MAX_URL_BYTES,
                Err(reason) => url_parsed(text@) == Err::<Seq<char>, Seq<char>>(reason@) || (
                url_parsed(text@) matches Ok(url) && url.len() > MAX_URL_BYTES && reason@
                    == URL_TOO_LONG@),
            },
    {
        match parse_url(text) {
            Ok(url) => {
                if chars_of(text_of(&url)).len() <= MAX_URL_BYTES {
                    Ok(WebUrl { inner: url })
                } else {
                    Err(URL_TOO_LONG.to_owned())
                }
            },
            Err(reason) => Err(reason),
        }
    }

    /// The URL as text.
    pub fn as_str(&self) -> (text: &str)
        ensures
            text@ == self@,
    {
        text_of(&self.inner)
    }

    /// The URL as text.
    pub fn to_string(&self) -> (text: String)
        ensures
            text@ == self@,
    {
        text_of(&self.inner).to_owned()
    }

    /// The URL as the `url` crate has it, for what takes one.
    pub fn inner(&self) -> (url: &url::Url)
        ensures
            url_text(*url) == self@,
    {
        &self.inner
    }

    /// The path component.
    pub fn path(&self) -> (path: String)
        ensures
            path@ == url_path(self@),
    {
        path_of(&self.inner)
    }

    /// The decoded query pairs, in order.
    pub fn query_pairs(&self) -> (pairs: Vec<(String, String)>)
        ensures
            pair_texts(pairs@) == url_pairs(self@),
            pairs@.len() > 0 ==> has_query(self@),
    {
        pairs_of(&self.inner)
    }

    /// The text of this URL, which has a query, with its query pairs
    /// replaced.
    pub fn text_with_pairs(&self, pairs: &Vec<(String, String)>) -> (text: String)
        requires
            has_query(self@),
        ensures
            text@ == before_query(self@) + "?"@ + query_encoded(pair_texts(pairs@))
                + fragment_part(self@),
            text@.len() <= MAX_URL_BYTES ==> url_pairs(text@) == pair_texts(pairs@),
    {
        proof {
            use_type_invariant(self);
        }
        let mut text = replace_pairs(&self.inner, pairs);
        text.append(fragment_of(self.as_str()).as_str());
        text
    }

    /// This URL with one more query pair; `None` when it would be longer
    /// than [`MAX_URL_BYTES`].
    pub fn with_pair(&self, key: &str, value: &str) -> (edited: Option<WebUrl>)
        ensures
            match edited {
                Some(edited) => appended_len(self@, key@, value@) <= MAX_URL_BYTES && edited@
                    == url_with_pair(self@, key@, value@) && url_pairs(edited@) == url_pairs(
                    self@,
                ).push((key@, value@)),
                None => appended_len(self@, key@, value@) > MAX_URL_BYTES,
            },
    {
        proof {
            use_type_invariant(self);
        }
        let separator: u128 = if query_is_empty(self.as_str()) {
            0
        } else {
            1
        };
        let length: u128 = chars_of(self.as_str()).len() as u128 + separator + form_size(key)
            + 1 + form_size(value);
        if length > MAX_URL_BYTES as u128 {
            return None;
        }
        Some(WebUrl { inner: append_pair(&self.inner, key, value) })
    }

    /// This URL with path segments added after its own (an empty last
    /// segment gives way to the first of them). `None` when the URL cannot
    /// hold a path, or not these segments within [`MAX_URL_BYTES`].
    pub fn with_segments(&self, segments: &Vec<String>) -> (edited: Option<WebUrl>)
        ensures
            match edited {
                Some(edited) => segments_fit(self@, crate::text::texts(segments@))
                    && url_extended(self@, crate::text::texts(segments@)) == Some(edited@)
                    && url_pairs(edited@) == url_pairs(self@),
                None => !segments_fit(self@, crate::text::texts(segments@)) || url_extended(
                    self@,
                    crate::text::texts(segments@),
                ) is None,
            },
    {
        proof {
            use_type_invariant(self);
        }
        if !self.has_room(segments) {
            return None;
        }
        match extend_path(&self.inner, segments) {
            Some(inner) => Some(WebUrl { inner }),
            None => None,
        }
    }

    /// Whether this URL with path segments added stays within
    /// [`MAX_URL_BYTES`].
    pub fn has_room(&self, segments: &Vec<String>) -> (fit: bool)
        ensures
            fit == segments_fit(self@, crate::text::texts(segments@)),
    {
        proof {
            use_type_invariant(self);
        }
        let ghost all = crate::text::texts(segments@);
        let mut total: u128 = chars_of(self.as_str()).len() as u128;
        let mut i: usize = 0;
        assert(all.take(0) =~= Seq::empty());
        while i < segments.len()
            invariant
                i <= segments@.len(),
                all == crate::text::texts(segments@),
                total == self@.len() + segments_len(all.take(i as int)),
                total <= MAX_URL_BYTES,
            decreases segments@.len() - i,
        {
            proof {
                assert(all.take(i + 1).drop_last() =~= all.take(i as int));
                assert(all.take(i + 1).last() == segments@[i as int]@);
                lemma_segments_len_take(all, i + 1);
            }
            total = total + segment_size(segments[i].as_str()) + 2;
            if total > MAX_URL_BYTES as u128 {
                return false;
            }
            i += 1;
        }
        assert(all.take(segments@.len() as int) =~= all);
        true
    }
}

/// The first of some segments take no more than all of them.
proof fn lemma_segments_len_take(segments: Seq<Seq<char>>, n: int)
    requires
        0 <= n <= segments.len(),
    ensures
        segments_len(segments.take(n)) <= segments_len(segments),
    decreases segments.len(),
{
    if n < segments.len() {
        lemma_segments_len_take(segments.drop_last(), n);
        assert(segments.drop_last().take(n) =~= segments.take(n));
    } else {
        assert(segments.take(n) =~= segments);
    }
}

/// The view of an optional URL.
pub open spec fn opt_url(url: Option<WebUrl>) -> Option<Seq<char>> {
    match url {
        Some(url) => Some(url@),
        None => None,
    }
}

/// A URL's query begins behind its first question mark, unless a fragment
/// begins before that; its fragment begins at its first hash.
pub proof fn law_parts_of_a_url(head: Seq<char>, query: Seq<char>, fragment: Seq<char>)
    requires
        forall|i: int| 0 <= i < head.len() ==> #[trigger] head[i] != '?' && head[i] != '#',
        forall|i: int| 0 <= i < query.len() ==> #[trigger] query[i] != '#',
        fragment.len() > 0 ==> fragment[0] == '#',
    ensures
        before_query(head + (seq!['?'] + query + fragment)) == head,
        has_query(head + (seq!['?'] + query + fragment)),
        has_empty_query(head + (seq!['?'] + query + fragment)) <==> query.len() == 0,
        fragment_part(head + (seq!['?'] + query + fragment)) == fragment,
        before_query(head + fragment) == head,
        !has_query(head + fragment),
        fragment_part(head + fragment) == fragment,
{
    let rest = seq!['?'] + query + fragment;
    let all = head + rest;
    crate::text::law_cutting(head, '?', '#', rest);
    crate::text::law_cutting(head, '?', '#', fragment);
    let front = head + seq!['?'] + query;
    assert forall|i: int| 0 <= i < front.len() implies #[trigger] front[i] != '#' by {
        if i < head.len() {
            assert(front[i] == head[i]);
        } else if i > head.len() {
            assert(front[i] == query[i - head.len() - 1]);
        }
    }
    crate::text::law_cutting(front, '#', '#', fragment);
    assert(front + fragment =~= all);
    assert(all.skip(front.len() as int) =~= fragment);
    assert forall|i: int| 0 <= i < head.len() implies #[trigger] head[i] != '#' by {}
    crate::text::law_cutting(head, '#', '#', fragment);
    assert((head + fragment).skip(head.len() as int) =~= fragment);
    assert(all[head.len() as int] == '?');
    if query.len() > 0 {
        assert(all[head.len() as int + 1] == query[0]);
    } else if fragment.len() > 0 {
        assert(all[head.len() as int + 1] == fragment[0]);
    }
    if fragment.len() > 0 {
        assert((head + fragment)[head.len() as int] == '#');
    }
}

/// The sizes of encoded text add up over its characters.
pub proof fn law_encoded_sizes_add_up(text: Seq<char>, c: char, segments: Seq<Seq<char>>)
    ensures
        form_len(Seq::empty()) == 0,
        form_len(text.push(c)) == form_len(text) + form_width(c),
        segment_len(Seq::empty()) == 0,
        segment_len(text.push(c)) == segment_len(text) + segment_width(c),
        segments_len(Seq::empty()) == 0,
        segments_len(segments.push(text)) == segments_len(segments) + segment_len(text) + 2,
        segments_fit(text, segments) <==> text.len() + segments_len(segments) <= 0xffff_ffff,
{
    assert(text.push(c).drop_last() =~= text);
    assert(segments.push(text).drop_last() =~= segments);
}

/// A letter or a digit takes one byte in a URL; what must be escaped takes
/// three for every byte that it has, and never fewer than it has.
pub proof fn law_encoded_characters(c: char)
    ensures
        ('a' <= c <= 'z' || 'A' <= c <= 'Z' || '0' <= c <= '9') ==> form_width(c) == 1
            && segment_width(c) == 1,
        c as int >= 0x80 ==> form_width(c) == 3 * vstd::utf8::encode_utf8(seq![c]).len()
            && segment_width(c) == 3 * vstd::utf8::encode_utf8(seq![c]).len(),
        c == '/' || c == '?' || c == '#' || c == '%' ==> form_width(c) == 3 && segment_width(c)
            == 3,
        c == '&' || c == '=' || c == '+' ==> form_width(c) == 3,
{
    reveal_with_fuel(vstd::utf8::encode_utf8, 2);
    let one = seq![c];
    assert(one.drop_first() =~= Seq::<char>::empty());
    assert(vstd::utf8::encode_utf8(one) =~= vstd::utf8::encode_scalar(c as u32));
}

} // verus!
