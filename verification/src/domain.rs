//! Domain types: validated identifiers, secrets, the episode lifecycle,
//! and the metadata that crosses the provider boundary.

use std::str::FromStr;

use vstd::prelude::*;

use crate::text::{chars_of, same_text};
use crate::timestamp::Timestamp;
use crate::weburl::WebUrl;

verus! {

/// Why a string is not a domain identifier.
#[derive(Debug, Clone, Copy)]
pub struct InvalidId {
    /// What the string was to be.
    pub kind: &'static str,
    /// What is wrong with it.
    pub reason: &'static str,
}

/// The message of an [`InvalidId`].
pub open spec fn invalid_id_text(kind: Seq<char>, reason: Seq<char>) -> Seq<char> {
    "invalid "@ + kind + ": "@ + reason
}

impl InvalidId {
    /// The message shown to people.
    pub fn to_string(&self) -> (text: String)
        ensures
            text@ == invalid_id_text(self.kind@, self.reason@),
    {
        let mut text = "invalid ".to_owned();
        text.append(self.kind);
        text.append(": ");
        text.append(self.reason);
        text
    }
}

/// The characters a show slug is made of: ASCII letters and digits, `-`,
/// `_` and `.`.
pub open spec fn is_slug_char(c: char) -> bool {
    ||| 'a' <= c <= 'z'
    ||| 'A' <= c <= 'Z'
    ||| '0' <= c <= '9'
    ||| c == '-'
    ||| c == '_'
    ||| c == '.'
}

/// Whether every character may stand in a show slug.
pub open spec fn all_slug_chars(s: Seq<char>) -> bool {
    forall|i: int| 0 <= i < s.len() ==> is_slug_char(#[trigger] s[i])
}

/// Whether a text is a show slug.
pub open spec fn is_slug(s: Seq<char>) -> bool {
    s.len() > 0 && all_slug_chars(s)
}

/// Identifier of a show as used by a provider, such as
/// `melodik-revolution`. Safe to embed in URLs and file names.
#[derive(Debug, PartialEq, Eq, Hash, PartialOrd, Ord)]
pub struct ShowSlug(String);

impl View for ShowSlug {
    type V = Seq<char>;

    closed spec fn view(&self) -> Seq<char> {
        self.0@
    }
}

impl Clone for ShowSlug {
    fn clone(&self) -> (copy: Self)
        ensures
            copy == *self,
    {
        proof {
            use_type_invariant(self);
        }
        ShowSlug(self.0.clone())
    }
}

impl ShowSlug {
    #[verifier::type_invariant]
    closed spec fn valid(self) -> bool {
        is_slug(self.0@)
    }

    /// Validate a slug.
    pub fn parse(s: &str) -> (slug: Result<ShowSlug, InvalidId>)
        ensures
            match slug {
                Ok(slug) => slug@ == s@ && is_slug(s@),
                Err(e) => {
                    &&& !is_slug(s@)
                    &&& e.kind@ == "show slug"@
                    &&& s@.len() == 0 ==> e.reason@ == "must not be empty"@
                    &&& s@.len() > 0 ==> e.reason@
                        == "only ASCII letters, digits, `-`, `_`, and `.` are allowed"@
                },
            },
    {
        let chars = chars_of(s);
        if chars.len() == 0 {
            return Err(InvalidId { kind: "show slug", reason: "must not be empty" });
        }
        let mut i: usize = 0;
        while i < chars.len()
            invariant
                i <= chars@.len(),
                chars@ == s@,
                s@.len() > 0,
                forall|j: int| 0 <= j < i ==> is_slug_char(#[trigger] s@[j]),
            decreases chars@.len() - i,
        {
            let c: char = chars[i];
            let ok = ('a' <= c && c <= 'z') || ('A' <= c && c <= 'Z') || ('0' <= c && c <= '9')
                || c == '-' || c == '_' || c == '.';
            if !ok {
                assert(!is_slug_char(s@[i as int]));
                return Err(
                    InvalidId {
                        kind: "show slug",
                        reason: "only ASCII letters, digits, `-`, `_`, and `.` are allowed",
                    },
                );
            }
            i += 1;
        }
        Ok(ShowSlug(s.to_owned()))
    }

    /// The slug as a string slice.
    pub fn as_str(&self) -> (s: &str)
        ensures
            s@ == self@,
            is_slug(s@),
    {
        proof {
            use_type_invariant(self);
        }
        self.0.as_str()
    }

    /// The slug as text.
    pub fn to_string(&self) -> (s: String)
        ensures
            s@ == self@,
            is_slug(s@),
    {
        proof {
            use_type_invariant(self);
        }
        self.0.clone()
    }

    /// Whether two slugs are the same.
    pub fn same(&self, other: &ShowSlug) -> (same: bool)
        ensures
            same == (self@ == other@),
    {
        same_text(self.0.as_str(), other.0.as_str())
    }
}

impl FromStr for ShowSlug {
    type Err = InvalidId;

    fn from_str(s: &str) -> (slug: Result<Self, InvalidId>)
        ensures
            match slug {
                Ok(slug) => slug@ == s@ && is_slug(s@),
                Err(e) => {
                    &&& !is_slug(s@)
                    &&& e.kind@ == "show slug"@
                    &&& s@.len() == 0 ==> e.reason@ == "must not be empty"@
                    &&& s@.len() > 0 ==> e.reason@
                        == "only ASCII letters, digits, `-`, `_`, and `.` are allowed"@
                },
            },
    {
        ShowSlug::parse(s)
    }
}

/// Provider-assigned identifier of an episode. Opaque; feed GUIDs derive
/// from it, never from file paths.
#[derive(Debug, PartialEq, Eq, Hash)]
pub struct EpisodeId(String);

impl View for EpisodeId {
    type V = Seq<char>;

    closed spec fn view(&self) -> Seq<char> {
        self.0@
    }
}

impl Clone for EpisodeId {
    fn clone(&self) -> (copy: Self)
        ensures
            copy == *self,
    {
        proof {
            use_type_invariant(self);
        }
        EpisodeId(self.0.clone())
    }
}

impl EpisodeId {
    #[verifier::type_invariant]
    closed spec fn valid(self) -> bool {
        self.0@.len() > 0
    }

    /// Validate an episode id: any text but the empty one.
    pub fn parse(s: &str) -> (id: Result<EpisodeId, InvalidId>)
        ensures
            match id {
                Ok(id) => id@ == s@ && s@.len() > 0,
                Err(e) => s@.len() == 0 && e.kind@ == "episode id"@ && e.reason@
                    == "must not be empty"@,
            },
    {
        if chars_of(s).len() == 0 {
            return Err(InvalidId { kind: "episode id", reason: "must not be empty" });
        }
        Ok(EpisodeId(s.to_owned()))
    }

    /// The identifier as a string slice.
    pub fn as_str(&self) -> (s: &str)
        ensures
            s@ == self@,
            s@.len() > 0,
    {
        proof {
            use_type_invariant(self);
        }
        self.0.as_str()
    }

    /// The identifier as text.
    pub fn to_string(&self) -> (s: String)
        ensures
            s@ == self@,
            s@.len() > 0,
    {
        proof {
            use_type_invariant(self);
        }
        self.0.clone()
    }

    /// Whether two identifiers are the same.
    pub fn same(&self, other: &EpisodeId) -> (same: bool)
        ensures
            same == (self@ == other@),
    {
        same_text(self.0.as_str(), other.0.as_str())
    }
}

impl FromStr for EpisodeId {
    type Err = InvalidId;

    fn from_str(s: &str) -> (id: Result<Self, InvalidId>)
        ensures
            match id {
                Ok(id) => id@ == s@ && s@.len() > 0,
                Err(e) => s@.len() == 0 && e.kind@ == "episode id"@ && e.reason@
                    == "must not be empty"@,
            },
    {
        EpisodeId::parse(s)
    }
}

/// A text in `secrecy`'s keeping: wiped when dropped, never printed.
#[verifier::external_body]
pub struct Secret {
    text: secrecy::SecretString,
}

/// The text a [`Secret`] keeps.
pub uninterp spec fn secret_text(secret: Secret) -> Seq<char>;

/// Makes a `secrecy::SecretString` from a `String`: it keeps that text.
#[verifier::external_body]
fn seal(text: String) -> (secret: Secret)
    ensures
        secret_text(secret) == text@,
{
    Secret { text: text.into() }
}

/// Calls `expose_secret`, which gives the kept text.
#[verifier::external_body]
fn unseal(secret: &Secret) -> (text: &str)
    ensures
        text@ == secret_text(*secret),
{
    secrecy::ExposeSecret::expose_secret(&secret.text)
}

/// A premium listen key. It is readable only through
/// [`ListenKey::expose`], and its debug form is redacted.
pub struct ListenKey(Secret);

impl View for ListenKey {
    type V = Seq<char>;

    closed spec fn view(&self) -> Seq<char> {
        secret_text(self.0)
    }
}

impl Clone for ListenKey {
    fn clone(&self) -> (copy: Self)
        ensures
            copy@ == self@,
    {
        ListenKey(seal(unseal(&self.0).to_owned()))
    }
}

impl ListenKey {
    /// Wrap a raw key.
    pub fn new(key: String) -> (wrapped: ListenKey)
        ensures
            wrapped@ == key@,
    {
        ListenKey(seal(key))
    }

    /// Reveal the key. Call only where it is sent upstream.
    pub fn expose(&self) -> (key: &str)
        ensures
            key@ == self@,
    {
        unseal(&self.0)
    }

    /// What may be shown of the key: nothing of it.
    pub fn debug_text(&self) -> (text: String)
        ensures
            text@ == "ListenKey(<redacted>)"@,
    {
        "ListenKey(<redacted>)".to_owned()
    }
}

/// A member API key: it authorises the API itself, where the listen key
/// authorises stream hosts. The same secrecy holds.
pub struct ApiKey(Secret);

impl View for ApiKey {
    type V = Seq<char>;

    closed spec fn view(&self) -> Seq<char> {
        secret_text(self.0)
    }
}

impl Clone for ApiKey {
    fn clone(&self) -> (copy: Self)
        ensures
            copy@ == self@,
    {
        ApiKey(seal(unseal(&self.0).to_owned()))
    }
}

impl ApiKey {
    /// Wrap a raw key.
    pub fn new(key: String) -> (wrapped: ApiKey)
        ensures
            wrapped@ == key@,
    {
        ApiKey(seal(key))
    }

    /// Reveal the key. Call only where it is sent upstream.
    pub fn expose(&self) -> (key: &str)
        ensures
            key@ == self@,
    {
        unseal(&self.0)
    }

    /// What may be shown of the key: nothing of it.
    pub fn debug_text(&self) -> (text: String)
        ensures
            text@ == "ApiKey(<redacted>)"@,
    {
        "ApiKey(<redacted>)".to_owned()
    }
}

/// Classification of a failure, shared by episode states and the error
/// metric's labels.
#[derive(Debug, Clone, Copy, PartialEq, Eq, Hash, Structural)]
pub enum ErrorClass {
    /// Connection, DNS, or timeout failures.
    Network,
    /// Upstream answered with a non-success status.
    HttpStatus,
    /// A response arrived but could not be parsed.
    Parse,
    /// Local filesystem failures.
    Disk,
}

/// The label of an error class.
pub open spec fn error_class_text(class: ErrorClass) -> Seq<char> {
    match class {
        ErrorClass::Network => "network"@,
        ErrorClass::HttpStatus => "http-status"@,
        ErrorClass::Parse => "parse"@,
        ErrorClass::Disk => "disk"@,
    }
}

/// Whether a text is the label of some error class.
pub open spec fn is_error_class(s: Seq<char>) -> bool {
    exists|class: ErrorClass| s == #[trigger] error_class_text(class)
}

/// The labels of the error classes are pairwise different.
pub proof fn lemma_error_class_text_injective(a: ErrorClass, b: ErrorClass)
    ensures
        error_class_text(a) == error_class_text(b) ==> a == b,
{
    reveal_strlit("network");
    reveal_strlit("http-status");
    reveal_strlit("parse");
    reveal_strlit("disk");
    assert("network"@.len() == 7 && "http-status"@.len() == 11);
    assert("parse"@.len() == 5 && "disk"@.len() == 4);
}

impl ErrorClass {
    /// The class's label.
    pub fn as_str(&self) -> (s: &'static str)
        ensures
            s@ == error_class_text(*self),
    {
        match self {
            ErrorClass::Network => "network",
            ErrorClass::HttpStatus => "http-status",
            ErrorClass::Parse => "parse",
            ErrorClass::Disk => "disk",
        }
    }

    /// The class's label as text.
    pub fn to_string(&self) -> (s: String)
        ensures
            s@ == error_class_text(*self),
    {
        self.as_str().to_owned()
    }

    /// Read a label back.
    pub fn parse(s: &str) -> (class: Result<ErrorClass, InvalidId>)
        ensures
            match class {
                Ok(class) => s@ == error_class_text(class),
                Err(e) => !is_error_class(s@) && e.kind@ == "error class"@ && e.reason@
                    == "not one of network/http-status/parse/disk"@,
            },
    {
        if same_text(s, "network") {
            Ok(ErrorClass::Network)
        } else if same_text(s, "http-status") {
            Ok(ErrorClass::HttpStatus)
        } else if same_text(s, "parse") {
            Ok(ErrorClass::Parse)
        } else if same_text(s, "disk") {
            Ok(ErrorClass::Disk)
        } else {
            Err(
                InvalidId {
                    kind: "error class",
                    reason: "not one of network/http-status/parse/disk",
                },
            )
        }
    }
}

impl FromStr for ErrorClass {
    type Err = InvalidId;

    fn from_str(s: &str) -> (class: Result<Self, InvalidId>)
        ensures
            match class {
                Ok(class) => s@ == error_class_text(class),
                Err(e) => !is_error_class(s@) && e.kind@ == "error class"@ && e.reason@
                    == "not one of network/http-status/parse/disk"@,
            },
    {
        ErrorClass::parse(s)
    }
}

/// Lifecycle of an episode.
///
/// `Discovered → Downloading → Cached → Pruned`, with `Failed` as a
/// retryable detour out of `Downloading`, `Cached → Downloading` for a file
/// that failed verification, and `Pruned → Downloading` for a tombstone
/// that fits a widened retention window.
#[derive(Debug, Clone, Copy, PartialEq, Eq, Structural)]
pub enum EpisodeState {
    /// Known from a provider listing; no local file yet.
    Discovered,
    /// A download is in flight.
    Downloading,
    /// Audio is on disk, verified, and served in the feed.
    Cached,
    /// Removed by retention; kept in storage as a tombstone.
    Pruned,
    /// The last download attempt failed; eligible for retry.
    Failed(ErrorClass),
}

/// Whether the lifecycle allows the step `from → to`.
pub open spec fn legal_step(from: EpisodeState, to: EpisodeState) -> bool {
    match to {
        EpisodeState::Discovered => false,
        EpisodeState::Downloading => from !is Downloading,
        EpisodeState::Cached => from is Downloading,
        EpisodeState::Pruned => from is Cached,
        EpisodeState::Failed(_) => from is Downloading,
    }
}

impl EpisodeState {
    /// Whether the transition `self → next` is legal.
    pub fn can_transition_to(self, next: EpisodeState) -> (legal: bool)
        ensures
            legal == legal_step(self, next),
    {
        match (self, next) {
            (EpisodeState::Discovered, EpisodeState::Downloading) => true,
            (EpisodeState::Downloading, EpisodeState::Cached) => true,
            (EpisodeState::Downloading, EpisodeState::Failed(_)) => true,
            (EpisodeState::Failed(_), EpisodeState::Downloading) => true,
            (EpisodeState::Cached, EpisodeState::Downloading) => true,
            (EpisodeState::Cached, EpisodeState::Pruned) => true,
            (EpisodeState::Pruned, EpisodeState::Downloading) => true,
            _ => false,
        }
    }

    /// Whether this state has a playable file on disk.
    pub fn is_on_disk(self) -> (on_disk: bool)
        ensures
            on_disk == (self is Cached),
    {
        match self {
            EpisodeState::Cached => true,
            _ => false,
        }
    }
}

/// A file comes to be on disk only by completing a download, and leaves
/// the disk only by being pruned or downloaded again; no step leads back to
/// `Discovered`, and a tombstone can only be revived.
pub proof fn law_lifecycle(from: EpisodeState, to: EpisodeState)
    requires
        legal_step(from, to),
    ensures
        to is Cached ==> from is Downloading,
        from is Cached ==> to is Pruned || to is Downloading,
        to !is Discovered,
        from is Pruned ==> to is Downloading,
        from != to,
{
}

/// From every state a download can eventually be cached.
pub proof fn law_every_episode_can_be_cached(from: EpisodeState)
    ensures
        from is Downloading || legal_step(from, EpisodeState::Downloading),
        legal_step(EpisodeState::Downloading, EpisodeState::Cached),
{
}

/// How the daemon was asked to run.
#[derive(Debug, Clone, Copy, PartialEq, Eq, Structural)]
pub enum Mode {
    /// Poll every show once, then exit.
    Once,
    /// Long-running daemon: scheduler plus HTTP and control servers.
    Serve,
}

/// Show-level metadata returned by a provider.
#[derive(Debug)]
pub struct ShowMeta {
    /// The show's slug.
    pub slug: ShowSlug,
    /// Human-readable title.
    pub title: String,
    /// Long-form description, if the provider supplies one.
    pub description: Option<String>,
    /// Artwork location, if the provider supplies one.
    pub artwork: Option<WebUrl>,
}

/// Episode-level metadata returned by a provider listing.
#[derive(Debug)]
pub struct EpisodeMeta {
    /// Provider-assigned identifier.
    pub id: EpisodeId,
    /// Episode title.
    pub title: String,
    /// Episode notes, if any.
    pub description: Option<String>,
    /// Publication time, if the provider supplies one.
    pub published_at: Option<Timestamp>,
    /// Duration in seconds, if the provider supplies one.
    pub duration_secs: Option<u32>,
}

/// A resolved, downloadable audio asset for one episode. The URL typically
/// carries credentials.
#[derive(Debug)]
pub struct AudioSource {
    /// Fully resolved URL, credentials included.
    pub url: WebUrl,
    /// MIME type, if known ahead of the download.
    pub mime: Option<AudioMime>,
    /// Size in bytes, if known ahead of the download.
    pub bytes: Option<u64>,
}

/// Query parameters that carry credentials.
pub open spec fn is_secret_param(key: Seq<char>) -> bool {
    ||| key == "listen_key"@
    ||| key == "api_key"@
    ||| key == "audio_token"@
}

/// Whether any of the pairs carries a credential.
pub open spec fn has_secret_param(pairs: Seq<(Seq<char>, Seq<char>)>) -> bool {
    exists|i: int| 0 <= i < pairs.len() && is_secret_param(#[trigger] pairs[i].0)
}

/// The pairs with every credential's value replaced by `REDACTED`.
pub open spec fn redacted_pairs(
    pairs: Seq<(Seq<char>, Seq<char>)>,
) -> Seq<(Seq<char>, Seq<char>)> {
    pairs.map_values(
        |p: (Seq<char>, Seq<char>)|
            if is_secret_param(p.0) {
                (p.0, "REDACTED"@)
            } else {
                p
            },
    )
}

/// What may be shown of a URL: its text as it is when it carries no
/// credential, and otherwise what stands around its query, with the pairs
/// redacted in between.
pub open spec fn redacted_text(url: Seq<char>) -> Seq<char> {
    if has_secret_param(crate::weburl::url_pairs(url)) {
        crate::weburl::before_query(url) + "?"@ + crate::weburl::query_encoded(
            redacted_pairs(crate::weburl::url_pairs(url)),
        ) + crate::weburl::fragment_part(url)
    } else {
        url
    }
}

/// A URL rendered safe for logs and error messages.
#[derive(Debug, PartialEq, Eq)]
pub struct RedactedUrl {
    text: String,
}

impl View for RedactedUrl {
    type V = Seq<char>;

    closed spec fn view(&self) -> Seq<char> {
        self.text@
    }
}

impl Clone for RedactedUrl {
    fn clone(&self) -> (copy: Self)
        ensures
            copy == *self,
    {
        RedactedUrl { text: self.text.clone() }
    }
}

fn is_secret_key(key: &str) -> (secret: bool)
    ensures
        secret == is_secret_param(key@),
{
    same_text(key, "listen_key") || same_text(key, "api_key") || same_text(key, "audio_token")
}

impl RedactedUrl {
    /// Redact a URL. The pairs of the result, where it is still short enough
    /// for a URL, are those of the URL in order, except that a credential's
    /// value reads `REDACTED`.
    pub fn from(url: &WebUrl) -> (shown: RedactedUrl)
        ensures
            shown@ == redacted_text(url@),
            shown@.len() <= crate::weburl::MAX_URL_BYTES ==> crate::weburl::url_pairs(shown@)
                == redacted_pairs(crate::weburl::url_pairs(url@)),
    {
        let pairs = url.query_pairs();
        let ghost all = crate::weburl::url_pairs(url@);
        let mut clean: Vec<(String, String)> = Vec::new();
        let mut found = false;
        let mut i: usize = 0;
        assert(crate::weburl::pair_texts(clean@) =~= redacted_pairs(all).take(0));
        assert(all.take(0) =~= Seq::empty());
        while i < pairs.len()
            invariant
                i <= pairs@.len(),
                all == crate::weburl::pair_texts(pairs@),
                crate::weburl::pair_texts(clean@) == redacted_pairs(all).take(i as int),
                clean@.len() == i,
                found == has_secret_param(all.take(i as int)),
            decreases pairs@.len() - i,
        {
            let key = pairs[i].0.clone();
            let secret = is_secret_key(key.as_str());
            let value = if secret {
                "REDACTED".to_owned()
            } else {
                pairs[i].1.clone()
            };
            proof {
                let shown = redacted_pairs(all);
                assert(all[i as int] == (key@, pairs@[i as int].1@));
                assert(shown[i as int] == (key@, value@));
                assert(shown.take(i + 1).drop_last() =~= shown.take(i as int));
                assert(all.take(i + 1).drop_last() =~= all.take(i as int));
                assert(shown.take(i + 1) =~= shown.take(i as int).push(shown[i as int]));
                assert(crate::weburl::pair_texts(clean@.push((key, value)))
                    =~= crate::weburl::pair_texts(clean@).push((key@, value@)));
                assert(all.take(i + 1)[i as int].0 == key@);
                if found {
                    let j = choose|j: int|
                        0 <= j < all.take(i as int).len() && is_secret_param(
                            #[trigger] all.take(i as int)[j].0,
                        );
                    assert(all.take(i + 1)[j].0 == all.take(i as int)[j].0);
                }
                if !found && !secret {
                    assert forall|j: int|
                        0 <= j < all.take(i + 1).len() implies !is_secret_param(
                        #[trigger] all.take(i + 1)[j].0,
                    ) by {
                        if j < i {
                            assert(all.take(i + 1)[j] == all.take(i as int)[j]);
                        }
                    }
                }
            }
            found = found || secret;
            clean.push((key, value));
            i += 1;
        }
        proof {
            assert(redacted_pairs(all).take(all.len() as int) =~= redacted_pairs(all));
            assert(all.take(all.len() as int) =~= all);
        }
        if found {
            RedactedUrl { text: url.text_with_pairs(&clean) }
        } else {
            assert(redacted_pairs(all) =~= all) by {
                assert forall|j: int| 0 <= j < all.len() implies redacted_pairs(all)[j]
                    == all[j] by {
                    assert(!is_secret_param(all[j].0));
                }
            }
            RedactedUrl { text: url.to_string() }
        }
    }

    /// The redacted URL as text.
    pub fn as_str(&self) -> (text: &str)
        ensures
            text@ == self@,
    {
        self.text.as_str()
    }

    /// The redacted URL as text.
    pub fn to_string(&self) -> (text: String)
        ensures
            text@ == self@,
    {
        self.text.clone()
    }
}

/// [`RedactedUrl::from`] for call sites that read better with a verb.
pub fn redacted(url: &WebUrl) -> (shown: RedactedUrl)
    ensures
        shown@ == redacted_text(url@),
        shown@.len() <= crate::weburl::MAX_URL_BYTES ==> crate::weburl::url_pairs(shown@)
            == redacted_pairs(crate::weburl::url_pairs(url@)),
{
    RedactedUrl::from(url)
}

/// No credential survives redaction, and nothing else is touched: the keys
/// stay, a secret key's value reads `REDACTED`, any other value stays.
pub proof fn law_redaction(pairs: Seq<(Seq<char>, Seq<char>)>, i: int)
    requires
        0 <= i < pairs.len(),
    ensures
        redacted_pairs(pairs).len() == pairs.len(),
        redacted_pairs(pairs)[i].0 == pairs[i].0,
        is_secret_param(pairs[i].0) ==> redacted_pairs(pairs)[i].1 == "REDACTED"@,
        !is_secret_param(pairs[i].0) ==> redacted_pairs(pairs)[i].1 == pairs[i].1,
{
}

/// Redacting twice is redacting once.
pub proof fn law_redaction_idempotent(pairs: Seq<(Seq<char>, Seq<char>)>)
    ensures
        redacted_pairs(redacted_pairs(pairs)) == redacted_pairs(pairs),
{
    assert(redacted_pairs(redacted_pairs(pairs)) =~= redacted_pairs(pairs));
}

/// Whether two query pairs are the same but for the value of a credential.
pub open spec fn same_pair_but_for_credentials(
    p: (Seq<char>, Seq<char>),
    q: (Seq<char>, Seq<char>),
) -> bool {
    p.0 == q.0 && (is_secret_param(p.0) || p.1 == q.1)
}

/// Whether two URLs are the same but for the values of credentials in their
/// queries.
pub open spec fn same_but_for_credentials(a: Seq<char>, b: Seq<char>) -> bool {
    ||| a == b
    ||| {
        let ours = crate::weburl::url_pairs(a);
        let theirs = crate::weburl::url_pairs(b);
        &&& has_secret_param(ours)
        &&& crate::weburl::before_query(a) == crate::weburl::before_query(b)
        &&& crate::weburl::fragment_part(a) == crate::weburl::fragment_part(b)
        &&& ours.len() == theirs.len()
        &&& forall|i: int|
            #![trigger ours[i]]
            #![trigger theirs[i]]
            0 <= i < ours.len() ==> same_pair_but_for_credentials(ours[i], theirs[i])
    }
}

/// No credential can be told from what is shown of a URL: URLs that are the
/// same but for the values of credentials are shown alike.
pub proof fn law_redaction_hides_credentials(a: Seq<char>, b: Seq<char>)
    requires
        same_but_for_credentials(a, b),
    ensures
        redacted_text(a) == redacted_text(b),
{
    if a != b {
        let ours = crate::weburl::url_pairs(a);
        let theirs = crate::weburl::url_pairs(b);
        let i = choose|i: int| 0 <= i < ours.len() && is_secret_param(#[trigger] ours[i].0);
        assert(is_secret_param(theirs[i].0));
        assert(redacted_pairs(ours) =~= redacted_pairs(theirs)) by {
            assert forall|j: int| 0 <= j < ours.len() implies redacted_pairs(ours)[j]
                == redacted_pairs(theirs)[j] by {
                assert(same_pair_but_for_credentials(ours[j], theirs[j]));
            }
        }
    }
}

/// MIME type of an episode's audio: the formats a podcast feed carries, and
/// anything else verbatim.
#[derive(Debug, PartialEq, Eq)]
pub enum AudioMime {
    /// `audio/mpeg` (MP3).
    Mpeg,
    /// `audio/mp4` (AAC in MP4).
    Mp4,
    /// `audio/aac` (raw AAC).
    Aac,
    /// `audio/ogg` (Vorbis or Opus).
    Ogg,
    /// Anything else upstream sends.
    Other(String),
}

/// The text of a MIME type.
pub open spec fn mime_text(mime: AudioMime) -> Seq<char> {
    match mime {
        AudioMime::Mpeg => "audio/mpeg"@,
        AudioMime::Mp4 => "audio/mp4"@,
        AudioMime::Aac => "audio/aac"@,
        AudioMime::Ogg => "audio/ogg"@,
        AudioMime::Other(raw) => raw@,
    }
}

/// A MIME type as a mathematical value.
pub enum MimeModel {
    /// `audio/mpeg`.
    Mpeg,
    /// `audio/mp4`.
    Mp4,
    /// `audio/aac`.
    Aac,
    /// `audio/ogg`.
    Ogg,
    /// Anything else, by its text.
    Other(Seq<char>),
}

impl View for AudioMime {
    type V = MimeModel;

    open spec fn view(&self) -> MimeModel {
        match *self {
            AudioMime::Mpeg => MimeModel::Mpeg,
            AudioMime::Mp4 => MimeModel::Mp4,
            AudioMime::Aac => MimeModel::Aac,
            AudioMime::Ogg => MimeModel::Ogg,
            AudioMime::Other(raw) => MimeModel::Other(raw@),
        }
    }
}

/// The MIME type a text stands for.
pub open spec fn mime_of(raw: Seq<char>) -> MimeModel {
    if raw == "audio/mpeg"@ || raw == "audio/mp3"@ {
        MimeModel::Mpeg
    } else if raw == "audio/mp4"@ || raw == "audio/x-m4a"@ {
        MimeModel::Mp4
    } else if raw == "audio/aac"@ {
        MimeModel::Aac
    } else if raw == "audio/ogg"@ {
        MimeModel::Ogg
    } else {
        MimeModel::Other(raw)
    }
}

/// The text of a MIME type.
pub open spec fn mime_model_text(mime: MimeModel) -> Seq<char> {
    match mime {
        MimeModel::Mpeg => "audio/mpeg"@,
        MimeModel::Mp4 => "audio/mp4"@,
        MimeModel::Aac => "audio/aac"@,
        MimeModel::Ogg => "audio/ogg"@,
        MimeModel::Other(raw) => raw,
    }
}

/// Whether `mime` is what the text `raw` stands for.
pub open spec fn mime_reads(mime: AudioMime, raw: Seq<char>) -> bool {
    mime@ == mime_of(raw)
}

impl Clone for AudioMime {
    fn clone(&self) -> (copy: Self)
        ensures
            copy == *self,
    {
        match self {
            AudioMime::Mpeg => AudioMime::Mpeg,
            AudioMime::Mp4 => AudioMime::Mp4,
            AudioMime::Aac => AudioMime::Aac,
            AudioMime::Ogg => AudioMime::Ogg,
            AudioMime::Other(raw) => AudioMime::Other(raw.clone()),
        }
    }
}

impl AudioMime {
    /// The MIME type a text stands for.
    pub fn from(raw: &str) -> (mime: AudioMime)
        ensures
            mime_reads(mime, raw@),
    {
        if same_text(raw, "audio/mpeg") || same_text(raw, "audio/mp3") {
            AudioMime::Mpeg
        } else if same_text(raw, "audio/mp4") || same_text(raw, "audio/x-m4a") {
            AudioMime::Mp4
        } else if same_text(raw, "audio/aac") {
            AudioMime::Aac
        } else if same_text(raw, "audio/ogg") {
            AudioMime::Ogg
        } else {
            AudioMime::Other(raw.to_owned())
        }
    }

    /// Canonical file extension, for the formats that are known.
    pub fn extension(&self) -> (extension: Option<&'static str>)
        ensures
            match *self {
                AudioMime::Mpeg => extension matches Some(e) && e@ == "mp3"@,
                AudioMime::Mp4 => extension matches Some(e) && e@ == "m4a"@,
                AudioMime::Aac => extension matches Some(e) && e@ == "aac"@,
                AudioMime::Ogg => extension matches Some(e) && e@ == "ogg"@,
                AudioMime::Other(_) => extension is None,
            },
    {
        match self {
            AudioMime::Mpeg => Some("mp3"),
            AudioMime::Mp4 => Some("m4a"),
            AudioMime::Aac => Some("aac"),
            AudioMime::Ogg => Some("ogg"),
            AudioMime::Other(_) => None,
        }
    }

    /// The MIME type as text.
    pub fn to_string(&self) -> (text: String)
        ensures
            text@ == mime_text(*self),
    {
        match self {
            AudioMime::Mpeg => "audio/mpeg".to_owned(),
            AudioMime::Mp4 => "audio/mp4".to_owned(),
            AudioMime::Aac => "audio/aac".to_owned(),
            AudioMime::Ogg => "audio/ogg".to_owned(),
            AudioMime::Other(raw) => raw.clone(),
        }
    }
}

/// A MIME type that was read from a text is read again from its own text,
/// and an unknown type keeps its text.
pub proof fn law_mime_round_trip(mime: AudioMime, raw: Seq<char>)
    requires
        mime_reads(mime, raw),
    ensures
        mime_reads(mime, mime_text(mime)),
        mime is Other ==> mime_text(mime) == raw,
{
    reveal_strlit("audio/mpeg");
    reveal_strlit("audio/mp3");
    reveal_strlit("audio/mp4");
    reveal_strlit("audio/x-m4a");
    reveal_strlit("audio/aac");
    reveal_strlit("audio/ogg");
    assert("audio/mp3"@[8] == '3');
    assert("audio/mp4"@[8] == '4');
    assert("audio/aac"@[6] == 'a');
    assert("audio/ogg"@[6] == 'o');
    assert("audio/mp4"@[6] == 'm');
    assert("audio/mp3"@[6] == 'm');
}

/// A slug is not empty and made of letters, digits, dashes, underscores and
/// dots; in particular it holds no slash, space or percent sign.
pub proof fn law_slugs_are_plain(s: Seq<char>)
    ensures
        is_slug(s) <==> s.len() > 0 && forall|i: int|
            0 <= i < s.len() ==> ('a' <= #[trigger] s[i] <= 'z' || 'A' <= s[i] <= 'Z' || '0' <= s[i]
                <= '9' || s[i] == '-' || s[i] == '_' || s[i] == '.'),
{
    if is_slug(s) {
        assert forall|i: int| 0 <= i < s.len() implies ('a' <= #[trigger] s[i] <= 'z' || 'A' <= s[i]
            <= 'Z' || '0' <= s[i] <= '9' || s[i] == '-' || s[i] == '_' || s[i] == '.') by {
            assert(is_slug_char(s[i]));
        }
    }
}

/// The lifecycle, step by step: a download may start from any state but a
/// running one; only a running one can complete or fail; only what is cached
/// can be pruned; and nothing becomes discovered again.
pub proof fn law_the_whole_lifecycle(from: EpisodeState, class: ErrorClass)
    ensures
        legal_step(from, EpisodeState::Downloading) <==> from != EpisodeState::Downloading,
        legal_step(from, EpisodeState::Cached) <==> from == EpisodeState::Downloading,
        legal_step(from, EpisodeState::Failed(class)) <==> from == EpisodeState::Downloading,
        legal_step(from, EpisodeState::Pruned) <==> from == EpisodeState::Cached,
        !legal_step(from, EpisodeState::Discovered),
{
}

/// The parameters that are credentials are the listen key, the API key and
/// the audio token, and no others.
pub proof fn law_which_parameters_are_credentials(key: Seq<char>)
    ensures
        is_secret_param(key) <==> key == "listen_key"@ || key == "api_key"@ || key
            == "audio_token"@,
{
}

/// A URL without credentials is shown as it is; one with any is shown with
/// each credential replaced, everything else as it was.
pub proof fn law_shown_urls(url: Seq<char>)
    ensures
        (forall|i: int|
            0 <= i < crate::weburl::url_pairs(url).len() ==> !is_secret_param(
                #[trigger] crate::weburl::url_pairs(url)[i].0,
            )) ==> redacted_text(url) == url,
        (exists|i: int|
            0 <= i < crate::weburl::url_pairs(url).len() && is_secret_param(
                #[trigger] crate::weburl::url_pairs(url)[i].0,
            )) ==> redacted_text(url) == crate::weburl::before_query(url) + seq!['?']
            + crate::weburl::query_encoded(redacted_pairs(crate::weburl::url_pairs(url)))
            + crate::weburl::fragment_part(url),
{
    reveal_strlit("?");
    assert("?"@ =~= seq!['?']);
}

/// The texts of the error classes are their own, and each reads back as its
/// class alone.
pub proof fn law_error_classes_read_back(a: ErrorClass, b: ErrorClass)
    ensures
        error_class_text(a) == error_class_text(b) ==> a == b,
        error_class_text(ErrorClass::Network) == "network"@,
        error_class_text(ErrorClass::HttpStatus) == "http-status"@,
        error_class_text(ErrorClass::Parse) == "parse"@,
        error_class_text(ErrorClass::Disk) == "disk"@,
{
    lemma_error_class_text_injective(a, b);
}

/// The known audio types are told by their names, two of which have an
/// alias; any other name is kept as it is.
pub proof fn law_audio_types(raw: Seq<char>)
    ensures
        mime_of(raw) == MimeModel::Mpeg <==> raw == "audio/mpeg"@ || raw == "audio/mp3"@,
        mime_of(raw) == MimeModel::Mp4 <==> raw == "audio/mp4"@ || raw == "audio/x-m4a"@,
        mime_of(raw) == MimeModel::Aac <==> raw == "audio/aac"@,
        mime_of(raw) == MimeModel::Ogg <==> raw == "audio/ogg"@,
        mime_of(raw) matches MimeModel::Other(text) ==> text == raw,
        mime_model_text(mime_of(raw)) == raw || raw == "audio/mp3"@ || raw == "audio/x-m4a"@,
{
    reveal_strlit("audio/mpeg");
    reveal_strlit("audio/mp3");
    reveal_strlit("audio/mp4");
    reveal_strlit("audio/x-m4a");
    reveal_strlit("audio/aac");
    reveal_strlit("audio/ogg");
    assert("audio/mpeg"@.len() == 10 && "audio/mp3"@.len() == 9 && "audio/mp4"@.len() == 9);
    assert("audio/x-m4a"@.len() == 11 && "audio/aac"@.len() == 9 && "audio/ogg"@.len() == 9);
    assert("audio/mp3"@[8] == '3' && "audio/mp4"@[8] == '4');
    assert("audio/aac"@[6] == 'a' && "audio/ogg"@[6] == 'o' && "audio/mp3"@[6] == 'm');
    assert("audio/mp4"@[6] == 'm');
}

/// A type's text is its name.
pub proof fn law_audio_type_names(mime: AudioMime)
    ensures
        mime_text(mime) == mime_model_text(mime@),
        mime_text(AudioMime::Mpeg) == "audio/mpeg"@,
        mime_text(AudioMime::Mp4) == "audio/mp4"@,
        mime_text(AudioMime::Aac) == "audio/aac"@,
        mime_text(AudioMime::Ogg) == "audio/ogg"@,
        mime matches AudioMime::Other(raw) ==> mime_text(mime) == raw@,
{
}

/// What is said of text that is no id: which kind of id it should have been,
/// and what is wrong with it.
pub proof fn law_bad_ids_say_why(kind: Seq<char>, reason: Seq<char>)
    ensures
        invalid_id_text(kind, reason) == "invalid "@ + kind + ": "@ + reason,
{
}

} // verus!
