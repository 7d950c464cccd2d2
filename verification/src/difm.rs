//! The DI.FM provider: which requests to make of the AudioAddict API, and
//! what its answers mean.
//!
//! Requests go to `shows/<slug>`, `shows/<slug>/episodes` and
//! `shows/<slug>/episodes/<episode>` below the base URL. The member API key
//! unlocks audio assets; a signed playback URL authorises itself, and only
//! a bare stream URL gets the listen key appended.

use vstd::prelude::*;

use crate::config::Config;
use crate::domain::{
    redacted, ApiKey, AudioMime, AudioSource, EpisodeId, EpisodeMeta, ListenKey, ShowMeta,
    ShowSlug,
};
use crate::order::{insert_ranked, Ranked};
use crate::paths::join_path;
use crate::providers::ProviderError;
use crate::quarantine::Quarantine;
use crate::text::{decimal_text, same_text};
use crate::timestamp::Timestamp;
use crate::v1::{is_show_meta, mime_for, Episode, Show};
use crate::weburl::{WebUrl, URL_TOO_LONG};

verus! {

/// Production API base for the DI.FM network.
pub const DEFAULT_BASE_URL: &'static str = "https://api.audioaddict.com/v1/di/";

/// Episodes listed per request unless bounded otherwise.
pub const DEFAULT_PER_PAGE: u32 = 25;

/// What to do when an API key unlocked no audio.
pub const HINT_WITH_API_KEY: &'static str =
    "the response held no audio asset despite an api_key; either the key is stale/wrong or the upstream schema drifted — run `splicefeed probe`";

/// What to do when there is no API key.
pub const HINT_WITHOUT_API_KEY: &'static str =
    "no [auth.difm] api_key is configured, and the listen key alone does not unlock episode audio (confirmed 2026-07-11); set the member API key in the config or the DIFM_API_KEY env var";

/// Provider for DI.FM premium shows via the AudioAddict API.
pub struct DifmProvider {
    /// API base.
    pub base_url: WebUrl,
    /// Listen key, if configured.
    pub listen_key: Option<ListenKey>,
    /// Member API key, if configured.
    pub api_key: Option<ApiKey>,
    /// Where unparseable payloads go.
    pub quarantine: Quarantine,
    /// Episodes per listing request.
    pub per_page: u32,
}

/// Builder for [`DifmProvider`].
pub struct DifmProviderBuilder {
    /// Listen key, if given.
    pub listen_key: Option<ListenKey>,
    /// Member API key, if given.
    pub api_key: Option<ApiKey>,
    /// API base, if given.
    pub base_url: Option<WebUrl>,
    /// Quarantine directory, if given.
    pub quarantine_dir: Option<String>,
    /// Episodes per listing request, if given.
    pub per_page: Option<u32>,
}

impl DifmProviderBuilder {
    /// The member API key.
    pub fn api_key(self, api_key: ApiKey) -> (builder: DifmProviderBuilder)
        ensures
            builder == (DifmProviderBuilder { api_key: Some(api_key), ..self }),
    {
        let mut builder = self;
        builder.api_key = Some(api_key);
        builder
    }

    /// Override the API base URL.
    pub fn base_url(self, base_url: WebUrl) -> (builder: DifmProviderBuilder)
        ensures
            builder == (DifmProviderBuilder { base_url: Some(base_url), ..self }),
    {
        let mut builder = self;
        builder.base_url = Some(base_url);
        builder
    }

    /// Where unparseable payloads are written.
    pub fn quarantine_dir(self, dir: String) -> (builder: DifmProviderBuilder)
        ensures
            builder == (DifmProviderBuilder { quarantine_dir: Some(dir), ..self }),
    {
        let mut builder = self;
        builder.quarantine_dir = Some(dir);
        builder
    }

    /// Episodes requested per listing call.
    pub fn per_page(self, per_page: u32) -> (builder: DifmProviderBuilder)
        ensures
            builder == (DifmProviderBuilder { per_page: Some(per_page), ..self }),
    {
        let mut builder = self;
        builder.per_page = Some(per_page);
        builder
    }

    /// Build the provider, with the production base URL, `quarantine/difm`
    /// and 25 episodes per listing where nothing else was asked for.
    pub fn build(self) -> (provider: Result<DifmProvider, ProviderError>)
        ensures
            match provider {
                Ok(provider) => built(provider, self),
                Err(error) => error matches ProviderError::Http(reason) && self.base_url is None
                    && crate::config::url_fault(DEFAULT_BASE_URL@) == Some(reason@),
            },
    {
        let base_url = match self.base_url {
            Some(url) => url,
            None => match WebUrl::parse(DEFAULT_BASE_URL) {
                Ok(url) => url,
                Err(reason) => {
                    return Err(ProviderError::Http(reason));
                },
            },
        };
        let dir = match self.quarantine_dir {
            Some(dir) => dir,
            None => "quarantine/difm".to_owned(),
        };
        let per_page: u32 = match self.per_page {
            Some(n) => n,
            None => DEFAULT_PER_PAGE,
        };
        Ok(
            DifmProvider {
                base_url,
                listen_key: self.listen_key,
                api_key: self.api_key,
                quarantine: Quarantine::new(dir),
                per_page,
            },
        )
    }
}

/// Whether `provider` is what a builder builds.
pub open spec fn built(provider: DifmProvider, builder: DifmProviderBuilder) -> bool {
    &&& match builder.base_url {
        Some(url) => provider.base_url == url,
        None => crate::v1::url_at(DEFAULT_BASE_URL@) == Some(provider.base_url@),
    }
    &&& provider.listen_key == builder.listen_key
    &&& provider.api_key == builder.api_key
    &&& provider.quarantine@ == match builder.quarantine_dir {
        Some(dir) => dir@,
        None => "quarantine/difm"@,
    }
    &&& provider.per_page == match builder.per_page {
        Some(n) => n,
        None => DEFAULT_PER_PAGE,
    }
}

/// A text with query pairs appended one by one; `None` where that is longer
/// than a URL can be.
pub open spec fn with_query(text: Option<Seq<char>>, query: Seq<(Seq<char>, Seq<char>)>) -> Option<
    Seq<char>,
>
    decreases query.len(),
{
    if query.len() == 0 {
        text
    } else {
        match with_query(text, query.drop_last()) {
            Some(before) => {
                let (key, value) = query.last();
                if crate::weburl::appended_len(before, key, value)
                    > crate::weburl::MAX_URL_BYTES {
                    None
                } else {
                    Some(crate::weburl::url_with_pair(before, key, value))
                }
            },
            None => None,
        }
    }
}

/// The base URL with path segments added; `None` where it cannot hold them.
pub open spec fn with_path(base: Seq<char>, segments: Seq<Seq<char>>) -> Option<Seq<char>> {
    if crate::weburl::segments_fit(base, segments) {
        crate::weburl::url_extended(base, segments)
    } else {
        None
    }
}

/// The URL of a request: path segments and query pairs on the base.
pub open spec fn endpoint_text(
    base: Seq<char>,
    segments: Seq<Seq<char>>,
    query: Seq<(Seq<char>, Seq<char>)>,
) -> Option<Seq<char>> {
    with_query(with_path(base, segments), query)
}

/// Whether `result` is the URL of a request with these segments and pairs,
/// or the failure to form one.
pub open spec fn is_endpoint(
    result: Result<WebUrl, ProviderError>,
    base: Seq<char>,
    segments: Seq<Seq<char>>,
    query: Seq<(Seq<char>, Seq<char>)>,
) -> bool {
    match result {
        Ok(url) => {
            &&& endpoint_text(base, segments, query) == Some(url@)
            &&& crate::weburl::url_pairs(url@) == crate::weburl::url_pairs(base) + query
        },
        Err(ProviderError::Http(reason)) => {
            &&& endpoint_text(base, segments, query) is None
            &&& reason@ == if crate::weburl::segments_fit(base, segments) && with_path(
                base,
                segments,
            ) is None {
                "base URL cannot hold a path"@
            } else {
                URL_TOO_LONG@
            }
        },
        Err(_) => false,
    }
}

/// How many episodes a listing asks for.
pub open spec fn page_size(provider: DifmProvider, limit: Option<u32>) -> u32 {
    match limit {
        Some(n) => n,
        None => provider.per_page,
    }
}

/// The parameters of a listing: its first page, of this size.
pub open spec fn page_query(size: u32) -> Seq<(Seq<char>, Seq<char>)> {
    seq![("page"@, "1"@), ("per_page"@, crate::text::decimal(size as nat))]
}

/// The key parameter of an episode request: the API key, else the listen
/// key.
pub open spec fn key_query(provider: DifmProvider) -> Seq<(Seq<char>, Seq<char>)> {
    match (provider.api_key, provider.listen_key) {
        (Some(key), _) => seq![("api_key"@, key@)],
        (None, Some(key)) => seq![("listen_key"@, key@)],
        (None, None) => Seq::empty(),
    }
}

/// Query parameters that mark a URL as authorised.
pub open spec fn is_auth_param(key: Seq<char>) -> bool {
    ||| key == "listen_key"@
    ||| key == "audio_token"@
    ||| key == "auth"@
}

/// Whether a URL authorises itself.
pub open spec fn is_authorized(url: Seq<char>) -> bool {
    exists|i: int|
        0 <= i < crate::weburl::url_pairs(url).len() && is_auth_param(
            #[trigger] crate::weburl::url_pairs(url)[i].0,
        )
}

/// The URL to download from: a self-authorising one as it is, a bare one
/// with the listen key where there is one. `None` where it is longer than a
/// URL can be.
pub open spec fn playback_text(provider: DifmProvider, url: Seq<char>) -> Option<Seq<char>> {
    match provider.listen_key {
        Some(key) => if is_authorized(url) {
            Some(url)
        } else {
            with_query(Some(url), seq![("listen_key"@, key@)])
        },
        None => Some(url),
    }
}

/// Episode metadata is listed newest first, undated last.
impl Ranked for EpisodeMeta {
    open spec fn precedes(&self, other: &Self) -> bool {
        match (
            crate::timestamp::opt_instant(self.published_at),
            crate::timestamp::opt_instant(other.published_at),
        ) {
            (Some(x), Some(y)) => x > y,
            (Some(_), None) => true,
            (None, _) => false,
        }
    }

    fn goes_before(&self, other: &Self) -> (before: bool) {
        match (&self.published_at, &other.published_at) {
            (Some(x), Some(y)) => x.nanos() > y.nanos(),
            (Some(_), None) => true,
            (None, _) => false,
        }
    }

    proof fn lemma_weak_order(a: &Self, b: &Self, c: &Self) {
    }
}

/// What a listing's entries turned into.
pub struct Listing {
    /// The usable episodes, newest first.
    pub episodes: Vec<EpisodeMeta>,
    /// For each entry in order, why it was rejected, if it was.
    pub rejected: Vec<Option<String>>,
}

/// A payload nobody understands: what was wrong with it, and the file it is
/// kept in for a look.
pub struct SetAside {
    /// What did not parse.
    pub reason: String,
    /// Where the raw payload goes.
    pub path: String,
}

impl SetAside {
    /// The error that follows, once the payload was written to
    /// `quarantine_path`, or to nowhere where writing failed.
    pub fn failed(self, quarantine_path: Option<String>) -> (error: ProviderError)
        ensures
            error == (ProviderError::Parse { reason: self.reason, quarantine_path }),
    {
        ProviderError::Parse { reason: self.reason, quarantine_path }
    }
}

/// Whether `aside` keeps a payload of `provider` that was read at `now` as
/// `label` and failed with `reason`.
pub open spec fn keeps(
    aside: SetAside,
    provider: DifmProvider,
    label: Seq<char>,
    reason: Seq<char>,
    now: int,
) -> bool {
    &&& aside.reason@ == reason
    &&& aside.path@ == crate::paths::joined_path(
        provider.quarantine@,
        crate::quarantine::payload_name(now, label),
    )
}

/// The entries of a JSON array as `serde_json` prints them, or the message
/// of `serde_json::from_str`'s error for a text that is none.
pub uninterp spec fn json_entries(payload: Seq<char>) -> Result<Seq<Seq<char>>, Seq<char>>;

/// Calls `serde_json::from_str` for an array of values, and prints each
/// value. The outcome depends on the text alone.
#[verifier::external_body]
fn read_entries(payload: &str) -> (entries: Result<Vec<String>, String>)
    ensures
        match entries {
            Ok(entries) => json_entries(payload@) == Ok::<Seq<Seq<char>>, Seq<char>>(
                crate::text::texts(entries@),
            ),
            Err(reason) => json_entries(payload@) == Err::<Seq<Seq<char>>, Seq<char>>(reason@),
        },
{
    match serde_json::from_str::<Vec<serde_json::Value>>(payload) {
        Ok(entries) => Ok(entries.iter().map(|entry| entry.to_string()).collect()),
        Err(error) => Err(error.to_string()),
    }
}

/// Why an entry of a listing is rejected: it is not an episode at all, or
/// one that does not convert.
pub open spec fn entry_fault(entry: Result<Episode, String>) -> Option<Seq<char>> {
    match entry {
        Ok(episode) => crate::v1::episode_wire_fault(episode),
        Err(reason) => Some(reason@),
    }
}

/// Whether `episodes` are the usable entries, converted, in listing order.
pub open spec fn are_usable(
    episodes: Seq<EpisodeMeta>,
    entries: Seq<Result<Episode, String>>,
) -> bool
    decreases entries.len(),
{
    if entries.len() == 0 {
        episodes.len() == 0
    } else if entry_fault(entries.last()) is Some {
        are_usable(episodes, entries.drop_last())
    } else {
        &&& episodes.len() > 0
        &&& crate::v1::meta_reads(episodes.last(), entries.last()->Ok_0)
        &&& are_usable(episodes.drop_last(), entries.drop_last())
    }
}

impl DifmProvider {
    /// Start building a provider.
    pub fn builder(listen_key: Option<ListenKey>) -> (builder: DifmProviderBuilder)
        ensures
            builder == (DifmProviderBuilder {
                listen_key,
                api_key: None,
                base_url: None,
                quarantine_dir: None,
                per_page: None,
            }),
    {
        DifmProviderBuilder {
            listen_key,
            api_key: None,
            base_url: None,
            quarantine_dir: None,
            per_page: None,
        }
    }

    /// The URL of a request.
    pub fn endpoint(
        &self,
        segments: &Vec<String>,
        query: &Vec<(String, String)>,
    ) -> (url: Result<WebUrl, ProviderError>)
        ensures
            is_endpoint(
                url,
                self.base_url@,
                crate::text::texts(segments@),
                crate::weburl::pair_texts(query@),
            ),
    {
        let ghost base = self.base_url@;
        let ghost segs = crate::text::texts(segments@);
        let ghost all = crate::weburl::pair_texts(query@);
        let mut url = match self.base_url.with_segments(segments) {
            Some(url) => url,
            None => {
                proof {
                    lemma_no_path_no_endpoint(base, segs, all);
                }
                if !self.base_url.has_room(segments) {
                    return Err(ProviderError::Http(URL_TOO_LONG.to_owned()));
                }
                return Err(ProviderError::Http("base URL cannot hold a path".to_owned()));
            },
        };
        let mut i: usize = 0;
        proof {
            assert(all.take(0) =~= Seq::empty());
            assert(crate::weburl::url_pairs(base) + all.take(0)
                =~= crate::weburl::url_pairs(base));
        }
        while i < query.len()
            invariant
                i <= query@.len(),
                base == self.base_url@,
                segs == crate::text::texts(segments@),
                all == crate::weburl::pair_texts(query@),
                with_path(base, segs) is Some,
                with_query(with_path(base, segs), all.take(i as int)) == Some(url@),
                crate::weburl::url_pairs(url@) == crate::weburl::url_pairs(base) + all.take(
                    i as int,
                ),
            decreases query@.len() - i,
        {
            let ghost next = all.take(i + 1);
            proof {
                assert(next.drop_last() =~= all.take(i as int));
                assert(next.last() == (query@[i as int].0@, query@[i as int].1@));
            }
            match url.with_pair(query[i].0.as_str(), query[i].1.as_str()) {
                Some(longer) => {
                    url = longer;
                },
                None => {
                    proof {
                        lemma_query_failure_stays(with_path(base, segs), all, i + 1);
                    }
                    return Err(ProviderError::Http(URL_TOO_LONG.to_owned()));
                },
            }
            proof {
                assert(crate::weburl::url_pairs(base) + all.take(i as int) + seq![next.last()]
                    =~= crate::weburl::url_pairs(base) + next);
                assert((crate::weburl::url_pairs(base) + all.take(i as int)).push(next.last())
                    =~= crate::weburl::url_pairs(base) + next);
            }
            i += 1;
        }
        assert(all.take(all.len() as int) =~= all);
        Ok(url)
    }

    /// The request for a show's metadata.
    pub fn show_request(&self, slug: &ShowSlug) -> (url: Result<WebUrl, ProviderError>)
        ensures
            is_endpoint(url, self.base_url@, seq!["shows"@, slug@], Seq::empty()),
    {
        let mut segments: Vec<String> = Vec::new();
        segments.push("shows".to_owned());
        segments.push(slug.to_string());
        let query: Vec<(String, String)> = Vec::new();
        proof {
            assert(crate::text::texts(segments@) =~= seq!["shows"@, slug@]);
            assert(crate::weburl::pair_texts(query@) =~= Seq::empty());
        }
        self.endpoint(&segments, &query)
    }

    /// The request for a show's newest episodes: `limit` of them where a
    /// limit is set.
    pub fn episodes_request(&self, slug: &ShowSlug, limit: Option<u32>) -> (url: Result<
        WebUrl,
        ProviderError,
    >)
        ensures
            is_endpoint(
                url,
                self.base_url@,
                seq!["shows"@, slug@, "episodes"@],
                page_query(page_size(*self, limit)),
            ),
    {
        let per_page: u32 = match limit {
            Some(n) => n,
            None => self.per_page,
        };
        let mut segments: Vec<String> = Vec::new();
        segments.push("shows".to_owned());
        segments.push(slug.to_string());
        segments.push("episodes".to_owned());
        let mut query: Vec<(String, String)> = Vec::new();
        query.push(("page".to_owned(), "1".to_owned()));
        query.push(("per_page".to_owned(), decimal_text(per_page as u64)));
        proof {
            assert(crate::text::texts(segments@) =~= seq!["shows"@, slug@, "episodes"@]);
            assert(crate::weburl::pair_texts(query@) =~= page_query(per_page));
        }
        self.endpoint(&segments, &query)
    }

    /// The request for one episode, with the key that may unlock its audio.
    pub fn episode_request(&self, show: &ShowSlug, episode: &EpisodeId) -> (url: Result<
        WebUrl,
        ProviderError,
    >)
        ensures
            is_endpoint(
                url,
                self.base_url@,
                seq!["shows"@, show@, "episodes"@, episode@],
                key_query(*self),
            ),
    {
        let mut segments: Vec<String> = Vec::new();
        segments.push("shows".to_owned());
        segments.push(show.to_string());
        segments.push("episodes".to_owned());
        segments.push(episode.to_string());
        let mut query: Vec<(String, String)> = Vec::new();
        match &self.api_key {
            Some(key) => {
                query.push(("api_key".to_owned(), key.expose().to_owned()));
            },
            None => match &self.listen_key {
                Some(key) => {
                    query.push(("listen_key".to_owned(), key.expose().to_owned()));
                },
                None => {},
            },
        }
        proof {
            assert(crate::text::texts(segments@) =~= seq![
                "shows"@,
                show@,
                "episodes"@,
                episode@,
            ]);
            assert(crate::weburl::pair_texts(query@) =~= key_query(*self));
        }
        self.endpoint(&segments, &query)
    }

    /// What a response status means: success, or an error that shows the
    /// URL without its credentials.
    pub fn check_status(status: u16, url: &WebUrl) -> (result: Result<(), ProviderError>)
        ensures
            match result {
                Ok(()) => 200 <= status < 300,
                Err(error) => !(200 <= status < 300) && (error matches ProviderError::Status {
                    status: s,
                    url: shown,
                } && s == status && shown@ == crate::domain::redacted_text(url@)),
            },
    {
        if 200 <= status && status < 300 {
            Ok(())
        } else {
            Err(ProviderError::Status { status, url: redacted(url) })
        }
    }

    /// What the status of a listing's response means: a listing to read, or
    /// that nothing changed since the one whose validator was sent along.
    pub fn check_listing_status(status: u16, url: &WebUrl) -> (fresh: Result<bool, ProviderError>)
        ensures
            match fresh {
                Ok(fresh) => if fresh {
                    200 <= status < 300
                } else {
                    status == 304
                },
                Err(error) => !(200 <= status < 300) && status != 304 && (
                error matches ProviderError::Status { status: s, url: shown } && s == status
                    && shown@ == crate::domain::redacted_text(url@)),
            },
    {
        if status == 304 {
            return Ok(false);
        }
        match DifmProvider::check_status(status, url) {
            Ok(()) => Ok(true),
            Err(error) => Err(error),
        }
    }

    /// A 404 on a show's resource means that the show does not exist.
    pub fn not_found_means_no_show(error: ProviderError, slug: &ShowSlug) -> (mapped:
        ProviderError)
        ensures
            match error {
                ProviderError::Status { status, url } => if status == 404 {
                    mapped == ProviderError::ShowNotFound(*slug)
                } else {
                    mapped == error
                },
                _ => mapped == error,
            },
    {
        match error {
            ProviderError::Status { status, url } => {
                if status == 404 {
                    ProviderError::ShowNotFound(slug.clone())
                } else {
                    ProviderError::Status { status, url }
                }
            },
            other => other,
        }
    }

    /// What a payload of a show is called.
    pub fn show_label(slug: &ShowSlug) -> (label: String)
        ensures
            label@ == "show-"@ + slug@,
    {
        let mut label = "show-".to_owned();
        label.append(slug.as_str());
        label
    }

    /// What a payload of a show's listing is called.
    pub fn episodes_label(slug: &ShowSlug) -> (label: String)
        ensures
            label@ == "episodes-"@ + slug@,
    {
        let mut label = "episodes-".to_owned();
        label.append(slug.as_str());
        label
    }

    /// What an entry of a show's listing is called.
    pub fn entry_label(slug: &ShowSlug) -> (label: String)
        ensures
            label@ == "episode-entry-"@ + slug@,
    {
        let mut label = "episode-entry-".to_owned();
        label.append(slug.as_str());
        label
    }

    /// What a payload of an episode is called.
    pub fn episode_label(show: &ShowSlug, episode: &EpisodeId) -> (label: String)
        ensures
            label@ == "episode-"@ + show@ + "-"@ + episode@,
    {
        let mut label = "episode-".to_owned();
        label.append(show.as_str());
        label.append("-");
        label.append(episode.as_str());
        label
    }

    /// Set a payload aside that failed to parse at `now`.
    pub fn set_aside(&self, label: &str, reason: String, now: Timestamp) -> (aside: SetAside)
        ensures
            keeps(aside, *self, label@, reason@, now@),
    {
        SetAside { reason, path: self.quarantine.payload_path(label, now) }
    }

    /// Take what was read of a payload; one that did not parse is set
    /// aside as `label`.
    pub fn parse<T>(&self, parsed: Result<T, String>, label: &str, now: Timestamp) -> (taken:
        Result<T, SetAside>)
        ensures
            match (parsed, taken) {
                (Ok(payload), Ok(taken)) => taken == payload,
                (Err(reason), Err(aside)) => keeps(aside, *self, label@, reason@, now@),
                _ => false,
            },
    {
        match parsed {
            Ok(payload) => Ok(payload),
            Err(reason) => Err(self.set_aside(label, reason, now)),
        }
    }

    /// A show's metadata, from what was read of its payload.
    pub fn show(&self, slug: &ShowSlug, parsed: Result<Show, String>, now: Timestamp) -> (meta:
        Result<ShowMeta, SetAside>)
        ensures
            match (parsed, meta) {
                (Ok(show), Ok(meta)) => is_show_meta(meta, show, *slug),
                (Err(reason), Err(aside)) => keeps(
                    aside,
                    *self,
                    "show-"@ + slug@,
                    reason@,
                    now@,
                ),
                _ => false,
            },
    {
        let label = DifmProvider::show_label(slug);
        match self.parse(parsed, label.as_str(), now) {
            Ok(show) => Ok(show.into_meta(slug)),
            Err(aside) => Err(aside),
        }
    }

    /// The entries of a listing, from its payload. They are read one by one
    /// afterwards, so that one drifted episode sets aside that entry and not
    /// the whole listing.
    pub fn entries(&self, slug: &ShowSlug, payload: &str, now: Timestamp) -> (entries: Result<
        Vec<String>,
        SetAside,
    >)
        ensures
            match (json_entries(payload@), entries) {
                (Ok(listed), Ok(entries)) => crate::text::texts(entries@) == listed,
                (Err(reason), Err(aside)) => keeps(
                    aside,
                    *self,
                    "episodes-"@ + slug@,
                    reason,
                    now@,
                ),
                _ => false,
            },
    {
        let label = DifmProvider::episodes_label(slug);
        self.parse(read_entries(payload), label.as_str(), now)
    }

    /// Convert a listing entry by entry, so that one drifted entry costs
    /// that entry and not the poll, and put the rest newest first.
    pub fn episodes(entries: Vec<Result<Episode, String>>) -> (listing: Listing)
        ensures
            listing.rejected@.len() == entries@.len(),
            forall|i: int|
                0 <= i < entries@.len() ==> crate::text::opt_text(#[trigger] listing.rejected@[i])
                    == entry_fault(entries@[i]),
            exists|usable: Seq<EpisodeMeta>|
                #[trigger] are_usable(usable, entries@) && listing.episodes@
                    == crate::order::ranked(usable),
    {
        let ghost all = entries@;
        let mut rest = entries;
        let mut episodes: Vec<EpisodeMeta> = Vec::new();
        let mut rejected: Vec<Option<String>> = Vec::new();
        let ghost mut usable: Seq<EpisodeMeta> = Seq::empty();
        assert(all.skip(0) =~= all);
        assert(all.take(0) =~= Seq::empty());
        while rest.len() > 0
            invariant
                rejected@.len() <= all.len(),
                all == entries@,
                rest@ == all.skip(rejected@.len() as int),
                are_usable(usable, all.take(rejected@.len() as int)),
                episodes@ == crate::order::ranked(usable),
                forall|i: int|
                    0 <= i < rejected@.len() ==> crate::text::opt_text(#[trigger] rejected@[i])
                        == entry_fault(all[i]),
            decreases rest@.len(),
        {
            let ghost done = rejected@.len() as int;
            let entry = rest.remove(0);
            proof {
                assert(entry == all[done]);
                assert(rest@ =~= all.skip(done + 1));
                assert(all.take(done + 1).drop_last() =~= all.take(done));
                assert(all.take(done + 1).last() == entry);
            }
            match entry {
                Ok(episode) => match EpisodeMeta::try_from(episode) {
                    Ok(meta) => {
                        proof {
                            let before = usable;
                            usable = before.push(meta);
                            assert(usable.drop_last() =~= before);
                        }
                        insert_ranked(&mut episodes, meta);
                        rejected.push(None);
                    },
                    Err(error) => {
                        rejected.push(Some(error.to_string()));
                    },
                },
                Err(reason) => {
                    rejected.push(Some(reason));
                },
            }
        }
        assert(all.take(all.len() as int) =~= all);
        Listing { episodes, rejected }
    }

    /// What an episode's response means for its audio.
    pub fn resolve_audio(&self, episode: &EpisodeId, wire: &Episode) -> (source: Result<
        AudioSource,
        ProviderError,
    >)
        ensures
            match crate::v1::first_audio(wire.tracks@) {
                Some(url) => match playback_text(*self, url) {
                    Some(text) => source matches Ok(source) && source.url@ == text
                        && source.bytes is None && is_mime_of(source.mime, text),
                    None => source matches Err(ProviderError::Http(reason)) && reason@
                        == URL_TOO_LONG@,
                },
                None => source matches Err(ProviderError::NoAudioAsset { episode: e, hint }) && e
                    == *episode && hint@ == if self.api_key is Some {
                    HINT_WITH_API_KEY@
                } else {
                    HINT_WITHOUT_API_KEY@
                },
            },
    {
        let url = match wire.audio_url() {
            Some(url) => url,
            None => {
                let hint = if self.api_key.is_some() {
                    HINT_WITH_API_KEY.to_owned()
                } else {
                    HINT_WITHOUT_API_KEY.to_owned()
                };
                return Err(ProviderError::NoAudioAsset { episode: episode.clone(), hint });
            },
        };
        let authorized = authorizes_itself(&url);
        let playback = match &self.listen_key {
            Some(key) => {
                if authorized {
                    url
                } else {
                    proof {
                        let one = seq![("listen_key"@, key@)];
                        assert(one.drop_last() =~= Seq::empty());
                        assert(one.last() == ("listen_key"@, key@));
                        assert(with_query(Some(url@), one.drop_last()) == Some(url@));
                    }
                    match url.with_pair("listen_key", key.expose()) {
                        Some(longer) => longer,
                        None => {
                            return Err(ProviderError::Http(URL_TOO_LONG.to_owned()));
                        },
                    }
                }
            },
            None => url,
        };
        let mime = match mime_for(&playback) {
            Some(mime) => Some(AudioMime::from(mime)),
            None => None,
        };
        Ok(AudioSource { url: playback, mime, bytes: None })
    }
}

/// Whether `mime` is the MIME type that a URL's extension stands for.
pub open spec fn is_mime_of(mime: Option<AudioMime>, url: Seq<char>) -> bool {
    match crate::v1::extension_mime(
        crate::text::after_last(crate::weburl::url_path(url), '.'),
    ) {
        Some(text) => mime matches Some(mime) && crate::domain::mime_reads(mime, text),
        None => mime is None,
    }
}

fn authorizes_itself(url: &WebUrl) -> (authorized: bool)
    ensures
        authorized == is_authorized(url@),
{
    let pairs = url.query_pairs();
    let ghost all = crate::weburl::url_pairs(url@);
    let mut i: usize = 0;
    while i < pairs.len()
        invariant
            i <= pairs@.len(),
            all == crate::weburl::url_pairs(url@),
            all == crate::weburl::pair_texts(pairs@),
            forall|j: int| 0 <= j < i ==> !is_auth_param(#[trigger] all[j].0),
        decreases pairs@.len() - i,
    {
        let key = pairs[i].0.as_str();
        assert(all[i as int].0 == key@);
        if same_text(key, "listen_key") || same_text(key, "audio_token") || same_text(key, "auth") {
            assert(is_auth_param(crate::weburl::url_pairs(url@)[i as int].0));
            return true;
        }
        i += 1;
    }
    false
}

/// Without a path there is no endpoint.
proof fn lemma_no_path_no_endpoint(
    base: Seq<char>,
    segments: Seq<Seq<char>>,
    query: Seq<(Seq<char>, Seq<char>)>,
)
    requires
        with_path(base, segments) is None,
    ensures
        endpoint_text(base, segments, query) is None,
    decreases query.len(),
{
    if query.len() > 0 {
        lemma_no_path_no_endpoint(base, segments, query.drop_last());
    }
}

/// A query that grew too long stays too long.
proof fn lemma_query_failure_stays(
    text: Option<Seq<char>>,
    query: Seq<(Seq<char>, Seq<char>)>,
    n: int,
)
    requires
        0 <= n <= query.len(),
        with_query(text, query.take(n)) is None,
    ensures
        with_query(text, query) is None,
    decreases query.len(),
{
    if n < query.len() {
        assert(query.drop_last().take(n) =~= query.take(n));
        lemma_query_failure_stays(text, query.drop_last(), n);
    } else {
        assert(query.take(n) =~= query);
    }
}

/// A playback URL that authorises itself is handed on untouched: appending
/// anything would break its signature.
pub proof fn law_signed_urls_stay_untouched(provider: DifmProvider, url: Seq<char>)
    requires
        is_authorized(url),
    ensures
        playback_text(provider, url) == Some(url),
{
}

/// Factory registering [`DifmProvider`] under the name `difm`.
pub struct DifmFactory;

/// Why no provider can be built from a configuration; `None` when one can.
pub open spec fn create_fault(config: Config) -> Option<Seq<char>> {
    if !config.has_difm_key() {
        Some(
            crate::providers::provider_error_text(ProviderError::MissingCredentials("difm")),
        )
    } else if config.base_url is None && crate::config::url_fault(DEFAULT_BASE_URL@) is Some {
        Some("upstream request failed: "@ + crate::config::url_fault(DEFAULT_BASE_URL@)->0)
    } else {
        None
    }
}

/// Whether `provider` is the one a configuration asks for.
pub open spec fn created(provider: DifmProvider, config: Config) -> bool {
    &&& match config.base_url {
        Some(url) => provider.base_url@ == url@,
        None => crate::v1::url_at(DEFAULT_BASE_URL@) == Some(provider.base_url@),
    }
    &&& crate::config::opt_listen_key(provider.listen_key) == crate::config::opt_listen_key(
        config.listen_key,
    )
    &&& crate::config::opt_api_key(provider.api_key) == crate::config::opt_api_key(config.api_key)
    &&& provider.quarantine@ == crate::paths::joined_path(
        crate::paths::joined_path(config.data_dir@, "quarantine"@),
        "difm"@,
    )
    &&& provider.per_page == DEFAULT_PER_PAGE
}

impl DifmFactory {
    /// The registry name this factory answers to.
    pub fn name(&self) -> (name: &'static str)
        ensures
            name@ == "difm"@,
    {
        "difm"
    }

    /// Build the provider, failing if there is no credential at all.
    pub fn create(&self, config: &Config) -> (provider: Result<DifmProvider, ProviderError>)
        ensures
            match provider {
                Ok(provider) => create_fault(*config) is None && created(provider, *config),
                Err(error) => create_fault(*config) == Some(
                    crate::providers::provider_error_text(error),
                ),
            },
    {
        if config.difm_listen_key().is_none() && config.difm_api_key().is_none() {
            return Err(ProviderError::MissingCredentials("difm"));
        }
        let listen_key = match config.difm_listen_key() {
            Some(key) => Some(key.clone()),
            None => None,
        };
        let dir = join_path(config.data_dir(), "quarantine");
        let mut builder = DifmProvider::builder(listen_key).quarantine_dir(
            join_path(dir.as_str(), "difm"),
        );
        match config.difm_api_key() {
            Some(key) => {
                builder = builder.api_key(key.clone());
            },
            None => {},
        }
        match config.difm_base_url() {
            Some(url) => {
                builder = builder.base_url(url.clone());
            },
            None => {},
        }
        builder.build()
    }
}

/// A listing asks for its first page, of as many entries as the limit says,
/// or as the provider is set to without a limit.
pub proof fn law_listings_ask_for_one_page(provider: DifmProvider, limit: Option<u32>)
    ensures
        limit matches Some(n) ==> page_query(page_size(provider, limit)) == seq![
            ("page"@, "1"@),
            ("per_page"@, crate::text::decimal(n as nat)),
        ],
        limit is None ==> page_query(page_size(provider, limit)) == seq![
            ("page"@, "1"@),
            ("per_page"@, crate::text::decimal(provider.per_page as nat)),
        ],
{
}

/// A request for an episode carries the API key where there is one, the
/// listen key only without it, and never both.
pub proof fn law_one_key_is_sent(provider: DifmProvider)
    ensures
        key_query(provider).len() <= 1,
        provider.api_key matches Some(key) ==> key_query(provider) == seq![("api_key"@, key@)],
        provider.api_key is None ==> (provider.listen_key matches Some(key) ==> key_query(provider)
            == seq![("listen_key"@, key@)]),
        provider.api_key is None && provider.listen_key is None ==> key_query(provider).len() == 0,
{
}

/// A request goes to its segments below the base URL, with its pairs behind
/// those the base URL has.
pub proof fn law_requests_go_below_the_base(
    url: WebUrl,
    base: Seq<char>,
    segments: Seq<Seq<char>>,
    pair: (Seq<char>, Seq<char>),
)
    ensures
        is_endpoint(Ok(url), base, segments, Seq::empty()) ==> crate::weburl::url_extended(
            base,
            segments,
        ) == Some(url@) && crate::weburl::url_pairs(url@) == crate::weburl::url_pairs(base),
        is_endpoint(Ok(url), base, segments, seq![pair]) ==> (crate::weburl::url_extended(
            base,
            segments,
        ) matches Some(path) && url@ == crate::weburl::url_with_pair(path, pair.0, pair.1))
            && crate::weburl::url_pairs(url@) == crate::weburl::url_pairs(base).push(pair),
{
    assert(seq![pair].drop_last() =~= Seq::empty());
    assert(with_query(with_path(base, segments), seq![pair].drop_last()) == with_path(
        base,
        segments,
    ));
    assert(crate::weburl::url_pairs(base) + Seq::<(Seq<char>, Seq<char>)>::empty()
        =~= crate::weburl::url_pairs(base));
    assert(crate::weburl::url_pairs(base) + seq![pair] =~= crate::weburl::url_pairs(base).push(
        pair,
    ));
}

/// A playback URL that carries a listen key, an audio token or a signature
/// of its own is played as it is; a bare one gets the listen key, where there
/// is one, and nothing else.
pub proof fn law_bare_urls_get_the_listen_key(provider: DifmProvider, url: Seq<char>)
    ensures
        (exists|i: int|
            0 <= i < crate::weburl::url_pairs(url).len() && ((
            #[trigger] crate::weburl::url_pairs(url)[i]).0 == "listen_key"@
                || crate::weburl::url_pairs(url)[i].0 == "audio_token"@ || crate::weburl::url_pairs(
                url,
            )[i].0 == "auth"@)) ==> playback_text(provider, url) == Some(url),
        provider.listen_key is None ==> playback_text(provider, url) == Some(url),
        (forall|i: int|
            0 <= i < crate::weburl::url_pairs(url).len() ==> (#[trigger] crate::weburl::url_pairs(
                url,
            )[i]).0 != "listen_key"@ && crate::weburl::url_pairs(url)[i].0 != "audio_token"@
                && crate::weburl::url_pairs(url)[i].0 != "auth"@) ==> (
        provider.listen_key matches Some(key) ==> (crate::weburl::appended_len(
            url,
            "listen_key"@,
            key@,
        ) <= 0xffff_ffff ==> playback_text(provider, url) == Some(
            crate::weburl::url_with_pair(url, "listen_key"@, key@),
        ))),
{
    let pairs = crate::weburl::url_pairs(url);
    if exists|i: int|
        0 <= i < pairs.len() && ((#[trigger] pairs[i]).0 == "listen_key"@ || pairs[i].0
            == "audio_token"@ || pairs[i].0 == "auth"@) {
        let i = choose|i: int|
            0 <= i < pairs.len() && ((#[trigger] pairs[i]).0 == "listen_key"@ || pairs[i].0
                == "audio_token"@ || pairs[i].0 == "auth"@);
        assert(is_auth_param(pairs[i].0));
    }
    match provider.listen_key {
        Some(key) => {
            let query = seq![("listen_key"@, key@)];
            assert(query.drop_last() =~= Seq::empty());
            assert(with_query(Some(url), query.drop_last()) == Some(url));
        },
        None => {},
    }
}

/// The usable entries of a listing are those that are episodes and convert,
/// each converted, in their order; none is left out.
pub proof fn law_usable_entries_are_converted(
    episodes: Seq<EpisodeMeta>,
    entries: Seq<Result<Episode, String>>,
)
    requires
        are_usable(episodes, entries),
    ensures
        ({
            let fine = entries.filter(
                |e: Result<Episode, String>|
                    e is Ok && crate::v1::episode_wire_fault(e->Ok_0) is None,
            );
            &&& episodes.len() == fine.len()
            &&& forall|i: int|
                0 <= i < fine.len() ==> crate::v1::meta_reads(
                    #[trigger] episodes[i],
                    fine[i]->Ok_0,
                )
        }),
    decreases entries.len(),
{
    let usable = |e: Result<Episode, String>|
        e is Ok && crate::v1::episode_wire_fault(e->Ok_0) is None;
    reveal(Seq::filter);
    if entries.len() > 0 {
        let before = entries.drop_last();
        let fine = entries.filter(usable);
        if entry_fault(entries.last()) is Some {
            law_usable_entries_are_converted(episodes, before);
        } else {
            law_usable_entries_are_converted(episodes.drop_last(), before);
            assert(fine == before.filter(usable).push(entries.last()));
            assert forall|i: int| 0 <= i < fine.len() implies crate::v1::meta_reads(
                #[trigger] episodes[i],
                fine[i]->Ok_0,
            ) by {
                if i < fine.len() - 1 {
                    assert(episodes.drop_last()[i] == episodes[i]);
                    assert(fine[i] == before.filter(usable)[i]);
                } else {
                    assert(episodes[i] == episodes.last());
                }
            }
        }
    }
}

/// An entry is rejected for what is wrong with it: as it could not be read,
/// or as its episode does not convert.
pub proof fn law_rejected_entries(reason: String, episode: Episode)
    ensures
        entry_fault(Err(reason)) == Some(reason@),
        entry_fault(Ok(episode)) == crate::v1::episode_wire_fault(episode),
{
}

/// A listing is given newest first: of two entries the earlier one was
/// published no earlier, and undated ones come last.
pub proof fn law_listings_are_newest_first(episodes: Seq<EpisodeMeta>, i: int, j: int)
    requires
        0 <= i < j < episodes.len(),
    ensures
        ({
            let a = crate::order::ranked(episodes)[i];
            let b = crate::order::ranked(episodes)[j];
            &&& a.published_at is None ==> b.published_at is None
            &&& a.published_at is Some && b.published_at is Some ==> a.published_at->0@
                >= b.published_at->0@
        }),
{
    crate::order::law_order_holds_between_all(episodes, i, j);
}

/// A provider has what its builder was given, and otherwise the public API,
/// a quarantine of its own, and pages of twenty-five.
pub proof fn law_provider_settings(provider: DifmProvider, builder: DifmProviderBuilder)
    requires
        built(provider, builder),
    ensures
        builder.base_url matches Some(url) ==> provider.base_url@ == url@,
        builder.base_url is None ==> crate::weburl::url_parsed(
            "https://api.audioaddict.com/v1/di/"@,
        ) == Ok::<Seq<char>, Seq<char>>(provider.base_url@),
        provider.listen_key == builder.listen_key,
        provider.api_key == builder.api_key,
        builder.quarantine_dir matches Some(dir) ==> provider.quarantine@ == dir@,
        builder.quarantine_dir is None ==> provider.quarantine@ == "quarantine/difm"@,
        builder.per_page matches Some(n) ==> provider.per_page == n,
        builder.per_page is None ==> provider.per_page == 25,
{
}

/// A provider made from a configuration has its keys and its base URL, or
/// the public API, and a quarantine within the data directory.
pub proof fn law_configured_providers(provider: DifmProvider, config: Config)
    requires
        created(provider, config),
    ensures
        match config.base_url {
            Some(url) => provider.base_url@ == url@,
            None => crate::weburl::url_parsed("https://api.audioaddict.com/v1/di/"@) == Ok::<
                Seq<char>,
                Seq<char>,
            >(provider.base_url@),
        },
        match config.listen_key {
            Some(key) => provider.listen_key matches Some(own) && own@ == key@,
            None => provider.listen_key is None,
        },
        match config.api_key {
            Some(key) => provider.api_key matches Some(own) && own@ == key@,
            None => provider.api_key is None,
        },
        provider.quarantine@ == crate::paths::joined_path(
            crate::paths::joined_path(config.data_dir@, "quarantine"@),
            "difm"@,
        ),
        provider.per_page == 25,
{
}

/// A provider can be made exactly if there is a key and a base URL that
/// parses.
pub proof fn law_providers_need_a_key(config: Config)
    ensures
        create_fault(config) is None <==> (config.listen_key is Some || config.api_key is Some) && (
        config.base_url is Some || crate::config::url_fault(
            "https://api.audioaddict.com/v1/di/"@,
        ) is None),
{
}

/// The type of an audio source is that of its URL's extension, where that
/// has one.
pub proof fn law_sources_are_typed_by_their_path(
    mime: Option<AudioMime>,
    url: Seq<char>,
    stem: Seq<char>,
    extension: Seq<char>,
)
    requires
        is_mime_of(mime, url),
        crate::weburl::url_path(url) == stem + seq!['.'] + extension,
        forall|i: int| 0 <= i < extension.len() ==> #[trigger] extension[i] != '.',
    ensures
        extension == "mp3"@ ==> mime == Some(AudioMime::Mpeg),
        extension == "mp4"@ || extension == "m4a"@ ==> mime == Some(AudioMime::Mp4),
        extension == "aac"@ ==> mime == Some(AudioMime::Aac),
        extension == "ogg"@ || extension == "oga"@ ==> mime == Some(AudioMime::Ogg),
        !crate::v1::is_audio_extension(extension) ==> mime is None,
{
    crate::text::law_tails(stem, '.', extension);
    crate::v1::law_extension_types(extension);
    crate::domain::law_audio_types("audio/mpeg"@);
    crate::domain::law_audio_types("audio/mp4"@);
    crate::domain::law_audio_types("audio/aac"@);
    crate::domain::law_audio_types("audio/ogg"@);
}

/// A payload set aside is kept in the quarantine under its label, with the
/// reason why.
pub proof fn law_payloads_are_kept(
    aside: SetAside,
    provider: DifmProvider,
    label: Seq<char>,
    reason: Seq<char>,
    now: int,
)
    requires
        keeps(aside, provider, label, reason, now),
    ensures
        aside.reason@ == reason,
        aside.path@ == crate::paths::joined_path(
            provider.quarantine@,
            crate::timestamp::timestamp_formatted(now, "%Y%m%dT%H%M%S%.3fZ"@) + "-"@ + label
                + ".json"@,
        ),
{
}

/// A request fails for its URL only where there is none, and says whether
/// the base cannot hold a path or the URL grows too long.
pub proof fn law_requests_without_a_url(
    url: WebUrl,
    error: ProviderError,
    base: Seq<char>,
    segments: Seq<Seq<char>>,
    query: Seq<(Seq<char>, Seq<char>)>,
)
    requires
        is_endpoint(Err(error), base, segments, query),
    ensures
        !is_endpoint(Ok(url), base, segments, query),
        error matches ProviderError::Http(reason) && (reason@ == "base URL cannot hold a path"@
            || reason@ == "URLs more than 4 GB are not supported"@),
        crate::weburl::segments_fit(base, segments) && crate::weburl::url_extended(base, segments)
            is None ==> error->Http_0@ == "base URL cannot hold a path"@,
        !crate::weburl::segments_fit(base, segments) ==> error->Http_0@ == "URLs more than 4 GB are not supported"@,
{
}

/// What to do about missing audio is told by whether there is an API key.
pub proof fn law_hints()
    ensures
        HINT_WITH_API_KEY@
            == "the response held no audio asset despite an api_key; either the key is stale/wrong or the upstream schema drifted — run `splicefeed probe`"@,
        HINT_WITHOUT_API_KEY@
            == "no [auth.difm] api_key is configured, and the listen key alone does not unlock episode audio (confirmed 2026-07-11); set the member API key in the config or the DIFM_API_KEY env var"@,
{
}

} // verus!
