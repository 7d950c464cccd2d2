//! The wire format of the AudioAddict API, as tolerant as can be: unknown
//! fields are ignored, everything non-essential is optional, and the
//! conversion here is the only place that decides what is required.

use vstd::prelude::*;

use crate::domain::{EpisodeId, EpisodeMeta, ShowMeta, ShowSlug};
use crate::text::{cut_at_either, same_text, tail_after, without_prefix};
use crate::timestamp::Timestamp;
use crate::weburl::WebUrl;

verus! {

/// A show.
#[derive(Debug)]
pub struct Show {
    /// Upstream slug; the requested slug is authoritative.
    pub slug: Option<String>,
    /// Display name.
    pub name: Option<String>,
    /// Long-form description.
    pub description: Option<String>,
    /// Artwork variants.
    pub images: Images,
}

/// Artwork variants: protocol-relative URI templates.
#[derive(Debug)]
pub struct Images {
    /// The square cover.
    pub compact: Option<String>,
    /// The default image, a horizontal banner.
    pub default: Option<String>,
}

/// An episode.
#[derive(Debug)]
pub struct Episode {
    /// Episode slug, unique within the show.
    pub slug: Option<String>,
    /// Short name.
    pub name: Option<String>,
    /// Publication time, RFC 3339 with offset.
    pub start_at: Option<String>,
    /// Long-form description.
    pub description: Option<String>,
    /// Audio tracks.
    pub tracks: Vec<Track>,
}

/// One audio track of an episode.
#[derive(Debug)]
pub struct Track {
    /// Duration in seconds.
    pub length: Option<i64>,
    /// Human title, the best feed title.
    pub display_title: Option<String>,
    /// Playable content.
    pub content: Option<Content>,
    /// Unauthenticated this holds an image; only an audio extension makes
    /// it an audio source.
    pub asset_url: Option<String>,
}

/// Playable content attached to a track.
#[derive(Debug)]
pub struct Content {
    /// Candidate audio assets.
    pub assets: Option<Vec<Asset>>,
    /// A single URL instead of a list.
    pub url: Option<String>,
}

/// One candidate audio asset.
#[derive(Debug)]
pub struct Asset {
    /// Asset URL, typically protocol-relative.
    pub url: Option<String>,
}

impl Default for Images {
    fn default() -> (images: Images)
        ensures
            images.compact is None,
            images.default is None,
    {
        Images { compact: None, default: None }
    }
}

impl Default for Content {
    fn default() -> (content: Content)
        ensures
            content.assets is None,
            content.url is None,
    {
        Content { assets: None, url: None }
    }
}

/// Why a wire value could not become a domain value.
#[derive(Debug)]
pub enum WireError {
    /// A field the domain cannot do without was absent or empty.
    Missing(&'static str),
    /// A field was present but unusable.
    Invalid {
        /// The offending field.
        field: &'static str,
        /// What was wrong with it.
        reason: String,
    },
}

/// The message of a [`WireError`].
pub open spec fn wire_error_text(error: WireError) -> Seq<char> {
    match error {
        WireError::Missing(field) => "missing required field `"@ + field@ + "`"@,
        WireError::Invalid { field, reason } => "invalid field `"@ + field@ + "`: "@ + reason@,
    }
}

impl WireError {
    /// The message shown to people.
    pub fn to_string(&self) -> (text: String)
        ensures
            text@ == wire_error_text(*self),
    {
        match self {
            WireError::Missing(field) => {
                let mut text = "missing required field `".to_owned();
                text.append(field);
                text.append("`");
                text
            },
            WireError::Invalid { field, reason } => {
                let mut text = "invalid field `".to_owned();
                text.append(field);
                text.append("`: ");
                text.append(reason.as_str());
                text
            },
        }
    }
}

/// The URL a text parses to, when the library can hold it.
pub open spec fn url_at(text: Seq<char>) -> Option<Seq<char>> {
    match crate::weburl::url_parsed(text) {
        Ok(url) => if url.len() <= crate::weburl::MAX_URL_BYTES {
            Some(url)
        } else {
            None
        },
        Err(_) => None,
    }
}

/// A possibly protocol-relative URL made absolute with https.
pub open spec fn absolute_text(raw: Seq<char>) -> Seq<char> {
    if "//"@.is_prefix_of(raw) {
        "https://"@ + raw.skip("//"@.len() as int)
    } else {
        raw
    }
}

/// The absolute URL a wire text stands for, if any.
pub open spec fn normalized(raw: Seq<char>) -> Option<Seq<char>> {
    url_at(absolute_text(raw))
}

/// The absolute URL an image template stands for, its template stripped.
pub open spec fn normalized_image(raw: Option<String>) -> Option<Seq<char>> {
    match raw {
        Some(raw) => normalized(crate::text::up_to_either(raw@, '{', '{')),
        None => None,
    }
}

/// Make a wire URL absolute.
pub fn normalize_url(raw: &str) -> (url: Option<WebUrl>)
    ensures
        crate::weburl::opt_url(url) == normalized(raw@),
{
    let absolute = match without_prefix(raw, "//") {
        Some(rest) => {
            let mut text = "https://".to_owned();
            text.append(rest.as_str());
            text
        },
        None => raw.to_owned(),
    };
    match WebUrl::parse(absolute.as_str()) {
        Ok(url) => Some(url),
        Err(_) => None,
    }
}

/// Make an image template an absolute URL: strip the template, force https.
pub fn normalize_image_url(raw: &str) -> (url: Option<WebUrl>)
    ensures
        crate::weburl::opt_url(url) == normalized(crate::text::up_to_either(raw@, '{', '{')),
{
    let plain = cut_at_either(raw, '{', '{');
    normalize_url(plain.as_str())
}

fn normalize_opt_image(raw: &Option<String>) -> (url: Option<WebUrl>)
    ensures
        crate::weburl::opt_url(url) == normalized_image(*raw),
{
    match raw {
        Some(raw) => normalize_image_url(raw.as_str()),
        None => None,
    }
}

/// A text with the empty one taken as absent.
pub open spec fn filled(text: Option<String>) -> Option<Seq<char>> {
    match text {
        Some(text) => if text@.len() > 0 {
            Some(text@)
        } else {
            None
        },
        None => None,
    }
}

fn keep_filled(text: Option<String>) -> (kept: Option<String>)
    ensures
        crate::text::opt_text(kept) == filled(text),
{
    match text {
        Some(text) => {
            if crate::text::chars_of(text.as_str()).len() == 0 {
                None
            } else {
                Some(text)
            }
        },
        None => None,
    }
}

/// Whether `meta` is a show's metadata as domain metadata, asked for as
/// `requested`.
pub open spec fn is_show_meta(meta: ShowMeta, show: Show, requested: ShowSlug) -> bool {
    &&& meta.slug == requested
    &&& meta.title@ == match (show.name, show.slug) {
        (Some(name), _) => name@,
        (None, Some(slug)) => slug@,
        (None, None) => requested@,
    }
    &&& crate::text::opt_text(meta.description) == filled(show.description)
    &&& crate::weburl::opt_url(meta.artwork) == match normalized_image(show.images.compact) {
        Some(url) => Some(url),
        None => normalized_image(show.images.default),
    }
}

impl Show {
    /// Convert to domain metadata. The requested slug is the show's; it is
    /// also the title of a show without name and slug. The square cover
    /// beats the banner.
    pub fn into_meta(self, requested: &ShowSlug) -> (meta: ShowMeta)
        ensures
            is_show_meta(meta, self, *requested),
    {
        let artwork = match normalize_opt_image(&self.images.compact) {
            Some(url) => Some(url),
            None => normalize_opt_image(&self.images.default),
        };
        let title = match self.name {
            Some(name) => name,
            None => match self.slug {
                Some(slug) => slug,
                None => requested.to_string(),
            },
        };
        ShowMeta {
            slug: requested.clone(),
            title,
            description: keep_filled(self.description),
            artwork,
        }
    }
}

/// A track length as a duration: positive and within range.
pub open spec fn length_secs(length: Option<i64>) -> Option<u32> {
    match length {
        Some(length) => if 0 < length <= u32::MAX {
            Some(length as u32)
        } else {
            None
        },
        None => None,
    }
}

/// The title of an episode: its first track's, else its name, else its
/// slug.
pub open spec fn episode_title(episode: Episode) -> Seq<char> {
    if episode.tracks@.len() > 0 && episode.tracks@[0].display_title is Some {
        episode.tracks@[0].display_title->0@
    } else {
        match (episode.name, episode.slug) {
            (Some(name), _) => name@,
            (None, Some(slug)) => slug@,
            (None, None) => Seq::empty(),
        }
    }
}

/// Whether `error` is why an episode cannot be converted: its slug is
/// missing or empty, or else its publication time does not parse.
pub open spec fn episode_error_reads(error: WireError, episode: Episode) -> bool {
    if filled(episode.slug) is None {
        error matches WireError::Missing(field) && field@ == "slug"@
    } else {
        error matches WireError::Invalid { field, reason } && field@ == "start_at"@ && (
        episode.start_at matches Some(raw) && crate::timestamp::timestamp_parsed(raw@) == Err::<
            int,
            Seq<char>,
        >(reason@))
    }
}

/// Why an episode cannot be converted; `None` when it can.
pub open spec fn episode_wire_fault(episode: Episode) -> Option<Seq<char>> {
    if filled(episode.slug) is None {
        Some("missing required field `slug`"@)
    } else {
        match episode.start_at {
            Some(raw) => match crate::timestamp::timestamp_parsed(raw@) {
                Ok(_) => None,
                Err(reason) => Some("invalid field `start_at`: "@ + reason),
            },
            None => None,
        }
    }
}

/// Whether `meta` is what an episode without fault converts to.
pub open spec fn meta_reads(meta: EpisodeMeta, episode: Episode) -> bool {
    &&& Some(meta.id@) == filled(episode.slug)
    &&& meta.title@ == episode_title(episode)
    &&& crate::text::opt_text(meta.description) == filled(episode.description)
    &&& crate::timestamp::opt_instant(meta.published_at) == match episode.start_at {
        Some(raw) => Some(crate::timestamp::timestamp_parsed(raw@)->Ok_0),
        None => None,
    }
    &&& meta.duration_secs == if episode.tracks@.len() > 0 {
        length_secs(episode.tracks@[0].length)
    } else {
        None
    }
}

fn read_length(length: Option<i64>) -> (secs: Option<u32>)
    ensures
        secs == length_secs(length),
{
    match length {
        Some(length) => if 0 < length && length <= u32::MAX as i64 {
            Some(length as u32)
        } else {
            None
        },
        None => None,
    }
}

impl EpisodeMeta {
    /// Convert a wire episode. It needs a slug, and a publication time that
    /// is present must parse.
    pub fn try_from(episode: Episode) -> (meta: Result<EpisodeMeta, WireError>)
        ensures
            match meta {
                Ok(meta) => episode_wire_fault(episode) is None && meta_reads(meta, episode),
                Err(error) => episode_wire_fault(episode) == Some(wire_error_text(error))
                    && episode_error_reads(error, episode),
            },
    {
        proof {
            reveal_strlit("missing required field `");
            reveal_strlit("slug");
            reveal_strlit("`");
            reveal_strlit("missing required field `slug`");
            assert("missing required field `"@ + "slug"@ + "`"@
                =~= "missing required field `slug`"@);
            reveal_strlit("invalid field `");
            reveal_strlit("start_at");
            reveal_strlit("`: ");
            reveal_strlit("invalid field `start_at`: ");
            assert("invalid field `"@ + "start_at"@ + "`: "@ =~= "invalid field `start_at`: "@);
        }
        let slug = match &episode.slug {
            Some(slug) => slug.as_str(),
            None => {
                return Err(WireError::Missing("slug"));
            },
        };
        let id = match EpisodeId::parse(slug) {
            Ok(id) => id,
            Err(_) => {
                return Err(WireError::Missing("slug"));
            },
        };
        let published_at = match &episode.start_at {
            Some(raw) => match Timestamp::parse(raw.as_str()) {
                Ok(at) => Some(at),
                Err(reason) => {
                    return Err(WireError::Invalid { field: "start_at", reason });
                },
            },
            None => None,
        };
        let track_title = if episode.tracks.len() > 0 {
            crate::text::copy_opt(&episode.tracks[0].display_title)
        } else {
            None
        };
        let duration_secs = if episode.tracks.len() > 0 {
            read_length(episode.tracks[0].length)
        } else {
            None
        };
        let title = match track_title {
            Some(title) => title,
            None => match &episode.name {
                Some(name) => name.clone(),
                None => slug.to_owned(),
            },
        };
        Ok(
            EpisodeMeta {
                id,
                title,
                description: keep_filled(episode.description),
                published_at,
                duration_secs,
            },
        )
    }
}

/// The extensions that mark audio.
pub open spec fn is_audio_extension(extension: Seq<char>) -> bool {
    ||| extension == "mp3"@
    ||| extension == "mp4"@
    ||| extension == "m4a"@
    ||| extension == "aac"@
    ||| extension == "ogg"@
    ||| extension == "oga"@
}

/// Whether the path of a wire URL ends in an audio extension.
pub open spec fn looks_like_audio(raw: Seq<char>) -> bool {
    is_audio_extension(
        crate::text::after_last(crate::text::up_to_either(raw, '?', '#'), '.'),
    )
}

/// Whether the path of a wire URL ends in an audio extension.
pub fn has_audio_extension(raw: &str) -> (audio: bool)
    ensures
        audio == looks_like_audio(raw@),
{
    let path = cut_at_either(raw, '?', '#');
    let extension = tail_after(path.as_str(), '.');
    let e = extension.as_str();
    same_text(e, "mp3") || same_text(e, "mp4") || same_text(e, "m4a") || same_text(e, "aac")
        || same_text(e, "ogg") || same_text(e, "oga")
}

/// The MIME type an extension stands for.
pub open spec fn extension_mime(extension: Seq<char>) -> Option<Seq<char>> {
    if extension == "mp3"@ {
        Some("audio/mpeg"@)
    } else if extension == "mp4"@ || extension == "m4a"@ {
        Some("audio/mp4"@)
    } else if extension == "aac"@ {
        Some("audio/aac"@)
    } else if extension == "ogg"@ || extension == "oga"@ {
        Some("audio/ogg"@)
    } else {
        None
    }
}

/// MIME type for an audio URL, judged by its path's extension.
pub fn mime_for(url: &WebUrl) -> (mime: Option<&'static str>)
    ensures
        match mime {
            Some(mime) => extension_mime(
                crate::text::after_last(crate::weburl::url_path(url@), '.'),
            ) == Some(mime@),
            None => extension_mime(
                crate::text::after_last(crate::weburl::url_path(url@), '.'),
            ) is None,
        },
{
    let extension = tail_after(url.path().as_str(), '.');
    let e = extension.as_str();
    if same_text(e, "mp3") {
        Some("audio/mpeg")
    } else if same_text(e, "mp4") || same_text(e, "m4a") {
        Some("audio/mp4")
    } else if same_text(e, "aac") {
        Some("audio/aac")
    } else if same_text(e, "ogg") || same_text(e, "oga") {
        Some("audio/ogg")
    } else {
        None
    }
}

/// The extensions that mark audio are those with a MIME type.
pub proof fn law_audio_extensions_have_mime(extension: Seq<char>)
    ensures
        is_audio_extension(extension) <==> extension_mime(extension) is Some,
{
}

/// The URL of the first asset that has one.
pub open spec fn first_asset(assets: Seq<Asset>) -> Option<Seq<char>>
    decreases assets.len(),
{
    if assets.len() == 0 {
        None
    } else if assets[0].url is Some {
        Some(assets[0].url->0@)
    } else {
        first_asset(assets.drop_first())
    }
}

/// The URL a track's content names: its first asset's, else its own.
pub open spec fn content_url(content: Content) -> Option<Seq<char>> {
    let from_assets = match content.assets {
        Some(assets) => first_asset(assets@),
        None => None,
    };
    match from_assets {
        Some(url) => Some(url),
        None => crate::text::opt_text(content.url),
    }
}

/// The audio URL of a track: what its content names, and otherwise its
/// asset URL when that looks like audio.
pub open spec fn track_audio(track: Track) -> Option<Seq<char>> {
    let from_content = match track.content {
        Some(content) => match content_url(content) {
            Some(raw) => normalized(raw),
            None => None,
        },
        None => None,
    };
    match from_content {
        Some(url) => Some(url),
        None => match track.asset_url {
            Some(raw) => if looks_like_audio(raw@) {
                normalized(raw@)
            } else {
                None
            },
            None => None,
        },
    }
}

/// The audio URL of the first track that has one.
pub open spec fn first_audio(tracks: Seq<Track>) -> Option<Seq<char>>
    decreases tracks.len(),
{
    if tracks.len() == 0 {
        None
    } else if track_audio(tracks[0]) is Some {
        track_audio(tracks[0])
    } else {
        first_audio(tracks.drop_first())
    }
}

fn first_asset_url(assets: &Vec<Asset>) -> (url: Option<String>)
    ensures
        crate::text::opt_text(url) == first_asset(assets@),
{
    let mut i: usize = 0;
    assert(assets@.skip(0) =~= assets@);
    while i < assets.len()
        invariant
            i <= assets@.len(),
            first_asset(assets@) == first_asset(assets@.skip(i as int)),
        decreases assets@.len() - i,
    {
        proof {
            assert(assets@.skip(i as int)[0] == assets@[i as int]);
            assert(assets@.skip(i as int).drop_first() =~= assets@.skip(i + 1));
        }
        match &assets[i].url {
            Some(url) => {
                return Some(url.clone());
            },
            None => {},
        }
        i += 1;
    }
    None
}

fn track_audio_url(track: &Track) -> (url: Option<WebUrl>)
    ensures
        crate::weburl::opt_url(url) == track_audio(*track),
{
    let raw = match &track.content {
        Some(content) => {
            let from_assets = match &content.assets {
                Some(assets) => first_asset_url(assets),
                None => None,
            };
            match from_assets {
                Some(url) => Some(url),
                None => crate::text::copy_opt(&content.url),
            }
        },
        None => None,
    };
    let from_content = match &raw {
        Some(raw) => normalize_url(raw.as_str()),
        None => None,
    };
    if from_content.is_some() {
        return from_content;
    }
    match &track.asset_url {
        Some(raw) => {
            if has_audio_extension(raw.as_str()) {
                normalize_url(raw.as_str())
            } else {
                None
            }
        },
        None => None,
    }
}

impl Episode {
    /// The first plausible audio URL in this episode's tracks, made
    /// absolute.
    pub fn audio_url(&self) -> (url: Option<WebUrl>)
        ensures
            crate::weburl::opt_url(url) == first_audio(self.tracks@),
    {
        let mut i: usize = 0;
        assert(self.tracks@.skip(0) =~= self.tracks@);
        while i < self.tracks.len()
            invariant
                i <= self.tracks@.len(),
                first_audio(self.tracks@) == first_audio(self.tracks@.skip(i as int)),
            decreases self.tracks@.len() - i,
        {
            proof {
                assert(self.tracks@.skip(i as int)[0] == self.tracks@[i as int]);
                assert(self.tracks@.skip(i as int).drop_first() =~= self.tracks@.skip(i + 1));
            }
            let url = track_audio_url(&self.tracks[i]);
            if url.is_some() {
                return url;
            }
            i += 1;
        }
        None
    }
}

/// The title of an episode is the one people know it by: its first track's
/// display title wherever there is one, its own name only without one, and
/// its slug only without either.
pub proof fn law_display_titles_come_first(meta: EpisodeMeta, episode: Episode)
    requires
        meta_reads(meta, episode),
    ensures
        episode.tracks@.len() > 0 ==> (episode.tracks@[0].display_title matches Some(title)
            ==> meta.title@ == title@),
        episode.tracks@.len() == 0 || episode.tracks@[0].display_title is None ==> {
            &&& episode.name matches Some(name) ==> meta.title@ == name@
            &&& episode.name is None ==> (episode.slug matches Some(slug) && meta.title@ == slug@)
        },
{
}

/// An episode keeps its slug as its id, its notes unless they are empty, its
/// publication time, and the length of its first track where that is a
/// duration.
pub proof fn law_episode_fields_carry_over(meta: EpisodeMeta, episode: Episode)
    requires
        meta_reads(meta, episode),
    ensures
        episode.slug matches Some(slug) && slug@ == meta.id@ && slug@.len() > 0,
        match meta.description {
            Some(notes) => notes@.len() > 0 && (episode.description matches Some(given) && given@
                == notes@),
            None => episode.description matches Some(given) ==> given@.len() == 0,
        },
        match meta.published_at {
            Some(at) => episode.start_at matches Some(raw) && (
            crate::timestamp::timestamp_parsed(raw@) matches Ok(instant) ==> instant == at@),
            None => episode.start_at is None,
        },
        match meta.duration_secs {
            Some(secs) => secs > 0 && episode.tracks@.len() > 0 && episode.tracks@[0].length
                == Some(secs as i64),
            None => episode.tracks@.len() > 0 ==> (episode.tracks@[0].length matches Some(length)
                ==> length <= 0 || length > u32::MAX),
        },
{
}

/// An episode converts exactly if it has a slug that is not empty and its
/// publication time, where there is one, parses.
pub proof fn law_episodes_need_a_slug_and_a_readable_time(episode: Episode)
    ensures
        episode_wire_fault(episode) is None <==> {
            &&& episode.slug matches Some(slug) && slug@.len() > 0
            &&& episode.start_at matches Some(raw) ==> crate::timestamp::timestamp_parsed(
                raw@,
            ) is Ok
        },
{
}

/// A show is titled by its name, else by its slug, else by what it was asked
/// for as; its slug is always the one it was asked for as; its square cover
/// comes before its banner; and empty notes are none.
pub proof fn law_show_fields_carry_over(meta: ShowMeta, show: Show, requested: ShowSlug)
    requires
        is_show_meta(meta, show, requested),
    ensures
        meta.slug@ == requested@,
        show.name matches Some(name) ==> meta.title@ == name@,
        show.name is None ==> (show.slug matches Some(slug) ==> meta.title@ == slug@),
        show.name is None && show.slug is None ==> meta.title@ == requested@,
        match meta.description {
            Some(notes) => notes@.len() > 0 && (show.description matches Some(given) && given@
                == notes@),
            None => show.description matches Some(given) ==> given@.len() == 0,
        },
        normalized_image(show.images.compact) matches Some(cover) ==> (
        meta.artwork matches Some(url) && url@ == cover),
        normalized_image(show.images.compact) is None ==> match meta.artwork {
            Some(url) => normalized_image(show.images.default) == Some(url@),
            None => normalized_image(show.images.default) is None,
        },
{
}

/// A protocol-relative URL gets https in front of it, and any other text
/// stands for itself.
pub proof fn law_wire_urls_become_absolute(host: Seq<char>, raw: Seq<char>)
    ensures
        absolute_text("//"@ + host) == "https://"@ + host,
        raw.len() < 2 || raw[0] != '/' || raw[1] != '/' ==> absolute_text(raw) == raw,
        normalized(raw) matches Some(url) ==> crate::weburl::url_parsed(absolute_text(raw)) == Ok::<
            Seq<char>,
            Seq<char>,
        >(url),
        normalized(raw) is None ==> (crate::weburl::url_parsed(absolute_text(raw)) matches Ok(url)
            ==> url.len() > crate::weburl::MAX_URL_BYTES),
{
    reveal_strlit("//");
    let slashes = "//"@ + host;
    assert("//"@ =~= slashes.subrange(0, "//"@.len() as int));
    assert(slashes.skip("//"@.len() as int) =~= host);
    if "//"@.is_prefix_of(raw) {
        assert("//"@[0] == raw.subrange(0, 2)[0] && "//"@[1] == raw.subrange(0, 2)[1]);
    }
}

/// Of an image template only what stands before its first brace counts.
pub proof fn law_image_templates_are_stripped(plain: String, template: String, rest: Seq<char>)
    requires
        forall|i: int| 0 <= i < plain@.len() ==> #[trigger] plain@[i] != '{',
        template@ == plain@ + seq!['{'] + rest,
    ensures
        normalized_image(Some(template)) == normalized(plain@),
        normalized_image(Some(plain)) == normalized(plain@),
{
    crate::text::law_cutting(plain@, '{', '{', seq!['{'] + rest);
    crate::text::law_cutting(plain@, '{', '{', Seq::empty());
    assert(plain@ + Seq::<char>::empty() =~= plain@);
    assert(plain@ + seq!['{'] + rest =~= plain@ + (seq!['{'] + rest));
}

/// The audio of an episode is that of the first track that has any.
pub proof fn law_the_first_playable_track_counts(tracks: Seq<Track>)
    ensures
        match first_audio(tracks) {
            Some(url) => exists|i: int|
                0 <= i < tracks.len() && #[trigger] track_audio(tracks[i]) == Some(url) && (forall|
                    j: int,
                |
                    0 <= j < i ==> track_audio(#[trigger] tracks[j]) is None),
            None => forall|j: int|
                0 <= j < tracks.len() ==> track_audio(#[trigger] tracks[j]) is None,
        },
    decreases tracks.len(),
{
    if tracks.len() > 0 {
        let rest = tracks.drop_first();
        if track_audio(tracks[0]) is None {
            law_the_first_playable_track_counts(rest);
            match first_audio(rest) {
                Some(url) => {
                    let i = choose|i: int|
                        0 <= i < rest.len() && #[trigger] track_audio(rest[i]) == Some(url) && (
                        forall|j: int| 0 <= j < i ==> track_audio(#[trigger] rest[j]) is None);
                    assert(tracks[i + 1] == rest[i]);
                    assert(track_audio(tracks[i + 1]) == Some(url));
                    assert forall|j: int| 0 <= j < i + 1 implies track_audio(
                        #[trigger] tracks[j],
                    ) is None by {
                        if j > 0 {
                            assert(rest[j - 1] == tracks[j]);
                        }
                    }
                },
                None => {
                    assert forall|j: int| 0 <= j < tracks.len() implies track_audio(
                        #[trigger] tracks[j],
                    ) is None by {
                        if j > 0 {
                            assert(rest[j - 1] == tracks[j]);
                        }
                    }
                },
            }
        } else {
            assert(track_audio(tracks[0]) == first_audio(tracks));
        }
    }
}

/// The first asset that has a URL names a track's content; without one the
/// content's own URL does.
pub proof fn law_the_first_asset_counts(assets: Seq<Asset>, content: Content)
    requires
        content.assets matches Some(list) && list@ == assets,
    ensures
        (forall|j: int| 0 <= j < assets.len() ==> (#[trigger] assets[j]).url is None)
            ==> content_url(content) == crate::text::opt_text(content.url),
        forall|i: int|
            0 <= i < assets.len() && (#[trigger] assets[i]).url is Some && (forall|j: int|
                0 <= j < i ==> (#[trigger] assets[j]).url is None) ==> content_url(content) == Some(
                assets[i].url->0@,
            ),
{
    lemma_first_asset(assets);
}

proof fn lemma_first_asset(assets: Seq<Asset>)
    ensures
        (forall|j: int| 0 <= j < assets.len() ==> (#[trigger] assets[j]).url is None)
            ==> first_asset(assets) is None,
        forall|i: int|
            0 <= i < assets.len() && (#[trigger] assets[i]).url is Some && (forall|j: int|
                0 <= j < i ==> (#[trigger] assets[j]).url is None) ==> first_asset(assets) == Some(
                assets[i].url->0@,
            ),
    decreases assets.len(),
{
    if assets.len() > 0 {
        let rest = assets.drop_first();
        lemma_first_asset(rest);
        assert forall|i: int|
            0 <= i < assets.len() && (#[trigger] assets[i]).url is Some && (forall|j: int|
                0 <= j < i ==> (#[trigger] assets[j]).url is None) implies first_asset(assets)
            == Some(assets[i].url->0@) by {
            if i > 0 {
                assert(assets[0].url is None);
                assert(rest[i - 1] == assets[i]);
                assert forall|j: int| 0 <= j < i - 1 implies (#[trigger] rest[j]).url is None by {
                    assert(rest[j] == assets[j + 1]);
                }
            }
        }
        if forall|j: int| 0 <= j < assets.len() ==> (#[trigger] assets[j]).url is None {
            assert(assets[0].url is None);
            assert forall|j: int| 0 <= j < rest.len() implies (#[trigger] rest[j]).url is None by {
                assert(rest[j] == assets[j + 1]);
            }
        }
    }
}

/// What a track's content names is played where it is a URL; otherwise the
/// track's asset is, where it is one and looks like audio.
pub proof fn law_content_comes_before_the_asset(track: Track)
    ensures
        track.content matches Some(content) ==> (content_url(content) matches Some(raw) ==> (
        normalized(raw) matches Some(url) ==> track_audio(track) == Some(url))),
        track.content is None || content_url(track.content->0) is None || normalized(
            content_url(track.content->0)->0,
        ) is None ==> match track.asset_url {
            Some(raw) => track_audio(track) == if looks_like_audio(raw@) {
                normalized(raw@)
            } else {
                None
            },
            None => track_audio(track) is None,
        },
{
}

/// Whether a URL looks like audio is up to the extension of its path: what
/// stands behind the last dot, before any query or fragment.
pub proof fn law_audio_is_told_by_the_extension(
    stem: Seq<char>,
    extension: Seq<char>,
    rest: Seq<char>,
)
    requires
        forall|i: int| 0 <= i < stem.len() ==> #[trigger] stem[i] != '?' && stem[i] != '#',
        forall|i: int|
            0 <= i < extension.len() ==> #[trigger] extension[i] != '?' && extension[i] != '#'
                && extension[i] != '.',
        rest.len() > 0 ==> rest[0] == '?' || rest[0] == '#',
    ensures
        looks_like_audio(stem + seq!['.'] + extension + rest) <==> extension == "mp3"@ || extension
            == "mp4"@ || extension == "m4a"@ || extension == "aac"@ || extension == "ogg"@
            || extension == "oga"@,
{
    let path = stem + seq!['.'] + extension;
    assert forall|i: int| 0 <= i < path.len() implies #[trigger] path[i] != '?' && path[i]
        != '#' by {
        if i < stem.len() {
            assert(path[i] == stem[i]);
        } else if i > stem.len() {
            assert(path[i] == extension[i - stem.len() - 1]);
        }
    }
    crate::text::law_cutting(path, '?', '#', rest);
    crate::text::law_tails(stem, '.', extension);
}

/// Each audio extension has its type: mp3 is MPEG, mp4 and m4a are MP4, aac
/// is AAC, ogg and oga are Ogg.
pub proof fn law_extension_types(extension: Seq<char>)
    ensures
        extension_mime(extension) == Some("audio/mpeg"@) <==> extension == "mp3"@,
        extension_mime(extension) == Some("audio/mp4"@) <==> extension == "mp4"@ || extension
            == "m4a"@,
        extension_mime(extension) == Some("audio/aac"@) <==> extension == "aac"@,
        extension_mime(extension) == Some("audio/ogg"@) <==> extension == "ogg"@ || extension
            == "oga"@,
{
    reveal_strlit("audio/mpeg");
    reveal_strlit("audio/mp4");
    reveal_strlit("audio/aac");
    reveal_strlit("audio/ogg");
    assert("audio/mpeg"@.len() == 10 && "audio/mp4"@.len() == 9 && "audio/aac"@.len() == 9);
    assert("audio/ogg"@.len() == 9);
    assert("audio/mp4"@[6] == 'm' && "audio/aac"@[6] == 'a' && "audio/ogg"@[6] == 'o');
    reveal_strlit("mp3");
    reveal_strlit("mp4");
    reveal_strlit("m4a");
    reveal_strlit("aac");
    reveal_strlit("ogg");
    reveal_strlit("oga");
    assert("mp3"@[2] == '3' && "mp4"@[2] == '4' && "m4a"@[1] == '4' && "aac"@[0] == 'a');
    assert("mp3"@[1] == 'p' && "mp4"@[1] == 'p' && "mp3"@[0] == 'm' && "mp4"@[0] == 'm');
    assert("m4a"@[0] == 'm' && "ogg"@[0] == 'o' && "oga"@[0] == 'o');
}

/// What is said of an entry that cannot be used: which field, and why.
pub proof fn law_wire_errors_say_why(error: WireError)
    ensures
        error matches WireError::Missing(field) ==> wire_error_text(error)
            == "missing required field `"@ + field@ + "`"@,
        error matches WireError::Invalid { field, reason } ==> wire_error_text(error)
            == "invalid field `"@ + field@ + "`: "@ + reason@,
{
}

/// An episode without a usable slug lacks its slug, whatever else is wrong;
/// any other that cannot be used has a start time that cannot be read, and
/// the error says what the calendar said.
pub proof fn law_unusable_episodes_say_why(error: WireError, episode: Episode)
    requires
        episode_error_reads(error, episode),
    ensures
        episode.slug is None ==> error is Missing,
        episode.slug matches Some(slug) ==> slug@.len() == 0 ==> error is Missing,
        error matches WireError::Missing(field) ==> field@ == "slug"@,
        error matches WireError::Invalid { field, reason } ==> field@ == "start_at"@
            && episode.start_at is Some && crate::timestamp::timestamp_parsed(
            episode.start_at->0@,
        ) == Err::<int, Seq<char>>(reason@),
{
}

} // verus!
