//! The library's state: shows, episodes, and the episode lifecycle.
//!
//! Lifecycle transitions are enforced here; an illegal one is an error that
//! leaves the state as it was. Pruned rows are kept as tombstones so a
//! pruned episode is never discovered again as new.

use vstd::prelude::*;

use crate::digest::Digest;
use crate::domain::{
    legal_step, AudioMime, EpisodeId, EpisodeMeta, EpisodeState, ErrorClass, ShowMeta,
    ShowSlug,
};
use crate::order::{insert_ranked, ranked, Ranked};
use crate::text::{copy_opt, opt_text, sorts_before, text_before};
use crate::timestamp::{opt_instant, Timestamp};

verus! {

/// Largest byte count the database can hold.
pub const MAX_STORED_BYTES: u64 = 0x7fff_ffff_ffff_ffff;

/// How long a download may report no progress before it counts as
/// abandoned, in nanoseconds.
pub const STALE_AFTER_NANOS: i128 = 600_000_000_000;

/// Errors surfaced by [`Storage`] operations.
#[derive(Debug)]
pub enum StorageError {
    /// The data directory could not be created or accessed.
    DataDir {
        /// The directory that failed.
        path: String,
        /// What the system said.
        reason: String,
    },
    /// The database rejected an operation.
    Sqlite(String),
    /// A stored value no longer parses as its domain type.
    Corrupt {
        /// Table holding the bad row.
        table: &'static str,
        /// What failed to parse.
        reason: String,
    },
    /// The caller asked for a transition the lifecycle forbids.
    IllegalTransition {
        /// The show.
        show: ShowSlug,
        /// The episode.
        episode: EpisodeId,
        /// State recorded in storage.
        from: EpisodeState,
        /// State the caller asked for.
        to: EpisodeState,
    },
    /// The episode is not in storage at all.
    EpisodeNotFound {
        /// The show.
        show: ShowSlug,
        /// The episode.
        episode: EpisodeId,
    },
    /// The storage task did not complete.
    TaskFailed,
}

/// A show row.
#[derive(Debug)]
pub struct ShowRecord {
    /// The show's slug.
    pub slug: ShowSlug,
    /// Registry name of the provider serving it.
    pub provider: String,
    /// Title as reported by the provider.
    pub title: String,
    /// Provider description, if any.
    pub description: Option<String>,
    /// Cached artwork file, if fetched.
    pub artwork_path: Option<String>,
    /// When the show was last polled, if ever.
    pub last_poll_at: Option<Timestamp>,
    /// Whether the last poll succeeded.
    pub last_poll_ok: Option<bool>,
    /// Error message of the last failed poll, cleared on success.
    pub last_error: Option<String>,
    /// Validator of the last episode listing, if upstream sent one.
    pub episodes_etag: Option<String>,
}

/// An episode row.
#[derive(Debug)]
pub struct EpisodeRecord {
    /// The show this episode belongs to.
    pub show: ShowSlug,
    /// Provider-assigned identifier.
    pub id: EpisodeId,
    /// Episode title.
    pub title: String,
    /// Episode description, if any.
    pub description: Option<String>,
    /// Publication time, if the provider supplied one.
    pub published_at: Option<Timestamp>,
    /// Duration in seconds, from the provider or probed from the file.
    pub duration_secs: Option<u32>,
    /// Lifecycle state.
    pub state: EpisodeState,
    /// Audio file on disk while `Cached`; `None` otherwise.
    pub file_path: Option<String>,
    /// Size of the downloaded file in bytes.
    pub bytes: Option<u64>,
    /// blake3 digest of the downloaded file.
    pub blake3: Option<Digest>,
    /// MIME type of the audio.
    pub mime: Option<AudioMime>,
    /// When this episode was first seen.
    pub discovered_at: Timestamp,
    /// When the download last completed.
    pub downloaded_at: Option<Timestamp>,
    /// Bytes received so far, while `Downloading`.
    pub bytes_done: Option<u64>,
    /// Expected total bytes, while `Downloading`.
    pub bytes_total: Option<u64>,
    /// When progress was last reported.
    pub progress_at: Option<Timestamp>,
}

/// Everything recorded about a finished download.
#[derive(Debug)]
pub struct CachedFile {
    /// Where the audio landed.
    pub file_path: String,
    /// Verified size in bytes.
    pub bytes: u64,
    /// blake3 digest computed while streaming.
    pub blake3: Digest,
    /// MIME type, if known.
    pub mime: Option<AudioMime>,
    /// Duration probed from the file, used when the provider gave none.
    pub duration_secs: Option<u32>,
}

/// A show row as a mathematical value.
pub struct ShowRow {
    /// Slug.
    pub slug: Seq<char>,
    /// Provider name.
    pub provider: Seq<char>,
    /// Title.
    pub title: Seq<char>,
    /// Description.
    pub description: Option<Seq<char>>,
    /// Artwork file.
    pub artwork_path: Option<Seq<char>>,
    /// Last poll, in nanoseconds since the epoch.
    pub last_poll_at: Option<int>,
    /// Last poll's outcome.
    pub last_poll_ok: Option<bool>,
    /// Last poll's error.
    pub last_error: Option<Seq<char>>,
    /// Listing validator.
    pub episodes_etag: Option<Seq<char>>,
}

/// An episode row as a mathematical value.
pub struct EpisodeRow {
    /// Show slug.
    pub show: Seq<char>,
    /// Episode id.
    pub id: Seq<char>,
    /// Title.
    pub title: Seq<char>,
    /// Description.
    pub description: Option<Seq<char>>,
    /// Publication, in nanoseconds since the epoch.
    pub published_at: Option<int>,
    /// Duration.
    pub duration_secs: Option<u32>,
    /// Lifecycle state.
    pub state: EpisodeState,
    /// File path.
    pub file_path: Option<Seq<char>>,
    /// File size.
    pub bytes: Option<u64>,
    /// File digest.
    pub blake3: Option<Seq<char>>,
    /// MIME type's text.
    pub mime: Option<crate::domain::MimeModel>,
    /// First seen, in nanoseconds since the epoch.
    pub discovered_at: int,
    /// Download completed.
    pub downloaded_at: Option<int>,
    /// Bytes received so far.
    pub bytes_done: Option<u64>,
    /// Bytes expected.
    pub bytes_total: Option<u64>,
    /// Last progress.
    pub progress_at: Option<int>,
}

/// The whole state as a mathematical value.
pub struct StorageModel {
    /// Show rows, in insertion order.
    pub shows: Seq<ShowRow>,
    /// Episode rows, in insertion order.
    pub episodes: Seq<EpisodeRow>,
}

/// The text of an optional digest.
pub open spec fn opt_digest(digest: Option<Digest>) -> Option<Seq<char>> {
    match digest {
        Some(digest) => Some(digest@),
        None => None,
    }
}

/// The text of an optional MIME type.
pub open spec fn opt_mime(mime: Option<AudioMime>) -> Option<crate::domain::MimeModel> {
    match mime {
        Some(mime) => Some(mime@),
        None => None,
    }
}

impl View for ShowRecord {
    type V = ShowRow;

    open spec fn view(&self) -> ShowRow {
        ShowRow {
            slug: self.slug@,
            provider: self.provider@,
            title: self.title@,
            description: opt_text(self.description),
            artwork_path: opt_text(self.artwork_path),
            last_poll_at: opt_instant(self.last_poll_at),
            last_poll_ok: self.last_poll_ok,
            last_error: opt_text(self.last_error),
            episodes_etag: opt_text(self.episodes_etag),
        }
    }
}

impl View for EpisodeRecord {
    type V = EpisodeRow;

    open spec fn view(&self) -> EpisodeRow {
        EpisodeRow {
            show: self.show@,
            id: self.id@,
            title: self.title@,
            description: opt_text(self.description),
            published_at: opt_instant(self.published_at),
            duration_secs: self.duration_secs,
            state: self.state,
            file_path: opt_text(self.file_path),
            bytes: self.bytes,
            blake3: opt_digest(self.blake3),
            mime: opt_mime(self.mime),
            discovered_at: self.discovered_at@,
            downloaded_at: opt_instant(self.downloaded_at),
            bytes_done: self.bytes_done,
            bytes_total: self.bytes_total,
            progress_at: opt_instant(self.progress_at),
        }
    }
}

/// The rows a list of show records stands for.
pub open spec fn show_rows(records: Seq<ShowRecord>) -> Seq<ShowRow> {
    records.map_values(|r: ShowRecord| r@)
}

/// The rows a list of episode records stands for.
pub open spec fn episode_rows(records: Seq<EpisodeRecord>) -> Seq<EpisodeRow> {
    records.map_values(|r: EpisodeRecord| r@)
}

fn copy_mime(mime: &Option<AudioMime>) -> (copy: Option<AudioMime>)
    ensures
        copy == *mime,
{
    match mime {
        Some(mime) => Some(mime.clone()),
        None => None,
    }
}

fn copy_digest(digest: &Option<Digest>) -> (copy: Option<Digest>)
    ensures
        copy == *digest,
{
    match digest {
        Some(digest) => Some(digest.clone()),
        None => None,
    }
}

impl Clone for ShowRecord {
    fn clone(&self) -> (copy: Self)
        ensures
            copy == *self,
    {
        ShowRecord {
            slug: self.slug.clone(),
            provider: self.provider.clone(),
            title: self.title.clone(),
            description: copy_opt(&self.description),
            artwork_path: copy_opt(&self.artwork_path),
            last_poll_at: self.last_poll_at,
            last_poll_ok: self.last_poll_ok,
            last_error: copy_opt(&self.last_error),
            episodes_etag: copy_opt(&self.episodes_etag),
        }
    }
}

impl Clone for EpisodeRecord {
    fn clone(&self) -> (copy: Self)
        ensures
            copy == *self,
    {
        EpisodeRecord {
            show: self.show.clone(),
            id: self.id.clone(),
            title: self.title.clone(),
            description: copy_opt(&self.description),
            published_at: self.published_at,
            duration_secs: self.duration_secs,
            state: self.state,
            file_path: copy_opt(&self.file_path),
            bytes: self.bytes,
            blake3: copy_digest(&self.blake3),
            mime: copy_mime(&self.mime),
            discovered_at: self.discovered_at,
            downloaded_at: self.downloaded_at,
            bytes_done: self.bytes_done,
            bytes_total: self.bytes_total,
            progress_at: self.progress_at,
        }
    }
}

/// Shows are listed by slug.
impl Ranked for ShowRecord {
    open spec fn precedes(&self, other: &Self) -> bool {
        text_before(self.slug@, other.slug@)
    }

    fn goes_before(&self, other: &Self) -> (before: bool) {
        sorts_before(self.slug.as_str(), other.slug.as_str())
    }

    proof fn lemma_weak_order(a: &Self, b: &Self, c: &Self) {
        lemma_text_weak_order(a.slug@, b.slug@, c.slug@);
    }
}

/// `text_before` is a strict weak order.
pub proof fn lemma_text_weak_order(a: Seq<char>, b: Seq<char>, c: Seq<char>)
    ensures
        !text_before(a, a),
        !text_before(b, a) && !text_before(c, b) ==> !text_before(c, a),
        text_before(a, b) ==> !text_before(b, a),
{
    crate::text::lemma_text_before_irreflexive(a);
    crate::text::lemma_text_before_total(a, b);
    crate::text::lemma_text_before_total(b, c);
    if !text_before(b, a) && !text_before(c, b) && text_before(c, a) {
        if a == b {
        } else if b == c {
        } else {
            crate::text::lemma_text_before_transitive(a, b, c);
            crate::text::lemma_text_before_transitive(a, c, a);
        }
    }
    if text_before(a, b) && text_before(b, a) {
        crate::text::lemma_text_before_transitive(a, b, a);
    }
}

/// Whether an episode published at `a` with id `a_id` is listed before one
/// published at `b` with id `b_id`: newest first, undated last, and the
/// greater id first among equals.
pub open spec fn newer(
    a: Option<int>,
    a_id: Seq<char>,
    b: Option<int>,
    b_id: Seq<char>,
) -> bool {
    match (a, b) {
        (Some(x), Some(y)) => x > y || (x == y && text_before(b_id, a_id)),
        (Some(_), None) => true,
        (None, Some(_)) => false,
        (None, None) => text_before(b_id, a_id),
    }
}

/// Episodes are listed newest first.
impl Ranked for EpisodeRecord {
    open spec fn precedes(&self, other: &Self) -> bool {
        newer(
            opt_instant(self.published_at),
            self.id@,
            opt_instant(other.published_at),
            other.id@,
        )
    }

    fn goes_before(&self, other: &Self) -> (before: bool) {
        match (&self.published_at, &other.published_at) {
            (Some(x), Some(y)) => {
                let x: i128 = x.nanos();
                let y: i128 = y.nanos();
                x > y || (x == y && sorts_before(other.id.as_str(), self.id.as_str()))
            },
            (Some(_), None) => true,
            (None, Some(_)) => false,
            (None, None) => sorts_before(other.id.as_str(), self.id.as_str()),
        }
    }

    proof fn lemma_weak_order(a: &Self, b: &Self, c: &Self) {
        lemma_text_weak_order(c.id@, b.id@, a.id@);
        lemma_text_weak_order(a.id@, b.id@, c.id@);
    }
}

/// Whether no two of these episodes have the same id.
pub open spec fn ids_differ(episodes: Seq<EpisodeRecord>) -> bool {
    forall|i: int, j: int|
        #![trigger episodes[i], episodes[j]]
        0 <= i < j < episodes.len() ==> episodes[i].id@ != episodes[j].id@
}

/// Episodes with ids of their own are listed in one order, however their
/// rows stand.
pub proof fn law_listing_ignores_row_order(a: Seq<EpisodeRecord>, b: Seq<EpisodeRecord>)
    requires
        ids_differ(a),
        a.to_multiset() == b.to_multiset(),
    ensures
        ranked(a) == ranked(b),
{
    assert forall|i: int, j: int|
        #![trigger a[i], a[j]]
        0 <= i < j < a.len() implies a[i].precedes(&a[j]) || a[j].precedes(&a[i]) by {
        crate::text::lemma_text_before_total(a[i].id@, a[j].id@);
    }
    crate::order::law_ranked_ignores_arrangement(a, b);
}

/// Where the show with this slug stands, if anywhere.
pub open spec fn find_show(shows: Seq<ShowRow>, slug: Seq<char>) -> Option<int>
    decreases shows.len(),
{
    if shows.len() == 0 {
        None
    } else {
        match find_show(shows.drop_last(), slug) {
            Some(i) => Some(i),
            None => if shows.last().slug == slug {
                Some(shows.len() - 1)
            } else {
                None
            },
        }
    }
}

/// Where this episode of this show stands, if anywhere.
pub open spec fn find_episode(
    episodes: Seq<EpisodeRow>,
    show: Seq<char>,
    id: Seq<char>,
) -> Option<int>
    decreases episodes.len(),
{
    if episodes.len() == 0 {
        None
    } else {
        match find_episode(episodes.drop_last(), show, id) {
            Some(i) => Some(i),
            None => if episodes.last().show == show && episodes.last().id == id {
                Some(episodes.len() - 1)
            } else {
                None
            },
        }
    }
}

/// `find_show` finds the first match, and nothing only if nothing matches.
pub proof fn lemma_find_show(shows: Seq<ShowRow>, slug: Seq<char>)
    ensures
        match find_show(shows, slug) {
            Some(i) => 0 <= i < shows.len() && shows[i].slug == slug,
            None => forall|j: int| 0 <= j < shows.len() ==> (#[trigger] shows[j]).slug != slug,
        },
    decreases shows.len(),
{
    if shows.len() > 0 {
        lemma_find_show(shows.drop_last(), slug);
        if find_show(shows, slug) is None {
            assert forall|j: int| 0 <= j < shows.len() implies (#[trigger] shows[j]).slug
                != slug by {
                if j < shows.len() - 1 {
                    assert(shows.drop_last()[j] == shows[j]);
                }
            }
        }
    }
}

/// `find_episode` finds a match, and nothing only if nothing matches.
pub proof fn lemma_find_episode(episodes: Seq<EpisodeRow>, show: Seq<char>, id: Seq<char>)
    ensures
        match find_episode(episodes, show, id) {
            Some(i) => 0 <= i < episodes.len() && episodes[i].show == show && episodes[i].id == id,
            None => forall|j: int|
                0 <= j < episodes.len() ==> (#[trigger] episodes[j]).show != show || episodes[j].id
                    != id,
        },
    decreases episodes.len(),
{
    if episodes.len() > 0 {
        lemma_find_episode(episodes.drop_last(), show, id);
        if find_episode(episodes, show, id) is None {
            assert forall|j: int| 0 <= j < episodes.len() implies (#[trigger] episodes[j]).show
                != show || episodes[j].id != id by {
                if j < episodes.len() - 1 {
                    assert(episodes.drop_last()[j] == episodes[j]);
                }
            }
        }
    }
}

/// Rows with the same keys are found at the same places.
pub proof fn lemma_find_episode_same_keys(
    a: Seq<EpisodeRow>,
    b: Seq<EpisodeRow>,
    show: Seq<char>,
    id: Seq<char>,
)
    requires
        a.len() == b.len(),
        forall|i: int|
            0 <= i < a.len() ==> (#[trigger] a[i]).show == b[i].show && a[i].id == b[i].id,
    ensures
        find_episode(a, show, id) == find_episode(b, show, id),
    decreases a.len(),
{
    if a.len() > 0 {
        assert forall|i: int| 0 <= i < a.drop_last().len() implies (
        #[trigger] a.drop_last()[i]).show == b.drop_last()[i].show && a.drop_last()[i].id
            == b.drop_last()[i].id by {
            assert(a.drop_last()[i] == a[i]);
        }
        lemma_find_episode_same_keys(a.drop_last(), b.drop_last(), show, id);
        assert(a[a.len() - 1].show == b[b.len() - 1].show);
    }
}

impl StorageModel {
    /// No two shows share a slug, no two episodes a key, and every episode
    /// belongs to a show.
    pub open spec fn wf(self) -> bool {
        &&& forall|i: int, j: int|
            #![trigger self.shows[i], self.shows[j]]
            0 <= i < j < self.shows.len() ==> self.shows[i].slug != self.shows[j].slug
        &&& forall|i: int, j: int|
            #![trigger self.episodes[i], self.episodes[j]]
            0 <= i < j < self.episodes.len() ==> self.episodes[i].show != self.episodes[j].show
                || self.episodes[i].id != self.episodes[j].id
        &&& forall|i: int|
            0 <= i < self.episodes.len() ==> find_show(
                self.shows,
                (#[trigger] self.episodes[i]).show,
            ) is Some
    }

    /// The state with show row `i` replaced.
    pub open spec fn with_show(self, i: int, row: ShowRow) -> StorageModel {
        StorageModel { shows: self.shows.update(i, row), episodes: self.episodes }
    }

    /// The state with episode row `i` replaced.
    pub open spec fn with_episode(self, i: int, row: EpisodeRow) -> StorageModel {
        StorageModel { shows: self.shows, episodes: self.episodes.update(i, row) }
    }

    /// The state after a show's metadata was inserted or refreshed.
    pub open spec fn upserted(
        self,
        slug: Seq<char>,
        title: Seq<char>,
        description: Option<Seq<char>>,
        provider: Seq<char>,
    ) -> StorageModel {
        match find_show(self.shows, slug) {
            Some(i) => self.with_show(
                i,
                ShowRow { provider, title, description, ..self.shows[i] },
            ),
            None => StorageModel {
                shows: self.shows.push(
                    ShowRow {
                        slug,
                        provider,
                        title,
                        description,
                        artwork_path: None,
                        last_poll_at: None,
                        last_poll_ok: None,
                        last_error: None,
                        episodes_etag: None,
                    },
                ),
                episodes: self.episodes,
            },
        }
    }

    /// The state after a poll's outcome was recorded; unchanged when the
    /// show is not stored.
    pub open spec fn polled(
        self,
        slug: Seq<char>,
        error: Option<Seq<char>>,
        now: int,
    ) -> StorageModel {
        match find_show(self.shows, slug) {
            Some(i) => self.with_show(
                i,
                ShowRow {
                    last_poll_at: Some(now),
                    last_poll_ok: Some(error is None),
                    last_error: error,
                    ..self.shows[i]
                },
            ),
            None => self,
        }
    }

    /// The state after a show's artwork file was recorded; unchanged when
    /// the show is not stored.
    pub open spec fn with_artwork(self, slug: Seq<char>, path: Seq<char>) -> StorageModel {
        match find_show(self.shows, slug) {
            Some(i) => self.with_show(
                i,
                ShowRow { artwork_path: Some(path), ..self.shows[i] },
            ),
            None => self,
        }
    }

    /// The state after a show's listing validator was recorded; unchanged
    /// when the show is not stored.
    pub open spec fn with_etag(self, slug: Seq<char>, etag: Option<Seq<char>>) -> StorageModel {
        match find_show(self.shows, slug) {
            Some(i) => self.with_show(i, ShowRow { episodes_etag: etag, ..self.shows[i] }),
            None => self,
        }
    }

    /// The state after one listed episode was recorded: a known one gets
    /// its metadata refreshed and its state left alone, an unknown one is
    /// inserted as discovered.
    pub open spec fn discovered_one(
        self,
        show: Seq<char>,
        episode: EpisodeMeta,
        now: int,
    ) -> StorageModel {
        match find_episode(self.episodes, show, episode.id@) {
            Some(i) => self.with_episode(
                i,
                EpisodeRow {
                    title: episode.title@,
                    description: opt_text(episode.description),
                    published_at: opt_instant(episode.published_at),
                    duration_secs: crate::config::or_else_of(
                        episode.duration_secs,
                        self.episodes[i].duration_secs,
                    ),
                    ..self.episodes[i]
                },
            ),
            None => StorageModel {
                shows: self.shows,
                episodes: self.episodes.push(
                    EpisodeRow {
                        show,
                        id: episode.id@,
                        title: episode.title@,
                        description: opt_text(episode.description),
                        published_at: opt_instant(episode.published_at),
                        duration_secs: episode.duration_secs,
                        state: EpisodeState::Discovered,
                        file_path: None,
                        bytes: None,
                        blake3: None,
                        mime: None,
                        discovered_at: now,
                        downloaded_at: None,
                        bytes_done: None,
                        bytes_total: None,
                        progress_at: None,
                    },
                ),
            },
        }
    }

    /// The state after a listing was recorded, entry by entry.
    pub open spec fn discovered(
        self,
        show: Seq<char>,
        episodes: Seq<EpisodeMeta>,
        now: int,
    ) -> StorageModel
        decreases episodes.len(),
    {
        if episodes.len() == 0 {
            self
        } else {
            self.discovered(show, episodes.drop_last(), now).discovered_one(
                show,
                episodes.last(),
                now,
            )
        }
    }

    /// How many entries of a listing are new.
    pub open spec fn discovered_count(
        self,
        show: Seq<char>,
        episodes: Seq<EpisodeMeta>,
        now: int,
    ) -> nat
        decreases episodes.len(),
    {
        if episodes.len() == 0 {
            0
        } else {
            let before = self.discovered(show, episodes.drop_last(), now);
            self.discovered_count(show, episodes.drop_last(), now) + if find_episode(
                before.episodes,
                show,
                episodes.last().id@,
            ) is None {
                1nat
            } else {
                0nat
            }
        }
    }
}

/// A row whose download starts: a file it had no longer counts.
pub open spec fn downloading_row(row: EpisodeRow) -> EpisodeRow {
    EpisodeRow {
        state: EpisodeState::Downloading,
        file_path: None,
        bytes_done: None,
        bytes_total: None,
        progress_at: None,
        ..row
    }
}

/// A byte count as the database holds it.
pub open spec fn stored_bytes(bytes: u64) -> u64 {
    if bytes > MAX_STORED_BYTES {
        MAX_STORED_BYTES
    } else {
        bytes
    }
}

/// An optional byte count as the database holds it.
pub open spec fn opt_stored_bytes(bytes: Option<u64>) -> Option<u64> {
    match bytes {
        Some(bytes) => Some(stored_bytes(bytes)),
        None => None,
    }
}

/// A row whose download completed.
pub open spec fn cached_row(row: EpisodeRow, file: CachedFile, now: int) -> EpisodeRow {
    EpisodeRow {
        state: EpisodeState::Cached,
        file_path: Some(file.file_path@),
        bytes: Some(stored_bytes(file.bytes)),
        blake3: Some(file.blake3@),
        mime: opt_mime(file.mime),
        duration_secs: crate::config::or_else_of(row.duration_secs, file.duration_secs),
        downloaded_at: Some(now),
        bytes_done: None,
        bytes_total: None,
        progress_at: None,
        ..row
    }
}

/// A row whose download failed.
pub open spec fn failed_row(row: EpisodeRow, class: ErrorClass) -> EpisodeRow {
    EpisodeRow {
        state: EpisodeState::Failed(class),
        file_path: None,
        bytes_done: None,
        bytes_total: None,
        progress_at: None,
        ..row
    }
}

/// A row whose file was pruned: it keeps its metadata and digest and
/// forgets the file.
pub open spec fn pruned_row(row: EpisodeRow) -> EpisodeRow {
    EpisodeRow { state: EpisodeState::Pruned, file_path: None, ..row }
}

/// A row whose download reported progress.
pub open spec fn progress_row(
    row: EpisodeRow,
    done: u64,
    total: Option<u64>,
    now: int,
) -> EpisodeRow {
    EpisodeRow {
        bytes_done: Some(stored_bytes(done)),
        bytes_total: opt_stored_bytes(total),
        progress_at: Some(now),
        ..row
    }
}

/// Whether `result` and `after` are what moving the episode from `before`
/// into the state `to` gives, where `row` is its new row.
pub open spec fn stepped(
    before: StorageModel,
    after: StorageModel,
    result: Result<(), StorageError>,
    show: ShowSlug,
    episode: EpisodeId,
    to: EpisodeState,
    row: spec_fn(EpisodeRow) -> EpisodeRow,
) -> bool {
    match find_episode(before.episodes, show@, episode@) {
        None => after == before && result == Err::<(), StorageError>(
            StorageError::EpisodeNotFound { show, episode },
        ),
        Some(i) => if legal_step(before.episodes[i].state, to) {
            result is Ok && after == before.with_episode(i, row(before.episodes[i]))
        } else {
            after == before && result == Err::<(), StorageError>(
                StorageError::IllegalTransition {
                    show,
                    episode,
                    from: before.episodes[i].state,
                    to,
                },
            )
        },
    }
}

/// The library's state.
#[derive(Debug)]
pub struct Storage {
    /// Show rows, in insertion order.
    pub shows: Vec<ShowRecord>,
    /// Episode rows, in insertion order.
    pub episodes: Vec<EpisodeRecord>,
}

impl View for Storage {
    type V = StorageModel;

    open spec fn view(&self) -> StorageModel {
        StorageModel {
            shows: show_rows(self.shows@),
            episodes: episode_rows(self.episodes@),
        }
    }
}

/// Replacing a row by one with the same key keeps the state well formed.
pub proof fn lemma_with_episode_wf(model: StorageModel, i: int, row: EpisodeRow)
    requires
        model.wf(),
        0 <= i < model.episodes.len(),
        row.show == model.episodes[i].show,
        row.id == model.episodes[i].id,
    ensures
        model.with_episode(i, row).wf(),
{
    let after = model.with_episode(i, row);
    assert forall|a: int, b: int|
        #![trigger after.episodes[a], after.episodes[b]]
        0 <= a < b < after.episodes.len() implies after.episodes[a].show
        != after.episodes[b].show || after.episodes[a].id != after.episodes[b].id by {
        assert(model.episodes[a].show != model.episodes[b].show || model.episodes[a].id
            != model.episodes[b].id);
    }
    assert forall|a: int| 0 <= a < after.episodes.len() implies find_show(
        after.shows,
        (#[trigger] after.episodes[a]).show,
    ) is Some by {
        assert(find_show(model.shows, model.episodes[a].show) is Some);
    }
}

/// Rows with the same slugs are found at the same places.
proof fn lemma_find_show_same_slugs(a: Seq<ShowRow>, b: Seq<ShowRow>, slug: Seq<char>)
    requires
        a.len() == b.len(),
        forall|i: int| 0 <= i < a.len() ==> (#[trigger] a[i]).slug == b[i].slug,
    ensures
        find_show(a, slug) == find_show(b, slug),
    decreases a.len(),
{
    if a.len() > 0 {
        assert forall|i: int| 0 <= i < a.drop_last().len() implies (
        #[trigger] a.drop_last()[i]).slug == b.drop_last()[i].slug by {
            assert(a.drop_last()[i] == a[i]);
        }
        lemma_find_show_same_slugs(a.drop_last(), b.drop_last(), slug);
        assert(a[a.len() - 1].slug == b[b.len() - 1].slug);
    }
}

/// Replacing a show row by one with the same slug keeps the state well
/// formed.
proof fn lemma_with_show_wf(model: StorageModel, i: int, row: ShowRow)
    requires
        model.wf(),
        0 <= i < model.shows.len(),
        row.slug == model.shows[i].slug,
    ensures
        model.with_show(i, row).wf(),
{
    let after = model.with_show(i, row);
    assert forall|a: int, b: int|
        #![trigger after.shows[a], after.shows[b]]
        0 <= a < b < after.shows.len() implies after.shows[a].slug != after.shows[b].slug by {
        assert(model.shows[a].slug != model.shows[b].slug);
    }
    assert forall|a: int| 0 <= a < after.episodes.len() implies find_show(
        after.shows,
        (#[trigger] after.episodes[a]).show,
    ) is Some by {
        assert(find_show(model.shows, model.episodes[a].show) is Some);
        lemma_find_show_same_slugs(after.shows, model.shows, model.episodes[a].show);
    }
}

impl Storage {
    /// An empty state.
    pub fn new() -> (storage: Storage)
        ensures
            storage@.shows.len() == 0,
            storage@.episodes.len() == 0,
            storage@.wf(),
    {
        Storage { shows: Vec::new(), episodes: Vec::new() }
    }

    /// Where a show stands.
    fn show_index(&self, slug: &ShowSlug) -> (index: Option<usize>)
        ensures
            match index {
                Some(i) => find_show(self@.shows, slug@) == Some(i as int) && i < self.shows@.len()
                    && self.shows@[i as int].slug@ == slug@,
                None => find_show(self@.shows, slug@) is None,
            },
    {
        let ghost rows = self@.shows;
        let mut i: usize = 0;
        assert(rows.take(0) =~= Seq::empty());
        while i < self.shows.len()
            invariant
                i <= self.shows@.len(),
                rows == show_rows(self.shows@),
                rows == self@.shows,
                find_show(rows.take(i as int), slug@) is None,
            decreases self.shows@.len() - i,
        {
            proof {
                assert(rows.take(i + 1).drop_last() =~= rows.take(i as int));
                assert(rows.take(i + 1).last() == self.shows@[i as int]@);
            }
            if self.shows[i].slug.same(slug) {
                proof {
                    lemma_find_show_take(rows, slug@, i + 1);
                }
                return Some(i);
            }
            i += 1;
        }
        assert(rows.take(rows.len() as int) =~= rows);
        None
    }

    /// Where an episode stands.
    fn episode_index(&self, show: &ShowSlug, episode: &EpisodeId) -> (index: Option<usize>)
        ensures
            match index {
                Some(i) => find_episode(self@.episodes, show@, episode@) == Some(i as int) && i
                    < self.episodes@.len(),
                None => find_episode(self@.episodes, show@, episode@) is None,
            },
    {
        let ghost rows = self@.episodes;
        let mut i: usize = 0;
        assert(rows.take(0) =~= Seq::empty());
        while i < self.episodes.len()
            invariant
                i <= self.episodes@.len(),
                rows == episode_rows(self.episodes@),
                rows == self@.episodes,
                find_episode(rows.take(i as int), show@, episode@) is None,
            decreases self.episodes@.len() - i,
        {
            proof {
                assert(rows.take(i + 1).drop_last() =~= rows.take(i as int));
                assert(rows.take(i + 1).last() == self.episodes@[i as int]@);
            }
            if self.episodes[i].show.same(show) && self.episodes[i].id.same(episode) {
                proof {
                    lemma_find_episode_take(rows, show@, episode@, i + 1);
                }
                return Some(i);
            }
            i += 1;
        }
        assert(rows.take(rows.len() as int) =~= rows);
        None
    }

    /// Whether an episode is stored.
    pub fn knows(&self, show: &ShowSlug, episode: &EpisodeId) -> (known: bool)
        ensures
            known == (find_episode(self@.episodes, show@, episode@) is Some),
    {
        self.episode_index(show, episode).is_some()
    }

    /// Insert or refresh a show's provider metadata. Poll bookkeeping and
    /// artwork are left alone.
    pub fn upsert_show(&mut self, meta: &ShowMeta, provider: &str)
        ensures
            final(self)@ == old(self)@.upserted(
                meta.slug@,
                meta.title@,
                opt_text(meta.description),
                provider@,
            ),
            old(self)@.wf() ==> final(self)@.wf(),
    {
        match self.show_index(&meta.slug) {
            Some(i) => {
                let mut row = self.shows[i].clone();
                row.provider = provider.to_owned();
                row.title = meta.title.clone();
                row.description = copy_opt(&meta.description);
                self.put_show(i, row);
            },
            None => {
                let row = ShowRecord {
                    slug: meta.slug.clone(),
                    provider: provider.to_owned(),
                    title: meta.title.clone(),
                    description: copy_opt(&meta.description),
                    artwork_path: None,
                    last_poll_at: None,
                    last_poll_ok: None,
                    last_error: None,
                    episodes_etag: None,
                };
                proof {
                    if self@.wf() {
                        lemma_push_show_wf(self@, row@);
                    }
                }
                self.shows.push(row);
                assert(self@.shows =~= old(self)@.shows.push(row@));
            },
        }
    }

    /// Replace show row `i`.
    fn put_show(&mut self, i: usize, row: ShowRecord)
        requires
            i < old(self).shows@.len(),
            row.slug@ == old(self).shows@[i as int].slug@,
        ensures
            final(self)@ == old(self)@.with_show(i as int, row@),
            old(self)@.wf() ==> final(self)@.wf(),
    {
        proof {
            if self@.wf() {
                lemma_with_show_wf(self@, i as int, row@);
            }
        }
        self.shows.set(i, row);
        assert(self@.shows =~= old(self)@.shows.update(i as int, row@));
    }

    /// Replace episode row `i`.
    fn put_episode(&mut self, i: usize, row: EpisodeRecord)
        requires
            i < old(self).episodes@.len(),
            row.show@ == old(self).episodes@[i as int].show@,
            row.id@ == old(self).episodes@[i as int].id@,
        ensures
            final(self)@ == old(self)@.with_episode(i as int, row@),
            old(self)@.wf() ==> final(self)@.wf(),
    {
        proof {
            if self@.wf() {
                lemma_with_episode_wf(self@, i as int, row@);
            }
        }
        self.episodes.set(i, row);
        assert(self@.episodes =~= old(self)@.episodes.update(i as int, row@));
    }

    /// Record the outcome of a poll. A no-op when the show is not stored
    /// yet.
    pub fn record_poll(&mut self, show: &ShowSlug, error: Option<String>, now: Timestamp)
        ensures
            final(self)@ == old(self)@.polled(show@, opt_text(error), now@),
            old(self)@.wf() ==> final(self)@.wf(),
    {
        match self.show_index(show) {
            Some(i) => {
                let mut row = self.shows[i].clone();
                row.last_poll_at = Some(now);
                row.last_poll_ok = Some(error.is_none());
                row.last_error = error;
                self.put_show(i, row);
            },
            None => {},
        }
    }

    /// Record where a show's cached artwork lives.
    pub fn set_artwork_path(&mut self, slug: &ShowSlug, path: &str)
        ensures
            final(self)@ == old(self)@.with_artwork(slug@, path@),
            old(self)@.wf() ==> final(self)@.wf(),
    {
        match self.show_index(slug) {
            Some(i) => {
                let mut row = self.shows[i].clone();
                row.artwork_path = Some(path.to_owned());
                self.put_show(i, row);
            },
            None => {},
        }
    }

    /// Record the validator of a show's last listing.
    pub fn set_episodes_etag(&mut self, slug: &ShowSlug, etag: Option<String>)
        ensures
            final(self)@ == old(self)@.with_etag(slug@, opt_text(etag)),
            old(self)@.wf() ==> final(self)@.wf(),
    {
        match self.show_index(slug) {
            Some(i) => {
                let mut row = self.shows[i].clone();
                row.episodes_etag = etag;
                self.put_show(i, row);
            },
            None => {},
        }
    }

    /// All shows, ordered by slug.
    pub fn shows(&self) -> (shows: Vec<ShowRecord>)
        ensures
            shows@ == ranked(self.shows@),
    {
        let mut shows: Vec<ShowRecord> = Vec::new();
        let mut i: usize = 0;
        assert(self.shows@.take(0) =~= Seq::empty());
        while i < self.shows.len()
            invariant
                i <= self.shows@.len(),
                shows@ == ranked(self.shows@.take(i as int)),
            decreases self.shows@.len() - i,
        {
            proof {
                assert(self.shows@.take(i + 1).drop_last() =~= self.shows@.take(i as int));
            }
            insert_ranked(&mut shows, self.shows[i].clone());
            i += 1;
        }
        assert(self.shows@.take(self.shows@.len() as int) =~= self.shows@);
        shows
    }

    /// One show, if stored.
    pub fn show(&self, slug: &ShowSlug) -> (show: Option<ShowRecord>)
        ensures
            match show {
                Some(show) => find_show(self@.shows, slug@) matches Some(i) && show
                    == self.shows@[i],
                None => find_show(self@.shows, slug@) is None,
            },
    {
        match self.show_index(slug) {
            Some(i) => Some(self.shows[i].clone()),
            None => None,
        }
    }

    /// All episodes of a show, newest first.
    pub fn episodes(&self, show: &ShowSlug) -> (episodes: Vec<EpisodeRecord>)
        ensures
            episodes@ == ranked(episodes_of(self.episodes@, show@)),
    {
        let mut episodes: Vec<EpisodeRecord> = Vec::new();
        let mut i: usize = 0;
        assert(self.episodes@.take(0) =~= Seq::empty());
        while i < self.episodes.len()
            invariant
                i <= self.episodes@.len(),
                episodes@ == ranked(episodes_of(self.episodes@.take(i as int), show@)),
            decreases self.episodes@.len() - i,
        {
            proof {
                assert(self.episodes@.take(i + 1).drop_last() =~= self.episodes@.take(i as int));
                let before = episodes_of(self.episodes@.take(i as int), show@);
                assert(before.push(self.episodes@[i as int]).drop_last() =~= before);
            }
            if self.episodes[i].show.same(show) {
                insert_ranked(&mut episodes, self.episodes[i].clone());
            }
            i += 1;
        }
        assert(self.episodes@.take(self.episodes@.len() as int) =~= self.episodes@);
        episodes
    }

    /// Record a listing: unknown episodes are inserted as discovered, known
    /// ones get their metadata refreshed and their state left alone.
    /// Returns how many were new. A listing for a show that is not stored
    /// is refused whole.
    pub fn discover(
        &mut self,
        show: &ShowSlug,
        episodes: &Vec<EpisodeMeta>,
        now: Timestamp,
    ) -> (new: Result<u32, StorageError>)
        requires
            episodes@.len() <= u32::MAX,
        ensures
            match new {
                Ok(new) => {
                    &&& find_show(old(self)@.shows, show@) is Some || episodes@.len() == 0
                    &&& final(self)@ == old(self)@.discovered(show@, episodes@, now@)
                    &&& new == old(self)@.discovered_count(show@, episodes@, now@)
                },
                Err(error) => {
                    &&& find_show(old(self)@.shows, show@) is None && episodes@.len() > 0
                    &&& final(self)@ == old(self)@
                    &&& error matches StorageError::Sqlite(reason) && reason@
                        == "FOREIGN KEY constraint failed"@
                },
            },
            old(self)@.wf() ==> final(self)@.wf(),
    {
        if episodes.len() > 0 && self.show_index(show).is_none() {
            return Err(StorageError::Sqlite("FOREIGN KEY constraint failed".to_owned()));
        }
        let mut new: u32 = 0;
        let mut i: usize = 0;
        let ghost start = self@;
        assert(episodes@.take(0) =~= Seq::empty());
        while i < episodes.len()
            invariant
                i <= episodes@.len() <= u32::MAX,
                new <= i,
                start == old(self)@,
                find_show(start.shows, show@) is Some || episodes@.len() == 0,
                self@ == start.discovered(show@, episodes@.take(i as int), now@),
                self@.shows == start.shows,
                new == start.discovered_count(show@, episodes@.take(i as int), now@),
                start.wf() ==> self@.wf(),
            decreases episodes@.len() - i,
        {
            proof {
                assert(episodes@.take(i + 1).drop_last() =~= episodes@.take(i as int));
                assert(episodes@.take(i + 1).last() == episodes@[i as int]);
            }
            if self.discover_one(show, &episodes[i], now) {
                new += 1;
            }
            i += 1;
        }
        assert(episodes@.take(episodes@.len() as int) =~= episodes@);
        Ok(new)
    }

    /// Record one listed episode; whether it was new.
    fn discover_one(
        &mut self,
        show: &ShowSlug,
        episode: &EpisodeMeta,
        now: Timestamp,
    ) -> (new: bool)
        ensures
            final(self)@ == old(self)@.discovered_one(show@, *episode, now@),
            final(self)@.shows == old(self)@.shows,
            new == (find_episode(old(self)@.episodes, show@, episode.id@) is None),
            old(self)@.wf() && find_show(old(self)@.shows, show@) is Some ==> final(self)@.wf(),
    {
        match self.episode_index(show, &episode.id) {
            Some(i) => {
                let mut row = self.episodes[i].clone();
                row.title = episode.title.clone();
                row.description = copy_opt(&episode.description);
                row.published_at = episode.published_at;
                if episode.duration_secs.is_some() {
                    row.duration_secs = episode.duration_secs;
                }
                self.put_episode(i, row);
                false
            },
            None => {
                let row = EpisodeRecord {
                    show: show.clone(),
                    id: episode.id.clone(),
                    title: episode.title.clone(),
                    description: copy_opt(&episode.description),
                    published_at: episode.published_at,
                    duration_secs: episode.duration_secs,
                    state: EpisodeState::Discovered,
                    file_path: None,
                    bytes: None,
                    blake3: None,
                    mime: None,
                    discovered_at: now,
                    downloaded_at: None,
                    bytes_done: None,
                    bytes_total: None,
                    progress_at: None,
                };
                proof {
                    if self@.wf() && find_show(self@.shows, show@) is Some {
                        lemma_push_episode_wf(self@, row@);
                    }
                }
                self.episodes.push(row);
                assert(self@.episodes =~= old(self)@.episodes.push(row@));
                true
            },
        }
    }

    /// The row of an episode that may move into the state `to`.
    fn transition(
        &self,
        show: &ShowSlug,
        episode: &EpisodeId,
        to: EpisodeState,
    ) -> (index: Result<usize, StorageError>)
        ensures
            match index {
                Ok(i) => i < self.episodes@.len() && find_episode(self@.episodes, show@, episode@)
                    == Some(i as int) && legal_step(self.episodes@[i as int].state, to),
                Err(error) => match find_episode(self@.episodes, show@, episode@) {
                    None => error == (StorageError::EpisodeNotFound {
                        show: *show,
                        episode: *episode,
                    }),
                    Some(i) => !legal_step(self@.episodes[i].state, to) && error == (
                    StorageError::IllegalTransition {
                        show: *show,
                        episode: *episode,
                        from: self@.episodes[i].state,
                        to,
                    }),
                },
            },
    {
        match self.episode_index(show, episode) {
            Some(i) => {
                let from = self.episodes[i].state;
                if from.can_transition_to(to) {
                    Ok(i)
                } else {
                    Err(
                        StorageError::IllegalTransition {
                            show: show.clone(),
                            episode: episode.clone(),
                            from,
                            to,
                        },
                    )
                }
            },
            None => Err(
                StorageError::EpisodeNotFound { show: show.clone(), episode: episode.clone() },
            ),
        }
    }

    /// Move an episode into [`EpisodeState::Downloading`].
    pub fn mark_downloading(&mut self, show: &ShowSlug, episode: &EpisodeId) -> (result: Result<
        (),
        StorageError,
    >)
        ensures
            stepped(
                old(self)@,
                final(self)@,
                result,
                *show,
                *episode,
                EpisodeState::Downloading,
                |row: EpisodeRow| downloading_row(row),
            ),
            old(self)@.wf() ==> final(self)@.wf(),
    {
        match self.transition(show, episode, EpisodeState::Downloading) {
            Ok(i) => {
                let mut row = self.episodes[i].clone();
                row.state = EpisodeState::Downloading;
                row.file_path = None;
                row.bytes_done = None;
                row.bytes_total = None;
                row.progress_at = None;
                self.put_episode(i, row);
                Ok(())
            },
            Err(error) => Err(error),
        }
    }

    /// Record in-flight progress. A no-op unless the episode is being
    /// downloaded, so a completion never gets stale progress written over
    /// it.
    pub fn set_progress(
        &mut self,
        show: &ShowSlug,
        episode: &EpisodeId,
        bytes_done: u64,
        bytes_total: Option<u64>,
        now: Timestamp,
    )
        ensures
            final(self)@ == match find_episode(old(self)@.episodes, show@, episode@) {
                Some(i) => if old(self)@.episodes[i].state is Downloading {
                    old(self)@.with_episode(
                        i,
                        progress_row(old(self)@.episodes[i], bytes_done, bytes_total, now@),
                    )
                } else {
                    old(self)@
                },
                None => old(self)@,
            },
            old(self)@.wf() ==> final(self)@.wf(),
    {
        match self.episode_index(show, episode) {
            Some(i) => {
                match self.episodes[i].state {
                    EpisodeState::Downloading => {
                        let mut row = self.episodes[i].clone();
                        row.bytes_done = Some(storable(bytes_done));
                        row.bytes_total = match bytes_total {
                            Some(total) => Some(storable(total)),
                            None => None,
                        };
                        row.progress_at = Some(now);
                        self.put_episode(i, row);
                    },
                    _ => {},
                }
            },
            None => {},
        }
    }

    /// Move an episode into [`EpisodeState::Cached`], recording the file.
    pub fn mark_cached(
        &mut self,
        show: &ShowSlug,
        episode: &EpisodeId,
        file: CachedFile,
        now: Timestamp,
    ) -> (result: Result<(), StorageError>)
        ensures
            stepped(
                old(self)@,
                final(self)@,
                result,
                *show,
                *episode,
                EpisodeState::Cached,
                |row: EpisodeRow| cached_row(row, file, now@),
            ),
            old(self)@.wf() ==> final(self)@.wf(),
    {
        match self.transition(show, episode, EpisodeState::Cached) {
            Ok(i) => {
                let mut row = self.episodes[i].clone();
                row.state = EpisodeState::Cached;
                row.bytes = Some(storable(file.bytes));
                if row.duration_secs.is_none() {
                    row.duration_secs = file.duration_secs;
                }
                row.file_path = Some(file.file_path);
                row.blake3 = Some(file.blake3);
                row.mime = file.mime;
                row.downloaded_at = Some(now);
                row.bytes_done = None;
                row.bytes_total = None;
                row.progress_at = None;
                self.put_episode(i, row);
                Ok(())
            },
            Err(error) => Err(error),
        }
    }

    /// Move an episode into [`EpisodeState::Failed`] with a class.
    pub fn mark_failed(
        &mut self,
        show: &ShowSlug,
        episode: &EpisodeId,
        class: ErrorClass,
    ) -> (result: Result<(), StorageError>)
        ensures
            stepped(
                old(self)@,
                final(self)@,
                result,
                *show,
                *episode,
                EpisodeState::Failed(class),
                |row: EpisodeRow| failed_row(row, class),
            ),
            old(self)@.wf() ==> final(self)@.wf(),
    {
        match self.transition(show, episode, EpisodeState::Failed(class)) {
            Ok(i) => {
                let mut row = self.episodes[i].clone();
                row.state = EpisodeState::Failed(class);
                row.file_path = None;
                row.bytes_done = None;
                row.bytes_total = None;
                row.progress_at = None;
                self.put_episode(i, row);
                Ok(())
            },
            Err(error) => Err(error),
        }
    }

    /// Move an episode into [`EpisodeState::Pruned`].
    pub fn mark_pruned(&mut self, show: &ShowSlug, episode: &EpisodeId) -> (result: Result<
        (),
        StorageError,
    >)
        ensures
            stepped(
                old(self)@,
                final(self)@,
                result,
                *show,
                *episode,
                EpisodeState::Pruned,
                |row: EpisodeRow| pruned_row(row),
            ),
            old(self)@.wf() ==> final(self)@.wf(),
    {
        match self.transition(show, episode, EpisodeState::Pruned) {
            Ok(i) => {
                let mut row = self.episodes[i].clone();
                row.state = EpisodeState::Pruned;
                row.file_path = None;
                self.put_episode(i, row);
                Ok(())
            },
            Err(error) => Err(error),
        }
    }
}

/// A byte count as the database holds it.
fn storable(bytes: u64) -> (stored: u64)
    ensures
        stored == stored_bytes(bytes),
{
    if bytes > MAX_STORED_BYTES {
        MAX_STORED_BYTES
    } else {
        bytes
    }
}

/// The episodes of one show, in insertion order.
pub open spec fn episodes_of(episodes: Seq<EpisodeRecord>, show: Seq<char>) -> Seq<EpisodeRecord>
    decreases episodes.len(),
{
    if episodes.len() == 0 {
        Seq::empty()
    } else {
        let before = episodes_of(episodes.drop_last(), show);
        if episodes.last().show@ == show {
            before.push(episodes.last())
        } else {
            before
        }
    }
}

/// The episodes of one show as they are listed, newest first.
pub open spec fn listed_episodes(episodes: Seq<EpisodeRecord>, show: Seq<char>) -> Seq<
    EpisodeRecord,
> {
    ranked(episodes_of(episodes, show))
}

/// Whether two rows stand for one episode: of one show, with one id,
/// published at one time.
pub open spec fn same_episode(a: EpisodeRecord, b: EpisodeRecord) -> bool {
    &&& a.show@ == b.show@
    &&& a.id@ == b.id@
    &&& opt_instant(a.published_at) == opt_instant(b.published_at)
}

/// Whether two lists hold rows of the same episodes at `i`, and these are
/// alike.
pub open spec fn alike_at(
    a: Seq<EpisodeRecord>,
    b: Seq<EpisodeRecord>,
    alike: spec_fn(EpisodeRecord, EpisodeRecord) -> bool,
    i: int,
) -> bool {
    same_episode(a[i], b[i]) && alike(a[i], b[i])
}

/// Whether two lists hold rows of the same episodes, one by one alike.
pub open spec fn all_alike(
    a: Seq<EpisodeRecord>,
    b: Seq<EpisodeRecord>,
    alike: spec_fn(EpisodeRecord, EpisodeRecord) -> bool,
) -> bool {
    &&& a.len() == b.len()
    &&& forall|i: int| 0 <= i < a.len() ==> #[trigger] alike_at(a, b, alike, i)
}

/// Rows of the same episodes are put in order alike.
proof fn lemma_insert_alike(
    s: Seq<EpisodeRecord>,
    t: Seq<EpisodeRecord>,
    x: EpisodeRecord,
    y: EpisodeRecord,
    alike: spec_fn(EpisodeRecord, EpisodeRecord) -> bool,
)
    requires
        all_alike(s, t, alike),
        same_episode(x, y),
        alike(x, y),
    ensures
        all_alike(
            crate::order::ranked_insert(s, x),
            crate::order::ranked_insert(t, y),
            alike,
        ),
    decreases s.len(),
{
    let a = crate::order::ranked_insert(s, x);
    let b = crate::order::ranked_insert(t, y);
    if s.len() > 0 {
        let last = s.len() - 1;
        assert(alike_at(s, t, alike, last));
        if x.precedes(&s.last()) {
            assert forall|i: int| 0 <= i < last implies #[trigger] alike_at(
                s.drop_last(),
                t.drop_last(),
                alike,
                i,
            ) by {
                assert(alike_at(s, t, alike, i));
            }
            lemma_insert_alike(s.drop_last(), t.drop_last(), x, y, alike);
            let front = crate::order::ranked_insert(s.drop_last(), x);
            let other = crate::order::ranked_insert(t.drop_last(), y);
            assert forall|i: int| 0 <= i < a.len() implies #[trigger] alike_at(a, b, alike, i) by {
                if i < front.len() {
                    assert(alike_at(front, other, alike, i));
                }
            }
        } else {
            assert forall|i: int| 0 <= i < a.len() implies #[trigger] alike_at(a, b, alike, i) by {
                if i < s.len() {
                    assert(alike_at(s, t, alike, i));
                }
            }
        }
    }
}

/// Rows that change without touching key or publication time are listed
/// where they were.
pub proof fn lemma_listed_alike(
    a: Seq<EpisodeRecord>,
    b: Seq<EpisodeRecord>,
    show: Seq<char>,
    alike: spec_fn(EpisodeRecord, EpisodeRecord) -> bool,
)
    requires
        a.len() == b.len(),
        forall|i: int|
            0 <= i < a.len() ==> same_episode(a[i], b[i]) && ((#[trigger] a[i]).show@ == show
                ==> alike(a[i], b[i])),
    ensures
        all_alike(listed_episodes(a, show), listed_episodes(b, show), alike),
    decreases a.len(),
{
    if a.len() > 0 {
        let last = a.len() - 1;
        assert forall|i: int| 0 <= i < a.drop_last().len() implies same_episode(
            a.drop_last()[i],
            b.drop_last()[i],
        ) && ((#[trigger] a.drop_last()[i]).show@ == show ==> alike(
            a.drop_last()[i],
            b.drop_last()[i],
        )) by {
            assert(same_episode(a[i], b[i]));
        }
        lemma_listed_alike(a.drop_last(), b.drop_last(), show, alike);
        assert(same_episode(a[last], b[last]));
        if a.last().show@ == show {
            let x = episodes_of(a.drop_last(), show);
            let y = episodes_of(b.drop_last(), show);
            assert(x.push(a.last()).drop_last() =~= x);
            assert(y.push(b.last()).drop_last() =~= y);
            lemma_insert_alike(ranked(x), ranked(y), a.last(), b.last(), alike);
        }
    }
}

/// Where keys do not clash, the episodes of a show have ids of their own, in
/// the order they are listed too.
pub proof fn lemma_listed_ids_differ(storage: Storage, show: Seq<char>)
    requires
        keys_differ(storage@.episodes),
    ensures
        ids_differ(listed_episodes(storage.episodes@, show)),
{
    broadcast use vstd::seq_lib::group_to_multiset_ensures;

    let rows = storage.episodes@;
    assert forall|i: int, j: int|
        #![trigger rows[i], rows[j]]
        0 <= i < j < rows.len() implies rows[i].show@ != rows[j].show@ || rows[i].id@
        != rows[j].id@ by {
        assert(storage@.episodes[i] == rows[i]@ && storage@.episodes[j] == rows[j]@);
    }
    lemma_own_ids_differ(rows, show);
    let own = episodes_of(rows, show);
    let order = ranked(own);
    crate::order::law_ranked_rearranges(own);
    assert forall|i: int, j: int|
        #![trigger own[i], own[j]]
        0 <= i < j < own.len() implies own[i].precedes(&own[j]) || own[j].precedes(&own[i]) by {
        crate::text::lemma_text_before_total(own[i].id@, own[j].id@);
    }
    crate::order::lemma_told_apart_rearranged(own, order);
    assert forall|i: int, j: int|
        #![trigger order[i], order[j]]
        0 <= i < j < order.len() implies order[i].id@ != order[j].id@ by {
        assert(order.to_multiset().count(order[i]) > 0 && order.to_multiset().count(order[j]) > 0);
        assert(own.contains(order[i]) && own.contains(order[j]));
        let p = choose|p: int| 0 <= p < own.len() && own[p] == order[i];
        let q = choose|q: int| 0 <= q < own.len() && own[q] == order[j];
        if order[i].id@ == order[j].id@ {
            if p < q {
                assert(own[p].id@ != own[q].id@);
            } else if q < p {
                assert(own[q].id@ != own[p].id@);
            }
            EpisodeRecord::lemma_weak_order(&order[i], &order[i], &order[i]);
            assert(order[i].precedes(&order[j]) || order[j].precedes(&order[i]));
        }
    }
}

/// The rows of one show have ids of their own where keys do not clash, and
/// each is one of the stored rows.
proof fn lemma_own_ids_differ(rows: Seq<EpisodeRecord>, show: Seq<char>)
    requires
        forall|i: int, j: int|
            #![trigger rows[i], rows[j]]
            0 <= i < j < rows.len() ==> rows[i].show@ != rows[j].show@ || rows[i].id@
                != rows[j].id@,
    ensures
        ids_differ(episodes_of(rows, show)),
        forall|k: int|
            #![trigger episodes_of(rows, show)[k]]
            0 <= k < episodes_of(rows, show).len() ==> exists|i: int|
                0 <= i < rows.len() && rows[i] == episodes_of(rows, show)[k]
                    && rows[i].show@ == show,
    decreases rows.len(),
{
    if rows.len() > 0 {
        let before = rows.drop_last();
        assert forall|i: int, j: int|
            #![trigger before[i], before[j]]
            0 <= i < j < before.len() implies before[i].show@ != before[j].show@ || before[i].id@
            != before[j].id@ by {
            assert(rows[i] == before[i] && rows[j] == before[j]);
        }
        lemma_own_ids_differ(before, show);
        let own = episodes_of(before, show);
        let all = episodes_of(rows, show);
        let last = rows.len() - 1;
        assert forall|k: int|
            #![trigger all[k]]
            0 <= k < all.len() implies exists|i: int|
            0 <= i < rows.len() && rows[i] == all[k] && rows[i].show@ == show by {
            if k < own.len() {
                assert(all[k] == own[k]);
                let i = choose|i: int|
                    0 <= i < before.len() && before[i] == own[k] && before[i].show@ == show;
                assert(rows[i] == all[k]);
            } else {
                assert(rows[last] == all[k]);
            }
        }
        assert forall|i: int, j: int|
            #![trigger all[i], all[j]]
            0 <= i < j < all.len() implies all[i].id@ != all[j].id@ by {
            assert(all[i] == own[i]);
            if j < own.len() {
                assert(all[j] == own[j]);
            } else {
                let k = choose|k: int|
                    0 <= k < before.len() && before[k] == own[i] && before[k].show@ == show;
                assert(rows[k] == all[i] && rows[last] == all[j]);
            }
        }
    }
}

/// What is found in a prefix is found in the whole.
proof fn lemma_find_show_take(shows: Seq<ShowRow>, slug: Seq<char>, n: int)
    requires
        0 <= n <= shows.len(),
        find_show(shows.take(n), slug) is Some,
    ensures
        find_show(shows, slug) == find_show(shows.take(n), slug),
    decreases shows.len(),
{
    if n < shows.len() {
        assert(shows.drop_last().take(n) =~= shows.take(n));
        lemma_find_show_take(shows.drop_last(), slug, n);
    } else {
        assert(shows.take(n) =~= shows);
    }
}

/// What is found in a prefix is found in the whole.
proof fn lemma_find_episode_take(
    episodes: Seq<EpisodeRow>,
    show: Seq<char>,
    id: Seq<char>,
    n: int,
)
    requires
        0 <= n <= episodes.len(),
        find_episode(episodes.take(n), show, id) is Some,
    ensures
        find_episode(episodes, show, id) == find_episode(episodes.take(n), show, id),
    decreases episodes.len(),
{
    if n < episodes.len() {
        assert(episodes.drop_last().take(n) =~= episodes.take(n));
        lemma_find_episode_take(episodes.drop_last(), show, id, n);
    } else {
        assert(episodes.take(n) =~= episodes);
    }
}

/// Adding a show with a new slug keeps the state well formed.
proof fn lemma_push_show_wf(model: StorageModel, row: ShowRow)
    requires
        model.wf(),
        find_show(model.shows, row.slug) is None,
    ensures
        (StorageModel { shows: model.shows.push(row), episodes: model.episodes }).wf(),
{
    let after = StorageModel { shows: model.shows.push(row), episodes: model.episodes };
    lemma_find_show(model.shows, row.slug);
    assert forall|a: int, b: int|
        #![trigger after.shows[a], after.shows[b]]
        0 <= a < b < after.shows.len() implies after.shows[a].slug != after.shows[b].slug by {
        assert(model.shows[a].slug == after.shows[a].slug);
        if b < model.shows.len() {
            assert(model.shows[b].slug == after.shows[b].slug);
        }
    }
    assert forall|a: int| 0 <= a < after.episodes.len() implies find_show(
        after.shows,
        (#[trigger] after.episodes[a]).show,
    ) is Some by {
        assert(find_show(model.shows, model.episodes[a].show) is Some);
        assert(after.shows.drop_last() =~= model.shows);
    }
}

/// Adding an episode with a new key to a stored show keeps the state well
/// formed.
proof fn lemma_push_episode_wf(model: StorageModel, row: EpisodeRow)
    requires
        model.wf(),
        find_episode(model.episodes, row.show, row.id) is None,
        find_show(model.shows, row.show) is Some,
    ensures
        (StorageModel { shows: model.shows, episodes: model.episodes.push(row) }).wf(),
{
    let after = StorageModel { shows: model.shows, episodes: model.episodes.push(row) };
    lemma_find_episode(model.episodes, row.show, row.id);
    assert forall|a: int, b: int|
        #![trigger after.episodes[a], after.episodes[b]]
        0 <= a < b < after.episodes.len() implies after.episodes[a].show
        != after.episodes[b].show || after.episodes[a].id != after.episodes[b].id by {
        assert(model.episodes[a] == after.episodes[a]);
        if b < model.episodes.len() {
            assert(model.episodes[b] == after.episodes[b]);
        }
    }
    assert forall|a: int| 0 <= a < after.episodes.len() implies find_show(
        after.shows,
        (#[trigger] after.episodes[a]).show,
    ) is Some by {
        if a < model.episodes.len() {
            assert(find_show(model.shows, model.episodes[a].show) is Some);
        }
    }
}

/// Whether a row is a download that stopped reporting.
pub open spec fn is_stale(row: EpisodeRow, now: int) -> bool {
    row.state is Downloading && match row.progress_at {
        Some(at) => now - at >= STALE_AFTER_NANOS,
        None => true,
    }
}

/// The state after the stale downloads of a show were given up as failed,
/// to be retried.
pub open spec fn healed(model: StorageModel, show: Seq<char>, now: int) -> StorageModel {
    StorageModel {
        shows: model.shows,
        episodes: model.episodes.map_values(
            |row: EpisodeRow|
                if row.show == show && is_stale(row, now) {
                    failed_row(row, ErrorClass::Network)
                } else {
                    row
                },
        ),
    }
}

impl Storage {
    /// Give up the downloads of a show that a crashed process left behind:
    /// those without progress for [`STALE_AFTER_NANOS`], or without any.
    pub fn heal_stale(&mut self, show: &ShowSlug, now: Timestamp)
        ensures
            final(self)@ == healed(old(self)@, show@, now@),
            old(self)@.wf() ==> final(self)@.wf(),
    {
        let ghost start = self@;
        let ghost end = healed(start, show@, now@);
        let mut i: usize = 0;
        while i < self.episodes.len()
            invariant
                i <= self.episodes@.len(),
                start == old(self)@,
                end == healed(start, show@, now@),
                self@.shows == start.shows,
                self.episodes@.len() == start.episodes.len(),
                forall|k: int| 0 <= k < i ==> #[trigger] self@.episodes[k] == end.episodes[k],
                forall|k: int|
                    i <= k < start.episodes.len() ==> #[trigger] self@.episodes[k]
                        == start.episodes[k],
                start.wf() ==> self@.wf(),
            decreases self.episodes@.len() - i,
        {
            let downloading = match self.episodes[i].state {
                EpisodeState::Downloading => true,
                _ => false,
            };
            let quiet = match &self.episodes[i].progress_at {
                Some(at) => now.nanos() - at.nanos() >= STALE_AFTER_NANOS,
                None => true,
            };
            assert(self@.episodes[i as int] == start.episodes[i as int]);
            if downloading && quiet && self.episodes[i].show.same(show) {
                let mut row = self.episodes[i].clone();
                row.state = EpisodeState::Failed(ErrorClass::Network);
                row.file_path = None;
                row.bytes_done = None;
                row.bytes_total = None;
                row.progress_at = None;
                self.put_episode(i, row);
            }
            assert(self@.episodes.len() == self.episodes@.len());
            i += 1;
        }
        assert(self@.episodes =~= end.episodes);
    }
}

/// Healing leaves the show no stale download: each one becomes a failure, to
/// be retried, and every other row, like every show, stays as it was.
pub proof fn law_healing_is_complete(model: StorageModel, show: Seq<char>, now: int, i: int)
    requires
        0 <= i < model.episodes.len(),
    ensures
        ({
            let before = model.episodes[i];
            let after = healed(model, show, now).episodes[i];
            &&& after.show == show ==> !is_stale(after, now)
            &&& before.show == show && is_stale(before, now) ==> after.state is Failed
            &&& !(before.show == show && is_stale(before, now)) ==> after == before
        }),
        healed(model, show, now).episodes.len() == model.episodes.len(),
        healed(model, show, now).shows == model.shows,
{
}

/// Recording a listing keeps every stored row in its place, with its key,
/// its lifecycle state, what is known of its file, and its progress; the
/// shows stay.
pub proof fn law_discover_keeps_states(
    model: StorageModel,
    show: Seq<char>,
    episodes: Seq<EpisodeMeta>,
    now: int,
    i: int,
)
    requires
        0 <= i < model.episodes.len(),
    ensures
        model.discovered(show, episodes, now).shows == model.shows,
        model.discovered(show, episodes, now).episodes.len() >= model.episodes.len(),
        model.discovered(show, episodes, now).episodes[i].show == model.episodes[i].show,
        model.discovered(show, episodes, now).episodes[i].id == model.episodes[i].id,
        model.discovered(show, episodes, now).episodes[i].state == model.episodes[i].state,
        model.discovered(show, episodes, now).episodes[i].file_path
            == model.episodes[i].file_path,
        model.discovered(show, episodes, now).episodes[i].bytes == model.episodes[i].bytes,
        model.discovered(show, episodes, now).episodes[i].blake3 == model.episodes[i].blake3,
        model.discovered(show, episodes, now).episodes[i].mime == model.episodes[i].mime,
        model.discovered(show, episodes, now).episodes[i].discovered_at
            == model.episodes[i].discovered_at,
        model.discovered(show, episodes, now).episodes[i].downloaded_at
            == model.episodes[i].downloaded_at,
        model.discovered(show, episodes, now).episodes[i].bytes_done
            == model.episodes[i].bytes_done,
        model.discovered(show, episodes, now).episodes[i].bytes_total
            == model.episodes[i].bytes_total,
        model.discovered(show, episodes, now).episodes[i].progress_at
            == model.episodes[i].progress_at,
    decreases episodes.len(),
{
    if episodes.len() > 0 {
        law_discover_keeps_states(model, show, episodes.drop_last(), now, i);
        let before = model.discovered(show, episodes.drop_last(), now);
        lemma_find_episode(before.episodes, show, episodes.last().id@);
    }
}

/// Whether a row names a file only while it is cached.
pub open spec fn path_is_cached(row: EpisodeRow) -> bool {
    row.file_path is Some ==> row.state is Cached
}

/// Whether every row names a file only while it is cached.
pub open spec fn paths_are_cached(model: StorageModel) -> bool {
    forall|i: int| 0 <= i < model.episodes.len() ==> path_is_cached(#[trigger] model.episodes[i])
}

/// A row names its file only while it is cached: a row that is downloading,
/// failed, or pruned has none, a cached one has its own, and progress
/// changes nothing of it.
pub proof fn law_path_belongs_to_the_cache(
    row: EpisodeRow,
    file: CachedFile,
    class: ErrorClass,
    done: u64,
    total: Option<u64>,
    now: int,
)
    ensures
        downloading_row(row).file_path is None,
        failed_row(row, class).file_path is None,
        pruned_row(row).file_path is None,
        cached_row(row, file, now).file_path == Some(file.file_path@),
        path_is_cached(cached_row(row, file, now)),
        path_is_cached(row) ==> path_is_cached(progress_row(row, done, total, now)),
{
}

/// Recording a listing and healing a show leave it so that rows name a file
/// only while they are cached.
pub proof fn law_listing_keeps_paths_cached(
    model: StorageModel,
    show: Seq<char>,
    episodes: Seq<EpisodeMeta>,
    now: int,
)
    requires
        paths_are_cached(model),
    ensures
        paths_are_cached(model.discovered(show, episodes, now)),
        paths_are_cached(healed(model, show, now)),
    decreases episodes.len(),
{
    if episodes.len() > 0 {
        law_listing_keeps_paths_cached(model, show, episodes.drop_last(), now);
        let before = model.discovered(show, episodes.drop_last(), now);
        lemma_find_episode(before.episodes, show, episodes.last().id@);
    }
}

/// Recording a listing keeps rows where they are and adds new ones behind
/// them.
pub proof fn lemma_discover_grows(
    model: StorageModel,
    show: Seq<char>,
    episodes: Seq<EpisodeMeta>,
    now: int,
)
    ensures
        model.discovered(show, episodes, now).shows == model.shows,
        model.discovered(show, episodes, now).episodes.len() == model.episodes.len()
            + model.discovered_count(show, episodes, now),
        forall|i: int|
            0 <= i < model.episodes.len() ==> (#[trigger] model.discovered(
                show,
                episodes,
                now,
            ).episodes[i]).show == model.episodes[i].show && model.discovered(
                show,
                episodes,
                now,
            ).episodes[i].id == model.episodes[i].id,
    decreases episodes.len(),
{
    if episodes.len() > 0 {
        lemma_discover_grows(model, show, episodes.drop_last(), now);
        let before = model.discovered(show, episodes.drop_last(), now);
        let after = model.discovered(show, episodes, now);
        lemma_find_episode(before.episodes, show, episodes.last().id@);
        assert forall|i: int| 0 <= i < model.episodes.len() implies (
        #[trigger] after.episodes[i]).show == model.episodes[i].show && after.episodes[i].id
            == model.episodes[i].id by {
            assert(before.episodes[i].show == model.episodes[i].show);
        }
    }
}

/// An episode that is found stays found when rows keep their keys and
/// others are added.
proof fn lemma_found_stays_found(
    a: Seq<EpisodeRow>,
    b: Seq<EpisodeRow>,
    show: Seq<char>,
    id: Seq<char>,
)
    requires
        a.len() <= b.len(),
        forall|i: int|
            0 <= i < a.len() ==> (#[trigger] b[i]).show == a[i].show && b[i].id == a[i].id,
        find_episode(a, show, id) is Some,
    ensures
        find_episode(b, show, id) is Some,
{
    lemma_find_episode(a, show, id);
    lemma_find_episode(b, show, id);
    let i = find_episode(a, show, id).unwrap();
    assert(b[i].show == show && b[i].id == id);
}

/// After a listing was recorded, each of its entries is stored.
pub proof fn law_discovered_are_stored(
    model: StorageModel,
    show: Seq<char>,
    episodes: Seq<EpisodeMeta>,
    now: int,
    k: int,
)
    requires
        0 <= k < episodes.len(),
    ensures
        find_episode(
            model.discovered(show, episodes, now).episodes,
            show,
            episodes[k].id@,
        ) is Some,
    decreases episodes.len(),
{
    let last = episodes.last();
    let before = model.discovered(show, episodes.drop_last(), now);
    let after = model.discovered(show, episodes, now);
    lemma_find_episode(before.episodes, show, last.id@);
    if k < episodes.len() - 1 {
        law_discovered_are_stored(model, show, episodes.drop_last(), now, k);
        assert(episodes.drop_last()[k] == episodes[k]);
        lemma_found_stays_found(before.episodes, after.episodes, show, episodes[k].id@);
    } else {
        lemma_find_episode(after.episodes, show, last.id@);
        match find_episode(before.episodes, show, last.id@) {
            Some(i) => {
                assert(after.episodes[i].show == show && after.episodes[i].id == last.id@);
            },
            None => {
                let i = after.episodes.len() - 1;
                assert(after.episodes[i].show == show && after.episodes[i].id == last.id@);
            },
        }
    }
}

/// A listing whose entries are all stored adds nothing.
pub proof fn lemma_known_listing_adds_nothing(
    model: StorageModel,
    show: Seq<char>,
    episodes: Seq<EpisodeMeta>,
    now: int,
)
    requires
        forall|k: int|
            0 <= k < episodes.len() ==> find_episode(
                model.episodes,
                show,
                (#[trigger] episodes[k]).id@,
            ) is Some,
    ensures
        model.discovered_count(show, episodes, now) == 0,
    decreases episodes.len(),
{
    if episodes.len() > 0 {
        let rest = episodes.drop_last();
        assert forall|k: int| 0 <= k < rest.len() implies find_episode(
            model.episodes,
            show,
            (#[trigger] rest[k]).id@,
        ) is Some by {
            assert(rest[k] == episodes[k]);
        }
        lemma_known_listing_adds_nothing(model, show, rest, now);
        lemma_discover_grows(model, show, rest, now);
        let before = model.discovered(show, rest, now);
        assert(find_episode(model.episodes, show, episodes[episodes.len() - 1].id@) is Some);
        lemma_found_stays_found(
            model.episodes,
            before.episodes,
            show,
            episodes[episodes.len() - 1].id@,
        );
    }
}

/// Recording a listing a second time finds nothing new and adds no row.
pub proof fn law_discover_is_idempotent(
    model: StorageModel,
    show: Seq<char>,
    episodes: Seq<EpisodeMeta>,
    now: int,
    later: int,
)
    ensures
        model.discovered(show, episodes, now).discovered_count(show, episodes, later) == 0,
        model.discovered(show, episodes, now).discovered(show, episodes, later).episodes.len()
            == model.discovered(show, episodes, now).episodes.len(),
{
    let once = model.discovered(show, episodes, now);
    assert forall|k: int| 0 <= k < episodes.len() implies find_episode(
        once.episodes,
        show,
        (#[trigger] episodes[k]).id@,
    ) is Some by {
        law_discovered_are_stored(model, show, episodes, now, k);
    }
    lemma_known_listing_adds_nothing(once, show, episodes, later);
    lemma_discover_grows(once, show, episodes, later);
}

/// Whether a listing has an entry with this id.
pub open spec fn lists(listing: Seq<EpisodeMeta>, id: Seq<char>) -> bool {
    exists|k: int| 0 <= k < listing.len() && (#[trigger] listing[k]).id@ == id
}

/// The last entry of a listing with this id, if any: the one whose metadata
/// stands in the end.
pub open spec fn last_listed(listing: Seq<EpisodeMeta>, id: Seq<char>) -> Option<EpisodeMeta>
    decreases listing.len(),
{
    if listing.len() == 0 {
        None
    } else if listing.last().id@ == id {
        Some(listing.last())
    } else {
        last_listed(listing.drop_last(), id)
    }
}

/// One more entry lists its own id besides those listed before.
pub proof fn lemma_lists_step(listing: Seq<EpisodeMeta>, id: Seq<char>)
    requires
        listing.len() > 0,
    ensures
        lists(listing, id) <==> lists(listing.drop_last(), id) || listing.last().id@ == id,
        last_listed(listing, id) is Some <==> lists(listing, id),
    decreases listing.len(),
{
    let before = listing.drop_last();
    if before.len() > 0 {
        lemma_lists_step(before, id);
    } else {
        assert(last_listed(before, id) is None);
    }
    if lists(listing, id) {
        let k = choose|k: int| 0 <= k < listing.len() && (#[trigger] listing[k]).id@ == id;
        if k < before.len() {
            assert(before[k].id@ == id);
        }
    }
    if lists(before, id) {
        let k = choose|k: int| 0 <= k < before.len() && (#[trigger] before[k]).id@ == id;
        assert(listing[k].id@ == id);
    }
    if listing.last().id@ == id {
        assert(listing[listing.len() - 1].id@ == id);
    }
}

/// After a listing was recorded, an episode is stored exactly if it was
/// before or is listed.
pub proof fn lemma_discover_finds(
    model: StorageModel,
    show: Seq<char>,
    listing: Seq<EpisodeMeta>,
    now: int,
    id: Seq<char>,
)
    ensures
        find_episode(model.discovered(show, listing, now).episodes, show, id) is Some
            <==> find_episode(model.episodes, show, id) is Some || lists(listing, id),
    decreases listing.len(),
{
    if listing.len() > 0 {
        let rest = listing.drop_last();
        let last = listing.last();
        let before = model.discovered(show, rest, now).episodes;
        let after = model.discovered(show, listing, now).episodes;
        lemma_discover_finds(model, show, rest, now, id);
        lemma_lists_step(listing, id);
        lemma_find_episode(before, show, id);
        lemma_find_episode(after, show, id);
        lemma_find_episode(before, show, last.id@);
        if find_episode(before, show, id) is Some {
            let i = find_episode(before, show, id).unwrap();
            assert(after[i].show == show && after[i].id == id);
        }
        if find_episode(after, show, id) is Some {
            let i = find_episode(after, show, id).unwrap();
            if i < before.len() {
                assert(before[i].show == show && before[i].id == id);
            }
        }
        if last.id@ == id {
            match find_episode(before, show, last.id@) {
                Some(i) => {
                    assert(after[i].show == show && after[i].id == id);
                },
                None => {
                    assert(after[after.len() - 1].show == show && after[after.len() - 1].id == id);
                },
            }
        }
    }
}

/// Whether no two rows have the same key.
pub open spec fn keys_differ(rows: Seq<EpisodeRow>) -> bool {
    forall|i: int, j: int|
        #![trigger rows[i], rows[j]]
        0 <= i < j < rows.len() ==> rows[i].show != rows[j].show || rows[i].id != rows[j].id
}

/// Recording a listing keeps keys apart, and gives each episode that it
/// lists the publication time of its last entry, and leaves that of others.
pub proof fn lemma_discover_dates(
    model: StorageModel,
    show: Seq<char>,
    listing: Seq<EpisodeMeta>,
    now: int,
)
    requires
        keys_differ(model.episodes),
    ensures
        keys_differ(model.discovered(show, listing, now).episodes),
        forall|k: int|
            0 <= k < model.discovered(show, listing, now).episodes.len() ==> {
                let row = #[trigger] model.discovered(show, listing, now).episodes[k];
                if row.show == show && lists(listing, row.id) {
                    last_listed(listing, row.id) matches Some(entry) && row.published_at
                        == opt_instant(entry.published_at)
                } else {
                    k < model.episodes.len() && row.published_at
                        == model.episodes[k].published_at
                }
            },
    decreases listing.len(),
{
    if listing.len() > 0 {
        let rest = listing.drop_last();
        let last = listing.last();
        lemma_discover_dates(model, show, rest, now);
        let before = model.discovered(show, rest, now).episodes;
        let after = model.discovered(show, listing, now).episodes;
        lemma_find_episode(before, show, last.id@);
        lemma_discover_grows(model, show, rest, now);
        let found = find_episode(before, show, last.id@);
        assert(keys_differ(after)) by {
            assert forall|i: int, j: int|
                #![trigger after[i], after[j]]
                0 <= i < j < after.len() implies after[i].show != after[j].show || after[i].id
                != after[j].id by {
                assert(before[i].show == after[i].show && before[i].id == after[i].id);
                if j < before.len() {
                    assert(before[j].show == after[j].show && before[j].id == after[j].id);
                }
            }
        }
        assert forall|k: int| 0 <= k < after.len() implies {
            let row = #[trigger] after[k];
            if row.show == show && lists(listing, row.id) {
                last_listed(listing, row.id) matches Some(entry) && row.published_at
                    == opt_instant(entry.published_at)
            } else {
                k < model.episodes.len() && row.published_at == model.episodes[k].published_at
            }
        } by {
            lemma_lists_step(listing, after[k].id);
            if k < before.len() {
                assert(before[k].show == after[k].show && before[k].id == after[k].id);
                if after[k].show == show && after[k].id == last.id@ {
                    let i = found.unwrap();
                    if i < k {
                        assert(before[i].show != before[k].show || before[i].id != before[k].id);
                    } else if k < i {
                        assert(before[k].show != before[i].show || before[k].id != before[i].id);
                    }
                }
            }
        }
    }
}

/// A tombstone is never discovered again: listing it once more adds no row
/// for it and leaves it pruned.
pub proof fn law_tombstone_is_not_rediscovered(
    model: StorageModel,
    show: Seq<char>,
    episode: EpisodeMeta,
    now: int,
    i: int,
)
    requires
        find_episode(model.episodes, show, episode.id@) == Some(i),
        model.episodes[i].state is Pruned,
    ensures
        model.discovered(show, seq![episode], now).episodes.len() == model.episodes.len(),
        model.discovered(show, seq![episode], now).episodes[i].state is Pruned,
        model.discovered_count(show, seq![episode], now) == 0,
{
    lemma_find_episode(model.episodes, show, episode.id@);
    let listing = seq![episode];
    assert(listing.drop_last() =~= Seq::empty());
    assert(model.discovered(show, listing.drop_last(), now) == model);
    assert(model.discovered_count(show, listing.drop_last(), now) == 0);
    assert(listing.last() == episode);
}

/// Moving one episode changes no other row and no show.
pub proof fn law_steps_are_local(model: StorageModel, i: int, row: EpisodeRow, j: int)
    requires
        0 <= i < model.episodes.len(),
        0 <= j < model.episodes.len(),
        i != j,
    ensures
        model.with_episode(i, row).episodes[j] == model.episodes[j],
        model.with_episode(i, row).episodes.len() == model.episodes.len(),
        model.with_episode(i, row).shows == model.shows,
{
}

/// A refused move changes nothing.
pub proof fn law_refused_steps_change_nothing(
    before: StorageModel,
    after: StorageModel,
    result: Result<(), StorageError>,
    show: ShowSlug,
    episode: EpisodeId,
    to: EpisodeState,
    row: spec_fn(EpisodeRow) -> EpisodeRow,
)
    requires
        stepped(before, after, result, show, episode, to, row),
        result is Err,
    ensures
        after == before,
{
}

/// A tombstone keeps the digest, size, and metadata of the file it stood
/// for, and forgets where the file was.
pub proof fn law_tombstone_keeps_digest(row: EpisodeRow, file: CachedFile, now: int)
    ensures
        pruned_row(cached_row(row, file, now)).state is Pruned,
        pruned_row(cached_row(row, file, now)).file_path is None,
        pruned_row(cached_row(row, file, now)).blake3 == Some(file.blake3@),
        pruned_row(cached_row(row, file, now)).bytes == Some(stored_bytes(file.bytes)),
        pruned_row(cached_row(row, file, now)).title == row.title,
{
}

/// Progress is transient: completing, failing, or restarting a download
/// clears it.
pub proof fn law_progress_is_transient(
    row: EpisodeRow,
    done: u64,
    total: Option<u64>,
    now: int,
    file: CachedFile,
    class: ErrorClass,
)
    ensures
        cached_row(progress_row(row, done, total, now), file, now).bytes_done is None,
        cached_row(progress_row(row, done, total, now), file, now).progress_at is None,
        failed_row(progress_row(row, done, total, now), class).bytes_done is None,
        downloading_row(progress_row(row, done, total, now)).bytes_total is None,
{
}

/// The name of a lifecycle state.
pub open spec fn state_debug(state: EpisodeState) -> Seq<char> {
    match state {
        EpisodeState::Discovered => "Discovered"@,
        EpisodeState::Downloading => "Downloading"@,
        EpisodeState::Cached => "Cached"@,
        EpisodeState::Pruned => "Pruned"@,
        EpisodeState::Failed(ErrorClass::Network) => "Failed(Network)"@,
        EpisodeState::Failed(ErrorClass::HttpStatus) => "Failed(HttpStatus)"@,
        EpisodeState::Failed(ErrorClass::Parse) => "Failed(Parse)"@,
        EpisodeState::Failed(ErrorClass::Disk) => "Failed(Disk)"@,
    }
}

fn state_name(state: EpisodeState) -> (name: &'static str)
    ensures
        name@ == state_debug(state),
{
    match state {
        EpisodeState::Discovered => "Discovered",
        EpisodeState::Downloading => "Downloading",
        EpisodeState::Cached => "Cached",
        EpisodeState::Pruned => "Pruned",
        EpisodeState::Failed(ErrorClass::Network) => "Failed(Network)",
        EpisodeState::Failed(ErrorClass::HttpStatus) => "Failed(HttpStatus)",
        EpisodeState::Failed(ErrorClass::Parse) => "Failed(Parse)",
        EpisodeState::Failed(ErrorClass::Disk) => "Failed(Disk)",
    }
}

/// The message of a [`StorageError`].
pub open spec fn storage_error_text(error: StorageError) -> Seq<char> {
    match error {
        StorageError::DataDir { path, reason } => "data directory unusable at "@ + path@ + ": "@
            + reason@,
        StorageError::Sqlite(reason) => "database error: "@ + reason@,
        StorageError::Corrupt { table, reason } => "corrupt row in `"@ + table@ + "`: "@
            + reason@,
        StorageError::IllegalTransition { show, episode, from, to } => "illegal transition for episode `"@
            + episode@ + "` of `"@ + show@ + "`: "@ + state_debug(from) + " → "@ + state_debug(to),
        StorageError::EpisodeNotFound { show, episode } => "episode `"@ + episode@ + "` of `"@
            + show@ + "` is not in storage"@,
        StorageError::TaskFailed => "storage task failed to complete"@,
    }
}

impl StorageError {
    /// The message shown to people.
    pub fn to_string(&self) -> (text: String)
        ensures
            text@ == storage_error_text(*self),
    {
        match self {
            StorageError::DataDir { path, reason } => {
                let mut text = "data directory unusable at ".to_owned();
                text.append(path.as_str());
                text.append(": ");
                text.append(reason.as_str());
                text
            },
            StorageError::Sqlite(reason) => {
                let mut text = "database error: ".to_owned();
                text.append(reason.as_str());
                text
            },
            StorageError::Corrupt { table, reason } => {
                let mut text = "corrupt row in `".to_owned();
                text.append(table);
                text.append("`: ");
                text.append(reason.as_str());
                text
            },
            StorageError::IllegalTransition { show, episode, from, to } => {
                let mut text = "illegal transition for episode `".to_owned();
                text.append(episode.as_str());
                text.append("` of `");
                text.append(show.as_str());
                text.append("`: ");
                text.append(state_name(*from));
                text.append(" → ");
                text.append(state_name(*to));
                text
            },
            StorageError::EpisodeNotFound { show, episode } => {
                let mut text = "episode `".to_owned();
                text.append(episode.as_str());
                text.append("` of `");
                text.append(show.as_str());
                text.append("` is not in storage");
                text
            },
            StorageError::TaskFailed => "storage task failed to complete".to_owned(),
        }
    }
}

/// A record's row says what the record says, field by field.
pub proof fn law_rows_mirror_records(episode: EpisodeRecord, show: ShowRecord)
    ensures
        episode@.show == episode.show@,
        episode@.id == episode.id@,
        episode@.title == episode.title@,
        episode@.description == opt_text(episode.description),
        episode@.published_at == opt_instant(episode.published_at),
        episode@.duration_secs == episode.duration_secs,
        episode@.state == episode.state,
        episode@.file_path == opt_text(episode.file_path),
        episode@.bytes == episode.bytes,
        episode@.blake3 == opt_digest(episode.blake3),
        episode@.mime == opt_mime(episode.mime),
        episode@.discovered_at == episode.discovered_at@,
        episode@.downloaded_at == opt_instant(episode.downloaded_at),
        episode@.bytes_done == episode.bytes_done,
        episode@.bytes_total == episode.bytes_total,
        episode@.progress_at == opt_instant(episode.progress_at),
        show@.slug == show.slug@,
        show@.provider == show.provider@,
        show@.title == show.title@,
        show@.description == opt_text(show.description),
        show@.artwork_path == opt_text(show.artwork_path),
        show@.last_poll_at == opt_instant(show.last_poll_at),
        show@.last_poll_ok == show.last_poll_ok,
        show@.last_error == opt_text(show.last_error),
        show@.episodes_etag == opt_text(show.episodes_etag),
{
}

/// A state's rows are those of its records, in their order.
pub proof fn law_the_state_mirrors_its_records(storage: Storage)
    ensures
        storage@.shows.len() == storage.shows@.len(),
        storage@.episodes.len() == storage.episodes@.len(),
        forall|i: int|
            0 <= i < storage.shows@.len() ==> #[trigger] storage@.shows[i] == storage.shows@[i]@,
        forall|i: int|
            0 <= i < storage.episodes@.len() ==> #[trigger] storage@.episodes[i]
                == storage.episodes@[i]@,
{
}

/// Recording a listing takes over what the provider said: each listed
/// episode has a row, and the row, new or known, holds the title, the notes
/// and the publication time of the episode's last entry, and its duration
/// where the entry has one.
pub proof fn law_listings_are_taken_over(
    model: StorageModel,
    show: Seq<char>,
    listing: Seq<EpisodeMeta>,
    now: int,
    k: int,
    i: int,
)
    requires
        keys_differ(model.episodes),
        0 <= k < listing.len(),
        forall|j: int| k < j < listing.len() ==> (#[trigger] listing[j]).id@ != listing[k].id@,
        0 <= i < model.discovered(show, listing, now).episodes.len(),
        model.discovered(show, listing, now).episodes[i].show == show,
        model.discovered(show, listing, now).episodes[i].id == listing[k].id@,
    ensures
        ({
            let row = model.discovered(show, listing, now).episodes[i];
            &&& row.title == listing[k].title@
            &&& match listing[k].description {
                Some(notes) => row.description == Some(notes@),
                None => row.description is None,
            }
            &&& match listing[k].published_at {
                Some(at) => row.published_at == Some(at@),
                None => row.published_at is None,
            }
            &&& listing[k].duration_secs is Some ==> row.duration_secs == listing[k].duration_secs
        }),
        exists|r: int|
            0 <= r < model.discovered(show, listing, now).episodes.len() && (
            #[trigger] model.discovered(show, listing, now).episodes[r]).show == show
                && model.discovered(show, listing, now).episodes[r].id == listing[k].id@,
    decreases listing.len(),
{
    let rest = listing.drop_last();
    let last = listing.last();
    let before = model.discovered(show, rest, now).episodes;
    let after = model.discovered(show, listing, now).episodes;
    lemma_discover_dates(model, show, rest, now);
    lemma_discover_dates(model, show, listing, now);
    lemma_find_episode(before, show, last.id@);
    let found = find_episode(before, show, last.id@);
    if k < listing.len() - 1 {
        assert(listing[listing.len() - 1].id@ != listing[k].id@);
        assert(rest[k] == listing[k]);
        assert forall|j: int| k < j < rest.len() implies (#[trigger] rest[j]).id@
            != rest[k].id@ by {
            assert(rest[j] == listing[j]);
        }
        assert(i < before.len());
        assert(after[i] == before[i]);
        law_listings_are_taken_over(model, show, rest, now, k, i);
    } else {
        match found {
            Some(f) => {
                assert(after[f].show == show && after[f].id == last.id@);
                if f < i {
                    assert(after[f].show != after[i].show || after[f].id != after[i].id);
                } else if i < f {
                    assert(after[i].show != after[f].show || after[i].id != after[f].id);
                }
            },
            None => {
                if i < before.len() {
                    assert(before[i].show != show || before[i].id != last.id@);
                }
            },
        }
    }
    assert(model.discovered(show, listing, now).episodes[i].show == show);
}

/// Recording a listing leaves alone what it does not list: a row of another
/// show, or of an episode that is not listed, stays exactly as it was.
pub proof fn law_unlisted_rows_stay(
    model: StorageModel,
    show: Seq<char>,
    listing: Seq<EpisodeMeta>,
    now: int,
    i: int,
)
    requires
        0 <= i < model.episodes.len(),
        model.episodes[i].show != show || forall|k: int|
            0 <= k < listing.len() ==> (#[trigger] listing[k]).id@ != model.episodes[i].id,
    ensures
        model.discovered(show, listing, now).episodes.len() >= model.episodes.len(),
        model.discovered(show, listing, now).episodes[i] == model.episodes[i],
    decreases listing.len(),
{
    if listing.len() > 0 {
        let rest = listing.drop_last();
        assert forall|k: int| 0 <= k < rest.len() implies #[trigger] rest[k] == listing[k] by {}
        law_unlisted_rows_stay(model, show, rest, now, i);
        lemma_find_episode(
            model.discovered(show, rest, now).episodes,
            show,
            listing.last().id@,
        );
        assert(listing[listing.len() - 1] == listing.last());
    }
}

/// A row that a listing added belongs to the show and to one of its entries,
/// was first seen now, waits to be downloaded, and knows of no file yet.
pub proof fn law_new_rows_await_download(
    model: StorageModel,
    show: Seq<char>,
    listing: Seq<EpisodeMeta>,
    now: int,
    i: int,
)
    requires
        model.episodes.len() <= i < model.discovered(show, listing, now).episodes.len(),
    ensures
        ({
            let row = model.discovered(show, listing, now).episodes[i];
            &&& row.show == show
            &&& exists|k: int| 0 <= k < listing.len() && (#[trigger] listing[k]).id@ == row.id
            &&& row.state == EpisodeState::Discovered
            &&& row.discovered_at == now
            &&& row.file_path is None
            &&& row.bytes is None
            &&& row.blake3 is None
            &&& row.mime is None
            &&& row.downloaded_at is None
            &&& row.bytes_done is None
            &&& row.bytes_total is None
            &&& row.progress_at is None
        }),
    decreases listing.len(),
{
    if listing.len() > 0 {
        let rest = listing.drop_last();
        let before = model.discovered(show, rest, now).episodes;
        lemma_find_episode(before, show, listing.last().id@);
        if i < before.len() {
            law_new_rows_await_download(model, show, rest, now, i);
            let k = choose|k: int|
                0 <= k < rest.len() && (#[trigger] rest[k]).id@ == before[i].id;
            assert(listing[k] == rest[k]);
        } else {
            assert(listing[listing.len() - 1] == listing.last());
        }
    }
}

/// A duration that the listing does not give is kept where it is known, and
/// stays unknown where it is not.
pub proof fn law_durations_are_not_forgotten(
    model: StorageModel,
    show: Seq<char>,
    listing: Seq<EpisodeMeta>,
    now: int,
    i: int,
)
    requires
        0 <= i < model.discovered(show, listing, now).episodes.len(),
        forall|k: int|
            0 <= k < listing.len() && (#[trigger] listing[k]).id@ == model.discovered(
                show,
                listing,
                now,
            ).episodes[i].id ==> listing[k].duration_secs is None,
    ensures
        model.discovered(show, listing, now).episodes[i].duration_secs == if i
            < model.episodes.len() {
            model.episodes[i].duration_secs
        } else {
            None
        },
    decreases listing.len(),
{
    if listing.len() > 0 {
        let rest = listing.drop_last();
        let before = model.discovered(show, rest, now).episodes;
        let after = model.discovered(show, listing, now).episodes;
        lemma_find_episode(before, show, listing.last().id@);
        lemma_discover_grows(model, show, rest, now);
        assert(listing[listing.len() - 1] == listing.last());
        if i < before.len() {
            assert(before[i].id == after[i].id);
            assert forall|k: int|
                0 <= k < rest.len() && (#[trigger] rest[k]).id@ == before[i].id implies rest[k].duration_secs is None by {
                assert(rest[k] == listing[k]);
            }
            law_durations_are_not_forgotten(model, show, rest, now, i);
        }
    }
}

/// What is listed of a show is each of its episodes once, and none of
/// another show.
pub proof fn law_listings_hold_the_show(episodes: Seq<EpisodeRecord>, show: Seq<char>)
    ensures
        listed_episodes(episodes, show).to_multiset() == episodes.filter(
            |e: EpisodeRecord| e.show@ == show,
        ).to_multiset(),
        listed_episodes(episodes, show).len() == episodes.filter(
            |e: EpisodeRecord| e.show@ == show,
        ).len(),
{
    lemma_own_episodes(episodes, show);
    crate::order::law_ranked_rearranges(episodes_of(episodes, show));
}

proof fn lemma_own_episodes(episodes: Seq<EpisodeRecord>, show: Seq<char>)
    ensures
        episodes_of(episodes, show) == episodes.filter(|e: EpisodeRecord| e.show@ == show),
    decreases episodes.len(),
{
    reveal(Seq::filter);
    if episodes.len() > 0 {
        lemma_own_episodes(episodes.drop_last(), show);
    }
}

/// Episodes are listed newest first: of two, the one listed earlier was
/// published no earlier, an undated one comes behind every dated one, and of
/// two published at one time the one with the greater id comes first.
pub proof fn law_episodes_are_listed_newest_first(
    episodes: Seq<EpisodeRecord>,
    show: Seq<char>,
    i: int,
    j: int,
)
    requires
        0 <= i < j < listed_episodes(episodes, show).len(),
    ensures
        ({
            let a = listed_episodes(episodes, show)[i];
            let b = listed_episodes(episodes, show)[j];
            &&& a.published_at is None ==> b.published_at is None
            &&& a.published_at is Some && b.published_at is Some ==> a.published_at->0@
                >= b.published_at->0@
            &&& opt_instant(a.published_at) == opt_instant(b.published_at) ==> a.id@ == b.id@
                || text_before(b.id@, a.id@)
        }),
{
    crate::order::law_ranked_is_ordered(episodes_of(episodes, show));
    let all = listed_episodes(episodes, show);
    assert(!all[j].precedes(&all[i]));
    crate::text::lemma_text_before_total(all[i].id@, all[j].id@);
}

/// Shows are listed by slug, each stored show once.
pub proof fn law_shows_are_listed_by_slug(shows: Seq<ShowRecord>, i: int, j: int)
    requires
        0 <= i < j < ranked(shows).len(),
    ensures
        ranked(shows)[i].slug@ == ranked(shows)[j].slug@ || text_before(
            ranked(shows)[i].slug@,
            ranked(shows)[j].slug@,
        ),
        ranked(shows).to_multiset() == shows.to_multiset(),
{
    crate::order::law_ranked_is_ordered(shows);
    crate::order::law_ranked_rearranges(shows);
    let all = ranked(shows);
    assert(!all[j].precedes(&all[i]));
    crate::text::lemma_text_before_total(all[i].slug@, all[j].slug@);
}

/// A move of an episode succeeds exactly if the episode is stored and its
/// lifecycle allows the state it asks for; then that episode's row is the
/// new one, and no other row changes.
pub proof fn law_steps_move_the_named_episode(
    before: StorageModel,
    after: StorageModel,
    result: Result<(), StorageError>,
    show: ShowSlug,
    episode: EpisodeId,
    to: EpisodeState,
    row: spec_fn(EpisodeRow) -> EpisodeRow,
    i: int,
)
    requires
        stepped(before, after, result, show, episode, to, row),
        keys_differ(before.episodes),
        0 <= i < before.episodes.len(),
    ensures
        after.shows == before.shows,
        after.episodes.len() == before.episodes.len(),
        before.episodes[i].show == show@ && before.episodes[i].id == episode@ ==> (result is Ok
            <==> legal_step(before.episodes[i].state, to)),
        before.episodes[i].show == show@ && before.episodes[i].id == episode@ && result is Ok
            ==> after.episodes[i] == row(before.episodes[i]),
        before.episodes[i].show != show@ || before.episodes[i].id != episode@
            ==> after.episodes[i] == before.episodes[i],
        result is Err ==> after == before,
{
    lemma_find_episode(before.episodes, show@, episode@);
    match find_episode(before.episodes, show@, episode@) {
        Some(f) => {
            if f < i {
                assert(before.episodes[f].show != before.episodes[i].show || before.episodes[f].id
                    != before.episodes[i].id);
            } else if i < f {
                assert(before.episodes[i].show != before.episodes[f].show || before.episodes[i].id
                    != before.episodes[f].id);
            }
        },
        None => {},
    }
}

/// A completed download is on record as it was reported: its path, size,
/// digest and type, and when it ended. The duration found in the file only
/// fills a gap, and the rest of the row stays.
pub proof fn law_completed_downloads_are_recorded(row: EpisodeRow, file: CachedFile, now: int)
    ensures
        ({
            let after = cached_row(row, file, now);
            &&& after.state == EpisodeState::Cached
            &&& after.file_path == Some(file.file_path@)
            &&& file.bytes <= 0x7fff_ffff_ffff_ffff ==> after.bytes == Some(file.bytes)
            &&& file.bytes > 0x7fff_ffff_ffff_ffff ==> after.bytes == Some(
                0x7fff_ffff_ffff_ffffu64,
            )
            &&& after.blake3 == Some(file.blake3@)
            &&& match file.mime {
                Some(mime) => after.mime == Some(mime@),
                None => after.mime is None,
            }
            &&& after.downloaded_at == Some(now)
            &&& row.duration_secs is Some ==> after.duration_secs == row.duration_secs
            &&& row.duration_secs is None ==> after.duration_secs == file.duration_secs
            &&& after.bytes_done is None && after.bytes_total is None && after.progress_at is None
            &&& same_listing(after, row)
        }),
{
}

/// Whether two rows hold the same of what a listing says, the duration
/// aside.
pub open spec fn same_listing(a: EpisodeRow, b: EpisodeRow) -> bool {
    &&& a.show == b.show
    &&& a.id == b.id
    &&& a.title == b.title
    &&& a.description == b.description
    &&& a.published_at == b.published_at
    &&& a.discovered_at == b.discovered_at
}

/// Whether two rows hold the same of the file that was downloaded last.
pub open spec fn same_download(a: EpisodeRow, b: EpisodeRow) -> bool {
    &&& a.bytes == b.bytes
    &&& a.blake3 == b.blake3
    &&& a.mime == b.mime
    &&& a.downloaded_at == b.downloaded_at
    &&& a.duration_secs == b.duration_secs
}

/// Starting, failing and pruning change the state, forget the path, and keep
/// what the listing said and what is known of the last download. Starting
/// and failing forget progress.
pub proof fn law_other_steps_keep_what_is_known(row: EpisodeRow, class: ErrorClass)
    ensures
        downloading_row(row).state == EpisodeState::Downloading,
        failed_row(row, class).state == EpisodeState::Failed(class),
        pruned_row(row).state == EpisodeState::Pruned,
        downloading_row(row).file_path is None,
        failed_row(row, class).file_path is None,
        pruned_row(row).file_path is None,
        same_listing(downloading_row(row), row) && same_download(downloading_row(row), row),
        same_listing(failed_row(row, class), row) && same_download(failed_row(row, class), row),
        same_listing(pruned_row(row), row) && same_download(pruned_row(row), row),
        downloading_row(row).bytes_done is None,
        downloading_row(row).bytes_total is None,
        downloading_row(row).progress_at is None,
        failed_row(row, class).bytes_done is None,
        failed_row(row, class).bytes_total is None,
        failed_row(row, class).progress_at is None,
{
}

/// Progress says how many bytes came, how many are expected, and when; it
/// changes nothing else.
pub proof fn law_progress_is_recorded(row: EpisodeRow, done: u64, total: Option<u64>, now: int)
    ensures
        ({
            let after = progress_row(row, done, total, now);
            &&& done <= 0x7fff_ffff_ffff_ffff ==> after.bytes_done == Some(done)
            &&& total is None ==> after.bytes_total is None
            &&& total matches Some(n) ==> (n <= 0x7fff_ffff_ffff_ffff ==> after.bytes_total
                == total)
            &&& after.progress_at == Some(now)
            &&& after.state == row.state
            &&& after.file_path == row.file_path
            &&& same_listing(after, row)
            &&& same_download(after, row)
        }),
{
}

/// A download is stale after ten minutes without progress, or without any
/// progress at all, and nothing but a download is. Giving it up is a network
/// failure, which is retried; what is known of the episode stays.
pub proof fn law_stale_downloads_fail(model: StorageModel, show: Seq<char>, now: int, i: int)
    requires
        0 <= i < model.episodes.len(),
    ensures
        ({
            let before = model.episodes[i];
            let after = healed(model, show, now).episodes[i];
            let stale = before.show == show && before.state == EpisodeState::Downloading && (
            before.progress_at matches Some(at) ==> now >= at + 600 * 1_000_000_000);
            &&& stale ==> after.state == EpisodeState::Failed(ErrorClass::Network)
                && after.progress_at is None && after.file_path is None && same_listing(
                after,
                before,
            ) && same_download(after, before)
            &&& !stale ==> after == before
        }),
{
}

/// After a show's metadata came, the show has one row with its slug, and the
/// row holds what came; what is known beside that stays, and a new show has
/// not been polled.
pub proof fn law_shows_take_over_their_metadata(
    model: StorageModel,
    slug: Seq<char>,
    title: Seq<char>,
    description: Option<Seq<char>>,
    provider: Seq<char>,
    i: int,
)
    requires
        model.wf(),
        0 <= i < model.upserted(slug, title, description, provider).shows.len(),
    ensures
        ({
            let after = model.upserted(slug, title, description, provider);
            let row = after.shows[i];
            &&& after.episodes == model.episodes
            &&& row.slug == slug ==> row.title == title && row.description == description
                && row.provider == provider
            &&& row.slug != slug ==> i < model.shows.len() && row == model.shows[i]
            &&& i < model.shows.len() ==> row.slug == model.shows[i].slug && row.artwork_path
                == model.shows[i].artwork_path && row.last_poll_at == model.shows[i].last_poll_at
                && row.last_poll_ok == model.shows[i].last_poll_ok && row.last_error
                == model.shows[i].last_error && row.episodes_etag == model.shows[i].episodes_etag
            &&& i >= model.shows.len() ==> row.slug == slug && row.artwork_path is None
                && row.last_poll_at is None && row.last_poll_ok is None && row.last_error is None
                && row.episodes_etag is None
            &&& exists|k: int| 0 <= k < after.shows.len() && (#[trigger] after.shows[k]).slug
                == slug
        }),
{
    let after = model.upserted(slug, title, description, provider);
    lemma_find_show(model.shows, slug);
    match find_show(model.shows, slug) {
        Some(f) => {
            assert(after.shows[f].slug == slug);
            if f < i {
                assert(model.shows[f].slug != model.shows[i].slug);
            } else if i < f {
                assert(model.shows[i].slug != model.shows[f].slug);
            }
        },
        None => {
            assert(after.shows[after.shows.len() - 1].slug == slug);
            if i < model.shows.len() {
                assert(model.shows[i].slug != slug);
            }
        },
    }
}

/// A poll, an artwork file and a listing's validator are recorded with the
/// show they are about, and change nothing else: a poll without an error
/// succeeded and clears the last error, and one with an error failed and
/// keeps its message.
pub proof fn law_show_facts_are_recorded(
    model: StorageModel,
    slug: Seq<char>,
    error: Option<Seq<char>>,
    path: Seq<char>,
    etag: Option<Seq<char>>,
    now: int,
    i: int,
)
    requires
        model.wf(),
        0 <= i < model.shows.len(),
    ensures
        ({
            let before = model.shows[i];
            let polled = model.polled(slug, error, now);
            let painted = model.with_artwork(slug, path);
            let tagged = model.with_etag(slug, etag);
            &&& polled.episodes == model.episodes && painted.episodes == model.episodes
                && tagged.episodes == model.episodes
            &&& polled.shows.len() == model.shows.len() && painted.shows.len() == model.shows.len()
                && tagged.shows.len() == model.shows.len()
            &&& before.slug != slug ==> polled.shows[i] == before && painted.shows[i] == before
                && tagged.shows[i] == before
            &&& before.slug == slug ==> {
                &&& polled.shows[i].last_poll_at == Some(now)
                &&& error is None ==> polled.shows[i].last_poll_ok == Some(true)
                    && polled.shows[i].last_error is None
                &&& error is Some ==> polled.shows[i].last_poll_ok == Some(false)
                    && polled.shows[i].last_error == error
                &&& same_show(polled.shows[i], before)
                &&& polled.shows[i].artwork_path == before.artwork_path
                &&& polled.shows[i].episodes_etag == before.episodes_etag
                &&& painted.shows[i].artwork_path == Some(path)
                &&& same_show(painted.shows[i], before) && same_poll(painted.shows[i], before)
                &&& painted.shows[i].episodes_etag == before.episodes_etag
                &&& tagged.shows[i].episodes_etag == etag
                &&& same_show(tagged.shows[i], before) && same_poll(tagged.shows[i], before)
                &&& tagged.shows[i].artwork_path == before.artwork_path
            }
        }),
{
    lemma_find_show(model.shows, slug);
    match find_show(model.shows, slug) {
        Some(f) => {
            if f < i {
                assert(model.shows[f].slug != model.shows[i].slug);
            } else if i < f {
                assert(model.shows[i].slug != model.shows[f].slug);
            }
        },
        None => {
            assert(model.shows[i].slug != slug);
        },
    }
}

/// Whether two rows hold the same of what a provider says of a show.
pub open spec fn same_show(a: ShowRow, b: ShowRow) -> bool {
    &&& a.slug == b.slug
    &&& a.provider == b.provider
    &&& a.title == b.title
    &&& a.description == b.description
}

/// Whether two rows hold the same of a show's last poll.
pub open spec fn same_poll(a: ShowRow, b: ShowRow) -> bool {
    &&& a.last_poll_at == b.last_poll_at
    &&& a.last_poll_ok == b.last_poll_ok
    &&& a.last_error == b.last_error
}

/// What is said where the storage cannot do what it is asked.
pub proof fn law_storage_errors_say_why(error: StorageError)
    ensures
        error matches StorageError::DataDir { path, reason } ==> storage_error_text(error)
            == "data directory unusable at "@ + path@ + ": "@ + reason@,
        error matches StorageError::Sqlite(reason) ==> storage_error_text(error)
            == "database error: "@ + reason@,
        error matches StorageError::Corrupt { table, reason } ==> storage_error_text(error)
            == "corrupt row in `"@ + table@ + "`: "@ + reason@,
        error matches StorageError::IllegalTransition { show, episode, from, to }
            ==> storage_error_text(error) == "illegal transition for episode `"@ + episode@
            + "` of `"@ + show@ + "`: "@ + state_debug(from) + " → "@ + state_debug(to),
        error matches StorageError::EpisodeNotFound { show, episode } ==> storage_error_text(error)
            == "episode `"@ + episode@ + "` of `"@ + show@ + "` is not in storage"@,
        error is TaskFailed ==> storage_error_text(error) == "storage task failed to complete"@,
{
}

/// How an illegal step names its states.
pub proof fn law_states_are_named(state: EpisodeState)
    ensures
        state is Discovered ==> state_debug(state) == "Discovered"@,
        state is Downloading ==> state_debug(state) == "Downloading"@,
        state is Cached ==> state_debug(state) == "Cached"@,
        state is Pruned ==> state_debug(state) == "Pruned"@,
        state == EpisodeState::Failed(ErrorClass::Network) ==> state_debug(state)
            == "Failed(Network)"@,
        state == EpisodeState::Failed(ErrorClass::HttpStatus) ==> state_debug(state)
            == "Failed(HttpStatus)"@,
        state == EpisodeState::Failed(ErrorClass::Parse) ==> state_debug(state)
            == "Failed(Parse)"@,
        state == EpisodeState::Failed(ErrorClass::Disk) ==> state_debug(state) == "Failed(Disk)"@,
{
}

} // verus!
