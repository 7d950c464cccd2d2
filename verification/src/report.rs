//! The snapshot of the library's state that the `status` command and the
//! `/debug` route share.

use vstd::prelude::*;

use crate::config::Config;
use crate::domain::{AudioMime, EpisodeId, EpisodeState, ShowSlug};
use crate::paths::join_path;
use crate::storage::{EpisodeRecord, ShowRecord, Storage};
use crate::text::copy_opt;
use crate::timestamp::Timestamp;

verus! {

/// Snapshot of the whole library.
#[derive(Debug)]
pub struct StatusReport {
    /// Per-show state, ordered by slug.
    pub shows: Vec<ShowStatus>,
    /// Shows in the configuration that storage has never seen.
    pub configured_never_synced: Vec<ShowSlug>,
    /// Cached files across all shows.
    pub total_files: usize,
    /// Bytes on disk across all shows.
    pub total_bytes: u64,
    /// How many downloads may run at once.
    pub download_concurrency: usize,
    /// The database file.
    pub state_db: String,
    /// The data directory.
    pub data_dir: String,
}

/// One show's state.
#[derive(Debug)]
pub struct ShowStatus {
    /// The show.
    pub slug: ShowSlug,
    /// Provider-reported title.
    pub title: String,
    /// Provider registry name.
    pub provider: String,
    /// When the show was last polled, if ever.
    pub last_poll_at: Option<Timestamp>,
    /// Whether that poll succeeded.
    pub last_poll_ok: Option<bool>,
    /// Error message of the last failed poll.
    pub last_error: Option<String>,
    /// Bytes on disk for this show.
    pub cached_bytes: u64,
    /// Every episode, newest first.
    pub episodes: Vec<EpisodeStatus>,
}

/// One episode's state.
#[derive(Debug)]
pub struct EpisodeStatus {
    /// The episode.
    pub id: EpisodeId,
    /// Episode notes, if any.
    pub description: Option<String>,
    /// Lifecycle state.
    pub state: EpisodeState,
    /// File size, when downloaded.
    pub bytes: Option<u64>,
    /// Audio MIME type, when known.
    pub mime: Option<AudioMime>,
    /// Duration in seconds, when known.
    pub duration_secs: Option<u32>,
    /// blake3 of the file in hexadecimal, when downloaded.
    pub blake3: Option<String>,
    /// Where the audio lives, while cached.
    pub file_path: Option<String>,
    /// When the download completed.
    pub downloaded_at: Option<Timestamp>,
    /// Bytes received so far, while downloading.
    pub bytes_done: Option<u64>,
    /// Bytes expected, while downloading.
    pub bytes_total: Option<u64>,
    /// When progress was last reported.
    pub progress_at: Option<Timestamp>,
}

/// A sum as a 64-bit count, capped.
pub open spec fn capped(n: nat) -> u64 {
    if n > u64::MAX {
        u64::MAX
    } else {
        n as u64
    }
}

/// Bytes of the cached episodes among these.
pub open spec fn cached_bytes_of(episodes: Seq<EpisodeRecord>) -> nat
    decreases episodes.len(),
{
    if episodes.len() == 0 {
        0
    } else {
        let last = episodes.last();
        cached_bytes_of(episodes.drop_last()) + match (last.state, last.bytes) {
            (EpisodeState::Cached, Some(bytes)) => bytes as nat,
            _ => 0,
        }
    }
}

/// How many of these episodes are cached.
pub open spec fn cached_count_of(episodes: Seq<EpisodeRecord>) -> nat
    decreases episodes.len(),
{
    if episodes.len() == 0 {
        0
    } else {
        cached_count_of(episodes.drop_last()) + if episodes.last().state is Cached {
            1nat
        } else {
            0nat
        }
    }
}

/// Bytes of the cached episodes among these, capped.
pub fn cached_bytes(episodes: &Vec<EpisodeRecord>) -> (bytes: u64)
    ensures
        bytes == capped(cached_bytes_of(episodes@)),
{
    let mut total: u128 = 0;
    let mut i: usize = 0;
    assert(episodes@.take(0) =~= Seq::empty());
    while i < episodes.len()
        invariant
            i <= episodes@.len(),
            total == cached_bytes_of(episodes@.take(i as int)),
            total <= i * 0xffff_ffff_ffff_ffff,
        decreases episodes@.len() - i,
    {
        proof {
            assert(episodes@.take(i + 1).drop_last() =~= episodes@.take(i as int));
            assert(episodes@.take(i + 1).last() == episodes@[i as int]);
            assert(i * 0xffff_ffff_ffff_ffff <= 0xffff_ffff_ffff_ffff * 0xffff_ffff_ffff_ffff)
                by (nonlinear_arith)
                requires
                    i <= 0xffff_ffff_ffff_ffff,
            ;
        }
        match (episodes[i].state, episodes[i].bytes) {
            (EpisodeState::Cached, Some(bytes)) => {
                total = total + bytes as u128;
            },
            _ => {},
        }
        i += 1;
    }
    assert(episodes@.take(episodes@.len() as int) =~= episodes@);
    if total > u64::MAX as u128 {
        u64::MAX
    } else {
        total as u64
    }
}

/// How many of these episodes are cached.
pub fn cached_count(episodes: &Vec<EpisodeRecord>) -> (count: usize)
    ensures
        count == cached_count_of(episodes@),
        count <= episodes@.len(),
{
    let mut count: usize = 0;
    let mut i: usize = 0;
    assert(episodes@.take(0) =~= Seq::empty());
    while i < episodes.len()
        invariant
            i <= episodes@.len(),
            count <= i,
            count == cached_count_of(episodes@.take(i as int)),
        decreases episodes@.len() - i,
    {
        proof {
            assert(episodes@.take(i + 1).drop_last() =~= episodes@.take(i as int));
            assert(episodes@.take(i + 1).last() == episodes@[i as int]);
        }
        if episodes[i].state.is_on_disk() {
            count += 1;
        }
        i += 1;
    }
    assert(episodes@.take(episodes@.len() as int) =~= episodes@);
    count
}

/// Whether `status` is what a report says of an episode.
pub open spec fn episode_status_reads(status: EpisodeStatus, episode: EpisodeRecord) -> bool {
    &&& status.id == episode.id
    &&& status.description == episode.description
    &&& status.state == episode.state
    &&& status.bytes == episode.bytes
    &&& status.mime == episode.mime
    &&& status.duration_secs == episode.duration_secs
    &&& crate::text::opt_text(status.blake3) == crate::storage::opt_digest(episode.blake3)
    &&& status.file_path == episode.file_path
    &&& status.downloaded_at == episode.downloaded_at
    &&& status.bytes_done == episode.bytes_done
    &&& status.bytes_total == episode.bytes_total
    &&& status.progress_at == episode.progress_at
}

/// Whether `status` is what a report says of a show.
pub open spec fn show_status_reads(
    status: ShowStatus,
    show: ShowRecord,
    episodes: Seq<EpisodeRecord>,
) -> bool {
    &&& status.slug == show.slug
    &&& status.title == show.title
    &&& status.provider == show.provider
    &&& status.last_poll_at == show.last_poll_at
    &&& status.last_poll_ok == show.last_poll_ok
    &&& status.last_error == show.last_error
    &&& status.cached_bytes == capped(cached_bytes_of(episodes))
    &&& status.episodes@.len() == episodes.len()
    &&& forall|i: int|
        0 <= i < episodes.len() ==> episode_status_reads(
            #[trigger] status.episodes@[i],
            episodes[i],
        )
}

fn episode_status(episode: &EpisodeRecord) -> (status: EpisodeStatus)
    ensures
        episode_status_reads(status, *episode),
{
    let blake3 = match &episode.blake3 {
        Some(digest) => Some(digest.to_hex()),
        None => None,
    };
    let mime = match &episode.mime {
        Some(mime) => Some(mime.clone()),
        None => None,
    };
    EpisodeStatus {
        id: episode.id.clone(),
        description: copy_opt(&episode.description),
        state: episode.state,
        bytes: episode.bytes,
        mime,
        duration_secs: episode.duration_secs,
        blake3,
        file_path: copy_opt(&episode.file_path),
        downloaded_at: episode.downloaded_at,
        bytes_done: episode.bytes_done,
        bytes_total: episode.bytes_total,
        progress_at: episode.progress_at,
    }
}

/// What a report says of one show, its episodes given newest first.
pub fn show_status(show: &ShowRecord, episodes: &Vec<EpisodeRecord>) -> (status: ShowStatus)
    ensures
        show_status_reads(status, *show, episodes@),
{
    let mut statuses: Vec<EpisodeStatus> = Vec::new();
    let mut i: usize = 0;
    while i < episodes.len()
        invariant
            i <= episodes@.len(),
            statuses@.len() == i,
            forall|k: int|
                0 <= k < i ==> episode_status_reads(#[trigger] statuses@[k], episodes@[k]),
        decreases episodes@.len() - i,
    {
        statuses.push(episode_status(&episodes[i]));
        i += 1;
    }
    ShowStatus {
        slug: show.slug.clone(),
        title: show.title.clone(),
        provider: show.provider.clone(),
        last_poll_at: show.last_poll_at,
        last_poll_ok: show.last_poll_ok,
        last_error: copy_opt(&show.last_error),
        cached_bytes: cached_bytes(episodes),
        episodes: statuses,
    }
}

/// The episodes of a show as reports list them.
pub open spec fn listed_episodes(storage: Storage, show: Seq<char>) -> Seq<EpisodeRecord> {
    crate::storage::listed_episodes(storage.episodes@, show)
}

/// Cached files over the first `n` shows.
pub open spec fn total_files_of(storage: Storage, shows: Seq<ShowRecord>) -> nat
    decreases shows.len(),
{
    if shows.len() == 0 {
        0
    } else {
        total_files_of(storage, shows.drop_last()) + cached_count_of(
            listed_episodes(storage, shows.last().slug@),
        )
    }
}

/// Cached bytes over these shows, each show's capped.
pub open spec fn total_bytes_of(storage: Storage, shows: Seq<ShowRecord>) -> nat
    decreases shows.len(),
{
    if shows.len() == 0 {
        0
    } else {
        total_bytes_of(storage, shows.drop_last()) + capped(
            cached_bytes_of(listed_episodes(storage, shows.last().slug@)),
        ) as nat
    }
}

/// The configured shows that storage has never seen, in order.
pub open spec fn never_synced(config: Config, storage: Storage, n: nat) -> Seq<ShowSlug>
    decreases n,
{
    if n == 0 {
        Seq::empty()
    } else {
        let before = never_synced(config, storage, (n - 1) as nat);
        if crate::storage::find_show(storage@.shows, config.shows@[n - 1].slug@) is None {
            before.push(config.shows@[n - 1].slug)
        } else {
            before
        }
    }
}

/// A count as a machine word, capped.
pub open spec fn capped_count(n: nat) -> usize {
    if n > usize::MAX {
        usize::MAX
    } else {
        n as usize
    }
}

/// Build the full report.
pub fn status_report(config: &Config, storage: &Storage) -> (report: StatusReport)
    ensures
        report.shows@.len() == storage.shows@.len(),
        forall|i: int|
            0 <= i < report.shows@.len() ==> show_status_reads(
                #[trigger] report.shows@[i],
                crate::order::ranked(storage.shows@)[i],
                listed_episodes(*storage, crate::order::ranked(storage.shows@)[i].slug@),
            ),
        report.configured_never_synced@ == never_synced(*config, *storage, config.shows@.len()),
        report.total_files == capped_count(
            total_files_of(*storage, crate::order::ranked(storage.shows@)),
        ),
        report.total_bytes == capped(
            total_bytes_of(*storage, crate::order::ranked(storage.shows@)),
        ),
        report.download_concurrency == config.download_concurrency,
        report.state_db@ == crate::paths::joined_path(config.data_dir@, "splicefeed.db"@),
        report.data_dir@ == config.data_dir@,
{
    let records = storage.shows();
    proof {
        crate::order::law_ranked_rearranges(storage.shows@);
    }
    let mut shows: Vec<ShowStatus> = Vec::new();
    let mut files: u128 = 0;
    let mut bytes: u128 = 0;
    let mut i: usize = 0;
    assert(records@.take(0) =~= Seq::empty());
    while i < records.len()
        invariant
            i <= records@.len(),
            shows@.len() == i,
            forall|k: int|
                0 <= k < i ==> show_status_reads(
                    #[trigger] shows@[k],
                    records@[k],
                    listed_episodes(*storage, records@[k].slug@),
                ),
            files == total_files_of(*storage, records@.take(i as int)),
            bytes == total_bytes_of(*storage, records@.take(i as int)),
            files <= i * 0xffff_ffff_ffff_ffff,
            bytes <= i * 0xffff_ffff_ffff_ffff,
        decreases records@.len() - i,
    {
        proof {
            assert(records@.take(i + 1).drop_last() =~= records@.take(i as int));
            assert(records@.take(i + 1).last() == records@[i as int]);
            assert(i * 0xffff_ffff_ffff_ffff <= 0xffff_ffff_ffff_ffff * 0xffff_ffff_ffff_ffff)
                by (nonlinear_arith)
                requires
                    i <= 0xffff_ffff_ffff_ffff,
            ;
        }
        let episodes = storage.episodes(&records[i].slug);
        let status = show_status(&records[i], &episodes);
        files = files + cached_count(&episodes) as u128;
        bytes = bytes + status.cached_bytes as u128;
        shows.push(status);
        i += 1;
    }
    assert(records@.take(records@.len() as int) =~= records@);
    let mut unsynced: Vec<ShowSlug> = Vec::new();
    let mut k: usize = 0;
    while k < config.shows.len()
        invariant
            k <= config.shows@.len(),
            unsynced@ == never_synced(*config, *storage, k as nat),
        decreases config.shows@.len() - k,
    {
        if storage.show(&config.shows[k].slug).is_none() {
            unsynced.push(config.shows[k].slug.clone());
        }
        k += 1;
    }
    let total_files: usize = if files > usize::MAX as u128 {
        usize::MAX
    } else {
        files as usize
    };
    let total_bytes: u64 = if bytes > u64::MAX as u128 {
        u64::MAX
    } else {
        bytes as u64
    };
    StatusReport {
        shows,
        configured_never_synced: unsynced,
        total_files,
        total_bytes,
        download_concurrency: config.download_concurrency,
        state_db: join_path(config.data_dir(), "splicefeed.db"),
        data_dir: config.data_dir().to_owned(),
    }
}

/// Whether an episode's file is on disk.
pub open spec fn is_cached(episode: EpisodeRecord) -> bool {
    episode.state == EpisodeState::Cached
}

/// Reported bytes and counts add up over two lists one after the other.
pub proof fn law_reports_add_up(a: Seq<EpisodeRecord>, b: Seq<EpisodeRecord>)
    ensures
        cached_bytes_of(a + b) == cached_bytes_of(a) + cached_bytes_of(b),
        cached_count_of(a + b) == cached_count_of(a) + cached_count_of(b),
    decreases b.len(),
{
    if b.len() == 0 {
        assert(a + b =~= a);
    } else {
        law_reports_add_up(a, b.drop_last());
        assert((a + b).drop_last() =~= a + b.drop_last());
    }
}

/// An episode on its own counts with its recorded bytes, and as one file,
/// while it is cached, and with nothing in any other state.
pub proof fn law_only_cached_episodes_count(episode: EpisodeRecord)
    ensures
        is_cached(episode) ==> cached_count_of(seq![episode]) == 1 && match episode.bytes {
            Some(bytes) => cached_bytes_of(seq![episode]) == bytes,
            None => cached_bytes_of(seq![episode]) == 0,
        },
        !is_cached(episode) ==> cached_bytes_of(seq![episode]) == 0 && cached_count_of(
            seq![episode],
        ) == 0,
{
    assert(seq![episode].drop_last() =~= Seq::empty());
    assert(cached_bytes_of(seq![episode].drop_last()) == 0);
    assert(cached_count_of(seq![episode].drop_last()) == 0);
}

/// What is reported of a list depends on its cached episodes alone: leaving
/// out every other changes nothing, and a list without cached episodes has
/// no files and no bytes.
pub proof fn law_reports_depend_on_cached_episodes(episodes: Seq<EpisodeRecord>)
    ensures
        cached_bytes_of(episodes.filter(|e: EpisodeRecord| is_cached(e))) == cached_bytes_of(
            episodes,
        ),
        cached_count_of(episodes) == episodes.filter(|e: EpisodeRecord| is_cached(e)).len(),
        (forall|i: int| 0 <= i < episodes.len() ==> !is_cached(#[trigger] episodes[i]))
            ==> cached_bytes_of(episodes) == 0 && cached_count_of(episodes) == 0,
    decreases episodes.len(),
{
    let cached = |e: EpisodeRecord| is_cached(e);
    reveal(Seq::filter);
    if episodes.len() > 0 {
        let before = episodes.drop_last();
        let last = episodes.last();
        law_reports_depend_on_cached_episodes(before);
        law_only_cached_episodes_count(last);
        law_reports_add_up(before, seq![last]);
        law_reports_add_up(before.filter(cached), seq![last]);
        assert(before + seq![last] =~= episodes);
        assert(before.filter(cached) + seq![last] =~= before.filter(cached).push(last));
        if forall|i: int| 0 <= i < episodes.len() ==> !is_cached(#[trigger] episodes[i]) {
            assert forall|i: int| 0 <= i < before.len() implies !is_cached(
                #[trigger] before[i],
            ) by {
                assert(before[i] == episodes[i]);
            }
            assert(!is_cached(episodes[episodes.len() - 1]));
        }
    }
}

/// Taking a cached episode off the disk lowers the bytes by its own and the
/// count by one, whatever state it goes into; everything else stays.
pub proof fn law_leaving_the_disk_frees_the_bytes(
    episodes: Seq<EpisodeRecord>,
    i: int,
    gone: EpisodeRecord,
    bytes: u64,
)
    requires
        0 <= i < episodes.len(),
        episodes[i].state is Cached,
        episodes[i].bytes == Some(bytes),
        !(gone.state is Cached),
    ensures
        cached_bytes_of(episodes.update(i, gone)) + bytes == cached_bytes_of(episodes),
        cached_count_of(episodes.update(i, gone)) + 1 == cached_count_of(episodes),
{
    let a = episodes.take(i);
    let b = episodes.skip(i + 1);
    let one = seq![episodes[i]];
    let other = seq![gone];
    assert(episodes =~= a + one + b);
    assert(episodes.update(i, gone) =~= a + other + b);
    law_reports_add_up(a + one, b);
    law_reports_add_up(a, one);
    law_reports_add_up(a + other, b);
    law_reports_add_up(a, other);
    law_only_cached_episodes_count(episodes[i]);
    law_only_cached_episodes_count(gone);
}

/// A sum that fits is reported as it is, and a larger one as the largest
/// number there is.
pub proof fn law_sums_are_capped(n: nat)
    ensures
        n <= u64::MAX ==> capped(n) == n,
        n > u64::MAX ==> capped(n) == u64::MAX,
        n <= usize::MAX ==> capped_count(n) == n,
        n > usize::MAX ==> capped_count(n) == usize::MAX,
{
}

/// A report's totals are the sums over its shows.
pub proof fn law_totals_are_sums(storage: Storage, shows: Seq<ShowRecord>, show: ShowRecord)
    ensures
        total_bytes_of(storage, Seq::empty()) == 0,
        total_files_of(storage, Seq::empty()) == 0,
        total_bytes_of(storage, shows.push(show)) == total_bytes_of(storage, shows) + capped(
            cached_bytes_of(
                crate::storage::listed_episodes(storage.episodes@, show.slug@),
            ),
        ),
        total_files_of(storage, shows.push(show)) == total_files_of(storage, shows)
            + cached_count_of(crate::storage::listed_episodes(storage.episodes@, show.slug@)),
{
    assert(shows.push(show).drop_last() =~= shows);
}

/// What a report says of a show is what is stored of it: its names, its last
/// poll, the bytes of its cached episodes, and every episode with its state
/// and its file.
pub proof fn law_reports_say_what_is_stored(
    status: ShowStatus,
    show: ShowRecord,
    episodes: Seq<EpisodeRecord>,
    i: int,
)
    requires
        show_status_reads(status, show, episodes),
        0 <= i < episodes.len(),
    ensures
        status.slug@ == show.slug@,
        status.title@ == show.title@,
        status.provider@ == show.provider@,
        status.last_poll_at == show.last_poll_at,
        status.last_poll_ok == show.last_poll_ok,
        crate::text::opt_text(status.last_error) == crate::text::opt_text(show.last_error),
        cached_bytes_of(episodes) <= u64::MAX ==> status.cached_bytes == cached_bytes_of(episodes),
        status.episodes@.len() == episodes.len(),
        status.episodes@[i].id@ == episodes[i].id@,
        status.episodes@[i].state == episodes[i].state,
        status.episodes@[i].bytes == episodes[i].bytes,
        status.episodes@[i].mime == episodes[i].mime,
        status.episodes@[i].duration_secs == episodes[i].duration_secs,
        status.episodes@[i].file_path == episodes[i].file_path,
        status.episodes@[i].description == episodes[i].description,
        status.episodes@[i].downloaded_at == episodes[i].downloaded_at,
        status.episodes@[i].bytes_done == episodes[i].bytes_done,
        status.episodes@[i].bytes_total == episodes[i].bytes_total,
        status.episodes@[i].progress_at == episodes[i].progress_at,
        match (status.episodes@[i].blake3, episodes[i].blake3) {
            (Some(hex), Some(digest)) => hex@ == digest@,
            (None, None) => true,
            _ => false,
        },
{
    assert(episode_status_reads(status.episodes@[i], episodes[i]));
}

/// A configured show is reported as never synced exactly if no stored show
/// has its slug.
pub proof fn law_never_synced_shows_are_not_stored(
    config: Config,
    storage: Storage,
    n: nat,
    k: int,
)
    requires
        0 <= k < n <= config.shows@.len(),
    ensures
        (forall|j: int|
            0 <= j < storage.shows@.len() ==> (#[trigger] storage.shows@[j]).slug@
                != config.shows@[k].slug@) ==> never_synced(config, storage, n).contains(
            config.shows@[k].slug,
        ),
        never_synced(config, storage, n).contains(config.shows@[k].slug) ==> forall|j: int|
            0 <= j < storage.shows@.len() ==> (#[trigger] storage.shows@[j]).slug@
                != config.shows@[k].slug@,
{
    let slug = config.shows@[k].slug;
    lemma_never_synced(config, storage, n, slug);
    crate::storage::lemma_find_show(storage@.shows, slug@);
    assert forall|j: int| 0 <= j < storage.shows@.len() implies storage@.shows[j].slug == (
    #[trigger] storage.shows@[j]).slug@ by {}
    if forall|j: int|
        0 <= j < storage.shows@.len() ==> (#[trigger] storage.shows@[j]).slug@ != slug@ {
        if crate::storage::find_show(storage@.shows, slug@) is Some {
            let j = crate::storage::find_show(storage@.shows, slug@).unwrap();
            assert(storage.shows@[j].slug@ == slug@);
        }
        lemma_unsynced_is_listed(config, storage, n, k);
    }
    if never_synced(config, storage, n).contains(slug) {
        assert forall|j: int| 0 <= j < storage.shows@.len() implies (
        #[trigger] storage.shows@[j]).slug@ != slug@ by {
            assert(storage@.shows[j].slug != slug@);
        }
    }
}

proof fn lemma_never_synced(config: Config, storage: Storage, n: nat, slug: ShowSlug)
    ensures
        never_synced(config, storage, n).contains(slug) ==> crate::storage::find_show(
            storage@.shows,
            slug@,
        ) is None,
    decreases n,
{
    if n > 0 {
        lemma_never_synced(config, storage, (n - 1) as nat, slug);
        let before = never_synced(config, storage, (n - 1) as nat);
        let all = never_synced(config, storage, n);
        if all.contains(slug) {
            let i = choose|i: int| 0 <= i < all.len() && all[i] == slug;
            if i < before.len() {
                assert(before[i] == slug);
            }
        }
    }
}

proof fn lemma_unsynced_is_listed(config: Config, storage: Storage, n: nat, k: int)
    requires
        0 <= k < n,
        crate::storage::find_show(storage@.shows, config.shows@[k].slug@) is None,
    ensures
        never_synced(config, storage, n).contains(config.shows@[k].slug),
    decreases n,
{
    let before = never_synced(config, storage, (n - 1) as nat);
    let all = never_synced(config, storage, n);
    if k < n - 1 {
        lemma_unsynced_is_listed(config, storage, (n - 1) as nat, k);
        let i = choose|i: int| 0 <= i < before.len() && before[i] == config.shows@[k].slug;
        assert(all[i] == config.shows@[k].slug);
    } else {
        assert(all[before.len() as int] == config.shows@[k].slug);
    }
}

} // verus!
