//! The library as a whole: what a sync of one show does to the state,
//! which episodes to fetch and to prune, the feeds and the subscription
//! list, and the verification of cached files.
//!
//! A sync plans retention over the listing and what is cached before
//! anything is downloaded, so an episode that would be pruned right back out
//! is never fetched, and a tombstone that fits a widened policy is revived.

use vstd::prelude::*;

use crate::config::{ArtworkOverride, Config, ConfigError, Retention, ShowConfig};
use crate::digest::Digest;
use crate::domain::{
    is_slug, AudioMime, EpisodeId, EpisodeMeta, EpisodeState, ErrorClass, ShowMeta, ShowSlug,
};
use crate::ipc::{event_models, EventModel, KnownEvent};
use crate::opml::Subscription;
use crate::paths::join_path;
use crate::providers::ProviderError;
use crate::retention::{kept_flags, plan, Candidate};
use crate::rss::{Feed, Item};
use crate::storage::{CachedFile, EpisodeRecord, Storage, StorageError, StorageModel};
use crate::text::{
    after_last, chars_of, copy_opt, cut_at_either, decimal_text, from_chars, tail_after,
    up_to_either,
};
use crate::timestamp::Timestamp;
use crate::weburl::WebUrl;

verus! {

/// Errors surfaced by the library.
#[derive(Debug)]
pub enum LibraryError {
    /// Configuration failed to load or validate.
    Config(ConfigError),
    /// A provider operation failed.
    Provider(ProviderError),
    /// A storage operation failed.
    Storage(StorageError),
    /// The named show is not in the configuration.
    UnknownShow(ShowSlug),
    /// The named show was never synced.
    NotSynced(ShowSlug),
    /// The external base URL cannot be extended to the library's routes.
    ExternalBaseUrl(String),
}

/// The message of a [`LibraryError`].
pub open spec fn library_error_text(error: LibraryError) -> Seq<char> {
    match error {
        LibraryError::Config(error) => crate::config::config_error_text(error),
        LibraryError::Provider(error) => crate::providers::provider_error_text(error),
        LibraryError::Storage(error) => crate::storage::storage_error_text(error),
        LibraryError::UnknownShow(slug) => "show `"@ + slug@ + "` is not configured"@,
        LibraryError::NotSynced(slug) => "show `"@ + slug@ + "` has not been synced yet"@,
        LibraryError::ExternalBaseUrl(url) => "external base URL cannot hold a path: "@ + url@,
    }
}

impl LibraryError {
    /// The message shown to people.
    pub fn to_string(&self) -> (text: String)
        ensures
            text@ == library_error_text(*self),
    {
        match self {
            LibraryError::Config(error) => error.to_string(),
            LibraryError::Provider(error) => error.to_string(),
            LibraryError::Storage(error) => error.to_string(),
            LibraryError::UnknownShow(slug) => {
                let mut text = "show `".to_owned();
                text.append(slug.as_str());
                text.append("` is not configured");
                text
            },
            LibraryError::NotSynced(slug) => {
                let mut text = "show `".to_owned();
                text.append(slug.as_str());
                text.append("` has not been synced yet");
                text
            },
            LibraryError::ExternalBaseUrl(url) => {
                let mut text = "external base URL cannot hold a path: ".to_owned();
                text.append(url.as_str());
                text
            },
        }
    }
}

/// What a sync did for one show.
#[derive(Debug, Clone, Copy, PartialEq, Eq, Structural)]
pub struct SyncReport {
    /// Episodes newly discovered by this sync.
    pub discovered: u32,
    /// Episodes downloaded to disk.
    pub downloaded: u32,
    /// Episodes removed by retention.
    pub pruned: u32,
}

impl Default for SyncReport {
    fn default() -> (report: SyncReport)
        ensures
            report == (SyncReport { discovered: 0, downloaded: 0, pruned: 0 }),
    {
        SyncReport { discovered: 0, downloaded: 0, pruned: 0 }
    }
}

/// Where a configured show stands, if anywhere.
pub open spec fn find_config(shows: Seq<ShowConfig>, slug: Seq<char>) -> Option<int>
    decreases shows.len(),
{
    if shows.len() == 0 {
        None
    } else {
        match find_config(shows.drop_last(), slug) {
            Some(i) => Some(i),
            None => if shows.last().slug@ == slug {
                Some(shows.len() - 1)
            } else {
                None
            },
        }
    }
}

/// A show found among the first is found at the same place among all.
pub proof fn lemma_find_config_take(shows: Seq<ShowConfig>, slug: Seq<char>, n: int)
    requires
        0 <= n <= shows.len(),
        find_config(shows.take(n), slug) is Some,
    ensures
        find_config(shows, slug) == find_config(shows.take(n), slug),
    decreases shows.len(),
{
    if n < shows.len() {
        assert(shows.drop_last().take(n) =~= shows.take(n));
        lemma_find_config_take(shows.drop_last(), slug, n);
    } else {
        assert(shows.take(n) =~= shows);
    }
}

/// The configuration of a show, or that it has none.
pub fn show_config<'a>(config: &'a Config, slug: &ShowSlug) -> (show: Result<
    &'a ShowConfig,
    LibraryError,
>)
    ensures
        match show {
            Ok(show) => find_config(config.shows@, slug@) matches Some(i) && 0 <= i
                < config.shows@.len() && *show == config.shows@[i] && show.slug@ == slug@,
            Err(error) => find_config(config.shows@, slug@) is None && error
                == LibraryError::UnknownShow(*slug),
        },
{
    let mut i: usize = 0;
    assert(config.shows@.take(0) =~= Seq::empty());
    while i < config.shows.len()
        invariant
            i <= config.shows@.len(),
            find_config(config.shows@.take(i as int), slug@) is None,
        decreases config.shows@.len() - i,
    {
        proof {
            assert(config.shows@.take(i + 1).drop_last() =~= config.shows@.take(i as int));
            assert(config.shows@.take(i + 1).last() == config.shows@[i as int]);
        }
        if config.shows[i].slug.same(slug) {
            proof {
                lemma_find_config_take(config.shows@, slug@, i + 1);
            }
            return Ok(&config.shows[i]);
        }
        i += 1;
    }
    assert(config.shows@.take(config.shows@.len() as int) =~= config.shows@);
    Err(LibraryError::UnknownShow(slug.clone()))
}

/// Whether an episode in this state is waiting to be fetched.
pub open spec fn wants_download(state: EpisodeState) -> bool {
    state is Discovered || state is Failed || state is Pruned
}

/// The size retention reckons with: what is recorded, else nothing.
pub open spec fn projected_bytes(bytes: Option<u64>) -> u64 {
    match bytes {
        Some(bytes) => bytes,
        None => 0,
    }
}

/// An episode as retention sees it.
pub open spec fn candidate_of(episode: EpisodeRecord) -> Candidate {
    Candidate { id: episode.id, bytes: projected_bytes(episode.bytes) }
}

/// Episodes as retention sees them.
pub open spec fn candidates_of(episodes: Seq<EpisodeRecord>) -> Seq<Candidate> {
    episodes.map_values(|e: EpisodeRecord| candidate_of(e))
}

/// Whether episode `i` of a window is to be fetched: it waits for it, and
/// retention would keep it.
pub open spec fn fetches(policy: Retention, window: Seq<EpisodeRecord>, i: int) -> bool {
    wants_download(window[i].state) && crate::retention::keeps(policy, candidates_of(window), i)
}

/// The ids to fetch among the first `n` episodes of a window.
pub open spec fn fetch_ids(policy: Retention, window: Seq<EpisodeRecord>, n: nat) -> Seq<EpisodeId>
    decreases n,
{
    if n == 0 {
        Seq::empty()
    } else {
        let before = fetch_ids(policy, window, (n - 1) as nat);
        if fetches(policy, window, n - 1) {
            before.push(window[n - 1].id)
        } else {
            before
        }
    }
}

/// Episodes as retention sees them.
fn to_candidates(episodes: &Vec<EpisodeRecord>) -> (candidates: Vec<Candidate>)
    ensures
        candidates@ == candidates_of(episodes@),
{
    let mut candidates: Vec<Candidate> = Vec::new();
    let mut i: usize = 0;
    while i < episodes.len()
        invariant
            i <= episodes@.len(),
            candidates@ == candidates_of(episodes@).take(i as int),
        decreases episodes@.len() - i,
    {
        let bytes: u64 = match episodes[i].bytes {
            Some(bytes) => bytes,
            None => 0,
        };
        candidates.push(Candidate { id: episodes[i].id.clone(), bytes });
        assert(candidates@ =~= candidates_of(episodes@).take(i + 1));
        i += 1;
    }
    assert(candidates_of(episodes@).take(episodes@.len() as int) =~= candidates_of(episodes@));
    candidates
}

/// The episodes of a window (newest first) to fetch, newest first: those
/// that are not on disk or on their way, and that retention will keep.
pub fn fetch_plan(policy: &Retention, window: &Vec<EpisodeRecord>) -> (ids: Vec<EpisodeId>)
    ensures
        ids@ == fetch_ids(*policy, window@, window@.len()),
{
    let candidates = to_candidates(window);
    let flags = kept_flags(policy, &candidates);
    let mut ids: Vec<EpisodeId> = Vec::new();
    let mut i: usize = 0;
    while i < window.len()
        invariant
            i <= window@.len(),
            candidates@ == candidates_of(window@),
            flags@.len() == candidates@.len(),
            forall|k: int|
                0 <= k < candidates@.len() ==> #[trigger] flags@[k] == crate::retention::keeps(
                    *policy,
                    candidates@,
                    k,
                ),
            ids@ == fetch_ids(*policy, window@, i as nat),
        decreases window@.len() - i,
    {
        let waiting = match window[i].state {
            EpisodeState::Discovered => true,
            EpisodeState::Failed(_) => true,
            EpisodeState::Pruned => true,
            _ => false,
        };
        if waiting && flags[i] {
            ids.push(window[i].id.clone());
        }
        i += 1;
    }
    ids
}

/// The plan fetches exactly the waiting episodes that retention keeps: in
/// particular a failed one is retried, and a tombstone that fits the policy
/// is revived.
pub proof fn law_fetch_plan_is_exact(
    policy: Retention,
    window: Seq<EpisodeRecord>,
    n: nat,
    id: EpisodeId,
)
    requires
        n <= window.len(),
    ensures
        fetch_ids(policy, window, n).contains(id) <==> exists|i: int|
            0 <= i < n && #[trigger] fetches(policy, window, i) && window[i].id == id,
    decreases n,
{
    let all = fetch_ids(policy, window, n);
    if n > 0 {
        let before = fetch_ids(policy, window, (n - 1) as nat);
        law_fetch_plan_is_exact(policy, window, (n - 1) as nat, id);
        if all.contains(id) {
            let k = choose|k: int| 0 <= k < all.len() && all[k] == id;
            if k < before.len() {
                assert(before[k] == id);
                assert(before.contains(id));
            } else {
                assert(fetches(policy, window, n - 1) && window[n - 1].id == id);
            }
        }
        if exists|i: int|
            0 <= i < n && #[trigger] fetches(policy, window, i) && window[i].id == id {
            let i = choose|i: int|
                0 <= i < n && #[trigger] fetches(policy, window, i) && window[i].id == id;
            if i < n - 1 {
                assert(before.contains(id));
                let k = choose|k: int| 0 <= k < before.len() && before[k] == id;
                assert(all[k] == id);
            } else {
                assert(all[all.len() - 1] == id);
            }
        }
    }
}

/// Where everything that retention keeps is on disk or on its way, nothing
/// is fetched.
pub proof fn law_a_full_cache_fetches_nothing(
    policy: Retention,
    window: Seq<EpisodeRecord>,
    n: nat,
)
    requires
        n <= window.len(),
        forall|i: int|
            0 <= i < window.len() && crate::retention::keeps(policy, candidates_of(window), i)
                ==> (#[trigger] window[i]).state is Cached || window[i].state is Downloading,
    ensures
        fetch_ids(policy, window, n).len() == 0,
    decreases n,
{
    if n > 0 {
        law_a_full_cache_fetches_nothing(policy, window, (n - 1) as nat);
        let last = window[n - 1];
    }
}

/// The cached episodes among these, in order.
pub open spec fn cached_of(episodes: Seq<EpisodeRecord>) -> Seq<EpisodeRecord>
    decreases episodes.len(),
{
    if episodes.len() == 0 {
        Seq::empty()
    } else {
        let before = cached_of(episodes.drop_last());
        if episodes.last().state is Cached {
            before.push(episodes.last())
        } else {
            before
        }
    }
}

/// The cached episodes among these, in order.
pub fn cached(episodes: &Vec<EpisodeRecord>) -> (cached: Vec<EpisodeRecord>)
    ensures
        cached@ == cached_of(episodes@),
{
    let mut cached: Vec<EpisodeRecord> = Vec::new();
    let mut i: usize = 0;
    assert(episodes@.take(0) =~= Seq::empty());
    while i < episodes.len()
        invariant
            i <= episodes@.len(),
            cached@ == cached_of(episodes@.take(i as int)),
        decreases episodes@.len() - i,
    {
        proof {
            assert(episodes@.take(i + 1).drop_last() =~= episodes@.take(i as int));
            assert(episodes@.take(i + 1).last() == episodes@[i as int]);
        }
        if episodes[i].state.is_on_disk() {
            cached.push(episodes[i].clone());
        }
        i += 1;
    }
    assert(episodes@.take(episodes@.len() as int) =~= episodes@);
    cached
}

/// The cached episodes (of a list that is newest first) to prune, oldest
/// first.
pub fn prune_plan(policy: &Retention, episodes: &Vec<EpisodeRecord>) -> (ids: Vec<EpisodeId>)
    ensures
        ids@ == doomed_ids(*policy, episodes@).reverse(),
{
    let on_disk = cached(episodes);
    let candidates = to_candidates(&on_disk);
    plan(policy, &candidates)
}

/// The first `bound` entries of a listing, where it is bounded.
pub open spec fn bounded<T>(listing: Seq<T>, bound: Option<u32>) -> Seq<T> {
    match bound {
        Some(n) => if n < listing.len() {
            listing.take(n as int)
        } else {
            listing
        },
        None => listing,
    }
}

/// Whether an id is among the wanted ones.
pub open spec fn is_wanted(wanted: Seq<EpisodeId>, id: Seq<char>) -> bool {
    exists|i: int| 0 <= i < wanted.len() && #[trigger] wanted[i]@ == id
}

/// Whether a sync plans over an episode: it is wanted, or its file counts
/// already.
pub open spec fn in_window(episode: EpisodeRecord, wanted: Seq<EpisodeId>) -> bool {
    episode.state is Cached || is_wanted(wanted, episode.id@)
}

/// The stored episodes that a sync plans over, in order: the wanted ones
/// and the cached ones.
pub open spec fn window_of(episodes: Seq<EpisodeRecord>, wanted: Seq<EpisodeId>) -> Seq<
    EpisodeRecord,
>
    decreases episodes.len(),
{
    if episodes.len() == 0 {
        Seq::empty()
    } else {
        let before = window_of(episodes.drop_last(), wanted);
        if in_window(episodes.last(), wanted) {
            before.push(episodes.last())
        } else {
            before
        }
    }
}

/// The ids a sync fetches, given the stored episodes, newest first, and the
/// wanted ones.
pub open spec fn sync_ids(
    policy: Retention,
    episodes: Seq<EpisodeRecord>,
    wanted: Seq<EpisodeId>,
) -> Seq<EpisodeId> {
    fetch_ids(policy, window_of(episodes, wanted), window_of(episodes, wanted).len())
}

/// The ids a sync prunes, given the stored episodes, newest first.
pub open spec fn doomed_ids(policy: Retention, episodes: Seq<EpisodeRecord>) -> Seq<EpisodeId> {
    crate::retention::candidate_ids(
        crate::retention::doomed(policy, candidates_of(cached_of(episodes))),
    )
}

/// The ids of a listing.
pub open spec fn listing_ids(listing: Seq<EpisodeMeta>) -> Seq<EpisodeId> {
    listing.map_values(|m: EpisodeMeta| m.id)
}

/// The ids of stored episodes.
pub open spec fn record_ids(episodes: Seq<EpisodeRecord>) -> Seq<EpisodeId> {
    episodes.map_values(|e: EpisodeRecord| e.id)
}

/// The ids to fetch of the stored episodes, newest first: those that are
/// wanted and not on disk or on their way, and that retention will keep
/// beside what is cached.
pub fn sync_plan(
    policy: &Retention,
    episodes: &Vec<EpisodeRecord>,
    wanted: &Vec<EpisodeId>,
) -> (ids: Vec<EpisodeId>)
    ensures
        ids@ == sync_ids(*policy, episodes@, wanted@),
{
    let mut window: Vec<EpisodeRecord> = Vec::new();
    let mut i: usize = 0;
    assert(episodes@.take(0) =~= Seq::empty());
    while i < episodes.len()
        invariant
            i <= episodes@.len(),
            window@ == window_of(episodes@.take(i as int), wanted@),
        decreases episodes@.len() - i,
    {
        proof {
            assert(episodes@.take(i + 1).drop_last() =~= episodes@.take(i as int));
            assert(episodes@.take(i + 1).last() == episodes@[i as int]);
        }
        let mut k: usize = 0;
        let mut found = false;
        while k < wanted.len()
            invariant
                i < episodes@.len(),
                k <= wanted@.len(),
                found == (exists|j: int|
                    0 <= j < k && #[trigger] wanted@[j]@ == episodes@[i as int].id@),
            decreases wanted@.len() - k,
        {
            if wanted[k].same(&episodes[i].id) {
                assert(wanted@[k as int]@ == episodes@[i as int].id@);
                found = true;
            }
            k += 1;
        }
        if found || episodes[i].state.is_on_disk() {
            window.push(episodes[i].clone());
        }
        i += 1;
    }
    assert(episodes@.take(episodes@.len() as int) =~= episodes@);
    fetch_plan(policy, &window)
}

/// Whether the plan fetches episode `i`, told from the episodes up to it.
pub open spec fn plans(
    policy: Retention,
    episodes: Seq<EpisodeRecord>,
    wanted: Seq<EpisodeId>,
    i: int,
) -> bool {
    &&& in_window(episodes[i], wanted)
    &&& wants_download(episodes[i].state)
    &&& crate::retention::may_keep(
        policy,
        crate::retention::kept(policy, candidates_of(window_of(episodes.take(i), wanted))),
        candidate_of(episodes[i]),
    )
}

/// Whether retention prunes episode `i`, told from the episodes up to it.
pub open spec fn dooms(policy: Retention, episodes: Seq<EpisodeRecord>, i: int) -> bool {
    &&& episodes[i].state is Cached
    &&& !crate::retention::may_keep(
        policy,
        crate::retention::kept(policy, candidates_of(cached_of(episodes.take(i)))),
        candidate_of(episodes[i]),
    )
}

/// Whether a plan fetches an episode does not depend on what comes behind
/// it.
proof fn lemma_fetch_ids_prefix(
    policy: Retention,
    window: Seq<EpisodeRecord>,
    last: EpisodeRecord,
    n: nat,
)
    requires
        n <= window.len(),
    ensures
        fetch_ids(policy, window.push(last), n) == fetch_ids(policy, window, n),
    decreases n,
{
    if n > 0 {
        lemma_fetch_ids_prefix(policy, window, last, (n - 1) as nat);
        assert(candidates_of(window.push(last)).take(n - 1) =~= candidates_of(window).take(n - 1));
    }
}

/// What one more episode adds to the plan.
proof fn lemma_sync_ids_step(
    policy: Retention,
    episodes: Seq<EpisodeRecord>,
    wanted: Seq<EpisodeId>,
)
    requires
        episodes.len() > 0,
    ensures
        sync_ids(policy, episodes, wanted) == if plans(
            policy,
            episodes,
            wanted,
            episodes.len() - 1,
        ) {
            sync_ids(policy, episodes.drop_last(), wanted).push(episodes.last().id)
        } else {
            sync_ids(policy, episodes.drop_last(), wanted)
        },
{
    let before = window_of(episodes.drop_last(), wanted);
    assert(episodes.take(episodes.len() - 1) =~= episodes.drop_last());
    if in_window(episodes.last(), wanted) {
        let all = before.push(episodes.last());
        lemma_fetch_ids_prefix(policy, before, episodes.last(), before.len());
        assert(candidates_of(all).take(before.len() as int) =~= candidates_of(before));
        assert(candidates_of(all)[before.len() as int] == candidate_of(episodes.last()));
    }
}

/// What one more episode adds to what is pruned.
proof fn lemma_doomed_ids_step(policy: Retention, episodes: Seq<EpisodeRecord>)
    requires
        episodes.len() > 0,
    ensures
        doomed_ids(policy, episodes) == if dooms(policy, episodes, episodes.len() - 1) {
            doomed_ids(policy, episodes.drop_last()).push(episodes.last().id)
        } else {
            doomed_ids(policy, episodes.drop_last())
        },
{
    let before = candidates_of(cached_of(episodes.drop_last()));
    assert(episodes.take(episodes.len() - 1) =~= episodes.drop_last());
    if episodes.last().state is Cached {
        let all = candidates_of(cached_of(episodes));
        assert(all =~= before.push(candidate_of(episodes.last())));
        assert(all.drop_last() =~= before);
        assert(all.last() == candidate_of(episodes.last()));
        assert(doomed_ids(policy, episodes) =~= if dooms(policy, episodes, episodes.len() - 1) {
            doomed_ids(policy, episodes.drop_last()).push(episodes.last().id)
        } else {
            doomed_ids(policy, episodes.drop_last())
        });
    }
}

/// Where ids differ, an episode is fetched, or pruned, exactly if it says so
/// of the episodes up to it.
proof fn lemma_plans_by_id(
    policy: Retention,
    episodes: Seq<EpisodeRecord>,
    wanted: Seq<EpisodeId>,
    id: Seq<char>,
)
    requires
        crate::storage::ids_differ(episodes),
    ensures
        is_wanted(sync_ids(policy, episodes, wanted), id) ==> exists|i: int|
            0 <= i < episodes.len() && (#[trigger] episodes[i]).id@ == id,
        is_wanted(doomed_ids(policy, episodes), id) ==> exists|i: int|
            0 <= i < episodes.len() && (#[trigger] episodes[i]).id@ == id,
        forall|i: int|
            0 <= i < episodes.len() && (#[trigger] episodes[i]).id@ == id ==> is_wanted(
                sync_ids(policy, episodes, wanted),
                id,
            ) == plans(policy, episodes, wanted, i) && is_wanted(doomed_ids(policy, episodes), id)
                == dooms(policy, episodes, i),
    decreases episodes.len(),
{
    if episodes.len() == 0 {
        assert(window_of(episodes, wanted).len() == 0);
        assert(candidates_of(cached_of(episodes)).len() == 0);
    } else {
        let before = episodes.drop_last();
        let last = episodes.len() - 1;
        assert forall|i: int, j: int|
            #![trigger before[i], before[j]]
            0 <= i < j < before.len() implies before[i].id@ != before[j].id@ by {
            assert(before[i] == episodes[i] && before[j] == episodes[j]);
        }
        lemma_plans_by_id(policy, before, wanted, id);
        lemma_sync_ids_step(policy, episodes, wanted);
        lemma_doomed_ids_step(policy, episodes);
        let fetch = sync_ids(policy, before, wanted);
        let prune = doomed_ids(policy, before);
        lemma_wanted_push(fetch, episodes.last().id, id);
        lemma_wanted_push(prune, episodes.last().id, id);
        if is_wanted(fetch, id) || is_wanted(prune, id) {
            let k = choose|k: int| 0 <= k < before.len() && (#[trigger] before[k]).id@ == id;
            assert(episodes[k].id@ == id);
        }
        if episodes.last().id@ == id {
            assert(episodes[last].id@ == id);
        }
        assert forall|i: int| 0 <= i < episodes.len() && (#[trigger] episodes[i]).id@
            == id implies is_wanted(sync_ids(policy, episodes, wanted), id) == plans(
            policy,
            episodes,
            wanted,
            i,
        ) && is_wanted(doomed_ids(policy, episodes), id) == dooms(policy, episodes, i) by {
            if i < last {
                assert(before[i] == episodes[i]);
                assert(before.take(i) =~= episodes.take(i));
                assert(episodes[last].id@ != episodes[i].id@);
            } else if is_wanted(fetch, id) || is_wanted(prune, id) {
                let k = choose|k: int| 0 <= k < before.len() && (#[trigger] before[k]).id@ == id;
                assert(episodes[k].id@ != episodes[last].id@);
            }
        }
    }
}

proof fn lemma_wanted_push(ids: Seq<EpisodeId>, last: EpisodeId, id: Seq<char>)
    ensures
        is_wanted(ids.push(last), id) <==> is_wanted(ids, id) || last@ == id,
{
    let all = ids.push(last);
    if is_wanted(ids, id) {
        let k = choose|k: int| 0 <= k < ids.len() && #[trigger] ids[k]@ == id;
        assert(all[k]@ == id);
    }
    if is_wanted(all, id) {
        let k = choose|k: int| 0 <= k < all.len() && #[trigger] all[k]@ == id;
        if k < ids.len() {
            assert(ids[k]@ == id);
        }
    }
    if last@ == id {
        assert(all[ids.len() as int]@ == id);
    }
}

/// Only wanted episodes are fetched.
pub proof fn law_only_wanted_are_fetched(
    policy: Retention,
    episodes: Seq<EpisodeRecord>,
    wanted: Seq<EpisodeId>,
    id: Seq<char>,
)
    requires
        is_wanted(sync_ids(policy, episodes, wanted), id),
    ensures
        is_wanted(wanted, id),
    decreases episodes.len(),
{
    if episodes.len() == 0 {
        assert(window_of(episodes, wanted).len() == 0);
    } else {
        let before = episodes.drop_last();
        lemma_sync_ids_step(policy, episodes, wanted);
        lemma_wanted_push(sync_ids(policy, before, wanted), episodes.last().id, id);
        if is_wanted(sync_ids(policy, before, wanted), id) {
            law_only_wanted_are_fetched(policy, before, wanted, id);
        }
    }
}

/// Whether `after` is what the episodes are once those with the given ids
/// are in the state `to`, the rest being as it was.
pub open spec fn all_moved(
    episodes: Seq<EpisodeRecord>,
    after: Seq<EpisodeRecord>,
    ids: Seq<EpisodeId>,
    to: EpisodeState,
) -> bool {
    &&& after.len() == episodes.len()
    &&& forall|i: int|
        0 <= i < after.len() ==> (#[trigger] after[i]).id@ == episodes[i].id@ && after[i].state
            == if is_wanted(ids, episodes[i].id@) {
            to
        } else {
            episodes[i].state
        }
}

/// Whether files turned out as large as they were reckoned with.
pub open spec fn same_sizes(a: Seq<EpisodeRecord>, b: Seq<EpisodeRecord>) -> bool {
    forall|i: int|
        #![trigger a[i]]
        #![trigger b[i]]
        0 <= i < a.len() ==> projected_bytes(a[i].bytes) == projected_bytes(b[i].bytes)
}

/// Whether no download is in flight.
pub open spec fn none_downloading(episodes: Seq<EpisodeRecord>) -> bool {
    forall|i: int| 0 <= i < episodes.len() ==> !((#[trigger] episodes[i]).state is Downloading)
}

/// Retention is planned before anything is downloaded: what is fetched is
/// not pruned right back out, and a second sync that wants the same finds
/// nothing to fetch and nothing to prune. With a byte limit this needs the
/// files to be as large as they were reckoned with, and no download of
/// someone else's in flight.
pub proof fn law_second_sync_is_quiet(
    policy: Retention,
    wanted: Seq<EpisodeId>,
    episodes: Seq<EpisodeRecord>,
    fetched: Seq<EpisodeRecord>,
    settled: Seq<EpisodeRecord>,
)
    requires
        crate::storage::ids_differ(episodes),
        all_moved(
            episodes,
            fetched,
            sync_ids(policy, episodes, wanted),
            EpisodeState::Cached,
        ),
        all_moved(fetched, settled, doomed_ids(policy, fetched), EpisodeState::Pruned),
        policy.max_bytes is None || (same_sizes(episodes, fetched) && same_sizes(
            fetched,
            settled,
        ) && none_downloading(episodes)),
    ensures
        forall|id: Seq<char>|
            #[trigger] is_wanted(sync_ids(policy, episodes, wanted), id) ==> !is_wanted(
                doomed_ids(policy, fetched),
                id,
            ),
        sync_ids(policy, settled, wanted).len() == 0,
        doomed_ids(policy, settled).len() == 0,
{
    lemma_same_ids_differ(episodes, fetched);
    assert forall|i: int| 0 <= i < episodes.len() implies (#[trigger] fetched[i]).state
        == if plans(policy, episodes, wanted, i) {
        EpisodeState::Cached
    } else {
        episodes[i].state
    } by {
        lemma_plans_by_id(policy, episodes, wanted, episodes[i].id@);
    }
    assert forall|i: int| 0 <= i < episodes.len() implies (#[trigger] settled[i]).state == if dooms(
        policy,
        fetched,
        i,
    ) {
        EpisodeState::Pruned
    } else {
        fetched[i].state
    } by {
        lemma_plans_by_id(policy, fetched, wanted, fetched[i].id@);
    }
    let n = episodes.len() as int;
    if policy.max_bytes is None {
        lemma_quiet_by_count(policy, wanted, episodes, fetched, settled, n);
    } else {
        lemma_quiet_by_size(policy, wanted, episodes, fetched, settled, n);
    }
    assert(settled.take(n) =~= settled);
    assert forall|id: Seq<char>| #[trigger]
        is_wanted(sync_ids(policy, episodes, wanted), id) implies !is_wanted(
        doomed_ids(policy, fetched),
        id,
    ) by {
        lemma_plans_by_id(policy, episodes, wanted, id);
        let i = choose|i: int| 0 <= i < episodes.len() && (#[trigger] episodes[i]).id@ == id;
        lemma_plans_by_id(policy, fetched, wanted, id);
        assert(fetched[i].id@ == id);
        if policy.max_bytes is None {
            lemma_quiet_by_count(policy, wanted, episodes, fetched, settled, i);
            lemma_kept_count(policy, candidates_of(window_of(episodes.take(i), wanted)));
            lemma_kept_count(policy, candidates_of(cached_of(fetched.take(i))));
        } else {
            lemma_quiet_by_size(policy, wanted, episodes, fetched, settled, i);
            assert(candidate_of(fetched[i]).bytes == candidate_of(episodes[i]).bytes);
        }
    }
}

/// Whether one state of the library follows from another by moving the
/// episodes of a show with the given ids into the state `to`: whatever else
/// was recorded, rows keep their places, keys, and publication times, and
/// the show's other rows their lifecycle states.
pub open spec fn storage_moved(
    before: Storage,
    after: Storage,
    show: Seq<char>,
    ids: Seq<EpisodeId>,
    to: EpisodeState,
) -> bool {
    &&& after.episodes@.len() == before.episodes@.len()
    &&& forall|i: int|
        0 <= i < before.episodes@.len() ==> crate::storage::same_episode(
            before.episodes@[i],
            after.episodes@[i],
        ) && ((#[trigger] before.episodes@[i]).show@ == show ==> after.episodes@[i].state
            == if is_wanted(ids, before.episodes@[i].id@) {
            to
        } else {
            before.episodes@[i].state
        })
}

/// Where a sync fetched all it planned and pruned all it had to, nothing is
/// left to fetch or to prune.
proof fn lemma_settled_library_is_quiet(
    policy: Retention,
    show: Seq<char>,
    wanted: Seq<EpisodeId>,
    listed: Storage,
    fetched: Storage,
    settled: Storage,
)
    requires
        crate::storage::keys_differ(listed@.episodes),
        storage_moved(
            listed,
            fetched,
            show,
            sync_ids(
                policy,
                crate::storage::listed_episodes(listed.episodes@, show),
                wanted,
            ),
            EpisodeState::Cached,
        ),
        storage_moved(
            fetched,
            settled,
            show,
            doomed_ids(policy, crate::storage::listed_episodes(fetched.episodes@, show)),
            EpisodeState::Pruned,
        ),
        policy.max_bytes is None || (same_sizes(listed.episodes@, fetched.episodes@) && same_sizes(
            fetched.episodes@,
            settled.episodes@,
        ) && none_downloading(listed.episodes@)),
    ensures
        sync_ids(
            policy,
            crate::storage::listed_episodes(settled.episodes@, show),
            wanted,
        ).len() == 0,
        doomed_ids(policy, crate::storage::listed_episodes(settled.episodes@, show)).len() == 0,
{
    let a = crate::storage::listed_episodes(listed.episodes@, show);
    let b = crate::storage::listed_episodes(fetched.episodes@, show);
    let c = crate::storage::listed_episodes(settled.episodes@, show);
    let fetch = sync_ids(policy, a, wanted);
    let prune = doomed_ids(policy, b);
    let sized = policy.max_bytes is Some;
    crate::storage::lemma_listed_ids_differ(listed, show);
    let cached = |x: EpisodeRecord, y: EpisodeRecord|
        {
            &&& y.state == if is_wanted(fetch, x.id@) {
                EpisodeState::Cached
            } else {
                x.state
            }
            &&& sized ==> projected_bytes(x.bytes) == projected_bytes(y.bytes)
                && !(x.state is Downloading)
        };
    let pruned = |x: EpisodeRecord, y: EpisodeRecord|
        {
            &&& y.state == if is_wanted(prune, x.id@) {
                EpisodeState::Pruned
            } else {
                x.state
            }
            &&& sized ==> projected_bytes(x.bytes) == projected_bytes(y.bytes)
        };
    crate::storage::lemma_listed_alike(listed.episodes@, fetched.episodes@, show, cached);
    crate::storage::lemma_listed_alike(fetched.episodes@, settled.episodes@, show, pruned);
    assert(all_moved(a, b, fetch, EpisodeState::Cached)) by {
        assert forall|i: int| 0 <= i < b.len() implies (#[trigger] b[i]).id@ == a[i].id@
            && b[i].state == if is_wanted(fetch, a[i].id@) {
            EpisodeState::Cached
        } else {
            a[i].state
        } by {
            assert(crate::storage::alike_at(a, b, cached, i));
        }
    }
    assert(all_moved(b, c, prune, EpisodeState::Pruned)) by {
        assert forall|i: int| 0 <= i < c.len() implies (#[trigger] c[i]).id@ == b[i].id@
            && c[i].state == if is_wanted(prune, b[i].id@) {
            EpisodeState::Pruned
        } else {
            b[i].state
        } by {
            assert(crate::storage::alike_at(b, c, pruned, i));
        }
    }
    if sized {
        assert forall|i: int|
            #![trigger a[i]]
            #![trigger b[i]]
            0 <= i < a.len() implies projected_bytes(a[i].bytes) == projected_bytes(b[i].bytes) by {
            assert(crate::storage::alike_at(a, b, cached, i));
        }
        assert forall|i: int|
            #![trigger b[i]]
            #![trigger c[i]]
            0 <= i < b.len() implies projected_bytes(b[i].bytes) == projected_bytes(c[i].bytes) by {
            assert(crate::storage::alike_at(b, c, pruned, i));
        }
        assert forall|i: int| 0 <= i < a.len() implies !((
        #[trigger] a[i]).state is Downloading) by {
            assert(crate::storage::alike_at(a, b, cached, i));
        }
    }
    law_second_sync_is_quiet(policy, wanted, a, b, c);
}

/// Syncing the same listing twice over a stored library does nothing the
/// second time. `listed` is the library after the first listing was taken
/// in, `fetched` after all that was planned was fetched, `settled` after all
/// that had to go was pruned, and `again` after the next sync healed and
/// took the listing in once more: that finds no new episode and adds no row,
/// and its plan and its pruning, which [`SyncRun::fresh`] and
/// [`SyncRun::to_prune`] give, are empty. No download of someone else's may
/// have gone stale meanwhile; and a byte limit needs the files to be as
/// large as they were reckoned with, and no download in flight.
pub proof fn law_second_sync_of_a_library_is_quiet(
    policy: Retention,
    show: Seq<char>,
    provider: Seq<char>,
    meta: ShowMeta,
    listing: Seq<EpisodeMeta>,
    etags: (Option<Seq<char>>, Option<Seq<char>>),
    times: (int, int),
    before: StorageModel,
    listed: Storage,
    fetched: Storage,
    settled: Storage,
    again: Storage,
)
    requires
        before.wf(),
        listed@ == taken_in(before, show, provider, meta, listing, etags.0, times.0),
        storage_moved(
            listed,
            fetched,
            show,
            sync_ids(
                policy,
                crate::storage::listed_episodes(listed.episodes@, show),
                listing_ids(listing),
            ),
            EpisodeState::Cached,
        ),
        storage_moved(
            fetched,
            settled,
            show,
            doomed_ids(policy, crate::storage::listed_episodes(fetched.episodes@, show)),
            EpisodeState::Pruned,
        ),
        forall|i: int|
            0 <= i < settled@.episodes.len() && (#[trigger] settled@.episodes[i]).show == show
                ==> !crate::storage::is_stale(settled@.episodes[i], times.1),
        again@ == taken_in(
            crate::storage::healed(settled@, show, times.1),
            show,
            provider,
            meta,
            listing,
            etags.1,
            times.1,
        ),
        policy.max_bytes is None || (same_sizes(listed.episodes@, fetched.episodes@) && same_sizes(
            fetched.episodes@,
            settled.episodes@,
        ) && none_downloading(listed.episodes@)),
    ensures
        unknown_ids(settled@.episodes, show, listing).len() == 0,
        again.episodes@.len() == settled.episodes@.len(),
        sync_ids(
            policy,
            crate::storage::listed_episodes(again.episodes@, show),
            listing_ids(listing),
        ).len() == 0,
        doomed_ids(policy, crate::storage::listed_episodes(again.episodes@, show)).len() == 0,
{
    let title = meta.title@;
    let about = crate::text::opt_text(meta.description);
    let first = before.upserted(show, title, about, provider);
    let healed = crate::storage::healed(settled@, show, times.1);
    assert(healed.episodes =~= settled@.episodes);
    let second = healed.upserted(show, title, about, provider);
    let a = listed@.episodes;
    let c = settled@.episodes;
    let d = again@.episodes;
    assert(a == first.discovered(show, listing, times.0).episodes);
    assert(d == second.discovered(show, listing, times.1).episodes);
    assert(crate::storage::keys_differ(before.episodes));
    crate::storage::lemma_discover_dates(first, show, listing, times.0);
    assert forall|i: int| 0 <= i < c.len() implies (#[trigger] c[i]).show == a[i].show && c[i].id
        == a[i].id && c[i].published_at == a[i].published_at by {
        assert(crate::storage::same_episode(listed.episodes@[i], fetched.episodes@[i]));
        assert(crate::storage::same_episode(fetched.episodes@[i], settled.episodes@[i]));
        assert(a[i] == listed.episodes@[i]@ && c[i] == settled.episodes@[i]@);
    }
    assert(crate::storage::keys_differ(c)) by {
        assert forall|i: int, j: int|
            #![trigger c[i], c[j]]
            0 <= i < j < c.len() implies c[i].show != c[j].show || c[i].id != c[j].id by {
            assert(a[i].show != a[j].show || a[i].id != a[j].id);
        }
    }
    crate::storage::lemma_discover_dates(second, show, listing, times.1);
    assert forall|k: int| 0 <= k < listing.len() implies crate::storage::find_episode(
        c,
        show,
        (#[trigger] listing[k]).id@,
    ) is Some by {
        let id = listing[k].id@;
        crate::storage::law_discovered_are_stored(first, show, listing, times.0, k);
        crate::storage::lemma_find_episode(a, show, id);
        crate::storage::lemma_find_episode(c, show, id);
        let i = crate::storage::find_episode(a, show, id).unwrap();
        assert(c[i].show == show && c[i].id == id);
    }
    crate::storage::lemma_known_listing_adds_nothing(second, show, listing, times.1);
    crate::storage::lemma_discover_grows(second, show, listing, times.1);
    law_unknown_ids_are_counted(second, show, listing, times.1);
    assert forall|i: int| 0 <= i < fetched.episodes@.len() implies crate::storage::same_episode(
        fetched.episodes@[i],
        again.episodes@[i],
    ) && ((#[trigger] fetched.episodes@[i]).show@ == show ==> again.episodes@[i].state
        == if is_wanted(
        doomed_ids(policy, crate::storage::listed_episodes(fetched.episodes@, show)),
        fetched.episodes@[i].id@,
    ) {
        EpisodeState::Pruned
    } else {
        fetched.episodes@[i].state
    }) && again.episodes@[i].bytes == settled.episodes@[i].bytes by {
        crate::storage::law_discover_keeps_states(second, show, listing, times.1, i);
        assert(c[i] == settled.episodes@[i]@);
        assert(d[i] == again.episodes@[i]@);
        assert(crate::storage::same_episode(fetched.episodes@[i], settled.episodes@[i]));
        assert(d[i].published_at == c[i].published_at) by {
            assert(c[i].published_at == a[i].published_at);
            assert(d[i].id == c[i].id);
        }
    }
    if policy.max_bytes is Some {
        assert forall|i: int|
            #![trigger fetched.episodes@[i]]
            #![trigger again.episodes@[i]]
            0 <= i < fetched.episodes@.len() implies projected_bytes(fetched.episodes@[i].bytes)
            == projected_bytes(again.episodes@[i].bytes) by {
            assert(crate::storage::same_episode(fetched.episodes@[i], again.episodes@[i]));
            assert(again.episodes@[i].bytes == settled.episodes@[i].bytes);
            assert(projected_bytes(fetched.episodes@[i].bytes) == projected_bytes(
                settled.episodes@[i].bytes,
            ));
        }
    }
    lemma_settled_library_is_quiet(policy, show, listing_ids(listing), listed, fetched, again);
}

proof fn lemma_same_ids_differ(a: Seq<EpisodeRecord>, b: Seq<EpisodeRecord>)
    requires
        crate::storage::ids_differ(a),
        a.len() == b.len(),
        forall|i: int| 0 <= i < b.len() ==> (#[trigger] b[i]).id@ == a[i].id@,
    ensures
        crate::storage::ids_differ(b),
{
    assert forall|i: int, j: int|
        #![trigger b[i], b[j]]
        0 <= i < j < b.len() implies b[i].id@ != b[j].id@ by {
        assert(a[i].id@ != a[j].id@);
    }
}

/// Without a byte limit, as many are kept as there are, up to the count.
proof fn lemma_kept_count(policy: Retention, candidates: Seq<Candidate>)
    requires
        policy.max_bytes is None,
    ensures
        crate::retention::kept(policy, candidates).len() == match policy.keep_last {
            Some(n) => if candidates.len() < n {
                candidates.len()
            } else {
                n as nat
            },
            None => candidates.len(),
        },
    decreases candidates.len(),
{
    if candidates.len() > 0 {
        lemma_kept_count(policy, candidates.drop_last());
    }
}

/// Whether a count limit is reached by this many.
spec fn is_full(policy: Retention, count: nat) -> bool {
    policy.keep_last matches Some(n) && count >= n
}

/// What one more episode adds to the window and to the cache.
proof fn lemma_window_step(episodes: Seq<EpisodeRecord>, wanted: Seq<EpisodeId>, p: int)
    requires
        0 <= p < episodes.len(),
    ensures
        window_of(episodes.take(p + 1), wanted) == if in_window(episodes[p], wanted) {
            window_of(episodes.take(p), wanted).push(episodes[p])
        } else {
            window_of(episodes.take(p), wanted)
        },
        cached_of(episodes.take(p + 1)) == if episodes[p].state is Cached {
            cached_of(episodes.take(p)).push(episodes[p])
        } else {
            cached_of(episodes.take(p))
        },
{
    assert(episodes.take(p + 1).drop_last() =~= episodes.take(p));
    assert(episodes.take(p + 1).last() == episodes[p]);
}

/// What one more episode adds to the plan and to what is pruned.
proof fn lemma_plan_step(
    policy: Retention,
    episodes: Seq<EpisodeRecord>,
    wanted: Seq<EpisodeId>,
    p: int,
)
    requires
        0 <= p < episodes.len(),
    ensures
        sync_ids(policy, episodes.take(p + 1), wanted).len() == sync_ids(
            policy,
            episodes.take(p),
            wanted,
        ).len() + if plans(policy, episodes, wanted, p) {
            1nat
        } else {
            0nat
        },
        doomed_ids(policy, episodes.take(p + 1)).len() == doomed_ids(
            policy,
            episodes.take(p),
        ).len() + if dooms(policy, episodes, p) {
            1nat
        } else {
            0nat
        },
{
    let upto = episodes.take(p + 1);
    assert(upto.drop_last() =~= episodes.take(p));
    assert(upto.take(p) =~= episodes.take(p));
    assert(upto[p] == episodes[p]);
    lemma_sync_ids_step(policy, upto, wanted);
    lemma_doomed_ids_step(policy, upto);
}

/// With a count limit alone: the cache never outgrows the window, pruning
/// leaves the window full where it was, and so nothing is left to do.
proof fn lemma_quiet_by_count(
    policy: Retention,
    wanted: Seq<EpisodeId>,
    episodes: Seq<EpisodeRecord>,
    fetched: Seq<EpisodeRecord>,
    settled: Seq<EpisodeRecord>,
    p: int,
)
    requires
        policy.max_bytes is None,
        0 <= p <= episodes.len(),
        fetched.len() == episodes.len(),
        settled.len() == episodes.len(),
        forall|i: int| 0 <= i < fetched.len() ==> (#[trigger] fetched[i]).id@ == episodes[i].id@,
        forall|i: int| 0 <= i < settled.len() ==> (#[trigger] settled[i]).id@ == fetched[i].id@,
        forall|i: int|
            0 <= i < fetched.len() ==> (#[trigger] fetched[i]).state == if plans(
                policy,
                episodes,
                wanted,
                i,
            ) {
                EpisodeState::Cached
            } else {
                episodes[i].state
            },
        forall|i: int|
            0 <= i < settled.len() ==> (#[trigger] settled[i]).state == if dooms(
                policy,
                fetched,
                i,
            ) {
                EpisodeState::Pruned
            } else {
                fetched[i].state
            },
    ensures
        cached_of(fetched.take(p)).len() <= window_of(episodes.take(p), wanted).len(),
        is_full(policy, window_of(episodes.take(p), wanted).len()) ==> is_full(
            policy,
            window_of(settled.take(p), wanted).len(),
        ),
        is_full(policy, cached_of(fetched.take(p)).len()) ==> is_full(
            policy,
            window_of(settled.take(p), wanted).len(),
        ),
        !is_full(policy, window_of(episodes.take(p), wanted).len()) ==> window_of(
            settled.take(p),
            wanted,
        ).len() >= window_of(episodes.take(p), wanted).len(),
        !is_full(policy, cached_of(fetched.take(p)).len()) ==> window_of(
            settled.take(p),
            wanted,
        ).len() >= cached_of(fetched.take(p)).len(),
        cached_of(settled.take(p)).len() <= cached_of(fetched.take(p)).len(),
        policy.keep_last matches Some(n) ==> cached_of(settled.take(p)).len() <= n,
        sync_ids(policy, settled.take(p), wanted).len() == 0,
        doomed_ids(policy, settled.take(p)).len() == 0,
    decreases p,
{
    if p == 0 {
        assert(settled.take(0) =~= Seq::empty());
        assert(fetched.take(0) =~= Seq::empty());
        assert(episodes.take(0) =~= Seq::empty());
        assert(doomed_ids(policy, settled.take(0)).len() == 0);
    } else {
        let q = p - 1;
        lemma_quiet_by_count(policy, wanted, episodes, fetched, settled, q);
        lemma_window_step(episodes, wanted, q);
        lemma_window_step(fetched, wanted, q);
        lemma_window_step(settled, wanted, q);
        lemma_plan_step(policy, settled, wanted, q);
        lemma_kept_count(policy, candidates_of(window_of(episodes.take(q), wanted)));
        lemma_kept_count(policy, candidates_of(cached_of(fetched.take(q))));
        lemma_kept_count(policy, candidates_of(window_of(settled.take(q), wanted)));
        lemma_kept_count(policy, candidates_of(cached_of(settled.take(q))));
        assert(fetched[q].id@ == episodes[q].id@ && settled[q].id@ == fetched[q].id@);
    }
}

/// Whether retention cannot tell two lists of kept candidates apart: they
/// are as many and as large.
spec fn weigh_alike(a: Seq<Candidate>, b: Seq<Candidate>) -> bool {
    a.len() == b.len() && crate::retention::total_bytes(a) == crate::retention::total_bytes(b)
}

/// With the sizes as reckoned: what the plan keeps weighs as much as what
/// the cache keeps, before pruning and after it.
proof fn lemma_quiet_by_size(
    policy: Retention,
    wanted: Seq<EpisodeId>,
    episodes: Seq<EpisodeRecord>,
    fetched: Seq<EpisodeRecord>,
    settled: Seq<EpisodeRecord>,
    p: int,
)
    requires
        same_sizes(episodes, fetched),
        same_sizes(fetched, settled),
        0 <= p <= episodes.len(),
        fetched.len() == episodes.len(),
        settled.len() == episodes.len(),
        none_downloading(episodes),
        forall|i: int| 0 <= i < fetched.len() ==> (#[trigger] fetched[i]).id@ == episodes[i].id@,
        forall|i: int| 0 <= i < settled.len() ==> (#[trigger] settled[i]).id@ == fetched[i].id@,
        forall|i: int|
            0 <= i < fetched.len() ==> (#[trigger] fetched[i]).state == if plans(
                policy,
                episodes,
                wanted,
                i,
            ) {
                EpisodeState::Cached
            } else {
                episodes[i].state
            },
        forall|i: int|
            0 <= i < settled.len() ==> (#[trigger] settled[i]).state == if dooms(
                policy,
                fetched,
                i,
            ) {
                EpisodeState::Pruned
            } else {
                fetched[i].state
            },
    ensures
        ({
            let plan = crate::retention::kept(
                policy,
                candidates_of(window_of(episodes.take(p), wanted)),
            );
            &&& weigh_alike(
                crate::retention::kept(policy, candidates_of(cached_of(fetched.take(p)))),
                plan,
            )
            &&& weigh_alike(
                crate::retention::kept(
                    policy,
                    candidates_of(window_of(settled.take(p), wanted)),
                ),
                plan,
            )
            &&& weigh_alike(
                crate::retention::kept(policy, candidates_of(cached_of(settled.take(p)))),
                plan,
            )
        }),
        sync_ids(policy, settled.take(p), wanted).len() == 0,
        doomed_ids(policy, settled.take(p)).len() == 0,
    decreases p,
{
    if p == 0 {
        assert(settled.take(0) =~= Seq::empty());
        assert(fetched.take(0) =~= Seq::empty());
        assert(episodes.take(0) =~= Seq::empty());
        assert(candidates_of(window_of(episodes.take(0), wanted)) =~= Seq::empty());
        assert(candidates_of(cached_of(fetched.take(0))) =~= Seq::empty());
        assert(candidates_of(window_of(settled.take(0), wanted)) =~= Seq::empty());
        assert(candidates_of(cached_of(settled.take(0))) =~= Seq::empty());
    } else {
        let q = p - 1;
        lemma_quiet_by_size(policy, wanted, episodes, fetched, settled, q);
        lemma_window_step(episodes, wanted, q);
        lemma_window_step(fetched, wanted, q);
        lemma_window_step(settled, wanted, q);
        lemma_plan_step(policy, settled, wanted, q);
        assert(candidate_of(fetched[q]).bytes == candidate_of(episodes[q]).bytes);
        assert(candidate_of(settled[q]).bytes == candidate_of(fetched[q]).bytes);
        assert(fetched[q].id@ == episodes[q].id@ && settled[q].id@ == fetched[q].id@);
        lemma_kept_step(policy, window_of(episodes.take(q), wanted), episodes[q]);
        lemma_kept_step(policy, cached_of(fetched.take(q)), fetched[q]);
        lemma_kept_step(policy, window_of(settled.take(q), wanted), settled[q]);
        lemma_kept_step(policy, cached_of(settled.take(q)), settled[q]);
    }
}

/// What one more episode adds to what retention keeps.
proof fn lemma_kept_step(policy: Retention, episodes: Seq<EpisodeRecord>, last: EpisodeRecord)
    ensures
        ({
            let before = crate::retention::kept(policy, candidates_of(episodes));
            crate::retention::kept(policy, candidates_of(episodes.push(last)))
                == if crate::retention::may_keep(policy, before, candidate_of(last)) {
                before.push(candidate_of(last))
            } else {
                before
            }
        }),
        crate::retention::total_bytes(
            crate::retention::kept(policy, candidates_of(episodes)).push(candidate_of(last)),
        ) == crate::retention::total_bytes(
            crate::retention::kept(policy, candidates_of(episodes)),
        ) + projected_bytes(last.bytes),
{
    let before = crate::retention::kept(policy, candidates_of(episodes));
    assert(before.push(candidate_of(last)).drop_last() =~= before);
    let all = candidates_of(episodes.push(last));
    assert(all.drop_last() =~= candidates_of(episodes));
    assert(all.last() == candidate_of(last));
}

/// The ids of a listing that storage does not know, in order, each once.
pub open spec fn unknown_ids(
    episodes: Seq<crate::storage::EpisodeRow>,
    show: Seq<char>,
    listing: Seq<EpisodeMeta>,
) -> Seq<EpisodeId>
    decreases listing.len(),
{
    if listing.len() == 0 {
        Seq::empty()
    } else {
        let before = unknown_ids(episodes, show, listing.drop_last());
        if crate::storage::find_episode(episodes, show, listing.last().id@) is None && !is_wanted(
            before,
            listing.last().id@,
        ) {
            before.push(listing.last().id)
        } else {
            before
        }
    }
}

/// As many ids are unknown as recording the listing counts new episodes.
pub proof fn law_unknown_ids_are_counted(
    model: StorageModel,
    show: Seq<char>,
    listing: Seq<EpisodeMeta>,
    now: int,
)
    ensures
        unknown_ids(model.episodes, show, listing).len() == model.discovered_count(
            show,
            listing,
            now,
        ),
    decreases listing.len(),
{
    if listing.len() > 0 {
        let rest = listing.drop_last();
        let id = listing.last().id@;
        law_unknown_ids_are_counted(model, show, rest, now);
        crate::storage::lemma_discover_finds(model, show, rest, now, id);
        lemma_unknown_are_listed(model.episodes, show, rest, id);
    }
}

/// The unknown ids are those that are listed and not stored.
proof fn lemma_unknown_are_listed(
    episodes: Seq<crate::storage::EpisodeRow>,
    show: Seq<char>,
    listing: Seq<EpisodeMeta>,
    id: Seq<char>,
)
    ensures
        is_wanted(unknown_ids(episodes, show, listing), id) <==> crate::storage::find_episode(
            episodes,
            show,
            id,
        ) is None && crate::storage::lists(listing, id),
    decreases listing.len(),
{
    if listing.len() > 0 {
        let rest = listing.drop_last();
        lemma_unknown_are_listed(episodes, show, rest, id);
        lemma_unknown_are_listed(episodes, show, rest, listing.last().id@);
        crate::storage::lemma_lists_step(listing, id);
        lemma_wanted_push(unknown_ids(episodes, show, rest), listing.last().id, id);
    }
}

/// The ids of a listing that storage does not know, in order, each once.
pub fn undiscovered(storage: &Storage, show: &ShowSlug, listing: &Vec<EpisodeMeta>) -> (ids: Vec<
    EpisodeId,
>)
    ensures
        ids@ == unknown_ids(storage@.episodes, show@, listing@),
        forall|now: int|
            ids@.len() == #[trigger] storage@.discovered_count(show@, listing@, now),
{
    let mut ids: Vec<EpisodeId> = Vec::new();
    let mut i: usize = 0;
    assert(listing@.take(0) =~= Seq::empty());
    while i < listing.len()
        invariant
            i <= listing@.len(),
            ids@ == unknown_ids(storage@.episodes, show@, listing@.take(i as int)),
        decreases listing@.len() - i,
    {
        proof {
            assert(listing@.take(i + 1).drop_last() =~= listing@.take(i as int));
            assert(listing@.take(i + 1).last() == listing@[i as int]);
        }
        if !storage.knows(show, &listing[i].id) && !includes(&ids, &listing[i].id) {
            ids.push(listing[i].id.clone());
        }
        i += 1;
    }
    assert(listing@.take(listing@.len() as int) =~= listing@);
    proof {
        assert forall|now: int|
            ids@.len() == #[trigger] storage@.discovered_count(show@, listing@, now) by {
            law_unknown_ids_are_counted(storage@, show@, listing@, now);
        }
    }
    ids
}

/// Whether an id is among the given ones.
fn includes(ids: &Vec<EpisodeId>, id: &EpisodeId) -> (found: bool)
    ensures
        found == is_wanted(ids@, id@),
{
    let mut k: usize = 0;
    while k < ids.len()
        invariant
            k <= ids@.len(),
            forall|j: int| 0 <= j < k ==> (#[trigger] ids@[j])@ != id@,
        decreases ids@.len() - k,
    {
        if ids[k].same(id) {
            assert(ids@[k as int]@ == id@);
            return true;
        }
        k += 1;
    }
    false
}

/// How far a sync is.
#[derive(Debug, Clone, Copy, PartialEq, Eq, Structural)]
pub enum Stage {
    /// Upstream was asked.
    Polling,
    /// What to fetch is known.
    Fetching,
    /// Retention was applied.
    Swept,
    /// The poll is on record.
    Finished,
}

/// A step of a sync, as far as it tells.
pub enum SyncStep {
    /// A listing arrived, with these episodes new.
    Listed(Seq<Seq<char>>),
    /// Upstream said that nothing changed.
    Unchanged,
    /// The download of an episode ended.
    Downloaded(Seq<char>, Option<ErrorClass>),
    /// Retention was applied: so many episodes went, and so many bytes.
    Swept(u32, u64),
    /// The poll is on record.
    Finished(bool, u32),
}

/// Whether a sync may take a step at this stage.
pub open spec fn step_allowed(stage: Stage, step: SyncStep) -> bool {
    match step {
        SyncStep::Listed(_) => stage is Polling,
        SyncStep::Unchanged => stage is Polling,
        SyncStep::Downloaded(..) => stage is Fetching,
        SyncStep::Swept(..) => stage is Fetching,
        SyncStep::Finished(..) => !(stage is Finished),
    }
}

/// How far a sync is after a step.
pub open spec fn step_stage(step: SyncStep) -> Stage {
    match step {
        SyncStep::Listed(_) => Stage::Fetching,
        SyncStep::Unchanged => Stage::Fetching,
        SyncStep::Downloaded(..) => Stage::Fetching,
        SyncStep::Swept(..) => Stage::Swept,
        SyncStep::Finished(..) => Stage::Finished,
    }
}

/// What a step has subscribers hear.
pub open spec fn step_events(show: Seq<char>, step: SyncStep) -> Seq<EventModel> {
    match step {
        SyncStep::Listed(ids) => ids.map_values(
            |id: Seq<char>| EventModel::EpisodeDiscovered { show, episode: id },
        ),
        SyncStep::Unchanged => Seq::empty(),
        SyncStep::Downloaded(id, error) => seq![
            EventModel::DownloadFinished { show, episode: id, error },
        ],
        SyncStep::Swept(episodes, bytes_freed) => if episodes > 0 {
            seq![EventModel::Pruned { show, episodes, bytes_freed }]
        } else {
            Seq::empty()
        },
        SyncStep::Finished(ok, new_episodes) => seq![
            EventModel::PollFinished { show, ok, new_episodes },
        ],
    }
}

/// How far a sync is after these steps.
pub open spec fn sync_stage(steps: Seq<SyncStep>) -> Stage {
    if steps.len() == 0 {
        Stage::Polling
    } else {
        step_stage(steps.last())
    }
}

/// Whether a sync may take these steps.
pub open spec fn steps_allowed(steps: Seq<SyncStep>) -> bool
    decreases steps.len(),
{
    steps.len() == 0 || (steps_allowed(steps.drop_last()) && step_allowed(
        sync_stage(steps.drop_last()),
        steps.last(),
    ))
}

/// What subscribers hear of a sync with these steps.
pub open spec fn sync_events(show: Seq<char>, steps: Seq<SyncStep>) -> Seq<EventModel>
    decreases steps.len(),
{
    if steps.len() == 0 {
        seq![EventModel::PollStarted { show }]
    } else {
        sync_events(show, steps.drop_last()) + step_events(show, steps.last())
    }
}

/// The place of an event in the story of a sync.
pub open spec fn event_rank(event: EventModel) -> int {
    match event {
        EventModel::PollStarted { .. } => 0,
        EventModel::EpisodeDiscovered { .. } => 1,
        EventModel::DownloadFinished { .. } => 2,
        EventModel::Pruned { .. } => 3,
        EventModel::PollFinished { .. } => 4,
        EventModel::Quarantined { .. } => 5,
    }
}

/// The last place an event has at a stage.
spec fn stage_rank(stage: Stage) -> int {
    match stage {
        Stage::Polling => 0,
        Stage::Fetching => 2,
        Stage::Swept => 3,
        Stage::Finished => 4,
    }
}

/// The story of a sync arrives in order: that the poll started, then what
/// was discovered, then what was downloaded, then what was pruned, and last
/// that the poll finished.
pub proof fn law_sync_events_in_order(show: Seq<char>, steps: Seq<SyncStep>)
    requires
        steps_allowed(steps),
    ensures
        sync_events(show, steps).len() > 0,
        sync_events(show, steps)[0] == (EventModel::PollStarted { show }),
        forall|i: int, j: int|
            #![trigger sync_events(show, steps)[i], sync_events(show, steps)[j]]
            0 <= i < j < sync_events(show, steps).len() ==> event_rank(
                sync_events(show, steps)[i],
            ) <= event_rank(sync_events(show, steps)[j]),
        forall|i: int|
            0 < i < sync_events(show, steps).len() ==> !((#[trigger] sync_events(
                show,
                steps,
            )[i]) is PollStarted),
        forall|i: int|
            0 <= i < sync_events(show, steps).len() - 1 ==> !((#[trigger] sync_events(
                show,
                steps,
            )[i]) is PollFinished),
        sync_stage(steps) is Finished <==> sync_events(show, steps).last() is PollFinished,
{
    lemma_sync_events(show, steps);
}

proof fn lemma_sync_events(show: Seq<char>, steps: Seq<SyncStep>)
    requires
        steps_allowed(steps),
    ensures
        ({
            let events = sync_events(show, steps);
            &&& events.len() > 0
            &&& events[0] == (EventModel::PollStarted { show })
            &&& forall|i: int, j: int|
                #![trigger events[i], events[j]]
                0 <= i < j < events.len() ==> event_rank(events[i]) <= event_rank(events[j])
            &&& forall|i: int| 0 < i < events.len() ==> !((#[trigger] events[i]) is PollStarted)
            &&& forall|i: int|
                0 <= i < events.len() - 1 ==> !((#[trigger] events[i]) is PollFinished)
            &&& forall|i: int|
                0 <= i < events.len() ==> event_rank(#[trigger] events[i]) <= stage_rank(
                    sync_stage(steps),
                )
            &&& sync_stage(steps) is Finished <==> events.last() is PollFinished
        }),
    decreases steps.len(),
{
    if steps.len() > 0 {
        lemma_sync_events(show, steps.drop_last());
        let before = sync_events(show, steps.drop_last());
        let more = step_events(show, steps.last());
        let events = sync_events(show, steps);
        assert forall|i: int| 0 <= i < events.len() implies (#[trigger] events[i]) == if i
            < before.len() {
            before[i]
        } else {
            more[i - before.len()]
        } by {}
    }
}

/// One sync of one show.
pub struct SyncRun {
    /// The show.
    pub show: ShowSlug,
    /// Registry name of its provider.
    pub provider: String,
    /// Effective retention.
    pub policy: Retention,
    /// Effective listing bound.
    pub fetch_last: Option<u32>,
    /// What was done so far.
    pub report: SyncReport,
    /// How far it is.
    pub stage: Stage,
}

/// What follows from a listing.
pub struct Listed {
    /// The episodes to fetch, newest first.
    pub wanted: Vec<EpisodeId>,
    /// What subscribers hear: the episodes that are new.
    pub events: Vec<KnownEvent>,
}

/// How a sync ended.
pub struct Ended {
    /// What subscribers hear.
    pub event: KnownEvent,
    /// What was done, or why it failed.
    pub result: Result<SyncReport, LibraryError>,
}

/// The texts of ids.
pub open spec fn id_texts(ids: Seq<EpisodeId>) -> Seq<Seq<char>> {
    ids.map_values(|id: EpisodeId| id@)
}

/// A result without its value.
pub open spec fn bare<T>(result: Result<T, StorageError>) -> Result<(), StorageError> {
    match result {
        Ok(_) => Ok(()),
        Err(error) => Err(error),
    }
}

/// A count one higher, capped.
pub open spec fn bumped(n: u32) -> u32 {
    if n == u32::MAX {
        n
    } else {
        (n + 1) as u32
    }
}

/// A count one higher, capped.
fn bump(n: u32) -> (m: u32)
    ensures
        m == bumped(n),
{
    if n == u32::MAX {
        n
    } else {
        n + 1
    }
}

/// The state after a fresh listing was taken in: the show refreshed, the
/// bounded listing discovered, its validator recorded.
pub open spec fn taken_in(
    model: StorageModel,
    show: Seq<char>,
    provider: Seq<char>,
    meta: ShowMeta,
    listing: Seq<EpisodeMeta>,
    etag: Option<Seq<char>>,
    now: int,
) -> StorageModel {
    model.upserted(show, meta.title@, crate::text::opt_text(meta.description), provider).discovered(
        show,
        listing,
        now,
    ).with_etag(show, etag)
}

/// A show that was refreshed is stored.
proof fn lemma_upserted_is_stored(
    model: StorageModel,
    slug: Seq<char>,
    title: Seq<char>,
    description: Option<Seq<char>>,
    provider: Seq<char>,
)
    ensures
        crate::storage::find_show(
            model.upserted(slug, title, description, provider).shows,
            slug,
        ) is Some,
{
    let after = model.upserted(slug, title, description, provider);
    crate::storage::lemma_find_show(model.shows, slug);
    crate::storage::lemma_find_show(after.shows, slug);
    match crate::storage::find_show(model.shows, slug) {
        Some(i) => {
            assert(after.shows[i].slug == slug);
        },
        None => {
            assert(after.shows[after.shows.len() - 1].slug == slug);
        },
    }
}

impl SyncRun {
    /// Begin to sync a configured show, which subscribers hear.
    pub fn begin(config: &Config, slug: &ShowSlug) -> (begun: Result<
        (SyncRun, KnownEvent),
        LibraryError,
    >)
        ensures
            match begun {
                Ok((run, event)) => find_config(config.shows@, slug@) matches Some(i) && 0 <= i
                    < config.shows@.len() && {
                    &&& run.show@ == slug@
                    &&& run.provider@ == config.shows@[i].provider@
                    &&& run.policy == match config.shows@[i].retention {
                        Some(own) => crate::config::layered(own, config.retention),
                        None => config.retention,
                    }
                    &&& run.fetch_last == crate::config::or_else_of(
                        config.shows@[i].fetch_last,
                        config.fetch_last,
                    )
                    &&& run.report == (SyncReport { discovered: 0, downloaded: 0, pruned: 0 })
                    &&& run.stage is Polling
                    &&& seq![event@] == sync_events(slug@, Seq::empty())
                },
                Err(error) => find_config(config.shows@, slug@) is None && error
                    == LibraryError::UnknownShow(*slug),
            },
    {
        match show_config(config, slug) {
            Ok(show) => {
                let run = SyncRun {
                    show: show.slug.clone(),
                    provider: show.provider.clone(),
                    policy: show.retention(&config.retention),
                    fetch_last: show.fetch_last(config.fetch_last),
                    report: SyncReport::default(),
                    stage: Stage::Polling,
                };
                Ok((run, KnownEvent::PollStarted { show: show.slug.clone() }))
            },
            Err(error) => Err(error),
        }
    }

    /// The sync starts: downloads left behind by a crash are given up, and
    /// the validator of the last listing is what to ask upstream with.
    pub fn start(&self, storage: &mut Storage, now: Timestamp) -> (etag: Option<String>)
        ensures
            final(storage)@ == crate::storage::healed(old(storage)@, self.show@, now@),
            old(storage)@.wf() ==> final(storage)@.wf(),
            crate::text::opt_text(etag) == match crate::storage::find_show(
                old(storage)@.shows,
                self.show@,
            ) {
                Some(i) => old(storage)@.shows[i].episodes_etag,
                None => None,
            },
    {
        storage.heal_stale(&self.show, now);
        proof {
            crate::storage::lemma_find_show(storage@.shows, self.show@);
        }
        match storage.show(&self.show) {
            Some(record) => record.episodes_etag,
            None => None,
        }
    }

    /// Upstream sent a listing, newest first: take it in, as far as it is
    /// bounded, and decide what to fetch of it.
    pub fn fresh(
        &mut self,
        storage: &mut Storage,
        meta: &ShowMeta,
        listing: Vec<EpisodeMeta>,
        etag: Option<String>,
        now: Timestamp,
    ) -> (listed: Listed)
        requires
            old(self).stage is Polling,
            meta.slug@ == old(self).show@,
            listing@.len() <= u32::MAX,
        ensures
            final(storage)@ == taken_in(
                old(storage)@,
                old(self).show@,
                old(self).provider@,
                *meta,
                bounded(listing@, old(self).fetch_last),
                crate::text::opt_text(etag),
                now@,
            ),
            old(storage)@.wf() ==> final(storage)@.wf(),
            listed.wanted@ == sync_ids(
                old(self).policy,
                crate::storage::listed_episodes(final(storage).episodes@, old(self).show@),
                listing_ids(bounded(listing@, old(self).fetch_last)),
            ),
            event_models(listed.events@) == step_events(
                old(self).show@,
                SyncStep::Listed(
                    id_texts(
                        unknown_ids(
                            old(storage)@.episodes,
                            old(self).show@,
                            bounded(listing@, old(self).fetch_last),
                        ),
                    ),
                ),
            ),
            final(self).report.discovered == listed.events@.len(),
            *final(self) == (SyncRun {
                report: SyncReport {
                    discovered: final(self).report.discovered,
                    ..old(self).report
                },
                stage: Stage::Fetching,
                ..*old(self)
            }),
            final(self).report.discovered == old(storage)@.upserted(
                old(self).show@,
                meta.title@,
                crate::text::opt_text(meta.description),
                old(self).provider@,
            ).discovered_count(
                old(self).show@,
                bounded(listing@, old(self).fetch_last),
                now@,
            ),
    {
        let ghost start = storage@;
        let ghost whole = listing@;
        let mut listing = listing;
        match self.fetch_last {
            Some(n) => {
                listing.truncate(n as usize);
            },
            None => {},
        }
        assert(listing@ =~= bounded(whole, self.fetch_last));
        let unknown = undiscovered(storage, &self.show, &listing);
        let mut events: Vec<KnownEvent> = Vec::new();
        let mut i: usize = 0;
        let ghost story = step_events(self.show@, SyncStep::Listed(id_texts(unknown@)));
        while i < unknown.len()
            invariant
                i <= unknown@.len(),
                story == step_events(self.show@, SyncStep::Listed(id_texts(unknown@))),
                event_models(events@) == story.take(i as int),
            decreases unknown@.len() - i,
        {
            let event = KnownEvent::EpisodeDiscovered {
                show: self.show.clone(),
                episode: unknown[i].clone(),
            };
            let ghost before = events@;
            events.push(event);
            assert(event_models(events@) =~= event_models(before).push(event@));
            assert(event_models(events@) =~= story.take(i + 1));
            i += 1;
        }
        assert(story.take(story.len() as int) =~= story);
        assert(events@.len() == event_models(events@).len());
        storage.upsert_show(meta, self.provider.as_str());
        proof {
            law_unknown_ids_are_counted(storage@, self.show@, listing@, now@);
            lemma_upserted_is_stored(
                start,
                self.show@,
                meta.title@,
                crate::text::opt_text(meta.description),
                self.provider@,
            );
        }
        match storage.discover(&self.show, &listing, now) {
            Ok(new) => {
                self.report = SyncReport {
                    discovered: new,
                    downloaded: self.report.downloaded,
                    pruned: self.report.pruned,
                };
            },
            Err(_) => {},
        }
        storage.set_episodes_etag(&self.show, etag);
        self.stage = Stage::Fetching;
        let mut wanted: Vec<EpisodeId> = Vec::new();
        let mut i: usize = 0;
        while i < listing.len()
            invariant
                i <= listing@.len(),
                wanted@ == listing_ids(listing@).take(i as int),
            decreases listing@.len() - i,
        {
            wanted.push(listing[i].id.clone());
            assert(wanted@ =~= listing_ids(listing@).take(i + 1));
            i += 1;
        }
        assert(wanted@ =~= listing_ids(listing@));
        let wanted = sync_plan(&self.policy, &storage.episodes(&self.show), &wanted);
        Listed { wanted, events }
    }

    /// Upstream said that nothing changed: the newest stored episodes, as
    /// many as a listing is bounded to, still drive what to fetch.
    pub fn unchanged(&mut self, storage: &Storage) -> (ids: Vec<EpisodeId>)
        requires
            old(self).stage is Polling,
        ensures
            ids@ == ({
                let episodes = crate::storage::listed_episodes(storage.episodes@, old(self).show@);
                sync_ids(
                    old(self).policy,
                    episodes,
                    record_ids(bounded(episodes, old(self).fetch_last)),
                )
            }),
            *final(self) == (SyncRun { stage: Stage::Fetching, ..*old(self) }),
    {
        self.stage = Stage::Fetching;
        let episodes = storage.episodes(&self.show);
        let bound: usize = match self.fetch_last {
            Some(n) => if (n as usize) < episodes.len() {
                n as usize
            } else {
                episodes.len()
            },
            None => episodes.len(),
        };
        let mut wanted: Vec<EpisodeId> = Vec::new();
        let mut i: usize = 0;
        while i < bound
            invariant
                i <= bound <= episodes@.len(),
                wanted@ == record_ids(episodes@).take(i as int),
            decreases bound - i,
        {
            wanted.push(episodes[i].id.clone());
            assert(wanted@ =~= record_ids(episodes@).take(i + 1));
            i += 1;
        }
        assert(wanted@ =~= record_ids(bounded(episodes@, self.fetch_last)));
        sync_plan(&self.policy, &episodes, &wanted)
    }

    /// A download ended, which subscribers hear once it is recorded. Success
    /// caches the episode and counts; failure is recorded with its class, to
    /// be retried by a later sync.
    pub fn downloaded(
        &mut self,
        storage: &mut Storage,
        episode: &EpisodeId,
        outcome: Result<CachedFile, ErrorClass>,
        now: Timestamp,
    ) -> (result: Result<KnownEvent, StorageError>)
        requires
            old(self).stage is Fetching,
        ensures
            result matches Ok(event) ==> seq![event@] == step_events(
                old(self).show@,
                SyncStep::Downloaded(
                    episode@,
                    match outcome {
                        Ok(_) => None,
                        Err(class) => Some(class),
                    },
                ),
            ),
            match outcome {
                Ok(file) => crate::storage::stepped(
                    old(storage)@,
                    final(storage)@,
                    bare(result),
                    old(self).show,
                    *episode,
                    EpisodeState::Cached,
                    |row: crate::storage::EpisodeRow| crate::storage::cached_row(row, file, now@),
                ),
                Err(class) => crate::storage::stepped(
                    old(storage)@,
                    final(storage)@,
                    bare(result),
                    old(self).show,
                    *episode,
                    EpisodeState::Failed(class),
                    |row: crate::storage::EpisodeRow| crate::storage::failed_row(row, class),
                ),
            },
            old(storage)@.wf() ==> final(storage)@.wf(),
            *final(self) == (SyncRun {
                report: SyncReport {
                    downloaded: if outcome is Ok && result is Ok {
                        bumped(old(self).report.downloaded)
                    } else {
                        old(self).report.downloaded
                    },
                    ..old(self).report
                },
                ..*old(self)
            }),
    {
        let error = match &outcome {
            Ok(_) => None,
            Err(class) => Some(*class),
        };
        let result = match outcome {
            Ok(file) => {
                let result = storage.mark_cached(&self.show, episode, file, now);
                if result.is_ok() {
                    self.report = SyncReport {
                        discovered: self.report.discovered,
                        downloaded: bump(self.report.downloaded),
                        pruned: self.report.pruned,
                    };
                }
                result
            },
            Err(class) => storage.mark_failed(&self.show, episode, class),
        };
        match result {
            Ok(()) => Ok(
                KnownEvent::DownloadFinished {
                    show: self.show.clone(),
                    episode: episode.clone(),
                    error,
                },
            ),
            Err(error) => Err(error),
        }
    }

    /// What retention removes now: the cached episodes of the show beyond
    /// the policy, oldest first.
    pub fn to_prune(&self, storage: &Storage) -> (ids: Vec<EpisodeId>)
        ensures
            ids@ == doomed_ids(
                self.policy,
                crate::storage::listed_episodes(storage.episodes@, self.show@),
            ).reverse(),
    {
        prune_plan(&self.policy, &storage.episodes(&self.show))
    }

    /// An episode's file was removed: it becomes a tombstone, and counts.
    pub fn pruned(&mut self, storage: &mut Storage, episode: &EpisodeId) -> (result: Result<
        (),
        StorageError,
    >)
        ensures
            crate::storage::stepped(
                old(storage)@,
                final(storage)@,
                result,
                old(self).show,
                *episode,
                EpisodeState::Pruned,
                |row: crate::storage::EpisodeRow| crate::storage::pruned_row(row),
            ),
            old(storage)@.wf() ==> final(storage)@.wf(),
            *final(self) == (SyncRun {
                report: SyncReport {
                    pruned: if result is Ok {
                        bumped(old(self).report.pruned)
                    } else {
                        old(self).report.pruned
                    },
                    ..old(self).report
                },
                ..*old(self)
            }),
    {
        let result = storage.mark_pruned(&self.show, episode);
        if result.is_ok() {
            self.report = SyncReport {
                discovered: self.report.discovered,
                downloaded: self.report.downloaded,
                pruned: bump(self.report.pruned),
            };
        }
        result
    }

    /// Retention was applied and freed these bytes, which subscribers hear
    /// where it removed anything.
    pub fn swept(&mut self, bytes_freed: u64) -> (event: Option<KnownEvent>)
        requires
            old(self).stage is Fetching,
        ensures
            step_events(old(self).show@, SyncStep::Swept(old(self).report.pruned, bytes_freed))
                == match event {
                Some(event) => seq![event@],
                None => Seq::empty(),
            },
            *final(self) == (SyncRun { stage: Stage::Swept, ..*old(self) }),
    {
        self.stage = Stage::Swept;
        if self.report.pruned > 0 {
            Some(
                KnownEvent::Pruned {
                    show: self.show.clone(),
                    episodes: self.report.pruned,
                    bytes_freed,
                },
            )
        } else {
            None
        }
    }

    /// The sync ended, with an error or without: the poll is on record,
    /// subscribers hear it, and the caller gets the report or the error.
    pub fn finish(
        &mut self,
        storage: &mut Storage,
        outcome: Result<(), LibraryError>,
        now: Timestamp,
    ) -> (ended: Ended)
        requires
            !(old(self).stage is Finished),
        ensures
            final(storage)@ == old(storage)@.polled(
                old(self).show@,
                match outcome {
                    Ok(()) => None,
                    Err(error) => Some(library_error_text(error)),
                },
                now@,
            ),
            old(storage)@.wf() ==> final(storage)@.wf(),
            seq![ended.event@] == step_events(
                old(self).show@,
                SyncStep::Finished(outcome is Ok, old(self).report.discovered),
            ),
            ended.result == match outcome {
                Ok(()) => Ok(old(self).report),
                Err(error) => Err(error),
            },
            *final(self) == (SyncRun { stage: Stage::Finished, ..*old(self) }),
    {
        self.stage = Stage::Finished;
        let event = KnownEvent::PollFinished {
            show: self.show.clone(),
            ok: outcome.is_ok(),
            new_episodes: self.report.discovered,
        };
        match outcome {
            Ok(()) => {
                storage.record_poll(&self.show, None, now);
                Ended { event, result: Ok(self.report) }
            },
            Err(error) => {
                storage.record_poll(&self.show, Some(error.to_string()), now);
                Ended { event, result: Err(error) }
            },
        }
    }
}

/// A character of a file name: what a slug may hold stays, anything else
/// becomes `_`.
pub open spec fn file_char(c: char) -> char {
    if crate::domain::is_slug_char(c) {
        c
    } else {
        '_'
    }
}

/// The file name of an episode: its id, made safe, and the extension of its
/// type.
pub open spec fn media_name(id: Seq<char>, mime: Option<AudioMime>) -> Seq<char> {
    id.map_values(|c: char| file_char(c)) + "."@ + match mime {
        Some(AudioMime::Mpeg) => "mp3"@,
        Some(AudioMime::Mp4) => "m4a"@,
        Some(AudioMime::Aac) => "aac"@,
        Some(AudioMime::Ogg) => "ogg"@,
        _ => "audio"@,
    }
}

/// Where an episode's audio goes: `<data dir>/media/<show>/<name>`.
pub fn media_path(
    data_dir: &str,
    show: &ShowSlug,
    episode: &EpisodeId,
    mime: &Option<AudioMime>,
) -> (path: String)
    ensures
        path@ == crate::paths::joined_path(
            crate::paths::joined_path(
                crate::paths::joined_path(data_dir@, "media"@),
                show@,
            ),
            media_name(episode@, *mime),
        ),
{
    let chars = chars_of(episode.as_str());
    let mut name = String::new();
    let mut i: usize = 0;
    let ghost safe = episode@.map_values(|c: char| file_char(c));
    while i < chars.len()
        invariant
            i <= chars@.len(),
            chars@ == episode@,
            safe == episode@.map_values(|c: char| file_char(c)),
            name@ == safe.take(i as int),
        decreases chars@.len() - i,
    {
        let c: char = chars[i];
        let ok = ('a' <= c && c <= 'z') || ('A' <= c && c <= 'Z') || ('0' <= c && c <= '9') || c
            == '-' || c == '_' || c == '.';
        if ok {
            name.push(c);
        } else {
            name.push('_');
        }
        assert(safe.take(i + 1) =~= safe.take(i as int).push(safe[i as int]));
        i += 1;
    }
    assert(safe.take(safe.len() as int) =~= safe);
    name.append(".");
    let extension = match mime {
        Some(mime) => match mime.extension() {
            Some(extension) => extension,
            None => "audio",
        },
        None => "audio",
    };
    name.append(extension);
    let media = join_path(data_dir, "media");
    let dir = join_path(media.as_str(), show.as_str());
    join_path(dir.as_str(), name.as_str())
}

/// An episode's file name holds no slash, whatever its id, so its file
/// lies in its show's directory.
pub proof fn law_media_names_are_flat(id: Seq<char>, mime: Option<AudioMime>)
    ensures
        !media_name(id, mime).contains('/'),
{
    reveal_strlit(".");
    reveal_strlit("mp3");
    reveal_strlit("m4a");
    reveal_strlit("aac");
    reveal_strlit("ogg");
    reveal_strlit("audio");
    let safe = id.map_values(|c: char| file_char(c));
    assert forall|i: int| 0 <= i < media_name(id, mime).len() implies media_name(id, mime)[i]
        != '/' by {
        if i < safe.len() {
            assert(media_name(id, mime)[i] == safe[i]);
        }
    }
}

/// Where a show's artwork comes from.
#[derive(Debug)]
pub enum ArtworkSource {
    /// Fetch it.
    Fetch(WebUrl),
    /// Take this local file.
    File(String),
    /// There is none.
    Absent,
}

/// Where a show's artwork comes from: the configured override beats the
/// provider's.
pub fn artwork_source(show: &ShowConfig, meta: &ShowMeta) -> (source: ArtworkSource)
    ensures
        match (show.artwork, meta.artwork) {
            (Some(ArtworkOverride::Url(url)), _) => source == ArtworkSource::Fetch(url),
            (Some(ArtworkOverride::Path(path)), _) => source == ArtworkSource::File(path),
            (None, Some(url)) => source == ArtworkSource::Fetch(url),
            (None, None) => source is Absent,
        },
{
    match &show.artwork {
        Some(ArtworkOverride::Url(url)) => ArtworkSource::Fetch(url.clone()),
        Some(ArtworkOverride::Path(path)) => ArtworkSource::File(path.clone()),
        None => match &meta.artwork {
            Some(url) => ArtworkSource::Fetch(url.clone()),
            None => ArtworkSource::Absent,
        },
    }
}

/// The extension a source's file name ends in, with its dot; nothing where
/// it has none that is safe in a file name.
pub open spec fn artwork_extension(source: Seq<char>) -> Seq<char> {
    let name = after_last(up_to_either(source, '?', '#'), '/');
    let extension = after_last(name, '.');
    if extension.len() < name.len() && is_slug(extension) {
        "."@ + extension
    } else {
        Seq::empty()
    }
}

/// The name a show's artwork is cached under: keyed to where it came from,
/// so that another source is another file.
pub open spec fn artwork_name(show: Seq<char>, source: Seq<char>) -> Seq<char> {
    show + "-"@ + crate::digest::blake3_hex(vstd::utf8::encode_utf8(source)).take(16)
        + artwork_extension(source)
}

/// The name a show's artwork from `source` is cached under.
pub fn artwork_file_name(show: &ShowSlug, source: &str) -> (name: String)
    ensures
        name@ == artwork_name(show@, source@),
{
    let hex = Digest::of_bytes(source.as_bytes()).to_hex();
    let digits = chars_of(hex.as_str());
    let short = from_chars(&digits, 0, 16);
    assert(short@ =~= hex@.take(16));
    let mut name = show.to_string();
    name.append("-");
    name.append(short.as_str());
    let file = tail_after(cut_at_either(source, '?', '#').as_str(), '/');
    let extension = tail_after(file.as_str(), '.');
    let shorter = chars_of(extension.as_str()).len() < chars_of(file.as_str()).len();
    if shorter && ShowSlug::parse(extension.as_str()).is_ok() {
        name.append(".");
        name.append(extension.as_str());
    }
    assert(name@ =~= artwork_name(show@, source@));
    name
}

/// Whether an episode is served: cached, with a file.
pub open spec fn is_served(episode: EpisodeRecord) -> bool {
    episode.state is Cached && episode.file_path is Some
}

/// The served episodes among these, in order.
pub open spec fn served_of(episodes: Seq<EpisodeRecord>) -> Seq<EpisodeRecord>
    decreases episodes.len(),
{
    if episodes.len() == 0 {
        Seq::empty()
    } else {
        let before = served_of(episodes.drop_last());
        if is_served(episodes.last()) {
            before.push(episodes.last())
        } else {
            before
        }
    }
}

/// The GUID of an episode: `<provider>/<show>/<episode>`.
pub open spec fn episode_guid(
    provider: Seq<char>,
    show: Seq<char>,
    id: Seq<char>,
) -> Seq<char> {
    provider + "/"@ + show + "/"@ + id
}

/// The URL of a route below the external base.
pub open spec fn route_text(base: Seq<char>, segments: Seq<Seq<char>>) -> Option<Seq<char>> {
    crate::difm::with_path(base, segments)
}

/// The route of an episode's audio.
pub open spec fn media_route(base: Seq<char>, show: Seq<char>, path: Seq<char>) -> Option<
    Seq<char>,
> {
    route_text(base, seq!["media"@, show, crate::text::after_last(path, '/')])
}

/// The publication time a feed can print: none before year zero.
pub open spec fn printable_time(at: Option<Timestamp>) -> Option<Timestamp> {
    match at {
        Some(at) => if at@ >= crate::timestamp::YEAR_ZERO_NANOS {
            Some(at)
        } else {
            None
        },
        None => None,
    }
}

/// Whether `item` is what a feed says of a served episode.
pub open spec fn item_reads(
    item: Item,
    provider: Seq<char>,
    episode: EpisodeRecord,
    base: Seq<char>,
) -> bool {
    &&& item.title@ == episode.title@
    &&& item.guid@ == episode_guid(provider, episode.show@, episode.id@)
    &&& crate::text::opt_text(item.description) == crate::text::opt_text(episode.description)
    &&& item.published_at == printable_time(episode.published_at)
    &&& media_route(base, episode.show@, episode.file_path->0@) == Some(item.enclosure_url@)
    &&& crate::weburl::url_pairs(item.enclosure_url@) == crate::weburl::url_pairs(base)
    &&& item.enclosure_bytes == projected_bytes(episode.bytes)
    &&& item.enclosure_mime@ == match episode.mime {
        Some(mime) => crate::domain::mime_text(mime),
        None => "audio/mpeg"@,
    }
    &&& item.duration_secs == episode.duration_secs
}

fn route(base: &WebUrl, segments: &Vec<String>) -> (url: Result<WebUrl, LibraryError>)
    ensures
        match url {
            Ok(url) => route_text(base@, crate::text::texts(segments@)) == Some(url@)
                && crate::weburl::url_pairs(url@) == crate::weburl::url_pairs(base@),
            Err(error) => route_text(base@, crate::text::texts(segments@)) is None && (
            error matches LibraryError::ExternalBaseUrl(text) && text@ == base@),
        },
{
    match base.with_segments(segments) {
        Some(url) => Ok(url),
        None => Err(LibraryError::ExternalBaseUrl(base.to_string())),
    }
}

/// Whether an error says that a configuration has no external base URL.
pub open spec fn is_baseless(error: LibraryError, config: Config) -> bool {
    error matches LibraryError::ExternalBaseUrl(url) && url@ == crate::config::default_base(
        config.bind,
    )
}

/// The external base URL, or that there is none.
fn base_url(config: &Config) -> (base: Result<WebUrl, LibraryError>)
    ensures
        match base {
            Ok(base) => crate::config::base_text(*config) == Some(base@),
            Err(error) => crate::config::base_text(*config) is None && is_baseless(error, *config),
        },
{
    match config.external_base_url() {
        Some(base) => Ok(base),
        None => Err(LibraryError::ExternalBaseUrl(config.default_base_url())),
    }
}

fn feed_item(provider: &str, episode: &EpisodeRecord, base: &WebUrl) -> (item: Result<
    Item,
    LibraryError,
>)
    requires
        is_served(*episode),
    ensures
        match item {
            Ok(item) => item_reads(item, provider@, *episode, base@),
            Err(error) => media_route(base@, episode.show@, episode.file_path->0@) is None && (
            error matches LibraryError::ExternalBaseUrl(text) && text@ == base@),
        },
{
    let path = match &episode.file_path {
        Some(path) => path.clone(),
        None => String::new(),
    };
    let mut segments: Vec<String> = Vec::new();
    segments.push("media".to_owned());
    segments.push(episode.show.to_string());
    segments.push(tail_after(path.as_str(), '/'));
    assert(crate::text::texts(segments@) =~= seq![
        "media"@,
        episode.show@,
        crate::text::after_last(path@, '/'),
    ]);
    let enclosure_url = match route(base, &segments) {
        Ok(url) => url,
        Err(error) => {
            return Err(error);
        },
    };
    let mut guid = provider.to_owned();
    guid.append("/");
    guid.append(episode.show.as_str());
    guid.append("/");
    guid.append(episode.id.as_str());
    let published_at = match episode.published_at {
        Some(at) => {
            if at.nanos() >= crate::timestamp::YEAR_ZERO_NANOS {
                Some(at)
            } else {
                None
            }
        },
        None => None,
    };
    let enclosure_mime = match &episode.mime {
        Some(mime) => mime.to_string(),
        None => "audio/mpeg".to_owned(),
    };
    let enclosure_bytes: u64 = match episode.bytes {
        Some(bytes) => bytes,
        None => 0,
    };
    Ok(
        Item {
            title: episode.title.clone(),
            guid,
            description: copy_opt(&episode.description),
            published_at,
            enclosure_url,
            enclosure_bytes,
            enclosure_mime,
            duration_secs: episode.duration_secs,
        },
    )
}

/// The title a feed carries: the configured one, else the provider's.
pub open spec fn feed_title(show: ShowConfig, stored: Seq<char>) -> Seq<char> {
    match show.title {
        Some(title) => title@,
        None => stored,
    }
}

/// Whether `feed` is the feed of a stored show, over these episodes.
pub open spec fn feed_reads(
    feed: Feed,
    show: ShowConfig,
    record: crate::storage::ShowRecord,
    episodes: Seq<EpisodeRecord>,
    base: Seq<char>,
) -> bool {
    let served = served_of(episodes);
    &&& feed.title@ == feed_title(show, record.title@)
    &&& feed.link@ == base
    &&& feed.description@ == match record.description {
        Some(description) => description@,
        None => feed_title(show, record.title@),
    }
    &&& match record.artwork_path {
        Some(path) => feed.artwork matches Some(url) && route_text(
            base,
            seq!["artwork"@, crate::text::after_last(path@, '/')],
        ) == Some(url@),
        None => feed.artwork is None,
    }
    &&& feed.items@.len() == served.len()
    &&& forall|i: int|
        0 <= i < served.len() ==> item_reads(
            #[trigger] feed.items@[i],
            record.provider@,
            served[i],
            base,
        )
}

/// Whether some route that the feed of a show needs cannot be formed.
pub open spec fn feed_unroutable(
    record: crate::storage::ShowRecord,
    episodes: Seq<EpisodeRecord>,
    base: Seq<char>,
) -> bool {
    let served = served_of(episodes);
    ||| record.artwork_path matches Some(path) && route_text(
        base,
        seq!["artwork"@, crate::text::after_last(path@, '/')],
    ) is None
    ||| exists|i: int|
        0 <= i < served.len() && media_route(
            base,
            (#[trigger] served[i]).show@,
            served[i].file_path->0@,
        ) is None
}

/// The feed of one show: its cached episodes, newest first.
pub fn feed(config: &Config, storage: &Storage, slug: &ShowSlug) -> (feed: Result<
    Feed,
    LibraryError,
>)
    ensures
        match (
            find_config(config.shows@, slug@),
            crate::storage::find_show(storage@.shows, slug@),
        ) {
            (None, _) => feed matches Err(e) && e == LibraryError::UnknownShow(*slug),
            (Some(_), None) => feed matches Err(e) && e == LibraryError::NotSynced(*slug),
            (Some(c), Some(s)) => {
                let episodes = crate::storage::listed_episodes(storage.episodes@, slug@);
                match (crate::config::base_text(*config), feed) {
                    (Some(base), Ok(feed)) => {
                        &&& feed_reads(
                            feed,
                            config.shows@[c],
                            storage.shows@[s],
                            episodes,
                            base,
                        )
                        &&& crate::rss::feed_printable(feed)
                    },
                    (Some(base), Err(error)) => {
                        &&& error matches LibraryError::ExternalBaseUrl(url) && url@ == base
                        &&& feed_unroutable(storage.shows@[s], episodes, base)
                    },
                    (None, Ok(_)) => false,
                    (None, Err(error)) => is_baseless(error, *config),
                }
            },
        },
{
    let show = match show_config(config, slug) {
        Ok(show) => show,
        Err(error) => {
            return Err(error);
        },
    };
    let record = match storage.show(slug) {
        Some(record) => record,
        None => {
            return Err(LibraryError::NotSynced(slug.clone()));
        },
    };
    let base = match base_url(config) {
        Ok(base) => base,
        Err(error) => {
            return Err(error);
        },
    };
    let title = match &show.title {
        Some(title) => title.clone(),
        None => record.title.clone(),
    };
    let description = match &record.description {
        Some(description) => description.clone(),
        None => title.clone(),
    };
    let artwork = match &record.artwork_path {
        Some(path) => {
            let mut segments: Vec<String> = Vec::new();
            segments.push("artwork".to_owned());
            segments.push(tail_after(path.as_str(), '/'));
            assert(crate::text::texts(segments@) =~= seq![
                "artwork"@,
                crate::text::after_last(path@, '/'),
            ]);
            match route(&base, &segments) {
                Ok(url) => Some(url),
                Err(error) => {
                    return Err(error);
                },
            }
        },
        None => None,
    };
    let episodes = storage.episodes(slug);
    let mut items: Vec<Item> = Vec::new();
    let mut i: usize = 0;
    assert(episodes@.take(0) =~= Seq::empty());
    while i < episodes.len()
        invariant
            i <= episodes@.len(),
            crate::config::base_text(*config) == Some(base@),
            items@.len() == served_of(episodes@.take(i as int)).len(),
            forall|k: int|
                0 <= k < items@.len() ==> item_reads(
                    #[trigger] items@[k],
                    record.provider@,
                    served_of(episodes@.take(i as int))[k],
                    base@,
                ),
            find_config(config.shows@, slug@) is Some,
            crate::storage::find_show(storage@.shows, slug@) matches Some(s) && record
                == storage.shows@[s],
            episodes@ == crate::storage::listed_episodes(storage.episodes@, slug@),
        decreases episodes@.len() - i,
    {
        proof {
            assert(episodes@.take(i + 1).drop_last() =~= episodes@.take(i as int));
            assert(episodes@.take(i + 1).last() == episodes@[i as int]);
        }
        if episodes[i].state.is_on_disk() && episodes[i].file_path.is_some() {
            match feed_item(record.provider.as_str(), &episodes[i], &base) {
                Ok(item) => {
                    items.push(item);
                },
                Err(error) => {
                    proof {
                        let k = served_of(episodes@.take(i as int)).len() as int;
                        lemma_served_prefix(episodes@, i + 1);
                        assert(served_of(episodes@.take(i + 1))[k] == episodes@[i as int]);
                        assert(served_of(episodes@)[k] == episodes@[i as int]);
                    }
                    return Err(error);
                },
            }
        }
        i += 1;
    }
    assert(episodes@.take(episodes@.len() as int) =~= episodes@);
    proof {
        assert forall|k: int| 0 <= k < items@.len() implies crate::rss::item_printable(
            #[trigger] items@[k],
        ) by {
            assert(item_reads(
                items@[k],
                record.provider@,
                served_of(episodes@)[k],
                base@,
            ));
        }
    }
    Ok(Feed { title, link: base, description, artwork, items })
}

/// What is served of a prefix is a prefix of what is served.
proof fn lemma_served_prefix(episodes: Seq<EpisodeRecord>, n: int)
    requires
        0 <= n <= episodes.len(),
    ensures
        served_of(episodes.take(n)).is_prefix_of(served_of(episodes)),
    decreases episodes.len(),
{
    if n < episodes.len() {
        lemma_served_prefix(episodes.drop_last(), n);
        assert(episodes.drop_last().take(n) =~= episodes.take(n));
        let a = served_of(episodes.take(n));
        let b = served_of(episodes.drop_last());
        let c = served_of(episodes);
        assert(b =~= c.subrange(0, b.len() as int));
        assert(a =~= c.subrange(0, a.len() as int));
    } else {
        assert(episodes.take(n) =~= episodes);
        let a = served_of(episodes);
        assert(a =~= a.subrange(0, a.len() as int));
    }
}

/// The feed of one show as RSS. Byte for byte the same as long as the
/// configuration and the state are.
pub fn write_feed(config: &Config, storage: &Storage, slug: &ShowSlug) -> (bytes: Result<
    Vec<u8>,
    LibraryError,
>)
    ensures
        match (
            find_config(config.shows@, slug@),
            crate::storage::find_show(storage@.shows, slug@),
        ) {
            (None, _) => bytes matches Err(e) && e == LibraryError::UnknownShow(*slug),
            (Some(_), None) => bytes matches Err(e) && e == LibraryError::NotSynced(*slug),
            (Some(c), Some(s)) => {
                let episodes = crate::storage::listed_episodes(storage.episodes@, slug@);
                match (crate::config::base_text(*config), bytes) {
                    (Some(base), Ok(bytes)) => exists|feed: Feed|
                        #[trigger] feed_reads(
                            feed,
                            config.shows@[c],
                            storage.shows@[s],
                            episodes,
                            base,
                        ) && bytes@ == crate::xml::xml_document(crate::rss::rss_events(feed)),
                    (Some(base), Err(error)) => feed_unroutable(
                        storage.shows@[s],
                        episodes,
                        base,
                    ) && (error matches LibraryError::ExternalBaseUrl(url) && url@ == base),
                    (None, Ok(_)) => false,
                    (None, Err(error)) => is_baseless(error, *config),
                }
            },
        },
{
    match feed(config, storage, slug) {
        Ok(feed) => Ok(crate::rss::write(&feed)),
        Err(error) => Err(error),
    }
}

/// Two feeds of the same show over the same state render to the same
/// events, and so to the same bytes.
pub proof fn law_feeds_are_deterministic(
    a: Feed,
    b: Feed,
    show: ShowConfig,
    record: crate::storage::ShowRecord,
    episodes: Seq<EpisodeRecord>,
    base: Seq<char>,
)
    requires
        feed_reads(a, show, record, episodes, base),
        feed_reads(b, show, record, episodes, base),
    ensures
        crate::rss::rss_events(a) == crate::rss::rss_events(b),
{
    let served = served_of(episodes);
    assert forall|i: int| 0 <= i < served.len() implies #[trigger] crate::rss::item_events(
        a.items@[i],
    ) == crate::rss::item_events(b.items@[i]) by {
        assert(item_reads(a.items@[i], record.provider@, served[i], base));
        assert(item_reads(b.items@[i], record.provider@, served[i], base));
    }
    lemma_items_events_equal(a.items@, b.items@);
}

proof fn lemma_items_events_equal(a: Seq<Item>, b: Seq<Item>)
    requires
        a.len() == b.len(),
        forall|i: int|
            0 <= i < a.len() ==> #[trigger] crate::rss::item_events(a[i])
                == crate::rss::item_events(b[i]),
    ensures
        crate::rss::items_events(a) == crate::rss::items_events(b),
    decreases a.len(),
{
    if a.len() > 0 {
        assert forall|i: int| 0 <= i < a.drop_last().len() implies #[trigger] crate::rss::item_events(
            a.drop_last()[i],
        ) == crate::rss::item_events(b.drop_last()[i]) by {
            assert(crate::rss::item_events(a[i]) == crate::rss::item_events(b[i]));
        }
        lemma_items_events_equal(a.drop_last(), b.drop_last());
        assert(crate::rss::item_events(a[a.len() - 1]) == crate::rss::item_events(
            b[b.len() - 1],
        ));
    }
}

/// Nothing upstream signed or keyed leaks into a feed: the query of every
/// enclosure is the external base URL's own.
pub proof fn law_enclosures_carry_no_credentials(
    feed: Feed,
    show: ShowConfig,
    record: crate::storage::ShowRecord,
    episodes: Seq<EpisodeRecord>,
    base: Seq<char>,
    i: int,
)
    requires
        feed_reads(feed, show, record, episodes, base),
        !crate::domain::has_secret_param(crate::weburl::url_pairs(base)),
        0 <= i < feed.items@.len(),
    ensures
        !crate::domain::has_secret_param(
            crate::weburl::url_pairs(feed.items@[i].enclosure_url@),
        ),
{
    assert(item_reads(feed.items@[i], record.provider@, served_of(episodes)[i], base));
}

/// The title a subscription carries: the configured one, else the stored
/// one, else the slug.
pub open spec fn subscription_title(show: ShowConfig, model: StorageModel) -> Seq<char> {
    match show.title {
        Some(title) => title@,
        None => match crate::storage::find_show(model.shows, show.slug@) {
            Some(i) => model.shows[i].title,
            None => show.slug@,
        },
    }
}

/// The route of a show's feed.
pub open spec fn feed_route(base: Seq<char>, slug: Seq<char>) -> Option<Seq<char>> {
    route_text(base, seq!["feeds"@, slug + ".xml"@])
}

/// Whether `subscription` is a configured show's.
pub open spec fn subscription_reads(
    subscription: Subscription,
    show: ShowConfig,
    model: StorageModel,
    base: Seq<char>,
) -> bool {
    &&& subscription.title@ == subscription_title(show, model)
    &&& feed_route(base, show.slug@) == Some(subscription.feed_url@)
}

/// The subscriptions to every configured show, in configuration order.
pub fn subscriptions(config: &Config, storage: &Storage) -> (subscriptions: Result<
    Vec<Subscription>,
    LibraryError,
>)
    ensures
        match (crate::config::base_text(*config), subscriptions) {
            (Some(base), Ok(list)) => {
                &&& list@.len() == config.shows@.len()
                &&& forall|i: int|
                    0 <= i < list@.len() ==> subscription_reads(
                        #[trigger] list@[i],
                        config.shows@[i],
                        storage@,
                        base,
                    )
            },
            (Some(base), Err(error)) => {
                &&& error matches LibraryError::ExternalBaseUrl(url) && url@ == base
                &&& exists|i: int|
                    0 <= i < config.shows@.len() && feed_route(
                        base,
                        (#[trigger] config.shows@[i]).slug@,
                    ) is None
            },
            (None, Ok(_)) => false,
            (None, Err(error)) => is_baseless(error, *config),
        },
{
    let base = match base_url(config) {
        Ok(base) => base,
        Err(error) => {
            return Err(error);
        },
    };
    let mut list: Vec<Subscription> = Vec::new();
    let mut i: usize = 0;
    while i < config.shows.len()
        invariant
            i <= config.shows@.len(),
            crate::config::base_text(*config) == Some(base@),
            list@.len() == i,
            forall|k: int|
                0 <= k < i ==> subscription_reads(
                    #[trigger] list@[k],
                    config.shows@[k],
                    storage@,
                    base@,
                ),
        decreases config.shows@.len() - i,
    {
        let show = &config.shows[i];
        let title = match &show.title {
            Some(title) => title.clone(),
            None => match storage.show(&show.slug) {
                Some(record) => {
                    proof {
                        crate::storage::lemma_find_show(storage@.shows, show.slug@);
                    }
                    record.title
                },
                None => show.slug.to_string(),
            },
        };
        let mut file = show.slug.to_string();
        file.append(".xml");
        let mut segments: Vec<String> = Vec::new();
        segments.push("feeds".to_owned());
        segments.push(file);
        assert(crate::text::texts(segments@) =~= seq!["feeds"@, show.slug@ + ".xml"@]);
        match route(&base, &segments) {
            Ok(feed_url) => {
                list.push(Subscription { title, feed_url });
            },
            Err(error) => {
                assert(feed_route(base@, config.shows@[i as int].slug@) is None);
                return Err(error);
            },
        }
        i += 1;
    }
    Ok(list)
}

/// The subscription list as OPML.
pub fn write_opml(config: &Config, storage: &Storage) -> (bytes: Result<Vec<u8>, LibraryError>)
    ensures
        match (crate::config::base_text(*config), bytes) {
            (Some(base), Ok(bytes)) => exists|list: Seq<Subscription>|
                list.len() == config.shows@.len() && (forall|i: int|
                    0 <= i < list.len() ==> subscription_reads(
                        #[trigger] list[i],
                        config.shows@[i],
                        storage@,
                        base,
                    )) && bytes@ == crate::xml::xml_document(
                    #[trigger] crate::opml::opml_events("splicefeed"@, list),
                ),
            (Some(base), Err(error)) => {
                &&& error matches LibraryError::ExternalBaseUrl(url) && url@ == base
                &&& exists|i: int|
                    0 <= i < config.shows@.len() && feed_route(
                        base,
                        (#[trigger] config.shows@[i]).slug@,
                    ) is None
            },
            (None, Ok(_)) => false,
            (None, Err(error)) => is_baseless(error, *config),
        },
{
    match subscriptions(config, storage) {
        Ok(list) => Ok(crate::opml::write("splicefeed", &list)),
        Err(error) => Err(error),
    }
}

/// What is wrong with a cached file.
#[derive(Debug, Clone, Copy, PartialEq, Eq, Structural)]
pub enum FileProblem {
    /// The file is not there.
    Missing,
    /// The file has another size.
    SizeMismatch {
        /// Bytes recorded.
        expected: u64,
        /// Bytes found.
        actual: u64,
    },
    /// The file has another content.
    HashMismatch,
}

/// The message of a [`FileProblem`].
pub open spec fn file_problem_text(problem: FileProblem) -> Seq<char> {
    match problem {
        FileProblem::Missing => "file missing"@,
        FileProblem::SizeMismatch { expected, actual } => "size mismatch: expected "@
            + crate::text::decimal(expected as nat) + " bytes, found "@ + crate::text::decimal(
            actual as nat,
        ),
        FileProblem::HashMismatch => "blake3 mismatch"@,
    }
}

impl FileProblem {
    /// The message shown to people.
    pub fn to_string(&self) -> (text: String)
        ensures
            text@ == file_problem_text(*self),
    {
        match self {
            FileProblem::Missing => "file missing".to_owned(),
            FileProblem::SizeMismatch { expected, actual } => {
                let mut text = "size mismatch: expected ".to_owned();
                text.append(decimal_text(*expected).as_str());
                text.append(" bytes, found ");
                text.append(decimal_text(*actual).as_str());
                text
            },
            FileProblem::HashMismatch => "blake3 mismatch".to_owned(),
        }
    }
}

/// What a file's size says: `found` is its size, or that it is not there.
pub open spec fn size_problem(expected: Option<u64>, found: Option<u64>) -> Option<FileProblem> {
    match (found, expected) {
        (None, _) => Some(FileProblem::Missing),
        (Some(actual), Some(expected)) => if actual != expected {
            Some(FileProblem::SizeMismatch { expected, actual })
        } else {
            None
        },
        (Some(_), None) => None,
    }
}

/// What a file's digest says.
pub open spec fn hash_problem(expected: Option<Seq<char>>, found: Seq<char>) -> Option<
    FileProblem,
> {
    match expected {
        Some(expected) => if expected != found {
            Some(FileProblem::HashMismatch)
        } else {
            None
        },
        None => None,
    }
}

/// Judge a cached file by its size, before anything is hashed.
pub fn check_size(episode: &EpisodeRecord, found: Option<u64>) -> (problem: Option<FileProblem>)
    ensures
        problem == size_problem(episode.bytes, found),
{
    match found {
        None => Some(FileProblem::Missing),
        Some(actual) => match episode.bytes {
            Some(expected) => {
                if actual != expected {
                    Some(FileProblem::SizeMismatch { expected, actual })
                } else {
                    None
                }
            },
            None => None,
        },
    }
}

/// Judge a cached file of the right size by its digest.
pub fn check_hash(episode: &EpisodeRecord, found: &Digest) -> (problem: Option<FileProblem>)
    ensures
        problem == hash_problem(crate::storage::opt_digest(episode.blake3), found@),
{
    match &episode.blake3 {
        Some(expected) => {
            if expected.same(found) {
                None
            } else {
                Some(FileProblem::HashMismatch)
            }
        },
        None => None,
    }
}

/// A file whose bytes are those that were downloaded has no problem.
pub proof fn law_intact_files_have_no_problem(bytes: Seq<u8>)
    requires
        bytes.len() <= u64::MAX,
    ensures
        size_problem(Some(bytes.len() as u64), Some(bytes.len() as u64)) is None,
        hash_problem(
            Some(crate::digest::blake3_hex(bytes)),
            crate::digest::blake3_hex(bytes),
        ) is None,
{
}

/// One damaged file.
#[derive(Debug)]
pub struct VerifyOutcome {
    /// The episode.
    pub id: EpisodeId,
    /// What is wrong with its file.
    pub problem: FileProblem,
    /// Whether it was downloaded again.
    pub fixed: bool,
}

/// What a verification found.
#[derive(Debug)]
pub struct VerifyReport {
    /// Files checked.
    pub checked: u64,
    /// Files without a problem.
    pub intact: u64,
    /// The damaged ones.
    pub problems: Vec<VerifyOutcome>,
}

impl VerifyReport {
    /// Every file checked is either intact or among the problems.
    pub open spec fn wf(self) -> bool {
        self.checked == self.intact + self.problems@.len()
    }

    /// Nothing checked yet.
    pub fn new() -> (report: VerifyReport)
        ensures
            report.wf(),
            report.checked == 0,
            report.problems@.len() == 0,
    {
        VerifyReport { checked: 0, intact: 0, problems: Vec::new() }
    }

    /// One more file was checked.
    pub fn record(&mut self, id: &EpisodeId, problem: Option<FileProblem>, fixed: bool)
        requires
            old(self).wf(),
            old(self).checked < u64::MAX,
        ensures
            final(self).wf(),
            final(self).checked == old(self).checked + 1,
            match problem {
                None => final(self).intact == old(self).intact + 1 && final(self).problems@
                    == old(self).problems@,
                Some(problem) => final(self).intact == old(self).intact && final(self).problems@
                    == old(self).problems@.push(VerifyOutcome { id: *id, problem, fixed }),
            },
    {
        self.checked = self.checked + 1;
        match problem {
            None => {
                self.intact = self.intact + 1;
            },
            Some(problem) => {
                self.problems.push(VerifyOutcome { id: id.clone(), problem, fixed });
            },
        }
    }

    /// How many problems remain.
    pub fn unfixed(&self) -> (count: usize)
        ensures
            count == unfixed_count(self.problems@),
    {
        let mut count: usize = 0;
        let mut i: usize = 0;
        assert(self.problems@.take(0) =~= Seq::empty());
        while i < self.problems.len()
            invariant
                i <= self.problems@.len(),
                count <= i,
                count == unfixed_count(self.problems@.take(i as int)),
            decreases self.problems@.len() - i,
        {
            proof {
                assert(self.problems@.take(i + 1).drop_last() =~= self.problems@.take(i as int));
            }
            if !self.problems[i].fixed {
                count += 1;
            }
            i += 1;
        }
        assert(self.problems@.take(self.problems@.len() as int) =~= self.problems@);
        count
    }
}

/// How many problems remain.
pub open spec fn unfixed_count(problems: Seq<VerifyOutcome>) -> nat
    decreases problems.len(),
{
    if problems.len() == 0 {
        0
    } else {
        unfixed_count(problems.drop_last()) + if problems.last().fixed {
            0nat
        } else {
            1nat
        }
    }
}

/// A configured show is found by its slug, the first that has it, and a slug
/// that no show has finds none.
pub proof fn law_shows_are_found_by_slug(shows: Seq<ShowConfig>, slug: Seq<char>)
    ensures
        match find_config(shows, slug) {
            Some(i) => 0 <= i < shows.len() && shows[i].slug@ == slug && forall|j: int|
                0 <= j < i ==> (#[trigger] shows[j]).slug@ != slug,
            None => forall|j: int| 0 <= j < shows.len() ==> (#[trigger] shows[j]).slug@ != slug,
        },
    decreases shows.len(),
{
    if shows.len() > 0 {
        law_shows_are_found_by_slug(shows.drop_last(), slug);
        assert forall|j: int| 0 <= j < shows.len() - 1 implies (#[trigger] shows[j])
            == shows.drop_last()[j] by {}
    }
}

/// The episodes a plan looks at are those on disk and those wanted; those it
/// prunes from are those on disk; and those a feed serves are those on disk
/// whose file is known. None is left out, and their order stays.
pub proof fn law_plans_look_at_the_right_episodes(
    episodes: Seq<EpisodeRecord>,
    wanted: Seq<EpisodeId>,
)
    ensures
        window_of(episodes, wanted) == episodes.filter(
            |e: EpisodeRecord|
                e.state == EpisodeState::Cached || (exists|i: int|
                    0 <= i < wanted.len() && #[trigger] wanted[i]@ == e.id@),
        ),
        cached_of(episodes) == episodes.filter(|e: EpisodeRecord| e.state == EpisodeState::Cached),
        served_of(episodes) == episodes.filter(
            |e: EpisodeRecord| e.state == EpisodeState::Cached && e.file_path is Some,
        ),
    decreases episodes.len(),
{
    reveal(Seq::filter);
    if episodes.len() > 0 {
        law_plans_look_at_the_right_episodes(episodes.drop_last(), wanted);
    }
}

/// Retention weighs each episode by its own id and by its recorded size, or
/// by nothing where no size is known.
pub proof fn law_candidates_weigh_their_episodes(episodes: Seq<EpisodeRecord>, i: int)
    requires
        0 <= i < episodes.len(),
    ensures
        candidates_of(episodes).len() == episodes.len(),
        candidates_of(episodes)[i].id == episodes[i].id,
        episodes[i].bytes matches Some(bytes) ==> candidates_of(episodes)[i].bytes == bytes,
        episodes[i].bytes is None ==> candidates_of(episodes)[i].bytes == 0,
{
}

/// A sync fetches an episode exactly if it is wanted, its file is not there
/// or on its way, and retention will keep it beside the newer ones: no limit
/// is exceeded by the newer episodes on disk or wanted that are kept, and
/// this one.
pub proof fn law_a_sync_fetches_what_will_be_kept(
    policy: Retention,
    episodes: Seq<EpisodeRecord>,
    wanted: Seq<EpisodeId>,
    i: int,
)
    requires
        crate::storage::ids_differ(episodes),
        0 <= i < episodes.len(),
    ensures
        ({
            let newer = crate::retention::kept(
                policy,
                candidates_of(window_of(episodes.take(i), wanted)),
            );
            let bytes: nat = match episodes[i].bytes {
                Some(bytes) => bytes as nat,
                None => 0,
            };
            is_wanted(sync_ids(policy, episodes, wanted), episodes[i].id@) <==> {
                &&& exists|k: int| 0 <= k < wanted.len() && #[trigger] wanted[k]@ == episodes[i].id@
                &&& episodes[i].state != EpisodeState::Cached
                &&& episodes[i].state != EpisodeState::Downloading
                &&& policy.keep_last matches Some(n) ==> newer.len() < n
                &&& policy.max_bytes matches Some(max) ==> newer.len() == 0
                    || crate::retention::total_bytes(newer) + bytes <= max
            }
        }),
{
    lemma_plans_by_id(policy, episodes, wanted, episodes[i].id@);
}

/// A sync prunes an episode exactly if it is on disk and a limit is exceeded
/// by the newer episodes on disk that are kept, and this one; the newest is
/// never pruned for its size.
pub proof fn law_a_sync_prunes_what_exceeds(
    policy: Retention,
    episodes: Seq<EpisodeRecord>,
    i: int,
)
    requires
        crate::storage::ids_differ(episodes),
        0 <= i < episodes.len(),
    ensures
        ({
            let newer = crate::retention::kept(policy, candidates_of(cached_of(episodes.take(i))));
            let bytes: nat = match episodes[i].bytes {
                Some(bytes) => bytes as nat,
                None => 0,
            };
            is_wanted(doomed_ids(policy, episodes), episodes[i].id@) <==> {
                &&& episodes[i].state == EpisodeState::Cached
                &&& {
                    ||| policy.keep_last matches Some(n) && newer.len() >= n
                    ||| policy.max_bytes matches Some(max) && newer.len() > 0
                        && crate::retention::total_bytes(newer) + bytes > max
                }
            }
        }),
{
    lemma_plans_by_id(policy, episodes, Seq::empty(), episodes[i].id@);
}

/// A plan to fetch goes through its window in order: what it takes from a
/// part stands in front of what it takes from the rest.
pub proof fn law_fetching_follows_the_window(
    policy: Retention,
    window: Seq<EpisodeRecord>,
    m: nat,
    n: nat,
)
    requires
        m <= n,
    ensures
        fetch_ids(policy, window, m).is_prefix_of(fetch_ids(policy, window, n)),
        fetch_ids(policy, window, n).len() <= n,
        n > 0 && fetch_ids(policy, window, n).len() > fetch_ids(
            policy,
            window,
            (n - 1) as nat,
        ).len() ==> fetch_ids(policy, window, n).last() == window[n - 1].id,
    decreases n,
{
    let all = fetch_ids(policy, window, n);
    if n > 0 {
        let before = fetch_ids(policy, window, (n - 1) as nat);
        if m < n {
            law_fetching_follows_the_window(policy, window, m, (n - 1) as nat);
            let part = fetch_ids(policy, window, m);
            assert(part =~= all.subrange(0, part.len() as int));
        } else {
            law_fetching_follows_the_window(policy, window, (n - 1) as nat, (n - 1) as nat);
            assert(all =~= all.subrange(0, all.len() as int));
        }
    } else {
        assert(all =~= all.subrange(0, all.len() as int));
    }
}

/// Ids are those of the episodes they come from, one by one.
pub proof fn law_ids_stand_for_their_episodes(
    listing: Seq<EpisodeMeta>,
    episodes: Seq<EpisodeRecord>,
)
    ensures
        listing_ids(listing).len() == listing.len(),
        record_ids(episodes).len() == episodes.len(),
        forall|i: int|
            0 <= i < listing.len() ==> (#[trigger] listing_ids(listing)[i])@ == listing[i].id@,
        forall|i: int|
            0 <= i < episodes.len() ==> (#[trigger] record_ids(episodes)[i])@ == episodes[i].id@,
{
}

/// A bound takes that many from the front of a listing, or all of it where
/// it is shorter; without a bound all of it counts.
pub proof fn law_bounds_take_from_the_front<T>(listing: Seq<T>, bound: Option<u32>)
    ensures
        bound is None ==> bounded(listing, bound) == listing,
        bounded(listing, bound).is_prefix_of(listing),
        bound matches Some(n) ==> bounded(listing, bound).len() == if n < listing.len() {
            n as nat
        } else {
            listing.len()
        },
{
    assert(listing =~= listing.subrange(0, listing.len() as int));
}

/// What a listing discovers is what it lists and storage did not know, each
/// episode once and in the order of the listing.
pub proof fn law_the_unknown_are_discovered(
    episodes: Seq<crate::storage::EpisodeRow>,
    show: Seq<char>,
    listing: Seq<EpisodeMeta>,
    id: Seq<char>,
    last: EpisodeMeta,
)
    ensures
        is_wanted(unknown_ids(episodes, show, listing), id) <==> (exists|k: int|
            0 <= k < listing.len() && (#[trigger] listing[k]).id@ == id) && (forall|i: int|
            0 <= i < episodes.len() ==> (#[trigger] episodes[i]).show != show || episodes[i].id
                != id),
        forall|i: int, j: int|
            #![trigger unknown_ids(episodes, show, listing)[i], unknown_ids(
                episodes,
                show,
                listing,
            )[j]]
            0 <= i < j < unknown_ids(episodes, show, listing).len() ==> unknown_ids(
                episodes,
                show,
                listing,
            )[i]@ != unknown_ids(episodes, show, listing)[j]@,
        unknown_ids(episodes, show, listing).is_prefix_of(
            unknown_ids(episodes, show, listing.push(last)),
        ),
{
    lemma_unknown_are_listed(episodes, show, listing, id);
    crate::storage::lemma_find_episode(episodes, show, id);
    lemma_unknown_differ(episodes, show, listing);
    assert(listing.push(last).drop_last() =~= listing);
    let part = unknown_ids(episodes, show, listing);
    let all = unknown_ids(episodes, show, listing.push(last));
    assert(part =~= all.subrange(0, part.len() as int));
}

proof fn lemma_unknown_differ(
    episodes: Seq<crate::storage::EpisodeRow>,
    show: Seq<char>,
    listing: Seq<EpisodeMeta>,
)
    ensures
        forall|i: int, j: int|
            #![trigger unknown_ids(episodes, show, listing)[i], unknown_ids(
                episodes,
                show,
                listing,
            )[j]]
            0 <= i < j < unknown_ids(episodes, show, listing).len() ==> unknown_ids(
                episodes,
                show,
                listing,
            )[i]@ != unknown_ids(episodes, show, listing)[j]@,
    decreases listing.len(),
{
    if listing.len() > 0 {
        lemma_unknown_differ(episodes, show, listing.drop_last());
        let before = unknown_ids(episodes, show, listing.drop_last());
        let all = unknown_ids(episodes, show, listing);
        assert forall|i: int, j: int|
            #![trigger all[i], all[j]]
            0 <= i < j < all.len() implies all[i]@ != all[j]@ by {
            assert(all[i] == before[i]);
            if j < before.len() {
                assert(all[j] == before[j]);
            }
        }
    }
}

/// What subscribers hear of a step says what happened: which episodes are
/// new, how a download ended, how much retention removed, and how the poll
/// ended. Nothing is said of a listing that did not change, nor of a sweep
/// that removed nothing.
pub proof fn law_events_say_what_happened(
    show: Seq<char>,
    ids: Seq<Seq<char>>,
    id: Seq<char>,
    error: Option<ErrorClass>,
    episodes: u32,
    bytes: u64,
    ok: bool,
)
    ensures
        sync_events(show, Seq::empty()) == seq![EventModel::PollStarted { show }],
        step_events(show, SyncStep::Listed(ids)).len() == ids.len(),
        forall|i: int|
            0 <= i < ids.len() ==> #[trigger] step_events(show, SyncStep::Listed(ids))[i] == (
            EventModel::EpisodeDiscovered { show, episode: ids[i] }),
        step_events(show, SyncStep::Unchanged).len() == 0,
        step_events(show, SyncStep::Downloaded(id, error)) == seq![
            EventModel::DownloadFinished { show, episode: id, error },
        ],
        episodes > 0 ==> step_events(show, SyncStep::Swept(episodes, bytes)) == seq![
            EventModel::Pruned { show, episodes, bytes_freed: bytes },
        ],
        step_events(show, SyncStep::Swept(0, bytes)).len() == 0,
        step_events(show, SyncStep::Finished(ok, episodes)) == seq![
            EventModel::PollFinished { show, ok, new_episodes: episodes },
        ],
{
}

/// Counting goes up by one until the largest number there is.
pub proof fn law_counts_go_up(n: u32)
    ensures
        n < u32::MAX ==> bumped(n) == n + 1,
        bumped(u32::MAX) == u32::MAX,
{
}

/// Taking in a listing records the show as its provider describes it, with
/// the validator of the listing, and each listed episode with the title,
/// notes and publication time of its last entry; no other show changes.
pub proof fn law_a_sync_takes_over_what_the_provider_says(
    model: StorageModel,
    show: Seq<char>,
    provider: Seq<char>,
    meta: ShowMeta,
    listing: Seq<EpisodeMeta>,
    etag: Option<Seq<char>>,
    now: int,
    s: int,
    k: int,
    i: int,
)
    requires
        model.wf(),
        0 <= s < taken_in(model, show, provider, meta, listing, etag, now).shows.len(),
        0 <= k < listing.len(),
        forall|j: int| k < j < listing.len() ==> (#[trigger] listing[j]).id@ != listing[k].id@,
        0 <= i < taken_in(model, show, provider, meta, listing, etag, now).episodes.len(),
        taken_in(model, show, provider, meta, listing, etag, now).episodes[i].show == show,
        taken_in(model, show, provider, meta, listing, etag, now).episodes[i].id == listing[k].id@,
    ensures
        ({
            let after = taken_in(model, show, provider, meta, listing, etag, now);
            let row = after.episodes[i];
            &&& after.shows[s].slug == show ==> after.shows[s].title == meta.title@
                && after.shows[s].description == crate::text::opt_text(meta.description)
                && after.shows[s].provider == provider && after.shows[s].episodes_etag == etag
            &&& after.shows[s].slug != show ==> s < model.shows.len() && after.shows[s]
                == model.shows[s]
            &&& row.title == listing[k].title@
            &&& row.description == crate::text::opt_text(listing[k].description)
            &&& row.published_at == crate::timestamp::opt_instant(listing[k].published_at)
            &&& listing[k].duration_secs is Some ==> row.duration_secs == listing[k].duration_secs
        }),
{
    let notes = crate::text::opt_text(meta.description);
    let upserted = model.upserted(show, meta.title@, notes, provider);
    let found = upserted.discovered(show, listing, now);
    let after = taken_in(model, show, provider, meta, listing, etag, now);
    crate::storage::lemma_discover_grows(upserted, show, listing, now);
    crate::storage::lemma_find_show(found.shows, show);
    assert(after.episodes == found.episodes);
    assert(upserted.episodes == model.episodes);
    assert(crate::storage::keys_differ(upserted.episodes));
    crate::storage::law_listings_are_taken_over(upserted, show, listing, now, k, i);
    crate::storage::law_shows_take_over_their_metadata(
        model,
        show,
        meta.title@,
        notes,
        provider,
        s,
    );
    lemma_upserted_is_stored(model, show, meta.title@, notes, provider);
    let f = crate::storage::find_show(found.shows, show).unwrap();
    crate::storage::lemma_find_show(model.shows, show);
    if after.shows[s].slug == show && s != f {
        match crate::storage::find_show(model.shows, show) {
            Some(g) => {
                if s < f {
                    assert(model.shows[s].slug != model.shows[f].slug);
                } else {
                    assert(model.shows[f].slug != model.shows[s].slug);
                }
            },
            None => {
                if s < model.shows.len() {
                    assert(model.shows[s].slug != show);
                }
                if f < model.shows.len() {
                    assert(model.shows[f].slug != show);
                }
            },
        }
    }
}

/// A media file is named by its episode's id, with every character that a
/// slug may not hold replaced, and by the extension of its type.
pub proof fn law_media_names_follow_the_episode(id: Seq<char>, mime: Option<AudioMime>, i: int)
    requires
        0 <= i < id.len(),
    ensures
        ({
            let name = media_name(id, mime);
            let extension = match mime {
                Some(AudioMime::Mpeg) => "mp3"@,
                Some(AudioMime::Mp4) => "m4a"@,
                Some(AudioMime::Aac) => "aac"@,
                Some(AudioMime::Ogg) => "ogg"@,
                _ => "audio"@,
            };
            &&& name.len() == id.len() + 1 + extension.len()
            &&& name.skip(id.len() as int) == "."@ + extension
            &&& crate::domain::is_slug_char(id[i]) ==> name[i] == id[i]
            &&& !crate::domain::is_slug_char(id[i]) ==> name[i] == '_'
        }),
{
    reveal_strlit(".");
    let extension = match mime {
        Some(AudioMime::Mpeg) => "mp3"@,
        Some(AudioMime::Mp4) => "m4a"@,
        Some(AudioMime::Aac) => "aac"@,
        Some(AudioMime::Ogg) => "ogg"@,
        _ => "audio"@,
    };
    assert(media_name(id, mime).skip(id.len() as int) =~= "."@ + extension);
}

/// An artwork file is named by its show, sixteen digits of its source's
/// digest, and the extension of its source.
pub proof fn law_artwork_names_follow_the_source(show: Seq<char>, source: Seq<char>)
    requires
        crate::digest::blake3_hex(vstd::utf8::encode_utf8(source)).len() == 64,
    ensures
        show.is_prefix_of(artwork_name(show, source)),
        artwork_name(show, source)[show.len() as int] == '-',
        artwork_name(show, source).subrange(show.len() as int + 1, show.len() as int + 17)
            == crate::digest::blake3_hex(vstd::utf8::encode_utf8(source)).take(16),
        artwork_name(show, source).skip(show.len() as int + 17) == artwork_extension(source),
{
    reveal_strlit("-");
    let name = artwork_name(show, source);
    let hex = crate::digest::blake3_hex(vstd::utf8::encode_utf8(source)).take(16);
    assert(name.subrange(0, show.len() as int) =~= show);
    assert(name.subrange(show.len() as int + 1, show.len() as int + 17) =~= hex);
    assert(name.skip(show.len() as int + 17) =~= artwork_extension(source));
}

/// The extension of an artwork's source is what stands behind the last dot
/// of its file name, before any query or fragment, where that is made of
/// plain characters; a file name without a dot has none.
pub proof fn law_artwork_extensions(
    dir: Seq<char>,
    stem: Seq<char>,
    extension: Seq<char>,
    rest: Seq<char>,
)
    requires
        forall|i: int| 0 <= i < dir.len() ==> #[trigger] dir[i] != '?' && dir[i] != '#',
        forall|i: int|
            0 <= i < stem.len() ==> #[trigger] stem[i] != '?' && stem[i] != '#' && stem[i] != '/',
        forall|i: int|
            0 <= i < extension.len() ==> #[trigger] extension[i] != '?' && extension[i] != '#'
                && extension[i] != '/' && extension[i] != '.',
        rest.len() > 0 ==> rest[0] == '?' || rest[0] == '#',
    ensures
        artwork_extension(dir + seq!['/'] + (stem + seq!['.'] + extension) + rest) == if is_slug(
            extension,
        ) {
            seq!['.'] + extension
        } else {
            Seq::empty()
        },
        artwork_extension(dir + seq!['/'] + extension + rest) == Seq::<char>::empty(),
{
    reveal_strlit(".");
    assert("."@ =~= seq!['.']);
    let name = stem + seq!['.'] + extension;
    assert forall|i: int| 0 <= i < name.len() implies #[trigger] name[i] != '?' && name[i] != '#'
        && name[i] != '/' by {
        if i < stem.len() {
            assert(name[i] == stem[i]);
        } else if i > stem.len() {
            assert(name[i] == extension[i - stem.len() - 1]);
        }
    }
    lemma_file_names(dir, name, rest);
    lemma_file_names(dir, extension, rest);
    crate::text::law_tails(stem, '.', extension);
}

proof fn lemma_file_names(dir: Seq<char>, name: Seq<char>, rest: Seq<char>)
    requires
        forall|i: int| 0 <= i < dir.len() ==> #[trigger] dir[i] != '?' && dir[i] != '#',
        forall|i: int|
            0 <= i < name.len() ==> #[trigger] name[i] != '?' && name[i] != '#' && name[i] != '/',
        rest.len() > 0 ==> rest[0] == '?' || rest[0] == '#',
    ensures
        after_last(up_to_either(dir + seq!['/'] + name + rest, '?', '#'), '/') == name,
{
    let path = dir + seq!['/'] + name;
    assert forall|i: int| 0 <= i < path.len() implies #[trigger] path[i] != '?' && path[i]
        != '#' by {
        if i < dir.len() {
            assert(path[i] == dir[i]);
        } else if i > dir.len() {
            assert(path[i] == name[i - dir.len() - 1]);
        }
    }
    crate::text::law_cutting(path, '?', '#', rest);
    crate::text::law_tails(dir, '/', name);
}

/// An item of a feed says what is stored of its episode: its title, notes,
/// publication time, size, type and duration; its GUID names provider, show
/// and episode; and its enclosure is the file under the show's media route.
pub proof fn law_items_say_what_is_stored(
    item: Item,
    provider: Seq<char>,
    episode: EpisodeRecord,
    base: Seq<char>,
    dir: Seq<char>,
    name: Seq<char>,
)
    requires
        item_reads(item, provider, episode, base),
        episode.file_path matches Some(path) && path@ == dir + seq!['/'] + name,
        forall|i: int| 0 <= i < name.len() ==> #[trigger] name[i] != '/',
    ensures
        item.title@ == episode.title@,
        item.guid@ == provider + seq!['/'] + episode.show@ + seq!['/'] + episode.id@,
        match episode.description {
            Some(notes) => item.description matches Some(shown) && shown@ == notes@,
            None => item.description is None,
        },
        match episode.published_at {
            Some(at) => at@ >= -62_167_219_200_000_000_000 ==> item.published_at == Some(at),
            None => item.published_at is None,
        },
        episode.bytes matches Some(bytes) ==> item.enclosure_bytes == bytes,
        episode.bytes is None ==> item.enclosure_bytes == 0,
        match episode.mime {
            Some(AudioMime::Mpeg) => item.enclosure_mime@ == "audio/mpeg"@,
            Some(AudioMime::Mp4) => item.enclosure_mime@ == "audio/mp4"@,
            Some(AudioMime::Aac) => item.enclosure_mime@ == "audio/aac"@,
            Some(AudioMime::Ogg) => item.enclosure_mime@ == "audio/ogg"@,
            Some(AudioMime::Other(raw)) => item.enclosure_mime@ == raw@,
            None => item.enclosure_mime@ == "audio/mpeg"@,
        },
        item.duration_secs == episode.duration_secs,
        crate::weburl::url_extended(base, seq!["media"@, episode.show@, name]) == Some(
            item.enclosure_url@,
        ),
{
    reveal_strlit("/");
    assert("/"@ =~= seq!['/']);
    crate::text::law_tails(dir, '/', name);
}

/// A feed says what is stored of its show: its own title where one is
/// configured and the provider's otherwise, the provider's description or
/// else the title, the base URL as its link, its cover art under the artwork
/// route, and one item for each episode on disk, in the order listed.
pub proof fn law_feeds_say_what_is_stored(
    feed: Feed,
    show: ShowConfig,
    record: crate::storage::ShowRecord,
    episodes: Seq<EpisodeRecord>,
    base: Seq<char>,
    dir: Seq<char>,
    name: Seq<char>,
)
    requires
        feed_reads(feed, show, record, episodes, base),
        forall|i: int| 0 <= i < name.len() ==> #[trigger] name[i] != '/',
    ensures
        show.title matches Some(title) ==> feed.title@ == title@,
        show.title is None ==> feed.title@ == record.title@,
        feed.link@ == base,
        record.description matches Some(notes) ==> feed.description@ == notes@,
        record.description is None ==> feed.description@ == feed.title@,
        record.artwork_path is None ==> feed.artwork is None,
        record.artwork_path matches Some(path) ==> (path@ == dir + seq!['/'] + name ==> (
        feed.artwork matches Some(url) && crate::weburl::url_extended(base, seq!["artwork"@, name])
            == Some(url@))),
        ({
            let served = episodes.filter(
                |e: EpisodeRecord| e.state == EpisodeState::Cached && e.file_path is Some,
            );
            &&& feed.items@.len() == served.len()
            &&& forall|i: int|
                0 <= i < served.len() ==> (#[trigger] feed.items@[i]).title@ == served[i].title@
                    && feed.items@[i].guid@ == record.provider@ + "/"@ + served[i].show@ + "/"@
                    + served[i].id@ && feed.items@[i].duration_secs == served[i].duration_secs
        }),
{
    law_plans_look_at_the_right_episodes(episodes, Seq::empty());
    crate::text::law_tails(dir, '/', name);
}

/// A subscription names the show as its feed does, or by its slug where it
/// was never synced, and points to the show's feed.
pub proof fn law_subscriptions_point_to_feeds(
    subscription: Subscription,
    show: ShowConfig,
    model: StorageModel,
    base: Seq<char>,
)
    requires
        subscription_reads(subscription, show, model, base),
        model.wf(),
    ensures
        show.title matches Some(title) ==> subscription.title@ == title@,
        show.title is None ==> forall|i: int|
            0 <= i < model.shows.len() && (#[trigger] model.shows[i]).slug == show.slug@
                ==> subscription.title@ == model.shows[i].title,
        show.title is None && (forall|i: int|
            0 <= i < model.shows.len() ==> (#[trigger] model.shows[i]).slug != show.slug@)
            ==> subscription.title@ == show.slug@,
        crate::weburl::url_extended(base, seq!["feeds"@, show.slug@ + ".xml"@]) == Some(
            subscription.feed_url@,
        ),
{
    crate::storage::lemma_find_show(model.shows, show.slug@);
    match crate::storage::find_show(model.shows, show.slug@) {
        Some(f) => {
            assert forall|i: int|
                0 <= i < model.shows.len() && (#[trigger] model.shows[i]).slug
                    == show.slug@ implies model.shows[i] == model.shows[f] by {
                if i < f {
                    assert(model.shows[i].slug != model.shows[f].slug);
                } else if f < i {
                    assert(model.shows[f].slug != model.shows[i].slug);
                }
            }
        },
        None => {},
    }
}

/// A file that is not there is missing; one of another size than recorded
/// has the wrong size; one with another digest than recorded is damaged; and
/// nothing else is a problem.
pub proof fn law_damage_is_told_apart(
    expected: u64,
    actual: u64,
    recorded: Seq<char>,
    found: Seq<char>,
    bytes: Option<u64>,
)
    ensures
        size_problem(bytes, None) == Some(FileProblem::Missing),
        size_problem(None, Some(actual)) is None,
        actual == expected ==> size_problem(Some(expected), Some(actual)) is None,
        actual != expected ==> size_problem(Some(expected), Some(actual)) == Some(
            FileProblem::SizeMismatch { expected, actual },
        ),
        hash_problem(None, found) is None,
        recorded == found ==> hash_problem(Some(recorded), found) is None,
        recorded != found ==> hash_problem(Some(recorded), found) == Some(
            FileProblem::HashMismatch,
        ),
{
}

/// Of the problems found, those count as unfixed that were not fixed.
pub proof fn law_unfixed_problems_are_counted(problems: Seq<VerifyOutcome>)
    ensures
        unfixed_count(problems) == problems.filter(|p: VerifyOutcome| !p.fixed).len(),
    decreases problems.len(),
{
    reveal(Seq::filter);
    if problems.len() > 0 {
        law_unfixed_problems_are_counted(problems.drop_last());
    }
}

/// What is said where the library cannot do what it is asked: its own
/// errors name the show or the URL, the others speak for themselves.
pub proof fn law_library_errors_say_why(error: LibraryError)
    ensures
        error matches LibraryError::Config(inner) ==> library_error_text(error)
            == crate::config::config_error_text(inner),
        error matches LibraryError::Provider(inner) ==> library_error_text(error)
            == crate::providers::provider_error_text(inner),
        error matches LibraryError::Storage(inner) ==> library_error_text(error)
            == crate::storage::storage_error_text(inner),
        error matches LibraryError::UnknownShow(slug) ==> library_error_text(error) == "show `"@
            + slug@ + "` is not configured"@,
        error matches LibraryError::NotSynced(slug) ==> library_error_text(error) == "show `"@
            + slug@ + "` has not been synced yet"@,
        error matches LibraryError::ExternalBaseUrl(url) ==> library_error_text(error)
            == "external base URL cannot hold a path: "@ + url@,
{
}

/// A feed is refused for its base URL exactly where a URL below that base
/// cannot be made: that of its cover art, where it has some on disk, or that
/// of the file of an episode on disk.
pub proof fn law_feeds_need_a_base_for_paths(
    record: crate::storage::ShowRecord,
    episodes: Seq<EpisodeRecord>,
    base: Seq<char>,
)
    ensures
        ({
            let served = episodes.filter(
                |e: EpisodeRecord| e.state == EpisodeState::Cached && e.file_path is Some,
            );
            !feed_unroutable(record, episodes, base) <==> {
                &&& record.artwork_path matches Some(path) ==> crate::difm::with_path(
                    base,
                    seq!["artwork"@, crate::text::after_last(path@, '/')],
                ) is Some
                &&& forall|i: int|
                    0 <= i < served.len() ==> crate::difm::with_path(
                        base,
                        seq![
                            "media"@,
                            (#[trigger] served[i]).show@,
                            crate::text::after_last(served[i].file_path->0@, '/'),
                        ],
                    ) is Some
            }
        }),
{
    law_plans_look_at_the_right_episodes(episodes, Seq::empty());
    let served = episodes.filter(
        |e: EpisodeRecord| e.state == EpisodeState::Cached && e.file_path is Some,
    );
    assert(served == served_of(episodes));
    assert(forall|i: int|
        0 <= i < served.len() ==> media_route(
            base,
            (#[trigger] served[i]).show@,
            served[i].file_path->0@,
        ) == crate::difm::with_path(
            base,
            seq![
                "media"@,
                served[i].show@,
                crate::text::after_last(served[i].file_path->0@, '/'),
            ],
        ));
}

} // verus!
