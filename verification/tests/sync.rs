use splicefeed::config::{
    ArtworkOverride, Config, RawConfig, RawShow, Retention, ShowConfig,
};
use splicefeed::difm::DifmProvider;
use splicefeed::digest::{Digest, HashStream};
use splicefeed::domain::{
    ApiKey, AudioMime, AudioSource, EpisodeId, EpisodeMeta, EpisodeState, ErrorClass, ShowMeta,
    ShowSlug,
};
use splicefeed::download::{probe_duration, DownloadError, Transfer, MAX_RETRIES};
use splicefeed::ipc::KnownEvent;
use splicefeed::library::{
    artwork_file_name, artwork_source, cached, check_hash, check_size, fetch_plan, media_path,
    prune_plan, show_config, subscriptions, sync_plan, undiscovered, write_feed, write_opml,
    ArtworkSource, FileProblem, LibraryError, SyncReport, SyncRun, VerifyReport,
};
use splicefeed::providers::ProviderError;
use splicefeed::rows::{encode_episode, encode_show};
use splicefeed::storage::{CachedFile, Storage, StorageError};
use splicefeed::timestamp::Timestamp;
use splicefeed::weburl::WebUrl;

const AUDIO_NEW: &[u8] = b"new-episode-audio-bytes";
const AUDIO_OLD: &[u8] = b"old-episode-audio-bytes";

fn web(text: &str) -> WebUrl {
    WebUrl::parse(text).expect("valid url")
}

fn slug(text: &str) -> ShowSlug {
    text.parse().expect("valid slug")
}

fn id(text: &str) -> EpisodeId {
    text.parse().expect("valid id")
}

fn now() -> Timestamp {
    Timestamp::parse("2026-07-12T00:00:00Z").expect("valid")
}

fn raw_show(slug: &str) -> RawShow {
    RawShow {
        provider: None,
        slug: slug.into(),
        title: None,
        poll_interval: None,
        fetch_last: None,
        artwork: None,
        retention: None,
    }
}

fn configured(keep_last: Option<u32>, fetch_last: Option<u32>, base: Option<&str>) -> Config {
    Config::load(
        RawConfig {
            bind: None,
            external_base_url: base.map(str::to_owned),
            data_dir: Some("/data".into()),
            poll_interval: None,
            download_concurrency: None,
            fetch_last,
            retention: Retention { keep_last, max_bytes: None },
            listen_key: None,
            api_key: Some(ApiKey::new("member-key".into())),
            base_url: None,
            control_socket: None,
            otlp: None,
            shows: vec![raw_show("test-show")],
        },
        None,
        None,
        Err("unused".into()),
    )
    .ok()
    .expect("config loads")
}

fn show_meta() -> ShowMeta {
    ShowMeta {
        slug: slug("test-show"),
        title: "Test Show".into(),
        description: Some("a show for tests".into()),
        artwork: None,
    }
}

fn listing() -> Vec<EpisodeMeta> {
    [("162", "2026-07-05T18:00:00Z"), ("161", "2026-06-07T18:00:00Z")]
        .into_iter()
        .map(|(episode, published_at)| EpisodeMeta {
            id: id(episode),
            title: format!("Test Show {episode}"),
            description: None,
            published_at: Timestamp::parse(published_at).ok(),
            duration_secs: Some(7200),
        })
        .collect()
}

fn audio(episode: &EpisodeId) -> &'static [u8] {
    if episode.as_str() == "162" {
        AUDIO_NEW
    } else {
        AUDIO_OLD
    }
}

fn begin(config: &Config) -> SyncRun {
    SyncRun::begin(config, &slug("test-show")).ok().expect("begins").0
}

/// Download what was planned and prune what has to go, without a network.
fn carry_out(run: &mut SyncRun, storage: &mut Storage, ids: Vec<EpisodeId>) {
    for episode in ids {
        storage.mark_downloading(&run.show, &episode).expect("starts");
        let mime = Some(AudioMime::Mp4);
        let file = CachedFile {
            file_path: media_path("/data", &run.show, &episode, &mime),
            bytes: audio(&episode).len() as u64,
            blake3: Digest::of_bytes(audio(&episode)),
            mime,
            duration_secs: None,
        };
        run.downloaded(storage, &episode, Ok(file), now()).expect("caches");
    }
    for episode in run.to_prune(storage) {
        run.pruned(storage, &episode).expect("prunes");
    }
    run.swept(0);
    let ended = run.finish(storage, Ok(()), now());
    assert_eq!(ended.result.ok().expect("ended well"), run.report);
}

fn sync(config: &Config, storage: &mut Storage) -> SyncReport {
    sync_with(config, storage, listing())
}

fn sync_with(config: &Config, storage: &mut Storage, listing: Vec<EpisodeMeta>) -> SyncReport {
    let mut run = begin(config);
    run.start(storage, now());
    let listed = run.fresh(storage, &show_meta(), listing, Some("W/\"v1\"".into()), now());
    assert_eq!(listed.events.len(), run.report.discovered as usize);
    carry_out(&mut run, storage, listed.wanted);
    run.report
}

fn state_of(storage: &Storage, episode: &str) -> EpisodeState {
    storage
        .episodes(&slug("test-show"))
        .iter()
        .find(|record| record.id.as_str() == episode)
        .expect("stored")
        .state
}

#[test]
fn sync_downloads_only_what_retention_keeps() {
    let config = configured(Some(1), None, None);
    let mut storage = Storage::new();
    let report = sync(&config, &mut storage);
    assert_eq!(report.discovered, 2);
    // keep_last = 1: retention is planned before downloading, so the
    // older episode is never fetched — not downloaded-then-pruned.
    assert_eq!(report.downloaded, 1);
    assert_eq!(report.pruned, 0);
    assert_eq!(state_of(&storage, "162"), EpisodeState::Cached);
    assert_eq!(state_of(&storage, "161"), EpisodeState::Discovered, "older is never fetched");

    // Second sync: nothing new, nothing re-fetched.
    let report = sync(&config, &mut storage);
    assert_eq!((report.discovered, report.downloaded, report.pruned), (0, 0, 0));
    assert_eq!(state_of(&storage, "162"), EpisodeState::Cached);
}

#[test]
fn widened_retention_revives_pruned_episodes() {
    let mut storage = Storage::new();
    // Cache both episodes.
    let report = sync(&configured(Some(2), None, None), &mut storage);
    assert_eq!(report.downloaded, 2);

    // Tighten retention: the older episode is pruned to a tombstone.
    let report = sync(&configured(Some(1), None, None), &mut storage);
    assert_eq!(report.downloaded, 0);
    assert_eq!(report.pruned, 1);
    assert_eq!(state_of(&storage, "161"), EpisodeState::Pruned);

    // Widen it again: the tombstone fits the window and is revived.
    let report = sync(&configured(Some(2), None, None), &mut storage);
    assert_eq!(report.discovered, 0, "revival is not re-discovery");
    assert_eq!(report.downloaded, 1, "tombstone re-downloaded");
    assert_eq!(report.pruned, 0);
    assert_eq!(state_of(&storage, "161"), EpisodeState::Cached);
}

#[test]
fn fetch_last_bounds_discovery_and_download() {
    let mut storage = Storage::new();
    let report = sync(&configured(Some(1), Some(1), None), &mut storage);
    // Upstream lists two episodes; only the newest is even discovered,
    // so nothing needs pruning afterwards.
    assert_eq!(report.discovered, 1);
    assert_eq!(report.downloaded, 1);
    assert_eq!(report.pruned, 0);
    assert_eq!(storage.episodes(&slug("test-show")).len(), 1);
}

#[test]
fn unchanged_listing_polls_via_304() {
    let config = configured(None, None, None);
    let mut storage = Storage::new();
    let mut newest = listing();
    newest.truncate(1);
    let report = sync_with(&config, &mut storage, newest);
    assert_eq!(report.discovered, 1);
    assert_eq!(report.downloaded, 1);

    // Second poll: 304 — nothing new, nothing re-fetched, poll healthy.
    let mut run = begin(&config);
    let etag = run.start(&mut storage, now());
    assert_eq!(etag.as_deref(), Some("W/\"v1\""));
    let ids = run.unchanged(&storage);
    carry_out(&mut run, &mut storage, ids);
    assert_eq!((run.report.discovered, run.report.downloaded), (0, 0));
    let record = storage.show(&slug("test-show")).expect("stored");
    assert_eq!(record.last_poll_ok, Some(true));
    assert_eq!(record.episodes_etag.as_deref(), Some("W/\"v1\""));
}

#[test]
fn tombstones_do_not_come_and_go_beside_a_newer_file() {
    let mut storage = Storage::new();
    sync(&configured(Some(2), None, None), &mut storage);
    let tight = configured(Some(1), None, None);
    let report = sync(&tight, &mut storage);
    assert_eq!((report.downloaded, report.pruned), (0, 1));

    // Upstream drops the newest episode, whose file is still cached: the
    // older tombstone would be pruned right back out, so it is not fetched.
    let mut older = listing();
    older.remove(0);
    let report = sync_with(&tight, &mut storage, older);
    assert_eq!((report.discovered, report.downloaded, report.pruned), (0, 0, 0));
    assert_eq!(state_of(&storage, "161"), EpisodeState::Pruned);
    assert_eq!(state_of(&storage, "162"), EpisodeState::Cached);
}

#[test]
fn only_wanted_episodes_are_fetched() {
    let mut storage = Storage::new();
    let show = slug("test-show");
    storage.upsert_show(&show_meta(), "difm");
    storage.discover(&show, &listing(), now()).expect("discovers");
    let rows = storage.episodes(&show);
    let ids = |wanted: Vec<EpisodeId>| -> Vec<String> {
        sync_plan(&Retention::unlimited(), &rows, &wanted)
            .iter()
            .map(|id| id.as_str().to_owned())
            .collect()
    };
    assert_eq!(ids(vec![id("161"), id("7")]), vec!["161".to_owned()]);
    assert_eq!(ids(vec![id("161"), id("162")]), vec!["162".to_owned(), "161".to_owned()]);
    assert!(ids(vec![]).is_empty());
}

#[test]
fn unchanged_listings_still_drive_retries() {
    let config = configured(None, Some(1), None);
    let mut storage = Storage::new();
    let mut run = begin(&config);
    let ids = run.fresh(&mut storage, &show_meta(), listing(), None, now()).wanted;
    assert_eq!(ids.len(), 1);
    storage.mark_downloading(&run.show, &ids[0]).expect("starts");
    run.downloaded(&mut storage, &ids[0], Err(ErrorClass::Network), now())
        .expect("recorded");
    assert_eq!(run.report.downloaded, 0);
    assert_eq!(
        state_of(&storage, "162"),
        EpisodeState::Failed(ErrorClass::Network)
    );
    let again = begin(&config).unchanged(&storage);
    assert_eq!(again.len(), 1);
    assert_eq!(again[0].as_str(), "162");
}

#[test]
fn feed_is_deterministic_valid_and_external() {
    let config = configured(None, None, Some("http://nas.lan:8380"));
    let mut storage = Storage::new();
    let show = slug("test-show");

    // Before any sync there is nothing to build a feed from.
    assert!(matches!(
        write_feed(&config, &storage, &show),
        Err(LibraryError::NotSynced(_))
    ));

    sync(&config, &mut storage);
    let first = write_feed(&config, &storage, &show).ok().expect("feed writes");
    let second = write_feed(&config, &storage, &show).ok().expect("feed writes again");
    assert_eq!(first, second, "byte-identical regeneration");

    let parsed = feed_rs::parser::parse(first.as_slice()).expect("valid feed");
    assert_eq!(parsed.entries.len(), 2);
    assert_eq!(parsed.entries[0].id, "difm/test-show/162");
    let enclosure = parsed.entries[0]
        .media
        .first()
        .and_then(|m| m.content.first())
        .and_then(|c| c.url.as_ref())
        .expect("enclosure")
        .to_string();
    assert_eq!(enclosure, "http://nas.lan:8380/media/test-show/162.m4a");
    let xml = String::from_utf8(first).expect("utf-8");
    assert!(!xml.contains("member-key"));

    // An unknown show is rejected, not an empty feed.
    assert!(matches!(
        write_feed(&config, &storage, &slug("ghost")),
        Err(LibraryError::UnknownShow(_))
    ));
}

#[test]
fn feeds_list_cached_episodes_only() {
    let config = configured(Some(1), None, Some("http://nas.lan:8380"));
    let mut storage = Storage::new();
    sync(&config, &mut storage);
    let bytes = write_feed(&config, &storage, &slug("test-show")).ok().expect("feed writes");
    let parsed = feed_rs::parser::parse(bytes.as_slice()).expect("valid feed");
    assert_eq!(parsed.entries.len(), 1);
    assert_eq!(cached(&storage.episodes(&slug("test-show"))).len(), 1);
}

#[test]
fn feeds_carry_cached_artwork_and_title_overrides() {
    let mut config = configured(None, None, Some("http://nas.lan:8380"));
    config.shows[0].title = Some("My Title".into());
    let mut storage = Storage::new();
    sync(&config, &mut storage);
    storage.set_artwork_path(&slug("test-show"), "/data/artwork/test-show-abc.png");
    let bytes = write_feed(&config, &storage, &slug("test-show")).ok().expect("feed writes");
    let xml = String::from_utf8(bytes).expect("utf-8");
    assert!(xml.contains("<title>My Title</title>"), "{xml}");
    assert!(
        xml.contains("href=\"http://nas.lan:8380/artwork/test-show-abc.png\""),
        "{xml}"
    );
}

#[test]
fn subscription_lists_name_every_synced_show() {
    let config = configured(None, None, Some("http://nas.lan:8380"));
    let mut storage = Storage::new();
    sync(&config, &mut storage);
    let list = subscriptions(&config, &storage).ok().expect("lists");
    assert_eq!(list.len(), 1);
    assert_eq!(list[0].title, "Test Show");
    assert_eq!(list[0].feed_url.as_str(), "http://nas.lan:8380/feeds/test-show.xml");
    let bytes = write_opml(&config, &storage).ok().expect("writes");
    let xml = String::from_utf8(bytes).expect("utf-8");
    assert!(xml.contains("xmlUrl=\"http://nas.lan:8380/feeds/test-show.xml\""));
}

#[test]
fn a_base_url_without_a_path_fails_the_feed() {
    let config = configured(None, None, Some("mailto:me@example.com"));
    let mut storage = Storage::new();
    sync(&config, &mut storage);
    assert!(matches!(
        write_feed(&config, &storage, &slug("test-show")),
        Err(LibraryError::ExternalBaseUrl(_))
    ));
}

#[test]
fn verify_detects_and_fixes_damage() {
    let config = configured(Some(1), Some(1), None);
    let mut storage = Storage::new();
    sync(&config, &mut storage);
    let episode = storage.episodes(&slug("test-show"))[0].clone();
    let size = AUDIO_NEW.len() as u64;

    // Pristine cache: nothing to report.
    assert!(check_size(&episode, Some(size)).is_none());
    assert!(check_hash(&episode, &Digest::of_bytes(AUDIO_NEW)).is_none());
    let mut report = VerifyReport::new();
    report.record(&episode.id, None, false);
    assert_eq!((report.checked, report.intact), (1, 1));
    assert!(report.problems.is_empty());

    // Same size, different content: only the hash notices.
    let zeros = vec![0_u8; AUDIO_NEW.len()];
    assert!(check_size(&episode, Some(size)).is_none());
    let problem = check_hash(&episode, &Digest::of_bytes(&zeros)).expect("damaged");
    assert!(matches!(problem, FileProblem::HashMismatch));
    let mut report = VerifyReport::new();
    report.record(&episode.id, Some(problem), false);
    assert_eq!(report.unfixed(), 1, "no --fix, no download");

    // Truncation is caught by size before hashing.
    let problem = check_size(&episode, Some(5)).expect("damaged");
    assert!(matches!(problem, FileProblem::SizeMismatch { actual: 5, .. }));
    assert_eq!(problem.to_string(), "size mismatch: expected 23 bytes, found 5");

    // Deletion reads as missing, and fixing recovers that too.
    let problem = check_size(&episode, None).expect("missing");
    assert!(matches!(problem, FileProblem::Missing));
    report.record(&episode.id, Some(problem), true);
    assert_eq!((report.checked, report.intact, report.unfixed()), (2, 0, 1));
    storage.mark_downloading(&episode.show, &episode.id).expect("a cached file may be refetched");
}

#[test]
fn listing_failure_is_an_error_and_recorded() {
    let config = configured(None, None, None);
    let mut storage = Storage::new();
    sync(&config, &mut storage);
    let mut run = begin(&config);
    // Every request 404s, so the show lookup fails.
    let missing = DifmProvider::check_listing_status(404, &web("http://h/shows/test-show"))
        .map_err(|e| DifmProvider::not_found_means_no_show(e, &run.show))
        .map_err(LibraryError::Provider)
        .map(|_| ());
    let ended = run.finish(&mut storage, missing, now());
    let error = ended.result.err().expect("sync fails");
    assert!(matches!(
        &error,
        LibraryError::Provider(ProviderError::ShowNotFound(show)) if show.as_str() == "test-show"
    ));
    assert_eq!(error.to_string(), "show `test-show` not found upstream");
    assert!(matches!(ended.event, KnownEvent::PollFinished { ok: false, new_episodes: 0, .. }));
    let record = storage.show(&slug("test-show")).expect("stored");
    assert_eq!(record.last_poll_ok, Some(false));
    assert_eq!(
        record.last_error.as_deref(),
        Some("show `test-show` not found upstream")
    );
}

#[test]
fn unknown_show_is_rejected() {
    let config = configured(None, None, None);
    let error = SyncRun::begin(&config, &slug("not-configured")).err().expect("unknown");
    assert!(matches!(&error, LibraryError::UnknownShow(_)));
    assert_eq!(error.to_string(), "show `not-configured` is not configured");
    assert!(show_config(&config, &slug("test-show")).is_ok());
}

#[test]
fn refused_steps_leave_the_count_alone() {
    let config = configured(None, None, None);
    let mut storage = Storage::new();
    let mut run = begin(&config);
    run.fresh(&mut storage, &show_meta(), listing(), None, now());
    let refused = run.pruned(&mut storage, &id("162"));
    assert!(matches!(refused, Err(StorageError::IllegalTransition { .. })));
    let refused = run.downloaded(&mut storage, &id("404"), Err(ErrorClass::Disk), now());
    assert!(matches!(refused, Err(StorageError::EpisodeNotFound { .. })));
    assert_eq!((run.report.downloaded, run.report.pruned), (0, 0));
}

#[test]
fn plans_respect_the_policy() {
    let config = configured(None, None, None);
    let mut storage = Storage::new();
    sync(&config, &mut storage);
    let episodes = storage.episodes(&slug("test-show"));
    let keep_one = Retention { keep_last: Some(1), max_bytes: None };
    assert!(fetch_plan(&keep_one, &episodes).is_empty(), "all cached already");
    let doomed = prune_plan(&keep_one, &episodes);
    assert_eq!(doomed.len(), 1);
    assert_eq!(doomed[0].as_str(), "161");
    let known = undiscovered(&storage, &slug("test-show"), &listing());
    assert!(known.is_empty());
    let fresh = undiscovered(&Storage::new(), &slug("test-show"), &listing());
    assert_eq!(fresh.len(), 2);
}

#[test]
fn an_episode_listed_twice_is_new_once() {
    let mut twice = listing();
    twice.extend(listing());
    let new = undiscovered(&Storage::new(), &slug("test-show"), &twice);
    let new: Vec<&str> = new.iter().map(|id| id.as_str()).collect();
    assert_eq!(new, ["162", "161"]);
    let mut storage = Storage::new();
    let mut run = begin(&configured(None, None, None));
    let listed = run.fresh(&mut storage, &show_meta(), twice, None, now());
    assert_eq!(run.report.discovered, 2);
    assert_eq!(listed.events.len(), 2);
    assert_eq!(storage.episodes(&slug("test-show")).len(), 2);
}

#[test]
fn sweeps_are_heard_only_when_something_went() {
    let mut storage = Storage::new();
    sync(&configured(Some(2), None, None), &mut storage);
    let mut run = begin(&configured(Some(1), None, None));
    let wanted = run.unchanged(&storage);
    assert!(wanted.is_empty());
    for episode in run.to_prune(&storage) {
        run.pruned(&mut storage, &episode).expect("prunes");
    }
    assert!(matches!(
        run.swept(23),
        Some(KnownEvent::Pruned { episodes: 1, bytes_freed: 23, .. })
    ));
    let mut idle = begin(&configured(Some(1), None, None));
    idle.unchanged(&storage);
    assert!(idle.swept(0).is_none());
}

#[test]
fn a_media_type_is_stored_as_it_is() {
    let mut storage = Storage::new();
    let mut run = begin(&configured(None, Some(1), None));
    let wanted = run.fresh(&mut storage, &show_meta(), listing(), None, now()).wanted;
    storage.mark_downloading(&run.show, &wanted[0]).expect("starts");
    let file = CachedFile {
        file_path: "/data/x".into(),
        bytes: 1,
        blake3: Digest::of_bytes(b"x"),
        mime: Some(AudioMime::Other("audio/mpeg".into())),
        duration_secs: None,
    };
    run.downloaded(&mut storage, &wanted[0], Ok(file), now()).expect("caches");
    let record = &storage.episodes(&slug("test-show"))[0];
    assert!(matches!(&record.mime, Some(AudioMime::Other(raw)) if raw == "audio/mpeg"));
    // As a row it is a text, and reads back as the type it names.
    let row = encode_episode(record);
    assert_eq!(row.mime.as_deref(), Some("audio/mpeg"));
    let shows = vec![encode_show(&storage.shows[0])];
    let read = Storage::from_rows(&shows, &vec![row]).ok().expect("reads");
    assert!(matches!(read.episodes[0].mime, Some(AudioMime::Mpeg)));
}

#[test]
fn media_files_have_flat_safe_names() {
    let show = slug("test-show");
    assert_eq!(
        media_path("/data", &show, &id("162"), &Some(AudioMime::Mp4)),
        "/data/media/test-show/162.m4a"
    );
    assert_eq!(
        media_path("/data", &show, &id("../../etc/passwd"), &Some(AudioMime::Mpeg)),
        "/data/media/test-show/.._.._etc_passwd.mp3"
    );
    assert_eq!(
        media_path("/data", &show, &id("é"), &None),
        "/data/media/test-show/_.audio"
    );
}

fn with_artwork(artwork: Option<ArtworkOverride>) -> ShowConfig {
    ShowConfig {
        provider: "difm".into(),
        slug: slug("test-show"),
        title: None,
        poll_interval: None,
        fetch_last: None,
        artwork,
        retention: None,
    }
}

#[test]
fn artwork_overrides_beat_the_provider() {
    let upstream = ShowMeta { artwork: Some(web("https://cdn/a.png")), ..show_meta() };
    assert!(matches!(
        artwork_source(&with_artwork(None), &upstream),
        ArtworkSource::Fetch(source) if source.as_str() == "https://cdn/a.png"
    ));
    assert!(matches!(artwork_source(&with_artwork(None), &show_meta()), ArtworkSource::Absent));
    let file = with_artwork(Some(ArtworkOverride::Path("/art.jpg".into())));
    assert!(matches!(
        artwork_source(&file, &upstream),
        ArtworkSource::File(path) if path == "/art.jpg"
    ));
    let web = with_artwork(Some(ArtworkOverride::Url(web("https://me/b.jpg"))));
    assert!(matches!(
        artwork_source(&web, &upstream),
        ArtworkSource::Fetch(source) if source.as_str() == "https://me/b.jpg"
    ));
}

#[test]
fn artwork_names_follow_their_source() {
    let show = slug("test-show");
    let name = artwork_file_name(&show, "https://cdn/a.png");
    let hex = Digest::of_bytes(b"https://cdn/a.png").to_hex();
    assert!(name.starts_with("test-show-"), "{name}");
    assert!(name.ends_with(".png"), "{name}");
    assert!(name.contains(&hex[..8]), "{name}");
    assert_ne!(name, artwork_file_name(&show, "https://cdn/b.png"));
}

fn source(text: &str) -> AudioSource {
    AudioSource { url: web(text), mime: Some(AudioMime::Mp4), bytes: None }
}

fn transfer(content_length: Option<u64>, hint: Option<u64>) -> Transfer {
    let from = AudioSource { bytes: hint, ..source("http://h/audio/162.mp4?listen_key=sekrit") };
    Transfer::begin(&from, 200, content_length, Some("audio/mp4".into())).ok().expect("begins")
}

#[test]
fn streams_hashes_and_persists() {
    let body = vec![0xAB_u8; 64 * 1024];
    let mut transfer = transfer(Some(body.len() as u64), None);
    for piece in body.chunks(10_000) {
        transfer.chunk(piece);
    }
    let got = transfer.finish().ok().expect("download succeeds");
    assert_eq!(got.bytes, body.len() as u64);
    assert!(got.blake3.same(&Digest::of_bytes(&body)));
    assert!(matches!(got.mime, Some(AudioMime::Mp4)));
}

#[test]
fn status_failures_classify_and_leave_no_file() {
    let err = Transfer::begin(&source("http://h/audio/gone.mp4"), 404, None, None)
        .err()
        .expect("404 fails");
    assert!(matches!(err, DownloadError::Status { status: 404, .. }));
    assert_eq!(err.class(), ErrorClass::HttpStatus);
    assert!(!err.should_retry(0), "a 404 does not go away");
}

#[test]
fn truncated_transfer_is_rejected() {
    let mut short = transfer(Some(999), None);
    short.chunk(&[1_u8; 10]);
    let err = short.finish().err().expect("truncated");
    assert!(matches!(err, DownloadError::Truncated { expected: 999, actual: 10, .. }));
    assert_eq!(err.class(), ErrorClass::Network);

    // The provider's hint only applies when the header is absent.
    let mut hinted = transfer(Some(10), Some(999));
    hinted.chunk(&[1_u8; 10]);
    assert!(hinted.finish().is_ok());
    let mut hinted = transfer(None, Some(999));
    hinted.chunk(&[1_u8; 10]);
    assert!(hinted.finish().is_err());
    assert!(transfer(None, None).finish().is_ok());
}

#[test]
fn blake3_of_file_matches_the_streaming_hash() {
    let body = vec![0xCD_u8; 300 * 1024];
    let mut stream = HashStream::new();
    for piece in body.chunks(64 * 1024) {
        stream.update(piece);
    }
    assert!(stream.finish().same(&Digest::of_bytes(&body)));
    assert_eq!(stream.finish().to_hex(), blake3::hash(&body).to_hex().to_string());
}

#[test]
fn progress_reports_bytes_and_total() {
    let body = vec![0xEE_u8; 32 * 1024];
    let mut transfer = transfer(Some(body.len() as u64), None);
    let seen: Vec<(u64, Option<u64>)> =
        body.chunks(1000).map(|piece| transfer.chunk(piece)).collect();
    let last = seen.last().expect("progress was reported");
    assert_eq!(last.0, body.len() as u64, "final call sees all bytes");
    assert_eq!(last.1, Some(body.len() as u64), "total from Content-Length");
    assert!(seen.iter().all(|(done, _)| *done <= body.len() as u64));
}

#[test]
fn error_messages_redact_the_listen_key() {
    let err = Transfer::begin(
        &source("http://h/audio/162.mp4?listen_key=sekrit"),
        403,
        None,
        None,
    )
    .err()
    .expect("403 fails");
    let shown = err.to_string();
    assert!(!shown.contains("sekrit"));
    assert!(shown.contains("listen_key=REDACTED"));
    let broken = transfer(None, None).broken("connection reset".into());
    assert!(!broken.to_string().contains("sekrit"));
    assert!(matches!(broken, DownloadError::Network { .. }));
}

#[test]
fn only_transient_failures_are_retried() {
    let network = transfer(None, None).broken("timeout".into());
    assert!(network.is_transient());
    assert!(network.should_retry(0));
    assert!(network.should_retry(MAX_RETRIES - 1));
    assert!(!network.should_retry(MAX_RETRIES));
    let disk = DownloadError::Disk { path: "/x".into(), reason: "full".into() };
    assert_eq!(disk.class(), ErrorClass::Disk);
    assert!(!disk.should_retry(0));
    let server = Transfer::begin(&source("http://h/x"), 503, None, None).err().expect("503");
    assert!(server.is_transient());
    assert_eq!(DownloadError::Client("no TLS".into()).class(), ErrorClass::Network);
}

#[test]
fn probed_durations_fit_or_are_dropped() {
    assert_eq!(probe_duration(7200), Some(7200));
    assert_eq!(probe_duration(0), None);
    assert_eq!(probe_duration(u64::MAX), None);
}
