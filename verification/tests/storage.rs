use splicefeed::digest::Digest;
use splicefeed::domain::{
    AudioMime, EpisodeId, EpisodeMeta, EpisodeState, ErrorClass, ShowMeta, ShowSlug,
};
use splicefeed::rows::{
    decode_episode, decode_show, decode_state, encode_episode, encode_show, migrate, EpisodeCells,
    SCHEMA_V1, SCHEMA_V2, SCHEMA_V3,
};
use splicefeed::storage::{CachedFile, Storage, StorageError};
use splicefeed::timestamp::Timestamp;

fn at(text: &str) -> Timestamp {
    Timestamp::parse(text).expect("valid timestamp")
}

fn now() -> Timestamp {
    at("2026-07-12T00:00:00Z")
}

fn id(text: &str) -> EpisodeId {
    text.parse().expect("valid id")
}

fn meta(episode: &str, published_at: &str) -> EpisodeMeta {
    EpisodeMeta {
        id: id(episode),
        title: format!("Episode {episode}"),
        description: None,
        published_at: Some(at(published_at)),
        duration_secs: Some(7200),
    }
}

fn show_meta(slug: &ShowSlug) -> ShowMeta {
    ShowMeta {
        slug: slug.clone(),
        title: "Test Show".into(),
        description: Some("about".into()),
        artwork: None,
    }
}

fn file(path: &str, bytes: u64, content: &[u8]) -> CachedFile {
    CachedFile {
        file_path: path.into(),
        bytes,
        blake3: Digest::of_bytes(content),
        mime: None,
        duration_secs: None,
    }
}

fn opened() -> (Storage, ShowSlug) {
    let mut storage = Storage::new();
    let slug: ShowSlug = "test-show".parse().expect("valid slug");
    storage.upsert_show(&show_meta(&slug), "difm");
    (storage, slug)
}

#[test]
fn discover_is_idempotent_and_counts_new() {
    let (mut storage, slug) = opened();
    let episodes = vec![
        meta("161", "2026-06-07T18:00:00Z"),
        meta("162", "2026-07-05T18:00:00Z"),
    ];
    assert_eq!(storage.discover(&slug, &episodes, now()).ok(), Some(2));
    assert_eq!(storage.discover(&slug, &episodes, now()).ok(), Some(0));

    let rows = storage.episodes(&slug);
    assert_eq!(rows.len(), 2);
    // Newest first.
    assert_eq!(rows[0].id.as_str(), "162");
    assert_eq!(rows[0].state, EpisodeState::Discovered);
}

#[test]
fn full_lifecycle_roundtrip() {
    let (mut storage, slug) = opened();
    storage
        .discover(&slug, &vec![meta("162", "2026-07-05T18:00:00Z")], now())
        .expect("discovers");
    let id = id("162");

    storage.mark_downloading(&slug, &id).expect("starts");
    let cached = CachedFile {
        mime: Some(AudioMime::Mp4),
        ..file("/data/media/test-show/162.m4a", 123_456_789, b"episode-162-audio")
    };
    storage.mark_cached(&slug, &id, cached, now()).expect("caches");

    let row = &storage.episodes(&slug)[0];
    assert_eq!(row.state, EpisodeState::Cached);
    assert_eq!(row.bytes, Some(123_456_789));
    assert_eq!(row.duration_secs, Some(7200)); // provider value kept
    assert!(matches!(row.mime, Some(AudioMime::Mp4)));
    assert!(row.downloaded_at.is_some());

    storage.mark_pruned(&slug, &id).expect("prunes");
    let row = &storage.episodes(&slug)[0];
    assert_eq!(row.state, EpisodeState::Pruned);
    assert_eq!(row.file_path, None);
    let hash = row.blake3.as_ref().expect("tombstone keeps hash");
    assert!(hash.same(&Digest::of_bytes(b"episode-162-audio")));
}

#[test]
fn pruned_tombstone_is_not_rediscovered() {
    let (mut storage, slug) = opened();
    let episodes = vec![meta("162", "2026-07-05T18:00:00Z")];
    storage.discover(&slug, &episodes, now()).expect("discovers");
    let id = id("162");
    storage.mark_downloading(&slug, &id).expect("starts");
    storage
        .mark_cached(&slug, &id, file("/x/162.m4a", 1, b"x"), now())
        .expect("caches");
    storage.mark_pruned(&slug, &id).expect("prunes");

    // The next poll lists the same episode again: no new row, state
    // stays pruned.
    assert_eq!(storage.discover(&slug, &episodes, now()).ok(), Some(0));
    assert_eq!(storage.episodes(&slug)[0].state, EpisodeState::Pruned);
}

#[test]
fn illegal_transitions_are_rejected() {
    let (mut storage, slug) = opened();
    storage
        .discover(&slug, &vec![meta("162", "2026-07-05T18:00:00Z")], now())
        .expect("discovers");
    let id = id("162");

    // Discovered → Cached skips Downloading.
    let err = storage
        .mark_cached(&slug, &id, file("/x", 1, b"x"), now())
        .expect_err("must be rejected");
    assert!(matches!(err, StorageError::IllegalTransition { .. }));
    assert_eq!(
        err.to_string(),
        "illegal transition for episode `162` of `test-show`: Discovered → Cached"
    );

    // Failed downloads are retryable.
    storage.mark_downloading(&slug, &id).expect("starts");
    storage
        .mark_failed(&slug, &id, ErrorClass::Network)
        .expect("fails");
    assert_eq!(
        storage.episodes(&slug)[0].state,
        EpisodeState::Failed(ErrorClass::Network)
    );
    storage.mark_downloading(&slug, &id).expect("retries");
}

#[test]
fn poll_bookkeeping_roundtrips() {
    let (mut storage, slug) = opened();
    storage.record_poll(&slug, Some("boom".into()), now());
    let show = storage.show(&slug).expect("show exists");
    assert_eq!(show.last_poll_ok, Some(false));
    assert_eq!(show.last_error.as_deref(), Some("boom"));

    storage.record_poll(&slug, None, now());
    let show = storage.show(&slug).expect("show exists");
    assert_eq!(show.last_poll_ok, Some(true));
    assert_eq!(show.last_error, None);
    assert!(show.last_poll_at.is_some());

    // Unknown show: silently a no-op, never an error.
    let ghost: ShowSlug = "ghost".parse().expect("valid slug");
    storage.record_poll(&ghost, None, now());
    assert!(storage.show(&ghost).is_none());
}

#[test]
fn v1_databases_migrate_in_place() {
    // A genuine v1 database with a row in it.
    let conn = rusqlite::Connection::open_in_memory().expect("open");
    conn.execute_batch(SCHEMA_V1).expect("v1 schema");
    conn.execute(
        "INSERT INTO shows (slug, provider, title) VALUES ('test-show', 'difm', 'T')",
        [],
    )
    .expect("seed show");
    conn.execute(
        "INSERT INTO episodes (show_slug, provider_episode_id, title, state,
         discovered_at) VALUES ('test-show', '162', 'E', 'discovered',
         '2026-07-11T00:00:00Z')",
        [],
    )
    .expect("seed episode");

    for batch in migrate(1) {
        conn.execute_batch(batch).expect("migrates");
    }
    let cells = conn
        .query_row(
            "SELECT show_slug, provider_episode_id, title, state, discovered_at,
             bytes_done, bytes_total, progress_at FROM episodes",
            [],
            |row| {
                Ok(EpisodeCells {
                    show_slug: row.get(0)?,
                    provider_episode_id: row.get(1)?,
                    title: row.get(2)?,
                    description: None,
                    published_at: None,
                    duration_secs: None,
                    state: row.get(3)?,
                    error_class: None,
                    file_path: None,
                    bytes: None,
                    blake3: None,
                    mime: None,
                    discovered_at: row.get(4)?,
                    downloaded_at: None,
                    bytes_done: row.get(5)?,
                    bytes_total: row.get(6)?,
                    progress_at: row.get(7)?,
                })
            },
        )
        .expect("reads post-migration");
    let row = decode_episode(&cells).expect("decodes");
    assert_eq!(row.id.as_str(), "162");
    assert_eq!(row.bytes_done, None, "new columns default to NULL");
}

#[test]
fn progress_only_sticks_while_downloading() {
    let (mut storage, slug) = opened();
    storage
        .discover(&slug, &vec![meta("162", "2026-07-05T18:00:00Z")], now())
        .expect("discovers");
    let id = id("162");

    // Not downloading yet: the write is a guarded no-op.
    storage.set_progress(&slug, &id, 10, Some(100), now());
    assert_eq!(storage.episodes(&slug)[0].bytes_done, None);

    storage.mark_downloading(&slug, &id).expect("starts");
    storage.set_progress(&slug, &id, 10, Some(100), now());
    let row = &storage.episodes(&slug)[0];
    assert_eq!(row.bytes_done, Some(10));
    assert_eq!(row.bytes_total, Some(100));
    assert!(row.progress_at.is_some());

    // Completion clears the transient progress fields.
    storage
        .mark_cached(&slug, &id, file("/x/162.m4a", 100, b"x"), now())
        .expect("caches");
    let row = &storage.episodes(&slug)[0];
    assert_eq!(row.bytes_done, None);
    assert!(row.progress_at.is_none());
}

#[test]
fn shows_lists_all_rows_ordered() {
    let (mut storage, slug) = opened();
    let other: ShowSlug = "anything-melodic".parse().expect("valid slug");
    storage.upsert_show(&show_meta(&other), "difm");

    let shows = storage.shows();
    assert_eq!(shows.len(), 2);
    assert_eq!(shows[0].slug, other); // "anything-melodic" < "test-show"
    assert_eq!(shows[1].slug, slug);
}

#[test]
fn unknown_episodes_are_reported() {
    let (mut storage, slug) = opened();
    let err = storage
        .mark_downloading(&slug, &id("404"))
        .expect_err("unknown");
    assert!(matches!(err, StorageError::EpisodeNotFound { .. }));
}

#[test]
fn discovering_for_an_unknown_show_fails() {
    let mut storage = Storage::new();
    let ghost: ShowSlug = "ghost".parse().expect("valid slug");
    let listing = vec![meta("1", "2026-07-05T18:00:00Z")];
    assert!(matches!(
        storage.discover(&ghost, &listing, now()),
        Err(StorageError::Sqlite(_))
    ));
    assert!(storage.episodes(&ghost).is_empty());
    assert_eq!(storage.discover(&ghost, &vec![], now()).ok(), Some(0));
}

#[test]
fn rediscovery_refreshes_what_upstream_reports() {
    let (mut storage, slug) = opened();
    storage
        .discover(&slug, &vec![meta("162", "2026-07-05T18:00:00Z")], now())
        .expect("discovers");
    let renamed = EpisodeMeta {
        title: "Renamed".into(),
        ..meta("162", "2026-07-05T19:00:00Z")
    };
    assert_eq!(
        storage.discover(&slug, &vec![renamed], now()).ok(),
        Some(0)
    );
    assert_eq!(storage.episodes(&slug)[0].title, "Renamed");
}

#[test]
fn a_crashed_download_is_healed() {
    let (mut storage, slug) = opened();
    storage
        .discover(&slug, &vec![meta("162", "2026-07-05T18:00:00Z")], now())
        .expect("discovers");
    let id = id("162");
    storage.mark_downloading(&slug, &id).expect("starts");
    storage.set_progress(&slug, &id, 10, Some(100), at("2026-07-12T00:00:00Z"));

    storage.heal_stale(&slug, at("2026-07-12T00:09:59Z"));
    assert_eq!(storage.episodes(&slug)[0].state, EpisodeState::Downloading);
    storage.heal_stale(&slug, at("2026-07-12T00:10:01Z"));
    assert_eq!(
        storage.episodes(&slug)[0].state,
        EpisodeState::Failed(ErrorClass::Network)
    );
}

#[test]
fn validators_and_artwork_are_kept_per_show() {
    let (mut storage, slug) = opened();
    storage.set_episodes_etag(&slug, Some("W/\"v1\"".into()));
    storage.set_artwork_path(&slug, "/data/artwork/test-show.png");
    storage.upsert_show(&show_meta(&slug), "difm");
    let show = storage.show(&slug).expect("show exists");
    assert_eq!(show.episodes_etag.as_deref(), Some("W/\"v1\""));
    assert_eq!(show.artwork_path.as_deref(), Some("/data/artwork/test-show.png"));
}

#[test]
fn migrations_start_where_the_database_is() {
    assert_eq!(migrate(0), vec![SCHEMA_V1, SCHEMA_V2, SCHEMA_V3]);
    assert_eq!(migrate(1), vec![SCHEMA_V2, SCHEMA_V3]);
    assert_eq!(migrate(2), vec![SCHEMA_V3]);
    assert!(migrate(3).is_empty());
}

#[test]
fn all_migrations_apply_in_order() {
    let conn = rusqlite::Connection::open_in_memory().expect("open");
    for batch in migrate(0) {
        conn.execute_batch(batch).expect("applies");
    }
    conn.execute(
        "INSERT INTO shows (slug, provider, title, episodes_etag) VALUES ('x', 'difm', 'X', 'e')",
        [],
    )
    .expect("every column is there");
}

#[test]
fn rows_round_trip() {
    let (mut storage, slug) = opened();
    storage
        .discover(
            &slug,
            &vec![
                meta("161", "2026-06-07T18:00:00Z"),
                meta("162", "2026-07-05T18:00:00Z"),
            ],
            now(),
        )
        .expect("discovers");
    let id = id("162");
    storage.mark_downloading(&slug, &id).expect("starts");
    storage.mark_failed(&slug, &id, ErrorClass::HttpStatus).expect("fails");
    storage.record_poll(&slug, Some("boom".into()), now());

    let shows: Vec<_> = storage.shows.iter().map(encode_show).collect();
    let episodes: Vec<_> = storage.episodes.iter().map(encode_episode).collect();
    assert_eq!(shows[0].last_poll_at.as_deref(), Some("2026-07-12T00:00:00Z"));
    let back = Storage::from_rows(&shows, &episodes).expect("reads back");
    assert!(back.is_wf());
    let rows = back.episodes(&slug);
    assert_eq!(rows.len(), 2);
    assert_eq!(rows[0].state, EpisodeState::Failed(ErrorClass::HttpStatus));
    assert_eq!(rows[0].published_at, Some(at("2026-07-05T18:00:00Z")));
    assert_eq!(
        decode_show(&shows[0]).expect("decodes").last_error.as_deref(),
        Some("boom")
    );
}

fn cells() -> EpisodeCells {
    EpisodeCells {
        show_slug: "test-show".into(),
        provider_episode_id: "162".into(),
        title: "E".into(),
        description: None,
        published_at: None,
        duration_secs: None,
        state: "discovered".into(),
        error_class: None,
        file_path: None,
        bytes: None,
        blake3: None,
        mime: None,
        discovered_at: "2026-07-11T00:00:00Z".into(),
        downloaded_at: None,
        bytes_done: None,
        bytes_total: None,
        progress_at: None,
    }
}

fn corruption(cells: EpisodeCells) -> String {
    match decode_episode(&cells) {
        Err(StorageError::Corrupt { table, reason }) => {
            assert_eq!(table, "episodes");
            reason
        }
        Err(other) => panic!("{}", other.to_string()),
        Ok(_) => panic!("must be corrupt"),
    }
}

#[test]
fn corrupt_rows_are_reported() {
    assert!(decode_episode(&cells()).is_ok());
    corruption(EpisodeCells { show_slug: "a/b".into(), ..cells() });
    corruption(EpisodeCells { provider_episode_id: "".into(), ..cells() });
    corruption(EpisodeCells { discovered_at: "yesterday".into(), ..cells() });
    corruption(EpisodeCells { blake3: Some("zz".into()), ..cells() });
    corruption(EpisodeCells { state: "lost".into(), ..cells() });
    let class = corruption(EpisodeCells {
        state: "failed".into(),
        error_class: Some("gremlins".into()),
        ..cells()
    });
    assert!(class.contains("error class"), "{class}");
}

#[test]
fn negative_byte_counts_read_as_zero() {
    let row = decode_episode(&EpisodeCells { bytes: Some(-1), ..cells() }).expect("decodes");
    assert_eq!(row.bytes, Some(0));
}

#[test]
fn states_decode_from_their_names() {
    assert_eq!(decode_state("cached", &None), Ok(EpisodeState::Cached));
    assert_eq!(decode_state("downloading", &None), Ok(EpisodeState::Downloading));
    assert_eq!(decode_state("pruned", &None), Ok(EpisodeState::Pruned));
    assert_eq!(
        decode_state("failed", &Some("disk".into())),
        Ok(EpisodeState::Failed(ErrorClass::Disk))
    );
    assert!(decode_state("failed", &None).is_err());
    let reason = decode_state("wat\"", &None).expect_err("unknown");
    assert!(reason.contains("\"wat\\\"\""), "quoted as Rust would: {reason}");
}

#[test]
fn listings_ignore_the_order_of_rows() {
    let dates = [("9", "2026-07-05T18:00:00Z"), ("10", "2026-07-05T18:00:00Z")];
    let later = ("8", "2026-07-06T18:00:00Z");
    let ids = |order: Vec<(&str, &str)>| {
        let (mut storage, slug) = opened();
        for (episode, published) in order {
            storage.discover(&slug, &vec![meta(episode, published)], now()).expect("discovers");
        }
        let listed: Vec<String> =
            storage.episodes(&slug).iter().map(|e| e.id.as_str().to_owned()).collect();
        listed
    };
    let expected = vec!["8".to_owned(), "9".to_owned(), "10".to_owned()];
    assert_eq!(ids(vec![dates[0], dates[1], later]), expected);
    assert_eq!(ids(vec![later, dates[1], dates[0]]), expected);
    assert_eq!(ids(vec![dates[1], later, dates[0]]), expected);
}

#[test]
fn a_path_is_recorded_only_while_cached() {
    let (mut storage, slug) = opened();
    storage
        .discover(&slug, &vec![meta("162", "2026-07-05T18:00:00Z")], now())
        .expect("discovers");
    let id = id("162");
    storage.mark_downloading(&slug, &id).expect("starts");
    storage.mark_cached(&slug, &id, file("/x/162.m4a", 1, b"x"), now()).expect("caches");
    assert_eq!(storage.episodes(&slug)[0].file_path.as_deref(), Some("/x/162.m4a"));
    // Downloading a damaged file again.
    storage.mark_downloading(&slug, &id).expect("starts over");
    let row = &storage.episodes(&slug)[0];
    assert_eq!(row.state, EpisodeState::Downloading);
    assert_eq!(row.file_path, None);
    assert_eq!((row.bytes_done, row.bytes_total, row.progress_at), (None, None, None));
    storage.mark_failed(&slug, &id, ErrorClass::Network).expect("fails");
    assert_eq!(storage.episodes(&slug)[0].file_path, None);
}

#[test]
fn the_first_faulty_row_is_named() {
    let (mut storage, slug) = opened();
    storage
        .discover(&slug, &vec![meta("162", "2026-07-05T18:00:00Z")], now())
        .expect("discovers");
    let shows = vec![encode_show(&storage.shows[0])];
    let good = encode_episode(&storage.episodes[0]);
    let bad = EpisodeCells { state: "lost".into(), ..encode_episode(&storage.episodes[0]) };
    let worse = EpisodeCells { state: "gone".into(), ..encode_episode(&storage.episodes[0]) };
    let Err(StorageError::Corrupt { table, reason }) =
        Storage::from_rows(&shows, &vec![good, bad, worse])
    else {
        panic!("corrupt rows");
    };
    assert_eq!((table, reason.as_str()), ("episodes", "unknown state \"lost\""));
}
