use splicefeed::config::{BindAddr, BindIp, Config, Interval, RawConfig, RawShow, Retention};
use splicefeed::control::{response, snapshot, talk, Answer, Rates, Session, Vitals};
use splicefeed::digest::Digest;
use splicefeed::domain::{
    ApiKey, AudioMime, EpisodeId, EpisodeMeta, ErrorClass, ShowMeta, ShowSlug,
};
use splicefeed::ipc::{frame, hello, KnownEvent, Request, Response, PROTOCOL_VERSION};
use splicefeed::library::{artwork_file_name, media_path, write_feed, LibraryError, SyncRun};
use splicefeed::ops::{sync_all_once, Round};
use splicefeed::reload::{guard, removed_shows};
use splicefeed::report::status_report;
use splicefeed::scheduler::{jitter, jittered, JITTER_STEPS};
use splicefeed::server::{feed_slug, healthz, reply, Reply, RSS_CONTENT_TYPE};
use splicefeed::storage::{CachedFile, Storage};
use splicefeed::telemetry::{record, Counter, LabelValue};
use splicefeed::timestamp::Timestamp;

fn slug(text: &str) -> ShowSlug {
    text.parse().expect("valid slug")
}

fn id(text: &str) -> EpisodeId {
    text.parse().expect("valid id")
}

fn at(text: &str) -> Timestamp {
    Timestamp::parse(text).expect("valid")
}

fn now() -> Timestamp {
    at("2026-07-12T00:00:00Z")
}

fn raw(shows: &[&str]) -> RawConfig {
    RawConfig {
        bind: None,
        external_base_url: Some("http://nas.lan:8380".into()),
        data_dir: Some("/data".into()),
        poll_interval: None,
        download_concurrency: None,
        fetch_last: None,
        retention: Retention::unlimited(),
        listen_key: None,
        api_key: Some(ApiKey::new("k".into())),
        base_url: None,
        control_socket: None,
        otlp: None,
        shows: shows
            .iter()
            .map(|slug| RawShow {
                provider: None,
                slug: slug.to_string(),
                title: None,
                poll_interval: None,
                fetch_last: None,
                artwork: None,
                retention: None,
            })
            .collect(),
    }
}

fn load(raw: RawConfig) -> Config {
    Config::load(raw, None, None, Err("unused".into())).ok().expect("loads")
}

/// A storage with one cached and one downloading episode of `test-show`.
fn synced() -> Storage {
    let mut storage = Storage::new();
    let show = slug("test-show");
    storage.upsert_show(
        &ShowMeta {
            slug: show.clone(),
            title: "Test Show".into(),
            description: None,
            artwork: None,
        },
        "difm",
    );
    storage
        .discover(
            &show,
            &vec![
                EpisodeMeta {
                    id: id("161"),
                    title: "Episode 161".into(),
                    description: None,
                    published_at: Some(at("2026-06-07T18:00:00Z")),
                    duration_secs: None,
                },
                EpisodeMeta {
                    id: id("162"),
                    title: "Episode 162".into(),
                    description: None,
                    published_at: Some(at("2026-07-05T18:00:00Z")),
                    duration_secs: None,
                },
            ],
            now(),
        )
        .expect("discovers");
    storage.mark_downloading(&show, &id("161")).expect("starts");
    storage
        .mark_cached(
            &show,
            &id("161"),
            CachedFile {
                file_path: "/data/media/test-show/161.m4a".into(),
                bytes: 18,
                blake3: Digest::of_bytes(b"control-test-audio"),
                mime: None,
                duration_secs: Some(60),
            },
            now(),
        )
        .expect("caches");
    storage.mark_downloading(&show, &id("162")).expect("starts");
    storage.set_progress(&show, &id("162"), 1_000, Some(4_000), now());
    storage.record_poll(&show, None, now());
    storage
}

/// Sync `test-show` against a listing; what subscribers hear.
fn full_sync(storage: &mut Storage, listing: &[(&str, &str)]) -> Vec<KnownEvent> {
    let (mut run, started) =
        SyncRun::begin(&load(raw(&["test-show"])), &slug("test-show")).ok().expect("begins");
    let mut heard = vec![started];
    run.start(storage, now());
    let meta = ShowMeta {
        slug: slug("test-show"),
        title: "Test Show".into(),
        description: Some("a show for tests".into()),
        artwork: None,
    };
    let episodes = listing
        .iter()
        .map(|(episode, published_at)| EpisodeMeta {
            id: id(episode),
            title: format!("Test Show {episode}"),
            description: None,
            published_at: Some(at(published_at)),
            duration_secs: Some(7200),
        })
        .collect();
    let listed = run.fresh(storage, &meta, episodes, None, now());
    heard.extend(listed.events);
    for episode in listed.wanted {
        storage.mark_downloading(&run.show, &episode).expect("starts");
        let mime = Some(AudioMime::Mp4);
        let file = CachedFile {
            file_path: media_path("/data", &run.show, &episode, &mime),
            bytes: 23,
            blake3: Digest::of_bytes(b"new-episode-audio-bytes"),
            mime,
            duration_secs: None,
        };
        heard.push(run.downloaded(storage, &episode, Ok(file), now()).expect("caches"));
    }
    heard.extend(run.swept(0));
    heard.push(run.finish(storage, Ok(()), now()).event);
    heard
}

#[test]
fn jitter_stays_within_ten_percent() {
    let interval = Interval::from_secs(1800);
    let whole = |i: &Interval| std::time::Duration::new(i.secs, i.nanos);
    let (lo, hi) = (whole(&interval).mul_f64(0.9), whole(&interval).mul_f64(1.1));
    let samples: Vec<Interval> = (0..1000).map(|_| jittered(interval)).collect();
    assert!(samples.iter().all(|d| (lo..=hi).contains(&whole(d))));
    // And it actually varies — a constant "jitter" defeats the point.
    assert!(samples.iter().any(|d| d != &samples[0]));
}

#[test]
fn jitter_spans_the_whole_range() {
    let interval = Interval::from_secs(1800);
    assert_eq!(jitter(interval, 0), Interval::from_secs(1620));
    assert_eq!(jitter(interval, JITTER_STEPS / 2), Interval::from_secs(1800));
    assert_eq!(jitter(interval, JITTER_STEPS), Interval::from_secs(1980));
    // Nine tenths are rounded up, eleven tenths down.
    let odd = Interval { secs: 1800, nanos: 1 };
    assert_eq!(jitter(odd, 0), Interval { secs: 1620, nanos: 1 });
    assert_eq!(jitter(odd, JITTER_STEPS), Interval { secs: 1980, nanos: 1 });
    // The longest interval cannot grow.
    let longest = Interval { secs: u64::MAX, nanos: 999_999_999 };
    assert_eq!(jitter(longest, JITTER_STEPS), longest);
}

#[test]
fn hello_snapshot_and_errors_over_raw_ndjson() {
    let greeting = hello("1.2.3");
    assert_eq!(greeting.protocol_version, PROTOCOL_VERSION);
    assert_eq!(greeting.daemon_version, "1.2.3");
    assert_eq!(frame(b"{}".to_vec()), b"{}\n".to_vec());

    // Garbage in: an error line out, connection stays usable.
    let answer = talk("not json", Err("expected ident at line 1 column 2".into()));
    assert!(matches!(
        answer,
        Answer::Refuse(message)
            if message == "unparseable request: expected ident at line 1 column 2"
    ));
    let line = "{\"request\":\"snapshot\"}";
    assert!(matches!(talk(line, Ok(Request::Snapshot)), Answer::Snapshot));
    assert!(matches!(talk(" \t", Err("EOF".into())), Answer::Skip));

    let mut vitals = Vitals::default();
    vitals.served();
    let config = load(raw(&["test-show"]));
    let view = snapshot(&config, &synced(), &mut Rates::new(), &vitals, 12, 345, 0);
    assert_eq!(view.shows.len(), 1);
    assert_eq!(view.shows[0].slug.as_str(), "test-show");
    assert_eq!(view.shows[0].last_poll_ok, Some(true));
    assert_eq!(view.shows[0].last_poll_at, Some(1_783_814_400));
    assert_eq!(view.shows[0].episodes_cached, 1);
    assert_eq!(view.shows[0].cache_bytes, 18);
    assert_eq!(view.data_dir_bytes, 345);
    assert_eq!(view.uptime_secs, 12);
    assert_eq!(view.http_requests, 1);
}

#[test]
fn subscribe_streams_sync_events() {
    let line = "{\"request\":\"subscribe\"}";
    assert!(
        matches!(talk(line, Ok(Request::Subscribe)), Answer::Stream),
        "subscribe opens with a snapshot, then streams"
    );
    let (mut session, _) = Session::opened("1.2.3");
    session.heard(line, Ok(Request::Subscribe));
    assert!(session.forwards_events());

    // A sync must flow to the subscriber.
    let kinds: Vec<&str> = full_sync(&mut Storage::new(), &[("162", "2026-07-05T18:00:00Z")])
        .iter()
        .map(|event| match event {
            KnownEvent::PollStarted { .. } => "poll_started",
            KnownEvent::PollFinished { ok: true, .. } => "poll_ok",
            KnownEvent::PollFinished { ok: false, .. } => "poll_failed",
            KnownEvent::EpisodeDiscovered { .. } => "discovered",
            KnownEvent::DownloadFinished { error: None, .. } => "downloaded",
            KnownEvent::DownloadFinished { error: Some(_), .. } => "download_failed",
            _ => "other",
        })
        .collect();
    assert_eq!(
        kinds,
        ["poll_started", "discovered", "downloaded", "poll_ok"],
        "the full sync story arrives in order"
    );
}

#[test]
fn sessions_answer_until_they_stream() {
    let (mut session, greeting) = Session::opened("1.2.3");
    assert_eq!(greeting.protocol_version, PROTOCOL_VERSION);
    assert_eq!(greeting.daemon_version, "1.2.3");
    assert!(!session.forwards_events());
    assert!(matches!(session.heard("x", Err("no".into())), Answer::Refuse(_)));
    assert!(matches!(session.heard("{}", Ok(Request::Snapshot)), Answer::Snapshot));
    assert!(matches!(session.heard("", Err("EOF".into())), Answer::Skip));
    assert!(!session.forwards_events());
    assert!(matches!(session.heard("{}", Ok(Request::Subscribe)), Answer::Stream));
    assert!(session.forwards_events());
    // From here on only events follow.
    assert!(matches!(session.heard("{}", Ok(Request::Snapshot)), Answer::Skip));
    assert!(matches!(session.heard("x", Err("no".into())), Answer::Skip));
    assert!(session.forwards_events());

    let failed = response(Err("storage: locked".into()));
    assert!(matches!(failed, Response::Error { message } if message == "storage: locked"));
}

#[test]
fn snapshots_follow_the_configuration() {
    let mut storage = Storage::new();
    for show in ["b-show", "a-show", "x-show", "c-show"] {
        storage.upsert_show(
            &ShowMeta { slug: slug(show), title: show.into(), description: None, artwork: None },
            "difm",
        );
    }
    let config = load(raw(&["c-show", "never-synced", "b-show"]));
    let view = snapshot(&config, &storage, &mut Rates::new(), &Vitals::default(), 0, 0, 0);
    let order: Vec<&str> = view.shows.iter().map(|show| show.slug.as_str()).collect();
    assert_eq!(order, vec!["c-show", "b-show", "a-show", "x-show"]);
}

#[test]
fn throughput_needs_two_looks() {
    let mut rates = Rates::new();
    let show = slug("test-show");
    assert_eq!(rates.rate(&show, &id("162"), 1_000, 1_000_000_000), 0);
    assert_eq!(rates.rate(&show, &id("162"), 3_000, 2_000_000_000), 2_000);
    assert_eq!(rates.rate(&show, &id("162"), 3_000, 3_000_000_000), 0, "no progress");
    assert_eq!(rates.rate(&show, &id("162"), 1_000, 4_000_000_000), 0, "restarted");
    assert_eq!(rates.rate(&show, &id("162"), 2_000, 4_000_000_000), 0, "no time passed");
    assert_eq!(rates.rate(&show, &id("161"), 9_000, 5_000_000_000), 0, "another download");
    assert_eq!(rates.rate(&show, &id("162"), u64::MAX, 4_000_000_001), u64::MAX, "capped");
}

#[test]
fn snapshots_show_downloads_in_flight() {
    let mut storage = synced();
    let mut rates = Rates::new();
    let vitals = Vitals::default();
    let config = load(raw(&["test-show"]));
    let first = snapshot(&config, &storage, &mut rates, &vitals, 0, 0, 0);
    assert_eq!(first.downloads.len(), 1);
    assert_eq!(first.downloads[0].episode.as_str(), "162");
    assert_eq!(first.downloads[0].bytes_done, 1_000);
    assert_eq!(first.downloads[0].bytes_total, Some(4_000));
    assert_eq!(first.downloads[0].bytes_per_sec, 0);
    storage.set_progress(&slug("test-show"), &id("162"), 3_000, Some(4_000), now());
    let second = snapshot(&config, &storage, &mut rates, &vitals, 2, 0, 2_000_000_000);
    assert_eq!(second.downloads[0].bytes_per_sec, 1_000);
}

#[test]
fn reload_picks_up_an_added_show() {
    let old = load(raw(&["first-show"]));
    let new = load(raw(&["first-show", "second-show"]));
    assert!(guard(&old, &new).is_ok());
    let added = removed_shows(&new, &old);
    assert_eq!(added.len(), 1);
    assert_eq!(added[0].as_str(), "second-show");
    assert!(removed_shows(&old, &new).is_empty());
    assert!(guard(&old, &old).is_ok());
    assert!(removed_shows(&old, &old).is_empty());
}

#[test]
fn bind_and_data_dir_changes_are_restart_only() {
    let old = load(raw(&["first-show"]));
    let moved = load(RawConfig {
        bind: Some(BindAddr { ip: BindIp::V4 { a: 127, b: 0, c: 0, d: 1 }, port: 19999 }),
        ..raw(&["first-show"])
    });
    let err = guard(&old, &moved).expect_err("bind change rejected");
    assert!(err.contains("restart required"), "{err}");
    assert_eq!(
        err,
        "`bind` changed (127.0.0.1:8380 -> 127.0.0.1:19999): restart required; reload aborted"
    );

    let elsewhere = load(RawConfig { data_dir: Some("/other".into()), ..raw(&["first-show"]) });
    let err = guard(&old, &elsewhere).expect_err("data_dir change rejected");
    assert!(err.contains("restart required"), "{err}");

    let socket = load(RawConfig {
        control_socket: Some("/run/s.sock".into()),
        ..raw(&["first-show"])
    });
    let err = guard(&old, &socket).expect_err("control_socket change rejected");
    assert!(err.contains("`control_socket` changed (default -> /run/s.sock)"), "{err}");
}

#[test]
fn the_same_paths_written_otherwise_reload() {
    let at = |data_dir: &str, socket: &str| {
        load(RawConfig {
            data_dir: Some(data_dir.into()),
            control_socket: Some(socket.into()),
            ..raw(&["first-show"])
        })
    };
    let old = at("/data", "/run/s.sock");
    assert!(guard(&old, &at("/data/", "/run//s.sock")).is_ok());
    assert!(guard(&old, &at("/data/.", "/run/./s.sock")).is_ok());
    assert!(guard(&old, &at("/data/..", "/run/s.sock")).is_err());
    assert!(guard(&old, &at("data", "/run/s.sock")).is_err());
    assert!(guard(&old, &at("/data", "/run/t.sock")).is_err());
}

#[test]
fn external_base_url_change_shows_up_in_the_next_feed() {
    let storage = synced();
    let old = load(RawConfig {
        external_base_url: Some("http://old.lan:8380".into()),
        ..raw(&["test-show"])
    });
    let body = write_feed(&old, &storage, &slug("test-show")).ok().expect("feed");
    let body = String::from_utf8(body).expect("utf-8");
    assert!(body.contains("http://old.lan:8380/media/"));

    let new = load(RawConfig {
        external_base_url: Some("http://new.lan:9999".into()),
        ..raw(&["test-show"])
    });
    assert!(guard(&old, &new).is_ok());
    let body = write_feed(&new, &storage, &slug("test-show")).ok().expect("feed");
    let body = String::from_utf8(body).expect("utf-8");
    assert!(
        body.contains("http://new.lan:9999/media/"),
        "enclosures follow the reloaded external_base_url"
    );
    assert!(!body.contains("http://old.lan:8380"));
}

#[test]
fn unknown_and_malformed_feed_paths_are_404() {
    let config = load(raw(&["test-show"]));
    let storage = synced();
    let unknown = feed_slug("not-a-show.xml").expect("well-formed");
    assert!(matches!(reply(write_feed(&config, &storage, &unknown)), Reply::NotFound));
    assert!(feed_slug("test-show").is_none());
    assert!(feed_slug("a b.xml").is_none());
    assert!(feed_slug(".xml").is_none());
    assert_eq!(feed_slug("a.xml.xml").expect("a dot is fine").as_str(), "a.xml");
}

#[test]
fn feed_endpoint_serves_valid_rss_with_external_urls() {
    let config = load(raw(&["test-show"]));
    let mut storage = Storage::new();
    full_sync(
        &mut storage,
        &[("162", "2026-07-05T18:00:00Z"), ("161", "2026-06-07T18:00:00Z")],
    );
    let artwork = artwork_file_name(&slug("test-show"), "http://h/art.png");
    storage.set_artwork_path(&slug("test-show"), &format!("/data/artwork/{artwork}"));
    let show = feed_slug("test-show.xml").expect("names a show");
    let Reply::Document(body) = reply(write_feed(&config, &storage, &show)) else {
        panic!("expected a document");
    };
    assert!(RSS_CONTENT_TYPE.starts_with("application/rss+xml"));
    let parsed = feed_rs::parser::parse(body.as_slice()).expect("strict parser accepts the feed");
    assert_eq!(parsed.title.expect("title").content, "Test Show");
    assert_eq!(parsed.entries.len(), 2);
    let enclosure_url = parsed.entries[0]
        .media
        .first()
        .and_then(|m| m.content.first())
        .and_then(|c| c.url.as_ref())
        .expect("enclosure url")
        .to_string();
    assert_eq!(
        enclosure_url, "http://nas.lan:8380/media/test-show/162.m4a",
        "enclosures use the external base URL, never the bind address"
    );
    let icon = parsed.logo.expect("itunes:image");
    assert!(
        icon.uri.starts_with("http://nas.lan:8380/artwork/test-show-")
            && icon.uri.ends_with(".png"),
        "artwork under the external base, source-hashed name: {}",
        icon.uri
    );
}

#[test]
fn server_failures_are_not_dressed_as_missing() {
    let failed = reply(Err(LibraryError::ExternalBaseUrl("mailto:x".into())));
    assert!(matches!(failed, Reply::Failed(_)));
    assert!(matches!(reply(Err(LibraryError::NotSynced(slug("x")))), Reply::NotFound));
}

#[test]
fn healthz_reports_poll_health() {
    let health = healthz(&synced());
    assert_eq!(health.len(), 1);
    assert_eq!(health[0].slug.as_str(), "test-show");
    assert_eq!(health[0].last_poll_ok, Some(true));
    assert_eq!(health[0].last_poll_at, Some(now()));
    assert_eq!(health[0].last_error, None);
}

#[test]
fn debug_serves_the_status_report_as_json() {
    let config = load(raw(&["test-show", "brand-new"]));
    let report = status_report(&config, &synced());
    assert_eq!(report.shows[0].slug.as_str(), "test-show");
    let episode = &report.shows[0].episodes[1];
    assert_eq!(episode.id.as_str(), "161");
    assert!(
        episode.blake3.as_deref().is_some_and(|h| h.len() == 64),
        "debug carries the full hash"
    );
    assert_eq!(report.total_bytes, 18);
    assert_eq!(report.total_files, 1);
    assert_eq!(report.configured_never_synced, vec![slug("brand-new")]);
    assert_eq!(report.state_db, "/data/splicefeed.db");
}

fn text(label: &(&'static str, LabelValue)) -> (&'static str, String) {
    match &label.1 {
        LabelValue::Text(value) => (label.0, value.clone()),
        LabelValue::Flag(value) => (label.0, value.to_string()),
    }
}

#[test]
fn events_and_requests_show_up_in_the_scrape() {
    let polled = record(&KnownEvent::PollFinished {
        show: slug("test-show"),
        ok: true,
        new_episodes: 1,
    });
    assert_eq!(polled.len(), 1);
    assert_eq!(polled[0].counter.name(), "splicefeed.polls");
    assert_eq!(polled[0].by, 1);
    let labels: Vec<_> = polled[0].labels.iter().map(text).collect();
    assert_eq!(
        labels,
        vec![("show", "test-show".to_string()), ("ok", "true".to_string())]
    );
    let found = record(&KnownEvent::EpisodeDiscovered {
        show: slug("test-show"),
        episode: id("1"),
    });
    assert_eq!(found[0].counter.name(), "splicefeed.episodes.discovered");
}

#[test]
fn every_event_counts_what_it_should() {
    let show = || slug("s");
    assert!(record(&KnownEvent::PollStarted { show: show() }).is_empty());
    let failed = record(&KnownEvent::DownloadFinished {
        show: show(),
        episode: id("1"),
        error: Some(ErrorClass::HttpStatus),
    });
    assert_eq!(text(&failed[0].labels[1]), ("result", "http-status".to_string()));
    let fine = record(&KnownEvent::DownloadFinished {
        show: show(),
        episode: id("1"),
        error: None,
    });
    assert_eq!(text(&fine[0].labels[1]), ("result", "ok".to_string()));
    let pruned = record(&KnownEvent::Pruned { show: show(), episodes: 2, bytes_freed: 99 });
    assert_eq!((pruned[0].counter, pruned[0].by), (Counter::PrunedEpisodes, 2));
    assert_eq!((pruned[1].counter, pruned[1].by), (Counter::PrunedBytes, 99));
    let kept = record(&KnownEvent::Quarantined { provider: "difm".into(), path: None });
    assert_eq!(kept[0].counter, Counter::Quarantined);
    assert_eq!(text(&kept[0].labels[0]), ("provider", "difm".to_string()));
}

#[test]
fn one_failing_show_fails_the_run_but_not_the_others() {
    let config = load(raw(&["b", "a", "c"]));
    let polls = |outcomes: [bool; 3]| {
        let mut round = Round::new();
        let mut asked = Vec::new();
        for ok in outcomes {
            asked.push(round.next(&config).expect("one more").as_str().to_owned());
            round.polled(ok);
        }
        assert!(round.next(&config).is_none());
        assert_eq!(asked, vec!["b".to_owned(), "a".to_owned(), "c".to_owned()]);
        sync_all_once(&config, &round)
    };
    assert!(polls([true, true, true]).is_ok());
    assert_eq!(polls([false, true, false]), Err("sync failed for b, c".to_string()));
    assert_eq!(polls([false, false, false]), Err("sync failed for b, a, c".to_string()));
}

#[test]
fn bytes_are_counted_in_bytes() {
    assert_eq!(Counter::PrunedBytes.unit(), Some("By"));
    assert_eq!(Counter::Polls.unit(), None);
    assert_eq!(Counter::Polls.description(), "Provider polls, by show and outcome");
}
