use splicefeed::cli::{
    count_kind, print_show_text, print_text, print_verify_text, probe_audio, probe_heading,
    probe_listing, probe_provider, probe_show, probe_target, verify_failure, verify_targets, Kind,
    ShowVerify, VerifyRun,
};
use splicefeed::config::{Config, RawConfig, RawShow, Retention};
use splicefeed::domain::{
    ApiKey, AudioMime, AudioSource, EpisodeMeta, EpisodeState, ErrorClass, ShowMeta, ShowSlug,
};
use splicefeed::library::{FileProblem, VerifyReport};
use splicefeed::providers::{EpisodeListing, ProviderError};
use splicefeed::report::{EpisodeStatus, ShowStatus, StatusReport};
use splicefeed::style::{aside, colored, dimmed, plain, strong, Color, Span, Style};
use splicefeed::timestamp::Timestamp;
use splicefeed::weburl::WebUrl;

fn at(text: &str) -> Timestamp {
    Timestamp::parse(text).expect("valid ts")
}

fn slug(text: &str) -> ShowSlug {
    text.parse().expect("valid slug")
}

fn episode(id: &str, state: EpisodeState) -> EpisodeStatus {
    EpisodeStatus {
        id: id.parse().expect("valid id"),
        description: None,
        state,
        bytes: None,
        mime: None,
        duration_secs: None,
        blake3: None,
        file_path: None,
        downloaded_at: None,
        bytes_done: None,
        bytes_total: None,
        progress_at: None,
    }
}

fn show(episodes: Vec<EpisodeStatus>) -> ShowStatus {
    ShowStatus {
        slug: slug("melodik-revolution"),
        title: "Melodik Revolution".into(),
        provider: "difm".into(),
        last_poll_at: Some(at("2026-07-11T22:14:29Z")),
        last_poll_ok: Some(true),
        last_error: None,
        cached_bytes: 288_111_664,
        episodes,
    }
}

fn report(shows: Vec<ShowStatus>) -> StatusReport {
    StatusReport {
        shows,
        configured_never_synced: vec![],
        total_files: 1,
        total_bytes: 288_111_664,
        download_concurrency: 2,
        state_db: "/data/splicefeed.db".into(),
        data_dir: "/data".into(),
    }
}

fn line(spans: &Vec<Span>) -> String {
    spans.iter().map(|span| span.text.as_str()).collect()
}

fn lines(page: &Vec<Vec<Span>>) -> Vec<String> {
    page.iter().map(line).collect()
}

fn styled(spans: &Vec<Span>) -> Vec<(&str, Style)> {
    spans.iter().map(|span| (span.text.as_str(), span.style)).collect()
}

#[test]
fn a_show_is_reported_in_full() {
    let page = print_show_text(&show(vec![
        EpisodeStatus {
            description: Some("with Mark Pledger".into()),
            bytes: Some(288_111_664),
            mime: Some(AudioMime::Mpeg),
            duration_secs: Some(7200),
            blake3: Some("ab".repeat(32)),
            file_path: Some("/data/media/x/162.mp3".into()),
            downloaded_at: Some(at("2026-07-11T22:14:29Z")),
            ..episode("162", EpisodeState::Cached)
        },
        episode("161", EpisodeState::Discovered),
        episode("160", EpisodeState::Failed(ErrorClass::Network)),
        episode("159", EpisodeState::Failed(ErrorClass::Disk)),
    ]));
    assert_eq!(
        lines(&page),
        vec![
            "─".repeat(72),
            "melodik-revolution — Melodik Revolution [difm]".into(),
            "".into(),
            "  last poll 2026-07-11 22:14:29Z (ok)".into(),
            "  1 cached (288.11 MB) · 1 discovered · 2 failed · 0 pruned".into(),
            "".into(),
            "  162   288.11 MB  audio/mpeg          2h  downloaded 2026-07-11 22:14:29Z"
                .into(),
            "           with Mark Pledger".into(),
            format!("           blake3 {}", "ab".repeat(32)),
            "           /data/media/x/162.mp3".into(),
            "".into(),
            "  failed: 160 (network), 159 (disk)".into(),
            "".into(),
        ]
    );
    assert_eq!(
        styled(&page[4]),
        vec![
            ("  ", plain()),
            ("1 cached (288.11 MB)", strong(Color::Green)),
            (" ", plain()),
            ("·", dimmed()),
            (" ", plain()),
            ("1 discovered", plain()),
            (" ", plain()),
            ("·", dimmed()),
            (" ", plain()),
            ("2 failed", strong(Color::Red)),
            (" ", plain()),
            ("·", dimmed()),
            (" ", plain()),
            ("0 pruned", dimmed()),
        ]
    );
    assert_eq!(page[7][1].style, aside());
    assert_eq!(page[9][1].style, colored(Color::Cyan));
}

#[test]
fn unknown_details_read_as_question_marks() {
    let page = print_show_text(&show(vec![episode("162", EpisodeState::Cached)]));
    let text = lines(&page);
    assert_eq!(text[6], "  162           ?  mime?                ?  downloaded ?");
    assert_eq!(text[7], "           blake3 ?");
    assert_eq!(text[8], "           <file path missing>");
}

#[test]
fn poll_health_is_spelled_out() {
    let mut failed = show(vec![]);
    failed.last_poll_ok = Some(false);
    failed.last_error = Some("boom".into());
    let page = print_show_text(&failed);
    assert_eq!(line(&page[3]), "  last poll 2026-07-11 22:14:29Z (FAILED: boom)");
    assert_eq!(page[3][3].style, strong(Color::Red));
    failed.last_error = None;
    let page = print_show_text(&failed);
    assert!(line(&page[3]).ends_with("(FAILED: unknown error)"));
    failed.last_poll_at = None;
    let page = print_show_text(&failed);
    assert_eq!(line(&page[3]), "  never polled");
}

#[test]
fn downloads_show_only_while_they_run() {
    let page = print_show_text(&show(vec![episode("1", EpisodeState::Downloading)]));
    assert_eq!(
        line(&page[4]),
        "  0 cached (288.11 MB) · 0 discovered · 0 failed · 0 pruned · 1 downloading"
    );
}

#[test]
fn the_report_ends_with_totals() {
    let mut whole = report(vec![show(vec![])]);
    whole.configured_never_synced = vec![slug("brand-new")];
    let text = lines(&print_text(&whole));
    let tail: Vec<&str> = text[6..].iter().map(String::as_str).collect();
    let thin = "─".repeat(72);
    let thick = "═".repeat(72);
    assert_eq!(
        tail,
        vec![
            thin.as_str(),
            "brand-new — configured, never synced",
            "",
            thick.as_str(),
            "total    1 file(s) on disk · 288.11 MB",
            "state db /data/splicefeed.db",
            "data dir /data",
        ]
    );
    let empty = lines(&print_text(&report(vec![])));
    assert_eq!(
        empty[0],
        "no shows in storage yet — run `splicefeed run --once` first"
    );
}

#[test]
fn kinds_add_up() {
    let all = vec![
        episode("1", EpisodeState::Cached),
        episode("2", EpisodeState::Pruned),
        episode("3", EpisodeState::Failed(ErrorClass::Parse)),
        episode("4", EpisodeState::Failed(ErrorClass::Disk)),
        episode("5", EpisodeState::Downloading),
        episode("6", EpisodeState::Discovered),
    ];
    let counts: Vec<usize> = [
        Kind::Discovered,
        Kind::Downloading,
        Kind::Cached,
        Kind::Pruned,
        Kind::Failed,
    ]
    .into_iter()
    .map(|kind| count_kind(&all, kind))
    .collect();
    assert_eq!(counts, vec![1, 1, 1, 1, 2]);
}

fn verified(problems: Vec<(FileProblem, bool)>) -> VerifyRun {
    let mut report = VerifyReport::new();
    let intact = "1".parse().expect("valid id");
    report.record(&intact, None, false);
    for (problem, fixed) in problems {
        let id = "162".parse().expect("valid id");
        report.record(&id, Some(problem), fixed);
    }
    VerifyRun { shows: vec![ShowVerify { slug: slug("test-show"), report }] }
}

#[test]
fn verifications_are_printed_and_judged() {
    let clean = verified(vec![]);
    let page = print_verify_text(&clean, false);
    assert_eq!(
        lines(&page),
        vec![
            "─".repeat(72),
            "test-show — 1 checked · 1 intact".to_string(),
            "".to_string()
        ]
    );
    assert_eq!(page[1][3].style, colored(Color::Green));
    assert_eq!(verify_failure(&clean, false), None);

    let damaged = verified(vec![(FileProblem::Missing, false), (FileProblem::HashMismatch, true)]);
    let page = print_verify_text(&damaged, false);
    assert_eq!(line(&page[1]), "test-show — 3 checked · 1 intact");
    assert_eq!(page[1][3].style, plain());
    assert!(line(&page[2]).starts_with("  162  "));
    assert!(line(&page[2]).ends_with("  run --fix to re-download"));
    assert!(line(&page[3]).ends_with("  fixed ✓"));
    assert_eq!(
        verify_failure(&damaged, false).as_deref(),
        Some("1 file(s) failed verification (run with --fix to re-download)")
    );
    assert!(line(&print_verify_text(&damaged, true)[2]).ends_with("  NOT FIXED"));
    assert_eq!(
        verify_failure(&damaged, true).as_deref(),
        Some("1 file(s) failed verification and could not be fixed")
    );
}

fn config() -> Config {
    let entry = |slug: &str, provider: Option<&str>| RawShow {
        provider: provider.map(str::to_owned),
        slug: slug.into(),
        title: None,
        poll_interval: None,
        fetch_last: None,
        artwork: None,
        retention: None,
    };
    Config::load(
        RawConfig {
            bind: None,
            external_base_url: None,
            data_dir: Some("/data".into()),
            poll_interval: None,
            download_concurrency: None,
            fetch_last: None,
            retention: Retention::unlimited(),
            listen_key: None,
            api_key: Some(ApiKey::new("k".into())),
            base_url: None,
            control_socket: None,
            otlp: None,
            shows: vec![entry("a", None), entry("b", Some("elsewhere"))],
        },
        None,
        None,
        Err("unused".into()),
    )
    .ok()
    .expect("loads")
}

#[test]
fn verification_covers_what_was_asked_for() {
    let all = verify_targets(&config(), None).ok().expect("all");
    assert_eq!(all, vec![slug("a"), slug("b")]);
    let one = verify_targets(&config(), Some("zz")).ok().expect("one");
    assert_eq!(one, vec![slug("zz")]);
    assert!(verify_targets(&config(), Some("z z")).is_err());
}

#[test]
fn probes_use_the_configured_provider() {
    assert_eq!(probe_provider(&config(), &slug("a")), "difm");
    assert_eq!(probe_provider(&config(), &slug("b")), "elsewhere");
    assert_eq!(probe_provider(&config(), &slug("unknown")), "difm");
    assert_eq!(
        probe_heading(&slug("b"), "elsewhere"),
        "probing `b` via provider `elsewhere`"
    );
}

#[test]
fn probes_report_show_metadata() {
    let found = probe_show(&Ok(ShowMeta {
        slug: slug("a"),
        title: "A \"quoted\" title".into(),
        description: Some("né".into()),
        artwork: Some(WebUrl::parse("https://cdn/a.png").expect("valid")),
    }));
    assert_eq!(
        found,
        vec![
            "show:      OK  title=\"A \\\"quoted\\\" title\"",
            "           description: 3 chars",
            "           artwork: https://cdn/a.png",
        ]
    );
    let bare = probe_show(&Ok(ShowMeta {
        slug: slug("a"),
        title: "T".into(),
        description: None,
        artwork: None,
    }));
    assert_eq!(bare[1], "           description: MISSING");
    assert_eq!(bare[2], "           artwork: MISSING");
    let failed = probe_show(&Err(ProviderError::Http("refused".into())));
    assert_eq!(failed, vec!["show:      FAILED  upstream request failed: refused"]);
}

fn listed(count: usize) -> Result<EpisodeListing, ProviderError> {
    Ok(EpisodeListing::Modified {
        episodes: (0..count)
            .map(|n| EpisodeMeta {
                id: n.to_string().parse().expect("valid id"),
                title: "T".into(),
                description: None,
                published_at: if n == 0 { Some(at("2026-07-05T18:00:00Z")) } else { None },
                duration_secs: if n == 0 { Some(7200) } else { None },
            })
            .collect(),
        etag: None,
    })
}

#[test]
fn probes_report_the_listing() {
    let lines = probe_listing(&listed(7));
    assert_eq!(lines.len(), 6, "the first five are shown");
    assert_eq!(
        lines[0],
        "episodes:  OK  7 parsed (drifted entries, if any, are quarantined and warned above)"
    );
    assert_eq!(
        lines[1],
        format!("                  0  {:60}  2026-07-05T18:00:00Z  7200s", "\"T\"")
    );
    assert_eq!(
        lines[2],
        format!("                  1  {:60}  pubdate MISSING  duration MISSING", "\"T\"")
    );
    assert_eq!(probe_target(&listed(7)).map(|id| id.as_str()), Some("0"));
    assert!(probe_target(&listed(0)).is_none());

    let unchanged = Ok(EpisodeListing::NotModified);
    assert_eq!(
        probe_listing(&unchanged),
        vec!["episodes:  unexpected 304 without a validator"]
    );
    assert!(probe_target(&unchanged).is_none());
    let failed = Err(ProviderError::ShowNotFound(slug("a")));
    assert_eq!(
        probe_listing(&failed),
        vec!["episodes:  FAILED  show `a` not found upstream"]
    );
}

#[test]
fn probes_report_audio_without_credentials() {
    let source = AudioSource {
        url: WebUrl::parse("https://h/a.mp3?listen_key=sekrit").expect("valid"),
        mime: Some(AudioMime::Mpeg),
        bytes: Some(12),
    };
    assert_eq!(
        probe_audio(&Ok(source)),
        "audio:     OK  https://h/a.mp3?listen_key=REDACTED (audio/mpeg, 12 bytes)"
    );
    let bare = AudioSource {
        url: WebUrl::parse("https://h/a").expect("valid"),
        mime: None,
        bytes: None,
    };
    assert_eq!(
        probe_audio(&Ok(bare)),
        "audio:     OK  https://h/a (mime unknown, size unknown)"
    );
    assert_eq!(
        probe_audio(&Err(ProviderError::Http("refused".into()))),
        "audio:     FAILED  upstream request failed: refused"
    );
}
