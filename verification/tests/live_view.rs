use splicefeed::domain::{AudioMime, EpisodeState, ErrorClass, ShowSlug};
use splicefeed::ipc::{Event, Hello, KnownEvent, Response, Snapshot, PROTOCOL_VERSION};
use splicefeed::report::{EpisodeStatus, ShowStatus, StatusReport};
use splicefeed::timestamp::Timestamp;
use splicefeed::tui::{
    active_downloads, compatible, count_states, describe, draw, incoming, ratio, stalled, App,
    Episodes, Key, Live, Next, Panel, Screen, EVENT_LOG,
};

fn at(text: &str) -> Timestamp {
    Timestamp::parse(text).expect("valid ts")
}

fn now() -> Timestamp {
    at("2026-07-11T23:00:00Z")
}

fn episode(id: &str, state: EpisodeState) -> EpisodeStatus {
    EpisodeStatus {
        id: id.parse().expect("valid id"),
        description: None,
        state,
        bytes: None,
        mime: None,
        duration_secs: None,
        blake3: None,
        file_path: None,
        downloaded_at: None,
        bytes_done: None,
        bytes_total: None,
        progress_at: None,
    }
}

fn fake_report() -> StatusReport {
    StatusReport {
        shows: vec![ShowStatus {
            slug: "melodik-revolution".parse().expect("valid slug"),
            title: "Melodik Revolution".into(),
            provider: "difm".into(),
            last_poll_at: Some(at("2026-07-11T22:14:29Z")),
            last_poll_ok: Some(true),
            last_error: None,
            cached_bytes: 288_111_664,
            episodes: vec![
                EpisodeStatus {
                    description: Some("with Mark Pledger".into()),
                    bytes: Some(288_111_664),
                    mime: Some(AudioMime::Mpeg),
                    duration_secs: Some(7200),
                    blake3: Some("ab".repeat(32)),
                    file_path: Some("/data/media/x/162.mp3".into()),
                    downloaded_at: Some(at("2026-07-11T22:14:29Z")),
                    ..episode("162", EpisodeState::Cached)
                },
                EpisodeStatus {
                    bytes_done: Some(144_000_000),
                    bytes_total: Some(288_000_000),
                    progress_at: Some(now()),
                    ..episode("161", EpisodeState::Downloading)
                },
                episode("160", EpisodeState::Failed(ErrorClass::Network)),
            ],
        }],
        configured_never_synced: vec![],
        total_files: 1,
        total_bytes: 288_111_664,
        download_concurrency: 2,
        state_db: "/data/splicefeed.db".into(),
        data_dir: "/data".into(),
    }
}

fn empty_report() -> StatusReport {
    StatusReport {
        shows: vec![],
        configured_never_synced: vec![],
        total_files: 0,
        total_bytes: 0,
        download_concurrency: 2,
        state_db: "/data/splicefeed.db".into(),
        data_dir: "/data".into(),
    }
}

fn app(report: StatusReport) -> App {
    App::new(report)
}

fn percents(app: &App) -> Vec<String> {
    active_downloads(&app.report)
        .iter()
        .map(|download| match ratio(download.episode) {
            Some((done, total)) => format!("{:>3.0}%", done as f64 / total as f64 * 100.0),
            None => String::new(),
        })
        .collect()
}

fn panel_text(panel: &Panel, out: &mut String) {
    out.push_str(&panel.title);
    out.push('\n');
    for column in &panel.columns {
        out.push_str(column);
        out.push(' ');
    }
    for row in &panel.rows {
        for cell in &row.cells {
            out.push_str(&cell.text);
            out.push(' ');
        }
        out.push('\n');
    }
}

fn frame_text(screen: &Screen) -> String {
    let mut out = String::new();
    for span in &screen.header {
        out.push_str(&span.text);
    }
    if let Some(downloads) = &screen.downloads {
        panel_text(downloads, &mut out);
    }
    panel_text(&screen.shows, &mut out);
    match &screen.episodes {
        Episodes::Table(panel) => panel_text(panel, &mut out),
        Episodes::Hint(hint) => out.push_str(&hint.text),
    }
    for line in &screen.log {
        out.push_str(line);
        out.push('\n');
    }
    out.push_str(&screen.footer.text);
    out
}

fn rendered(app: &App) -> String {
    frame_text(&draw(app, &percents(app), now()))
}

#[test]
fn renders_shows_and_selected_episodes() {
    let content = rendered(&app(fake_report()));
    assert!(content.contains("melodik-revolution"));
    assert!(content.contains("cached"));
    assert!(content.contains("162"));
    assert!(content.contains("failed"));
    assert!(content.contains("288.11 MB"));
    assert!(content.contains("q quit"));
    assert!(
        content.contains("with Mark Pledger"),
        "episode description is rendered"
    );
    assert!(content.contains("2026-07-11 22:14"), "{content}");
    assert!(content.contains("2h"), "{content}");
}

#[test]
fn active_download_panel_shows_progress_and_health() {
    let content = rendered(&app(fake_report()));
    assert!(content.contains("downloads (1/2 slots)"));
    assert!(content.contains("melodik-revolution/161"));
    assert!(content.contains("50%"));
    assert!(content.contains("144 MB / 288 MB"));
    assert!(content.contains("active"));
}

#[test]
fn stale_progress_reads_as_stalled() {
    let mut report = fake_report();
    report.shows[0].episodes[1].progress_at = Some(at("2026-07-11T00:00:00Z"));
    let content = rendered(&app(report));
    assert!(content.contains("stalled"));
}

#[test]
fn empty_library_renders_a_hint_not_a_panic() {
    let content = rendered(&app(empty_report()));
    assert!(content.contains("no shows in storage yet"));
}

#[test]
fn selection_stays_in_bounds() {
    let mut app = App { selected: 5, ..app(fake_report()) };
    app.clamp();
    assert_eq!(app.selected, 0);
    app.select_prev();
    assert_eq!(app.selected, 0);
    app.select_next();
    assert_eq!(app.selected, 0, "single show cannot select past the end");
    let mut far = App { selected: usize::MAX, ..App::new(fake_report()) };
    far.select_next();
    assert_eq!(far.selected, 0);
}

#[test]
fn panels_get_the_lines_they_need() {
    let screen = draw(&app(fake_report()), &vec![], now());
    assert_eq!(screen.downloads_height, 3);
    assert_eq!(screen.shows_height, 4);
    assert_eq!(screen.log_height, 0);
    let panel = screen.downloads.as_ref().expect("one download");
    assert_eq!(panel.rows[0].cells[1].text, "  ?%", "no percentage was handed in");
    assert!(screen.shows.rows[0].selected);

    let quiet = draw(&app(empty_report()), &vec![], now());
    assert_eq!(quiet.downloads_height, 0);
    assert!(quiet.downloads.is_none());
    assert_eq!(quiet.shows_height, 3);

    let mut busy = fake_report();
    for n in 0..20 {
        busy.shows[0].episodes.push(EpisodeStatus {
            progress_at: None,
            ..episode(&n.to_string(), EpisodeState::Downloading)
        });
    }
    let screen = draw(&app(busy), &vec![], now());
    assert_eq!(screen.downloads_height, 6);
    assert_eq!(screen.downloads.expect("busy").title, "downloads (2/2 slots)");
}

#[test]
fn stalls_begin_after_ten_seconds() {
    assert!(stalled(None, now()));
    assert!(stalled(Some(at("2026-07-11T22:59:50Z")), now()));
    assert!(!stalled(Some(at("2026-07-11T22:59:50.000000001Z")), now()));
    assert!(!stalled(Some(at("2026-07-11T23:00:05Z")), now()), "clock skew is no stall");
}

#[test]
fn percentages_need_both_numbers() {
    let unknown = episode("1", EpisodeState::Downloading);
    assert_eq!(ratio(&unknown), None);
    let empty = EpisodeStatus { bytes_done: Some(0), bytes_total: Some(0), ..unknown };
    assert_eq!(ratio(&empty), None);
    let known = EpisodeStatus { bytes_done: Some(1), bytes_total: Some(4), ..empty };
    assert_eq!(ratio(&known), Some((1, 4)));
    assert_eq!(count_states(&fake_report().shows[0]), (1, 1));
}

fn vitals() -> Snapshot {
    Snapshot {
        uptime_secs: 3_661,
        shows: vec![],
        downloads: vec![],
        data_dir_bytes: 0,
        http_requests: 7,
    }
}

#[test]
fn a_daemon_shows_in_the_header() {
    let mut app = app(fake_report());
    assert!(rendered(&app).contains(
        " splicefeed  1 file(s) · 288.11 MB · 2 download slot(s) · daemon offline"
    ));
    assert_eq!(app.heard(Live::Snapshot(vitals()), now()), Next::Draw);
    let content = rendered(&app);
    assert!(content.contains(" · daemon up 1h 1m 1s · 7 http req"), "{content}");
    assert_eq!(draw(&app, &vec![], now()).log_height, 7);
    assert_eq!(app.heard(Live::Gone, now()), Next::Draw);
    assert!(rendered(&app).contains("daemon offline"));
}

fn show() -> ShowSlug {
    "mr".parse().expect("valid slug")
}

#[test]
fn events_roll_through_the_log() {
    let mut app = app(fake_report());
    for n in 0..(EVENT_LOG as u32 + 5) {
        let event = KnownEvent::PollFinished { show: show(), ok: true, new_episodes: n };
        assert_eq!(app.heard(Live::Event(event), now()), Next::Refresh);
    }
    assert_eq!(app.events.len(), EVENT_LOG);
    assert_eq!(app.events[0], "23:00:00  poll ok: mr (5 new)");
    let screen = draw(&app, &vec![], now());
    assert_eq!(screen.log.len(), 5);
    assert_eq!(screen.log[4], "23:00:00  poll ok: mr (104 new)");
    assert_eq!(screen.log[0], "23:00:00  poll ok: mr (100 new)");
}

#[test]
fn events_read_as_lines() {
    let line = |event: KnownEvent| describe(&event, now());
    let episode = || "162".parse().expect("valid id");
    assert_eq!(line(KnownEvent::PollStarted { show: show() }), "23:00:00  poll started: mr");
    assert_eq!(
        line(KnownEvent::PollFinished { show: show(), ok: false, new_episodes: 0 }),
        "23:00:00  poll FAILED: mr"
    );
    assert_eq!(
        line(KnownEvent::EpisodeDiscovered { show: show(), episode: episode() }),
        "23:00:00  discovered: mr/162"
    );
    assert_eq!(
        line(KnownEvent::DownloadFinished { show: show(), episode: episode(), error: None }),
        "23:00:00  downloaded: mr/162"
    );
    assert_eq!(
        line(KnownEvent::DownloadFinished {
            show: show(),
            episode: episode(),
            error: Some(ErrorClass::Disk),
        }),
        "23:00:00  download FAILED (disk): mr/162"
    );
    assert_eq!(
        line(KnownEvent::Pruned { show: show(), episodes: 2, bytes_freed: 1_500_000 }),
        "23:00:00  pruned: mr (2 episode(s), 1.50 MB freed)"
    );
    assert_eq!(
        line(KnownEvent::Quarantined { provider: "difm".into(), path: Some("/q/x.json".into()) }),
        "23:00:00  QUARANTINED (difm): /q/x.json"
    );
    assert_eq!(
        line(KnownEvent::Quarantined { provider: "difm".into(), path: None }),
        "23:00:00  QUARANTINED (difm): <write failed>"
    );
}

#[test]
fn keys_do_what_the_footer_says() {
    let mut two = fake_report();
    two.shows.push(fake_report().shows.remove(0));
    let mut app = app(two);
    assert_eq!(app.pressed(Key::Down), Next::Draw);
    assert_eq!(app.selected, 1);
    assert_eq!(app.pressed(Key::Char('j')), Next::Draw);
    assert_eq!(app.selected, 1);
    assert_eq!(app.pressed(Key::Char('k')), Next::Draw);
    assert_eq!(app.selected, 0);
    assert_eq!(app.pressed(Key::Up), Next::Draw);
    assert_eq!(app.selected, 0);
    assert_eq!(app.pressed(Key::Char('r')), Next::Refresh);
    assert_eq!(app.pressed(Key::Char('q')), Next::Quit);
    assert_eq!(app.pressed(Key::Esc), Next::Quit);
    assert_eq!(app.pressed(Key::Control('c')), Next::Quit);
    assert_eq!(app.pressed(Key::Char('c')), Next::Draw);
    assert_eq!(app.pressed(Key::Other), Next::Draw);
    app.pressed(Key::Down);
    app.refreshed(fake_report());
    assert_eq!(app.selected, 0, "the selection follows a shrinking report");
}

#[test]
fn only_compatible_daemons_are_followed() {
    let greeting = |version| Hello { protocol_version: version, daemon_version: "x".into() };
    assert!(compatible(&Some(greeting(PROTOCOL_VERSION))));
    assert!(!compatible(&Some(greeting(PROTOCOL_VERSION + 1))));
    assert!(!compatible(&None));
}

#[test]
fn unknown_lines_are_ignored() {
    assert!(matches!(
        incoming(Some(Response::Snapshot(vitals())), None),
        Some(Live::Snapshot(_))
    ));
    let event = KnownEvent::PollStarted { show: show() };
    assert!(matches!(
        incoming(None, Some(Event::Known(event))),
        Some(Live::Event(_))
    ));
    let newer = Event::Unknown("{\"event\":\"warp_core_breach\"}".into());
    assert!(incoming(None, Some(newer)).is_none());
    let refused = Response::Error { message: "no".into() };
    assert!(incoming(Some(refused), None).is_none());
}
