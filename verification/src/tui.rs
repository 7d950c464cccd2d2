//! The live status view (`splicefeed status --watch`): its state, what
//! keys and the daemon's messages do to it, and what it shows.
//!
//! The view works whether or not a daemon runs. With a daemon it gains
//! vitals in the header, a rolling event log, and refreshes driven by
//! events.

use vstd::prelude::*;

use crate::cli::{count_kind, kind_count, Kind};
use crate::domain::{error_class_text, EpisodeState, ShowSlug};
use crate::human::{
    duration_or, duration_text, format_duration, format_size, opt_duration_text, opt_size_text,
    size_or, size_text,
};
use crate::ipc::{Event, Hello, KnownEvent, Response, Snapshot, PROTOCOL_VERSION};
use crate::report::{EpisodeStatus, ShowStatus, StatusReport};
use crate::style::{
    add_span, banner, colored, dimmed, line2, line3, line4, line_model, plain, sp, span, span_of,
    strong, Color, Span, SpanModel,
};
use crate::text::{decimal, decimal_text, texts};
use crate::timestamp::{
    timestamp_formatted, Timestamp, NANOS_PER_SECOND, STAMP_CLOCK, STAMP_MINUTES,
};

verus! {

/// Rolling event log capacity.
pub const EVENT_LOG: usize = 100;

/// Seconds between refreshes.
pub const REFRESH_SECS: u64 = 2;

/// Progress written at least this long ago counts as stalled; writes come
/// about every second while bytes flow.
pub const STALL_AFTER_SECS: i128 = 10;

/// Height of the event log, borders and all.
pub const LOG_HEIGHT: u16 = 7;

/// How many events the log shows.
pub const LOG_LINES: usize = 5;

/// Everything the view needs.
#[derive(Debug)]
pub struct App {
    /// The current snapshot of the library.
    pub report: StatusReport,
    /// Index of the selected show.
    pub selected: usize,
    /// Daemon vitals from the control socket; `None` when no daemon runs.
    pub vitals: Option<Snapshot>,
    /// Rolling event log from the control socket, newest last.
    pub events: Vec<String>,
}

/// The last index of so many shows, zero when there are none.
pub open spec fn last_index(count: nat) -> nat {
    if count == 0 {
        0
    } else {
        (count - 1) as nat
    }
}

/// The smaller of two counts.
pub open spec fn least(a: nat, b: nat) -> nat {
    if a < b {
        a
    } else {
        b
    }
}

/// The log with one entry more; at capacity the oldest leaves.
pub open spec fn logged(events: Seq<Seq<char>>, entry: Seq<char>) -> Seq<Seq<char>> {
    if events.len() == EVENT_LOG {
        events.skip(1).push(entry)
    } else {
        events.push(entry)
    }
}

/// A log within its capacity stays within it and ends with the new entry.
pub proof fn law_log_is_bounded(events: Seq<Seq<char>>, entry: Seq<char>)
    requires
        events.len() <= EVENT_LOG,
    ensures
        logged(events, entry).len() <= EVENT_LOG,
        logged(events, entry).last() == entry,
{
}

/// What a key asks for.
#[derive(Debug, Clone, Copy, PartialEq, Eq, Structural)]
pub enum Key {
    /// A character.
    Char(char),
    /// A character with the control key held.
    Control(char),
    /// Escape.
    Esc,
    /// Arrow down.
    Down,
    /// Arrow up.
    Up,
    /// Anything else.
    Other,
}

/// What the loop does next.
#[derive(Debug, Clone, Copy, PartialEq, Eq, Structural)]
pub enum Next {
    /// Draw and wait.
    Draw,
    /// Take a fresh report, then draw.
    Refresh,
    /// End.
    Quit,
}

/// What a key does: `q`, escape and control-c quit, `r` refreshes.
/// Holding control changes nothing for the other keys.
pub open spec fn key_effect(key: Key) -> Next {
    match key {
        Key::Esc => Next::Quit,
        Key::Char(c) => if c == 'q' {
            Next::Quit
        } else if c == 'r' {
            Next::Refresh
        } else {
            Next::Draw
        },
        Key::Control(c) => if c == 'q' || c == 'c' {
            Next::Quit
        } else if c == 'r' {
            Next::Refresh
        } else {
            Next::Draw
        },
        _ => Next::Draw,
    }
}

/// Whether a key moves the selection down.
pub open spec fn moves_down(key: Key) -> bool {
    key == Key::Down || key == Key::Char('j') || key == Key::Control('j')
}

/// Whether a key moves the selection up.
pub open spec fn moves_up(key: Key) -> bool {
    key == Key::Up || key == Key::Char('k') || key == Key::Control('k')
}

/// The selection after a key.
pub open spec fn selection_after(key: Key, selected: nat, count: nat) -> nat {
    if moves_down(key) {
        least(selected + 1, last_index(count))
    } else if moves_up(key) {
        if selected == 0 {
            0
        } else {
            (selected - 1) as nat
        }
    } else {
        selected
    }
}

/// No key moves a selection out of bounds.
pub proof fn law_selection_stays_in_bounds(key: Key, selected: nat, count: nat)
    requires
        selected <= last_index(count),
    ensures
        selection_after(key, selected, count) <= last_index(count),
        count > 0 ==> selection_after(key, selected, count) < count,
{
}

/// What the control socket feeds the view.
#[derive(Debug)]
pub enum Live {
    /// The daemon's state.
    Snapshot(Snapshot),
    /// Something happened.
    Event(KnownEvent),
    /// The connection ended: the daemon stopped, or never ran.
    Gone,
}

/// Whether a daemon's greeting is one this client can talk to.
pub fn compatible(hello: &Option<Hello>) -> (yes: bool)
    ensures
        yes == match hello {
            Some(hello) => hello.protocol_version == PROTOCOL_VERSION,
            None => false,
        },
{
    match hello {
        Some(hello) => hello.protocol_version == PROTOCOL_VERSION,
        None => false,
    }
}

/// What a line from the daemon means, from what it parses as: a snapshot,
/// else an event that is understood, else nothing.
pub fn incoming(response: Option<Response>, event: Option<Event>) -> (live: Option<Live>)
    ensures
        live == match (response, event) {
            (Some(Response::Snapshot(snapshot)), _) => Some(Live::Snapshot(snapshot)),
            (_, Some(Event::Known(event))) => Some(Live::Event(event)),
            _ => None::<Live>,
        },
{
    match (response, event) {
        (Some(Response::Snapshot(snapshot)), _) => Some(Live::Snapshot(snapshot)),
        (_, Some(Event::Known(event))) => Some(Live::Event(event)),
        _ => None,
    }
}

/// What an event log line says of an event.
pub open spec fn event_text(event: KnownEvent) -> Seq<char> {
    match event {
        KnownEvent::PollStarted { show } => "poll started: "@ + show@,
        KnownEvent::PollFinished { show, ok, new_episodes } => if ok {
            "poll ok: "@ + show@ + " ("@ + decimal(new_episodes as nat) + " new)"@
        } else {
            "poll FAILED: "@ + show@
        },
        KnownEvent::EpisodeDiscovered { show, episode } => "discovered: "@ + show@ + "/"@
            + episode@,
        KnownEvent::DownloadFinished { show, episode, error } => match error {
            None => "downloaded: "@ + show@ + "/"@ + episode@,
            Some(class) => "download FAILED ("@ + error_class_text(class) + "): "@ + show@ + "/"@
                + episode@,
        },
        KnownEvent::Pruned { show, episodes, bytes_freed } => "pruned: "@ + show@ + " ("@
            + decimal(episodes as nat) + " episode(s), "@ + size_text(bytes_freed) + " freed)"@,
        KnownEvent::Quarantined { provider, path } => "QUARANTINED ("@ + provider@ + "): "@
            + match path {
            Some(path) => path@,
            None => "<write failed>"@,
        },
    }
}

/// One line of the event log.
pub open spec fn log_line(event: KnownEvent, now: Timestamp) -> Seq<char> {
    timestamp_formatted(now@, STAMP_CLOCK@) + "  "@ + event_text(event)
}

/// One line of the event log.
pub fn describe(event: &KnownEvent, now: Timestamp) -> (line: String)
    ensures
        line@ == log_line(*event, now),
{
    let mut what = String::new();
    match event {
        KnownEvent::PollStarted { show } => {
            what.append("poll started: ");
            what.append(show.as_str());
        },
        KnownEvent::PollFinished { show, ok, new_episodes } => {
            if *ok {
                what.append("poll ok: ");
                what.append(show.as_str());
                what.append(" (");
                what.append(decimal_text(*new_episodes as u64).as_str());
                what.append(" new)");
            } else {
                what.append("poll FAILED: ");
                what.append(show.as_str());
            }
        },
        KnownEvent::EpisodeDiscovered { show, episode } => {
            what.append("discovered: ");
            what.append(show.as_str());
            what.append("/");
            what.append(episode.as_str());
        },
        KnownEvent::DownloadFinished { show, episode, error } => {
            match error {
                None => {
                    what.append("downloaded: ");
                },
                Some(class) => {
                    what.append("download FAILED (");
                    what.append(class.as_str());
                    what.append("): ");
                },
            }
            what.append(show.as_str());
            what.append("/");
            what.append(episode.as_str());
        },
        KnownEvent::Pruned { show, episodes, bytes_freed } => {
            what.append("pruned: ");
            what.append(show.as_str());
            what.append(" (");
            what.append(decimal_text(*episodes as u64).as_str());
            what.append(" episode(s), ");
            what.append(format_size(*bytes_freed).as_str());
            what.append(" freed)");
        },
        KnownEvent::Quarantined { provider, path } => {
            what.append("QUARANTINED (");
            what.append(provider.as_str());
            what.append("): ");
            match path {
                Some(path) => {
                    what.append(path.as_str());
                },
                None => {
                    what.append("<write failed>");
                },
            }
        },
    }
    assert(what@ =~= event_text(*event));
    let mut line = now.stamp(STAMP_CLOCK);
    line.append("  ");
    line.append(what.as_str());
    line
}

impl App {
    /// A view of a report, before anything was heard of a daemon.
    pub fn new(report: StatusReport) -> (app: App)
        ensures
            app.report == report,
            app.selected == 0,
            app.vitals is None,
            app.events@.len() == 0,
    {
        App { report, selected: 0, vitals: None, events: Vec::new() }
    }

    /// Keep the selection on a show that exists.
    pub fn clamp(&mut self)
        ensures
            final(self).selected == least(
                old(self).selected as nat,
                last_index(old(self).report.shows@.len()),
            ),
            final(self).report == old(self).report,
            final(self).vitals == old(self).vitals,
            final(self).events == old(self).events,
    {
        let count: usize = self.report.shows.len();
        let last: usize = if count == 0 {
            0
        } else {
            count - 1
        };
        if self.selected > last {
            self.selected = last;
        }
    }

    /// Select the next show, if there is one.
    pub fn select_next(&mut self)
        ensures
            final(self).selected == least(
                old(self).selected as nat + 1,
                last_index(old(self).report.shows@.len()),
            ),
            final(self).report == old(self).report,
            final(self).vitals == old(self).vitals,
            final(self).events == old(self).events,
    {
        let count: usize = self.report.shows.len();
        let last: usize = if count == 0 {
            0
        } else {
            count - 1
        };
        if self.selected < last {
            self.selected = self.selected + 1;
        } else {
            self.selected = last;
        }
    }

    /// Select the previous show, if there is one.
    pub fn select_prev(&mut self)
        ensures
            final(self).selected == if old(self).selected == 0 {
                0
            } else {
                old(self).selected - 1
            },
            final(self).report == old(self).report,
            final(self).vitals == old(self).vitals,
            final(self).events == old(self).events,
    {
        if self.selected > 0 {
            self.selected = self.selected - 1;
        }
    }

    /// Take over a fresh report.
    pub fn refreshed(&mut self, report: StatusReport)
        ensures
            final(self).report == report,
            final(self).selected == least(
                old(self).selected as nat,
                last_index(report.shows@.len()),
            ),
            final(self).vitals == old(self).vitals,
            final(self).events == old(self).events,
    {
        self.report = report;
        self.clamp();
    }

    /// Add a line to the event log.
    pub fn log(&mut self, entry: String)
        ensures
            texts(final(self).events@) == logged(texts(old(self).events@), entry@),
            final(self).report == old(self).report,
            final(self).selected == old(self).selected,
            final(self).vitals == old(self).vitals,
    {
        if self.events.len() == EVENT_LOG {
            self.events.remove(0);
            assert(texts(self.events@) =~= texts(old(self).events@).skip(1));
        }
        let ghost before = texts(self.events@);
        self.events.push(entry);
        assert(texts(self.events@) =~= before.push(entry@));
    }

    /// Take in what the control socket said. An event means that state
    /// changed, so the report is taken afresh.
    pub fn heard(&mut self, live: Live, now: Timestamp) -> (next: Next)
        ensures
            final(self).report == old(self).report,
            final(self).selected == old(self).selected,
            match live {
                Live::Snapshot(snapshot) => {
                    &&& next == Next::Draw
                    &&& final(self).vitals == Some(snapshot)
                    &&& final(self).events == old(self).events
                },
                Live::Event(event) => {
                    &&& next == Next::Refresh
                    &&& final(self).vitals == old(self).vitals
                    &&& texts(final(self).events@) == logged(
                        texts(old(self).events@),
                        log_line(event, now),
                    )
                },
                Live::Gone => {
                    &&& next == Next::Draw
                    &&& final(self).vitals is None
                    &&& final(self).events == old(self).events
                },
            },
    {
        match live {
            Live::Snapshot(snapshot) => {
                self.vitals = Some(snapshot);
                Next::Draw
            },
            Live::Event(event) => {
                self.log(describe(&event, now));
                Next::Refresh
            },
            Live::Gone => {
                self.vitals = None;
                Next::Draw
            },
        }
    }

    /// Act on a key.
    pub fn pressed(&mut self, key: Key) -> (next: Next)
        ensures
            next == key_effect(key),
            final(self).selected == selection_after(
                key,
                old(self).selected as nat,
                old(self).report.shows@.len(),
            ),
            final(self).report == old(self).report,
            final(self).vitals == old(self).vitals,
            final(self).events == old(self).events,
    {
        match key {
            Key::Esc => Next::Quit,
            Key::Down => {
                self.select_next();
                Next::Draw
            },
            Key::Up => {
                self.select_prev();
                Next::Draw
            },
            Key::Char(c) | Key::Control(c) => {
                if c == 'q' {
                    return Next::Quit;
                }
                if c == 'c' {
                    return match key {
                        Key::Control(_) => Next::Quit,
                        _ => Next::Draw,
                    };
                }
                if c == 'r' {
                    return Next::Refresh;
                }
                if c == 'j' {
                    self.select_next();
                } else if c == 'k' {
                    self.select_prev();
                }
                Next::Draw
            },
            Key::Other => Next::Draw,
        }
    }
}

/// One in-flight download.
#[derive(Debug)]
pub struct ActiveDownload<'a> {
    /// The show.
    pub show: &'a ShowSlug,
    /// The episode.
    pub episode: &'a EpisodeStatus,
}

/// The downloads in flight among a show's episodes.
pub open spec fn active_in(show: ShowSlug, episodes: Seq<EpisodeStatus>) -> Seq<
    (ShowSlug, EpisodeStatus),
>
    decreases episodes.len(),
{
    if episodes.len() == 0 {
        Seq::empty()
    } else {
        let before = active_in(show, episodes.drop_last());
        if episodes.last().state is Downloading {
            before.push((show, episodes.last()))
        } else {
            before
        }
    }
}

/// The downloads in flight, show by show.
pub open spec fn active_of(shows: Seq<ShowStatus>) -> Seq<(ShowSlug, EpisodeStatus)>
    decreases shows.len(),
{
    if shows.len() == 0 {
        Seq::empty()
    } else {
        active_of(shows.drop_last()) + active_in(shows.last().slug, shows.last().episodes@)
    }
}

/// What a list of downloads stands for.
pub open spec fn active_model<'a>(active: Seq<ActiveDownload<'a>>) -> Seq<
    (ShowSlug, EpisodeStatus),
> {
    active.map_values(|a: ActiveDownload<'a>| (*a.show, *a.episode))
}

/// The downloads in flight, show by show.
pub fn active_downloads<'a>(report: &'a StatusReport) -> (active: Vec<ActiveDownload<'a>>)
    ensures
        active_model(active@) == active_of(report.shows@),
{
    let mut active: Vec<ActiveDownload<'a>> = Vec::new();
    let mut i: usize = 0;
    proof {
        assert(report.shows@.take(0) =~= Seq::empty());
        assert(active_model(active@) =~= Seq::empty());
    }
    while i < report.shows.len()
        invariant
            i <= report.shows@.len(),
            active_model(active@) == active_of(report.shows@.take(i as int)),
        decreases report.shows@.len() - i,
    {
        let show = &report.shows[i];
        let ghost before = active_model(active@);
        let mut k: usize = 0;
        proof {
            assert(show.episodes@.take(0) =~= Seq::empty());
            assert(before + active_in(show.slug, show.episodes@.take(0)) =~= before);
        }
        while k < show.episodes.len()
            invariant
                k <= show.episodes@.len(),
                active_model(active@) == before + active_in(
                    show.slug,
                    show.episodes@.take(k as int),
                ),
            decreases show.episodes@.len() - k,
        {
            let episode = &show.episodes[k];
            let ghost seen = show.episodes@.take(k as int);
            let ghost so_far = active_model(active@);
            proof {
                assert(show.episodes@.take(k + 1).drop_last() =~= seen);
                assert(show.episodes@.take(k + 1).last() == *episode);
            }
            match episode.state {
                EpisodeState::Downloading => {
                    active.push(ActiveDownload { show: &show.slug, episode });
                    proof {
                        assert(active_model(active@) =~= so_far.push((show.slug, *episode)));
                        assert(before + active_in(show.slug, seen).push((show.slug, *episode))
                            =~= so_far.push((show.slug, *episode)));
                    }
                },
                _ => {},
            }
            k += 1;
        }
        proof {
            assert(show.episodes@.take(show.episodes@.len() as int) =~= show.episodes@);
            assert(report.shows@.take(i + 1).drop_last() =~= report.shows@.take(i as int));
            assert(report.shows@.take(i + 1).last() == *show);
        }
        i += 1;
    }
    assert(report.shows@.take(report.shows@.len() as int) =~= report.shows@);
    active
}

/// The bytes a percentage is taken of, when both are known and there is
/// something to take it of.
pub open spec fn ratio_of(episode: EpisodeStatus) -> Option<(u64, u64)> {
    match (episode.bytes_done, episode.bytes_total) {
        (Some(done), Some(total)) => if total > 0 {
            Some((done, total))
        } else {
            None
        },
        _ => None,
    }
}

/// Bytes done and bytes expected of a download.
pub fn ratio(episode: &EpisodeStatus) -> (ratio: Option<(u64, u64)>)
    ensures
        ratio == ratio_of(*episode),
{
    match (episode.bytes_done, episode.bytes_total) {
        (Some(done), Some(total)) => if total > 0 {
            Some((done, total))
        } else {
            None
        },
        _ => None,
    }
}

/// Whether a download has stalled: no progress on record, or none for
/// long.
pub open spec fn is_stalled(progress_at: Option<Timestamp>, now: Timestamp) -> bool {
    match progress_at {
        Some(at) => now@ - at@ >= STALL_AFTER_SECS * NANOS_PER_SECOND,
        None => true,
    }
}

/// Whether a download has stalled.
pub fn stalled(progress_at: Option<Timestamp>, now: Timestamp) -> (yes: bool)
    ensures
        yes == is_stalled(progress_at, now),
{
    match progress_at {
        Some(at) => {
            let later: i128 = now.nanos();
            let earlier: i128 = at.nanos();
            later - earlier >= STALL_AFTER_SECS * NANOS_PER_SECOND
        },
        None => true,
    }
}

/// How many episodes of a show are cached, and how many failed.
pub fn count_states(show: &ShowStatus) -> (counts: (usize, usize))
    ensures
        counts.0 == kind_count(show.episodes@, Kind::Cached),
        counts.1 == kind_count(show.episodes@, Kind::Failed),
{
    (count_kind(&show.episodes, Kind::Cached), count_kind(&show.episodes, Kind::Failed))
}

/// How wide a column is.
#[derive(Debug, Clone, Copy, PartialEq, Eq, Structural)]
pub enum Width {
    /// At least this wide.
    Min(u16),
    /// Exactly this wide.
    Length(u16),
}

/// A table row.
#[derive(Debug)]
pub struct Row {
    /// Its cells.
    pub cells: Vec<Span>,
    /// Whether the row is the selected one.
    pub selected: bool,
}

/// A row as a mathematical value.
#[verifier::ext_equal]
pub struct RowModel {
    /// Its cells.
    pub cells: Seq<SpanModel>,
    /// Whether the row is the selected one.
    pub selected: bool,
}

impl View for Row {
    type V = RowModel;

    open spec fn view(&self) -> RowModel {
        RowModel { cells: line_model(self.cells@), selected: self.selected }
    }
}

/// Rows as a mathematical value.
pub open spec fn rows_model(rows: Seq<Row>) -> Seq<RowModel> {
    rows.map_values(|r: Row| r@)
}

/// A titled table.
#[derive(Debug)]
pub struct Panel {
    /// The title in its border.
    pub title: String,
    /// The column names; empty when none are shown.
    pub columns: Vec<&'static str>,
    /// The column widths.
    pub widths: Vec<Width>,
    /// The rows.
    pub rows: Vec<Row>,
}

/// A table as a mathematical value.
#[verifier::ext_equal]
pub struct PanelModel {
    /// The title in its border.
    pub title: Seq<char>,
    /// The column names.
    pub columns: Seq<Seq<char>>,
    /// The column widths.
    pub widths: Seq<Width>,
    /// The rows.
    pub rows: Seq<RowModel>,
}

impl View for Panel {
    type V = PanelModel;

    open spec fn view(&self) -> PanelModel {
        PanelModel {
            title: self.title@,
            columns: self.columns@.map_values(|c: &'static str| c@),
            widths: self.widths@,
            rows: rows_model(self.rows@),
        }
    }
}

/// The percentage cell of a download: the percentage where there is one.
pub open spec fn percent_text(episode: EpisodeStatus, percent: Option<Seq<char>>) -> Seq<char> {
    match (ratio_of(episode), percent) {
        (Some(_), Some(percent)) => percent,
        _ => "  ?%"@,
    }
}

/// The row of a download.
pub open spec fn download_row_model(
    download: (ShowSlug, EpisodeStatus),
    percent: Option<Seq<char>>,
    now: Timestamp,
) -> RowModel {
    let episode = download.1;
    RowModel {
        cells: seq![
            sp(download.0@ + "/"@ + episode.id@, plain()),
            sp(percent_text(episode, percent), colored(Color::Yellow)),
            sp(
                opt_size_text(episode.bytes_done, "?"@) + " / "@ + opt_size_text(
                    episode.bytes_total,
                    "?"@,
                ),
                plain(),
            ),
            if is_stalled(episode.progress_at, now) {
                sp("stalled"@, strong(Color::Red))
            } else {
                sp("active"@, colored(Color::Green))
            },
        ],
        selected: false,
    }
}

/// The text for an index, where there is one.
pub open spec fn text_at(list: Seq<Seq<char>>, i: int) -> Option<Seq<char>> {
    if 0 <= i < list.len() {
        Some(list[i])
    } else {
        None
    }
}

/// The downloads panel. The percentages belong to the downloads in order.
pub open spec fn downloads_model(
    report: StatusReport,
    percents: Seq<Seq<char>>,
    now: Timestamp,
) -> PanelModel {
    let active = active_of(report.shows@);
    PanelModel {
        title: "downloads ("@ + decimal(
            least(active.len(), report.download_concurrency as nat),
        ) + "/"@ + decimal(report.download_concurrency as nat) + " slots)"@,
        columns: Seq::empty(),
        widths: seq![Width::Min(24), Width::Length(5), Width::Length(24), Width::Length(8)],
        rows: Seq::new(
            active.len(),
            |i: int| download_row_model(active[i], text_at(percents, i), now),
        ),
    }
}

fn download_row<'a>(
    download: &ActiveDownload<'a>,
    percents: &Vec<String>,
    i: usize,
    now: Timestamp,
) -> (row: Row)
    ensures
        row@ == download_row_model(
            (*download.show, *download.episode),
            text_at(texts(percents@), i as int),
            now,
        ),
{
    let mut name = download.show.to_string();
    name.append("/");
    name.append(download.episode.id.as_str());
    let percent = match ratio(download.episode) {
        Some(_) if i < percents.len() => percents[i].clone(),
        _ => "  ?%".to_owned(),
    };
    let mut bytes = size_or(download.episode.bytes_done, "?");
    bytes.append(" / ");
    bytes.append(size_or(download.episode.bytes_total, "?").as_str());
    let health = if stalled(download.episode.progress_at, now) {
        span("stalled", strong(Color::Red))
    } else {
        span("active", colored(Color::Green))
    };
    Row {
        cells: line4(
            span_of(name, plain()),
            span_of(percent, colored(Color::Yellow)),
            span_of(bytes, plain()),
            health,
        ),
        selected: false,
    }
}

/// The downloads panel.
pub fn draw_downloads(report: &StatusReport, percents: &Vec<String>, now: Timestamp) -> (panel:
    Panel)
    ensures
        panel@ == downloads_model(*report, texts(percents@), now),
{
    let active = active_downloads(report);
    let ghost model = downloads_model(*report, texts(percents@), now);
    let mut rows: Vec<Row> = Vec::new();
    let mut i: usize = 0;
    while i < active.len()
        invariant
            i <= active@.len(),
            active_model(active@) == active_of(report.shows@),
            model == downloads_model(*report, texts(percents@), now),
            rows@.len() == i,
            forall|k: int| 0 <= k < i ==> (#[trigger] rows@[k])@ == model.rows[k],
        decreases active@.len() - i,
    {
        let row = download_row(&active[i], percents, i, now);
        assert(active_model(active@)[i as int] == (*active@[i as int].show, *active@[i as int].episode));
        rows.push(row);
        i += 1;
    }
    let slots: usize = report.download_concurrency;
    let busy: usize = if active.len() < slots {
        active.len()
    } else {
        slots
    };
    let mut title = "downloads (".to_owned();
    title.append(decimal_text(busy as u64).as_str());
    title.append("/");
    title.append(decimal_text(slots as u64).as_str());
    title.append(" slots)");
    let mut widths: Vec<Width> = Vec::new();
    widths.push(Width::Min(24));
    widths.push(Width::Length(5));
    widths.push(Width::Length(24));
    widths.push(Width::Length(8));
    let panel = Panel { title, columns: Vec::new(), widths, rows };
    proof {
        assert(active_model(active@).len() == active@.len());
        assert(panel@.rows =~= model.rows);
        assert(panel@.columns =~= model.columns);
        assert(panel@ =~= model);
    }
    panel
}

/// An instant to the minute.
pub open spec fn minute_stamp(at: Timestamp) -> Seq<char> {
    timestamp_formatted(at@, STAMP_MINUTES@)
}

/// The poll cell of a show.
pub open spec fn poll_cell_model(show: ShowStatus) -> SpanModel {
    match (show.last_poll_at, show.last_poll_ok) {
        (Some(at), Some(true)) => sp(minute_stamp(at), colored(Color::Green)),
        (Some(at), Some(false)) => sp(minute_stamp(at) + " FAILED"@, strong(Color::Red)),
        _ => sp("never polled"@, colored(Color::Yellow)),
    }
}

/// The row of a show.
pub open spec fn show_row_model(show: ShowStatus, selected: bool) -> RowModel {
    let cached = kind_count(show.episodes@, Kind::Cached);
    let failed = kind_count(show.episodes@, Kind::Failed);
    RowModel {
        cells: seq![
            sp(show.slug@, plain()),
            poll_cell_model(show),
            sp(
                decimal(cached) + " ("@ + size_text(show.cached_bytes) + ")"@,
                colored(Color::Green),
            ),
            sp(
                decimal(failed),
                if failed > 0 {
                    colored(Color::Red)
                } else {
                    dimmed()
                },
            ),
        ],
        selected,
    }
}

/// The shows panel.
pub open spec fn shows_panel_model(shows: Seq<ShowStatus>, selected: int) -> PanelModel {
    PanelModel {
        title: "shows"@,
        columns: seq!["show"@, "last poll"@, "cached"@, "failed"@],
        widths: seq![Width::Min(20), Width::Length(28), Width::Length(18), Width::Length(8)],
        rows: Seq::new(shows.len(), |i: int| show_row_model(shows[i], i == selected)),
    }
}

fn show_row(show: &ShowStatus, selected: bool) -> (row: Row)
    ensures
        row@ == show_row_model(*show, selected),
{
    let (cached, failed) = count_states(show);
    let poll = match (&show.last_poll_at, show.last_poll_ok) {
        (Some(at), Some(true)) => span_of(at.stamp(STAMP_MINUTES), colored(Color::Green)),
        (Some(at), Some(false)) => {
            let mut text = at.stamp(STAMP_MINUTES);
            text.append(" FAILED");
            span_of(text, strong(Color::Red))
        },
        _ => span("never polled", colored(Color::Yellow)),
    };
    let mut stored = decimal_text(cached as u64);
    stored.append(" (");
    stored.append(format_size(show.cached_bytes).as_str());
    stored.append(")");
    let failures = if failed > 0 {
        span_of(decimal_text(failed as u64), colored(Color::Red))
    } else {
        span_of(decimal_text(failed as u64), dimmed())
    };
    Row {
        cells: line4(
            span(show.slug.as_str(), plain()),
            poll,
            span_of(stored, colored(Color::Green)),
            failures,
        ),
        selected,
    }
}

/// The shows panel.
pub fn draw_shows(app: &App) -> (panel: Panel)
    ensures
        panel@ == shows_panel_model(app.report.shows@, app.selected as int),
{
    let ghost model = shows_panel_model(app.report.shows@, app.selected as int);
    let mut rows: Vec<Row> = Vec::new();
    let mut i: usize = 0;
    while i < app.report.shows.len()
        invariant
            i <= app.report.shows@.len(),
            model == shows_panel_model(app.report.shows@, app.selected as int),
            rows@.len() == i,
            forall|k: int| 0 <= k < i ==> (#[trigger] rows@[k])@ == model.rows[k],
        decreases app.report.shows@.len() - i,
    {
        rows.push(show_row(&app.report.shows[i], i == app.selected));
        i += 1;
    }
    let mut columns: Vec<&'static str> = Vec::new();
    columns.push("show");
    columns.push("last poll");
    columns.push("cached");
    columns.push("failed");
    let mut widths: Vec<Width> = Vec::new();
    widths.push(Width::Min(20));
    widths.push(Width::Length(28));
    widths.push(Width::Length(18));
    widths.push(Width::Length(8));
    let panel = Panel { title: "shows".to_owned(), columns, widths, rows };
    proof {
        assert(panel@.rows =~= model.rows);
        assert(panel@.columns =~= model.columns);
        assert(panel@ =~= model);
    }
    panel
}

/// The state cell of an episode.
pub open spec fn state_cell_model(state: EpisodeState) -> SpanModel {
    match state {
        EpisodeState::Cached => sp("cached"@, colored(Color::Green)),
        EpisodeState::Discovered => sp("discovered"@, dimmed()),
        EpisodeState::Downloading => sp("downloading"@, colored(Color::Yellow)),
        EpisodeState::Pruned => sp("pruned"@, dimmed()),
        EpisodeState::Failed(_) => sp("failed"@, colored(Color::Red)),
    }
}

/// The row of an episode.
pub open spec fn episode_row_model(episode: EpisodeStatus) -> RowModel {
    RowModel {
        cells: seq![
            sp(episode.id@, plain()),
            state_cell_model(episode.state),
            sp(opt_size_text(episode.bytes, "—"@), plain()),
            sp(opt_duration_text(episode.duration_secs, "—"@), plain()),
            sp(
                match episode.downloaded_at {
                    Some(at) => minute_stamp(at),
                    None => "—"@,
                },
                plain(),
            ),
            sp(
                match episode.description {
                    Some(description) => description@,
                    None => "—"@,
                },
                dimmed(),
            ),
        ],
        selected: false,
    }
}

/// The episodes panel of a show.
pub open spec fn episodes_panel_model(show: ShowStatus) -> PanelModel {
    PanelModel {
        title: "episodes — "@ + show.slug@,
        columns: seq![
            "episode"@,
            "state"@,
            "size"@,
            "length"@,
            "downloaded"@,
            "description"@,
        ],
        widths: seq![
            Width::Length(10),
            Width::Length(12),
            Width::Length(12),
            Width::Length(10),
            Width::Length(17),
            Width::Min(16),
        ],
        rows: show.episodes@.map_values(|e: EpisodeStatus| episode_row_model(e)),
    }
}

fn episode_row(episode: &EpisodeStatus) -> (row: Row)
    ensures
        row@ == episode_row_model(*episode),
{
    let state = match episode.state {
        EpisodeState::Cached => span("cached", colored(Color::Green)),
        EpisodeState::Discovered => span("discovered", dimmed()),
        EpisodeState::Downloading => span("downloading", colored(Color::Yellow)),
        EpisodeState::Pruned => span("pruned", dimmed()),
        EpisodeState::Failed(_) => span("failed", colored(Color::Red)),
    };
    let downloaded = match &episode.downloaded_at {
        Some(at) => at.stamp(STAMP_MINUTES),
        None => "—".to_owned(),
    };
    let description = match &episode.description {
        Some(description) => description.clone(),
        None => "—".to_owned(),
    };
    let mut cells = line3(
        span(episode.id.as_str(), plain()),
        state,
        span_of(size_or(episode.bytes, "—"), plain()),
    );
    add_span(&mut cells, span_of(duration_or(episode.duration_secs, "—"), plain()));
    add_span(&mut cells, span_of(downloaded, plain()));
    add_span(&mut cells, span_of(description, dimmed()));
    let row = Row { cells, selected: false };
    assert(row@.cells =~= episode_row_model(*episode).cells);
    row
}

/// The episodes panel of a show.
pub fn draw_episodes(show: &ShowStatus) -> (panel: Panel)
    ensures
        panel@ == episodes_panel_model(*show),
{
    let ghost model = episodes_panel_model(*show);
    let mut rows: Vec<Row> = Vec::new();
    let mut i: usize = 0;
    while i < show.episodes.len()
        invariant
            i <= show.episodes@.len(),
            model == episodes_panel_model(*show),
            rows@.len() == i,
            forall|k: int| 0 <= k < i ==> (#[trigger] rows@[k])@ == model.rows[k],
        decreases show.episodes@.len() - i,
    {
        rows.push(episode_row(&show.episodes[i]));
        i += 1;
    }
    let mut title = "episodes — ".to_owned();
    title.append(show.slug.as_str());
    let mut columns: Vec<&'static str> = Vec::new();
    columns.push("episode");
    columns.push("state");
    columns.push("size");
    columns.push("length");
    columns.push("downloaded");
    columns.push("description");
    let mut widths: Vec<Width> = Vec::new();
    widths.push(Width::Length(10));
    widths.push(Width::Length(12));
    widths.push(Width::Length(12));
    widths.push(Width::Length(10));
    widths.push(Width::Length(17));
    widths.push(Width::Min(16));
    let panel = Panel { title, columns, widths, rows };
    proof {
        assert(panel@.rows =~= model.rows);
        assert(panel@.columns =~= model.columns);
        assert(panel@ =~= model);
    }
    panel
}

/// The middle of the screen.
#[derive(Debug)]
pub enum Episodes {
    /// The episodes of the selected show.
    Table(Panel),
    /// There is no show to select.
    Hint(Span),
}

/// One frame.
#[derive(Debug)]
pub struct Screen {
    /// The top line.
    pub header: Vec<Span>,
    /// The downloads panel, while anything downloads.
    pub downloads: Option<Panel>,
    /// Lines the downloads panel gets.
    pub downloads_height: u16,
    /// The shows panel.
    pub shows: Panel,
    /// Lines the shows panel gets.
    pub shows_height: u16,
    /// The episodes panel.
    pub episodes: Episodes,
    /// What the event log shows, oldest first.
    pub log: Vec<String>,
    /// Lines the event log gets.
    pub log_height: u16,
    /// The bottom line.
    pub footer: Span,
}

/// What the header says of the daemon.
pub open spec fn vitals_text(vitals: Option<Snapshot>) -> Seq<char> {
    match vitals {
        Some(snapshot) => " · daemon up "@ + duration_text(snapshot.uptime_secs) + " · "@
            + decimal(snapshot.http_requests as nat) + " http req"@,
        None => " · daemon offline"@,
    }
}

/// The top line.
pub open spec fn header_model(app: App) -> Seq<SpanModel> {
    seq![
        sp(" splicefeed "@, banner()),
        sp(
            " "@ + decimal(app.report.total_files as nat) + " file(s) · "@ + size_text(
                app.report.total_bytes,
            ) + " · "@ + decimal(app.report.download_concurrency as nat) + " download slot(s)"@
                + vitals_text(app.vitals),
            plain(),
        ),
    ]
}

/// Whether the event log shows: with a daemon, or once it holds anything.
pub open spec fn shows_log(app: App) -> bool {
    app.vitals is Some || app.events@.len() > 0
}

/// The most recent entries, in order.
pub open spec fn recent(events: Seq<Seq<char>>) -> Seq<Seq<char>> {
    if events.len() > LOG_LINES {
        events.skip(events.len() - LOG_LINES)
    } else {
        events
    }
}

/// What a frame holds.
pub open spec fn is_frame(
    screen: Screen,
    app: App,
    percents: Seq<Seq<char>>,
    now: Timestamp,
) -> bool {
    let active = active_of(app.report.shows@).len();
    let shows = app.report.shows@;
    &&& line_model(screen.header@) == header_model(app)
    &&& screen.downloads_height == if active == 0 {
        0
    } else {
        least(active + 2, 6)
    }
    &&& match screen.downloads {
        Some(panel) => active > 0 && panel@ == downloads_model(app.report, percents, now),
        None => active == 0,
    }
    &&& screen.shows@ == shows_panel_model(shows, app.selected as int)
    &&& screen.shows_height == least(shows.len() + 3, 12)
    &&& match screen.episodes {
        Episodes::Table(panel) => app.selected < shows.len() && panel@ == episodes_panel_model(
            shows[app.selected as int],
        ),
        Episodes::Hint(hint) => app.selected >= shows.len() && hint@ == sp(
            "no shows in storage yet — run `splicefeed run --once` first"@,
            colored(Color::Yellow),
        ),
    }
    &&& screen.log_height == if shows_log(app) {
        LOG_HEIGHT
    } else {
        0
    }
    &&& texts(screen.log@) == if shows_log(app) {
        recent(texts(app.events@))
    } else {
        Seq::empty()
    }
    &&& screen.footer@ == sp(" ↑/↓ select · r refresh · q quit"@, dimmed())
}

fn header(app: &App) -> (line: Vec<Span>)
    ensures
        line_model(line@) == header_model(*app),
{
    let mut vitals = String::new();
    match &app.vitals {
        Some(snapshot) => {
            vitals.append(" · daemon up ");
            vitals.append(format_duration(snapshot.uptime_secs).as_str());
            vitals.append(" · ");
            vitals.append(decimal_text(snapshot.http_requests).as_str());
            vitals.append(" http req");
        },
        None => {
            vitals.append(" · daemon offline");
        },
    }
    assert(vitals@ =~= vitals_text(app.vitals));
    let mut text = " ".to_owned();
    text.append(decimal_text(app.report.total_files as u64).as_str());
    text.append(" file(s) · ");
    text.append(format_size(app.report.total_bytes).as_str());
    text.append(" · ");
    text.append(decimal_text(app.report.download_concurrency as u64).as_str());
    text.append(" download slot(s)");
    text.append(vitals.as_str());
    line2(span(" splicefeed ", banner()), span_of(text, plain()))
}

fn recent_events(events: &Vec<String>) -> (lines: Vec<String>)
    ensures
        texts(lines@) == recent(texts(events@)),
{
    let from: usize = if events.len() > LOG_LINES {
        events.len() - LOG_LINES
    } else {
        0
    };
    let mut lines: Vec<String> = Vec::new();
    let mut i: usize = from;
    while i < events.len()
        invariant
            from <= i <= events@.len(),
            lines@.len() == i - from,
            forall|k: int| 0 <= k < i - from ==> (#[trigger] lines@[k])@ == events@[from + k]@,
        decreases events@.len() - i,
    {
        lines.push(events[i].clone());
        i += 1;
    }
    assert(texts(lines@) =~= recent(texts(events@)));
    lines
}

/// One frame of the view. The percentages belong to the downloads in
/// flight, in the order [`active_downloads`] lists them.
pub fn draw(app: &App, percents: &Vec<String>, now: Timestamp) -> (screen: Screen)
    ensures
        is_frame(screen, *app, texts(percents@), now),
{
    let active: usize = active_downloads(&app.report).len();
    proof {
        assert(active == active_of(app.report.shows@).len());
    }
    let downloads = if active == 0 {
        None
    } else {
        Some(draw_downloads(&app.report, percents, now))
    };
    let downloads_height: u16 = if active == 0 {
        0
    } else if active < 4 {
        active as u16 + 2
    } else {
        6
    };
    let count: usize = app.report.shows.len();
    let shows_height: u16 = if count < 9 {
        count as u16 + 3
    } else {
        12
    };
    let episodes = if app.selected < count {
        Episodes::Table(draw_episodes(&app.report.shows[app.selected]))
    } else {
        Episodes::Hint(
            span(
                "no shows in storage yet — run `splicefeed run --once` first",
                colored(Color::Yellow),
            ),
        )
    };
    let logs = app.vitals.is_some() || app.events.len() > 0;
    let log = if logs {
        recent_events(&app.events)
    } else {
        Vec::new()
    };
    assert(!logs ==> texts(log@) =~= Seq::empty());
    Screen {
        header: header(app),
        downloads,
        downloads_height,
        shows: draw_shows(app),
        shows_height,
        episodes,
        log,
        log_height: if logs {
            LOG_HEIGHT
        } else {
            0
        },
        footer: span(" ↑/↓ select · r refresh · q quit", dimmed()),
    }
}

/// The log keeps the latest entries, at most a hundred, oldest first: a new
/// one comes last, and only a full log loses one, its oldest.
pub proof fn law_the_log_keeps_the_latest(events: Seq<Seq<char>>, entry: Seq<char>, i: int)
    requires
        events.len() <= 100,
    ensures
        logged(events, entry).last() == entry,
        events.len() < 100 ==> logged(events, entry).len() == events.len() + 1,
        events.len() == 100 ==> logged(events, entry).len() == 100,
        0 < i < logged(events, entry).len() ==> logged(events, entry)[logged(events, entry).len()
            - 1 - i] == events[events.len() - i],
{
}

/// The log shows its last five lines, in order.
pub proof fn law_the_latest_are_shown(events: Seq<Seq<char>>, i: int)
    ensures
        events.len() <= 5 ==> recent(events) == events,
        events.len() > 5 ==> recent(events).len() == 5,
        0 <= i < recent(events).len() ==> recent(events)[recent(events).len() - 1 - i]
            == events[events.len() - 1 - i],
{
}

/// What the keys do: `q`, escape and control-c end the view, `r` asks for a
/// fresh report, and every other key only has it drawn again.
pub proof fn law_keys(key: Key)
    ensures
        key_effect(key) == Next::Quit <==> key == Key::Esc || key == Key::Char('q') || key
            == Key::Control('q') || key == Key::Control('c'),
        key_effect(key) == Next::Refresh <==> key == Key::Char('r') || key == Key::Control('r'),
{
}

/// Down goes to the next show and stays on the last, up goes to the one
/// before and stays on the first, and no other key moves.
pub proof fn law_moving_the_selection(key: Key, selected: nat, count: nat)
    requires
        selected < count,
    ensures
        ({
            let down = key == Key::Down || key == Key::Char('j') || key == Key::Control('j');
            let up = key == Key::Up || key == Key::Char('k') || key == Key::Control('k');
            &&& down && selected + 1 < count ==> selection_after(key, selected, count) == selected
                + 1
            &&& down && selected + 1 == count ==> selection_after(key, selected, count) == selected
            &&& up && selected > 0 ==> selection_after(key, selected, count) == selected - 1
            &&& up && selected == 0 ==> selection_after(key, selected, count) == 0
            &&& !down && !up ==> selection_after(key, selected, count) == selected
        }),
{
}

/// A selection beyond the shows that are left falls on the last of them;
/// any other stays.
pub proof fn law_clamping(selected: nat, count: nat)
    ensures
        selected < count ==> least(selected, last_index(count)) == selected,
        0 < count <= selected ==> least(selected, last_index(count)) == count - 1,
        count == 0 ==> least(selected, last_index(count)) == 0,
{
}

/// What the log says of a poll.
pub proof fn law_polls_are_logged(show: ShowSlug, new_episodes: u32)
    ensures
        event_text(KnownEvent::PollStarted { show }) == "poll started: "@ + show@,
        event_text(KnownEvent::PollFinished { show, ok: true, new_episodes }) == "poll ok: "@
            + show@ + " ("@ + decimal(new_episodes as nat) + " new)"@,
        event_text(KnownEvent::PollFinished { show, ok: false, new_episodes }) == "poll FAILED: "@
            + show@,
{
}

/// What the log says of an episode: a download that ended with an error is
/// logged as failed, with the kind of the error.
pub proof fn law_downloads_are_logged(
    show: ShowSlug,
    episode: crate::domain::EpisodeId,
    class: crate::domain::ErrorClass,
)
    ensures
        event_text(KnownEvent::EpisodeDiscovered { show, episode }) == "discovered: "@ + show@
            + "/"@ + episode@,
        event_text(KnownEvent::DownloadFinished { show, episode, error: None }) == "downloaded: "@
            + show@ + "/"@ + episode@,
        event_text(KnownEvent::DownloadFinished { show, episode, error: Some(class) })
            == "download FAILED ("@ + error_class_text(class) + "): "@ + show@ + "/"@ + episode@,
{
}

/// What the log says of pruned episodes and of payloads set aside.
pub proof fn law_losses_are_logged(event: KnownEvent)
    ensures
        event matches KnownEvent::Pruned { show, episodes, bytes_freed } ==> event_text(event)
            == "pruned: "@ + show@ + " ("@ + decimal(episodes as nat) + " episode(s), "@
            + size_text(bytes_freed) + " freed)"@,
        event matches KnownEvent::Quarantined { provider, path: Some(path) } ==> event_text(event)
            == "QUARANTINED ("@ + provider@ + "): "@ + path@,
        event matches KnownEvent::Quarantined { provider, path: None } ==> event_text(event)
            == "QUARANTINED ("@ + provider@ + "): "@ + "<write failed>"@,
{
}

/// A line of the log starts with the time of day.
pub proof fn law_log_lines_are_timed(event: KnownEvent, now: Timestamp)
    ensures
        log_line(event, now) == timestamp_formatted(now@, "%H:%M:%S"@) + "  "@ + event_text(event),
{
}

/// The downloads shown are those under way, show by show, in the order of
/// the report, each under the show it belongs to.
pub proof fn law_downloads_under_way(
    shows: Seq<ShowStatus>,
    show: ShowStatus,
    slug: ShowSlug,
    episodes: Seq<EpisodeStatus>,
    episode: EpisodeStatus,
)
    ensures
        active_of(Seq::empty()).len() == 0,
        active_of(shows.push(show)) == active_of(shows) + active_in(show.slug, show.episodes@),
        active_in(slug, Seq::empty()).len() == 0,
        episode.state is Downloading ==> active_in(slug, episodes.push(episode)) == active_in(
            slug,
            episodes,
        ).push((slug, episode)),
        !(episode.state is Downloading) ==> active_in(slug, episodes.push(episode)) == active_in(
            slug,
            episodes,
        ),
{
    assert(shows.push(show).drop_last() =~= shows);
    assert(episodes.push(episode).drop_last() =~= episodes);
}

/// How far a download has come is known where both sizes are and the whole
/// is not nothing.
pub proof fn law_known_progress(episode: EpisodeStatus)
    ensures
        ratio_of(episode) matches Some((done, total)) ==> episode.bytes_done == Some(done)
            && episode.bytes_total == Some(total) && total > 0,
        ratio_of(episode) is None ==> episode.bytes_done is None || episode.bytes_total is None
            || episode.bytes_total == Some(0u64),
{
}

/// A download stalls where nothing came for ten seconds, or nothing ever did.
pub proof fn law_stalled_downloads(at: Timestamp, now: Timestamp)
    ensures
        is_stalled(Some(at), now) <==> now@ >= at@ + 10_000_000_000,
        is_stalled(None, now),
{
}

/// A row of the downloads: which episode of which show, how far it has come
/// and whether it goes on.
pub proof fn law_download_rows(
    download: (ShowSlug, EpisodeStatus),
    percent: Option<Seq<char>>,
    now: Timestamp,
)
    ensures
        ({
            let cells = download_row_model(download, percent, now).cells;
            let known = download.1.bytes_done is Some && download.1.bytes_total is Some
                && download.1.bytes_total != Some(0u64);
            let done = match download.1.bytes_done {
                Some(bytes) => size_text(bytes),
                None => "?"@,
            };
            let total = match download.1.bytes_total {
                Some(bytes) => size_text(bytes),
                None => "?"@,
            };
            &&& cells.len() == 4
            &&& cells[0].text == download.0@ + "/"@ + download.1.id@
            &&& percent matches Some(percent) ==> known ==> cells[1].text == percent
            &&& !known || percent is None ==> cells[1].text == "  ?%"@
            &&& cells[2].text == done + " / "@ + total
            &&& is_stalled(download.1.progress_at, now) ==> cells[3].text == "stalled"@
                && cells[3].style.color == Color::Red
            &&& !is_stalled(download.1.progress_at, now) ==> cells[3].text == "active"@
                && cells[3].style.color == Color::Green
            &&& !download_row_model(download, percent, now).selected
        }),
{
}

/// The downloads have one row each, in order, each with its own percentage,
/// under a title that says how many of the slots are taken, never more than
/// there are.
pub proof fn law_the_downloads_panel(
    report: StatusReport,
    percents: Seq<Seq<char>>,
    now: Timestamp,
    i: int,
)
    requires
        0 <= i < active_of(report.shows@).len(),
    ensures
        ({
            let panel = downloads_model(report, percents, now);
            let active = active_of(report.shows@);
            let slots = report.download_concurrency;
            &&& panel.rows.len() == active.len()
            &&& i < percents.len() ==> panel.rows[i] == download_row_model(
                active[i],
                Some(percents[i]),
                now,
            )
            &&& i >= percents.len() ==> panel.rows[i] == download_row_model(active[i], None, now)
            &&& active.len() <= slots ==> panel.title == "downloads ("@ + decimal(active.len())
                + "/"@ + decimal(slots as nat) + " slots)"@
            &&& active.len() > slots ==> panel.title == "downloads ("@ + decimal(slots as nat)
                + "/"@ + decimal(slots as nat) + " slots)"@
            &&& panel.columns.len() == 0
        }),
{
}

/// When a show was last polled, in green where that worked and in red where
/// it did not.
pub proof fn law_poll_cells(show: ShowStatus)
    ensures
        match (show.last_poll_at, show.last_poll_ok) {
            (Some(at), Some(ok)) => {
                &&& poll_cell_model(show).text == if ok {
                    timestamp_formatted(at@, "%Y-%m-%d %H:%M"@)
                } else {
                    timestamp_formatted(at@, "%Y-%m-%d %H:%M"@) + " FAILED"@
                }
                &&& poll_cell_model(show).style.color == if ok {
                    Color::Green
                } else {
                    Color::Red
                }
            },
            _ => poll_cell_model(show).text == "never polled"@ && poll_cell_model(show).style.color
                == Color::Yellow,
        },
{
}

/// A show's row: its slug, its last poll, how many episodes are on disk and
/// how large they are, and how many failed.
pub proof fn law_show_rows(show: ShowStatus, selected: bool)
    ensures
        ({
            let row = show_row_model(show, selected);
            let cached = show.episodes@.filter(|e: EpisodeStatus| e.state is Cached).len();
            let failed = show.episodes@.filter(|e: EpisodeStatus| e.state is Failed).len();
            &&& row.cells.len() == 4
            &&& row.cells[0].text == show.slug@
            &&& row.cells[1] == poll_cell_model(show)
            &&& row.cells[2].text == decimal(cached) + " ("@ + size_text(show.cached_bytes) + ")"@
            &&& row.cells[3].text == decimal(failed)
            &&& row.cells[3].style.color == Color::Red <==> failed > 0
            &&& row.selected == selected
        }),
{
    crate::cli::law_states_are_counted(show.episodes@);
}

/// The shows have one row each, in the order of the report, under the names
/// of the columns; only the selected one is marked.
pub proof fn law_the_shows_panel(shows: Seq<ShowStatus>, selected: int, i: int)
    requires
        0 <= i < shows.len(),
    ensures
        shows_panel_model(shows, selected).title == "shows"@,
        shows_panel_model(shows, selected).columns == seq![
            "show"@,
            "last poll"@,
            "cached"@,
            "failed"@,
        ],
        shows_panel_model(shows, selected).rows.len() == shows.len(),
        i == selected ==> shows_panel_model(shows, selected).rows[i] == show_row_model(
            shows[i],
            true,
        ),
        i != selected ==> shows_panel_model(shows, selected).rows[i] == show_row_model(
            shows[i],
            false,
        ),
{
}

/// How a state is shown; a failure is red, and nothing else is.
pub proof fn law_state_cells(state: EpisodeState)
    ensures
        state_cell_model(state).text == "cached"@ <== state is Cached,
        state_cell_model(state).text == "discovered"@ <== state is Discovered,
        state_cell_model(state).text == "downloading"@ <== state is Downloading,
        state_cell_model(state).text == "pruned"@ <== state is Pruned,
        state_cell_model(state).text == "failed"@ <== state is Failed,
        state_cell_model(state).style.color == Color::Red <==> state is Failed,
{
}

/// An episode's row: its id, its state, its size, its length, when it was
/// downloaded and its description, with a dash for what is not known.
pub proof fn law_episode_rows(episode: EpisodeStatus)
    ensures
        ({
            let cells = episode_row_model(episode).cells;
            &&& cells.len() == 6
            &&& cells[0].text == episode.id@
            &&& cells[1] == state_cell_model(episode.state)
            &&& cells[2].text == match episode.bytes {
                Some(bytes) => size_text(bytes),
                None => "—"@,
            }
            &&& cells[3].text == match episode.duration_secs {
                Some(secs) => duration_text(secs as u64),
                None => "—"@,
            }
            &&& cells[4].text == match episode.downloaded_at {
                Some(at) => timestamp_formatted(at@, "%Y-%m-%d %H:%M"@),
                None => "—"@,
            }
            &&& cells[5].text == match episode.description {
                Some(description) => description@,
                None => "—"@,
            }
            &&& !episode_row_model(episode).selected
        }),
{
}

/// A show's episodes have one row each, in the order of the report, under
/// the names of the columns and a title that names the show.
pub proof fn law_the_episodes_panel(show: ShowStatus, i: int)
    requires
        0 <= i < show.episodes@.len(),
    ensures
        episodes_panel_model(show).title == "episodes — "@ + show.slug@,
        episodes_panel_model(show).columns == seq![
            "episode"@,
            "state"@,
            "size"@,
            "length"@,
            "downloaded"@,
            "description"@,
        ],
        episodes_panel_model(show).rows.len() == show.episodes@.len(),
        episodes_panel_model(show).rows[i] == episode_row_model(show.episodes@[i]),
{
}

/// The header: how many files there are, how large they are, how many
/// downloads may run, and whether a daemon does.
pub proof fn law_the_header(app: App)
    ensures
        header_model(app).len() == 2,
        header_model(app)[0].text == " splicefeed "@,
        header_model(app)[1].text == " "@ + decimal(app.report.total_files as nat)
            + " file(s) · "@ + size_text(app.report.total_bytes) + " · "@ + decimal(
            app.report.download_concurrency as nat,
        ) + " download slot(s)"@ + match app.vitals {
            Some(vitals) => " · daemon up "@ + duration_text(vitals.uptime_secs) + " · "@ + decimal(
                vitals.http_requests as nat,
            ) + " http req"@,
            None => " · daemon offline"@,
        },
{
}

/// The screen: the downloads take room only while there are any, the
/// episodes are those of the selected show, and the log is there with a
/// daemon or with something to say.
pub proof fn law_the_screen(
    screen: Screen,
    app: App,
    percents: Seq<Seq<char>>,
    now: Timestamp,
)
    requires
        is_frame(screen, app, percents, now),
    ensures
        ({
            let active = active_of(app.report.shows@).len();
            let shows = app.report.shows@;
            &&& active == 0 <==> screen.downloads is None
            &&& active == 0 ==> screen.downloads_height == 0
            &&& 0 < active <= 4 ==> screen.downloads_height == active + 2
            &&& active > 4 ==> screen.downloads_height == 6
            &&& shows.len() <= 9 ==> screen.shows_height == shows.len() + 3
            &&& shows.len() > 9 ==> screen.shows_height == 12
            &&& app.selected < shows.len() ==> {
                &&& screen.episodes matches Episodes::Table(panel)
                &&& panel@.title == "episodes — "@ + shows[app.selected as int].slug@
                &&& panel@.rows.len() == shows[app.selected as int].episodes@.len()
            }
            &&& app.selected >= shows.len() ==> screen.episodes is Hint
            &&& app.vitals is None && app.events@.len() == 0 ==> screen.log_height == 0
                && screen.log@.len() == 0
            &&& app.vitals is Some || app.events@.len() > 0 ==> screen.log_height == 7 && texts(
                screen.log@,
            ) == recent(texts(app.events@))
            &&& screen.footer@.text == " ↑/↓ select · r refresh · q quit"@
        }),
{
    assert(texts(screen.log@).len() == screen.log@.len());
}

} // verus!
