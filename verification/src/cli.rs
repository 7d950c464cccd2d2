//! What the command line prints: the status report, the outcome of a
//! verification, and the findings of a probe.

use vstd::prelude::*;

use crate::config::{Config, ShowConfig};
use crate::domain::{
    error_class_text, is_slug, mime_text, redacted, redacted_text, AudioMime, AudioSource,
    EpisodeId, EpisodeMeta, EpisodeState, InvalidId, ShowMeta, ShowSlug,
};
use crate::human::{
    duration_or, format_size, opt_duration_text, opt_size_text, size_or, size_text,
};
use crate::library::{
    file_problem_text, find_config, show_config, unfixed_count, VerifyOutcome, VerifyReport,
};
use crate::providers::{provider_error_text, EpisodeListing, ProviderError};
use crate::report::{EpisodeStatus, ShowStatus, StatusReport};
use crate::rows::{debug_quoted, quoted};
use crate::style::{
    add_line, add_page, add_span, aside, blank, colored, dimmed, line1, line2, line3, line4,
    line_model, page_model, plain, reading, reads, sp, span, span_of, strong, Color, Span, SpanModel,
    Style,
};
use crate::text::{
    align_left, align_right, aligned_left, aligned_right, decimal, decimal_text, join, joined,
    repeat_glyph, repeated, texts,
};
use crate::timestamp::{timestamp_formatted, timestamp_text, Timestamp, STAMP_SECONDS};

verus! {

/// Width of the horizontal rules separating shows.
pub const RULE_WIDTH: usize = 72;

/// The kinds of lifecycle states that are counted.
#[derive(Debug, Clone, Copy, PartialEq, Eq, Structural)]
pub enum Kind {
    /// Discovered.
    Discovered,
    /// Downloading.
    Downloading,
    /// Cached.
    Cached,
    /// Pruned.
    Pruned,
    /// Failed, whatever the class.
    Failed,
}

/// The kind of a state.
pub open spec fn kind_of(state: EpisodeState) -> Kind {
    match state {
        EpisodeState::Discovered => Kind::Discovered,
        EpisodeState::Downloading => Kind::Downloading,
        EpisodeState::Cached => Kind::Cached,
        EpisodeState::Pruned => Kind::Pruned,
        EpisodeState::Failed(_) => Kind::Failed,
    }
}

/// How many episodes are of a kind.
pub open spec fn kind_count(episodes: Seq<EpisodeStatus>, kind: Kind) -> nat
    decreases episodes.len(),
{
    if episodes.len() == 0 {
        0
    } else {
        kind_count(episodes.drop_last(), kind) + if kind_of(episodes.last().state) == kind {
            1nat
        } else {
            0nat
        }
    }
}

/// Every episode is of exactly one kind.
pub proof fn law_kinds_add_up(episodes: Seq<EpisodeStatus>)
    ensures
        kind_count(episodes, Kind::Discovered) + kind_count(episodes, Kind::Downloading)
            + kind_count(episodes, Kind::Cached) + kind_count(episodes, Kind::Pruned) + kind_count(
            episodes,
            Kind::Failed,
        ) == episodes.len(),
    decreases episodes.len(),
{
    if episodes.len() > 0 {
        law_kinds_add_up(episodes.drop_last());
    }
}

fn kind(state: EpisodeState) -> (kind: Kind)
    ensures
        kind == kind_of(state),
{
    match state {
        EpisodeState::Discovered => Kind::Discovered,
        EpisodeState::Downloading => Kind::Downloading,
        EpisodeState::Cached => Kind::Cached,
        EpisodeState::Pruned => Kind::Pruned,
        EpisodeState::Failed(_) => Kind::Failed,
    }
}

/// How many episodes are of a kind.
pub fn count_kind(episodes: &Vec<EpisodeStatus>, wanted: Kind) -> (count: usize)
    ensures
        count == kind_count(episodes@, wanted),
{
    let mut count: usize = 0;
    let mut i: usize = 0;
    assert(episodes@.take(0) =~= Seq::empty());
    while i < episodes.len()
        invariant
            i <= episodes@.len(),
            count <= i,
            count == kind_count(episodes@.take(i as int), wanted),
        decreases episodes@.len() - i,
    {
        proof {
            assert(episodes@.take(i + 1).drop_last() =~= episodes@.take(i as int));
            assert(episodes@.take(i + 1).last() == episodes@[i as int]);
        }
        if kind(episodes[i].state) == wanted {
            count += 1;
        }
        i += 1;
    }
    assert(episodes@.take(episodes@.len() as int) =~= episodes@);
    count
}

/// A horizontal rule.
pub open spec fn rule_model(glyph: char) -> Seq<SpanModel> {
    seq![sp(repeated(glyph, RULE_WIDTH as nat), dimmed())]
}

fn rule(glyph: char) -> (line: Vec<Span>)
    ensures
        line_model(line@) == rule_model(glyph),
{
    line1(span_of(repeat_glyph(glyph, RULE_WIDTH), dimmed()))
}

/// A `N label` fragment: dimmed when zero.
pub open spec fn count_model(count: nat, label: Seq<char>, style: Style) -> SpanModel {
    sp(
        decimal(count) + " "@ + label,
        if count == 0 {
            dimmed()
        } else {
            style
        },
    )
}

fn count_part(count: usize, label: &str, highlight: Style) -> (part: Span)
    ensures
        part@ == count_model(count as nat, label@, highlight),
{
    let mut text = decimal_text(count as u64);
    text.append(" ");
    text.append(label);
    if count == 0 {
        span_of(text, dimmed())
    } else {
        span_of(text, highlight)
    }
}

/// An instant as the report prints it.
pub open spec fn stamp_model(at: Timestamp) -> Seq<char> {
    timestamp_formatted(at@, STAMP_SECONDS@)
}

/// The line on a show's last poll.
pub open spec fn poll_model(show: ShowStatus) -> Seq<SpanModel> {
    match (show.last_poll_at, show.last_poll_ok) {
        (Some(at), Some(true)) => seq![
            sp("  last poll "@, plain()),
            sp(stamp_model(at), dimmed()),
            sp(" "@, plain()),
            sp("(ok)"@, colored(Color::Green)),
        ],
        (Some(at), Some(false)) => seq![
            sp("  last poll "@, plain()),
            sp(stamp_model(at), dimmed()),
            sp(" "@, plain()),
            sp(
                "(FAILED: "@ + poll_error(show) + ")"@,
                strong(Color::Red),
            ),
        ],
        _ => seq![
            sp("  "@, plain()),
            sp("never polled"@, colored(Color::Yellow)),
        ],
    }
}

/// The error of a failed poll, where one is on record.
pub open spec fn poll_error(show: ShowStatus) -> Seq<char> {
    match show.last_error {
        Some(error) => error@,
        None => "unknown error"@,
    }
}

fn poll_line(show: &ShowStatus) -> (line: Vec<Span>)
    ensures
        line_model(line@) == poll_model(*show),
{
    match (&show.last_poll_at, show.last_poll_ok) {
        (Some(at), Some(true)) => line4(
            span("  last poll ", plain()),
            span_of(at.stamp(STAMP_SECONDS), dimmed()),
            span(" ", plain()),
            span("(ok)", colored(Color::Green)),
        ),
        (Some(at), Some(false)) => {
            let mut text = "(FAILED: ".to_owned();
            match &show.last_error {
                Some(error) => {
                    text.append(error.as_str());
                },
                None => {
                    text.append("unknown error");
                },
            }
            text.append(")");
            line4(
                span("  last poll ", plain()),
                span_of(at.stamp(STAMP_SECONDS), dimmed()),
                span(" ", plain()),
                span_of(text, strong(Color::Red)),
            )
        },
        _ => line2(span("  ", plain()), span("never polled", colored(Color::Yellow))),
    }
}

/// The dot between the fragments of a summary.
pub open spec fn dot_model() -> Seq<SpanModel> {
    seq![
        sp(" "@, plain()),
        sp("·"@, dimmed()),
        sp(" "@, plain()),
    ]
}

/// The fragment on cached episodes.
pub open spec fn cached_model(show: ShowStatus) -> SpanModel {
    let count = kind_count(show.episodes@, Kind::Cached);
    sp(
        decimal(count) + " cached ("@ + size_text(show.cached_bytes)
            + ")"@,
        if count == 0 {
            dimmed()
        } else {
            strong(Color::Green)
        },
    )
}

/// The summary of a show's episodes. Downloads show only while there are
/// any.
pub open spec fn summary_model(show: ShowStatus) -> Seq<SpanModel> {
    let downloading = kind_count(show.episodes@, Kind::Downloading);
    let base = seq![sp("  "@, plain()), cached_model(show)] + dot_model() + seq![
        count_model(kind_count(show.episodes@, Kind::Discovered), "discovered"@, plain()),
    ] + dot_model() + seq![
        count_model(kind_count(show.episodes@, Kind::Failed), "failed"@, strong(Color::Red)),
    ] + dot_model() + seq![
        count_model(kind_count(show.episodes@, Kind::Pruned), "pruned"@, plain()),
    ];
    if downloading > 0 {
        base + dot_model() + seq![
            sp(
                decimal(downloading) + " downloading"@,
                colored(Color::Yellow),
            ),
        ]
    } else {
        base
    }
}

fn add_dot(line: &mut Vec<Span>)
    ensures
        line_model(final(line)@) == line_model(old(line)@)
            + dot_model(),
{
    line.push(span(" ", plain()));
    line.push(span("·", dimmed()));
    line.push(span(" ", plain()));
    assert(line_model(line@) =~= line_model(old(line)@)
        + dot_model());
}

fn summary_line(show: &ShowStatus) -> (line: Vec<Span>)
    ensures
        line_model(line@) == summary_model(*show),
{
    let cached: usize = count_kind(&show.episodes, Kind::Cached);
    let downloading: usize = count_kind(&show.episodes, Kind::Downloading);
    let mut text = decimal_text(cached as u64);
    text.append(" cached (");
    text.append(format_size(show.cached_bytes).as_str());
    text.append(")");
    let cached_part = if cached == 0 {
        span_of(text, dimmed())
    } else {
        span_of(text, strong(Color::Green))
    };
    let mut line = line2(span("  ", plain()), cached_part);
    add_dot(&mut line);
    add_span(
        &mut line,
        count_part(count_kind(&show.episodes, Kind::Discovered), "discovered", plain()),
    );
    add_dot(&mut line);
    add_span(
        &mut line,
        count_part(count_kind(&show.episodes, Kind::Failed), "failed", strong(Color::Red)),
    );
    add_dot(&mut line);
    add_span(
        &mut line,
        count_part(count_kind(&show.episodes, Kind::Pruned), "pruned", plain()),
    );
    if downloading > 0 {
        let mut text = decimal_text(downloading as u64);
        text.append(" downloading");
        add_dot(&mut line);
        add_span(&mut line, span_of(text, colored(Color::Yellow)));
    }
    line
}

/// The margin under an episode's first line.
pub open spec fn margin_model() -> SpanModel {
    sp(repeated(' ', 11), plain())
}

/// The text of an optional MIME type.
pub open spec fn mime_or(mime: Option<AudioMime>, unknown: Seq<char>) -> Seq<char> {
    match mime {
        Some(mime) => mime_text(mime),
        None => unknown,
    }
}

/// The text of an optional text.
pub open spec fn text_or(text: Option<String>, unknown: Seq<char>) -> Seq<char> {
    match text {
        Some(text) => text@,
        None => unknown,
    }
}

/// The text of an optional instant.
pub open spec fn stamp_or(at: Option<Timestamp>, unknown: Seq<char>) -> Seq<char> {
    match at {
        Some(at) => stamp_model(at),
        None => unknown,
    }
}

/// The first line of a cached episode, in columns.
pub open spec fn episode_line_model(episode: EpisodeStatus) -> Seq<SpanModel> {
    seq![
        sp("  "@, plain()),
        sp(episode.id@, strong(Color::Default)),
        sp(
            "  "@ + aligned_right(
                opt_size_text(episode.bytes, "?"@),
                10,
            ) + "  "@,
            plain(),
        ),
        sp(
            aligned_left(mime_or(episode.mime, "mime?"@), 11),
            dimmed(),
        ),
        sp(
            "  "@ + aligned_right(
                opt_duration_text(episode.duration_secs, "?"@),
                9,
            ) + "  "@,
            plain(),
        ),
        sp("downloaded "@ + stamp_or(episode.downloaded_at, "?"@), dimmed()),
    ]
}

fn episode_line(episode: &EpisodeStatus) -> (line: Vec<Span>)
    ensures
        line_model(line@) == episode_line_model(*episode),
{
    let mut size = "  ".to_owned();
    size.append(align_right(size_or(episode.bytes, "?").as_str(), 10).as_str());
    size.append("  ");
    let mime = match &episode.mime {
        Some(mime) => mime.to_string(),
        None => "mime?".to_owned(),
    };
    let mut duration = "  ".to_owned();
    duration.append(align_right(duration_or(episode.duration_secs, "?").as_str(), 9).as_str());
    duration.append("  ");
    let mut downloaded = "downloaded ".to_owned();
    match &episode.downloaded_at {
        Some(at) => {
            downloaded.append(at.stamp(STAMP_SECONDS).as_str());
        },
        None => {
            downloaded.append("?");
        },
    }
    let mut line = line4(
        span("  ", plain()),
        span_of(episode.id.to_string(), strong(Color::Default)),
        span_of(size, plain()),
        span_of(align_left(mime.as_str(), 11), dimmed()),
    );
    add_span(&mut line, span_of(duration, plain()));
    add_span(&mut line, span_of(downloaded, dimmed()));
    assert(line_model(line@) =~= episode_line_model(*episode));
    line
}

/// The lines on one cached episode: its columns, its notes where there are
/// any, its digest, and its file.
pub open spec fn episode_model(episode: EpisodeStatus) -> Seq<Seq<SpanModel>> {
    seq![episode_line_model(episode)] + match episode.description {
        Some(description) => seq![seq![margin_model(), sp(description@, aside())]],
        None => Seq::empty(),
    } + seq![
        seq![
            margin_model(),
            sp("blake3 "@ + text_or(episode.blake3, "?"@), dimmed()),
        ],
        seq![
            margin_model(),
            sp(
                text_or(episode.file_path, "<file path missing>"@),
                colored(Color::Cyan),
            ),
        ],
        Seq::<SpanModel>::empty(),
    ]
}

fn margin() -> (margin: Span)
    ensures
        margin@ == margin_model(),
{
    span_of(repeat_glyph(' ', 11), plain())
}

fn episode_page(episode: &EpisodeStatus) -> (page: Vec<Vec<Span>>)
    ensures
        page_model(page@) == episode_model(*episode),
{
    let mut page: Vec<Vec<Span>> = Vec::new();
    assert(page_model(page@) =~= Seq::empty());
    add_line(&mut page, episode_line(episode));
    match &episode.description {
        Some(description) => {
            add_line(&mut page, line2(margin(), span(description.as_str(), aside())));
        },
        None => {},
    }
    let mut digest = "blake3 ".to_owned();
    match &episode.blake3 {
        Some(hex) => {
            digest.append(hex.as_str());
        },
        None => {
            digest.append("?");
        },
    }
    add_line(&mut page, line2(margin(), span_of(digest, dimmed())));
    let path = match &episode.file_path {
        Some(path) => path.clone(),
        None => "<file path missing>".to_owned(),
    };
    add_line(&mut page, line2(margin(), span_of(path, colored(Color::Cyan))));
    add_line(&mut page, blank());
    assert(page_model(page@) =~= episode_model(*episode));
    page
}

/// The lines on the cached episodes, in order.
pub open spec fn episodes_model(episodes: Seq<EpisodeStatus>) -> Seq<Seq<SpanModel>>
    decreases episodes.len(),
{
    if episodes.len() == 0 {
        Seq::empty()
    } else {
        let before = episodes_model(episodes.drop_last());
        if episodes.last().state is Cached {
            before + episode_model(episodes.last())
        } else {
            before
        }
    }
}

/// The failed episodes with their classes, in order.
pub open spec fn failed_texts(episodes: Seq<EpisodeStatus>) -> Seq<Seq<char>>
    decreases episodes.len(),
{
    if episodes.len() == 0 {
        Seq::empty()
    } else {
        let before = failed_texts(episodes.drop_last());
        match episodes.last().state {
            EpisodeState::Failed(class) => before.push(
                episodes.last().id@ + " ("@ + error_class_text(class) + ")"@,
            ),
            _ => before,
        }
    }
}

/// The lines on the failed episodes, where there are any.
pub open spec fn failed_model(episodes: Seq<EpisodeStatus>) -> Seq<Seq<SpanModel>> {
    if failed_texts(episodes).len() == 0 {
        Seq::empty()
    } else {
        seq![
            seq![
                sp("  "@, plain()),
                sp("failed:"@, strong(Color::Red)),
                sp(" "@, plain()),
                sp(
                    joined(failed_texts(episodes), ", "@),
                    colored(Color::Red),
                ),
            ],
            Seq::<SpanModel>::empty(),
        ]
    }
}

/// The heading of a show.
pub open spec fn heading_model(show: ShowStatus) -> Seq<SpanModel> {
    seq![
        sp(show.slug@, strong(Color::Cyan)),
        sp(" — "@, plain()),
        sp(show.title@, strong(Color::Default)),
        sp(" "@, plain()),
        sp("["@ + show.provider@ + "]"@, dimmed()),
    ]
}

/// Everything the report says of one show.
pub open spec fn show_model(show: ShowStatus) -> Seq<Seq<SpanModel>> {
    seq![
        rule_model('─'),
        heading_model(show),
        Seq::<SpanModel>::empty(),
        poll_model(show),
        summary_model(show),
        Seq::<SpanModel>::empty(),
    ] + episodes_model(show.episodes@) + failed_model(show.episodes@)
}

/// Everything the report says of one show.
pub fn print_show_text(show: &ShowStatus) -> (page: Vec<Vec<Span>>)
    ensures
        page_model(page@) == show_model(*show),
{
    let mut page: Vec<Vec<Span>> = Vec::new();
    assert(page_model(page@) =~= Seq::empty());
    add_line(&mut page, rule('─'));
    let mut provider = "[".to_owned();
    provider.append(show.provider.as_str());
    provider.append("]");
    let mut heading = line4(
        span(show.slug.as_str(), strong(Color::Cyan)),
        span(" — ", plain()),
        span(show.title.as_str(), strong(Color::Default)),
        span(" ", plain()),
    );
    add_span(&mut heading, span_of(provider, dimmed()));
    assert(line_model(heading@) =~= heading_model(*show));
    add_line(&mut page, heading);
    add_line(&mut page, blank());
    add_line(&mut page, poll_line(show));
    add_line(&mut page, summary_line(show));
    add_line(&mut page, blank());
    let ghost head = page_model(page@);
    let mut failed: Vec<String> = Vec::new();
    let mut i: usize = 0;
    proof {
        assert(show.episodes@.take(0) =~= Seq::empty());
        assert(head + episodes_model(show.episodes@.take(0)) =~= head);
        assert(texts(failed@) =~= failed_texts(show.episodes@.take(0)));
    }
    while i < show.episodes.len()
        invariant
            i <= show.episodes@.len(),
            page_model(page@) == head + episodes_model(
                show.episodes@.take(i as int),
            ),
            texts(failed@) == failed_texts(show.episodes@.take(i as int)),
        decreases show.episodes@.len() - i,
    {
        let ghost seen = show.episodes@.take(i as int);
        proof {
            assert(show.episodes@.take(i + 1).drop_last() =~= seen);
            assert(show.episodes@.take(i + 1).last() == show.episodes@[i as int]);
        }
        match show.episodes[i].state {
            EpisodeState::Cached => {
                add_page(&mut page, episode_page(&show.episodes[i]));
                assert(head + episodes_model(seen) + episode_model(show.episodes@[i as int])
                    =~= head + (episodes_model(seen) + episode_model(show.episodes@[i as int])));
            },
            EpisodeState::Failed(class) => {
                let mut text = show.episodes[i].id.to_string();
                text.append(" (");
                text.append(class.as_str());
                text.append(")");
                failed.push(text);
                assert(texts(failed@) =~= failed_texts(seen).push(text@));
            },
            _ => {},
        }
        i += 1;
    }
    assert(show.episodes@.take(show.episodes@.len() as int) =~= show.episodes@);
    assert(texts(failed@).len() == failed@.len());
    if failed.len() > 0 {
        add_line(
            &mut page,
            line4(
                span("  ", plain()),
                span("failed:", strong(Color::Red)),
                span(" ", plain()),
                span_of(join(&failed, ", "), colored(Color::Red)),
            ),
        );
        add_line(&mut page, blank());
    }
    assert(page_model(page@) =~= show_model(*show));
    page
}

/// Everything the report says of these shows.
pub open spec fn shows_model(shows: Seq<ShowStatus>) -> Seq<Seq<SpanModel>>
    decreases shows.len(),
{
    if shows.len() == 0 {
        Seq::empty()
    } else {
        shows_model(shows.drop_last()) + show_model(shows.last())
    }
}

/// What the report says of a show that was never synced.
pub open spec fn unsynced_model(slug: ShowSlug) -> Seq<Seq<SpanModel>> {
    seq![
        rule_model('─'),
        seq![
            sp(slug@, strong(Color::Default)),
            sp(" — "@, plain()),
            sp("configured, never synced"@, colored(Color::Yellow)),
        ],
        Seq::<SpanModel>::empty(),
    ]
}

/// What the report says of the shows that were never synced.
pub open spec fn all_unsynced_model(slugs: Seq<ShowSlug>) -> Seq<Seq<SpanModel>>
    decreases slugs.len(),
{
    if slugs.len() == 0 {
        Seq::empty()
    } else {
        all_unsynced_model(slugs.drop_last()) + unsynced_model(slugs.last())
    }
}

/// The hint an empty library gets.
pub open spec fn hint_model(shows: Seq<ShowStatus>) -> Seq<Seq<SpanModel>> {
    if shows.len() == 0 {
        seq![
            seq![
                sp(
                    "no shows in storage yet — run `splicefeed run --once` first"@,
                    colored(Color::Yellow),
                ),
            ],
            Seq::<SpanModel>::empty(),
        ]
    } else {
        Seq::empty()
    }
}

/// The totals.
pub open spec fn totals_model(report: StatusReport) -> Seq<Seq<SpanModel>> {
    seq![
        rule_model('═'),
        seq![
            sp("total"@, strong(Color::Default)),
            sp(
                "    "@ + decimal(report.total_files as nat)
                    + " file(s) on disk · "@,
                plain(),
            ),
            sp(
                size_text(report.total_bytes),
                strong(Color::Green),
            ),
        ],
        seq![
            sp("state db"@, dimmed()),
            sp(" "@, plain()),
            sp(report.state_db@, dimmed()),
        ],
        seq![
            sp("data dir"@, dimmed()),
            sp(" "@, plain()),
            sp(report.data_dir@, dimmed()),
        ],
    ]
}

/// The whole report.
pub open spec fn report_model(report: StatusReport) -> Seq<Seq<SpanModel>> {
    hint_model(report.shows@) + shows_model(report.shows@) + all_unsynced_model(
        report.configured_never_synced@,
    ) + totals_model(report)
}

fn unsynced_page(slug: &ShowSlug) -> (page: Vec<Vec<Span>>)
    ensures
        page_model(page@) == unsynced_model(*slug),
{
    let mut page: Vec<Vec<Span>> = Vec::new();
    add_line(&mut page, rule('─'));
    add_line(
        &mut page,
        line3(
            span(slug.as_str(), strong(Color::Default)),
            span(" — ", plain()),
            span("configured, never synced", colored(Color::Yellow)),
        ),
    );
    add_line(&mut page, blank());
    assert(page_model(page@) =~= unsynced_model(*slug));
    page
}

/// The whole report, line by line.
pub fn print_text(report: &StatusReport) -> (page: Vec<Vec<Span>>)
    ensures
        page_model(page@) == report_model(*report),
{
    let mut page: Vec<Vec<Span>> = Vec::new();
    assert(page_model(page@) =~= Seq::empty());
    if report.shows.len() == 0 {
        add_line(
            &mut page,
            line1(
                span(
                    "no shows in storage yet — run `splicefeed run --once` first",
                    colored(Color::Yellow),
                ),
            ),
        );
        add_line(&mut page, blank());
    }
    assert(page_model(page@) =~= hint_model(report.shows@));
    let ghost hint = page_model(page@);
    let mut i: usize = 0;
    proof {
        assert(report.shows@.take(0) =~= Seq::empty());
        assert(hint + shows_model(report.shows@.take(0)) =~= hint);
    }
    while i < report.shows.len()
        invariant
            i <= report.shows@.len(),
            page_model(page@) == hint + shows_model(report.shows@.take(i as int)),
        decreases report.shows@.len() - i,
    {
        let ghost seen = report.shows@.take(i as int);
        add_page(&mut page, print_show_text(&report.shows[i]));
        proof {
            assert(report.shows@.take(i + 1).drop_last() =~= seen);
            assert(report.shows@.take(i + 1).last() == report.shows@[i as int]);
            assert(hint + shows_model(seen) + show_model(report.shows@[i as int]) =~= hint + (
            shows_model(seen) + show_model(report.shows@[i as int])));
        }
        i += 1;
    }
    assert(report.shows@.take(report.shows@.len() as int) =~= report.shows@);
    let ghost above = page_model(page@);
    let unsynced = &report.configured_never_synced;
    let mut k: usize = 0;
    proof {
        assert(unsynced@.take(0) =~= Seq::empty());
        assert(above + all_unsynced_model(unsynced@.take(0)) =~= above);
    }
    while k < unsynced.len()
        invariant
            k <= unsynced@.len(),
            page_model(page@) == above + all_unsynced_model(
                unsynced@.take(k as int),
            ),
        decreases unsynced@.len() - k,
    {
        let ghost seen = unsynced@.take(k as int);
        add_page(&mut page, unsynced_page(&unsynced[k]));
        proof {
            assert(unsynced@.take(k + 1).drop_last() =~= seen);
            assert(unsynced@.take(k + 1).last() == unsynced@[k as int]);
            assert(above + all_unsynced_model(seen) + unsynced_model(unsynced@[k as int]) =~= above
                + (all_unsynced_model(seen) + unsynced_model(unsynced@[k as int])));
        }
        k += 1;
    }
    assert(unsynced@.take(unsynced@.len() as int) =~= unsynced@);
    add_line(&mut page, rule('═'));
    let mut files = "    ".to_owned();
    files.append(decimal_text(report.total_files as u64).as_str());
    files.append(" file(s) on disk · ");
    add_line(
        &mut page,
        line3(
            span("total", strong(Color::Default)),
            span_of(files, plain()),
            span_of(format_size(report.total_bytes), strong(Color::Green)),
        ),
    );
    add_line(
        &mut page,
        line3(
            span("state db", dimmed()),
            span(" ", plain()),
            span(report.state_db.as_str(), dimmed()),
        ),
    );
    add_line(
        &mut page,
        line3(
            span("data dir", dimmed()),
            span(" ", plain()),
            span(report.data_dir.as_str(), dimmed()),
        ),
    );
    assert(page_model(page@) =~= report_model(*report));
    page
}

/// One show's verification.
#[derive(Debug)]
pub struct ShowVerify {
    /// The show.
    pub slug: ShowSlug,
    /// What was found.
    pub report: VerifyReport,
}

/// The line on one damaged file.
pub open spec fn outcome_model(
    outcome: VerifyOutcome,
    fix: bool,
) -> Seq<SpanModel> {
    seq![
        sp("  "@, plain()),
        sp(outcome.id@, strong(Color::Default)),
        sp("  "@, plain()),
        sp(
            file_problem_text(outcome.problem),
            colored(Color::Red),
        ),
        sp("  "@, plain()),
        if outcome.fixed {
            sp("fixed ✓"@, strong(Color::Green))
        } else if fix {
            sp("NOT FIXED"@, strong(Color::Red))
        } else {
            sp("run --fix to re-download"@, colored(Color::Yellow))
        },
    ]
}

/// The lines on the damaged files, in order.
pub open spec fn outcomes_model(
    outcomes: Seq<VerifyOutcome>,
    fix: bool,
) -> Seq<Seq<SpanModel>> {
    outcomes.map_values(|o: VerifyOutcome| outcome_model(o, fix))
}

/// What is printed of one show's verification.
pub open spec fn verify_model(show: ShowVerify, fix: bool) -> Seq<Seq<SpanModel>> {
    seq![
        rule_model('─'),
        seq![
            sp(show.slug@, strong(Color::Cyan)),
            sp(" — "@, plain()),
            sp(
                decimal(show.report.checked as nat) + " checked · "@,
                plain(),
            ),
            sp(
                decimal(show.report.intact as nat) + " intact"@,
                if show.report.problems@.len() == 0 {
                    colored(Color::Green)
                } else {
                    plain()
                },
            ),
        ],
    ] + outcomes_model(show.report.problems@, fix) + seq![
        Seq::<SpanModel>::empty(),
    ]
}

fn verify_page(show: &ShowVerify, fix: bool) -> (page: Vec<Vec<Span>>)
    ensures
        page_model(page@) == verify_model(*show, fix),
{
    let mut page: Vec<Vec<Span>> = Vec::new();
    assert(page_model(page@) =~= Seq::empty());
    add_line(&mut page, rule('─'));
    let mut checked = decimal_text(show.report.checked);
    checked.append(" checked · ");
    let mut intact = decimal_text(show.report.intact);
    intact.append(" intact");
    let intact_style = if show.report.problems.len() == 0 {
        colored(Color::Green)
    } else {
        plain()
    };
    add_line(
        &mut page,
        line4(
            span(show.slug.as_str(), strong(Color::Cyan)),
            span(" — ", plain()),
            span_of(checked, plain()),
            span_of(intact, intact_style),
        ),
    );
    let ghost head = page_model(page@);
    let ghost lines = outcomes_model(show.report.problems@, fix);
    let mut i: usize = 0;
    assert(head + lines.take(0) =~= head);
    while i < show.report.problems.len()
        invariant
            i <= show.report.problems@.len(),
            lines == outcomes_model(show.report.problems@, fix),
            page_model(page@) == head + lines.take(i as int),
        decreases show.report.problems@.len() - i,
    {
        let outcome = &show.report.problems[i];
        let verdict = if outcome.fixed {
            span("fixed ✓", strong(Color::Green))
        } else if fix {
            span("NOT FIXED", strong(Color::Red))
        } else {
            span("run --fix to re-download", colored(Color::Yellow))
        };
        let mut line = line4(
            span("  ", plain()),
            span_of(outcome.id.to_string(), strong(Color::Default)),
            span("  ", plain()),
            span_of(outcome.problem.to_string(), colored(Color::Red)),
        );
        add_span(&mut line, span("  ", plain()));
        add_span(&mut line, verdict);
        assert(line_model(line@) =~= outcome_model(*outcome, fix));
        add_line(&mut page, line);
        assert(head + lines.take(i + 1) =~= (head + lines.take(i as int)).push(lines[i as int]));
        i += 1;
    }
    assert(lines.take(lines.len() as int) =~= lines);
    add_line(&mut page, blank());
    assert(page_model(page@) =~= verify_model(*show, fix));
    page
}

/// A verification, show by show.
#[derive(Debug)]
pub struct VerifyRun {
    /// The shows that were checked.
    pub shows: Vec<ShowVerify>,
}

/// What is printed of a verification.
pub open spec fn run_model(shows: Seq<ShowVerify>, fix: bool) -> Seq<Seq<SpanModel>>
    decreases shows.len(),
{
    if shows.len() == 0 {
        Seq::empty()
    } else {
        run_model(shows.drop_last(), fix) + verify_model(shows.last(), fix)
    }
}

/// What is printed of a verification.
pub fn print_verify_text(run: &VerifyRun, fix: bool) -> (page: Vec<Vec<Span>>)
    ensures
        page_model(page@) == run_model(run.shows@, fix),
{
    let mut page: Vec<Vec<Span>> = Vec::new();
    let mut i: usize = 0;
    proof {
        assert(run.shows@.take(0) =~= Seq::empty());
        assert(page_model(page@) =~= Seq::empty());
    }
    while i < run.shows.len()
        invariant
            i <= run.shows@.len(),
            page_model(page@) == run_model(run.shows@.take(i as int), fix),
        decreases run.shows@.len() - i,
    {
        proof {
            assert(run.shows@.take(i + 1).drop_last() =~= run.shows@.take(i as int));
            assert(run.shows@.take(i + 1).last() == run.shows@[i as int]);
        }
        add_page(&mut page, verify_page(&run.shows[i], fix));
        i += 1;
    }
    assert(run.shows@.take(run.shows@.len() as int) =~= run.shows@);
    page
}

/// The shows to verify: the one asked for, else every configured one, in
/// the configuration's order.
pub fn verify_targets(config: &Config, slug: Option<&str>) -> (slugs: Result<
    Vec<ShowSlug>,
    InvalidId,
>)
    ensures
        match slug {
            Some(raw) => match slugs {
                Ok(slugs) => is_slug(raw@) && slugs@.len() == 1 && slugs@[0]@ == raw@,
                Err(error) => !is_slug(raw@) && error.kind@ == "show slug"@ && error.reason@
                    == if raw@.len() == 0 {
                    "must not be empty"@
                } else {
                    "only ASCII letters, digits, `-`, `_`, and `.` are allowed"@
                },
            },
            None => slugs matches Ok(slugs) && slugs@ == config.shows@.map_values(
                |show: ShowConfig| show.slug,
            ),
        },
{
    let mut slugs: Vec<ShowSlug> = Vec::new();
    match slug {
        Some(raw) => match ShowSlug::parse(raw) {
            Ok(slug) => {
                slugs.push(slug);
                Ok(slugs)
            },
            Err(error) => Err(error),
        },
        None => {
            let mut i: usize = 0;
            while i < config.shows.len()
                invariant
                    i <= config.shows@.len(),
                    slugs@.len() == i,
                    forall|k: int| 0 <= k < i ==> slugs@[k] == (#[trigger] config.shows@[k]).slug,
                decreases config.shows@.len() - i,
            {
                slugs.push(config.shows[i].slug.clone());
                i += 1;
            }
            assert(slugs@ =~= config.shows@.map_values(|show: ShowConfig| show.slug));
            Ok(slugs)
        },
    }
}

/// How many problems a verification leaves.
pub open spec fn unfixed_in(shows: Seq<ShowVerify>) -> nat
    decreases shows.len(),
{
    if shows.len() == 0 {
        0
    } else {
        unfixed_in(shows.drop_last()) + unfixed_count(shows.last().report.problems@)
    }
}

/// What a verification fails with when it leaves problems, so that
/// scheduled runs notice.
pub open spec fn failure_text(unfixed: nat, fix: bool) -> Seq<char> {
    decimal(unfixed) + " file(s) failed verification"@ + if fix {
        " and could not be fixed"@
    } else {
        " (run with --fix to re-download)"@
    }
}

/// What a verification fails with, if it does.
pub fn verify_failure(run: &VerifyRun, fix: bool) -> (failure: Option<String>)
    requires
        unfixed_in(run.shows@) <= u64::MAX,
    ensures
        match failure {
            Some(message) => unfixed_in(run.shows@) > 0 && message@ == failure_text(
                unfixed_in(run.shows@),
                fix,
            ),
            None => unfixed_in(run.shows@) == 0,
        },
{
    let mut unfixed: u64 = 0;
    let mut i: usize = 0;
    assert(run.shows@.take(0) =~= Seq::empty());
    while i < run.shows.len()
        invariant
            i <= run.shows@.len(),
            unfixed == unfixed_in(run.shows@.take(i as int)),
            unfixed_in(run.shows@) <= u64::MAX,
        decreases run.shows@.len() - i,
    {
        proof {
            assert(run.shows@.take(i + 1).drop_last() =~= run.shows@.take(i as int));
            assert(run.shows@.take(i + 1).last() == run.shows@[i as int]);
            lemma_unfixed_grows(run.shows@, i + 1);
        }
        unfixed = unfixed + run.shows[i].report.unfixed() as u64;
        i += 1;
    }
    assert(run.shows@.take(run.shows@.len() as int) =~= run.shows@);
    if unfixed == 0 {
        return None;
    }
    let mut message = decimal_text(unfixed);
    message.append(" file(s) failed verification");
    if fix {
        message.append(" and could not be fixed");
    } else {
        message.append(" (run with --fix to re-download)");
    }
    Some(message)
}

/// The first shows leave no more problems than all of them.
proof fn lemma_unfixed_grows(shows: Seq<ShowVerify>, n: int)
    requires
        0 <= n <= shows.len(),
    ensures
        unfixed_in(shows.take(n)) <= unfixed_in(shows),
    decreases shows.len() - n,
{
    if n < shows.len() {
        lemma_unfixed_grows(shows, n + 1);
        assert(shows.take(n + 1).drop_last() =~= shows.take(n));
    } else {
        assert(shows.take(n) =~= shows);
    }
}

/// The provider to probe a show with: the one it is configured with, else
/// the default one.
pub open spec fn probe_provider_of(config: Config, slug: Seq<char>) -> Seq<char> {
    match find_config(config.shows@, slug) {
        Some(i) => config.shows@[i].provider@,
        None => "difm"@,
    }
}

/// The provider to probe a show with.
pub fn probe_provider(config: &Config, slug: &ShowSlug) -> (name: String)
    ensures
        name@ == probe_provider_of(*config, slug@),
{
    match show_config(config, slug) {
        Ok(show) => show.provider.clone(),
        Err(_) => "difm".to_owned(),
    }
}

/// The first line of a probe.
pub fn probe_heading(slug: &ShowSlug, provider: &str) -> (line: String)
    ensures
        line@ == "probing `"@ + slug@ + "` via provider `"@ + provider@ + "`"@,
{
    let mut line = "probing `".to_owned();
    line.append(slug.as_str());
    line.append("` via provider `");
    line.append(provider);
    line.append("`");
    line
}

/// What a probe says of a show's metadata.
pub open spec fn probe_show_model(meta: Result<ShowMeta, ProviderError>) -> Seq<Seq<char>> {
    match meta {
        Ok(meta) => seq![
            "show:      OK  title="@ + debug_quoted(meta.title@),
            "           description: "@ + match meta.description {
                Some(text) => decimal(vstd::utf8::encode_utf8(text@).len()) + " chars"@,
                None => "MISSING"@,
            },
            "           artwork: "@ + match meta.artwork {
                Some(url) => url@,
                None => "MISSING"@,
            },
        ],
        Err(error) => seq![
            "show:      FAILED  "@ + provider_error_text(error),
        ],
    }
}

/// What a probe says of a show's metadata.
pub fn probe_show(meta: &Result<ShowMeta, ProviderError>) -> (lines: Vec<String>)
    ensures
        texts(lines@) == probe_show_model(*meta),
{
    let mut lines: Vec<String> = Vec::new();
    match meta {
        Ok(meta) => {
            let mut title = "show:      OK  title=".to_owned();
            title.append(quoted(meta.title.as_str()).as_str());
            let mut description = "           description: ".to_owned();
            match &meta.description {
                Some(text) => {
                    let len: usize = text.as_str().as_bytes().len();
                    let mut size = decimal_text(len as u64);
                    size.append(" chars");
                    description.append(size.as_str());
                },
                None => {
                    description.append("MISSING");
                },
            }
            let mut artwork = "           artwork: ".to_owned();
            match &meta.artwork {
                Some(url) => {
                    artwork.append(url.as_str());
                },
                None => {
                    artwork.append("MISSING");
                },
            }
            lines.push(title);
            lines.push(description);
            lines.push(artwork);
        },
        Err(error) => {
            let mut text = "show:      FAILED  ".to_owned();
            text.append(error.to_string().as_str());
            lines.push(text);
        },
    }
    assert(texts(lines@) =~= probe_show_model(*meta));
    lines
}

/// What a probe says of one listed episode.
pub open spec fn probe_episode_model(episode: EpisodeMeta) -> Seq<char> {
    repeated(' ', 11) + aligned_right(episode.id@, 8) + "  "@
        + aligned_left(debug_quoted(episode.title@), 60) + "  "@
        + match episode.published_at {
        Some(at) => timestamp_text(at@),
        None => "pubdate MISSING"@,
    } + "  "@ + match episode.duration_secs {
        Some(secs) => decimal(secs as nat) + "s"@,
        None => "duration MISSING"@,
    }
}

/// What a probe says of one listed episode.
pub fn probe_episode(episode: &EpisodeMeta) -> (line: String)
    ensures
        line@ == probe_episode_model(*episode),
{
    let mut line = repeat_glyph(' ', 11);
    line.append(align_right(episode.id.as_str(), 8).as_str());
    line.append("  ");
    line.append(align_left(quoted(episode.title.as_str()).as_str(), 60).as_str());
    line.append("  ");
    match &episode.published_at {
        Some(at) => {
            line.append(at.to_string().as_str());
        },
        None => {
            line.append("pubdate MISSING");
        },
    }
    line.append("  ");
    match episode.duration_secs {
        Some(secs) => {
            let mut text = decimal_text(secs as u64);
            text.append("s");
            line.append(text.as_str());
        },
        None => {
            line.append("duration MISSING");
        },
    }
    line
}

/// What a probe says of the episodes that parsed: how many, and the first
/// five.
pub open spec fn listed_model(episodes: Seq<EpisodeMeta>) -> Seq<Seq<char>> {
    seq![
        "episodes:  OK  "@ + decimal(episodes.len())
            + " parsed (drifted entries, if any, are quarantined and warned above)"@,
    ] + episodes.take(
        if episodes.len() < 5 {
            episodes.len() as int
        } else {
            5
        },
    ).map_values(|e: EpisodeMeta| probe_episode_model(e))
}

fn listed_lines(episodes: &Vec<EpisodeMeta>) -> (lines: Vec<String>)
    ensures
        texts(lines@) == listed_model(episodes@),
{
    let mut lines: Vec<String> = Vec::new();
    let mut head = "episodes:  OK  ".to_owned();
    head.append(decimal_text(episodes.len() as u64).as_str());
    head.append(" parsed (drifted entries, if any, are quarantined and warned above)");
    lines.push(head);
    let shown: usize = if episodes.len() < 5 {
        episodes.len()
    } else {
        5
    };
    let mut i: usize = 0;
    while i < shown
        invariant
            i <= shown <= episodes@.len(),
            lines@.len() == i + 1,
            lines@[0]@ == head@,
            forall|k: int|
                0 <= k < i ==> (#[trigger] lines@[k + 1])@ == probe_episode_model(episodes@[k]),
        decreases shown - i,
    {
        lines.push(probe_episode(&episodes[i]));
        i += 1;
    }
    proof {
        let model = listed_model(episodes@);
        assert forall|k: int| 0 <= k < lines@.len() implies texts(lines@)[k]
            == model[k] by {
            if k > 0 {
                assert(lines@[(k - 1) + 1]@ == probe_episode_model(episodes@[k - 1]));
            }
        }
        assert(texts(lines@) =~= model);
    }
    lines
}

/// What a probe says of a listing.
pub open spec fn probe_listing_model(listing: Result<EpisodeListing, ProviderError>) -> Seq<
    Seq<char>,
> {
    match listing {
        Ok(EpisodeListing::NotModified) => seq![
            "episodes:  unexpected 304 without a validator"@,
        ],
        Ok(EpisodeListing::Modified { episodes, etag: _ }) => listed_model(episodes@),
        Err(error) => seq!["episodes:  FAILED  "@ + provider_error_text(error)],
    }
}

/// What a probe says of a listing.
pub fn probe_listing(listing: &Result<EpisodeListing, ProviderError>) -> (lines: Vec<String>)
    ensures
        texts(lines@) == probe_listing_model(*listing),
{
    let mut lines: Vec<String> = Vec::new();
    match listing {
        Ok(EpisodeListing::NotModified) => {
            lines.push("episodes:  unexpected 304 without a validator".to_owned());
        },
        Ok(EpisodeListing::Modified { episodes, etag: _ }) => {
            return listed_lines(episodes);
        },
        Err(error) => {
            let mut text = "episodes:  FAILED  ".to_owned();
            text.append(error.to_string().as_str());
            lines.push(text);
        },
    }
    assert(texts(lines@) =~= probe_listing_model(*listing));
    lines
}

/// The episode whose audio a probe resolves: the newest one listed, if any.
pub fn probe_target<'a>(listing: &'a Result<EpisodeListing, ProviderError>) -> (id: Option<
    &'a EpisodeId,
>)
    ensures
        match listing {
            Ok(EpisodeListing::Modified { episodes, etag: _ }) => if episodes@.len() > 0 {
                id == Some(&episodes@[0].id)
            } else {
                id is None
            },
            _ => id is None,
        },
{
    match listing {
        Ok(EpisodeListing::Modified { episodes, etag: _ }) => if episodes.len() > 0 {
            Some(&episodes[0].id)
        } else {
            None
        },
        _ => None,
    }
}

/// What a probe says of an episode's audio. Credentials do not show.
pub open spec fn probe_audio_model(source: Result<AudioSource, ProviderError>) -> Seq<char> {
    match source {
        Ok(source) => "audio:     OK  "@ + redacted_text(source.url@) + " ("@
            + mime_or(source.mime, "mime unknown"@) + ", "@ + match source.bytes {
            Some(bytes) => decimal(bytes as nat) + " bytes"@,
            None => "size unknown"@,
        } + ")"@,
        Err(error) => "audio:     FAILED  "@ + provider_error_text(error),
    }
}

/// What a probe says of an episode's audio.
pub fn probe_audio(source: &Result<AudioSource, ProviderError>) -> (line: String)
    ensures
        line@ == probe_audio_model(*source),
{
    match source {
        Ok(source) => {
            let mut line = "audio:     OK  ".to_owned();
            line.append(redacted(&source.url).as_str());
            line.append(" (");
            match &source.mime {
                Some(mime) => {
                    line.append(mime.to_string().as_str());
                },
                None => {
                    line.append("mime unknown");
                },
            }
            line.append(", ");
            match source.bytes {
                Some(bytes) => {
                    let mut text = decimal_text(bytes);
                    text.append(" bytes");
                    line.append(text.as_str());
                },
                None => {
                    line.append("size unknown");
                },
            }
            line.append(")");
            line
        },
        Err(error) => {
            let mut line = "audio:     FAILED  ".to_owned();
            line.append(error.to_string().as_str());
            line
        },
    }
}

/// The counts in a report are the numbers of episodes in each state.
pub proof fn law_states_are_counted(episodes: Seq<EpisodeStatus>)
    ensures
        kind_count(episodes, Kind::Discovered) == episodes.filter(
            |e: EpisodeStatus| e.state is Discovered,
        ).len(),
        kind_count(episodes, Kind::Downloading) == episodes.filter(
            |e: EpisodeStatus| e.state is Downloading,
        ).len(),
        kind_count(episodes, Kind::Cached) == episodes.filter(
            |e: EpisodeStatus| e.state is Cached,
        ).len(),
        kind_count(episodes, Kind::Pruned) == episodes.filter(
            |e: EpisodeStatus| e.state is Pruned,
        ).len(),
        kind_count(episodes, Kind::Failed) == episodes.filter(
            |e: EpisodeStatus| e.state is Failed,
        ).len(),
    decreases episodes.len(),
{
    reveal(Seq::filter);
    if episodes.len() > 0 {
        law_states_are_counted(episodes.drop_last());
    }
}

/// A show's page names its slug, its title and its provider, in that order.
pub proof fn law_a_show_is_introduced(show: ShowStatus)
    ensures
        show_model(show).len() >= 6,
        reads(show_model(show)[1]) == show.slug@ + " — "@ + show.title@ + " "@ + ("["@
            + show.provider@ + "]"@),
        reads(show_model(show)[0]) == repeated('─', 72),
{
    reveal_with_fuel(reading, 6);
}

/// A show's page says when the show was last polled and whether that
/// worked; a poll that failed is shown with its error, in red.
pub proof fn law_polls_are_reported(show: ShowStatus)
    ensures
        match (show.last_poll_at, show.last_poll_ok) {
            (Some(at), Some(ok)) => {
                &&& reads(show_model(show)[3]) == "  last poll "@ + timestamp_formatted(
                    at@,
                    "%Y-%m-%d %H:%M:%SZ"@,
                ) + " "@ + if ok {
                    "(ok)"@
                } else {
                    "(FAILED: "@ + match show.last_error {
                        Some(error) => error@,
                        None => "unknown error"@,
                    } + ")"@
                }
                &&& show_model(show)[3].last().style.color == if ok {
                    Color::Green
                } else {
                    Color::Red
                }
            },
            _ => reads(show_model(show)[3]) == "  "@ + "never polled"@,
        },
{
    reveal_with_fuel(reading, 6);
}

/// The texts of a show's summary line: how many episodes are on disk and how
/// large they are, how many wait, failed and were pruned, and, only while
/// there are any, how many are being fetched.
pub proof fn law_a_show_is_summed_up(show: ShowStatus)
    ensures
        ({
            let line = show_model(show)[4];
            let cached = show.episodes@.filter(|e: EpisodeStatus| e.state is Cached).len();
            let waiting = show.episodes@.filter(|e: EpisodeStatus| e.state is Discovered).len();
            let failed = show.episodes@.filter(|e: EpisodeStatus| e.state is Failed).len();
            let pruned = show.episodes@.filter(|e: EpisodeStatus| e.state is Pruned).len();
            let fetching = show.episodes@.filter(|e: EpisodeStatus| e.state is Downloading).len();
            &&& line[1].text == decimal(cached) + " cached ("@ + size_text(show.cached_bytes)
                + ")"@
            &&& line[5].text == decimal(waiting) + " "@ + "discovered"@
            &&& line[9].text == decimal(failed) + " "@ + "failed"@
            &&& line[9].style.color == if failed > 0 {
                Color::Red
            } else {
                Color::Default
            }
            &&& line[13].text == decimal(pruned) + " "@ + "pruned"@
            &&& fetching == 0 ==> line.len() == 14
            &&& fetching > 0 ==> line.len() == 18 && line[17].text == decimal(fetching)
                + " downloading"@
        }),
{
    law_states_are_counted(show.episodes@);
}

/// A show's page lists the episodes on disk, each with its own lines, in
/// the order of the report, and no others.
pub proof fn law_cached_episodes_are_listed(episodes: Seq<EpisodeStatus>, episode: EpisodeStatus)
    ensures
        episodes_model(Seq::empty()).len() == 0,
        episode.state is Cached ==> episodes_model(episodes.push(episode)) == episodes_model(
            episodes,
        ) + episode_model(episode),
        !(episode.state is Cached) ==> episodes_model(episodes.push(episode)) == episodes_model(
            episodes,
        ),
{
    assert(episodes.push(episode).drop_last() =~= episodes);
}

/// The first line of a listed episode: its id, size, type, length and when
/// it was downloaded, with a question mark for what is not known.
pub proof fn law_an_episode_is_described(episode: EpisodeStatus)
    ensures
        reads(episode_model(episode)[0]) == "  "@ + episode.id@ + ("  "@ + aligned_right(
            match episode.bytes {
                Some(bytes) => size_text(bytes),
                None => "?"@,
            },
            10,
        ) + "  "@) + aligned_left(
            match episode.mime {
                Some(mime) => mime_text(mime),
                None => "mime?"@,
            },
            11,
        ) + ("  "@ + aligned_right(
            match episode.duration_secs {
                Some(secs) => crate::human::duration_text(secs as u64),
                None => "?"@,
            },
            9,
        ) + "  "@) + ("downloaded "@ + match episode.downloaded_at {
            Some(at) => timestamp_formatted(at@, "%Y-%m-%d %H:%M:%SZ"@),
            None => "?"@,
        }),
{
    reveal_with_fuel(reading, 8);
}

/// The further lines of a listed episode: its description where there is
/// one, then its digest, then its path, then a blank line.
pub proof fn law_an_episode_has_its_files(episode: EpisodeStatus)
    ensures
        ({
            let page = episode_model(episode);
            let n = page.len() as int;
            let blake3 = match episode.blake3 {
                Some(hash) => hash@,
                None => "?"@,
            };
            let path = match episode.file_path {
                Some(path) => path@,
                None => "<file path missing>"@,
            };
            &&& page.len() == if episode.description is Some {
                5nat
            } else {
                4nat
            }
            &&& episode.description matches Some(description) ==> reads(page[1]) == repeated(
                ' ',
                11,
            ) + description@
            &&& reads(page[n - 3]) == repeated(' ', 11) + ("blake3 "@ + blake3)
            &&& reads(page[n - 2]) == repeated(' ', 11) + path
            &&& page[n - 1].len() == 0
        }),
{
    reveal_with_fuel(reading, 4);
}

/// A show's page names the failed episodes, each with the kind of its
/// failure, in the order of the report; it has no such line where none failed.
pub proof fn law_failures_are_listed(episodes: Seq<EpisodeStatus>, episode: EpisodeStatus)
    ensures
        failed_texts(Seq::empty()).len() == 0,
        failed_texts(episodes.push(episode)) == match episode.state {
            EpisodeState::Failed(class) => failed_texts(episodes).push(
                episode.id@ + " ("@ + error_class_text(class) + ")"@,
            ),
            _ => failed_texts(episodes),
        },
        failed_texts(episodes).len() == 0 ==> failed_model(episodes).len() == 0,
        failed_texts(episodes).len() > 0 ==> failed_model(episodes).len() == 2 && reads(
            failed_model(episodes)[0],
        ) == "  "@ + "failed:"@ + " "@ + joined(failed_texts(episodes), ", "@),
{
    reveal_with_fuel(reading, 6);
    assert(episodes.push(episode).drop_last() =~= episodes);
}

/// A show's page: the introduction, the episodes on disk, the failures.
pub proof fn law_a_show_has_its_page(show: ShowStatus)
    ensures
        show_model(show).skip(6) == episodes_model(show.episodes@) + failed_model(show.episodes@),
        show_model(show)[2].len() == 0,
        show_model(show)[5].len() == 0,
{
}

/// A report has a page for every stored show, in the order of the report.
pub proof fn law_every_show_has_a_page(shows: Seq<ShowStatus>, show: ShowStatus)
    ensures
        shows_model(Seq::empty()).len() == 0,
        shows_model(shows.push(show)) == shows_model(shows) + show_model(show),
{
    assert(shows.push(show).drop_last() =~= shows);
}

/// A report names every show that is configured and was never synced.
pub proof fn law_unsynced_shows_are_named(slugs: Seq<ShowSlug>, slug: ShowSlug)
    ensures
        all_unsynced_model(Seq::empty()).len() == 0,
        all_unsynced_model(slugs.push(slug)) == all_unsynced_model(slugs) + unsynced_model(slug),
        unsynced_model(slug).len() == 3,
        reads(unsynced_model(slug)[0]) == repeated('─', 72),
        reads(unsynced_model(slug)[1]) == slug@ + " — "@ + "configured, never synced"@,
        unsynced_model(slug)[2].len() == 0,
{
    reveal_with_fuel(reading, 5);
    assert(slugs.push(slug).drop_last() =~= slugs);
}

/// A report ends with the totals, the database's path and the directory
/// the files are in.
pub proof fn law_reports_end_with_totals(report: StatusReport)
    ensures
        ({
            let page = report_model(report);
            let n = page.len() as int;
            &&& n >= 4
            &&& reads(page[n - 4]) == repeated('═', 72)
            &&& reads(page[n - 3]) == "total"@ + ("    "@ + decimal(report.total_files as nat)
                + " file(s) on disk · "@) + size_text(report.total_bytes)
            &&& reads(page[n - 2]) == "state db"@ + " "@ + report.state_db@
            &&& reads(page[n - 1]) == "data dir"@ + " "@ + report.data_dir@
            &&& page.take(n - 4) == hint_model(report.shows@) + shows_model(report.shows@)
                + all_unsynced_model(report.configured_never_synced@)
        }),
{
    reveal_with_fuel(reading, 5);
    let page = report_model(report);
    let n = page.len() as int;
    let front = hint_model(report.shows@) + shows_model(report.shows@) + all_unsynced_model(
        report.configured_never_synced@,
    );
    assert(page == front + totals_model(report));
    assert(page.take(n - 4) =~= front);
    assert(page[n - 4] == totals_model(report)[0]);
    assert(page[n - 3] == totals_model(report)[1]);
    assert(page[n - 2] == totals_model(report)[2]);
    assert(page[n - 1] == totals_model(report)[3]);
}

/// Only a report without shows says how to get some.
pub proof fn law_empty_reports_give_a_hint(shows: Seq<ShowStatus>)
    ensures
        shows.len() > 0 ==> hint_model(shows).len() == 0,
        shows.len() == 0 ==> hint_model(shows).len() == 2 && reads(hint_model(shows)[0])
            == "no shows in storage yet — run `splicefeed run --once` first"@ && hint_model(
            shows,
        )[1].len() == 0,
{
    reveal_with_fuel(reading, 3);
}

/// What is said of a damaged file: which episode it belongs to, what is
/// wrong, and whether it was mended, could not be, or was not tried.
pub proof fn law_damage_is_reported(outcome: VerifyOutcome, fix: bool)
    ensures
        reads(outcome_model(outcome, fix)) == "  "@ + outcome.id@ + "  "@ + file_problem_text(
            outcome.problem,
        ) + "  "@ + if outcome.fixed {
            "fixed ✓"@
        } else if fix {
            "NOT FIXED"@
        } else {
            "run --fix to re-download"@
        },
{
    reveal_with_fuel(reading, 8);
}

/// The page of a verified show: how many files were looked at and how many
/// were sound, then one line for every damaged file, in order.
pub proof fn law_verified_shows_have_a_page(show: ShowVerify, fix: bool, i: int)
    requires
        0 <= i < show.report.problems@.len(),
    ensures
        verify_model(show, fix).len() == show.report.problems@.len() + 3,
        reads(verify_model(show, fix)[1]) == show.slug@ + " — "@ + (decimal(
            show.report.checked as nat,
        ) + " checked · "@) + (decimal(show.report.intact as nat) + " intact"@),
        verify_model(show, fix)[i + 2] == outcome_model(show.report.problems@[i], fix),
        verify_model(show, fix).last().len() == 0,
{
    reveal_with_fuel(reading, 6);
}

/// A verification has a page for every show it looked at, in order, and
/// adds up what stayed damaged over all of them.
pub proof fn law_verified_shows_add_up(shows: Seq<ShowVerify>, show: ShowVerify, fix: bool)
    ensures
        run_model(Seq::empty(), fix).len() == 0,
        run_model(shows.push(show), fix) == run_model(shows, fix) + verify_model(show, fix),
        unfixed_in(Seq::empty()) == 0,
        unfixed_in(shows.push(show)) == unfixed_in(shows) + show.report.problems@.filter(
            |o: VerifyOutcome| !o.fixed,
        ).len(),
{
    assert(shows.push(show).drop_last() =~= shows);
    lemma_unfixed_are_filtered(show.report.problems@);
}

proof fn lemma_unfixed_are_filtered(problems: Seq<VerifyOutcome>)
    ensures
        unfixed_count(problems) == problems.filter(|o: VerifyOutcome| !o.fixed).len(),
    decreases problems.len(),
{
    reveal(Seq::filter);
    if problems.len() > 0 {
        lemma_unfixed_are_filtered(problems.drop_last());
    }
}

/// How a verification that leaves damage behind ends.
pub proof fn law_verification_failures_are_counted(unfixed: nat)
    ensures
        failure_text(unfixed, true) == decimal(unfixed) + " file(s) failed verification"@
            + " and could not be fixed"@,
        failure_text(unfixed, false) == decimal(unfixed) + " file(s) failed verification"@
            + " (run with --fix to re-download)"@,
{
}

/// A probe asks the provider that the show is configured for, and `difm` for
/// a show that is not configured.
pub proof fn law_probes_ask_the_configured_provider(config: Config, slug: Seq<char>, i: int)
    ensures
        0 <= i < config.shows@.len() && config.shows@[i].slug@ == slug && (forall|j: int|
            0 <= j < i ==> (#[trigger] config.shows@[j]).slug@ != slug) ==> probe_provider_of(
            config,
            slug,
        ) == config.shows@[i].provider@,
        (forall|j: int| 0 <= j < config.shows@.len() ==> (#[trigger] config.shows@[j]).slug@ != slug)
            ==> probe_provider_of(config, slug) == "difm"@,
{
    crate::library::law_shows_are_found_by_slug(config.shows@, slug);
}

/// What a probe says of a show: its title, how long its description is and
/// where its artwork lies, with what is missing named; or the failure.
pub proof fn law_probed_shows(meta: ShowMeta, error: ProviderError)
    ensures
        probe_show_model(Ok(meta)).len() == 3,
        probe_show_model(Ok(meta))[0] == "show:      OK  title="@ + debug_quoted(meta.title@),
        probe_show_model(Ok(meta))[1] == "           description: "@ + match meta.description {
            Some(text) => decimal(vstd::utf8::encode_utf8(text@).len()) + " chars"@,
            None => "MISSING"@,
        },
        probe_show_model(Ok(meta))[2] == "           artwork: "@ + match meta.artwork {
            Some(url) => url@,
            None => "MISSING"@,
        },
        probe_show_model(Err(error)).len() == 1,
        probe_show_model(Err(error))[0] == "show:      FAILED  "@ + provider_error_text(error),
{
}

/// What a probe says of a listing: how many entries there are, then the first
/// few of them, in order, one line each.
pub proof fn law_probed_listings(episodes: Seq<EpisodeMeta>, i: int)
    ensures
        listed_model(episodes).len() == 1 + if episodes.len() < 5 {
            episodes.len()
        } else {
            5
        },
        listed_model(episodes)[0] == "episodes:  OK  "@ + decimal(episodes.len())
            + " parsed (drifted entries, if any, are quarantined and warned above)"@,
        0 <= i < 5 && i < episodes.len() ==> listed_model(episodes)[i + 1] == repeated(' ', 11)
            + aligned_right(episodes[i].id@, 8) + "  "@ + aligned_left(
            debug_quoted(episodes[i].title@),
            60,
        ) + "  "@ + match episodes[i].published_at {
            Some(at) => timestamp_text(at@),
            None => "pubdate MISSING"@,
        } + "  "@ + match episodes[i].duration_secs {
            Some(secs) => decimal(secs as nat) + "s"@,
            None => "duration MISSING"@,
        },
{
}

/// What a probe says of a listing that is not one.
pub proof fn law_probed_listings_may_fail(error: ProviderError)
    ensures
        probe_listing_model(Ok(EpisodeListing::NotModified)).len() == 1,
        probe_listing_model(Ok(EpisodeListing::NotModified))[0]
            == "episodes:  unexpected 304 without a validator"@,
        probe_listing_model(Err(error)).len() == 1,
        probe_listing_model(Err(error))[0] == "episodes:  FAILED  "@ + provider_error_text(error),
{
}

/// What a probe says of audio: the URL without credentials, the type and the
/// size, or the failure. Two sources whose URLs differ only in what is
/// blotted out are told apart by nothing.
pub proof fn law_probed_audio(a: AudioSource, b: AudioSource, error: ProviderError)
    ensures
        probe_audio_model(Ok(a)) == "audio:     OK  "@ + redacted_text(a.url@) + " ("@
            + match a.mime {
            Some(mime) => mime_text(mime),
            None => "mime unknown"@,
        } + ", "@ + match a.bytes {
            Some(bytes) => decimal(bytes as nat) + " bytes"@,
            None => "size unknown"@,
        } + ")"@,
        redacted_text(a.url@) == redacted_text(b.url@) && a.mime == b.mime && a.bytes == b.bytes
            ==> probe_audio_model(Ok(a)) == probe_audio_model(Ok(b)),
        probe_audio_model(Err(error)) == "audio:     FAILED  "@ + provider_error_text(error),
{
}

} // verus!
