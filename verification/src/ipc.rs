//! The control protocol: what the daemon's socket and its clients say to
//! each other, one JSON object per line.

use vstd::prelude::*;

use crate::domain::{EpisodeId, ErrorClass, ShowSlug};

verus! {

/// Protocol version, exchanged in [`Hello`] so mismatches fail clearly.
pub const PROTOCOL_VERSION: u32 = 1;

/// First message sent by the daemon on every new connection.
#[derive(Debug)]
pub struct Hello {
    /// The daemon's [`PROTOCOL_VERSION`].
    pub protocol_version: u32,
    /// Daemon version string.
    pub daemon_version: String,
}

/// A client request.
#[derive(Debug, Clone, Copy, PartialEq, Eq, Structural)]
pub enum Request {
    /// Ask for a one-shot [`Snapshot`] of daemon state.
    Snapshot,
    /// Ask for a snapshot followed by a live [`Event`] stream.
    Subscribe,
}

/// A daemon response to a [`Request`].
#[derive(Debug)]
pub enum Response {
    /// Current daemon state.
    Snapshot(Snapshot),
    /// The request could not be served.
    Error {
        /// Human-readable reason.
        message: String,
    },
}

/// Point-in-time view of daemon state.
#[derive(Debug)]
pub struct Snapshot {
    /// Seconds since the daemon started.
    pub uptime_secs: u64,
    /// Per-show status, in config order.
    pub shows: Vec<ShowStatus>,
    /// In-flight downloads.
    pub downloads: Vec<DownloadStatus>,
    /// Total bytes used in the data directory.
    pub data_dir_bytes: u64,
    /// HTTP requests served since start.
    pub http_requests: u64,
}

/// Status of one followed show.
#[derive(Debug)]
pub struct ShowStatus {
    /// The show.
    pub slug: ShowSlug,
    /// Provider registry name.
    pub provider: String,
    /// Unix seconds of the last poll attempt, if any.
    pub last_poll_at: Option<i64>,
    /// Whether the last poll succeeded.
    pub last_poll_ok: Option<bool>,
    /// Unix seconds of the next scheduled poll.
    pub next_poll_at: Option<i64>,
    /// Episodes currently cached on disk.
    pub episodes_cached: u64,
    /// Bytes on disk for this show.
    pub cache_bytes: u64,
    /// Most recent error, if the show is unhealthy.
    pub last_error: Option<String>,
}

/// Progress of one in-flight download.
#[derive(Debug)]
pub struct DownloadStatus {
    /// The show the episode belongs to.
    pub show: ShowSlug,
    /// The episode being fetched.
    pub episode: EpisodeId,
    /// Bytes written so far.
    pub bytes_done: u64,
    /// Total bytes, when upstream provided a length.
    pub bytes_total: Option<u64>,
    /// Recent throughput in bytes per second.
    pub bytes_per_sec: u64,
}

/// One event on a subscription stream.
#[derive(Debug)]
pub enum Event {
    /// An event this protocol version understands.
    Known(KnownEvent),
    /// An event from a newer daemon, as the JSON it came as; ignore it,
    /// never fail.
    Unknown(String),
}

/// Events the daemon emits while running.
#[derive(Debug)]
pub enum KnownEvent {
    /// A poll of a show started.
    PollStarted {
        /// The show being polled.
        show: ShowSlug,
    },
    /// A poll finished.
    PollFinished {
        /// The show that was polled.
        show: ShowSlug,
        /// Whether the poll succeeded.
        ok: bool,
        /// Episodes newly discovered by this poll.
        new_episodes: u32,
    },
    /// A new episode was recorded.
    EpisodeDiscovered {
        /// The show it belongs to.
        show: ShowSlug,
        /// The new episode.
        episode: EpisodeId,
    },
    /// A download finished, successfully or not.
    DownloadFinished {
        /// The show it belongs to.
        show: ShowSlug,
        /// The episode.
        episode: EpisodeId,
        /// Failure classification; `None` means success.
        error: Option<ErrorClass>,
    },
    /// Retention pruned episodes from a show.
    Pruned {
        /// The show that was pruned.
        show: ShowSlug,
        /// Episodes removed.
        episodes: u32,
        /// Bytes freed.
        bytes_freed: u64,
    },
    /// A provider response failed to parse and was quarantined.
    Quarantined {
        /// Provider registry name.
        provider: String,
        /// Path of the quarantined payload, when the write succeeded.
        path: Option<String>,
    },
}

/// A [`KnownEvent`] as a mathematical value.
pub enum EventModel {
    /// A poll of a show started.
    PollStarted {
        /// The show.
        show: Seq<char>,
    },
    /// A poll finished.
    PollFinished {
        /// The show.
        show: Seq<char>,
        /// Whether the poll succeeded.
        ok: bool,
        /// Episodes newly discovered.
        new_episodes: u32,
    },
    /// A new episode was recorded.
    EpisodeDiscovered {
        /// The show.
        show: Seq<char>,
        /// The episode.
        episode: Seq<char>,
    },
    /// A download finished.
    DownloadFinished {
        /// The show.
        show: Seq<char>,
        /// The episode.
        episode: Seq<char>,
        /// Failure classification.
        error: Option<ErrorClass>,
    },
    /// Retention pruned episodes.
    Pruned {
        /// The show.
        show: Seq<char>,
        /// Episodes removed.
        episodes: u32,
        /// Bytes freed.
        bytes_freed: u64,
    },
    /// A payload was quarantined.
    Quarantined {
        /// Provider registry name.
        provider: Seq<char>,
        /// Path of the payload.
        path: Option<Seq<char>>,
    },
}

impl View for KnownEvent {
    type V = EventModel;

    open spec fn view(&self) -> EventModel {
        match *self {
            KnownEvent::PollStarted { show } => EventModel::PollStarted { show: show@ },
            KnownEvent::PollFinished { show, ok, new_episodes } => EventModel::PollFinished {
                show: show@,
                ok,
                new_episodes,
            },
            KnownEvent::EpisodeDiscovered { show, episode } => EventModel::EpisodeDiscovered {
                show: show@,
                episode: episode@,
            },
            KnownEvent::DownloadFinished { show, episode, error } => EventModel::DownloadFinished {
                show: show@,
                episode: episode@,
                error,
            },
            KnownEvent::Pruned { show, episodes, bytes_freed } => EventModel::Pruned {
                show: show@,
                episodes,
                bytes_freed,
            },
            KnownEvent::Quarantined { provider, path } => EventModel::Quarantined {
                provider: provider@,
                path: crate::text::opt_text(path),
            },
        }
    }
}

/// Events as mathematical values.
pub open spec fn event_models(events: Seq<KnownEvent>) -> Seq<EventModel> {
    events.map_values(|e: KnownEvent| e@)
}

/// The greeting of a daemon of this version.
pub fn hello(daemon_version: &str) -> (hello: Hello)
    ensures
        hello.protocol_version == PROTOCOL_VERSION,
        hello.daemon_version@ == daemon_version@,
{
    Hello { protocol_version: PROTOCOL_VERSION, daemon_version: daemon_version.to_owned() }
}

/// One message as a line: its JSON and a newline.
pub fn frame(json: Vec<u8>) -> (line: Vec<u8>)
    ensures
        line@ == json@.push(10u8),
{
    let mut line = json;
    line.push(10);
    line
}

/// An event's model says what the event says.
pub proof fn law_event_models(event: KnownEvent)
    ensures
        event matches KnownEvent::PollStarted { show } ==> event@ == (EventModel::PollStarted {
            show: show@,
        }),
        event matches KnownEvent::PollFinished { show, ok, new_episodes } ==> event@ == (
        EventModel::PollFinished { show: show@, ok, new_episodes }),
        event matches KnownEvent::EpisodeDiscovered { show, episode } ==> event@ == (
        EventModel::EpisodeDiscovered { show: show@, episode: episode@ }),
        event matches KnownEvent::DownloadFinished { show, episode, error } ==> event@ == (
        EventModel::DownloadFinished { show: show@, episode: episode@, error }),
        event matches KnownEvent::Pruned { show, episodes, bytes_freed } ==> event@ == (
        EventModel::Pruned { show: show@, episodes, bytes_freed }),
        PROTOCOL_VERSION == 1,
{
}

} // verus!
