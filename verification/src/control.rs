//! The control socket's decisions: how a session with a client goes, what a
//! request line is answered with, and the snapshot of the daemon's state.

use vstd::prelude::*;

use crate::config::{Config, ShowConfig};
use crate::domain::{EpisodeId, EpisodeState, ShowSlug};
use crate::ipc::{
    hello, DownloadStatus, Hello, Request, Response, ShowStatus, Snapshot, PROTOCOL_VERSION,
};
use crate::library::{find_config, lemma_find_config_take};
use crate::order::{insert_ranked, ranked, ranked_insert, Ranked};
use crate::report::{cached_bytes, cached_count};
use crate::storage::{EpisodeRecord, ShowRecord, Storage};
use crate::text::{copy_opt, is_blank, sorts_before, text_before};

verus! {

/// Daemon vitals that the HTTP server contributes to.
#[derive(Debug, Clone, Copy, PartialEq, Eq, Structural)]
pub struct Vitals {
    /// HTTP requests served since start.
    pub http_requests: u64,
}

impl Default for Vitals {
    fn default() -> (vitals: Vitals)
        ensures
            vitals.http_requests == 0,
    {
        Vitals { http_requests: 0 }
    }
}

impl Vitals {
    /// One more request was served.
    pub fn served(&mut self)
        ensures
            final(self).http_requests == if old(self).http_requests == u64::MAX {
                u64::MAX
            } else {
                (old(self).http_requests + 1) as u64
            },
    {
        if self.http_requests < u64::MAX {
            self.http_requests = self.http_requests + 1;
        }
    }
}

/// What a request line is answered with.
#[derive(Debug)]
pub enum Answer {
    /// Nothing: the line is blank.
    Skip,
    /// A snapshot.
    Snapshot,
    /// A snapshot, then events until the client hangs up.
    Stream,
    /// An error.
    Refuse(String),
}

/// An [`Answer`] as a mathematical value.
pub enum AnswerModel {
    /// Nothing.
    Skip,
    /// A snapshot.
    Snapshot,
    /// A snapshot, then events.
    Stream,
    /// An error with this message.
    Refuse(Seq<char>),
}

impl View for Answer {
    type V = AnswerModel;

    open spec fn view(&self) -> AnswerModel {
        match *self {
            Answer::Skip => AnswerModel::Skip,
            Answer::Snapshot => AnswerModel::Snapshot,
            Answer::Stream => AnswerModel::Stream,
            Answer::Refuse(message) => AnswerModel::Refuse(message@),
        }
    }
}

/// A line a client sent: its text, and what that parses to.
pub struct Line {
    /// The text.
    pub text: Seq<char>,
    /// The request it is, or why it is none.
    pub parsed: Result<Request, Seq<char>>,
}

/// What a line parses to, with the reason as a mathematical value.
pub open spec fn parsed_model(parsed: Result<Request, String>) -> Result<Request, Seq<char>> {
    match parsed {
        Ok(request) => Ok(request),
        Err(reason) => Err(reason@),
    }
}

/// Whether a line is blank.
pub open spec fn blank_line(line: Line) -> bool {
    forall|i: int| 0 <= i < line.text.len() ==> crate::text::is_white(#[trigger] line.text[i])
}

/// Whether a line asks for the stream of events.
pub open spec fn subscribes(line: Line) -> bool {
    !blank_line(line) && line.parsed == Ok::<Request, Seq<char>>(Request::Subscribe)
}

/// What a line is answered with. One that does not parse is answered, not
/// dropped.
pub open spec fn answer_of(line: Line) -> AnswerModel {
    if blank_line(line) {
        AnswerModel::Skip
    } else {
        match line.parsed {
            Ok(Request::Snapshot) => AnswerModel::Snapshot,
            Ok(Request::Subscribe) => AnswerModel::Stream,
            Err(reason) => AnswerModel::Refuse("unparseable request: "@ + reason),
        }
    }
}

/// What a request line is answered with, given what it parses to. A line
/// that does not parse is answered, not dropped.
pub fn talk(line: &str, parsed: Result<Request, String>) -> (answer: Answer)
    ensures
        answer@ == answer_of(Line { text: line@, parsed: parsed_model(parsed) }),
{
    let ghost whole = Line { text: line@, parsed: parsed_model(parsed) };
    if is_blank(line) {
        assert(blank_line(whole));
        return Answer::Skip;
    }
    proof {
        let i = choose|i: int| 0 <= i < line@.len() && !crate::text::is_white(#[trigger] line@[i]);
        assert(!crate::text::is_white(whole.text[i]));
    }
    match parsed {
        Ok(Request::Snapshot) => Answer::Snapshot,
        Ok(Request::Subscribe) => Answer::Stream,
        Err(reason) => {
            let mut message = "unparseable request: ".to_owned();
            message.append(reason.as_str());
            Answer::Refuse(message)
        },
    }
}

/// A session with a client. It is greeted, its lines are answered one by
/// one, and once it subscribed it hears events and nothing else.
#[derive(Debug)]
pub struct Session {
    streaming: bool,
}

impl Session {
    /// Whether the client subscribed.
    pub closed spec fn streams(self) -> bool {
        self.streaming
    }

    /// A client connected: it is greeted before it says anything.
    pub fn opened(daemon_version: &str) -> (opened: (Session, Hello))
        ensures
            !opened.0.streams(),
            opened.1.protocol_version == PROTOCOL_VERSION,
            opened.1.daemon_version@ == daemon_version@,
    {
        (Session { streaming: false }, hello(daemon_version))
    }

    /// The client sent a line. Until it subscribes each line is answered;
    /// afterwards none is.
    pub fn heard(&mut self, line: &str, parsed: Result<Request, String>) -> (answer: Answer)
        ensures
            answer@ == session_answer(
                old(self).streams(),
                Line { text: line@, parsed: parsed_model(parsed) },
            ),
            final(self).streams() == session_next(
                old(self).streams(),
                Line { text: line@, parsed: parsed_model(parsed) },
            ),
    {
        if self.streaming {
            return Answer::Skip;
        }
        let answer = talk(line, parsed);
        match answer {
            Answer::Stream => {
                self.streaming = true;
            },
            _ => {},
        }
        answer
    }

    /// Whether an event goes out to the client: only once it subscribed.
    pub fn forwards_events(&self) -> (forwards: bool)
        ensures
            forwards == self.streams(),
    {
        self.streaming
    }
}

/// What a line is answered with in a session that streams or does not.
pub open spec fn session_answer(streams: bool, line: Line) -> AnswerModel {
    if streams {
        AnswerModel::Skip
    } else {
        answer_of(line)
    }
}

/// Whether a session streams after a line.
pub open spec fn session_next(streams: bool, line: Line) -> bool {
    streams || subscribes(line)
}

/// What the daemon sends in a session, but for the events.
pub enum Sent {
    /// The greeting, with the protocol version.
    Hello(u32),
    /// The response to a line.
    Response(AnswerModel),
}

/// Whether a session streams after these lines.
pub open spec fn streams_after(lines: Seq<Line>) -> bool
    decreases lines.len(),
{
    lines.len() > 0 && session_next(streams_after(lines.drop_last()), lines.last())
}

/// What was sent after these lines, step by step.
pub open spec fn sent_after(lines: Seq<Line>) -> Seq<Sent>
    decreases lines.len(),
{
    if lines.len() == 0 {
        seq![Sent::Hello(PROTOCOL_VERSION)]
    } else {
        let before = sent_after(lines.drop_last());
        match session_answer(streams_after(lines.drop_last()), lines.last()) {
            AnswerModel::Skip => before,
            answer => before.push(Sent::Response(answer)),
        }
    }
}

/// The response to each line that is not blank, in order.
pub open spec fn responses(lines: Seq<Line>) -> Seq<Sent>
    decreases lines.len(),
{
    if lines.len() == 0 {
        Seq::empty()
    } else if blank_line(lines.last()) {
        responses(lines.drop_last())
    } else {
        responses(lines.drop_last()).push(Sent::Response(answer_of(lines.last())))
    }
}

/// How many lines are answered: those up to the first that subscribes.
pub open spec fn answered(lines: Seq<Line>) -> nat
    decreases lines.len(),
{
    if lines.len() == 0 {
        0
    } else if streams_after(lines.drop_last()) {
        answered(lines.drop_last())
    } else {
        lines.len()
    }
}

/// A session goes in order: the greeting with the protocol version comes
/// first, each line that is not blank, up to the first that subscribes, gets
/// exactly one response in its turn, and after that nothing but events goes
/// out, which before it did not.
pub proof fn law_session_order(lines: Seq<Line>)
    ensures
        answered(lines) <= lines.len(),
        sent_after(lines) == seq![Sent::Hello(PROTOCOL_VERSION)] + responses(
            lines.take(answered(lines) as int),
        ),
        forall|i: int| 0 <= i < answered(lines) - 1 ==> !subscribes(#[trigger] lines[i]),
        answered(lines) < lines.len() ==> answered(lines) > 0 && subscribes(
            lines[answered(lines) - 1],
        ),
        streams_after(lines) <==> answered(lines) > 0 && subscribes(lines[answered(lines) - 1]),
    decreases lines.len(),
{
    if lines.len() == 0 {
        assert(lines.take(0) =~= Seq::empty());
        assert(sent_after(lines) =~= seq![Sent::Hello(PROTOCOL_VERSION)] + responses(
            lines.take(0),
        ));
    } else {
        let before = lines.drop_last();
        law_session_order(before);
        let n = answered(before) as int;
        let greeting = seq![Sent::Hello(PROTOCOL_VERSION)];
        if streams_after(before) {
            assert(before.take(n) =~= lines.take(n));
            assert forall|i: int| 0 <= i < n - 1 implies !subscribes(#[trigger] lines[i]) by {
                assert(before[i] == lines[i]);
            }
        } else {
            assert(n == before.len());
            assert(before.take(n) =~= before);
            assert(lines.take(lines.len() as int) =~= lines);
            if !blank_line(lines.last()) {
                assert(greeting + responses(lines) =~= (greeting + responses(before)).push(
                    Sent::Response(answer_of(lines.last())),
                ));
            }
            assert forall|i: int| 0 <= i < lines.len() - 1 implies !subscribes(
                #[trigger] lines[i],
            ) by {
                assert(before[i] == lines[i]);
            }
        }
    }
}

/// The response to a request for a snapshot: the one that was taken, or why
/// none could be.
pub fn response(taken: Result<Snapshot, String>) -> (response: Response)
    ensures
        response == match taken {
            Ok(snapshot) => Response::Snapshot(snapshot),
            Err(message) => Response::Error { message },
        },
{
    match taken {
        Ok(snapshot) => Response::Snapshot(snapshot),
        Err(message) => Response::Error { message },
    }
}

/// The last progress seen of one download.
#[derive(Debug)]
pub struct Observation {
    /// The show.
    pub show: ShowSlug,
    /// The episode.
    pub episode: EpisodeId,
    /// Bytes received by then.
    pub done: u64,
    /// When, in nanoseconds of the daemon's clock.
    pub at: u64,
}

/// An observation as a mathematical value.
pub struct ObservationModel {
    /// The show.
    pub show: Seq<char>,
    /// The episode.
    pub episode: Seq<char>,
    /// Bytes received by then.
    pub done: u64,
    /// When.
    pub at: u64,
}

impl View for Observation {
    type V = ObservationModel;

    open spec fn view(&self) -> ObservationModel {
        ObservationModel {
            show: self.show@,
            episode: self.episode@,
            done: self.done,
            at: self.at,
        }
    }
}

/// What was last seen of each download, for throughput between snapshots.
#[derive(Debug)]
pub struct Rates {
    /// One observation per download.
    pub seen: Vec<Observation>,
}

impl View for Rates {
    type V = Seq<ObservationModel>;

    open spec fn view(&self) -> Seq<ObservationModel> {
        self.seen@.map_values(|o: Observation| o@)
    }
}

/// Where a download was last seen, if it was.
pub open spec fn find_seen(
    seen: Seq<ObservationModel>,
    show: Seq<char>,
    episode: Seq<char>,
) -> Option<int>
    decreases seen.len(),
{
    if seen.len() == 0 {
        None
    } else {
        match find_seen(seen.drop_last(), show, episode) {
            Some(i) => Some(i),
            None => if seen.last().show == show && seen.last().episode == episode {
                Some(seen.len() - 1)
            } else {
                None
            },
        }
    }
}

proof fn lemma_find_seen_take(
    seen: Seq<ObservationModel>,
    show: Seq<char>,
    episode: Seq<char>,
    n: int,
)
    requires
        0 <= n <= seen.len(),
        find_seen(seen.take(n), show, episode) is Some,
    ensures
        find_seen(seen, show, episode) == find_seen(seen.take(n), show, episode),
    decreases seen.len(),
{
    if n < seen.len() {
        assert(seen.drop_last().take(n) =~= seen.take(n));
        lemma_find_seen_take(seen.drop_last(), show, episode, n);
    } else {
        assert(seen.take(n) =~= seen);
    }
}

/// What is on record after a download was seen.
pub open spec fn seen_after(
    seen: Seq<ObservationModel>,
    now: ObservationModel,
) -> Seq<ObservationModel> {
    match find_seen(seen, now.show, now.episode) {
        Some(i) => seen.update(i, now),
        None => seen.push(now),
    }
}

/// Bytes per second between two observations; nothing where there was no
/// progress or no time passed.
pub open spec fn throughput(before: ObservationModel, now: ObservationModel) -> u64 {
    if now.done > before.done && now.at > before.at {
        crate::report::capped(
            ((now.done - before.done) * 1_000_000_000 / (now.at - before.at)) as nat,
        )
    } else {
        0
    }
}

/// The throughput of a download against when it was last seen; nothing
/// until it was seen twice.
pub open spec fn rate_of(seen: Seq<ObservationModel>, now: ObservationModel) -> u64 {
    match find_seen(seen, now.show, now.episode) {
        Some(i) => throughput(seen[i], now),
        None => 0,
    }
}

impl Rates {
    /// Nothing seen yet.
    pub fn new() -> (rates: Rates)
        ensures
            rates@.len() == 0,
    {
        Rates { seen: Vec::new() }
    }

    /// See a download again: its throughput since it was last seen.
    pub fn rate(&mut self, show: &ShowSlug, episode: &EpisodeId, done: u64, at: u64) -> (rate: u64)
        ensures
            rate == rate_of(
                old(self)@,
                ObservationModel { show: show@, episode: episode@, done, at },
            ),
            final(self)@ == seen_after(
                old(self)@,
                ObservationModel { show: show@, episode: episode@, done, at },
            ),
    {
        let ghost seen = self@;
        let mut i: usize = 0;
        assert(seen.take(0) =~= Seq::empty());
        while i < self.seen.len()
            invariant
                i <= self.seen@.len(),
                seen == self@,
                seen == old(self)@,
                find_seen(seen.take(i as int), show@, episode@) is None,
            decreases self.seen@.len() - i,
        {
            proof {
                assert(seen.take(i + 1).drop_last() =~= seen.take(i as int));
                assert(seen.take(i + 1).last() == self.seen@[i as int]@);
            }
            if self.seen[i].show.same(show) && self.seen[i].episode.same(episode) {
                proof {
                    lemma_find_seen_take(seen, show@, episode@, i + 1);
                }
                let before: u64 = self.seen[i].done;
                let then: u64 = self.seen[i].at;
                let now = Observation { show: show.clone(), episode: episode.clone(), done, at };
                self.seen.set(i, now);
                assert(self@ =~= seen.update(i as int, now@));
                if done > before && at > then {
                    let bytes: u128 = (done - before) as u128;
                    let nanos: u128 = (at - then) as u128;
                    let rate: u128 = bytes * 1_000_000_000 / nanos;
                    if rate > u64::MAX as u128 {
                        return u64::MAX;
                    }
                    return rate as u64;
                }
                return 0;
            }
            i += 1;
        }
        assert(seen.take(seen.len() as int) =~= seen);
        let now = Observation { show: show.clone(), episode: episode.clone(), done, at };
        self.seen.push(now);
        assert(self@ =~= seen.push(now@));
        0
    }
}

/// The downloads among these episodes, in order.
pub open spec fn downloading_of(episodes: Seq<EpisodeRecord>) -> Seq<EpisodeRecord>
    decreases episodes.len(),
{
    if episodes.len() == 0 {
        Seq::empty()
    } else {
        let before = downloading_of(episodes.drop_last());
        if episodes.last().state is Downloading {
            before.push(episodes.last())
        } else {
            before
        }
    }
}

/// The downloads of these shows, show by show.
pub open spec fn in_flight_of(storage: Storage, shows: Seq<ShowRecord>) -> Seq<EpisodeRecord>
    decreases shows.len(),
{
    if shows.len() == 0 {
        Seq::empty()
    } else {
        in_flight_of(storage, shows.drop_last()) + downloading_of(
            crate::report::listed_episodes(storage, shows.last().slug@),
        )
    }
}

/// A download as it is observed now.
pub open spec fn observation_of(episode: EpisodeRecord, at: u64) -> ObservationModel {
    ObservationModel {
        show: episode.show@,
        episode: episode.id@,
        done: crate::library::projected_bytes(episode.bytes_done),
        at,
    }
}

/// What is on record after the first `n` downloads were seen.
pub open spec fn seen_through(
    seen: Seq<ObservationModel>,
    downloads: Seq<EpisodeRecord>,
    at: u64,
    n: nat,
) -> Seq<ObservationModel>
    decreases n,
{
    if n == 0 {
        seen
    } else {
        seen_after(
            seen_through(seen, downloads, at, (n - 1) as nat),
            observation_of(downloads[n - 1], at),
        )
    }
}

/// Whether `status` is download `i` of those in flight.
pub open spec fn download_reads(
    status: DownloadStatus,
    seen: Seq<ObservationModel>,
    downloads: Seq<EpisodeRecord>,
    at: u64,
    i: int,
) -> bool {
    let episode = downloads[i];
    &&& status.show == episode.show
    &&& status.episode == episode.id
    &&& status.bytes_done == crate::library::projected_bytes(episode.bytes_done)
    &&& status.bytes_total == episode.bytes_total
    &&& status.bytes_per_sec == rate_of(
        seen_through(seen, downloads, at, i as nat),
        observation_of(episode, at),
    )
}

/// The whole seconds of an instant.
pub open spec fn whole_seconds(at: int) -> int {
    if at >= 0 {
        at / 1_000_000_000
    } else {
        -((-at) / 1_000_000_000)
    }
}

/// Whether `status` is what a snapshot says of a show.
pub open spec fn show_reads(
    status: ShowStatus,
    show: ShowRecord,
    episodes: Seq<EpisodeRecord>,
) -> bool {
    &&& status.slug == show.slug
    &&& status.provider == show.provider
    &&& match (status.last_poll_at, show.last_poll_at) {
        (Some(secs), Some(at)) => secs == whole_seconds(at@),
        (None, None) => true,
        _ => false,
    }
    &&& status.last_poll_ok == show.last_poll_ok
    &&& status.next_poll_at is None
    &&& status.episodes_cached == crate::report::cached_count_of(episodes)
    &&& status.cache_bytes == crate::report::capped(crate::report::cached_bytes_of(episodes))
    &&& status.last_error == show.last_error
}

/// The downloads among these episodes, in order.
fn downloading(episodes: &Vec<EpisodeRecord>) -> (downloads: Vec<EpisodeRecord>)
    ensures
        downloads@ == downloading_of(episodes@),
{
    let mut downloads: Vec<EpisodeRecord> = Vec::new();
    let mut i: usize = 0;
    assert(episodes@.take(0) =~= Seq::empty());
    while i < episodes.len()
        invariant
            i <= episodes@.len(),
            downloads@ == downloading_of(episodes@.take(i as int)),
        decreases episodes@.len() - i,
    {
        proof {
            assert(episodes@.take(i + 1).drop_last() =~= episodes@.take(i as int));
            assert(episodes@.take(i + 1).last() == episodes@[i as int]);
        }
        match episodes[i].state {
            EpisodeState::Downloading => {
                downloads.push(episodes[i].clone());
            },
            _ => {},
        }
        i += 1;
    }
    assert(episodes@.take(episodes@.len() as int) =~= episodes@);
    downloads
}

/// Where a show stands in the configuration; behind every configured one
/// where it does not.
pub open spec fn place_of(shows: Seq<ShowConfig>, slug: Seq<char>) -> int {
    match find_config(shows, slug) {
        Some(i) => i,
        None => shows.len() as int,
    }
}

/// A show with its place.
pub struct Placed {
    /// Its place.
    pub place: usize,
    /// The show.
    pub record: ShowRecord,
}

/// Shows are listed by place, and by slug in the same place.
impl Ranked for Placed {
    open spec fn precedes(&self, other: &Self) -> bool {
        self.place < other.place || (self.place == other.place && text_before(
            self.record.slug@,
            other.record.slug@,
        ))
    }

    fn goes_before(&self, other: &Self) -> (before: bool) {
        self.place < other.place || (self.place == other.place && sorts_before(
            self.record.slug.as_str(),
            other.record.slug.as_str(),
        ))
    }

    proof fn lemma_weak_order(a: &Self, b: &Self, c: &Self) {
        crate::storage::lemma_text_weak_order(a.record.slug@, b.record.slug@, c.record.slug@);
    }
}

/// Shows with their places.
pub open spec fn placed_of(shows: Seq<ShowConfig>, records: Seq<ShowRecord>) -> Seq<Placed> {
    records.map_values(
        |r: ShowRecord| Placed { place: place_of(shows, r.slug@) as usize, record: r },
    )
}

/// Shows without their places.
pub open spec fn records_of(placed: Seq<Placed>) -> Seq<ShowRecord> {
    placed.map_values(|p: Placed| p.record)
}

/// The stored shows in the order of the configuration, those that are not
/// configured behind them, by slug.
pub open spec fn in_config_order(shows: Seq<ShowConfig>, records: Seq<ShowRecord>) -> Seq<
    ShowRecord,
> {
    records_of(ranked(placed_of(shows, records)))
}

/// Putting a show into its place adds that show and no other.
proof fn lemma_insert_adds_record(s: Seq<Placed>, x: Placed)
    ensures
        records_of(ranked_insert(s, x)).to_multiset() =~= records_of(s).to_multiset().insert(
            x.record,
        ),
    decreases s.len(),
{
    broadcast use vstd::seq_lib::group_to_multiset_ensures;

    if s.len() == 0 {
        assert(records_of(seq![x]) =~= records_of(s).push(x.record));
    } else if x.precedes(&s.last()) {
        lemma_insert_adds_record(s.drop_last(), x);
        assert(records_of(ranked_insert(s, x)) =~= records_of(
            ranked_insert(s.drop_last(), x),
        ).push(s.last().record));
        assert(records_of(s) =~= records_of(s.drop_last()).push(s.last().record));
    } else {
        assert(records_of(s.push(x)) =~= records_of(s).push(x.record));
    }
}

/// Putting shows into the order of the configuration loses and adds none.
pub proof fn law_config_order_rearranges(shows: Seq<ShowConfig>, records: Seq<ShowRecord>)
    ensures
        in_config_order(shows, records).to_multiset() =~= records.to_multiset(),
        in_config_order(shows, records).len() == records.len(),
    decreases records.len(),
{
    broadcast use vstd::seq_lib::group_to_multiset_ensures;

    let placed = placed_of(shows, records);
    if records.len() == 0 {
        assert(in_config_order(shows, records) =~= records);
    } else {
        law_config_order_rearranges(shows, records.drop_last());
        assert(placed.drop_last() =~= placed_of(shows, records.drop_last()));
        lemma_insert_adds_record(ranked(placed.drop_last()), placed.last());
        assert(records =~= records.drop_last().push(records.last()));
    }
    assert(in_config_order(shows, records).to_multiset().len() == records.to_multiset().len());
}

/// Of two shows in the order of the configuration, the first is configured
/// before the second; one that is not configured comes behind every one
/// that is, and two that are not go by slug.
pub proof fn law_config_order(
    shows: Seq<ShowConfig>,
    records: Seq<ShowRecord>,
    i: int,
    j: int,
)
    requires
        shows.len() <= usize::MAX,
        0 <= i < j < in_config_order(shows, records).len(),
    ensures
        ({
            let first = in_config_order(shows, records)[i].slug@;
            let second = in_config_order(shows, records)[j].slug@;
            &&& place_of(shows, first) <= place_of(shows, second)
            &&& place_of(shows, first) == place_of(shows, second) ==> !text_before(second, first)
        }),
{
    broadcast use vstd::seq_lib::group_to_multiset_ensures;

    let placed = placed_of(shows, records);
    let order = ranked(placed);
    crate::order::law_ranked_is_ordered(placed);
    crate::order::law_ranked_rearranges(placed);
    assert(!order[j].precedes(&order[i]));
    assert forall|k: int| 0 <= k < order.len() implies order[k].place == place_of(
        shows,
        #[trigger] order[k].record.slug@,
    ) by {
        assert(order.to_multiset().count(order[k]) > 0);
        assert(placed.contains(order[k]));
        lemma_place_in_range(shows, order[k].record.slug@);
    }
    assert(order[i].place == place_of(shows, order[i].record.slug@));
    assert(order[j].place == place_of(shows, order[j].record.slug@));
}

/// A place lies within the configuration or right behind it.
proof fn lemma_place_in_range(shows: Seq<ShowConfig>, slug: Seq<char>)
    ensures
        0 <= place_of(shows, slug) <= shows.len(),
        find_config(shows, slug) is Some ==> place_of(shows, slug) < shows.len(),
    decreases shows.len(),
{
    if shows.len() > 0 {
        lemma_place_in_range(shows.drop_last(), slug);
    }
}

/// Where a show stands in the configuration.
fn place(config: &Config, slug: &ShowSlug) -> (place: usize)
    ensures
        place == place_of(config.shows@, slug@),
{
    let mut i: usize = 0;
    assert(config.shows@.take(0) =~= Seq::empty());
    while i < config.shows.len()
        invariant
            i <= config.shows@.len(),
            find_config(config.shows@.take(i as int), slug@) is None,
        decreases config.shows@.len() - i,
    {
        proof {
            assert(config.shows@.take(i + 1).drop_last() =~= config.shows@.take(i as int));
            assert(config.shows@.take(i + 1).last() == config.shows@[i as int]);
        }
        if config.shows[i].slug.same(slug) {
            proof {
                lemma_find_config_take(config.shows@, slug@, i + 1);
            }
            return i;
        }
        i += 1;
    }
    assert(config.shows@.take(config.shows@.len() as int) =~= config.shows@);
    i
}

/// The stored shows in the order of the configuration.
fn ordered(config: &Config, storage: &Storage) -> (records: Vec<ShowRecord>)
    ensures
        records@ == in_config_order(config.shows@, storage.shows@),
{
    let ghost all = placed_of(config.shows@, storage.shows@);
    let mut order: Vec<Placed> = Vec::new();
    let mut i: usize = 0;
    assert(all.take(0) =~= Seq::empty());
    while i < storage.shows.len()
        invariant
            i <= storage.shows@.len(),
            all == placed_of(config.shows@, storage.shows@),
            order@ == ranked(all.take(i as int)),
        decreases storage.shows@.len() - i,
    {
        let at: usize = place(config, &storage.shows[i].slug);
        let next = Placed { place: at, record: storage.shows[i].clone() };
        proof {
            assert(all.take(i + 1).drop_last() =~= all.take(i as int));
            assert(all.take(i + 1).last() == next);
        }
        insert_ranked(&mut order, next);
        i += 1;
    }
    assert(all.take(all.len() as int) =~= all);
    let mut records: Vec<ShowRecord> = Vec::new();
    let mut i: usize = 0;
    while i < order.len()
        invariant
            i <= order@.len(),
            records@ == records_of(order@).take(i as int),
        decreases order@.len() - i,
    {
        records.push(order[i].record.clone());
        assert(records@ =~= records_of(order@).take(i + 1));
        i += 1;
    }
    assert(records@ =~= records_of(order@));
    records
}

/// Every download in flight, show by show.
fn in_flight(storage: &Storage, shows: &Vec<ShowRecord>) -> (downloads: Vec<EpisodeRecord>)
    ensures
        downloads@ == in_flight_of(*storage, shows@),
{
    let mut downloads: Vec<EpisodeRecord> = Vec::new();
    let mut i: usize = 0;
    assert(shows@.take(0) =~= Seq::empty());
    while i < shows.len()
        invariant
            i <= shows@.len(),
            downloads@ == in_flight_of(*storage, shows@.take(i as int)),
        decreases shows@.len() - i,
    {
        proof {
            assert(shows@.take(i + 1).drop_last() =~= shows@.take(i as int));
            assert(shows@.take(i + 1).last() == shows@[i as int]);
        }
        let mut more = downloading(&storage.episodes(&shows[i].slug));
        downloads.append(&mut more);
        i += 1;
    }
    assert(shows@.take(shows@.len() as int) =~= shows@);
    downloads
}

/// Assemble the snapshot of the daemon's state, its shows in the order of
/// the configuration. `at` is the daemon's clock in nanoseconds; the rates
/// remember it for the next snapshot.
pub fn snapshot(
    config: &Config,
    storage: &Storage,
    rates: &mut Rates,
    vitals: &Vitals,
    uptime_secs: u64,
    data_dir_bytes: u64,
    at: u64,
) -> (snapshot: Snapshot)
    ensures
        snapshot.uptime_secs == uptime_secs,
        snapshot.data_dir_bytes == data_dir_bytes,
        snapshot.http_requests == vitals.http_requests,
        snapshot.shows@.len() == storage.shows@.len(),
        forall|i: int|
            0 <= i < snapshot.shows@.len() ==> show_reads(
                #[trigger] snapshot.shows@[i],
                in_config_order(config.shows@, storage.shows@)[i],
                crate::report::listed_episodes(
                    *storage,
                    in_config_order(config.shows@, storage.shows@)[i].slug@,
                ),
            ),
        ({
            let downloads = in_flight_of(*storage, in_config_order(config.shows@, storage.shows@));
            &&& snapshot.downloads@.len() == downloads.len()
            &&& forall|i: int|
                0 <= i < downloads.len() ==> download_reads(
                    #[trigger] snapshot.downloads@[i],
                    old(rates)@,
                    downloads,
                    at,
                    i,
                )
            &&& final(rates)@ == seen_through(old(rates)@, downloads, at, downloads.len())
        }),
{
    let records = ordered(config, storage);
    proof {
        law_config_order_rearranges(config.shows@, storage.shows@);
    }
    let mut shows: Vec<ShowStatus> = Vec::new();
    let mut i: usize = 0;
    while i < records.len()
        invariant
            i <= records@.len(),
            shows@.len() == i,
            forall|k: int|
                0 <= k < i ==> show_reads(
                    #[trigger] shows@[k],
                    records@[k],
                    crate::report::listed_episodes(*storage, records@[k].slug@),
                ),
        decreases records@.len() - i,
    {
        let episodes = storage.episodes(&records[i].slug);
        let last_poll_at = match &records[i].last_poll_at {
            Some(at) => Some(at.as_second()),
            None => None,
        };
        shows.push(
            ShowStatus {
                slug: records[i].slug.clone(),
                provider: records[i].provider.clone(),
                last_poll_at,
                last_poll_ok: records[i].last_poll_ok,
                next_poll_at: None,
                episodes_cached: cached_count(&episodes) as u64,
                cache_bytes: cached_bytes(&episodes),
                last_error: copy_opt(&records[i].last_error),
            },
        );
        i += 1;
    }
    let flying = in_flight(storage, &records);
    let mut downloads: Vec<DownloadStatus> = Vec::new();
    let ghost before = rates@;
    let mut k: usize = 0;
    while k < flying.len()
        invariant
            k <= flying@.len(),
            before == old(rates)@,
            downloads@.len() == k,
            forall|j: int|
                0 <= j < k ==> download_reads(
                    #[trigger] downloads@[j],
                    before,
                    flying@,
                    at,
                    j,
                ),
            rates@ == seen_through(before, flying@, at, k as nat),
        decreases flying@.len() - k,
    {
        let done: u64 = match flying[k].bytes_done {
            Some(done) => done,
            None => 0,
        };
        let bytes_per_sec: u64 = rates.rate(&flying[k].show, &flying[k].id, done, at);
        downloads.push(
            DownloadStatus {
                show: flying[k].show.clone(),
                episode: flying[k].id.clone(),
                bytes_done: done,
                bytes_total: flying[k].bytes_total,
                bytes_per_sec,
            },
        );
        k += 1;
    }
    Snapshot {
        uptime_secs,
        shows,
        downloads,
        data_dir_bytes,
        http_requests: vitals.http_requests,
    }
}

/// A request is answered with what it asks for; a line that is no request is
/// refused with the reason; and a blank line is passed over.
pub proof fn law_requests_are_answered(line: Line)
    ensures
        answer_of(line) is Skip <==> forall|i: int|
            0 <= i < line.text.len() ==> crate::text::is_white(#[trigger] line.text[i]),
        !(answer_of(line) is Skip) && line.parsed == Ok::<Request, Seq<char>>(Request::Snapshot)
            ==> answer_of(line) is Snapshot,
        !(answer_of(line) is Skip) && line.parsed == Ok::<Request, Seq<char>>(Request::Subscribe)
            ==> answer_of(line) is Stream,
        !(answer_of(line) is Skip) ==> (line.parsed matches Err(reason) ==> answer_of(line)
            == AnswerModel::Refuse("unparseable request: "@ + reason)),
{
}

/// Until a client subscribes its lines are answered; from then on events are
/// all it gets, whatever it says.
pub proof fn law_subscribers_only_listen(line: Line)
    ensures
        session_answer(false, line) == answer_of(line),
        session_answer(true, line) is Skip,
        session_next(true, line),
        session_next(false, line) <==> answer_of(line) is Stream,
{
}

/// A rate is what came between two looks over the time between them, in
/// whole bytes a second; without progress or without time it is nothing.
pub proof fn law_rates_are_progress_over_time(before: ObservationModel, now: ObservationModel)
    ensures
        now.done <= before.done || now.at <= before.at ==> throughput(before, now) == 0,
        now.done > before.done && now.at > before.at && throughput(before, now) < u64::MAX ==> {
            let rate = throughput(before, now) as int;
            let nanos = now.at - before.at;
            let moved = (now.done - before.done) * 1_000_000_000;
            rate * nanos <= moved < (rate + 1) * nanos
        },
        now.done > before.done && now.at > before.at && throughput(before, now) == u64::MAX ==> (
        now.done - before.done) * 1_000_000_000 >= u64::MAX * (now.at - before.at),
        now.done > before.done && now.at == before.at + 1_000_000_000 ==> throughput(before, now)
            == now.done - before.done,
{
    if now.done > before.done && now.at > before.at {
        let nanos = now.at - before.at;
        let moved = (now.done - before.done) * 1_000_000_000;
        let rate = moved / nanos;
        assert(rate * nanos <= moved < (rate + 1) * nanos) by (nonlinear_arith)
            requires
                nanos > 0,
                rate == moved / nanos,
        ;
        assert(rate >= 0) by (nonlinear_arith)
            requires
                nanos > 0,
                moved >= 0,
                rate == moved / nanos,
        ;
        if rate >= u64::MAX {
            assert(u64::MAX * nanos <= rate * nanos) by (nonlinear_arith)
                requires
                    rate >= u64::MAX,
                    nanos > 0,
            ;
        }
        if nanos == 1_000_000_000 {
            let more = now.done - before.done;
            assert(rate == more) by (nonlinear_arith)
                requires
                    nanos == 1_000_000_000,
                    moved == more * 1_000_000_000,
                    rate * nanos <= moved < (rate + 1) * nanos,
            ;
        }
    }
}

/// An observation is found by its show and episode, and only so.
pub proof fn lemma_find_seen(seen: Seq<ObservationModel>, show: Seq<char>, episode: Seq<char>)
    ensures
        match find_seen(seen, show, episode) {
            Some(i) => 0 <= i < seen.len() && seen[i].show == show && seen[i].episode == episode
                && (forall|j: int|
                0 <= j < i ==> (#[trigger] seen[j]).show != show || seen[j].episode != episode),
            None => forall|j: int|
                0 <= j < seen.len() ==> (#[trigger] seen[j]).show != show || seen[j].episode
                    != episode,
        },
    decreases seen.len(),
{
    if seen.len() > 0 {
        let before = seen.drop_last();
        lemma_find_seen(before, show, episode);
        assert forall|j: int| 0 <= j < before.len() implies #[trigger] seen[j] == before[j] by {}
    }
}

/// Looking twice at a download gives the rate between the two looks, a first
/// look gives none, and a look at one download changes the rate of no other.
pub proof fn law_rates_go_from_look_to_look(
    seen: Seq<ObservationModel>,
    first: ObservationModel,
    second: ObservationModel,
)
    ensures
        first.show == second.show && first.episode == second.episode ==> rate_of(
            seen_after(seen, first),
            second,
        ) == throughput(first, second),
        first.show != second.show || first.episode != second.episode ==> rate_of(
            seen_after(seen, first),
            second,
        ) == rate_of(seen, second),
        (forall|j: int|
            0 <= j < seen.len() ==> (#[trigger] seen[j]).show != first.show || seen[j].episode
                != first.episode) ==> rate_of(seen, first) == 0,
{
    let after = seen_after(seen, first);
    lemma_find_seen(seen, first.show, first.episode);
    lemma_find_seen(seen, second.show, second.episode);
    lemma_find_seen(after, second.show, second.episode);
    let f = find_seen(seen, first.show, first.episode);
    if first.show == second.show && first.episode == second.episode {
        match f {
            Some(i) => {
                assert(after[i] == first);
                let g = find_seen(after, second.show, second.episode);
                if g is Some && g->0 < i {
                    assert(after[g->0] == seen[g->0]);
                }
            },
            None => {
                assert(after[seen.len() as int] == first);
                let g = find_seen(after, second.show, second.episode);
                if g is Some && g->0 < seen.len() {
                    assert(after[g->0] == seen[g->0]);
                }
            },
        }
    } else {
        let h = find_seen(seen, second.show, second.episode);
        let g = find_seen(after, second.show, second.episode);
        if h is Some {
            assert(after[h->0] == seen[h->0]);
            if g is Some && g->0 < h->0 {
                assert(after[g->0] == seen[g->0] || after[g->0] == first);
            }
        }
        if g is Some {
            if g->0 < seen.len() {
                assert(after[g->0] == seen[g->0] || after[g->0] == first);
            }
        }
    }
}

/// The downloads shown are the episodes that are downloading, show by show,
/// each show's as it lists them.
pub proof fn law_downloads_in_flight(
    episodes: Seq<EpisodeRecord>,
    storage: Storage,
    shows: Seq<ShowRecord>,
    show: ShowRecord,
)
    ensures
        downloading_of(episodes) == episodes.filter(
            |e: EpisodeRecord| e.state == EpisodeState::Downloading,
        ),
        in_flight_of(storage, Seq::empty()).len() == 0,
        in_flight_of(storage, shows.push(show)) == in_flight_of(storage, shows) + downloading_of(
            crate::storage::listed_episodes(storage.episodes@, show.slug@),
        ),
    decreases episodes.len(),
{
    reveal(Seq::filter);
    if episodes.len() > 0 {
        law_downloads_in_flight(episodes.drop_last(), storage, shows, show);
    }
    assert(shows.push(show).drop_last() =~= shows);
}

/// What is shown of a download is what is stored of it, and the rate since
/// the last look, where every download is shown once.
pub proof fn law_shown_downloads(
    status: DownloadStatus,
    seen: Seq<ObservationModel>,
    downloads: Seq<EpisodeRecord>,
    at: u64,
    i: int,
)
    requires
        download_reads(status, seen, downloads, at, i),
        0 <= i < downloads.len(),
        forall|j: int, k: int|
            #![trigger downloads[j], downloads[k]]
            0 <= j < k < downloads.len() ==> downloads[j].show@ != downloads[k].show@
                || downloads[j].id@ != downloads[k].id@,
    ensures
        status.show@ == downloads[i].show@,
        status.episode@ == downloads[i].id@,
        downloads[i].bytes_done matches Some(done) ==> status.bytes_done == done,
        downloads[i].bytes_done is None ==> status.bytes_done == 0,
        status.bytes_total == downloads[i].bytes_total,
        status.bytes_per_sec == rate_of(
            seen,
            ObservationModel {
                show: downloads[i].show@,
                episode: downloads[i].id@,
                done: status.bytes_done,
                at,
            },
        ),
{
    lemma_earlier_looks_do_not_matter(seen, downloads, at, i, i as nat);
}

proof fn lemma_earlier_looks_do_not_matter(
    seen: Seq<ObservationModel>,
    downloads: Seq<EpisodeRecord>,
    at: u64,
    i: int,
    n: nat,
)
    requires
        n <= i < downloads.len(),
        forall|j: int, k: int|
            #![trigger downloads[j], downloads[k]]
            0 <= j < k < downloads.len() ==> downloads[j].show@ != downloads[k].show@
                || downloads[j].id@ != downloads[k].id@,
    ensures
        rate_of(seen_through(seen, downloads, at, n), observation_of(downloads[i], at)) == rate_of(
            seen,
            observation_of(downloads[i], at),
        ),
    decreases n,
{
    if n > 0 {
        lemma_earlier_looks_do_not_matter(seen, downloads, at, i, (n - 1) as nat);
        assert(downloads[n - 1].show@ != downloads[i].show@ || downloads[n - 1].id@
            != downloads[i].id@);
        law_rates_go_from_look_to_look(
            seen_through(seen, downloads, at, (n - 1) as nat),
            observation_of(downloads[n - 1], at),
            observation_of(downloads[i], at),
        );
    }
}

/// What is shown of a show is what is stored of it: its last poll, and the
/// count and the bytes of its cached episodes.
pub proof fn law_shown_shows(
    status: ShowStatus,
    show: ShowRecord,
    episodes: Seq<EpisodeRecord>,
)
    requires
        show_reads(status, show, episodes),
    ensures
        status.slug@ == show.slug@,
        status.provider@ == show.provider@,
        match show.last_poll_at {
            Some(at) => status.last_poll_at matches Some(secs) && (at@ >= 0 ==> secs * 1_000_000_000
                <= at@ < (secs + 1) * 1_000_000_000) && (at@ < 0 ==> (secs - 1) * 1_000_000_000
                < at@ <= secs * 1_000_000_000),
            None => status.last_poll_at is None,
        },
        status.last_poll_ok == show.last_poll_ok,
        status.episodes_cached == episodes.filter(
            |e: EpisodeRecord| crate::report::is_cached(e),
        ).len(),
        crate::report::cached_bytes_of(episodes) <= u64::MAX ==> status.cache_bytes
            == crate::report::cached_bytes_of(episodes),
        status.last_error == show.last_error,
{
    crate::report::law_reports_depend_on_cached_episodes(episodes);
}

/// A configured show has the place it has in the configuration, and one that
/// is not configured comes behind all that are.
pub proof fn law_places_follow_the_configuration(
    shows: Seq<ShowConfig>,
    slug: Seq<char>,
    i: int,
)
    requires
        forall|j: int, k: int|
            #![trigger shows[j], shows[k]]
            0 <= j < k < shows.len() ==> shows[j].slug@ != shows[k].slug@,
    ensures
        0 <= i < shows.len() ==> place_of(shows, shows[i].slug@) == i,
        (forall|j: int| 0 <= j < shows.len() ==> (#[trigger] shows[j]).slug@ != slug) ==> place_of(
            shows,
            slug,
        ) == shows.len(),
{
    if 0 <= i < shows.len() {
        crate::library::law_shows_are_found_by_slug(shows, shows[i].slug@);
        match find_config(shows, shows[i].slug@) {
            Some(f) => {
                if f < i {
                    assert(shows[f].slug@ != shows[i].slug@);
                } else if i < f {
                    assert(shows[i].slug@ != shows[f].slug@);
                }
            },
            None => {
                assert(shows[i].slug@ != shows[i].slug@);
            },
        }
    }
    crate::library::law_shows_are_found_by_slug(shows, slug);
}

/// Whole seconds are those that have passed, counted towards the epoch.
pub proof fn law_whole_seconds(at: int)
    ensures
        at >= 0 ==> 0 <= at - whole_seconds(at) * 1_000_000_000 < 1_000_000_000,
        at <= 0 ==> -1_000_000_000 < at - whole_seconds(at) * 1_000_000_000 <= 0,
        whole_seconds(-at) == -whole_seconds(at),
{
}

} // verus!
