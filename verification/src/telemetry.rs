//! Metrics: which counters there are, and what each event adds to them.

use vstd::prelude::*;

use crate::ipc::KnownEvent;

verus! {

/// The counters.
#[derive(Debug, Clone, Copy, PartialEq, Eq, Structural)]
pub enum Counter {
    /// Provider polls.
    Polls,
    /// Episodes newly discovered.
    Discovered,
    /// Finished downloads.
    Downloads,
    /// Episodes removed by retention.
    PrunedEpisodes,
    /// Bytes freed by retention.
    PrunedBytes,
    /// Payloads quarantined.
    Quarantined,
}

/// The name of a counter.
pub open spec fn counter_name(counter: Counter) -> Seq<char> {
    match counter {
        Counter::Polls => "splicefeed.polls"@,
        Counter::Discovered => "splicefeed.episodes.discovered"@,
        Counter::Downloads => "splicefeed.downloads"@,
        Counter::PrunedEpisodes => "splicefeed.pruned.episodes"@,
        Counter::PrunedBytes => "splicefeed.pruned.bytes"@,
        Counter::Quarantined => "splicefeed.quarantined"@,
    }
}

/// What a counter counts.
pub open spec fn counter_description(counter: Counter) -> Seq<char> {
    match counter {
        Counter::Polls => "Provider polls, by show and outcome"@,
        Counter::Discovered => "Episodes newly discovered, by show"@,
        Counter::Downloads => "Finished downloads, by show and result"@,
        Counter::PrunedEpisodes => "Episodes removed by retention, by show"@,
        Counter::PrunedBytes => "Bytes freed by retention, by show"@,
        Counter::Quarantined => "Unparseable provider payloads quarantined, by provider"@,
    }
}

impl Counter {
    /// The counter's name.
    pub fn name(&self) -> (name: &'static str)
        ensures
            name@ == counter_name(*self),
    {
        match self {
            Counter::Polls => "splicefeed.polls",
            Counter::Discovered => "splicefeed.episodes.discovered",
            Counter::Downloads => "splicefeed.downloads",
            Counter::PrunedEpisodes => "splicefeed.pruned.episodes",
            Counter::PrunedBytes => "splicefeed.pruned.bytes",
            Counter::Quarantined => "splicefeed.quarantined",
        }
    }

    /// What the counter counts.
    pub fn description(&self) -> (description: &'static str)
        ensures
            description@ == counter_description(*self),
    {
        match self {
            Counter::Polls => "Provider polls, by show and outcome",
            Counter::Discovered => "Episodes newly discovered, by show",
            Counter::Downloads => "Finished downloads, by show and result",
            Counter::PrunedEpisodes => "Episodes removed by retention, by show",
            Counter::PrunedBytes => "Bytes freed by retention, by show",
            Counter::Quarantined => "Unparseable provider payloads quarantined, by provider",
        }
    }

    /// The unit counted in, where it is not the thing itself.
    pub fn unit(&self) -> (unit: Option<&'static str>)
        ensures
            match unit {
                Some(unit) => *self == Counter::PrunedBytes && unit@ == "By"@,
                None => *self != Counter::PrunedBytes,
            },
    {
        match self {
            Counter::PrunedBytes => Some("By"),
            _ => None,
        }
    }
}

/// A label's value.
#[derive(Debug)]
pub enum LabelValue {
    /// A text.
    Text(String),
    /// A truth value.
    Flag(bool),
}

/// One addition to a counter.
#[derive(Debug)]
pub struct Increment {
    /// The counter.
    pub counter: Counter,
    /// How much.
    pub by: u64,
    /// The labels.
    pub labels: Vec<(&'static str, LabelValue)>,
}

/// A label as a mathematical value.
pub enum LabelModel {
    /// A text label.
    Text(Seq<char>, Seq<char>),
    /// A truth label.
    Flag(Seq<char>, bool),
}

/// An increment as a mathematical value.
pub struct IncrementModel {
    /// The counter.
    pub counter: Counter,
    /// How much.
    pub by: u64,
    /// The labels.
    pub labels: Seq<LabelModel>,
}

/// A label as a mathematical value.
pub open spec fn label_model(label: (&'static str, LabelValue)) -> LabelModel {
    match label.1 {
        LabelValue::Text(text) => LabelModel::Text(label.0@, text@),
        LabelValue::Flag(flag) => LabelModel::Flag(label.0@, flag),
    }
}

impl View for Increment {
    type V = IncrementModel;

    open spec fn view(&self) -> IncrementModel {
        IncrementModel {
            counter: self.counter,
            by: self.by,
            labels: self.labels@.map_values(|l: (&'static str, LabelValue)| label_model(l)),
        }
    }
}

/// The result label of a download.
pub open spec fn result_text(error: Option<crate::domain::ErrorClass>) -> Seq<char> {
    match error {
        Some(class) => crate::domain::error_class_text(class),
        None => "ok"@,
    }
}

/// What an event adds.
pub open spec fn increments(event: KnownEvent) -> Seq<IncrementModel> {
    match event {
        KnownEvent::PollStarted { show } => Seq::empty(),
        KnownEvent::PollFinished { show, ok, new_episodes } => seq![
            IncrementModel {
                counter: Counter::Polls,
                by: 1,
                labels: seq![LabelModel::Text("show"@, show@), LabelModel::Flag("ok"@, ok)],
            },
        ],
        KnownEvent::EpisodeDiscovered { show, episode } => seq![
            IncrementModel {
                counter: Counter::Discovered,
                by: 1,
                labels: seq![LabelModel::Text("show"@, show@)],
            },
        ],
        KnownEvent::DownloadFinished { show, episode, error } => seq![
            IncrementModel {
                counter: Counter::Downloads,
                by: 1,
                labels: seq![
                    LabelModel::Text("show"@, show@),
                    LabelModel::Text("result"@, result_text(error)),
                ],
            },
        ],
        KnownEvent::Pruned { show, episodes, bytes_freed } => seq![
            IncrementModel {
                counter: Counter::PrunedEpisodes,
                by: episodes as u64,
                labels: seq![LabelModel::Text("show"@, show@)],
            },
            IncrementModel {
                counter: Counter::PrunedBytes,
                by: bytes_freed,
                labels: seq![LabelModel::Text("show"@, show@)],
            },
        ],
        KnownEvent::Quarantined { provider, path } => seq![
            IncrementModel {
                counter: Counter::Quarantined,
                by: 1,
                labels: seq![LabelModel::Text("provider"@, provider@)],
            },
        ],
    }
}

fn one_label(counter: Counter, by: u64, key: &'static str, value: String) -> (increment: Increment)
    ensures
        increment@ == (IncrementModel {
            counter,
            by,
            labels: seq![LabelModel::Text(key@, value@)],
        }),
{
    let mut labels: Vec<(&'static str, LabelValue)> = Vec::new();
    labels.push((key, LabelValue::Text(value)));
    let increment = Increment { counter, by, labels };
    assert(increment@.labels =~= seq![LabelModel::Text(key@, value@)]);
    increment
}

/// What an event adds to the counters.
pub fn record(event: &KnownEvent) -> (added: Vec<Increment>)
    ensures
        added@.map_values(|i: Increment| i@) == increments(*event),
{
    let mut added: Vec<Increment> = Vec::new();
    match event {
        KnownEvent::PollStarted { show } => {},
        KnownEvent::PollFinished { show, ok, new_episodes } => {
            let mut labels: Vec<(&'static str, LabelValue)> = Vec::new();
            labels.push(("show", LabelValue::Text(show.to_string())));
            labels.push(("ok", LabelValue::Flag(*ok)));
            let increment = Increment { counter: Counter::Polls, by: 1, labels };
            assert(increment@.labels =~= seq![
                LabelModel::Text("show"@, show@),
                LabelModel::Flag("ok"@, *ok),
            ]);
            added.push(increment);
        },
        KnownEvent::EpisodeDiscovered { show, episode } => {
            added.push(one_label(Counter::Discovered, 1, "show", show.to_string()));
        },
        KnownEvent::DownloadFinished { show, episode, error } => {
            let result = match error {
                Some(class) => class.to_string(),
                None => "ok".to_owned(),
            };
            assert(result@ == result_text(*error));
            let mut labels: Vec<(&'static str, LabelValue)> = Vec::new();
            labels.push(("show", LabelValue::Text(show.to_string())));
            labels.push(("result", LabelValue::Text(result)));
            let increment = Increment { counter: Counter::Downloads, by: 1, labels };
            assert(increment@.labels =~= seq![
                LabelModel::Text("show"@, show@),
                LabelModel::Text("result"@, result_text(*error)),
            ]);
            added.push(increment);
        },
        KnownEvent::Pruned { show, episodes, bytes_freed } => {
            added.push(
                one_label(Counter::PrunedEpisodes, *episodes as u64, "show", show.to_string()),
            );
            added.push(
                one_label(Counter::PrunedBytes, *bytes_freed, "show", show.to_string()),
            );
        },
        KnownEvent::Quarantined { provider, path } => {
            added.push(one_label(Counter::Quarantined, 1, "provider", provider.clone()));
        },
    }
    assert(added@.map_values(|i: Increment| i@) =~= increments(*event));
    added
}

/// Each event counts where it belongs: a poll by its show and outcome, a new
/// episode and a finished download by their show and the download by its
/// result, a sweep by its show with the episodes and bytes it removed, and a
/// quarantined payload by its provider. A poll that starts counts nowhere.
pub proof fn law_events_count_where_they_belong(event: KnownEvent)
    ensures
        event is PollStarted ==> increments(event).len() == 0,
        event matches KnownEvent::PollFinished { show, ok, .. } ==> increments(event).len() == 1
            && increments(event)[0].counter == Counter::Polls && increments(event)[0].by == 1
            && increments(event)[0].labels == seq![
            LabelModel::Text("show"@, show@),
            LabelModel::Flag("ok"@, ok),
        ],
        event matches KnownEvent::EpisodeDiscovered { show, .. } ==> increments(event).len() == 1
            && increments(event)[0].counter == Counter::Discovered && increments(event)[0].by == 1
            && increments(event)[0].labels == seq![LabelModel::Text("show"@, show@)],
        event matches KnownEvent::DownloadFinished { show, error, .. } ==> increments(event).len()
            == 1 && increments(event)[0].counter == Counter::Downloads && increments(event)[0].by
            == 1 && increments(event)[0].labels == seq![
            LabelModel::Text("show"@, show@),
            LabelModel::Text(
                "result"@,
                match error {
                    None => "ok"@,
                    Some(class) => crate::domain::error_class_text(class),
                },
            ),
        ],
        event matches KnownEvent::Pruned { show, episodes, bytes_freed } ==> increments(event).len()
            == 2 && increments(event)[0].counter == Counter::PrunedEpisodes
            && increments(event)[0].by == episodes && increments(event)[1].counter
            == Counter::PrunedBytes && increments(event)[1].by == bytes_freed
            && increments(event)[0].labels == seq![LabelModel::Text("show"@, show@)]
            && increments(event)[1].labels == seq![LabelModel::Text("show"@, show@)],
        event matches KnownEvent::Quarantined { provider, .. } ==> increments(event).len() == 1
            && increments(event)[0].counter == Counter::Quarantined && increments(event)[0].by == 1
            && increments(event)[0].labels == seq![LabelModel::Text("provider"@, provider@)],
{
}

/// The counters are known by these names.
pub proof fn law_counters_have_names()
    ensures
        counter_name(Counter::Polls) == "splicefeed.polls"@,
        counter_name(Counter::Discovered) == "splicefeed.episodes.discovered"@,
        counter_name(Counter::Downloads) == "splicefeed.downloads"@,
        counter_name(Counter::PrunedEpisodes) == "splicefeed.pruned.episodes"@,
        counter_name(Counter::PrunedBytes) == "splicefeed.pruned.bytes"@,
        counter_name(Counter::Quarantined) == "splicefeed.quarantined"@,
{
}

/// What the counters say of themselves.
pub proof fn law_counters_say_what_they_count()
    ensures
        counter_description(Counter::Polls) == "Provider polls, by show and outcome"@,
        counter_description(Counter::Discovered) == "Episodes newly discovered, by show"@,
        counter_description(Counter::Downloads) == "Finished downloads, by show and result"@,
        counter_description(Counter::PrunedEpisodes) == "Episodes removed by retention, by show"@,
        counter_description(Counter::PrunedBytes) == "Bytes freed by retention, by show"@,
        counter_description(Counter::Quarantined)
            == "Unparseable provider payloads quarantined, by provider"@,
{
}

/// A download without an error counts as `ok`, any other under the name of
/// its kind of error.
pub proof fn law_download_results(class: crate::domain::ErrorClass)
    ensures
        result_text(None) == "ok"@,
        result_text(Some(class)) == crate::domain::error_class_text(class),
{
}

} // verus!
