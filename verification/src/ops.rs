//! Operations shared between command-line modes and signal handlers.

use vstd::prelude::*;

use crate::config::{Config, ShowConfig};
use crate::domain::ShowSlug;
use crate::text::join;

verus! {

/// A round of polls: every configured show once, in order. Modelled by
/// whether each poll so far succeeded.
pub struct Round {
    outcomes: Vec<bool>,
}

impl View for Round {
    type V = Seq<bool>;

    closed spec fn view(&self) -> Seq<bool> {
        self.outcomes@
    }
}

impl Round {
    /// A round in which nothing was polled yet.
    pub fn new() -> (round: Round)
        ensures
            round@.len() == 0,
    {
        Round { outcomes: Vec::new() }
    }

    /// The show to poll next: the first that was not polled yet, whatever
    /// became of those before it. `None` when all were.
    pub fn next<'a>(&self, config: &'a Config) -> (slug: Option<&'a ShowSlug>)
        ensures
            match slug {
                Some(slug) => self@.len() < config.shows@.len() && *slug
                    == config.shows@[self@.len() as int].slug,
                None => self@.len() >= config.shows@.len(),
            },
    {
        let i: usize = self.outcomes.len();
        if i < config.shows.len() {
            Some(&config.shows[i].slug)
        } else {
            None
        }
    }

    /// That show was polled, and it succeeded or did not.
    pub fn polled(&mut self, ok: bool)
        ensures
            final(self)@ == old(self)@.push(ok),
    {
        self.outcomes.push(ok);
    }
}

/// The slugs of the shows whose poll failed, in order.
pub open spec fn failed_slugs(shows: Seq<ShowConfig>, outcomes: Seq<bool>) -> Seq<Seq<char>>
    decreases shows.len(),
{
    if shows.len() == 0 || shows.len() != outcomes.len() {
        Seq::empty()
    } else {
        let before = failed_slugs(shows.drop_last(), outcomes.drop_last());
        if outcomes.last() {
            before
        } else {
            before.push(shows.last().slug@)
        }
    }
}

/// The named shows are exactly those whose poll failed; where every poll
/// succeeded, none is named.
pub proof fn law_failures_are_named(shows: Seq<ShowConfig>, outcomes: Seq<bool>, slug: Seq<char>)
    requires
        shows.len() == outcomes.len(),
    ensures
        failed_slugs(shows, outcomes).contains(slug) <==> exists|i: int|
            0 <= i < shows.len() && !(#[trigger] outcomes[i]) && shows[i].slug@ == slug,
        failed_slugs(shows, outcomes).len() == 0 <==> (forall|i: int|
            0 <= i < outcomes.len() ==> #[trigger] outcomes[i]),
    decreases shows.len(),
{
    let all = failed_slugs(shows, outcomes);
    if shows.len() > 0 {
        let before = failed_slugs(shows.drop_last(), outcomes.drop_last());
        law_failures_are_named(shows.drop_last(), outcomes.drop_last(), slug);
        let last = shows.len() - 1;
        if all.contains(slug) {
            let k = choose|k: int| 0 <= k < all.len() && all[k] == slug;
            if k < before.len() {
                assert(before[k] == slug);
                assert(before.contains(slug));
                let i = choose|i: int|
                    0 <= i < last && !(#[trigger] outcomes.drop_last()[i])
                        && shows.drop_last()[i].slug@ == slug;
                assert(!outcomes[i] && shows[i].slug@ == slug);
            } else {
                assert(!outcomes[last] && shows[last].slug@ == slug);
            }
        }
        if exists|i: int| 0 <= i < shows.len() && !(#[trigger] outcomes[i]) && shows[i].slug@
            == slug {
            let i = choose|i: int|
                0 <= i < shows.len() && !(#[trigger] outcomes[i]) && shows[i].slug@ == slug;
            if i < last {
                assert(!outcomes.drop_last()[i] && shows.drop_last()[i].slug@ == slug);
                assert(before.contains(slug));
                let k = choose|k: int| 0 <= k < before.len() && before[k] == slug;
                assert(all[k] == slug);
            } else {
                assert(all[all.len() - 1] == slug);
            }
        }
        if forall|i: int| 0 <= i < outcomes.len() ==> #[trigger] outcomes[i] {
            assert forall|i: int| 0 <= i < last implies #[trigger] outcomes.drop_last()[i] by {
                assert(outcomes[i]);
            }
        }
        if all.len() == 0 {
            assert forall|i: int| 0 <= i < outcomes.len() implies #[trigger] outcomes[i] by {
                if i < last {
                    assert(outcomes.drop_last()[i]);
                }
            }
        }
    }
}

/// What a whole round amounts to: one failing show never stops the others,
/// and any failure makes the whole an error that names them.
pub fn sync_all_once(config: &Config, round: &Round) -> (result: Result<(), String>)
    requires
        round@.len() == config.shows@.len(),
    ensures
        match result {
            Ok(()) => failed_slugs(config.shows@, round@).len() == 0,
            Err(message) => failed_slugs(config.shows@, round@).len() > 0 && message@
                == "sync failed for "@ + crate::text::joined(
                failed_slugs(config.shows@, round@),
                ", "@,
            ),
        },
{
    let ghost shows = config.shows@;
    let ghost outcomes = round@;
    let mut names: Vec<String> = Vec::new();
    let mut i: usize = 0;
    assert(crate::text::texts(names@) =~= failed_slugs(shows.take(0), outcomes.take(0)));
    while i < config.shows.len()
        invariant
            i <= shows.len(),
            shows == config.shows@,
            outcomes == round.outcomes@,
            outcomes.len() == shows.len(),
            crate::text::texts(names@) == failed_slugs(
                shows.take(i as int),
                outcomes.take(i as int),
            ),
        decreases shows.len() - i,
    {
        proof {
            assert(shows.take(i + 1).drop_last() =~= shows.take(i as int));
            assert(outcomes.take(i + 1).drop_last() =~= outcomes.take(i as int));
        }
        if !round.outcomes[i] {
            let ghost before = names@;
            names.push(config.shows[i].slug.to_string());
            assert(crate::text::texts(names@) =~= crate::text::texts(before).push(
                shows[i as int].slug@,
            ));
        }
        i += 1;
    }
    assert(shows.take(shows.len() as int) =~= shows);
    assert(outcomes.take(outcomes.len() as int) =~= outcomes);
    assert(crate::text::texts(names@).len() == names@.len());
    if names.len() == 0 {
        return Ok(());
    }
    let mut message = "sync failed for ".to_owned();
    message.append(join(&names, ", ").as_str());
    Err(message)
}

/// Failed shows are named in the order of the configuration, each once for
/// its failure.
pub proof fn law_failures_are_named_in_order(
    shows: Seq<ShowConfig>,
    outcomes: Seq<bool>,
    show: ShowConfig,
)
    requires
        shows.len() == outcomes.len(),
    ensures
        failed_slugs(shows.push(show), outcomes.push(true)) == failed_slugs(shows, outcomes),
        failed_slugs(shows.push(show), outcomes.push(false)) == failed_slugs(shows, outcomes).push(
            show.slug@,
        ),
{
    assert(shows.push(show).drop_last() =~= shows);
    assert(outcomes.push(true).drop_last() =~= outcomes);
    assert(outcomes.push(false).drop_last() =~= outcomes);
}

} // verus!
