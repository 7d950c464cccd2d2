//! Reloading the configuration: which changes a running daemon can take,
//! and what changed.

use vstd::prelude::*;

use crate::config::Config;
use crate::domain::ShowSlug;
use crate::paths::{are_same_path, same_path};

verus! {

/// What is said of a setting that only a restart can change.
pub open spec fn restart_text(setting: Seq<char>, old: Seq<char>, new: Seq<char>) -> Seq<char> {
    "`"@ + setting + "` changed ("@ + old + " -> "@ + new
        + "): restart required; reload aborted"@
}

fn restart_message(setting: &str, old: &str, new: &str) -> (message: String)
    ensures
        message@ == restart_text(setting@, old@, new@),
{
    let mut message = "`".to_owned();
    message.append(setting);
    message.append("` changed (");
    message.append(old);
    message.append(" -> ");
    message.append(new);
    message.append("): restart required; reload aborted");
    message
}

/// The text of an optional path.
pub open spec fn opt_path_text(path: Option<String>) -> Seq<char> {
    match path {
        Some(path) => path@,
        None => "default"@,
    }
}

/// Whether two optional paths are the same, or both absent.
pub open spec fn same_opt_path(a: Option<String>, b: Option<String>) -> bool {
    match (a, b) {
        (Some(a), Some(b)) => same_path(a@, b@),
        (None, None) => true,
        _ => false,
    }
}

/// Whether a reload keeps the settings that were bound at startup.
pub open spec fn reloadable(old: Config, new: Config) -> bool {
    &&& crate::config::same_bind(old.bind, new.bind)
    &&& same_path(old.data_dir@, new.data_dir@)
    &&& same_opt_path(old.control_socket, new.control_socket)
}

/// Reject changes that need a restart, whole: the running state stays equal
/// to some configuration that was actually written.
pub fn guard(old: &Config, new: &Config) -> (result: Result<(), String>)
    ensures
        match result {
            Ok(()) => reloadable(*old, *new),
            Err(message) => {
                &&& !reloadable(*old, *new)
                &&& message@ == if !crate::config::same_bind(old.bind, new.bind) {
                    restart_text(
                        "bind"@,
                        crate::config::bind_text(old.bind),
                        crate::config::bind_text(new.bind),
                    )
                } else if !same_path(old.data_dir@, new.data_dir@) {
                    restart_text("data_dir"@, old.data_dir@, new.data_dir@)
                } else {
                    restart_text(
                        "control_socket"@,
                        opt_path_text(old.control_socket),
                        opt_path_text(new.control_socket),
                    )
                }
            },
        },
{
    if !old.bind.same(&new.bind) {
        return Err(
            restart_message(
                "bind",
                old.bind.to_string().as_str(),
                new.bind.to_string().as_str(),
            ),
        );
    }
    if !are_same_path(old.data_dir.as_str(), new.data_dir.as_str()) {
        return Err(restart_message("data_dir", old.data_dir.as_str(), new.data_dir.as_str()));
    }
    let kept = match (&old.control_socket, &new.control_socket) {
        (Some(a), Some(b)) => are_same_path(a.as_str(), b.as_str()),
        (None, None) => true,
        _ => false,
    };
    if kept {
        return Ok(());
    }
    let old_socket = match &old.control_socket {
        Some(path) => path.as_str(),
        None => "default",
    };
    let new_socket = match &new.control_socket {
        Some(path) => path.as_str(),
        None => "default",
    };
    Err(restart_message("control_socket", old_socket, new_socket))
}

/// The shows of one configuration that another does not have, in order.
pub open spec fn shows_beyond(
    these: Seq<crate::config::ShowConfig>,
    those: Seq<crate::config::ShowConfig>,
) -> Seq<ShowSlug>
    decreases these.len(),
{
    if these.len() == 0 {
        Seq::empty()
    } else {
        let before = shows_beyond(these.drop_last(), those);
        if crate::library::find_config(those, these.last().slug@) is None {
            before.push(these.last().slug)
        } else {
            before
        }
    }
}

/// The shows of one configuration that another does not have, in order:
/// with the old configuration first those a reload removes, the other way
/// round those it adds.
pub fn removed_shows(these: &Config, those: &Config) -> (slugs: Vec<ShowSlug>)
    ensures
        slugs@ == shows_beyond(these.shows@, those.shows@),
{
    let mut slugs: Vec<ShowSlug> = Vec::new();
    let mut i: usize = 0;
    assert(these.shows@.take(0) =~= Seq::empty());
    while i < these.shows.len()
        invariant
            i <= these.shows@.len(),
            slugs@ == shows_beyond(these.shows@.take(i as int), those.shows@),
        decreases these.shows@.len() - i,
    {
        proof {
            assert(these.shows@.take(i + 1).drop_last() =~= these.shows@.take(i as int));
            assert(these.shows@.take(i + 1).last() == these.shows@[i as int]);
        }
        if crate::library::show_config(those, &these.shows[i].slug).is_err() {
            slugs.push(these.shows[i].slug.clone());
        }
        i += 1;
    }
    assert(these.shows@.take(these.shows@.len() as int) =~= these.shows@);
    slugs
}

/// A configuration reloaded over itself is accepted, and changes no show.
pub proof fn law_reloading_the_same_changes_nothing(config: Config)
    ensures
        reloadable(config, config),
        shows_beyond(config.shows@, config.shows@).len() == 0,
{
    lemma_nothing_beyond(config.shows@, config.shows@, config.shows@.len() as int);
    assert(config.shows@.take(config.shows@.len() as int) =~= config.shows@);
}

proof fn lemma_nothing_beyond(
    these: Seq<crate::config::ShowConfig>,
    those: Seq<crate::config::ShowConfig>,
    n: int,
)
    requires
        these == those,
        0 <= n <= these.len(),
    ensures
        shows_beyond(these.take(n), those).len() == 0,
    decreases n,
{
    if n > 0 {
        lemma_nothing_beyond(these, those, n - 1);
        assert(these.take(n).drop_last() =~= these.take(n - 1));
        lemma_config_found(those, n - 1);
    }
}

/// A configured show is found.
proof fn lemma_config_found(shows: Seq<crate::config::ShowConfig>, i: int)
    requires
        0 <= i < shows.len(),
    ensures
        crate::library::find_config(shows, shows[i].slug@) is Some,
    decreases shows.len(),
{
    if i < shows.len() - 1 {
        lemma_config_found(shows.drop_last(), i);
        assert(shows.drop_last()[i] == shows[i]);
    }
}

/// A running daemon takes a configuration exactly if it keeps the address,
/// the data directory and the control socket; everything else may change.
pub proof fn law_what_a_reload_may_change(old: Config, new: Config)
    ensures
        reloadable(old, new) <==> {
            &&& crate::config::bind_text(old.bind) == crate::config::bind_text(new.bind)
            &&& crate::config::bind_loopback(old.bind) == crate::config::bind_loopback(new.bind)
            &&& same_path(old.data_dir@, new.data_dir@)
            &&& match (old.control_socket, new.control_socket) {
                (Some(a), Some(b)) => same_path(a@, b@),
                (None, None) => true,
                _ => false,
            }
        },
        old.bind == new.bind && old.data_dir@ == new.data_dir@ && old.control_socket
            == new.control_socket ==> reloadable(old, new),
{
}

/// The shows that one configuration has beyond another are those whose slug
/// the other does not have.
pub proof fn law_shows_that_come_and_go(
    these: Seq<crate::config::ShowConfig>,
    those: Seq<crate::config::ShowConfig>,
    i: int,
)
    requires
        0 <= i < these.len(),
    ensures
        (forall|j: int| 0 <= j < those.len() ==> (#[trigger] those[j]).slug@ != these[i].slug@)
            ==> shows_beyond(these, those).contains(these[i].slug),
        shows_beyond(these, those).contains(these[i].slug) ==> forall|j: int|
            0 <= j < those.len() ==> (#[trigger] those[j]).slug@ != these[i].slug@,
{
    lemma_beyond(these, those, these[i].slug);
    crate::library::law_shows_are_found_by_slug(those, these[i].slug@);
    if crate::library::find_config(those, these[i].slug@) is None {
        lemma_missing_is_beyond(these, those, i);
    }
}

proof fn lemma_beyond(
    these: Seq<crate::config::ShowConfig>,
    those: Seq<crate::config::ShowConfig>,
    slug: ShowSlug,
)
    ensures
        shows_beyond(these, those).contains(slug) ==> crate::library::find_config(
            those,
            slug@,
        ) is None,
    decreases these.len(),
{
    if these.len() > 0 {
        lemma_beyond(these.drop_last(), those, slug);
        let before = shows_beyond(these.drop_last(), those);
        let all = shows_beyond(these, those);
        if all.contains(slug) {
            let i = choose|i: int| 0 <= i < all.len() && all[i] == slug;
            if i < before.len() {
                assert(before[i] == slug);
            }
        }
    }
}

proof fn lemma_missing_is_beyond(
    these: Seq<crate::config::ShowConfig>,
    those: Seq<crate::config::ShowConfig>,
    i: int,
)
    requires
        0 <= i < these.len(),
        crate::library::find_config(those, these[i].slug@) is None,
    ensures
        shows_beyond(these, those).contains(these[i].slug),
    decreases these.len(),
{
    let before = shows_beyond(these.drop_last(), those);
    let all = shows_beyond(these, those);
    if i < these.len() - 1 {
        lemma_missing_is_beyond(these.drop_last(), those, i);
        assert(these.drop_last()[i] == these[i]);
        let k = choose|k: int| 0 <= k < before.len() && before[k] == these[i].slug;
        assert(all[k] == these[i].slug);
    } else {
        assert(all[before.len() as int] == these[i].slug);
    }
}

/// A refused reload says which setting changed, from what to what.
pub proof fn law_refused_reloads_say_why(setting: Seq<char>, old: Seq<char>, new: Seq<char>)
    ensures
        restart_text(setting, old, new) == "`"@ + setting + "` changed ("@ + old + " -> "@ + new
            + "): restart required; reload aborted"@,
{
}

/// A path that is not set is called the default one.
pub proof fn law_unset_paths_are_defaults(path: String)
    ensures
        opt_path_text(Some(path)) == path@,
        opt_path_text(None) == "default"@,
{
}

} // verus!
