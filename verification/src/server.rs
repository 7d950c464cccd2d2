//! The HTTP server's decisions: which feed a path names, and what a
//! library's answer becomes on the wire.

use vstd::prelude::*;

use crate::domain::ShowSlug;
use crate::library::LibraryError;
use crate::storage::Storage;
use crate::text::{copy_opt, without_suffix};
use crate::timestamp::Timestamp;

verus! {

/// Content type of feeds.
pub const RSS_CONTENT_TYPE: &'static str = "application/rss+xml; charset=utf-8";

/// Content type of subscription lists.
pub const OPML_CONTENT_TYPE: &'static str = "text/x-opml; charset=utf-8";

/// Content type of metrics.
pub const METRICS_CONTENT_TYPE: &'static str = "text/plain; version=0.0.4";

/// The show that the last segment of a feed's path names: `<slug>.xml`.
/// Anything else names none.
pub fn feed_slug(name: &str) -> (slug: Option<ShowSlug>)
    ensures
        match slug {
            Some(slug) => name@ == slug@ + ".xml"@ && crate::domain::is_slug(slug@),
            None => !exists|s: Seq<char>|
                crate::domain::is_slug(s) && name@ == #[trigger] (s + ".xml"@),
        },
{
    match without_suffix(name, ".xml") {
        Some(stem) => {
            proof {
                assert(stem@ + ".xml"@ =~= name@);
                assert forall|s: Seq<char>| name@ == #[trigger] (s + ".xml"@) implies s
                    == stem@ by {
                    assert((s + ".xml"@).take(s.len() as int) =~= s);
                }
            }
            match ShowSlug::parse(stem.as_str()) {
                Ok(slug) => Some(slug),
                Err(_) => None,
            }
        },
        None => {
            proof {
                assert forall|s: Seq<char>| true implies name@ != #[trigger] (s + ".xml"@) by {
                    if name@ == s + ".xml"@ {
                        assert(name@.subrange(
                            name@.len() - ".xml"@.len(),
                            name@.len() as int,
                        ) =~= ".xml"@);
                    }
                }
            }
            None
        },
    }
}

/// What a request is answered with.
#[derive(Debug)]
pub enum Reply {
    /// A document.
    Document(Vec<u8>),
    /// There is no such thing.
    NotFound,
    /// The server failed; the text is for the log.
    Failed(String),
}

/// The answer to a request for a document: a show that is not configured
/// or not synced is not found, anything else is a failure.
pub fn reply(result: Result<Vec<u8>, LibraryError>) -> (reply: Reply)
    ensures
        match result {
            Ok(bytes) => reply == Reply::Document(bytes),
            Err(LibraryError::UnknownShow(_)) => reply is NotFound,
            Err(LibraryError::NotSynced(_)) => reply is NotFound,
            Err(error) => reply matches Reply::Failed(text) && text@
                == crate::library::library_error_text(error),
        },
{
    match result {
        Ok(bytes) => Reply::Document(bytes),
        Err(error) => match error {
            LibraryError::UnknownShow(_) => Reply::NotFound,
            LibraryError::NotSynced(_) => Reply::NotFound,
            other => Reply::Failed(other.to_string()),
        },
    }
}

/// One show's poll health.
#[derive(Debug)]
pub struct ShowHealth {
    /// The show.
    pub slug: ShowSlug,
    /// When it was last polled, if ever.
    pub last_poll_at: Option<Timestamp>,
    /// Whether that poll succeeded.
    pub last_poll_ok: Option<bool>,
    /// Error message of the last failed poll.
    pub last_error: Option<String>,
}

/// Liveness plus the poll health of every stored show, ordered by slug.
pub fn healthz(storage: &Storage) -> (shows: Vec<ShowHealth>)
    ensures
        shows@.len() == storage.shows@.len(),
        forall|i: int|
            0 <= i < shows@.len() ==> {
                let record = crate::order::ranked(storage.shows@)[i];
                &&& (#[trigger] shows@[i]).slug == record.slug
                &&& shows@[i].last_poll_at == record.last_poll_at
                &&& shows@[i].last_poll_ok == record.last_poll_ok
                &&& shows@[i].last_error == record.last_error
            },
{
    let records = storage.shows();
    proof {
        crate::order::law_ranked_rearranges(storage.shows@);
    }
    let mut shows: Vec<ShowHealth> = Vec::new();
    let mut i: usize = 0;
    while i < records.len()
        invariant
            i <= records@.len(),
            shows@.len() == i,
            forall|k: int|
                0 <= k < i ==> {
                    &&& (#[trigger] shows@[k]).slug == records@[k].slug
                    &&& shows@[k].last_poll_at == records@[k].last_poll_at
                    &&& shows@[k].last_poll_ok == records@[k].last_poll_ok
                    &&& shows@[k].last_error == records@[k].last_error
                },
        decreases records@.len() - i,
    {
        shows.push(
            ShowHealth {
                slug: records[i].slug.clone(),
                last_poll_at: records[i].last_poll_at,
                last_poll_ok: records[i].last_poll_ok,
                last_error: copy_opt(&records[i].last_error),
            },
        );
        i += 1;
    }
    shows
}

/// The types that documents are served under: a feed as RSS, the list of
/// subscriptions as OPML, the metrics as plain text.
pub proof fn law_documents_have_a_type()
    ensures
        RSS_CONTENT_TYPE@ == "application/rss+xml; charset=utf-8"@,
        OPML_CONTENT_TYPE@ == "text/x-opml; charset=utf-8"@,
        METRICS_CONTENT_TYPE@ == "text/plain; version=0.0.4"@,
{
}

} // verus!
