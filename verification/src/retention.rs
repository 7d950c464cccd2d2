//! Retention planning: which episodes of a show to prune under a policy.
//!
//! Pure decision logic; the caller deletes files and flips states. Walking
//! newest to oldest, an episode is kept only while it satisfies both limits
//! of a [`Retention`] policy, so the stricter limit wins.

use vstd::prelude::*;

use crate::config::Retention;
use crate::domain::EpisodeId;

verus! {

/// One episode as retention sees it.
#[derive(Debug)]
pub struct Candidate {
    /// The episode.
    pub id: EpisodeId,
    /// Size of its file.
    pub bytes: u64,
}

/// Bytes of all candidates together.
pub open spec fn total_bytes(candidates: Seq<Candidate>) -> nat
    decreases candidates.len(),
{
    if candidates.len() == 0 {
        0
    } else {
        total_bytes(candidates.drop_last()) + candidates.last().bytes as nat
    }
}

/// Whether one more candidate may be kept next to those kept already. The
/// byte limit never turns away the first: one oversized file must not leave
/// a feed empty.
pub open spec fn may_keep(policy: Retention, kept: Seq<Candidate>, next: Candidate) -> bool {
    &&& policy.keep_last matches Some(n) ==> kept.len() < n
    &&& policy.max_bytes matches Some(max) ==> kept.len() == 0 || total_bytes(kept) + next.bytes
        <= max
}

/// The candidates a policy keeps, newest first.
pub open spec fn kept(policy: Retention, newest_first: Seq<Candidate>) -> Seq<Candidate>
    decreases newest_first.len(),
{
    if newest_first.len() == 0 {
        Seq::empty()
    } else {
        let before = kept(policy, newest_first.drop_last());
        if may_keep(policy, before, newest_first.last()) {
            before.push(newest_first.last())
        } else {
            before
        }
    }
}

/// The candidates a policy dooms, newest first.
pub open spec fn doomed(policy: Retention, newest_first: Seq<Candidate>) -> Seq<Candidate>
    decreases newest_first.len(),
{
    if newest_first.len() == 0 {
        Seq::empty()
    } else {
        let before = doomed(policy, newest_first.drop_last());
        if may_keep(policy, kept(policy, newest_first.drop_last()), newest_first.last()) {
            before
        } else {
            before.push(newest_first.last())
        }
    }
}

/// The ids of a list of candidates.
pub open spec fn candidate_ids(candidates: Seq<Candidate>) -> Seq<EpisodeId> {
    candidates.map_values(|c: Candidate| c.id)
}

/// Whether a policy keeps candidate `i`.
pub open spec fn keeps(policy: Retention, newest_first: Seq<Candidate>, i: int) -> bool {
    may_keep(policy, kept(policy, newest_first.take(i)), newest_first[i])
}

/// For each candidate, newest first, whether a policy keeps it.
pub fn kept_flags(policy: &Retention, newest_first: &Vec<Candidate>) -> (flags: Vec<bool>)
    ensures
        flags@.len() == newest_first@.len(),
        forall|i: int|
            0 <= i < newest_first@.len() ==> #[trigger] flags@[i] == keeps(
                *policy,
                newest_first@,
                i,
            ),
{
    let mut kept_count: usize = 0;
    let mut kept_bytes: u128 = 0;
    let mut flags: Vec<bool> = Vec::new();
    let mut i: usize = 0;
    assert(newest_first@.take(0) =~= Seq::empty());
    while i < newest_first.len()
        invariant
            i <= newest_first@.len(),
            kept_count <= i,
            kept_count == kept(*policy, newest_first@.take(i as int)).len(),
            kept_bytes == total_bytes(kept(*policy, newest_first@.take(i as int))),
            kept_bytes <= i * 0xffff_ffff_ffff_ffff,
            flags@.len() == i,
            forall|k: int|
                0 <= k < i ==> #[trigger] flags@[k] == keeps(*policy, newest_first@, k),
        decreases newest_first@.len() - i,
    {
        let ghost seen = newest_first@.take(i as int);
        let ghost next = newest_first@.take(i + 1);
        proof {
            assert(next.drop_last() =~= seen);
            assert(next.last() == newest_first@[i as int]);
            assert(i * 0xffff_ffff_ffff_ffff <= 0xffff_ffff_ffff_ffff * 0xffff_ffff_ffff_ffff)
                by (nonlinear_arith)
                requires
                    i <= 0xffff_ffff_ffff_ffff,
            ;
        }
        let bytes: u64 = newest_first[i].bytes;
        let over_count = match policy.keep_last {
            Some(n) => kept_count as u64 >= n as u64,
            None => false,
        };
        let over_bytes = kept_count > 0 && match policy.max_bytes {
            Some(max) => kept_bytes + bytes as u128 > max as u128,
            None => false,
        };
        if over_count || over_bytes {
            flags.push(false);
        } else {
            proof {
                let before = kept(*policy, seen);
                assert(kept(*policy, next) == before.push(next.last()));
                assert(before.push(next.last()).drop_last() =~= before);
            }
            kept_count += 1;
            kept_bytes = kept_bytes + bytes as u128;
            flags.push(true);
        }
        i += 1;
    }
    flags
}

/// Given the episodes of one show, newest first, the ids to prune,
/// oldest first.
pub fn plan(policy: &Retention, newest_first: &Vec<Candidate>) -> (ids: Vec<EpisodeId>)
    ensures
        ids@ == candidate_ids(doomed(*policy, newest_first@)).reverse(),
{
    let flags = kept_flags(policy, newest_first);
    let mut ids: Vec<EpisodeId> = Vec::new();
    let mut i: usize = 0;
    assert(newest_first@.take(0) =~= Seq::empty());
    assert(ids@ =~= candidate_ids(doomed(*policy, newest_first@.take(0))));
    while i < newest_first.len()
        invariant
            i <= newest_first@.len(),
            flags@.len() == newest_first@.len(),
            forall|k: int|
                0 <= k < newest_first@.len() ==> #[trigger] flags@[k] == keeps(
                    *policy,
                    newest_first@,
                    k,
                ),
            ids@ == candidate_ids(doomed(*policy, newest_first@.take(i as int))),
        decreases newest_first@.len() - i,
    {
        proof {
            let next = newest_first@.take(i + 1);
            assert(next.drop_last() =~= newest_first@.take(i as int));
            assert(next.last() == newest_first@[i as int]);
        }
        if !flags[i] {
            ids.push(newest_first[i].id.clone());
            assert(ids@ =~= candidate_ids(doomed(*policy, newest_first@.take(i + 1))));
        }
        i += 1;
    }
    assert(newest_first@.take(newest_first@.len() as int) =~= newest_first@);
    reversed(&ids)
}

/// The ids in reverse order.
fn reversed(ids: &Vec<EpisodeId>) -> (out: Vec<EpisodeId>)
    ensures
        out@ == ids@.reverse(),
{
    let mut out: Vec<EpisodeId> = Vec::new();
    let mut i: usize = ids.len();
    while i > 0
        invariant
            i <= ids@.len(),
            out@ == ids@.skip(i as int).reverse(),
        decreases i,
    {
        out.push(ids[i - 1].clone());
        assert(ids@.skip(i - 1).reverse() =~= ids@.skip(i as int).reverse().push(ids@[i - 1]));
        i -= 1;
    }
    assert(ids@.skip(0) =~= ids@);
    out
}

/// Every candidate is either kept or doomed, never both.
pub proof fn law_plan_partitions(policy: Retention, newest_first: Seq<Candidate>)
    ensures
        kept(policy, newest_first).to_multiset().add(
            doomed(policy, newest_first).to_multiset(),
        ) =~= newest_first.to_multiset(),
        kept(policy, newest_first).len() + doomed(policy, newest_first).len()
            == newest_first.len(),
    decreases newest_first.len(),
{
    broadcast use vstd::seq_lib::group_to_multiset_ensures;

    if newest_first.len() > 0 {
        let before = newest_first.drop_last();
        let last = newest_first.last();
        law_plan_partitions(policy, before);
        assert(newest_first =~= before.push(last));
    }
}

/// A policy without limits prunes nothing.
pub proof fn law_no_limits_prune_nothing(newest_first: Seq<Candidate>)
    ensures
        doomed(Retention { keep_last: None, max_bytes: None }, newest_first).len() == 0,
        kept(Retention { keep_last: None, max_bytes: None }, newest_first) == newest_first,
    decreases newest_first.len(),
{
    if newest_first.len() > 0 {
        law_no_limits_prune_nothing(newest_first.drop_last());
        assert(newest_first.drop_last().push(newest_first.last()) =~= newest_first);
    } else {
        assert(newest_first =~= Seq::empty());
    }
}

/// What is kept satisfies both limits, but for a single oversized file.
pub proof fn law_kept_satisfies_policy(policy: Retention, newest_first: Seq<Candidate>)
    ensures
        policy.keep_last matches Some(n) ==> kept(policy, newest_first).len() <= n,
        policy.max_bytes matches Some(max) ==> kept(policy, newest_first).len() <= 1
            || total_bytes(kept(policy, newest_first)) <= max,
    decreases newest_first.len(),
{
    if newest_first.len() > 0 {
        let before = kept(policy, newest_first.drop_last());
        law_kept_satisfies_policy(policy, newest_first.drop_last());
        assert(before.push(newest_first.last()).drop_last() =~= before);
    }
}

/// The newest episode is kept unless the policy keeps none at all; in
/// particular the byte limit never empties a feed.
pub proof fn law_newest_is_kept(policy: Retention, newest_first: Seq<Candidate>)
    requires
        newest_first.len() > 0,
        policy.keep_last != Some(0u32),
    ensures
        kept(policy, newest_first).len() > 0,
        kept(policy, newest_first)[0] == newest_first[0],
    decreases newest_first.len(),
{
    if newest_first.len() == 1 {
        let before = kept(policy, newest_first.drop_last());
        assert(before =~= Seq::empty());
        assert(kept(policy, newest_first) == before.push(newest_first[0]));
    } else {
        law_newest_is_kept(policy, newest_first.drop_last());
    }
}

/// Planning again over the survivors prunes nothing: retention never
/// churns.
pub proof fn law_replanning_is_stable(policy: Retention, newest_first: Seq<Candidate>)
    ensures
        kept(policy, kept(policy, newest_first)) == kept(policy, newest_first),
        doomed(policy, kept(policy, newest_first)).len() == 0,
    decreases newest_first.len(),
{
    if newest_first.len() > 0 {
        law_replanning_is_stable(policy, newest_first.drop_last());
        let before = kept(policy, newest_first.drop_last());
        if may_keep(policy, before, newest_first.last()) {
            let all = before.push(newest_first.last());
            assert(all.drop_last() =~= before);
            assert(all.last() == newest_first.last());
        }
    }
}

/// With a count limit alone, exactly the newest `n` are kept.
pub proof fn law_keep_last_keeps_the_newest(n: u32, newest_first: Seq<Candidate>)
    ensures
        kept(Retention { keep_last: Some(n), max_bytes: None }, newest_first)
            == newest_first.take(
            if n <= newest_first.len() {
                n as int
            } else {
                newest_first.len() as int
            },
        ),
    decreases newest_first.len(),
{
    let policy = Retention { keep_last: Some(n), max_bytes: None };
    if newest_first.len() > 0 {
        let before = newest_first.drop_last();
        law_keep_last_keeps_the_newest(n, before);
        if n < newest_first.len() {
            assert(before.take(n as int) =~= newest_first.take(n as int));
        } else {
            assert(before.take(before.len() as int) =~= before);
            assert(before.push(newest_first.last()) =~= newest_first);
            assert(newest_first.take(newest_first.len() as int) =~= newest_first);
        }
    } else {
        assert(newest_first.take(0) =~= kept(policy, newest_first));
    }
}

/// Widening a count limit keeps everything that was kept before, whatever
/// byte limit stands beside it.
pub proof fn law_widening_keeps_more(
    n: u32,
    m: u32,
    max_bytes: Option<u64>,
    newest_first: Seq<Candidate>,
)
    requires
        n <= m,
    ensures
        kept(Retention { keep_last: Some(n), max_bytes }, newest_first).is_prefix_of(
            kept(Retention { keep_last: Some(m), max_bytes }, newest_first),
        ),
        kept(Retention { keep_last: Some(m), max_bytes }, newest_first).is_prefix_of(
            kept(Retention { keep_last: None, max_bytes }, newest_first),
        ),
{
    lemma_looser_count(
        Retention { keep_last: Some(n), max_bytes },
        Retention { keep_last: Some(m), max_bytes },
        newest_first,
    );
    lemma_looser_count(
        Retention { keep_last: Some(m), max_bytes },
        Retention { keep_last: None, max_bytes },
        newest_first,
    );
}

/// Of two policies with one byte limit, the one that counts further keeps
/// what the other keeps, and the same until the other's count is full.
proof fn lemma_looser_count(tight: Retention, loose: Retention, newest_first: Seq<Candidate>)
    requires
        tight.max_bytes == loose.max_bytes,
        tight.keep_last is Some,
        loose.keep_last matches Some(m) ==> tight.keep_last->0 <= m,
    ensures
        kept(tight, newest_first).is_prefix_of(kept(loose, newest_first)),
        kept(tight, newest_first) == kept(loose, newest_first) || kept(tight, newest_first).len()
            >= tight.keep_last->0,
    decreases newest_first.len(),
{
    if newest_first.len() > 0 {
        lemma_looser_count(tight, loose, newest_first.drop_last());
        let a = kept(tight, newest_first.drop_last());
        let b = kept(loose, newest_first.drop_last());
        let all = kept(loose, newest_first);
        assert(a =~= all.subrange(0, a.len() as int));
        if a == b && may_keep(tight, a, newest_first.last()) {
            assert(kept(tight, newest_first) =~= all);
        }
    }
}

/// Bytes add up: over two lists one after the other, and a list of one has
/// the bytes of that one.
pub proof fn law_bytes_add_up(a: Seq<Candidate>, b: Seq<Candidate>, c: Candidate)
    ensures
        total_bytes(a + b) == total_bytes(a) + total_bytes(b),
        total_bytes(seq![c]) == c.bytes,
    decreases b.len(),
{
    if b.len() == 0 {
        assert(a + b =~= a);
    } else {
        law_bytes_add_up(a, b.drop_last(), c);
        assert((a + b).drop_last() =~= a + b.drop_last());
    }
    assert(seq![c].drop_last() =~= Seq::empty());
    assert(total_bytes(seq![c].drop_last()) == 0);
}

/// Candidates are judged newest first, each beside the newer ones that are
/// kept: one that is kept joins them, and one that is not is doomed.
pub proof fn law_candidates_are_judged_in_order(
    policy: Retention,
    newest_first: Seq<Candidate>,
    i: int,
)
    requires
        0 <= i < newest_first.len(),
    ensures
        keeps(policy, newest_first, i) ==> kept(policy, newest_first.take(i + 1)) == kept(
            policy,
            newest_first.take(i),
        ).push(newest_first[i]) && doomed(policy, newest_first.take(i + 1)) == doomed(
            policy,
            newest_first.take(i),
        ),
        !keeps(policy, newest_first, i) ==> kept(policy, newest_first.take(i + 1)) == kept(
            policy,
            newest_first.take(i),
        ) && doomed(policy, newest_first.take(i + 1)) == doomed(
            policy,
            newest_first.take(i),
        ).push(newest_first[i]),
{
    assert(newest_first.take(i + 1).drop_last() =~= newest_first.take(i));
    assert(newest_first.take(i + 1).last() == newest_first[i]);
}

/// A candidate is pruned only for a limit that is exceeded: as many newer
/// ones are kept as the policy counts, or some newer one is kept and their
/// bytes and its own go beyond what the policy allows. And a limit that is
/// exceeded does prune it.
pub proof fn law_only_excess_is_pruned(policy: Retention, newest_first: Seq<Candidate>, i: int)
    requires
        0 <= i < newest_first.len(),
    ensures
        ({
            let newer = kept(policy, newest_first.take(i));
            !keeps(policy, newest_first, i) <==> {
                ||| policy.keep_last matches Some(n) && newer.len() >= n
                ||| policy.max_bytes matches Some(m) && newer.len() > 0 && total_bytes(newer)
                    + newest_first[i].bytes > m
            }
        }),
{
}

/// What is planned is what is not kept: a candidate the policy does not keep
/// is among the doomed, and one it keeps is among the kept.
pub proof fn law_the_doomed_are_those_not_kept(
    policy: Retention,
    newest_first: Seq<Candidate>,
    i: int,
)
    requires
        0 <= i < newest_first.len(),
    ensures
        !keeps(policy, newest_first, i) ==> doomed(policy, newest_first).contains(newest_first[i]),
        keeps(policy, newest_first, i) ==> kept(policy, newest_first).contains(newest_first[i]),
    decreases newest_first.len(),
{
    let before = newest_first.drop_last();
    let last = newest_first.last();
    if i < newest_first.len() - 1 {
        law_the_doomed_are_those_not_kept(policy, before, i);
        assert(before.take(i) =~= newest_first.take(i));
        lemma_push_contains(doomed(policy, before), last, newest_first[i]);
        lemma_push_contains(kept(policy, before), last, newest_first[i]);
    } else {
        assert(newest_first.take(i) =~= before);
        lemma_push_contains(doomed(policy, before), last, last);
        lemma_push_contains(kept(policy, before), last, last);
    }
}

/// One more item is contained, besides those there were.
proof fn lemma_push_contains(s: Seq<Candidate>, last: Candidate, c: Candidate)
    ensures
        s.contains(c) || c == last ==> s.push(last).contains(c),
{
    if s.contains(c) {
        let i = choose|i: int| 0 <= i < s.len() && s[i] == c;
        assert(s.push(last)[i] == c);
    }
    if c == last {
        assert(s.push(last)[s.len() as int] == c);
    }
}

/// Candidates that are together within both limits are all kept.
pub proof fn law_what_fits_stays(policy: Retention, newest_first: Seq<Candidate>)
    requires
        policy.keep_last matches Some(n) ==> newest_first.len() <= n,
        policy.max_bytes matches Some(m) ==> total_bytes(newest_first) <= m,
    ensures
        kept(policy, newest_first) == newest_first,
        doomed(policy, newest_first).len() == 0,
    decreases newest_first.len(),
{
    if newest_first.len() > 0 {
        law_what_fits_stays(policy, newest_first.drop_last());
        assert(newest_first.drop_last().push(newest_first.last()) =~= newest_first);
    } else {
        assert(newest_first =~= Seq::empty());
    }
}

} // verus!
