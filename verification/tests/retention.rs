use splicefeed::config::Retention;
use splicefeed::domain::EpisodeId;
use splicefeed::retention::{kept_flags, plan, Candidate};

fn policy(keep_last: Option<u32>, max_gb: Option<f64>) -> Retention {
    Retention { keep_last, max_bytes: max_gb.map(|gb| (gb * 1e9) as u64) }
}

fn candidates(sizes: &[(u32, u64)]) -> Vec<Candidate> {
    sizes
        .iter()
        .map(|(id, bytes)| Candidate {
            id: id.to_string().parse().expect("valid id"),
            bytes: *bytes,
        })
        .collect()
}

fn ids(doomed: &[EpisodeId]) -> Vec<&str> {
    doomed.iter().map(|id| id.as_str()).collect()
}

#[test]
fn no_limits_prunes_nothing() {
    let cached = candidates(&[(162, 100), (161, 100)]);
    assert!(plan(&policy(None, None), &cached).is_empty());
}

#[test]
fn keep_last_keeps_the_newest() {
    let cached = candidates(&[(162, 100), (161, 100), (160, 100)]);
    assert_eq!(ids(&plan(&policy(Some(2), None), &cached)), ["160"]);
}

#[test]
fn max_bytes_accumulates_from_the_newest() {
    // 0.25 GB fits exactly two 100 MB episodes (max_gb is decimal GB).
    let cached = candidates(&[(162, 100_000_000), (161, 100_000_000), (160, 100_000_000)]);
    assert_eq!(ids(&plan(&policy(None, Some(0.25)), &cached)), ["160"]);
}

#[test]
fn stricter_limit_wins() {
    let cached = candidates(&[(162, 100_000_000), (161, 100_000_000), (160, 100_000_000)]);
    assert_eq!(ids(&plan(&policy(Some(3), Some(0.15)), &cached)), ["160", "161"]);
}

#[test]
fn oversized_newest_episode_still_counts_against_bytes() {
    // The newest alone exceeds the cap: it is kept (never serve an
    // empty feed because one file is big), everything older goes.
    let cached = candidates(&[(162, 400_000_000), (161, 1)]);
    assert_eq!(ids(&plan(&policy(None, Some(0.3)), &cached)), ["161"]);
}

#[test]
fn a_cap_may_skip_one_and_keep_an_older_one() {
    let cached = candidates(&[(3, 5), (2, 10), (1, 3)]);
    let narrow = Retention { keep_last: None, max_bytes: Some(8) };
    assert_eq!(kept_flags(&narrow, &cached), vec![true, false, true]);
    // A wider cap lets the middle one in, which then leaves no room for
    // the oldest.
    let wide = Retention { keep_last: None, max_bytes: Some(15) };
    assert_eq!(kept_flags(&wide, &cached), vec![true, true, false]);
}

#[test]
fn what_was_kept_is_kept_again() {
    let cached = candidates(&[(4, 5), (3, 10), (2, 3), (1, 1)]);
    let limits = Retention { keep_last: Some(3), max_bytes: Some(9) };
    let flags = kept_flags(&limits, &cached);
    let survivors: Vec<Candidate> = cached
        .into_iter()
        .zip(flags)
        .filter(|(_, kept)| *kept)
        .map(|(candidate, _)| candidate)
        .collect();
    assert!(plan(&limits, &survivors).is_empty());
    let total: u64 = survivors.iter().map(|c| c.bytes).sum();
    assert!(survivors.len() <= 3 && total <= 9);
}

#[test]
fn sums_beyond_64_bits_do_not_wrap() {
    let cached = candidates(&[(2, u64::MAX), (1, u64::MAX)]);
    let limits = Retention { keep_last: None, max_bytes: Some(u64::MAX) };
    assert_eq!(ids(&plan(&limits, &cached)), ["1"]);
}

#[test]
fn keeping_none_prunes_all() {
    let cached = candidates(&[(2, 1), (1, 1)]);
    assert_eq!(ids(&plan(&policy(Some(0), None), &cached)), ["1", "2"]);
}
