//! Sizes and durations as people read them.

use vstd::prelude::*;

use crate::text::{decimal, joined};

verus! {

/// What `humansize::format_size` prints for a byte count in decimal units.
pub uninterp spec fn size_text(bytes: u64) -> Seq<char>;

/// A count with its unit behind it; nothing of a count of zero.
pub open spec fn counted(count: u64, unit: Seq<char>) -> Seq<Seq<char>> {
    if count == 0 {
        Seq::empty()
    } else {
        seq![decimal(count as nat) + unit]
    }
}

/// A unit that is spelled out, in the plural from two on.
pub open spec fn unit_word(count: u64, word: Seq<char>) -> Seq<char> {
    if count > 1 {
        word + "s"@
    } else {
        word
    }
}

/// A number of whole seconds in years of 365.25 days, months of 30.44 days,
/// days, hours, minutes and seconds, each left out where it is zero.
pub open spec fn duration_text(secs: u64) -> Seq<char> {
    let years = secs / 31_557_600;
    let months = secs % 31_557_600 / 2_630_016;
    let rest = secs % 31_557_600 % 2_630_016;
    if secs == 0 {
        "0s"@
    } else {
        joined(
            counted(years, unit_word(years, "year"@)) + counted(months, unit_word(months, "month"@))
                + counted(rest / 86_400, unit_word(rest / 86_400, "day"@)) + counted(
                rest % 86_400 / 3_600,
                "h"@,
            ) + counted(rest % 3_600 / 60, "m"@) + counted(rest % 60, "s"@),
            " "@,
        )
    }
}

/// Calls `humansize::format_size` with `humansize::DECIMAL`.
#[verifier::external_body]
pub(crate) fn format_size(bytes: u64) -> (text: String)
    ensures
        text@ == size_text(bytes),
{
    humansize::format_size(bytes, humansize::DECIMAL)
}

/// Calls `humantime::format_duration` on a number of whole seconds, which
/// prints the units from years down to seconds with spaces between them.
#[verifier::external_body]
pub(crate) fn format_duration(secs: u64) -> (text: String)
    ensures
        text@ == duration_text(secs),
{
    humantime::format_duration(std::time::Duration::from_secs(secs)).to_string()
}

/// An optional byte count, or what stands for an unknown one.
pub open spec fn opt_size_text(bytes: Option<u64>, unknown: Seq<char>) -> Seq<char> {
    match bytes {
        Some(bytes) => size_text(bytes),
        None => unknown,
    }
}

/// An optional duration, or what stands for an unknown one.
pub open spec fn opt_duration_text(secs: Option<u32>, unknown: Seq<char>) -> Seq<char> {
    match secs {
        Some(secs) => duration_text(secs as u64),
        None => unknown,
    }
}

/// An optional byte count as text.
pub fn size_or(bytes: Option<u64>, unknown: &str) -> (text: String)
    ensures
        text@ == opt_size_text(bytes, unknown@),
{
    match bytes {
        Some(bytes) => format_size(bytes),
        None => unknown.to_owned(),
    }
}

/// An optional duration as text.
pub fn duration_or(secs: Option<u32>, unknown: &str) -> (text: String)
    ensures
        text@ == opt_duration_text(secs, unknown@),
{
    match secs {
        Some(secs) => format_duration(secs as u64),
        None => unknown.to_owned(),
    }
}

/// A size or a length that is known is shown, and only one that is not is
/// replaced.
pub proof fn law_what_is_not_known(bytes: u64, secs: u32, unknown: Seq<char>)
    ensures
        opt_size_text(Some(bytes), unknown) == size_text(bytes),
        opt_size_text(None, unknown) == unknown,
        opt_duration_text(Some(secs), unknown) == duration_text(secs as u64),
        opt_duration_text(None, unknown) == unknown,
{
}

/// The units of a length of time are those that are not zero, and together
/// they make it up: under a day, hours, minutes and seconds.
pub proof fn law_units_of_time(hours: u64, minutes: u64, seconds: u64)
    requires
        hours < 24,
        minutes < 60,
        seconds < 60,
        0 < hours + minutes + seconds,
    ensures
        duration_text((hours * 3_600 + minutes * 60 + seconds) as u64) == joined(
            counted(hours, "h"@) + counted(minutes, "m"@) + counted(seconds, "s"@),
            " "@,
        ),
        duration_text(0) == "0s"@,
{
    let secs = (hours * 3_600 + minutes * 60 + seconds) as u64;
    assert(secs < 86_400);
    assert(secs % 31_557_600 == secs && secs % 31_557_600 % 2_630_016 == secs);
    assert(secs / 31_557_600 == 0 && secs / 2_630_016 == 0 && secs / 86_400 == 0);
    assert(secs % 86_400 == secs);
    assert(secs / 3_600 == hours);
    assert(secs % 3_600 == minutes * 60 + seconds);
    assert(secs % 3_600 / 60 == minutes);
    assert(secs % 60 == seconds);
    let none = Seq::<Seq<char>>::empty();
    let parts = counted(hours, "h"@) + counted(minutes, "m"@) + counted(seconds, "s"@);
    assert(none + none + none + counted(hours, "h"@) + counted(minutes, "m"@) + counted(
        seconds,
        "s"@,
    ) =~= parts);
}

/// One of a unit is named in the singular, more in the plural.
pub proof fn law_plurals(count: u64, word: Seq<char>)
    ensures
        unit_word(1, word) == word,
        count > 1 ==> unit_word(count, word) == word + "s"@,
        counted(0, word).len() == 0,
        count > 0 ==> counted(count, word) == seq![decimal(count as nat) + word],
{
}

} // verus!
