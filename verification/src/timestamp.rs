//! Instants: nanoseconds since the Unix epoch, in the range the calendar
//! library supports, with its parsing and printing.

use vstd::prelude::*;

verus! {

/// Earliest supported instant, in nanoseconds since the Unix epoch.
pub const MIN_NANOS: i128 = -377_705_023_201_000_000_000;

/// Latest supported instant, in nanoseconds since the Unix epoch.
pub const MAX_NANOS: i128 = 253_402_207_200_999_999_999;

/// The first instant of year zero, UTC.
pub const YEAR_ZERO_NANOS: i128 = -62_167_219_200_000_000_000;

/// Nanoseconds per second.
pub const NANOS_PER_SECOND: i128 = 1_000_000_000;

/// `YYYY-MM-DD HH:MM:SSZ`.
pub const STAMP_SECONDS: &'static str = "%Y-%m-%d %H:%M:%SZ";

/// `YYYY-MM-DD HH:MM`.
pub const STAMP_MINUTES: &'static str = "%Y-%m-%d %H:%M";

/// `HH:MM:SS`.
pub const STAMP_CLOCK: &'static str = "%H:%M:%S";

/// `YYYYMMDDTHHMMSS.mmmZ`, sortable and free of path separators.
pub const STAMP_FILE: &'static str = "%Y%m%dT%H%M%S%.3fZ";

/// Whether `n` nanoseconds since the epoch is a supported instant.
pub open spec fn instant_in_range(n: int) -> bool {
    MIN_NANOS <= n <= MAX_NANOS
}

/// The formats this library prints instants in.
pub open spec fn is_stamp_format(format: Seq<char>) -> bool {
    ||| format == STAMP_SECONDS@
    ||| format == STAMP_MINUTES@
    ||| format == STAMP_CLOCK@
    ||| format == STAMP_FILE@
}

/// What `jiff::Timestamp`'s `FromStr` makes of a text: the instant in
/// nanoseconds, or the message of its error.
pub uninterp spec fn timestamp_parsed(text: Seq<char>) -> Result<int, Seq<char>>;

/// What `jiff::Timestamp`'s `Display` prints for an instant.
pub uninterp spec fn timestamp_text(nanos: int) -> Seq<char>;

/// What `jiff::Timestamp::strftime` prints for an instant and a format.
pub uninterp spec fn timestamp_formatted(nanos: int, format: Seq<char>) -> Seq<char>;

/// What `jiff::fmt::rfc2822::to_string` prints for an instant in UTC.
pub uninterp spec fn timestamp_rfc2822(nanos: int) -> Seq<char>;

/// Calls `jiff::Timestamp::from_str`. The outcome depends on the text
/// alone; an instant it returns lies in the supported range.
#[verifier::external_body]
fn parse_instant(text: &str) -> (parsed: Result<i128, String>)
    ensures
        match parsed {
            Ok(nanos) => timestamp_parsed(text@) == Ok::<int, Seq<char>>(nanos as int)
                && instant_in_range(nanos as int),
            Err(reason) => timestamp_parsed(text@) == Err::<int, Seq<char>>(reason@),
        },
{
    match text.parse::<jiff::Timestamp>() {
        Ok(at) => Ok(at.as_nanosecond()),
        Err(error) => Err(error.to_string()),
    }
}

/// Calls `Display` of `jiff::Timestamp`, which prints as many fractional
/// digits as the instant has, so that parsing the text gives the instant
/// back.
#[verifier::external_body]
fn print_instant(nanos: i128) -> (text: String)
    requires
        instant_in_range(nanos as int),
    ensures
        text@ == timestamp_text(nanos as int),
        timestamp_parsed(text@) is Ok && timestamp_parsed(text@)->Ok_0 == nanos,
{
    jiff::Timestamp::from_nanosecond(nanos).unwrap().to_string()
}

/// Calls `jiff::Timestamp::strftime` with one of the formats above.
#[verifier::external_body]
fn format_instant(nanos: i128, format: &str) -> (text: String)
    requires
        instant_in_range(nanos as int),
        is_stamp_format(format@),
    ensures
        text@ == timestamp_formatted(nanos as int, format@),
{
    jiff::Timestamp::from_nanosecond(nanos).unwrap().strftime(format).to_string()
}

/// Calls `jiff::fmt::rfc2822::to_string` on the instant in UTC. It fails
/// only for years before zero.
#[verifier::external_body]
fn rfc2822_instant(nanos: i128) -> (text: String)
    requires
        instant_in_range(nanos as int),
        YEAR_ZERO_NANOS <= nanos,
    ensures
        text@ == timestamp_rfc2822(nanos as int),
{
    let at = jiff::Timestamp::from_nanosecond(nanos).unwrap();
    jiff::fmt::rfc2822::to_string(&at.to_zoned(jiff::tz::TimeZone::UTC)).unwrap()
}

/// An instant, modelled by its nanoseconds since the Unix epoch.
#[derive(Debug, Clone, Copy, PartialEq, Eq, Structural)]
pub struct Timestamp {
    nanos: i128,
}

impl View for Timestamp {
    type V = int;

    closed spec fn view(&self) -> int {
        self.nanos as int
    }
}

impl Timestamp {
    #[verifier::type_invariant]
    closed spec fn in_range(self) -> bool {
        instant_in_range(self.nanos as int)
    }

    /// The instant `nanos` nanoseconds after the Unix epoch, when it is
    /// supported.
    pub fn from_nanos(nanos: i128) -> (at: Option<Timestamp>)
        ensures
            at is Some <==> instant_in_range(nanos as int),
            at matches Some(at) ==> at@ == nanos,
    {
        if MIN_NANOS <= nanos && nanos <= MAX_NANOS {
            Some(Timestamp { nanos })
        } else {
            None
        }
    }

    /// Nanoseconds since the Unix epoch.
    pub fn nanos(&self) -> (nanos: i128)
        ensures
            nanos == self@,
            instant_in_range(self@),
    {
        proof {
            use_type_invariant(self);
        }
        self.nanos
    }

    /// Whole seconds since the Unix epoch, truncated towards it.
    pub fn as_second(&self) -> (seconds: i64)
        ensures
            self@ >= 0 ==> seconds == self@ / 1_000_000_000,
            self@ < 0 ==> seconds == -((-self@) / 1_000_000_000),
    {
        proof {
            use_type_invariant(self);
        }
        if self.nanos >= 0 {
            (self.nanos / NANOS_PER_SECOND) as i64
        } else {
            let back: i128 = -self.nanos;
            let whole: i64 = (back / NANOS_PER_SECOND) as i64;
            -whole
        }
    }

    /// Parse an RFC 3339 instant.
    pub fn parse(text: &str) -> (at: Result<Timestamp, String>)
        ensures
            match at {
                Ok(at) => timestamp_parsed(text@) == Ok::<int, Seq<char>>(at@),
                Err(reason) => timestamp_parsed(text@) == Err::<int, Seq<char>>(reason@),
            },
    {
        match parse_instant(text) {
            Ok(nanos) => Ok(Timestamp { nanos }),
            Err(reason) => Err(reason),
        }
    }

    /// The instant as an RFC 3339 text in UTC; [`Timestamp::parse`] reads
    /// it back.
    pub fn to_string(&self) -> (text: String)
        ensures
            text@ == timestamp_text(self@),
            timestamp_parsed(text@) == Ok::<int, Seq<char>>(self@),
    {
        proof {
            use_type_invariant(self);
        }
        print_instant(self.nanos)
    }

    /// The instant in one of the `STAMP_*` formats.
    pub fn stamp(&self, format: &str) -> (text: String)
        requires
            is_stamp_format(format@),
        ensures
            text@ == timestamp_formatted(self@, format@),
    {
        proof {
            use_type_invariant(self);
        }
        format_instant(self.nanos, format)
    }

    /// The instant as an RFC 2822 date in UTC.
    pub fn rfc2822(&self) -> (text: String)
        requires
            self@ >= YEAR_ZERO_NANOS,
        ensures
            text@ == timestamp_rfc2822(self@),
    {
        proof {
            use_type_invariant(self);
        }
        rfc2822_instant(self.nanos)
    }
}

/// The view of an optional instant.
pub open spec fn opt_instant(at: Option<Timestamp>) -> Option<int> {
    match at {
        Some(at) => Some(at@),
        None => None,
    }
}

/// The instants that are supported, and the ways they are stamped: to the
/// second, to the minute, by the clock, and as part of a file's name.
pub proof fn law_supported_instants(nanos: int, format: Seq<char>)
    ensures
        instant_in_range(nanos) <==> -377_705_023_201_000_000_000 <= nanos
            < 253_402_207_201_000_000_000,
        is_stamp_format(format) <==> (format == "%Y-%m-%d %H:%M:%SZ"@ || format
            == "%Y-%m-%d %H:%M"@ || format == "%H:%M:%S"@ || format == "%Y%m%dT%H%M%S%.3fZ"@),
{
}

/// An instant that may be missing stands for its nanoseconds.
pub proof fn law_instants_that_may_be_missing(at: Timestamp)
    ensures
        opt_instant(Some(at)) == Some(at@),
        opt_instant(None) == None::<int>,
{
}

} // verus!
