//! Instants in time and the arithmetic on them.
//!
//! An [`Instant`] is an absolute UTC point in time, held as whole seconds
//! since the Unix epoch plus nanoseconds within that second. Rendering to
//! and parsing from the canonical RFC 3339 text form are done by chrono
//! behind trusted wrappers; everything else is verified arithmetic.

use vstd::prelude::*;

verus! {

/// Seconds per day and per week, for the window arithmetic.
pub const SECS_PER_DAY: i64 = 86_400;
pub const SECS_PER_WEEK: i64 = 604_800;

/// The range of instants the library accepts: comfortably inside the span
/// chrono can represent (about 262,000 years either side of the common
/// era), with a plain sub-second nanosecond count.
pub open spec fn in_range(secs: int, nanos: int) -> bool {
    &&& -8_000_000_000_000 <= secs <= 8_000_000_000_000
    &&& 0 <= nanos < 1_000_000_000
}

/// An absolute UTC point in time with nanosecond precision.
#[derive(Clone, Copy, PartialEq, Eq, Structural, Debug)]
pub struct Instant {
    /// Whole seconds since 1970-01-01T00:00:00Z (negative for earlier).
    pub secs: i64,
    /// Nanoseconds since the start of the second.
    pub nanos: u32,
}

/// The text that chrono's RFC 3339 rendering produces for an instant.
/// The rendering depends on the seconds and nanoseconds alone.
pub uninterp spec fn rfc3339_render(secs: int, nanos: int) -> Seq<char>;

/// The instant that chrono's datetime parsing recovers from a string, as
/// epoch seconds and nanoseconds, or `None` where the string is not a
/// valid datetime. The outcome depends on the characters alone.
pub uninterp spec fn instant_parse(s: Seq<char>) -> Option<(int, int)>;

/// An instant recovered from text and accepted by the library: the text
/// parses as a datetime and the result lies in the supported range.
pub open spec fn instant_of(s: Seq<char>) -> Option<(int, int)> {
    match instant_parse(s) {
        Some(p) => if in_range(p.0, p.1) {
            Some(p)
        } else {
            None
        },
        None => None,
    }
}

/// Relies on chrono's `DateTime::from_timestamp` and `DateTime::to_rfc3339`:
/// for an in-range `(secs, nanos)` pair the conversion succeeds, and the
/// rendering is an RFC 3339 string — built from digits, `-`, `:`, `T`, `.`
/// and the offset sign, so it holds neither `]` nor a line break — that
/// chrono's own datetime parsing brings back to the same instant
/// (`from_timestamp` documents the round trip with `timestamp` and
/// `timestamp_subsec_nanos`, and `FromStr` accepts RFC 3339).
#[verifier::external_body]
pub(crate) fn render_rfc3339(secs: i64, nanos: u32) -> (r: String)
    requires
        in_range(secs as int, nanos as int),
    ensures
        r@ == rfc3339_render(secs as int, nanos as int),
        instant_parse(r@) == Some((secs as int, nanos as int)),
        forall|i: int| 0 <= i < r@.len() ==> r@[i] != ']' && r@[i] != '\n',
{
    chrono::DateTime::from_timestamp(secs, nanos).unwrap().to_rfc3339()
}

/// Relies on chrono's `FromStr` for `DateTime<Utc>` together with
/// `DateTime::timestamp` and `DateTime::timestamp_subsec_nanos`: parsing
/// either fails or yields one instant determined by the text alone, whose
/// nanosecond part chrono documents to stay below two seconds.
#[verifier::external_body]
fn parse_datetime(s: &str) -> (r: Option<(i64, u32)>)
    ensures
        match r {
            Some(p) => instant_parse(s@) == Some((p.0 as int, p.1 as int)) && p.1
                < 2_000_000_000,
            None => instant_parse(s@) is None,
        },
{
    match s.parse::<chrono::DateTime<chrono::Utc>>() {
        Ok(dt) => Some((dt.timestamp(), dt.timestamp_subsec_nanos())),
        Err(_) => None,
    }
}

/// Relies on chrono's `Utc::now`: the clock hands back some instant whose
/// nanosecond part stays below two seconds; nothing else is assumed of it.
#[verifier::external_body]
fn clock_now() -> (r: (i64, u32))
    ensures
        0 <= r.1 < 2_000_000_000,
{
    let now = chrono::Utc::now();
    (now.timestamp(), now.timestamp_subsec_nanos())
}

impl Instant {
    /// The instant lies in the range the library supports.
    pub open spec fn valid(self) -> bool {
        in_range(self.secs as int, self.nanos as int)
    }

    /// Strict "later than": first by seconds, then by nanoseconds.
    pub open spec fn spec_after(self, other: Instant) -> bool {
        self.secs > other.secs || (self.secs == other.secs && self.nanos > other.nanos)
    }

    /// Builds an instant from its parts, rejecting out-of-range values.
    pub fn from_parts(secs: i64, nanos: u32) -> (r: Option<Instant>)
        ensures
            match r {
                Some(t) => t == (Instant { secs, nanos }) && t.valid(),
                None => !in_range(secs as int, nanos as int),
            },
    {
        if -8_000_000_000_000 <= secs && secs <= 8_000_000_000_000 && nanos < 1_000_000_000 {
            Some(Instant { secs, nanos })
        } else {
            None
        }
    }

    /// The current instant, clamped into the supported range.
    pub fn now() -> (r: Instant)
        ensures
            r.valid(),
    {
        let (s, n) = clock_now();
        let secs: i64 = if s < -8_000_000_000_000 {
            -8_000_000_000_000
        } else if s > 8_000_000_000_000 {
            8_000_000_000_000
        } else {
            s
        };
        let nanos: u32 = if n >= 1_000_000_000 {
            999_999_999
        } else {
            n
        };
        Instant { secs, nanos }
    }

    /// Strictly later than `other`.
    pub fn after(&self, other: &Instant) -> (r: bool)
        ensures
            r == self.spec_after(*other),
    {
        self.secs > other.secs || (self.secs == other.secs && self.nanos > other.nanos)
    }

    /// Whether the instant lies in the supported range.
    pub fn is_in_range(&self) -> (r: bool)
        ensures
            r == self.valid(),
    {
        -8_000_000_000_000 <= self.secs && self.secs <= 8_000_000_000_000 && self.nanos
            < 1_000_000_000
    }

    /// The canonical RFC 3339 text of the instant.
    pub fn to_rfc3339(&self) -> (r: String)
        requires
            self.valid(),
        ensures
            r@ == rfc3339_render(self.secs as int, self.nanos as int),
            instant_of(r@) == Some((self.secs as int, self.nanos as int)),
            forall|i: int| 0 <= i < r@.len() ==> r@[i] != ']' && r@[i] != '\n',
    {
        render_rfc3339(self.secs, self.nanos)
    }

    /// Reads an instant back from its text form, rejecting text that does
    /// not parse as a datetime or whose value falls out of range.
    pub fn parse_rfc3339(s: &str) -> (r: Option<Instant>)
        ensures
            match r {
                Some(t) => instant_of(s@) == Some((t.secs as int, t.nanos as int)) && t.valid(),
                None => instant_of(s@) is None,
            },
    {
        match parse_datetime(s) {
            Some((secs, nanos)) => Instant::from_parts(secs, nanos),
            None => None,
        }
    }
}

/// The instant `num_days` days before `start_date` (after it for a
/// negative count). The bound asks only that the result stays
/// representable.
pub fn days_ago(start_date: Instant, num_days: i64) -> (r: Instant)
    requires
        start_date.valid(),
        in_range(start_date.secs - num_days * SECS_PER_DAY, start_date.nanos as int),
    ensures
        r.secs == start_date.secs - num_days * SECS_PER_DAY,
        r.nanos == start_date.nanos,
        r.valid(),
{
    proof {
        assert(-16_000_000_000_000 <= num_days * SECS_PER_DAY <= 16_000_000_000_000);
    }
    Instant { secs: start_date.secs - num_days * SECS_PER_DAY, nanos: start_date.nanos }
}

/// The instant `num_weeks` weeks before `start_date` (after it for a
/// negative count).
pub fn weeks_ago(start_date: Instant, num_weeks: i64) -> (r: Instant)
    requires
        start_date.valid(),
        in_range(start_date.secs - num_weeks * SECS_PER_WEEK, start_date.nanos as int),
    ensures
        r.secs == start_date.secs - num_weeks * SECS_PER_WEEK,
        r.nanos == start_date.nanos,
        r.valid(),
{
    proof {
        assert(-16_000_000_000_000 <= num_weeks * SECS_PER_WEEK <= 16_000_000_000_000);
    }
    Instant { secs: start_date.secs - num_weeks * SECS_PER_WEEK, nanos: start_date.nanos }
}

} // verus!
