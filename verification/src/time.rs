//! Points in time and spans between them, as whole seconds and nanoseconds.
use vstd::prelude::*;

verus! {

/// A point in time: seconds since the Unix epoch and nanoseconds within the second.
#[derive(Debug, Clone, Copy, PartialEq, Eq, Structural)]
pub struct Timestamp {
    pub secs: i64,
    pub nanos: u32,
}

/// A signed span of time: whole seconds plus nanoseconds.
#[derive(Debug, Clone, Copy, PartialEq, Eq, Structural)]
pub struct Span {
    pub secs: i64,
    pub nanos: u32,
}

/// A whole number of days, in seconds, that reaches back further than any point in time.
const MANY_DAYS: i128 = 9_223_372_036_854_806_400;

impl Timestamp {
    /// Nanoseconds since the Unix epoch.
    pub open spec fn instant(self) -> int {
        self.secs * 1_000_000_000 + self.nanos
    }

    /// Nanoseconds since the Unix epoch.
    pub fn to_nanos(&self) -> (r: i128)
        ensures
            r == self.instant(),
    {
        self.secs as i128 * 1_000_000_000 + self.nanos as i128
    }

    /// The place of the point in the order of time: by seconds, and within a second
    /// by nanoseconds. A leap second comes before the second that follows it.
    pub open spec fn order(self) -> int {
        self.secs * 0x1_0000_0000 + self.nanos
    }

    /// Whether the point lies in a leap second: it is written as one second more of
    /// nanoseconds than the second before it has.
    pub open spec fn leap(self) -> bool {
        self.nanos >= 1_000_000_000
    }

    /// Whether the nanoseconds are those of the second, or of a leap second at the
    /// end of a minute.
    pub open spec fn proper(self) -> bool {
        self.nanos < 1_000_000_000 || (self.nanos < 2_000_000_000 && self.secs as int % 60 == 59)
    }

    /// The second of the day, in UTC.
    pub open spec fn second_of_day(self) -> int {
        self.secs as int % 86_400
    }

    /// The nanoseconds from `earlier` to this point. A leap second counts as a second
    /// of its own where the times of day show that it has passed.
    pub open spec fn since(self, earlier: Timestamp) -> int {
        let leaps: int = if earlier.leap() && earlier.second_of_day() < self.second_of_day() {
            1
        } else if self.leap() && self.second_of_day() < earlier.second_of_day() {
            -1
        } else {
            0
        };
        (self.secs - earlier.secs + leaps) * 1_000_000_000 + self.nanos - earlier.nanos
    }

    /// Whether this point comes before `other`.
    pub fn is_before(&self, other: &Timestamp) -> (r: bool)
        ensures
            r == (self.order() < other.order()),
    {
        self.secs < other.secs || (self.secs == other.secs && self.nanos < other.nanos)
    }

    fn day_second(&self) -> (r: i128)
        ensures
            r == self.second_of_day(),
    {
        (self.secs as i128 + MANY_DAYS) % 86_400
    }

    /// The nanoseconds from `earlier` to this point.
    pub fn nanos_since(&self, earlier: &Timestamp) -> (r: i128)
        ensures
            r == self.since(*earlier),
    {
        let ours: i128 = self.day_second();
        let theirs: i128 = earlier.day_second();
        let leaps: i128 = if earlier.nanos >= 1_000_000_000 && theirs < ours {
            1
        } else if self.nanos >= 1_000_000_000 && ours < theirs {
            -1
        } else {
            0
        };
        (self.secs as i128 - earlier.secs as i128 + leaps) * 1_000_000_000 + self.nanos as i128
            - earlier.nanos as i128
    }

    /// Whether this point lies more than `span` after `earlier`.
    pub fn is_more_than_after(&self, span: &Span, earlier: &Timestamp) -> (r: bool)
        ensures
            r == (self.since(*earlier) > span.length()),
    {
        self.nanos_since(earlier) > span.to_nanos()
    }

    /// The earlier of two points; the first of two equal ones.
    pub fn earlier_of(&self, other: &Timestamp) -> (r: Timestamp)
        ensures
            r == (if other.order() < self.order() {
                *other
            } else {
                *self
            }),
    {
        if other.is_before(self) {
            *other
        } else {
            *self
        }
    }
}

/// Of two points neither of which is a leap second, the later one lies as far or
/// further from any third one that is none.
pub proof fn lemma_time_goes_on(now: Timestamp, later: Timestamp, from: Timestamp)
    requires
        now.order() <= later.order(),
        !now.leap(),
        !later.leap(),
        !from.leap(),
    ensures
        now.since(from) <= later.since(from),
{
}

/// What comes after a point lies in the future of it, except where the point is a
/// leap second at the end of a day: that may lie under a second later than the
/// start of the next day.
pub proof fn lemma_later_is_no_past(now: Timestamp, later: Timestamp)
    requires
        now.order() < later.order(),
        now.proper(),
        later.proper(),
    ensures
        now.leap() && now.second_of_day() == 86_399 ==> now.since(later) < 1_000_000_000,
        !(now.leap() && now.second_of_day() == 86_399) ==> now.since(later) < 0,
{
}

impl Span {
    /// The length of the span in nanoseconds.
    pub open spec fn length(self) -> int {
        self.secs * 1_000_000_000 + self.nanos
    }

    /// The length of the span in nanoseconds.
    pub fn to_nanos(&self) -> (r: i128)
        ensures
            r == self.length(),
    {
        self.secs as i128 * 1_000_000_000 + self.nanos as i128
    }

    /// A span of whole seconds.
    pub fn seconds(secs: i64) -> (r: Span)
        ensures
            r.length() == secs * 1_000_000_000,
            r == (Span { secs, nanos: 0 }),
    {
        Span { secs, nanos: 0 }
    }
}

/// What a clock can show: a moment after the Unix epoch, where the calendar reaches
/// it, and no leap second.
pub open spec fn shown_by_clock(t: Timestamp) -> bool {
    0 <= t.secs <= MAX_SECOND && t.nanos < 1_000_000_000
}

/// `chrono::Utc::now`, as seconds and nanoseconds. Of the moment it is claimed
/// only that it lies after the Unix epoch, where the calendar reaches it, and
/// that it is no leap second.
#[verifier::external_body]
pub(crate) fn current_time() -> (r: Timestamp)
    ensures
        shown_by_clock(r),
{
    let now = chrono::Utc::now();
    Timestamp { secs: now.timestamp(), nanos: now.timestamp_subsec_nanos() }
}

/// The first second that a calendar date can be given for.
pub const MIN_SECOND: i64 = -8_334_601_228_800;

/// The last second that a calendar date can be given for.
pub const MAX_SECOND: i64 = 8_210_266_876_799;

/// `chrono::DateTime::from_timestamp`: the point `secs` seconds and `nanos`
/// nanoseconds after the Unix epoch, for the seconds of the years from -262143
/// to 262142.
#[verifier::external_body]
pub(crate) fn moment(secs: i64, nanos: u32) -> (r: Option<Timestamp>)
    requires
        nanos < 1_000_000_000,
    ensures
        r == (if MIN_SECOND <= secs <= MAX_SECOND {
            Some(Timestamp { secs, nanos })
        } else {
            None
        }),
{
    let found = chrono::DateTime::from_timestamp(secs, nanos)?;
    Some(Timestamp { secs: found.timestamp(), nanos: found.timestamp_subsec_nanos() })
}

/// The seconds and nanoseconds of the point that an RFC 3339 text denotes, or
/// what is wrong with the text.
pub uninterp spec fn rfc3339_moment(text: Seq<char>) -> Result<(i64, u32), Seq<char>>;

/// The RFC 3339 text, in UTC, of the point at these seconds and nanoseconds.
pub uninterp spec fn rfc3339_of(secs: i64, nanos: u32) -> Seq<char>;

/// The outcome of reading a point in time, with its error as text.
pub open spec fn read_moment(r: Result<Timestamp, String>) -> Result<(i64, u32), Seq<char>> {
    match r {
        Ok(t) => Ok((t.secs, t.nanos)),
        Err(e) => Err(e@),
    }
}

/// `chrono::DateTime::parse_from_rfc3339`: the point that the text denotes, or
/// the message of the error.
#[verifier::external_body]
pub(crate) fn parse_rfc3339(text: &str) -> (r: Result<Timestamp, String>)
    ensures
        read_moment(r) == rfc3339_moment(text@),
{
    match chrono::DateTime::parse_from_rfc3339(text) {
        Ok(t) => Ok(Timestamp { secs: t.timestamp(), nanos: t.timestamp_subsec_nanos() }),
        Err(e) => Err(e.to_string()),
    }
}

/// The first second of the year 0.
pub const FIRST_READABLE_SECOND: i64 = -62_167_219_200;

/// The last second of the year 9999.
pub const LAST_READABLE_SECOND: i64 = 253_402_300_799;

/// Whether a text denotes `t`, where `t` lies in the years from 0 to 9999.
pub open spec fn reads_back(text: Seq<char>, t: Timestamp) -> bool {
    FIRST_READABLE_SECOND <= t.secs <= LAST_READABLE_SECOND ==> rfc3339_moment(text) == Ok::<
        (i64, u32),
        Seq<char>,
    >((t.secs, t.nanos))
}

/// `chrono::DateTime::to_rfc3339` on the point in UTC. Reading the text gives
/// the point back, for the years from 0 to 9999 and leap seconds too; other years are
/// written with a sign that is not read.
#[verifier::external_body]
pub(crate) fn format_rfc3339(t: &Timestamp) -> (r: String)
    requires
        MIN_SECOND <= t.secs <= MAX_SECOND,
        t.proper(),
    ensures
        r@ == rfc3339_of(t.secs, t.nanos),
        reads_back(r@, *t),
{
    let found = chrono::DateTime::from_timestamp(t.secs, t.nanos).unwrap_or_default();
    found.to_rfc3339()
}

impl DeepView for Timestamp {
    type V = Timestamp;

    open spec fn deep_view(&self) -> Timestamp {
        *self
    }
}

/// A length of time: seconds, and nanoseconds below one second.
#[derive(Debug, Clone, Copy, PartialEq, Eq, PartialOrd, Ord, Structural)]
pub struct Period {
    pub secs: u64,
    pub nanos: u32,
}

impl Period {
    /// The length in nanoseconds.
    pub open spec fn length(self) -> nat {
        (self.secs * 1_000_000_000 + self.nanos) as nat
    }

    /// A length of whole seconds.
    pub fn from_secs(secs: u64) -> (r: Period)
        ensures
            r == (Period { secs, nanos: 0 }),
    {
        Period { secs, nanos: 0 }
    }

    /// The length in nanoseconds.
    pub fn to_nanos(&self) -> (r: i128)
        ensures
            r == self.length(),
    {
        self.secs as i128 * 1_000_000_000 + self.nanos as i128
    }

    /// Whether no time at all is given.
    pub open spec fn nothing(self) -> bool {
        self.secs == 0 && self.nanos == 0
    }

    /// Whether no time at all is given.
    pub fn is_zero(&self) -> (r: bool)
        ensures
            r == self.nothing(),
    {
        self.secs == 0 && self.nanos == 0
    }

    /// The length, but at most `secs` seconds.
    pub fn at_most(&self, secs: u64) -> (r: Period)
        ensures
            r == (if self.secs < secs {
                *self
            } else {
                Period { secs, nanos: 0 }
            }),
    {
        if self.secs < secs {
            *self
        } else {
            Period { secs, nanos: 0 }
        }
    }
}

/// How the point that an RFC 3339 text denotes is shown; nothing for a text that
/// denotes none.
pub uninterp spec fn rfc3339_shown_of(text: Seq<char>) -> Option<Seq<char>>;

/// `chrono::DateTime::parse_from_rfc3339`, then `to_string`: how the point that
/// the text denotes is shown, in the text's own offset.
#[verifier::external_body]
pub(crate) fn shown_rfc3339(text: &str) -> (r: Option<String>)
    ensures
        r.deep_view() == rfc3339_shown_of(text@),
{
    chrono::DateTime::parse_from_rfc3339(text).ok().map(|t| t.to_string())
}

/// One moment comes before another by its seconds, and by its nanoseconds where
/// the seconds are equal. The time between two that lie in no leap second is the
/// difference of both, and turns round with them.
pub proof fn lemma_moments_differ_by_seconds_and_nanoseconds(a: Timestamp, b: Timestamp)
    ensures
        a.order() < b.order() <==> a.secs < b.secs || (a.secs == b.secs && a.nanos < b.nanos),
        a.nanos < 1_000_000_000 && b.nanos < 1_000_000_000 ==> {
            &&& a.since(b) == (a.secs - b.secs) * 1_000_000_000 + (a.nanos - b.nanos)
            &&& a.since(b) == -b.since(a)
            &&& a.since(b) > 0 <==> b.order() < a.order()
        },
{
}

} // verus!
