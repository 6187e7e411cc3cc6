//! Instants in time: seconds and nanoseconds since the Unix epoch, with the
//! RFC 3339 text that the transcript format writes.

use crate::text::is_line;
use crate::text::is_space;
use crate::text::trim;
use crate::text::trim_end;
use crate::text::trim_start;
use vstd::prelude::*;

verus! {

/// Whether `chrono` can represent the instant `secs` seconds and `nanos`
/// nanoseconds after the Unix epoch (`DateTime::from_timestamp` returns
/// `Some`).
pub uninterp spec fn unix_time_valid(secs: int, nanos: int) -> bool;

/// The RFC 3339 text that `chrono` prints for a representable instant
/// (`DateTime::<Utc>::to_rfc3339`).
pub uninterp spec fn rfc3339_text(secs: int, nanos: int) -> Seq<char>;

/// The instant that `chrono` reads from an RFC 3339 text
/// (`DateTime::parse_from_rfc3339`), as seconds and nanoseconds since the
/// Unix epoch in UTC, if it accepts the text.
pub uninterp spec fn rfc3339_parsed(text: Seq<char>) -> Option<(int, int)>;

/// The characters that a printed instant is made of.
pub open spec fn is_rfc3339_char(c: char) -> bool {
    ('0' <= c && c <= '9') || c == '-' || c == '+' || c == ':' || c == '.' || c == 'T'
}

/// What holds of the printed form of every representable instant: it is not
/// empty and holds only digits and the separators of the format.
pub open spec fn prints_clean(secs: int, nanos: int) -> bool {
    &&& rfc3339_text(secs, nanos).len() > 0
    &&& forall|i: int|
        0 <= i < rfc3339_text(secs, nanos).len() ==> is_rfc3339_char(
            #[trigger] rfc3339_text(secs, nanos)[i],
        )
}

/// An instant that `chrono` can represent.
#[derive(PartialEq, Eq, Structural, Debug, Clone, Copy)]
pub struct Timestamp {
    secs: i64,
    nanos: u32,
}

/// Calls `chrono::DateTime::from_timestamp` and reads the instant back with
/// `timestamp` and `timestamp_subsec_nanos`, which round-trip.
#[verifier::external_body]
fn instant_from_unix(secs: i64, nanos: u32) -> (r: Option<Timestamp>)
    ensures
        r is Some <==> unix_time_valid(secs as int, nanos as int),
        r matches Some(t) ==> t.secs == secs && t.nanos == nanos,
{
    match chrono::DateTime::from_timestamp(secs, nanos) {
        Some(d) => Some(Timestamp { secs: d.timestamp(), nanos: d.timestamp_subsec_nanos() }),
        None => None,
    }
}

/// Calls `chrono::Utc::now`. Nothing is promised of the instant but that it
/// is representable.
#[verifier::external_body]
fn instant_now() -> (t: Timestamp)
    ensures
        unix_time_valid(t.secs as int, t.nanos as int),
{
    let d = chrono::Utc::now();
    Timestamp { secs: d.timestamp(), nanos: d.timestamp_subsec_nanos() }
}

/// Calls `chrono::DateTime::parse_from_rfc3339` and converts the result to
/// UTC seconds and nanoseconds.
#[verifier::external_body]
fn instant_from_rfc3339(text: &str) -> (r: Option<Timestamp>)
    ensures
        match r {
            Some(t) => rfc3339_parsed(text@) == Some((t.secs as int, t.nanos as int))
                && unix_time_valid(t.secs as int, t.nanos as int),
            None => rfc3339_parsed(text@) is None,
        },
{
    match chrono::DateTime::parse_from_rfc3339(text) {
        Ok(d) => Some(Timestamp { secs: d.timestamp(), nanos: d.timestamp_subsec_nanos() }),
        Err(_) => None,
    }
}

/// Calls `chrono::DateTime::<Utc>::to_rfc3339` on the instant. The text holds
/// digits and the characters `-`, `+`, `:`, `.` and `T` only.
#[verifier::external_body]
fn instant_to_rfc3339(secs: i64, nanos: u32) -> (text: String)
    requires
        unix_time_valid(secs as int, nanos as int),
    ensures
        text@ == rfc3339_text(secs as int, nanos as int),
        text@.len() > 0,
        forall|i: int| 0 <= i < text@.len() ==> is_rfc3339_char(#[trigger] text@[i]),
{
    chrono::DateTime::from_timestamp(secs, nanos).map(|d| d.to_rfc3339()).unwrap_or_default()
}

impl Timestamp {
    #[verifier::type_invariant]
    spec fn representable(self) -> bool {
        unix_time_valid(self.secs as int, self.nanos as int)
    }

    /// Whole seconds since the Unix epoch.
    pub closed spec fn unix_seconds(self) -> int {
        self.secs as int
    }

    /// Nanoseconds past the whole second; a leap second counts beyond
    /// 999,999,999.
    pub closed spec fn subsec_nanos(self) -> int {
        self.nanos as int
    }

    /// The instant with the given seconds and nanoseconds.
    pub closed spec fn at(secs: int, nanos: int) -> Timestamp {
        Timestamp { secs: secs as i64, nanos: nanos as u32 }
    }

    /// The instant that an RFC 3339 text stands for, if it is one.
    pub open spec fn parsed(text: Seq<char>) -> Option<Timestamp> {
        match rfc3339_parsed(text) {
            Some((secs, nanos)) => Some(Timestamp::at(secs, nanos)),
            None => None,
        }
    }

    /// The RFC 3339 text of this instant.
    pub open spec fn text(self) -> Seq<char> {
        rfc3339_text(self.unix_seconds(), self.subsec_nanos())
    }

    /// Whether the printed form is free of white space and not empty.
    pub open spec fn prints_clean(self) -> bool {
        prints_clean(self.unix_seconds(), self.subsec_nanos())
    }

    /// Whether the printed form reads back as this very instant.
    pub open spec fn reads_back(self) -> bool {
        Timestamp::parsed(self.text()) == Some(self)
    }

    /// Whether this instant comes strictly before `other`.
    pub open spec fn precedes(self, other: Timestamp) -> bool {
        self.unix_seconds() < other.unix_seconds() || (self.unix_seconds() == other.unix_seconds()
            && self.subsec_nanos() < other.subsec_nanos())
    }

    /// The current instant, as the clock gives it: one that can be
    /// represented.
    pub fn now() -> (t: Timestamp)
        ensures
            unix_time_valid(t.unix_seconds(), t.subsec_nanos()),
    {
        instant_now()
    }

    /// The instant `secs` seconds and `nanos` nanoseconds after the Unix
    /// epoch; `None` where it cannot be represented.
    pub fn from_unix(secs: i64, nanos: u32) -> (r: Option<Timestamp>)
        ensures
            r is Some <==> unix_time_valid(secs as int, nanos as int),
            r matches Some(t) ==> t.unix_seconds() == secs && t.subsec_nanos() == nanos,
    {
        instant_from_unix(secs, nanos)
    }

    /// Reads an RFC 3339 text; `None` where the text is not one.
    pub fn parse_rfc3339(text: &str) -> (r: Option<Timestamp>)
        ensures
            r == Timestamp::parsed(text@),
    {
        instant_from_rfc3339(text)
    }

    /// The RFC 3339 text of this instant.
    pub fn to_rfc3339(&self) -> (text: String)
        ensures
            text@ == self.text(),
            self.prints_clean(),
    {
        proof {
            use_type_invariant(self);
        }
        instant_to_rfc3339(self.secs, self.nanos)
    }

    /// Whether the printed form of this instant reads back as the same
    /// instant.
    pub fn check_reads_back(&self) -> (r: bool)
        ensures
            r == self.reads_back(),
    {
        let text = self.to_rfc3339();
        match instant_from_rfc3339(text.as_str()) {
            Some(t) => {
                let same = t.secs == self.secs && t.nanos == self.nanos;
                proof {
                    if !same && Timestamp::parsed(text@) == Some(*self) {
                        assert(Timestamp::at(t.secs as int, t.nanos as int) == *self);
                    }
                }
                same
            },
            None => false,
        }
    }

    /// Whole seconds since the Unix epoch.
    pub fn secs(&self) -> (s: i64)
        ensures
            s == self.unix_seconds(),
    {
        self.secs
    }

    /// Nanoseconds past the whole second.
    pub fn nanos(&self) -> (n: u32)
        ensures
            n == self.subsec_nanos(),
    {
        self.nanos
    }

    /// Whether this instant comes strictly before `other`.
    pub fn is_before(&self, other: &Timestamp) -> (r: bool)
        ensures
            r == self.precedes(*other),
    {
        self.secs < other.secs || (self.secs == other.secs && self.nanos < other.nanos)
    }
}

/// A printed instant has no white space and no line feed, so trimming leaves
/// it as it is.
pub proof fn lemma_rfc3339_text_is_clean(t: Timestamp)
    requires
        t.prints_clean(),
    ensures
        is_line(t.text()),
        trim(t.text()) == t.text(),
        t.text().len() > 0,
        !is_space(t.text()[0]),
        !is_space(t.text().last()),
{
    let s = t.text();
    assert forall|i: int| 0 <= i < s.len() implies #[trigger] s[i] != '\n' && !is_space(s[i]) by {
        assert(is_rfc3339_char(s[i]));
    }
    assert(trim_start(s) == s);
    assert(trim_end(s) == s);
}

} // verus!
