//! Instants and spans of time.

use vstd::prelude::*;
use vstd::string::*;

verus! {

/// Nanoseconds in one second.
pub const NANOS_PER_SECOND: u32 = 1_000_000_000;

/// The first second that a calendar date can be given for.
pub const EARLIEST_SECOND: i64 = -8_334_601_228_800;

/// The last second that a calendar date can be given for.
pub const LATEST_SECOND: i64 = 8_210_266_876_799;

/// An instant: whole seconds since the Unix epoch, and nanoseconds into the second.
#[derive(Clone, Copy, Debug, PartialEq, Eq, Hash, Structural)]
pub struct Timestamp {
    /// Whole seconds since the Unix epoch.
    pub secs: i64,
    /// Nanoseconds into the second.
    pub nanos: u32,
}

/// A span of time: whole seconds and nanoseconds.
#[derive(Clone, Copy, Debug, PartialEq, Eq, Hash, Structural)]
pub struct TimeSpan {
    /// Whole seconds.
    pub secs: u64,
    /// Further nanoseconds.
    pub nanos: u32,
}

/// Why an instant could not be moved by a span.
#[derive(Debug, PartialEq, Eq)]
pub enum SpanError {
    /// The span itself is longer than can be represented; carries the reason.
    OutOfRange(String),
    /// The instant reached lies outside the calendar.
    Overflow,
}

/// One instant lies strictly before another.
pub open spec fn earlier(a: Timestamp, b: Timestamp) -> bool {
    a.secs < b.secs || (a.secs == b.secs && a.nanos < b.nanos)
}

impl Timestamp {
    /// Nanoseconds since the Unix epoch.
    pub open spec fn nanoseconds(self) -> int {
        self.secs * NANOS_PER_SECOND + self.nanos
    }

    /// The instant lies in the calendar and its nanoseconds make no whole second.
    pub open spec fn wf(self) -> bool {
        &&& EARLIEST_SECOND <= self.secs <= LATEST_SECOND
        &&& self.nanos < NANOS_PER_SECOND
    }

    /// Whether this instant lies strictly after another.
    pub fn is_after(&self, other: &Timestamp) -> (after: bool)
        ensures
            after == earlier(*other, *self),
    {
        other.secs < self.secs || (other.secs == self.secs && other.nanos < self.nanos)
    }
}

impl TimeSpan {
    /// The span in nanoseconds.
    pub open spec fn nanoseconds(self) -> int {
        self.secs * NANOS_PER_SECOND + self.nanos
    }

    /// The nanoseconds make no whole second.
    pub open spec fn wf(self) -> bool {
        self.nanos < NANOS_PER_SECOND
    }

    /// A whole number of seconds.
    pub fn from_secs(secs: u64) -> (span: Self)
        ensures
            span.secs == secs,
            span.nanos == 0,
            span.wf(),
    {
        TimeSpan { secs, nanos: 0 }
    }

    /// A whole number of milliseconds.
    pub fn from_millis(millis: u64) -> (span: Self)
        ensures
            span.nanoseconds() == millis * 1_000_000,
            span.wf(),
    {
        let secs: u64 = millis / 1000;
        let rest: u32 = (millis % 1000) as u32;
        TimeSpan { secs, nanos: rest * 1_000_000 }
    }
}

/// The longest span there is, in nanoseconds.
pub open spec fn endless() -> int {
    u64::MAX * NANOS_PER_SECOND + NANOS_PER_SECOND - 1
}

impl TimeSpan {
    /// The span in nanoseconds.
    fn whole_nanoseconds(&self) -> (nanoseconds: u128)
        ensures
            nanoseconds == self.nanoseconds(),
            nanoseconds < 0x1_0000_0000_0000_0001 * 1_000_000_000 * 5,
    {
        self.secs as u128 * 1_000_000_000 + self.nanos as u128
    }

    /// Whether this span is longer than another.
    pub fn exceeds(&self, other: &TimeSpan) -> (longer: bool)
        ensures
            longer == (self.nanoseconds() > other.nanoseconds()),
    {
        self.whole_nanoseconds() > other.whole_nanoseconds()
    }

    /// The span a number of times, or the longest one where that is longer.
    pub fn saturating_mul(&self, times: u32) -> (product: TimeSpan)
        requires
            self.wf(),
        ensures
            product.wf(),
            product.nanoseconds() == if self.nanoseconds() * times <= endless() {
                self.nanoseconds() * times
            } else {
                endless()
            },
    {
        let whole: u128 = self.whole_nanoseconds();
        assert(whole <= endless()) by (nonlinear_arith)
            requires
                whole == self.secs * 1_000_000_000 + self.nanos,
                self.secs <= u64::MAX,
                self.nanos < 1_000_000_000,
                endless() == u64::MAX * 1_000_000_000 + 999_999_999,
        ;
        assert(whole * times <= u128::MAX && whole * times >= 0) by (nonlinear_arith)
            requires
                0 <= whole <= u64::MAX * 1_000_000_000 + 999_999_999,
                0 <= times <= u32::MAX,
        ;
        let product: u128 = whole * (times as u128);
        let secs: u128 = product / 1_000_000_000;
        let nanos: u128 = product % 1_000_000_000;
        if secs > 0xffff_ffff_ffff_ffff {
            TimeSpan { secs: 0xffff_ffff_ffff_ffff, nanos: 999_999_999 }
        } else {
            TimeSpan { secs: secs as u64, nanos: nanos as u32 }
        }
    }
}

/// The longest span that a calendar calculation takes: `i64::MAX` milliseconds.
pub open spec fn longest_span() -> int {
    i64::MAX * 1_000_000
}

/// Why a span longer than [`longest_span`] is refused.
pub open spec fn span_out_of_range_text() -> Seq<char> {
    "Source duration value is out of range for the target type"@
}

/// Converts a span with `chrono::TimeDelta::from_std`.
///
/// Not proved: that the conversion succeeds exactly on the spans of at most
/// `i64::MAX` milliseconds, keeps the seconds and the nanoseconds, and otherwise
/// fails with the one text that the error displays.
#[verifier::external_body]
fn delta_from_span(span: TimeSpan) -> (delta: Result<(i64, i32), String>)
    requires
        span.wf(),
    ensures
        delta is Ok <==> span.nanoseconds() <= longest_span(),
        delta matches Ok(parts) ==> parts.0 == span.secs && parts.1 == span.nanos,
        delta matches Err(reason) ==> reason@ == span_out_of_range_text(),
{
    match chrono::TimeDelta::from_std(std::time::Duration::new(span.secs, span.nanos)) {
        Ok(delta) => Ok((delta.num_seconds(), delta.subsec_nanos())),
        Err(error) => Err(error.to_string()),
    }
}

/// Moves an instant with `chrono::DateTime::checked_add_signed`.
///
/// Not proved: that on instants without leap seconds the addition is that of
/// nanoseconds, and that it fails exactly where the sum lies outside the calendar.
#[verifier::external_body]
fn add_delta(at: Timestamp, secs: i64, nanos: u32) -> (moved: Option<Timestamp>)
    requires
        at.wf(),
        0 <= secs,
        nanos < NANOS_PER_SECOND,
        secs * NANOS_PER_SECOND + nanos <= longest_span(),
    ensures
        moved is Some <==> at.nanoseconds() + secs * NANOS_PER_SECOND + nanos
            < (LATEST_SECOND + 1) * NANOS_PER_SECOND,
        moved matches Some(instant) ==> instant.wf() && instant.nanoseconds()
            == at.nanoseconds() + secs * NANOS_PER_SECOND + nanos,
{
    let start = chrono::DateTime::from_timestamp(at.secs, at.nanos)?;
    let moved = start.checked_add_signed(chrono::TimeDelta::new(secs, nanos)?)?;
    Some(Timestamp { secs: moved.timestamp(), nanos: moved.timestamp_subsec_nanos() })
}

/// The instant that lies a span after another.
pub fn after_span(at: Timestamp, span: TimeSpan) -> (moved: Result<Timestamp, SpanError>)
    requires
        at.wf(),
        span.wf(),
    ensures
        match moved {
            Ok(instant) => {
                &&& span.nanoseconds() <= longest_span()
                &&& instant.wf()
                &&& instant.nanoseconds() == at.nanoseconds() + span.nanoseconds()
            },
            Err(SpanError::OutOfRange(reason)) => {
                &&& span.nanoseconds() > longest_span()
                &&& reason@ == span_out_of_range_text()
            },
            Err(SpanError::Overflow) => {
                &&& span.nanoseconds() <= longest_span()
                &&& at.nanoseconds() + span.nanoseconds() >= (LATEST_SECOND + 1) * NANOS_PER_SECOND
            },
        },
{
    match delta_from_span(span) {
        Ok(parts) => {
            match add_delta(at, parts.0, parts.1 as u32) {
                Some(instant) => Ok(instant),
                None => Err(SpanError::Overflow),
            }
        },
        Err(reason) => Err(SpanError::OutOfRange(reason)),
    }
}

/// An instant of the calendar is determined by its nanoseconds, and instants
/// compare as their nanoseconds do.
pub proof fn instants_follow_their_nanoseconds(a: Timestamp, b: Timestamp)
    requires
        a.wf(),
        b.wf(),
    ensures
        a.nanoseconds() == b.nanoseconds() ==> a == b,
        earlier(a, b) <==> a.nanoseconds() < b.nanoseconds(),
{
    let n: int = NANOS_PER_SECOND as int;
    assert(a.secs < b.secs ==> a.secs * n + n <= b.secs * n) by (nonlinear_arith)
        requires
            n == 1_000_000_000,
    ;
    assert(b.secs < a.secs ==> b.secs * n + n <= a.secs * n) by (nonlinear_arith)
        requires
            n == 1_000_000_000,
    ;
}

} // verus!
