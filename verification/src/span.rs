//! Spans of time, and the text that shows one.
use std::time::Duration;
use vstd::prelude::*;

verus! {

/// The number of nanoseconds in a second.
pub const NANOS_PER_SEC: u128 = 1_000_000_000;

/// The number of nanoseconds in a millisecond.
pub const NANOS_PER_MILLI: u128 = 1_000_000;

/// The longest span, in nanoseconds: the largest number of seconds, and a
/// nanosecond less than one more.
pub const MAX_NANOS: u128 = 18_446_744_073_709_551_615_999_999_999;

/// A span of time, in whole nanoseconds.
///
/// The view is the number of nanoseconds.
#[derive(Debug)]
pub struct Span {
    nanos: u128,
}

impl View for Span {
    type V = nat;

    closed spec fn view(&self) -> nat {
        self.nanos as nat
    }
}

impl Clone for Span {
    fn clone(&self) -> (copy: Self)
        ensures
            copy == *self,
    {
        *self
    }
}

impl Copy for Span {

}

/// An optional span in nanoseconds.
pub open spec fn span_view(span: Option<Span>) -> Option<nat> {
    match span {
        Some(span) => Some(span@),
        None => None,
    }
}

/// The sum of two spans, or the longest span if the sum is longer.
pub open spec fn sum_of(span: nat, other: nat) -> nat {
    if span + other <= MAX_NANOS {
        span + other
    } else {
        MAX_NANOS as nat
    }
}

/// What `span` is longer than `other`; nothing if it is not.
pub open spec fn excess_of(span: nat, other: nat) -> nat {
    if span <= other {
        0
    } else {
        (span - other) as nat
    }
}

/// The text of a span of `secs` seconds and `nanos` nanoseconds, such as
/// `1.5s`.
pub uninterp spec fn duration_text(secs: u64, nanos: u32) -> Seq<char>;

/// `Duration::new`, and the `Debug` format of its result: a text that depends
/// on the two numbers alone. The text itself is not stated. `Duration::new`
/// carries a full second over, so `nanos` is less than one.
#[verifier::external_body]
fn format_duration(secs: u64, nanos: u32) -> (text: String)
    requires
        nanos < NANOS_PER_SEC,
    ensures
        text@ == duration_text(secs, nanos),
{
    format!("{:?}", Duration::new(secs, nanos))
}

impl Span {
    #[verifier::type_invariant]
    spec fn in_range(self) -> bool {
        self.nanos <= MAX_NANOS
    }

    /// A span of `secs` seconds and `nanos` nanoseconds.
    pub fn new(secs: u64, nanos: u32) -> (span: Self)
        requires
            nanos < NANOS_PER_SEC,
        ensures
            span@ == secs * NANOS_PER_SEC + nanos,
    {
        Span { nanos: secs as u128 * NANOS_PER_SEC + nanos as u128 }
    }

    /// A span of `secs` seconds.
    pub fn from_secs(secs: u64) -> (span: Self)
        ensures
            span@ == secs * NANOS_PER_SEC,
    {
        Span::new(secs, 0)
    }

    /// A span of `millis` milliseconds.
    pub fn from_millis(millis: u64) -> (span: Self)
        ensures
            span@ == millis * NANOS_PER_MILLI,
    {
        Span { nanos: millis as u128 * NANOS_PER_MILLI }
    }

    /// The span in nanoseconds.
    pub fn as_nanos(&self) -> (nanos: u128)
        ensures
            nanos == self@,
            nanos <= MAX_NANOS,
    {
        proof {
            use_type_invariant(self);
        }
        self.nanos
    }

    /// The whole milliseconds of the span.
    pub fn as_millis(&self) -> (millis: u128)
        ensures
            millis == self@ / NANOS_PER_MILLI as nat,
    {
        self.nanos / NANOS_PER_MILLI
    }

    /// The whole seconds of the span.
    pub fn as_secs(&self) -> (secs: u64)
        ensures
            secs == self@ / NANOS_PER_SEC as nat,
    {
        proof {
            use_type_invariant(self);
        }
        (self.nanos / NANOS_PER_SEC) as u64
    }

    /// The nanoseconds of the span beyond its whole seconds.
    pub fn subsec_nanos(&self) -> (nanos: u32)
        ensures
            nanos == self@ % NANOS_PER_SEC as nat,
            nanos < NANOS_PER_SEC,
    {
        (self.nanos % NANOS_PER_SEC) as u32
    }

    /// The sum of two spans, at most the longest span.
    pub fn saturating_add(&self, other: &Span) -> (sum: Self)
        ensures
            sum@ == sum_of(self@, other@),
    {
        proof {
            use_type_invariant(self);
            use_type_invariant(other);
        }
        if self.nanos <= MAX_NANOS - other.nanos {
            Span { nanos: self.nanos + other.nanos }
        } else {
            Span { nanos: MAX_NANOS }
        }
    }

    /// What the span is longer than `other`.
    pub fn saturating_sub(&self, other: &Span) -> (excess: Self)
        ensures
            excess@ == excess_of(self@, other@),
    {
        proof {
            use_type_invariant(self);
        }
        if self.nanos <= other.nanos {
            Span { nanos: 0 }
        } else {
            Span { nanos: self.nanos - other.nanos }
        }
    }

    /// The text that shows the span.
    pub fn text(&self) -> (text: String)
        ensures
            text@ == text_of(self@),
    {
        proof {
            use_type_invariant(self);
        }
        format_duration(self.as_secs(), self.subsec_nanos())
    }
}

/// The text that shows a span of `nanos` nanoseconds.
pub open spec fn text_of(nanos: nat) -> Seq<char> {
    duration_text(
        (nanos / NANOS_PER_SEC as nat) as u64,
        (nanos % NANOS_PER_SEC as nat) as u32,
    )
}

} // verus!
