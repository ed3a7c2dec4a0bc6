//! What holds of spans of time.
use crate::span::{
    duration_text, excess_of, span_view, sum_of, text_of, Span, MAX_NANOS, NANOS_PER_MILLI,
    NANOS_PER_SEC,
};
use vstd::prelude::*;

verus! {

/// The units in nanoseconds, and the longest span: the largest 64-bit number
/// of seconds, and one nanosecond less than another.
pub proof fn law_units()
    ensures
        NANOS_PER_SEC == 1_000_000_000,
        NANOS_PER_MILLI * 1_000 == NANOS_PER_SEC,
        MAX_NANOS + 1 == (u64::MAX + 1) * 1_000_000_000,
{
}

/// What a sum exceeds one of its parts by is the other part, as long as the
/// sum is no longer than the longest span; a longer sum is cut to it.
pub proof fn law_sum_and_excess(span: nat, other: nat)
    ensures
        span + other <= 18_446_744_073_709_551_615_999_999_999 ==> sum_of(span, other) == span
            + other && excess_of(sum_of(span, other), other) == span,
        span + other > 18_446_744_073_709_551_615_999_999_999 ==> sum_of(span, other)
            == 18_446_744_073_709_551_615_999_999_999,
        span >= other ==> excess_of(span, other) + other == span,
        span <= other ==> excess_of(span, other) == 0,
{
}

/// The text of a span is that of its whole seconds and of the nanoseconds
/// beyond them.
pub proof fn law_text_of_parts(secs: u64, nanos: u32)
    requires
        nanos < 1_000_000_000,
    ensures
        text_of((secs * 1_000_000_000 + nanos) as nat) == duration_text(secs, nanos),
{
    let total = (secs * 1_000_000_000 + nanos) as nat;
    assert(total / 1_000_000_000 == secs && total % 1_000_000_000 == nanos) by (nonlinear_arith)
        requires
            total == secs * 1_000_000_000 + nanos,
            nanos < 1_000_000_000,
    ;
}

/// An optional span is there exactly if its view is, and is the same.
pub proof fn law_optional_span(span: Span)
    ensures
        span_view(Some(span)) == Some(span@),
        span_view(None) is None,
{
}

} // verus!
