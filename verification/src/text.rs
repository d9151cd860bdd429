//! Decimal numbers and spans as text.

use vstd::prelude::*;
use vstd::string::*;
use crate::clock::Span;

verus! {

/// The text of one decimal digit.
pub open spec fn digit(d: int) -> Seq<char> {
    if d == 0 {
        "0"@
    } else if d == 1 {
        "1"@
    } else if d == 2 {
        "2"@
    } else if d == 3 {
        "3"@
    } else if d == 4 {
        "4"@
    } else if d == 5 {
        "5"@
    } else if d == 6 {
        "6"@
    } else if d == 7 {
        "7"@
    } else if d == 8 {
        "8"@
    } else {
        "9"@
    }
}

/// A natural number in decimal, without leading zeros.
pub open spec fn decimal(n: nat) -> Seq<char>
    decreases n,
{
    if n < 10 {
        digit(n as int)
    } else {
        decimal(n / 10) + digit((n % 10) as int)
    }
}

/// A span of whole seconds as text: hours, minute of the hour and second
/// of the minute, the hours left out where there are none.
pub open spec fn span_text(secs: nat) -> Seq<char> {
    if secs / 3600 > 0 {
        decimal(secs / 3600) + "h "@ + decimal((secs / 60) % 60) + "m "@ + decimal(secs % 60)
            + "s"@
    } else {
        decimal(secs / 60) + "m "@ + decimal(secs % 60) + "s"@
    }
}

fn push_digit(out: &mut String, d: u64)
    requires
        d < 10,
    ensures
        final(out)@ == old(out)@ + digit(d as int),
{
    if d == 0 {
        out.append("0");
    } else if d == 1 {
        out.append("1");
    } else if d == 2 {
        out.append("2");
    } else if d == 3 {
        out.append("3");
    } else if d == 4 {
        out.append("4");
    } else if d == 5 {
        out.append("5");
    } else if d == 6 {
        out.append("6");
    } else if d == 7 {
        out.append("7");
    } else if d == 8 {
        out.append("8");
    } else {
        out.append("9");
    }
}

/// Appends a number in decimal to a string.
pub fn push_decimal(out: &mut String, n: u64)
    ensures
        final(out)@ == old(out)@ + decimal(n as nat),
    decreases n,
{
    if n < 10 {
        push_digit(out, n);
    } else {
        push_decimal(out, n / 10);
        push_digit(out, n % 10);
        assert(final(out)@ =~= old(out)@ + decimal(n as nat));
    }
}

/// Appends a span to a string, in the form of `span_text`.
pub fn push_span(out: &mut String, span: &Span)
    ensures
        final(out)@ == old(out)@ + span_text(span.secs as nat),
{
    let secs: u64 = span.secs;
    let hours: u64 = secs / 3600;
    if hours > 0 {
        push_decimal(out, hours);
        out.append("h ");
        push_decimal(out, (secs / 60) % 60);
        out.append("m ");
        push_decimal(out, secs % 60);
        out.append("s");
    } else {
        push_decimal(out, secs / 60);
        out.append("m ");
        push_decimal(out, secs % 60);
        out.append("s");
    }
    assert(final(out)@ =~= old(out)@ + span_text(span.secs as nat));
}

/// A span as text: `"{h}h {m}m {s}s"` from one hour on, else `"{m}m {s}s"`.
pub fn format_span(span: &Span) -> (r: String)
    ensures
        r@ == span_text(span.secs as nat),
{
    let mut out = String::new();
    push_span(&mut out, span);
    assert(out@ =~= span_text(span.secs as nat));
    out
}

} // verus!
