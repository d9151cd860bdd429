//! One tracked interval, tagged with a class.

use vstd::prelude::*;
use vstd::string::*;
use crate::class::Class;
use crate::clock::{Span, Stamp};
use crate::text::{push_span, span_text};

verus! {

/// What can go wrong in the tracker.
#[derive(Clone, Copy, PartialEq, Eq, Structural, Debug)]
pub enum TimeError {
    /// A timer was started for a class that has one running.
    AlreadyActive,
    /// A timer was stopped or cancelled for a class that has none running.
    NotActive,
    /// The length of a timer was asked for that was never started.
    NoStartTime,
    /// A timer's end lies before its start.
    ClockSkew,
    /// A length of time is beyond the longest representable span.
    OutOfRange,
}

/// A timer: open while only `start` is set, closed once `end` is set too.
#[derive(Clone, Copy, PartialEq, Eq, Structural, Debug)]
pub struct Time {
    pub start: Option<Stamp>,
    pub end: Option<Stamp>,
    pub class: Class,
}

impl Time {
    /// Whether the timer was started and not yet ended.
    pub open spec fn is_open(self) -> bool {
        self.start is Some && self.end is None
    }

    /// Whether the timer has its end set.
    pub open spec fn is_closed(self) -> bool {
        self.end is Some
    }

    /// The timer's length, measured up to its end or, while it has none,
    /// up to the clock reading `now`.
    pub open spec fn elapsed_at(self, now: Stamp) -> Result<Span, TimeError> {
        match self.start {
            None => Err(TimeError::NoStartTime),
            Some(s) => {
                let e = match self.end {
                    Some(e) => e,
                    None => now,
                };
                if e.offset() < s.offset() {
                    Err(TimeError::ClockSkew)
                } else {
                    match Span::checked_of_nanos(e.offset() - s.offset()) {
                        Some(span) => Ok(span),
                        None => Err(TimeError::OutOfRange),
                    }
                }
            },
        }
    }

    /// The timer's length as text; the empty text for a timer that was
    /// never started.
    pub open spec fn rendered_at(self, now: Stamp) -> Result<Seq<char>, TimeError> {
        if self.start is None {
            Ok(Seq::<char>::empty())
        } else {
            match self.elapsed_at(now) {
                Ok(span) => Ok(span_text(span.secs as nat)),
                Err(e) => Err(e),
            }
        }
    }

    /// A fresh timer with neither bound set.
    pub fn new(class: Class) -> (r: Time)
        ensures
            r == (Time { start: None, end: None, class }),
    {
        Time { start: None, end: None, class }
    }

    /// Sets the start to a given clock reading.
    pub fn start_at(&mut self, now: Stamp)
        ensures
            *final(self) == (Time { start: Some(now), ..*old(self) }),
    {
        self.start = Some(now);
    }

    /// Sets the end to a given clock reading.
    pub fn end_at(&mut self, now: Stamp)
        ensures
            *final(self) == (Time { end: Some(now), ..*old(self) }),
    {
        self.end = Some(now);
    }

    /// Sets the start to the current clock reading.
    pub fn set_start(&mut self)
        ensures
            exists|now: Stamp|
                now.is_normal() && *final(self) == (Time { start: Some(now), ..*old(self) }),
            final(self).start is Some,
            final(self).end == old(self).end,
            final(self).class == old(self).class,
    {
        let now = Stamp::now();
        self.start_at(now);
    }

    /// Sets the end to the current clock reading.
    pub fn set_end(&mut self)
        ensures
            exists|now: Stamp|
                now.is_normal() && *final(self) == (Time { end: Some(now), ..*old(self) }),
            final(self).end is Some,
            final(self).start == old(self).start,
            final(self).class == old(self).class,
    {
        let now = Stamp::now();
        self.end_at(now);
    }

    /// The timer's length against a given clock reading.
    pub fn duration_at(&self, now: Stamp) -> (r: Result<Span, TimeError>)
        ensures
            r == self.elapsed_at(now),
            r matches Ok(span) ==> span.nanos < 1_000_000_000 && span.total_nanos() <= crate::clock::max_span_nanos(),
    {
        match self.start {
            None => Err(TimeError::NoStartTime),
            Some(s) => {
                let e = match self.end {
                    Some(e) => e,
                    None => now,
                };
                let from: i128 = s.offset_nanos();
                let to: i128 = e.offset_nanos();
                if to < from {
                    Err(TimeError::ClockSkew)
                } else {
                    match Span::from_nanos((to - from) as u128) {
                        Some(span) => Ok(span),
                        None => Err(TimeError::OutOfRange),
                    }
                }
            },
        }
    }

    /// The timer's length: up to its end, or up to the current clock
    /// reading while it is open.
    pub fn duration(&self) -> (r: Result<Span, TimeError>)
        ensures
            exists|now: Stamp| now.is_normal() && r == self.elapsed_at(now),
            self.end matches Some(e) ==> r == self.elapsed_at(e),
    {
        let now = Stamp::now();
        self.duration_at(now)
    }

    /// The timer's length as text against a given clock reading.
    pub fn render_at(&self, now: Stamp) -> (r: Result<String, TimeError>)
        ensures
            r is Ok == self.rendered_at(now) is Ok,
            r matches Ok(s) ==> self.rendered_at(now) == Ok::<Seq<char>, TimeError>(s@),
            r matches Err(e) ==> self.rendered_at(now) == Err::<Seq<char>, TimeError>(e),
    {
        let mut out = String::new();
        match self.push_rendered(&mut out, now) {
            Ok(()) => {
                assert(out@ =~= self.rendered_at(now)->Ok_0);
                Ok(out)
            },
            Err(e) => Err(e),
        }
    }

    /// Appends the timer's length as text to a string; on failure the
    /// string is left as it was.
    pub fn push_rendered(&self, out: &mut String, now: Stamp) -> (r: Result<(), TimeError>)
        ensures
            match self.rendered_at(now) {
                Ok(text) => r is Ok && final(out)@ == old(out)@ + text,
                Err(e) => r == Err::<(), TimeError>(e) && final(out)@ == old(out)@,
            },
    {
        if self.start.is_none() {
            assert(out@ =~= out@ + Seq::<char>::empty());
            return Ok(());
        }
        match self.duration_at(now) {
            Ok(span) => {
                push_span(out, &span);
                Ok(())
            },
            Err(e) => Err(e),
        }
    }

    /// The timer's length as text, measured as `duration` measures it.
    pub fn to_string(&self) -> (r: Result<String, TimeError>)
        ensures
            exists|now: Stamp|
                {
                    &&& now.is_normal()
                    &&& r is Ok == self.rendered_at(now) is Ok
                    &&& r matches Ok(s) ==> self.rendered_at(now) == Ok::<Seq<char>, TimeError>(s@)
                    &&& r matches Err(e) ==> self.rendered_at(now) == Err::<Seq<char>, TimeError>(e)
                },
    {
        let now = Stamp::now();
        self.render_at(now)
    }
}

} // verus!
