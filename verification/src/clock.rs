//! Clock readings and the spans between them.

use vstd::prelude::*;

verus! {

/// A reading of the wall clock: its distance from the Unix epoch, and on
/// which side of the epoch it lies.
#[derive(Clone, Copy, PartialEq, Eq, Structural, Debug)]
pub struct Stamp {
    pub before_epoch: bool,
    pub secs: u64,
    pub nanos: u32,
}

/// A non-negative length of time.
#[derive(Clone, Copy, PartialEq, Eq, Structural, Debug)]
pub struct Span {
    pub secs: u64,
    pub nanos: u32,
}

/// Nanoseconds in one second.
pub open spec fn nanos_per_sec() -> int {
    1_000_000_000
}

/// The longest span that `chrono` represents: `i64::MAX` milliseconds,
/// counted in nanoseconds.
pub open spec fn max_span_nanos() -> int {
    9_223_372_036_854_775_807int * 1_000_000
}

/// A point of the system clock, as `std` hands it out.
#[verifier::external_type_specification]
#[verifier::external_body]
pub struct ExSystemTime(std::time::SystemTime);

/// Reads the wall clock with `SystemTime::now`. The reading differs from
/// call to call, so nothing is claimed of it.
#[verifier::external_body]
fn read_clock() -> (r: std::time::SystemTime) {
    std::time::SystemTime::now()
}

/// The failure of `SystemTime::duration_since`, as `std` hands it out.
#[verifier::external_type_specification]
#[verifier::external_body]
pub struct ExSystemTimeError(std::time::SystemTimeError);

/// Measures a point of the system clock against `UNIX_EPOCH` with
/// `SystemTime::duration_since`: the distance where the point is not
/// before the epoch, else the failure. Nothing is claimed of the result.
#[verifier::external_body]
fn since_epoch(t: &std::time::SystemTime) -> (r: Result<
    std::time::Duration,
    std::time::SystemTimeError,
>) {
    t.duration_since(std::time::UNIX_EPOCH)
}

/// Calls `SystemTimeError::duration`: how far before the epoch the point
/// lies. Nothing is claimed of the result.
#[verifier::external_body]
fn distance_before(e: &std::time::SystemTimeError) -> (r: std::time::Duration) {
    e.duration()
}

/// Calls `Duration::as_secs`: the whole seconds of a distance. Nothing is
/// claimed of the result.
#[verifier::external_body]
fn whole_secs(d: &std::time::Duration) -> (r: u64) {
    d.as_secs()
}

/// Calls `Duration::subsec_nanos`: the fraction of a distance in
/// nanoseconds, which `std` documents to be less than one billion. That
/// is all that is claimed of the result.
#[verifier::external_body]
fn fraction_nanos(d: &std::time::Duration) -> (r: u32)
    ensures
        r < 1_000_000_000,
{
    d.subsec_nanos()
}

/// Hands a span to `chrono::TimeDelta::from_std` and asks the result for
/// `num_seconds`. `from_std` accepts a span exactly when it is at most
/// `i64::MAX` milliseconds long; `num_seconds` of a non-negative delta is
/// its whole seconds. Neither is proved here.
#[verifier::external_body]
fn chrono_whole_seconds(secs: u64, nanos: u32) -> (r: Option<i64>)
    requires
        nanos < 1_000_000_000,
    ensures
        r == (if secs * nanos_per_sec() + nanos <= max_span_nanos() {
            Some(secs as i64)
        } else {
            None::<i64>
        }),
{
    match chrono::TimeDelta::from_std(std::time::Duration::new(secs, nanos)) {
        Ok(delta) => Some(delta.num_seconds()),
        Err(_) => None,
    }
}

impl Stamp {
    /// Signed distance from the Unix epoch in nanoseconds.
    pub open spec fn offset(self) -> int {
        if self.before_epoch {
            -(self.secs * nanos_per_sec() + self.nanos)
        } else {
            self.secs * nanos_per_sec() + self.nanos
        }
    }

    /// A reading at or after the epoch.
    pub fn new(secs: u64, nanos: u32) -> (r: Stamp)
        ensures
            r == (Stamp { before_epoch: false, secs, nanos }),
    {
        Stamp { before_epoch: false, secs, nanos }
    }

    /// Whether the fraction of the reading is less than a whole second.
    pub open spec fn is_normal(self) -> bool {
        self.nanos < 1_000_000_000
    }

    /// The current reading of the wall clock. Which reading comes depends
    /// on the moment of the call; every reading has a fraction of less
    /// than a whole second.
    pub(crate) fn now() -> (r: Stamp)
        ensures
            r.is_normal(),
    {
        let t = read_clock();
        match since_epoch(&t) {
            Ok(d) => Stamp { before_epoch: false, secs: whole_secs(&d), nanos: fraction_nanos(&d) },
            Err(e) => {
                let d = distance_before(&e);
                Stamp { before_epoch: true, secs: whole_secs(&d), nanos: fraction_nanos(&d) }
            },
        }
    }

    /// Signed distance from the Unix epoch in nanoseconds.
    pub fn offset_nanos(&self) -> (r: i128)
        ensures
            r == self.offset(),
    {
        let magnitude: i128 = (self.secs as i128) * 1_000_000_000i128 + (self.nanos as i128);
        if self.before_epoch {
            -magnitude
        } else {
            magnitude
        }
    }
}

impl Span {
    /// Length in nanoseconds.
    pub open spec fn total_nanos(self) -> int {
        self.secs * nanos_per_sec() + self.nanos
    }

    /// The span that is `n` nanoseconds long.
    pub open spec fn of_nanos(n: int) -> Span {
        Span { secs: (n / nanos_per_sec()) as u64, nanos: (n % nanos_per_sec()) as u32 }
    }

    /// The span of a length in nanoseconds, where it is short enough to be
    /// represented.
    pub open spec fn checked_of_nanos(n: int) -> Option<Span> {
        if 0 <= n <= max_span_nanos() {
            Some(Span::of_nanos(n))
        } else {
            None
        }
    }

    /// The empty span.
    pub fn zero() -> (r: Span)
        ensures
            r == Span::of_nanos(0),
    {
        Span { secs: 0, nanos: 0 }
    }

    /// Builds a span from whole seconds.
    pub fn from_secs(secs: u64) -> (r: Span)
        ensures
            r == (Span { secs, nanos: 0 }),
    {
        Span { secs, nanos: 0 }
    }

    /// Builds the span of a length in nanoseconds; none where the length
    /// is beyond the longest representable span.
    pub fn from_nanos(n: u128) -> (r: Option<Span>)
        ensures
            r == Span::checked_of_nanos(n as int),
            r matches Some(s) ==> s.total_nanos() == n && s.nanos < 1_000_000_000,
    {
        let secs: u128 = n / 1_000_000_000u128;
        let nanos: u128 = n % 1_000_000_000u128;
        if secs > 0xffff_ffff_ffff_ffffu128 {
            return None;
        }
        match chrono_whole_seconds(secs as u64, nanos as u32) {
            Some(whole) => Some(Span { secs: whole as u64, nanos: nanos as u32 }),
            None => None,
        }
    }

    /// Adds two spans; none where the sum is beyond the longest
    /// representable span.
    pub fn checked_add(&self, other: &Span) -> (r: Option<Span>)
        ensures
            r == Span::checked_of_nanos(self.total_nanos() + other.total_nanos()),
    {
        let a: u128 = (self.secs as u128) * 1_000_000_000u128 + (self.nanos as u128);
        let b: u128 = (other.secs as u128) * 1_000_000_000u128 + (other.nanos as u128);
        Span::from_nanos(a + b)
    }
}

} // verus!
