//! Time as the store sees it: whole milliseconds.

use std::time::UNIX_EPOCH;
use vstd::prelude::*;

verus! {

/// A span of time, in whole milliseconds.
#[derive(Debug, Clone, Copy, PartialEq, Eq, Structural)]
pub struct Duration {
    millis: u64,
}

impl View for Duration {
    type V = u64;

    closed spec fn view(&self) -> u64 {
        self.millis
    }
}

impl Duration {
    /// The span of `millis` milliseconds.
    pub fn from_millis(millis: u64) -> (r: Self)
        ensures
            r@ == millis,
    {
        Self { millis }
    }

    /// The number of milliseconds in the span.
    pub fn as_millis(&self) -> (r: u128)
        ensures
            r == self@,
    {
        self.millis as u128
    }
}

/// A point in time, in whole milliseconds since the Unix epoch.
#[derive(Debug, Clone, Copy, PartialEq, Eq, Structural)]
pub struct Timestamp {
    millis: u64,
}

impl View for Timestamp {
    type V = u64;

    closed spec fn view(&self) -> u64 {
        self.millis
    }
}

/// Reads the system clock with `SystemTime::elapsed` on `UNIX_EPOCH`: the
/// time that has gone by since the epoch, or `None` for a clock that is set
/// before it. Nothing is promised of the result: the clock may show any
/// time, and need not go forward from one call to the next.
#[verifier::external_body]
fn since_epoch() -> Option<std::time::Duration> {
    UNIX_EPOCH.elapsed().ok()
}

/// Calls `Duration::as_millis` of the standard library: the whole
/// milliseconds in `span`. Nothing is claimed of the result.
#[verifier::external_body]
fn whole_millis(span: &std::time::Duration) -> u128 {
    span.as_millis()
}

impl Timestamp {
    /// The point in time `millis` milliseconds after the Unix epoch.
    pub fn from_millis(millis: u64) -> (r: Self)
        ensures
            r@ == millis,
    {
        Self { millis }
    }

    /// The time that the system clock shows: the epoch for a clock that is
    /// set before it, and the last point in time that a timestamp can hold
    /// for a clock that is set beyond that.
    pub fn now() -> Self {
        let millis: u64 = match since_epoch() {
            Some(span) => {
                let elapsed = whole_millis(&span);
                if elapsed <= u64::MAX as u128 {
                    elapsed as u64
                } else {
                    u64::MAX
                }
            },
            None => 0,
        };
        Self { millis }
    }

    /// Milliseconds since the Unix epoch.
    pub fn as_millis(&self) -> (r: u64)
        ensures
            r == self@,
    {
        self.millis
    }

    /// The point in time `span` after this one, or `None` where that lies
    /// beyond what a timestamp can hold.
    pub fn checked_add(&self, span: Duration) -> (r: Option<Self>)
        ensures
            match r {
                Some(t) => t@ == self@ + span@,
                None => self@ + span@ > u64::MAX,
            },
    {
        match self.millis.checked_add(span.millis) {
            Some(millis) => Some(Self { millis }),
            None => None,
        }
    }

    /// Whether this point in time lies after `other`.
    pub fn gt(&self, other: &Timestamp) -> (r: bool)
        ensures
            r == (self@ > other@),
    {
        self.millis > other.millis
    }
}

} // verus!
