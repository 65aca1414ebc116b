use vstd::prelude::*;

use crate::time::{Duration, Instant, TimeOfDay, Weekday};

verus! {

/// A recurring weekly interval: one weekday, a start and an end time of day.
/// The interval is half-open, so an instant exactly at `end` lies outside it,
/// and a frame never spans midnight.
#[derive(Clone, Copy, PartialEq, Eq, Structural, Debug)]
pub struct TimeFrame {
    pub day: Weekday,
    pub start: TimeOfDay,
    pub end: TimeOfDay,
}

/// Rejected schedule data: a frame that runs backwards (`start > end`) or
/// holds an out-of-range time of day.
#[derive(Clone, Copy, PartialEq, Eq, Structural, Debug)]
pub struct InvalidTimeFrame;

impl TimeFrame {
    /// Well-formed: both times lie within one day and the frame does not run
    /// backwards. Constructors establish this; the scheduler relies on it.
    pub open spec fn wf(self) -> bool {
        &&& self.start.valid()
        &&& self.end.valid()
        &&& self.start.secs <= self.end.secs
    }

    /// Whether `now` falls on this frame's weekday.
    pub open spec fn spec_today(self, now: Instant) -> bool {
        self.day == now.day
    }

    /// Whether the frame covers `now`: same weekday, and `now`'s time of day
    /// lies in the half-open interval `[start, end)`.
    pub open spec fn spec_active(self, now: Instant) -> bool {
        self.spec_today(now) && self.start.secs <= now.time.secs < self.end.secs
    }

    pub fn from_start_end(day: Weekday, start: TimeOfDay, end: TimeOfDay) -> (r: TimeFrame)
        requires
            start.valid(),
            end.valid(),
            start.secs <= end.secs,
        ensures
            r == (TimeFrame { day, start, end }),
            r.wf(),
    {
        TimeFrame { day, start, end }
    }

    /// Validating constructor for loaders of untrusted schedule data: rejects
    /// exactly the frames that would break the well-formedness invariant.
    pub fn checked_from_start_end(day: Weekday, start: TimeOfDay, end: TimeOfDay) -> (r: Result<
        TimeFrame,
        InvalidTimeFrame,
    >)
        ensures
            r is Ok <==> (start.valid() && end.valid() && start.secs <= end.secs),
            (r matches Ok(f) ==> f == (TimeFrame { day, start, end }) && f.wf()),
            (r matches Err(e) ==> e == InvalidTimeFrame),
    {
        if start.secs < 86400 && end.secs < 86400 && start.secs <= end.secs {
            Ok(TimeFrame { day, start, end })
        } else {
            Err(InvalidTimeFrame)
        }
    }

    /// Equivalent to `from_start_end` with `end` at `start + duration`.
    pub fn from_start_duration(day: Weekday, start: TimeOfDay, duration: Duration) -> (r: TimeFrame)
        requires
            start.valid(),
            start.secs + duration.secs < 86400,
        ensures
            r.day == day,
            r.start == start,
            r.end.secs == start.secs + duration.secs,
            r.wf(),
    {
        TimeFrame { day, start, end: TimeOfDay { secs: start.secs + (duration.secs as u32) } }
    }

    pub fn today(&self, now: &Instant) -> (r: bool)
        ensures
            r == self.spec_today(*now),
    {
        self.day == now.day
    }

    /// The length of the frame, `end - start`; non-negative by the invariant.
    pub fn duration(&self) -> (r: Duration)
        requires
            self.wf(),
        ensures
            r.secs == self.end.secs - self.start.secs,
    {
        Duration { secs: (self.end.secs - self.start.secs) as u64 }
    }

    pub fn start(&self) -> (r: &TimeOfDay)
        ensures
            *r == self.start,
    {
        &self.start
    }

    pub fn end(&self) -> (r: &TimeOfDay)
        ensures
            *r == self.end,
    {
        &self.end
    }

    /// Seconds from `now`'s time of day up to the frame's end. Meaningful
    /// only while the frame is active, which the caller must ensure.
    pub fn time_remaining(&self, now: &Instant) -> (r: Duration)
        requires
            self.spec_active(*now),
        ensures
            r.secs == self.end.secs - now.time.secs,
    {
        Duration { secs: (self.end.secs - now.time.secs) as u64 }
    }

    pub fn active(&self, now: &Instant) -> (r: bool)
        ensures
            r == self.spec_active(*now),
    {
        if self.today(now) {
            let ts = now.seconds_from_midnight();
            let start = self.start.seconds_from_midnight();
            let end = self.end.seconds_from_midnight();

            start <= ts && ts < end
        } else {
            false
        }
    }
}

/// An active frame is a frame of today whose half-open interval contains the
/// instant's time of day.
pub proof fn lemma_active_within_frame(f: TimeFrame, t: Instant)
    requires
        f.spec_active(t),
    ensures
        f.spec_today(t),
        f.start.secs <= t.time.secs < f.end.secs,
{
}

/// Boundary behaviour of the half-open interval: no frame is active at its
/// own end, and a non-degenerate frame of today is active at its start.
pub proof fn lemma_active_boundaries(f: TimeFrame, t: Instant)
    ensures
        t.time.secs == f.end.secs ==> !f.spec_active(t),
        (f.spec_today(t) && t.time.secs == f.start.secs && f.start.secs < f.end.secs)
            ==> f.spec_active(t),
{
}

} // verus!
