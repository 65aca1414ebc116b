use vstd::prelude::*;

verus! {

/// One of the seven weekday labels a recurring frame can fall on.
#[derive(Clone, Copy, PartialEq, Eq, Structural, Debug)]
pub enum Weekday {
    Mon,
    Tue,
    Wed,
    Thu,
    Fri,
    Sat,
    Sun,
}

/// Number of seconds in a calendar day; every time of day lies strictly below it.
pub const SECONDS_PER_DAY: u32 = 86400;

/// A time of day with second resolution, counted as seconds since midnight.
#[derive(Clone, Copy, PartialEq, Eq, Structural, Debug)]
pub struct TimeOfDay {
    pub secs: u32,
}

impl TimeOfDay {
    /// A time of day is valid when it lies within a single calendar day.
    pub open spec fn valid(self) -> bool {
        self.secs < 86400
    }

    pub fn from_seconds_from_midnight(secs: u32) -> (r: Option<TimeOfDay>)
        ensures
            r is Some <==> secs < 86400,
            (r matches Some(t) ==> t == (TimeOfDay { secs }) && t.valid()),
    {
        if secs < SECONDS_PER_DAY {
            Some(TimeOfDay { secs })
        } else {
            None
        }
    }

    /// Builds a time of day from hours, minutes and seconds; `None` when a
    /// component is out of range.
    pub fn from_hms_opt(hour: u32, min: u32, sec: u32) -> (r: Option<TimeOfDay>)
        ensures
            r is Some <==> (hour < 24 && min < 60 && sec < 60),
            (r matches Some(t) ==> t.secs == hour * 3600 + min * 60 + sec && t.valid()),
    {
        if hour < 24 && min < 60 && sec < 60 {
            Some(TimeOfDay { secs: hour * 3600 + min * 60 + sec })
        } else {
            None
        }
    }

    pub fn seconds_from_midnight(self) -> (r: u32)
        ensures
            r == self.secs,
    {
        self.secs
    }
}

/// A non-negative span of time with second resolution.
#[derive(Clone, Copy, PartialEq, Eq, Structural, Debug)]
pub struct Duration {
    pub secs: u64,
}

impl Duration {
    pub fn seconds(secs: u64) -> (r: Duration)
        ensures
            r.secs == secs,
    {
        Duration { secs }
    }

    pub fn minutes(mins: u32) -> (r: Duration)
        ensures
            r.secs == mins * 60,
    {
        Duration { secs: (mins as u64) * 60 }
    }

    pub fn hours(hours: u32) -> (r: Duration)
        ensures
            r.secs == hours * 3600,
    {
        Duration { secs: (hours as u64) * 3600 }
    }

    pub fn num_seconds(self) -> (r: u64)
        ensures
            r == self.secs,
    {
        self.secs
    }

    /// Whole minutes contained in the span, truncating.
    pub fn num_minutes(self) -> (r: u64)
        ensures
            r == self.secs / 60,
    {
        self.secs / 60
    }
}

/// A reference instant as the scheduler reads it: the weekday it falls on
/// and its time of day. Calendar dates play no role in a weekly schedule,
/// so a frame recurs on every occurrence of its weekday.
#[derive(Clone, Copy, PartialEq, Eq, Structural, Debug)]
pub struct Instant {
    pub day: Weekday,
    pub time: TimeOfDay,
}

impl Instant {
    pub open spec fn valid(self) -> bool {
        self.time.valid()
    }

    pub fn new(day: Weekday, time: TimeOfDay) -> (r: Instant)
        ensures
            r == (Instant { day, time }),
    {
        Instant { day, time }
    }

    pub fn weekday(self) -> (r: Weekday)
        ensures
            r == self.day,
    {
        self.day
    }

    pub fn time(self) -> (r: TimeOfDay)
        ensures
            r == self.time,
    {
        self.time
    }

    pub fn seconds_from_midnight(self) -> (r: u32)
        ensures
            r == self.time.secs,
    {
        self.time.secs
    }

    /// Moves the instant forward within its own day; the schedule engine
    /// never steps across midnight.
    pub fn advance(self, d: Duration) -> (r: Instant)
        requires
            self.time.secs + d.secs < 86400,
        ensures
            r.day == self.day,
            r.time.secs == self.time.secs + d.secs,
            r.valid(),
    {
        Instant { day: self.day, time: TimeOfDay { secs: self.time.secs + (d.secs as u32) } }
    }
}

} // verus!
