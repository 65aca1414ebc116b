use vstd::prelude::*;

use crate::time::Instant;
use crate::timeframe::TimeFrame;

verus! {

/// A named collection of recurring weekly frames. Frames may overlap; when
/// several are active at once, the first in stored order is the one reported.
pub struct Activity {
    pub name: String,
    pub times: Vec<TimeFrame>,
}

impl Activity {
    /// Well-formed: every frame of the activity is well-formed.
    pub open spec fn wf(self) -> bool {
        forall|i: int| 0 <= i < self.times@.len() ==> (#[trigger] self.times@[i]).wf()
    }

    /// Whether some frame of the activity covers `now`.
    pub open spec fn spec_active(self, now: Instant) -> bool {
        exists|i: int| 0 <= i < self.times@.len() && (#[trigger] self.times@[i]).spec_active(now)
    }

    /// Whether index `i` holds the first frame, in stored order, covering `now`.
    pub open spec fn is_first_active_frame(self, now: Instant, i: int) -> bool {
        &&& 0 <= i < self.times@.len()
        &&& self.times@[i].spec_active(now)
        &&& forall|j: int| 0 <= j < i ==> !(#[trigger] self.times@[j]).spec_active(now)
    }

    pub fn new(name: String, times: Vec<TimeFrame>) -> (r: Activity)
        ensures
            r.name == name,
            r.times == times,
    {
        Activity { name, times }
    }

    pub fn name(&self) -> (r: &str)
        ensures
            r@ == self.name@,
    {
        self.name.as_str()
    }

    pub fn times(&self) -> (r: &Vec<TimeFrame>)
        ensures
            *r == self.times,
    {
        &self.times
    }

    /// The first frame, in stored order, that covers `now`, or `None` when no
    /// frame does. First-in-order is the deliberate tie-break for overlaps.
    pub fn active_timeframe(&self, now: &Instant) -> (r: Option<&TimeFrame>)
        ensures
            r is Some <==> self.spec_active(*now),
            (r matches Some(f) ==> exists|i: int|
                #[trigger] self.is_first_active_frame(*now, i) && *f == self.times@[i]),
    {
        let mut i: usize = 0;
        while i < self.times.len()
            invariant
                i <= self.times@.len(),
                forall|j: int| 0 <= j < i ==> !(#[trigger] self.times@[j]).spec_active(*now),
            decreases self.times@.len() - i,
        {
            if self.times[i].active(now) {
                proof {
                    assert(self.is_first_active_frame(*now, i as int));
                }
                return Some(&self.times[i]);
            }
            i += 1;
        }
        None
    }

    /// Whether the activity is in progress at `now`.
    pub fn active(&self, now: &Instant) -> (r: bool)
        ensures
            r == self.spec_active(*now),
    {
        self.active_timeframe(now).is_some()
    }
}

} // verus!
