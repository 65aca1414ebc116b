use vstd::prelude::*;

use crate::activity::Activity;
use crate::time::{Duration, Instant, TimeOfDay};
use crate::timeframe::TimeFrame;

verus! {

/// Every activity in the collection is well-formed.
pub open spec fn all_wf(activities: Seq<Activity>) -> bool {
    forall|i: int| 0 <= i < activities.len() ==> (#[trigger] activities[i]).wf()
}

/// Busy: some activity in the collection is in progress at `now`.
pub open spec fn spec_busy(now: Instant, activities: Seq<Activity>) -> bool {
    exists|i: int| 0 <= i < activities.len() && (#[trigger] activities[i]).spec_active(now)
}

/// Whether index `i` holds the first activity, in stored order, active at `now`.
pub open spec fn is_first_active_activity(now: Instant, activities: Seq<Activity>, i: int) -> bool {
    &&& 0 <= i < activities.len()
    &&& activities[i].spec_active(now)
    &&& forall|j: int| 0 <= j < i ==> !(#[trigger] activities[j]).spec_active(now)
}

/// The first activity, in stored order, in progress at `now`, or `None` when
/// nobody is busy. First-in-order is the tie-break across activities, as it
/// is across frames within one activity.
pub fn current_activity<'a>(now: &Instant, activities: &'a Vec<Activity>) -> (r: Option<
    &'a Activity,
>)
    ensures
        r is Some <==> spec_busy(*now, activities@),
        (r matches Some(a) ==> exists|i: int|
            #[trigger] is_first_active_activity(*now, activities@, i) && *a == activities@[i]),
{
    let mut i: usize = 0;
    while i < activities.len()
        invariant
            i <= activities@.len(),
            forall|j: int| 0 <= j < i ==> !(#[trigger] activities@[j]).spec_active(*now),
        decreases activities@.len() - i,
    {
        if activities[i].active(now) {
            proof {
                assert(is_first_active_activity(*now, activities@, i as int));
            }
            return Some(&activities[i]);
        }
        i += 1;
    }
    None
}

/// What `next_free` returns: the earliest instant of the same day, at or
/// after `now`, at which no activity is active — every instant from `now` up
/// to it is busy.
pub open spec fn is_next_free(now: Instant, activities: Seq<Activity>, r: Instant) -> bool {
    &&& r.day == now.day
    &&& now.time.secs <= r.time.secs
    &&& r.valid()
    &&& !spec_busy(r, activities)
    &&& forall|t: Instant|
        (t.day == now.day && now.time.secs <= t.time.secs < r.time.secs) ==> #[trigger] spec_busy(
            t,
            activities,
        )
}

/// The earliest instant at or after `now` at which no activity is active,
/// found by forward simulation: while some activity is busy, jump to the end
/// of its active frame. Back-to-back and overlapping frames are crossed in
/// one pass; each jump lands strictly later, so the simulation terminates.
pub fn next_free(now: &Instant, activities: &Vec<Activity>) -> (r: Instant)
    requires
        now.valid(),
        all_wf(activities@),
    ensures
        is_next_free(*now, activities@, r),
{
    let mut test: Instant = *now;
    loop
        invariant
            test.day == now.day,
            now.time.secs <= test.time.secs,
            test.valid(),
            all_wf(activities@),
            forall|t: Instant|
                (t.day == now.day && now.time.secs <= t.time.secs < test.time.secs)
                    ==> #[trigger] spec_busy(t, activities@),
        decreases 86400 - test.time.secs,
    {
        match current_activity(&test, activities) {
            None => {
                return test;
            },
            Some(activity) => {
                let frame = activity.active_timeframe(&test).unwrap();
                let remaining = frame.time_remaining(&test);
                proof {
                    let i0 = choose|i: int|
                        #[trigger] is_first_active_activity(test, activities@, i) && *activity
                            == activities@[i];
                    let j0 = choose|j: int|
                        #[trigger] activity.is_first_active_frame(test, j) && *frame
                            == activity.times@[j];
                    assert(activities@[i0].wf());
                    assert(activity.times@[j0].wf());
                    assert(frame.spec_active(test));
                    assert forall|t: Instant|
                        (t.day == now.day && test.time.secs <= t.time.secs < frame.end.secs)
                            implies #[trigger] spec_busy(t, activities@) by {
                        assert(frame.spec_active(t));
                        assert(activity.times@[j0].spec_active(t));
                        assert(activities@[i0].spec_active(t));
                    }
                }
                test = test.advance(remaining);
            },
        }
    }
}

/// Whether `(i, j)` indexes a frame of the collection: activity `i`, frame
/// `j` within it.
pub open spec fn valid_frame_index(activities: Seq<Activity>, i: int, j: int) -> bool {
    0 <= i < activities.len() && 0 <= j < activities[i].times@.len()
}

/// The frame at index pair `(i, j)`.
pub open spec fn frame_at(activities: Seq<Activity>, i: int, j: int) -> TimeFrame {
    activities[i].times@[j]
}

/// Whether the frame at `(i, j)` falls on `now`'s weekday and starts strictly
/// after `now`'s time of day.
pub open spec fn upcoming_frame(now: Instant, activities: Seq<Activity>, i: int, j: int) -> bool {
    &&& valid_frame_index(activities, i, j)
    &&& frame_at(activities, i, j).day == now.day
    &&& frame_at(activities, i, j).start.secs > now.time.secs
}

/// Whether `t` is the start time of some frame of today beginning strictly
/// after `now`.
pub open spec fn is_upcoming_start(now: Instant, activities: Seq<Activity>, t: u32) -> bool {
    exists|i: int, j: int|
        #[trigger] upcoming_frame(now, activities, i, j) && frame_at(
            activities,
            i,
            j,
        ).start.secs == t
}

/// Index pairs already examined when the scan stands at activity `i`, frame `j`.
spec fn scanned(activities: Seq<Activity>, i: int, j: int, x: int, y: int) -> bool {
    valid_frame_index(activities, x, y) && (x < i || (x == i && y < j))
}

/// No examined frame is upcoming.
spec fn none_scanned_upcoming(now: Instant, activities: Seq<Activity>, i: int, j: int) -> bool {
    forall|x: int, y: int|
        scanned(activities, i, j, x, y) ==> !(#[trigger] upcoming_frame(now, activities, x, y))
}

/// `b` is the start of an examined upcoming frame, and no examined upcoming
/// frame starts earlier.
spec fn best_of_scanned(
    now: Instant,
    activities: Seq<Activity>,
    i: int,
    j: int,
    b: TimeOfDay,
) -> bool {
    &&& exists|x: int, y: int|
        #[trigger] upcoming_frame(now, activities, x, y) && scanned(activities, i, j, x, y)
            && frame_at(activities, x, y).start.secs == b.secs
    &&& forall|x: int, y: int|
        scanned(activities, i, j, x, y) && #[trigger] upcoming_frame(now, activities, x, y)
            ==> b.secs <= frame_at(activities, x, y).start.secs
}

/// The earliest start, today, of a frame beginning strictly after `now`, or
/// `None` when nothing more is scheduled today. The lookahead never crosses
/// the weekday boundary, by design.
pub fn next_transition(now: &Instant, activities: &Vec<Activity>) -> (r: Option<TimeOfDay>)
    ensures
        r is Some <==> exists|t: u32| is_upcoming_start(*now, activities@, t),
        (r matches Some(t0) ==> is_upcoming_start(*now, activities@, t0.secs) && (forall|t: u32|
            #[trigger] is_upcoming_start(*now, activities@, t) ==> t0.secs <= t)),
{
    let mut best: Option<TimeOfDay> = None;
    let mut i: usize = 0;
    while i < activities.len()
        invariant
            i <= activities@.len(),
            (best is None ==> none_scanned_upcoming(*now, activities@, i as int, 0)),
            (best matches Some(b) ==> best_of_scanned(*now, activities@, i as int, 0, b)),
        decreases activities@.len() - i,
    {
        let frames: &Vec<TimeFrame> = activities[i].times();
        let mut j: usize = 0;
        while j < frames.len()
            invariant
                i < activities@.len(),
                j <= frames@.len(),
                frames@ == activities@[i as int].times@,
                (best is None ==> none_scanned_upcoming(*now, activities@, i as int, j as int)),
                (best matches Some(b) ==> best_of_scanned(*now, activities@, i as int, j as int, b)),
            decreases frames@.len() - j,
        {
            let ghost iz = i as int;
            let ghost jz = j as int;
            let ghost old_best = best;
            let f = &frames[j];
            proof {
                assert(frame_at(activities@, iz, jz) == frames@[jz]);
            }
            if f.today(now) && now.seconds_from_midnight() < f.start.secs {
                proof {
                    assert(upcoming_frame(*now, activities@, iz, jz));
                }
                match best {
                    None => {
                        best = Some(f.start);
                    },
                    Some(b) => {
                        if f.start.secs < b.secs {
                            best = Some(f.start);
                        }
                    },
                }
            } else {
                proof {
                    assert(!upcoming_frame(*now, activities@, iz, jz));
                }
            }
            proof {
                if best is None {
                    assert forall|x: int, y: int|
                        scanned(activities@, iz, jz + 1, x, y) implies !(#[trigger] upcoming_frame(
                        *now,
                        activities@,
                        x,
                        y,
                    )) by {
                        if x == iz && y == jz {
                            assert(!upcoming_frame(*now, activities@, x, y));
                        } else {
                            assert(scanned(activities@, iz, jz, x, y));
                        }
                    }
                } else {
                    let b = best->0;
                    if old_best is Some {
                        let (x0, y0) = choose|x: int, y: int|
                            #[trigger] upcoming_frame(*now, activities@, x, y) && scanned(
                                activities@,
                                iz,
                                jz,
                                x,
                                y,
                            ) && frame_at(activities@, x, y).start.secs == old_best->0.secs;
                        if b == old_best->0 {
                            assert(scanned(activities@, iz, jz + 1, x0, y0));
                        } else {
                            assert(scanned(activities@, iz, jz + 1, iz, jz));
                        }
                    } else {
                        assert(scanned(activities@, iz, jz + 1, iz, jz));
                    }
                    assert forall|x: int, y: int|
                        scanned(activities@, iz, jz + 1, x, y) && #[trigger] upcoming_frame(
                        *now,
                        activities@,
                        x,
                        y,
                    ) implies b.secs <= frame_at(activities@, x, y).start.secs by {
                        if !(x == iz && y == jz) {
                            assert(scanned(activities@, iz, jz, x, y));
                        }
                    }
                    assert(best_of_scanned(*now, activities@, iz, jz + 1, b));
                }
            }
            j += 1;
        }
        proof {
            let iz = i as int;
            let jend = frames@.len() as int;
            assert forall|x: int, y: int|
                scanned(activities@, iz + 1, 0, x, y) implies scanned(
                activities@,
                iz,
                jend,
                x,
                y,
            ) by {}
            assert forall|x: int, y: int|
                scanned(activities@, iz, jend, x, y) implies scanned(
                activities@,
                iz + 1,
                0,
                x,
                y,
            ) by {}
            if best is Some {
                let b = best->0;
                let (x0, y0) = choose|x: int, y: int|
                    #[trigger] upcoming_frame(*now, activities@, x, y) && scanned(
                        activities@,
                        iz,
                        jend,
                        x,
                        y,
                    ) && frame_at(activities@, x, y).start.secs == b.secs;
                assert(scanned(activities@, iz + 1, 0, x0, y0));
                assert(best_of_scanned(*now, activities@, iz + 1, 0, b));
            }
        }
        i += 1;
    }
    proof {
        let iend = activities@.len() as int;
        if best is Some {
            let b = best->0;
            let (x0, y0) = choose|x: int, y: int|
                #[trigger] upcoming_frame(*now, activities@, x, y) && scanned(
                    activities@,
                    iend,
                    0,
                    x,
                    y,
                ) && frame_at(activities@, x, y).start.secs == b.secs;
            assert(is_upcoming_start(*now, activities@, b.secs));
            assert forall|t: u32|
                #[trigger] is_upcoming_start(*now, activities@, t) implies b.secs <= t by {
                let (x1, y1) = choose|x: int, y: int|
                    #[trigger] upcoming_frame(*now, activities@, x, y) && frame_at(
                        activities@,
                        x,
                        y,
                    ).start.secs == t;
                assert(scanned(activities@, iend, 0, x1, y1));
            }
        } else {
            assert forall|t: u32| !(#[trigger] is_upcoming_start(*now, activities@, t)) by {
                if is_upcoming_start(*now, activities@, t) {
                    let (x1, y1) = choose|x: int, y: int|
                        #[trigger] upcoming_frame(*now, activities@, x, y) && frame_at(
                            activities@,
                            x,
                            y,
                        ).start.secs == t;
                    assert(scanned(activities@, iend, 0, x1, y1));
                }
            }
        }
    }
    best
}

/// The scheduler's answer for a presenter: either busy with a named activity
/// until a time of day, or free, with the next busy start today when one
/// exists. Minute counts are truncating.
#[derive(Debug)]
pub enum Status {
    Busy { activity_name: String, busy_until: TimeOfDay, minutes_remaining: u64 },
    Free { next_busy_start: Option<TimeOfDay>, minutes_until_next_busy: Option<u64> },
}

/// Evaluates the schedule at `now` for a presenter: when busy, the first
/// active activity's name, the end of its active frame, and the whole minutes
/// until the next free instant (crossing back-to-back frames); when free, the
/// earliest upcoming start today, if any, and the whole minutes until it.
pub fn status(now: &Instant, activities: &Vec<Activity>) -> (r: Status)
    requires
        now.valid(),
        all_wf(activities@),
    ensures
        (r is Busy <==> spec_busy(*now, activities@)),
        (r matches Status::Busy { activity_name, busy_until, minutes_remaining } ==> {
            &&& exists|i: int, j: int|
                is_first_active_activity(*now, activities@, i) && (#[trigger] activities[
                    i
                ].is_first_active_frame(*now, j)) && activity_name@ == activities[i].name@
                    && busy_until == activities[i].times@[j].end
            &&& exists|nf: Instant|
                #[trigger] is_next_free(*now, activities@, nf) && minutes_remaining == (nf.time.secs
                    - now.time.secs) / 60
        }),
        (r matches Status::Free { next_busy_start, minutes_until_next_busy } ==> {
            &&& (next_busy_start is Some <==> exists|t: u32|
                is_upcoming_start(*now, activities@, t))
            &&& (next_busy_start matches Some(t0) ==> {
                &&& is_upcoming_start(*now, activities@, t0.secs)
                &&& (forall|t: u32|
                    #[trigger] is_upcoming_start(*now, activities@, t) ==> t0.secs <= t)
                &&& minutes_until_next_busy == Some((((t0.secs - now.time.secs) / 60) as u64))
            })
            &&& (next_busy_start is None ==> minutes_until_next_busy is None)
        }),
{
    match current_activity(now, activities) {
        Some(activity) => {
            let frame = activity.active_timeframe(now).unwrap();
            let nf = next_free(now, activities);
            let remaining = Duration::seconds(
                (nf.seconds_from_midnight() - now.seconds_from_midnight()) as u64,
            );
            let name = activity.name.clone();
            proof {
                let i0 = choose|i: int|
                    #[trigger] is_first_active_activity(*now, activities@, i) && *activity
                        == activities@[i];
                let j0 = choose|j: int|
                    #[trigger] activity.is_first_active_frame(*now, j) && *frame
                        == activity.times@[j];
                assert(activities@[i0].is_first_active_frame(*now, j0));
                assert(activities@[i0].times@[j0].end == frame.end);
                assert(activities@[i0].name@ == name@);
            }
            Status::Busy {
                activity_name: name,
                busy_until: *frame.end(),
                minutes_remaining: remaining.num_minutes(),
            }
        },
        None => {
            match next_transition(now, activities) {
                Some(start) => {
                    proof {
                        let (x1, y1) = choose|x: int, y: int|
                            #[trigger] upcoming_frame(*now, activities@, x, y) && frame_at(
                                activities@,
                                x,
                                y,
                            ).start.secs == start.secs;
                        assert(start.secs > now.time.secs);
                    }
                    let until = Duration::seconds(
                        (start.seconds_from_midnight() - now.seconds_from_midnight()) as u64,
                    );
                    Status::Free {
                        next_busy_start: Some(start),
                        minutes_until_next_busy: Some(until.num_minutes()),
                    }
                },
                None => Status::Free { next_busy_start: None, minutes_until_next_busy: None },
            }
        },
    }
}

/// The next-free instant is never before `now`, stays on `now`'s day, and is
/// genuinely free.
pub proof fn lemma_next_free_sound(now: Instant, activities: Seq<Activity>, r: Instant)
    requires
        is_next_free(now, activities, r),
    ensures
        r.day == now.day,
        now.time.secs <= r.time.secs,
        !spec_busy(r, activities),
{
}

/// An instant that is already free is its own next-free instant.
pub proof fn lemma_next_free_fixed_point(now: Instant, activities: Seq<Activity>)
    requires
        now.valid(),
        !spec_busy(now, activities),
    ensures
        is_next_free(now, activities, now),
{
}

/// A next-free instant is uniquely determined by `now` and the schedule.
pub proof fn lemma_next_free_unique(
    now: Instant,
    activities: Seq<Activity>,
    r1: Instant,
    r2: Instant,
)
    requires
        is_next_free(now, activities, r1),
        is_next_free(now, activities, r2),
    ensures
        r1 == r2,
{
    if r1.time.secs < r2.time.secs {
        assert(spec_busy(r1, activities));
    }
    if r2.time.secs < r1.time.secs {
        assert(spec_busy(r2, activities));
    }
}

/// Idempotence: a next-free instant is a fixed point, so computing the next
/// free instant from it hands it back unchanged.
pub proof fn lemma_next_free_idempotent(
    now: Instant,
    activities: Seq<Activity>,
    r1: Instant,
    r2: Instant,
)
    requires
        is_next_free(now, activities, r1),
        is_next_free(r1, activities, r2),
    ensures
        r2 == r1,
{
    lemma_next_free_fixed_point(r1, activities);
    lemma_next_free_unique(r1, activities, r1, r2);
}

} // verus!
