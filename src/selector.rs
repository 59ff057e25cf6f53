//! Choosing the next event of a timeline, and moving on to the following
//! day, a bounded number of times, when every event of the day has passed.

use vstd::prelude::*;
use crate::time::{Date, MAX_DAY};
use crate::timeline::{VaktijaColor, VaktijaTime};

verus! {

/// How many days' timelines are examined before giving up.
pub const MAX_TIMELINES: u32 = 3;

/// The seconds remaining to each event of a timeline (`None` where undefined).
pub open spec fn remainings(ts: Seq<VaktijaTime>) -> Seq<Option<int>> {
    ts.map_values(|t: VaktijaTime| t.remaining_spec())
}

/// An event that has an instant and has not passed yet.
pub open spec fn upcoming(r: Option<int>) -> bool {
    r matches Some(v) && v >= 0
}

/// Position `k` holds the soonest upcoming event, the first among equals.
pub open spec fn is_next_event(rem: Seq<Option<int>>, k: int) -> bool {
    &&& 0 <= k < rem.len()
    &&& upcoming(rem[k])
    &&& forall|i: int|
        0 <= i < rem.len() && upcoming(#[trigger] rem[i]) ==> rem[k]->0 <= rem[i]->0 && (i < k
            ==> rem[k]->0 < rem[i]->0)
}

/// No event of the timeline is upcoming.
pub open spec fn no_upcoming(rem: Seq<Option<int>>) -> bool {
    forall|i: int| 0 <= i < rem.len() ==> !upcoming(#[trigger] rem[i])
}

/// Every event of the timeline is well formed.
pub open spec fn all_wf(ts: Seq<VaktijaTime>) -> bool {
    forall|i: int| 0 <= i < ts.len() ==> (#[trigger] ts[i]).wf()
}

/// The position of the soonest event that has not passed yet, the first one
/// among equals; undefined events never count. `None` when no event is left.
pub fn select_next(ts: &Vec<VaktijaTime>) -> (r: Option<usize>)
    requires
        all_wf(ts@),
    ensures
        match r {
            Some(k) => is_next_event(remainings(ts@), k as int),
            None => no_upcoming(remainings(ts@)),
        },
{
    let ghost rem = remainings(ts@);
    let mut best: Option<usize> = None;
    let mut best_rem: i64 = 0;
    let mut i: usize = 0;
    while i < ts.len()
        invariant
            i <= ts@.len(),
            all_wf(ts@),
            rem == remainings(ts@),
            match best {
                Some(k) => {
                    &&& k < i
                    &&& rem[k as int] == Some(best_rem as int)
                    &&& best_rem >= 0
                    &&& forall|j: int|
                        0 <= j < i && upcoming(#[trigger] rem[j]) ==> best_rem <= rem[j]->0 && (j
                            < k ==> best_rem < rem[j]->0)
                },
                None => forall|j: int| 0 <= j < i ==> !upcoming(#[trigger] rem[j]),
            },
        decreases ts@.len() - i,
    {
        let t = &ts[i];
        assert(t.wf());
        match t.time_remaining() {
            Some(v) => {
                if v >= 0 {
                    match best {
                        Some(_) => {
                            if v < best_rem {
                                best = Some(i);
                                best_rem = v;
                            }
                        },
                        None => {
                            best = Some(i);
                            best_rem = v;
                        },
                    }
                }
            },
            None => {},
        }
        i = i + 1;
    }
    best
}

/// The state of the search for the next event: the day whose timeline is
/// examined, and how many timelines have been examined before it.
#[derive(Clone, Copy, Debug, PartialEq, Eq, Structural)]
pub struct Rollover {
    pub date: Date,
    pub attempts: u32,
}

/// What to do once a day's timeline has been examined.
#[derive(Clone, Copy, Debug, PartialEq, Eq, Structural)]
pub enum RolloverStep {
    /// The event at this position is the next one.
    Found(usize),
    /// Every event has passed: examine this day's timeline next.
    Advance(Rollover),
    /// Every event has passed and no further day may be examined.
    Exhausted,
}

/// What follows when every event of the examined day has passed.
pub open spec fn after_all_passed(state: Rollover) -> RolloverStep {
    if state.attempts + 1 < MAX_TIMELINES && state.date.days < MAX_DAY {
        RolloverStep::Advance(
            Rollover {
                date: Date { days: (state.date.days + 1) as i64 },
                attempts: (state.attempts + 1) as u32,
            },
        )
    } else {
        RolloverStep::Exhausted
    }
}

impl Rollover {
    /// The search starting on `today`.
    pub fn start(today: Date) -> (r: Rollover)
        ensures
            r == (Rollover { date: today, attempts: 0 }),
    {
        Rollover { date: today, attempts: 0 }
    }

    /// The decision for the timeline of `self.date`: the next event if one is
    /// left, else the following day, else, once `MAX_TIMELINES` timelines
    /// have been examined, exhaustion.
    pub fn step(&self, timeline: &Vec<VaktijaTime>) -> (r: RolloverStep)
        requires
            self.date.wf(),
            all_wf(timeline@),
        ensures
            !no_upcoming(remainings(timeline@)) ==> (r matches RolloverStep::Found(k)
                && is_next_event(remainings(timeline@), k as int)),
            no_upcoming(remainings(timeline@)) ==> r == after_all_passed(*self),
            r matches RolloverStep::Advance(next) ==> (next.attempts > self.attempts
                && next.attempts < MAX_TIMELINES && next.date.wf()),
    {
        match select_next(timeline) {
            Some(k) => RolloverStep::Found(k),
            None => {
                if self.attempts < MAX_TIMELINES - 1 && self.date.days < MAX_DAY {
                    RolloverStep::Advance(
                        Rollover {
                            date: Date { days: self.date.days + 1 },
                            attempts: self.attempts + 1,
                        },
                    )
                } else {
                    RolloverStep::Exhausted
                }
            },
        }
    }
}

/// Marks the event at `k` as the next one; nothing else changes.
pub fn highlight(ts: &mut Vec<VaktijaTime>, k: usize)
    requires
        k < old(ts)@.len(),
    ensures
        final(ts)@.len() == old(ts)@.len(),
        final(ts)@[k as int].color == VaktijaColor::Active,
        final(ts)@[k as int].name == old(ts)@[k as int].name,
        final(ts)@[k as int].date_time == old(ts)@[k as int].date_time,
        final(ts)@[k as int].now == old(ts)@[k as int].now,
        forall|i: int| 0 <= i < final(ts)@.len() && i != k ==> final(ts)@[i] == old(ts)@[i],
{
    let mut t = ts.remove(k);
    t.color = VaktijaColor::Active;
    ts.insert(k, t);
}

/// Highlighting one event of a timeline whose events are all plain leaves
/// exactly that event marked as the next one.
pub proof fn lemma_single_highlight(before: Seq<VaktijaTime>, after: Seq<VaktijaTime>, k: int)
    requires
        0 <= k < before.len(),
        forall|i: int| 0 <= i < before.len() ==> (#[trigger] before[i]).color == VaktijaColor::Base,
        after.len() == before.len(),
        after[k].color == VaktijaColor::Active,
        forall|i: int| 0 <= i < after.len() && i != k ==> #[trigger] after[i] == before[i],
    ensures
        forall|i: int|
            0 <= i < after.len() ==> ((#[trigger] after[i]).color == VaktijaColor::Active <==> i == k),
{
    assert forall|i: int| 0 <= i < after.len() implies ((#[trigger] after[i]).color
        == VaktijaColor::Active <==> i == k) by {
        if i != k {
            assert(after[i] == before[i]);
        }
    }
}

/// The next event is unique: two positions that both hold it are the same,
/// so examining an unchanged timeline again selects the same event.
pub proof fn lemma_next_event_unique(rem: Seq<Option<int>>, a: int, b: int)
    requires
        is_next_event(rem, a),
        is_next_event(rem, b),
    ensures
        a == b,
{
    if a < b {
        assert(upcoming(rem[a]));
    } else if b < a {
        assert(upcoming(rem[b]));
    }
}

/// The instants of a timeline's events are in canonical order: each defined
/// one comes strictly after every defined one before it.
pub open spec fn chronological(ts: Seq<VaktijaTime>) -> bool {
    forall|i: int, j: int|
        0 <= i < j < ts.len() && (#[trigger] ts[i]).date_time is Some && (#[trigger] ts[j]).date_time is Some
            ==> ts[i].date_time->0.seconds() < ts[j].date_time->0.seconds()
}

/// Two looks at the same events, from the instants `earlier` and `later`.
pub open spec fn same_events_seen_later(
    first: Seq<VaktijaTime>,
    second: Seq<VaktijaTime>,
    earlier: int,
    later: int,
) -> bool {
    &&& first.len() == second.len()
    &&& earlier <= later
    &&& forall|i: int|
        0 <= i < first.len() ==> (#[trigger] first[i]).date_time == (#[trigger] second[i]).date_time
            && first[i].now.seconds() == earlier && second[i].now.seconds() == later
}

/// Looking later at a timeline in canonical order never moves the next
/// event back, and once the selected event has passed, the selection moves
/// strictly forward in the canonical order.
pub proof fn lemma_next_event_moves_forward(
    first: Seq<VaktijaTime>,
    second: Seq<VaktijaTime>,
    earlier: int,
    later: int,
    k1: int,
    k2: int,
)
    requires
        chronological(first),
        same_events_seen_later(first, second, earlier, later),
        is_next_event(remainings(first), k1),
        is_next_event(remainings(second), k2),
    ensures
        k1 <= k2,
        first[k1].date_time->0.seconds() < later ==> k1 < k2,
{
    let r1 = remainings(first);
    let r2 = remainings(second);
    assert(first[k2].date_time == second[k2].date_time);
    assert(r2[k2] == second[k2].remaining_spec());
    assert(r1[k1] == first[k1].remaining_spec());
    assert(r1[k2] == first[k2].remaining_spec());
    // the event at k2 is still ahead at the earlier look
    assert(upcoming(r1[k2]));
    if k2 < k1 {
        assert(first[k2].date_time->0.seconds() < first[k1].date_time->0.seconds());
        assert(r1[k1]->0 <= r1[k2]->0);
    }
    if k1 == k2 {
        assert(r2[k1] == second[k1].remaining_spec());
    }
}

/// Once the last event of a timeline in canonical order has passed, no
/// event of it is upcoming, so the search moves on to the following day.
pub proof fn lemma_after_last_event_rolls_over(ts: Seq<VaktijaTime>, now: int)
    requires
        ts.len() > 0,
        chronological(ts),
        forall|i: int| 0 <= i < ts.len() ==> (#[trigger] ts[i]).now.seconds() == now,
        ts.last().date_time is Some,
        ts.last().date_time->0.seconds() < now,
    ensures
        no_upcoming(remainings(ts)),
{
    let n = ts.len() - 1;
    assert forall|i: int| 0 <= i < ts.len() implies !upcoming(#[trigger] remainings(ts)[i]) by {
        assert(remainings(ts)[i] == ts[i].remaining_spec());
        if i < n && ts[i].date_time is Some {
            assert(ts[i].date_time->0.seconds() < ts[n].date_time->0.seconds());
        }
    }
}

} // verus!
