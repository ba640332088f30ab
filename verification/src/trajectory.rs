//! Trajectories, cut into segments where they are interrupted.

use crate::course::SolveSample;
use crate::event::{EventKind, RecordedEvent};
use crate::recording::{is_start, Clock, Recording};
use crate::time::{nanos_since, WallTime};
use vstd::prelude::*;

verus! {

/// A recorded pose on its trajectory.
#[derive(Clone, Copy, Debug, PartialEq, Eq, Structural)]
pub struct LocalizationPoint {
    /// The message with the pose.
    pub order: usize,
    /// Nanoseconds from the start of the recording to the showing of the pose.
    pub nanos: i128,
    pub segment_id: u64,
}

/// Whether an event is a recorded pose.
pub open spec fn is_localized(event: RecordedEvent) -> bool {
    event.kind == (EventKind::RecordedLocalization { localized: true })
}

/// Whether an event is the report that there was no pose.
pub open spec fn is_lost(event: RecordedEvent) -> bool {
    event.kind == (EventKind::RecordedLocalization { localized: false })
}

/// Whether the last of the first `count` events that speaks of a pose reports that there was none.
pub open spec fn lost_after(events: Seq<RecordedEvent>, count: int) -> bool
    decreases count,
{
    if count <= 0 {
        false
    } else if is_localized(events[count - 1]) {
        false
    } else {
        is_lost(events[count - 1]) || lost_after(events, count - 1)
    }
}

/// How often poses resume after a report of none among the first `count` events.
pub open spec fn resumptions(events: Seq<RecordedEvent>, count: int) -> nat
    decreases count,
{
    if count <= 0 {
        0
    } else {
        resumptions(events, count - 1) + if is_localized(events[count - 1]) && lost_after(
            events,
            count - 1,
        ) {
            1nat
        } else {
            0nat
        }
    }
}

/// The poses among the first `count` events. A new segment starts where poses resume.
pub open spec fn localization_points(
    events: Seq<RecordedEvent>,
    start: WallTime,
    count: int,
) -> Seq<LocalizationPoint>
    decreases count,
{
    if count <= 0 {
        Seq::empty()
    } else {
        let earlier = localization_points(events, start, count - 1);
        let event = events[count - 1];
        if is_localized(event) {
            earlier.push(
                LocalizationPoint {
                    order: event.order,
                    nanos: (event.display_time_spec().nanos - start.nanos) as i128,
                    segment_id: resumptions(events, count) as u64,
                },
            )
        } else {
            earlier
        }
    }
}

/// Two recorded poses are in the same segment exactly if no event between them reports that there
/// was no pose.
pub proof fn segments_are_uninterrupted(events: Seq<RecordedEvent>, first: int, second: int)
    requires
        0 <= first < second < events.len(),
        is_localized(events[first]),
        is_localized(events[second]),
    ensures
        resumptions(events, first + 1) == resumptions(events, second + 1) <==> forall|between: int|
            first < between < second ==> !is_lost(#[trigger] events[between]),
{
    segment_is_kept_until(events, first, second);
}

/// From a recorded pose on, the segment stays the same and no pose is lost exactly as long as no
/// event reports that there was none.
proof fn segment_is_kept_until(events: Seq<RecordedEvent>, first: int, count: int)
    requires
        0 <= first < count <= events.len(),
        is_localized(events[first]),
    ensures
        resumptions(events, first + 1) <= resumptions(events, count),
        (resumptions(events, first + 1) == resumptions(events, count) && !lost_after(
            events,
            count,
        )) <==> forall|between: int| first < between < count ==> !is_lost(#[trigger] events[between]),
    decreases count,
{
    if count > first + 1 {
        segment_is_kept_until(events, first, count - 1);
        let kept = forall|between: int|
            first < between < count - 1 ==> !is_lost(#[trigger] events[between]);
        if kept && !is_lost(events[count - 1]) {
            assert forall|between: int| first < between < count implies !is_lost(
                #[trigger] events[between],
            ) by {}
        }
        if forall|between: int| first < between < count ==> !is_lost(#[trigger] events[between]) {
            assert(!is_lost(events[count - 1]));
            assert(kept);
        }
    }
}

impl Recording {
    /// The recorded poses in the order in which they were recorded.
    pub fn recorded_localization_trajectory(&self) -> (points: Vec<LocalizationPoint>)
        ensures
            exists|start: WallTime|
                #[trigger] is_start(self@, Clock::Display, start) && points@ == localization_points(
                    self@.events,
                    start,
                    self@.events.len() as int,
                ),
    {
        let start = self.start_display_time();
        let events = self.timed_events();
        let mut points: Vec<LocalizationPoint> = Vec::new();
        let mut segment_id: u64 = 0;
        let mut last_was_none = false;
        let mut index: usize = 0;
        while index < events.len()
            invariant
                events@ == self@.events,
                crate::time::is_recorded_time(start),
                crate::recording::is_consistent(self@),
                index <= events@.len(),
                segment_id <= index,
                segment_id == resumptions(events@, index as int),
                last_was_none == lost_after(events@, index as int),
                points@ == localization_points(events@, start, index as int),
            decreases events@.len() - index,
        {
            let event = events[index];
            assert(event == self@.events[index as int]);
            match event.kind {
                EventKind::RecordedLocalization { localized } => {
                    if localized {
                        if last_was_none {
                            segment_id = segment_id + 1;
                            last_was_none = false;
                        }
                        points.push(
                            LocalizationPoint {
                                order: event.order,
                                nanos: nanos_since(event.display_time(), start),
                                segment_id,
                            },
                        );
                    } else {
                        last_was_none = true;
                    }
                },
                _ => {},
            }
            index = index + 1;
        }
        points
    }
}

/// Widest gap between two points of one segment, in nanoseconds.
pub const WIDEST_GAP: i128 = 500_000_000;

/// Whether the gap from one point to the next is too wide for one segment.
pub open spec fn is_wide_gap(before: i128, after: i128) -> bool {
    after - before > WIDEST_GAP
}

/// Whether the gap from one point to the next is too wide for one segment.
pub fn check_wide_gap(before: i128, after: i128) -> (wide: bool)
    ensures
        wide == is_wide_gap(before, after),
{
    if before < 0 {
        after > before + WIDEST_GAP
    } else {
        after > before && after - before > WIDEST_GAP
    }
}

/// How many of the first `count` points come behind a gap that is too wide for one segment.
pub open spec fn wide_gaps(times: Seq<i128>, count: int) -> nat
    decreases count,
{
    if count <= 1 {
        0
    } else {
        wide_gaps(times, count - 1) + if is_wide_gap(times[count - 2], times[count - 1]) {
            1nat
        } else {
            0nat
        }
    }
}

/// The segments of a trajectory whose points have the given times: a new one starts behind each
/// wide gap.
pub fn segment_ids(times: &[i128]) -> (segments: Vec<u64>)
    ensures
        segments@.len() == times@.len(),
        forall|i: int|
            0 <= i < times@.len() ==> #[trigger] segments@[i] == wide_gaps(times@, i + 1),
{
    let mut segments: Vec<u64> = Vec::new();
    let mut segment_id: u64 = 0;
    let mut index: usize = 0;
    while index < times.len()
        invariant
            index <= times@.len(),
            segment_id <= index,
            segment_id == wide_gaps(times@, index as int),
            segments@.len() == index,
            forall|i: int|
                0 <= i < index ==> #[trigger] segments@[i] == wide_gaps(times@, i + 1),
        decreases times@.len() - index,
    {
        if index > 0 && check_wide_gap(times[index - 1], times[index]) {
            segment_id = segment_id + 1;
        }
        segments.push(segment_id);
        index = index + 1;
    }
    segments
}

/// The times of poses in the graph.
pub open spec fn graph_times(samples: Seq<SolveSample>) -> Seq<i128> {
    samples.map_values(|sample: SolveSample| sample.graph_nanos)
}

/// The segments of solved poses: a new one starts behind each wide gap in the graph.
pub fn sample_segments(samples: &[SolveSample]) -> (segments: Vec<u64>)
    ensures
        segments@.len() == samples@.len(),
        forall|i: int|
            0 <= i < samples@.len() ==> #[trigger] segments@[i] == wide_gaps(
                graph_times(samples@),
                i + 1,
            ),
{
    let mut times: Vec<i128> = Vec::new();
    let mut index: usize = 0;
    while index < samples.len()
        invariant
            index <= samples@.len(),
            times@.len() == index,
            forall|i: int| 0 <= i < index ==> #[trigger] times@[i] == samples@[i].graph_nanos,
        decreases samples@.len() - index,
    {
        times.push(samples[index].graph_nanos);
        index = index + 1;
    }
    assert(times@ =~= graph_times(samples@));
    segment_ids(times.as_slice())
}

/// Two points of a trajectory are in the same segment exactly if no gap between them is wide.
pub proof fn segments_have_no_wide_gap(times: Seq<i128>, first: int, second: int)
    requires
        0 <= first <= second < times.len(),
    ensures
        wide_gaps(times, first + 1) == wide_gaps(times, second + 1) <==> forall|between: int|
            first < between <= second ==> !is_wide_gap(times[between - 1], #[trigger] times[between]),
        wide_gaps(times, first + 1) <= wide_gaps(times, second + 1),
    decreases second - first,
{
    if first < second {
        segments_have_no_wide_gap(times, first, second - 1);
        if forall|between: int|
            first < between <= second ==> !is_wide_gap(
                times[between - 1],
                #[trigger] times[between],
            ) {
            assert(!is_wide_gap(times[second - 1], times[second]));
        }
    }
}

/// Whether an event carries a pose.
pub open spec fn has_pose(event: RecordedEvent) -> bool {
    event.kind is RecordedLocalization && event.kind->RecordedLocalization_localized
}

/// Whether an event reports that there was no pose.
pub open spec fn lacks_pose(event: RecordedEvent) -> bool {
    event.kind is RecordedLocalization && !event.kind->RecordedLocalization_localized
}

/// The number of poses among the first `count` events.
pub open spec fn pose_count(events: Seq<RecordedEvent>, count: int) -> nat {
    events.take(count).filter(|event: RecordedEvent| has_pose(event)).len()
}

/// One more event adds a pose or none.
proof fn poses_are_counted_in_turn(events: Seq<RecordedEvent>, count: int)
    requires
        0 < count <= events.len(),
    ensures
        pose_count(events, count) == pose_count(events, count - 1) + if has_pose(
            events[count - 1],
        ) {
            1nat
        } else {
            0nat
        },
{
    reveal(Seq::filter);
    assert(events.take(count).drop_last() =~= events.take(count - 1));
    assert(events.take(count).last() == events[count - 1]);
}

/// Every pose has its point.
proof fn poses_are_listed(events: Seq<RecordedEvent>, start: WallTime, count: int)
    requires
        0 <= count <= events.len(),
    ensures
        ({
            let points = localization_points(events, start, count);
            &&& points.len() == pose_count(events, count)
            &&& forall|place: int|
                0 <= place < count && has_pose(#[trigger] events[place]) ==> pose_count(
                    events,
                    place,
                ) < points.len() && points[pose_count(events, place) as int] == (LocalizationPoint {
                    order: events[place].order,
                    nanos: (events[place].publish_time.nanos - start.nanos) as i128,
                    segment_id: resumptions(events, place + 1) as u64,
                })
        }),
    decreases count,
{
    if count > 0 {
        poses_are_listed(events, start, count - 1);
        poses_are_counted_in_turn(events, count);
        let earlier = localization_points(events, start, count - 1);
        let points = localization_points(events, start, count);
        assert(is_localized(events[count - 1]) <==> has_pose(events[count - 1]));
        assert forall|place: int|
            0 <= place < count && has_pose(#[trigger] events[place]) implies pose_count(
            events,
            place,
        ) < points.len() && points[pose_count(events, place) as int] == (LocalizationPoint {
            order: events[place].order,
            nanos: (events[place].publish_time.nanos - start.nanos) as i128,
            segment_id: resumptions(events, place + 1) as u64,
        }) by {
            if place < count - 1 {
                assert(points[pose_count(events, place) as int] == earlier[pose_count(
                    events,
                    place,
                ) as int]);
            }
        }
    } else {
        reveal(Seq::filter);
        assert(events.take(0) =~= Seq::empty());
    }
}

/// Between poses nothing is resumed, and one is lost where an event reports it.
proof fn nothing_resumes_between_poses(events: Seq<RecordedEvent>, from: int, count: int)
    requires
        0 <= from <= count <= events.len(),
        from > 0 ==> has_pose(events[from - 1]),
        forall|place: int| from <= place < count ==> !has_pose(#[trigger] events[place]),
    ensures
        resumptions(events, count) == resumptions(events, from),
        lost_after(events, count) <==> exists|place: int|
            from <= place < count && lacks_pose(#[trigger] events[place]),
    decreases count,
{
    if count > from {
        nothing_resumes_between_poses(events, from, count - 1);
        assert(!has_pose(events[count - 1]));
        assert(!is_localized(events[count - 1]));
        assert(is_lost(events[count - 1]) <==> lacks_pose(events[count - 1]));
        if lost_after(events, count) && !is_lost(events[count - 1]) {
            let place = choose|place: int|
                from <= place < count - 1 && lacks_pose(#[trigger] events[place]);
            assert(lacks_pose(events[place]));
        }
    } else if from > 0 {
        assert(is_localized(events[from - 1]));
    }
}

/// There are no more resumptions than events.
proof fn resumptions_are_bounded(events: Seq<RecordedEvent>, count: int)
    requires
        0 <= count,
    ensures
        resumptions(events, count) <= count,
    decreases count,
{
    if count > 0 {
        resumptions_are_bounded(events, count - 1);
    }
}

/// Every recorded pose becomes a point of the trajectory, and nothing else does. The points come in
/// the order of the poses, each with its message and the nanoseconds from the start to its
/// publishing.
pub proof fn every_pose_becomes_a_point(events: Seq<RecordedEvent>, start: WallTime, place: int)
    requires
        0 <= place < events.len(),
        has_pose(events[place]),
        i128::MIN <= events[place].publish_time.nanos - start.nanos <= i128::MAX,
    ensures
        ({
            let points = localization_points(events, start, events.len() as int);
            let point = points[pose_count(events, place) as int];
            &&& points.len() == pose_count(events, events.len() as int)
            &&& pose_count(events, place) < points.len()
            &&& point.order == events[place].order
            &&& start.nanos + point.nanos == events[place].publish_time.nanos
        }),
{
    poses_are_listed(events, start, events.len() as int);
}

/// A pose that follows another is in the same segment, or in the next one where an event between
/// them reports that there was none. The first pose is in the first segment, or in the second where
/// such a report comes before it.
pub proof fn segments_end_where_poses_are_lost(
    events: Seq<RecordedEvent>,
    start: WallTime,
    before: int,
    place: int,
)
    requires
        -1 <= before < place < events.len() <= usize::MAX,
        has_pose(events[place]),
        before >= 0 ==> has_pose(events[before]),
        forall|between: int| before < between < place ==> !has_pose(#[trigger] events[between]),
    ensures
        ({
            let points = localization_points(events, start, events.len() as int);
            let number = pose_count(events, place) as int;
            let interruptions: int = if exists|between: int|
                before < between < place && lacks_pose(#[trigger] events[between]) {
                1
            } else {
                0
            };
            if before < 0 {
                &&& number == 0
                &&& points[0].segment_id == interruptions
            } else {
                &&& number == pose_count(events, before) + 1
                &&& points[number].segment_id == points[number - 1].segment_id + interruptions
            }
        }),
{
    poses_are_listed(events, start, events.len() as int);
    nothing_resumes_between_poses(events, before + 1, place);
    resumptions_are_bounded(events, place + 1);
    resumptions_are_bounded(events, before + 1);
    no_pose_is_counted_between(events, before + 1, place);
    assert(is_localized(events[place]));
    if before >= 0 {
        poses_are_counted_in_turn(events, before + 1);
    } else {
        reveal(Seq::filter);
        assert(events.take(0) =~= Seq::empty());
    }
}

/// Where there is no pose none is counted.
proof fn no_pose_is_counted_between(events: Seq<RecordedEvent>, from: int, to: int)
    requires
        0 <= from <= to <= events.len(),
        forall|place: int| from <= place < to ==> !has_pose(#[trigger] events[place]),
    ensures
        pose_count(events, from) == pose_count(events, to),
    decreases to - from,
{
    if from < to {
        no_pose_is_counted_between(events, from, to - 1);
        poses_are_counted_in_turn(events, to);
        assert(!has_pose(events[to - 1]));
    }
}

/// A segment ends where the next point comes more than half a second later: the first point is in
/// the first segment, and each one in that of the point before it or in the next one.
pub proof fn segments_end_at_wide_gaps(times: Seq<i128>, place: int)
    requires
        0 <= place < times.len(),
    ensures
        place == 0 ==> wide_gaps(times, 1) == 0,
        place > 0 ==> wide_gaps(times, place + 1) == wide_gaps(times, place) + if times[place]
            - times[place - 1] > 500_000_000 {
            1nat
        } else {
            0nat
        },
{
}

/// Solved poses are cut into segments by their times in the graph.
pub proof fn samples_are_cut_by_graph_times(samples: Seq<SolveSample>, place: int)
    requires
        0 <= place < samples.len(),
    ensures
        graph_times(samples).len() == samples.len(),
        graph_times(samples)[place] == samples[place].graph_nanos,
{
}

} // verus!
