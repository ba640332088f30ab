//! Matching detections with the field-mark associations that were made from them.

use crate::detections::{detection_of, ImageSources};
use crate::event::{EventKind, FieldMarkAssociationTiming, RecordedEvent};
use crate::time::{
    abs_diff, nanos_abs_diff, nanos_since_epoch, nanos_since_epoch_spec, Time, WallTime,
};
use std::collections::BTreeMap;
use vstd::prelude::*;

verus! {

broadcast use {vstd::std_specs::btree::group_btree_axioms, vstd::laws_cmp::group_laws_cmp};

/// Whether a point in a recording, given by time and place in the stream, comes after another.
pub open spec fn comes_after(
    log_time: WallTime,
    order: usize,
    other_log_time: WallTime,
    other_order: usize,
) -> bool {
    ||| nanos_since_epoch_spec(log_time) > nanos_since_epoch_spec(other_log_time)
    ||| nanos_since_epoch_spec(log_time) == nanos_since_epoch_spec(other_log_time) && order
        > other_order
}

/// Whether an event was recorded after an association.
pub open spec fn is_recorded_after(
    event: RecordedEvent,
    association: FieldMarkAssociationTiming,
) -> bool {
    comes_after(event.log_time, event.order, association.log_time, association.order)
}

/// The first event from `from` on that was recorded after `association`.
pub open spec fn arrivals_end(
    events: Seq<RecordedEvent>,
    from: int,
    association: FieldMarkAssociationTiming,
) -> int
    decreases events.len() - from,
{
    if from >= events.len() || is_recorded_after(events[from], association) {
        from
    } else {
        arrivals_end(events, from + 1, association)
    }
}

/// Sequence number and recording time of the detections from `from` up to `to`.
pub open spec fn detections_between(
    events: Seq<RecordedEvent>,
    from: int,
    to: int,
) -> Seq<(i64, WallTime)>
    decreases to - from,
{
    if to <= from {
        Seq::empty()
    } else {
        let earlier = detections_between(events, from, to - 1);
        match detection_of(events[to - 1]) {
            Some(frame) => earlier.push((frame.sequence_number, events[to - 1].log_time)),
            None => earlier,
        }
    }
}

/// Nanoseconds between the recording of a pending detection and `time`.
pub open spec fn pending_distance(
    pending: Seq<(i64, WallTime)>,
    index: int,
    time: WallTime,
) -> nat {
    abs_diff(
        nanos_since_epoch_spec(pending[index].1) as int,
        nanos_since_epoch_spec(time) as int,
    )
}

/// Whether the pending detection at `index` is the first of those recorded nearest to `time`.
pub open spec fn is_first_nearest(
    pending: Seq<(i64, WallTime)>,
    time: WallTime,
    index: int,
) -> bool {
    &&& 0 <= index < pending.len()
    &&& forall|other: int|
        0 <= other < pending.len() ==> pending_distance(pending, index, time)
            <= #[trigger] pending_distance(pending, other, time)
    &&& forall|other: int|
        0 <= other < index ==> pending_distance(pending, index, time)
            < #[trigger] pending_distance(pending, other, time)
}

/// The first of the pending detections recorded nearest to `time`.
pub open spec fn first_nearest(pending: Seq<(i64, WallTime)>, time: WallTime) -> int {
    choose|index: int| is_first_nearest(pending, time, index)
}

/// How far detections and associations have been matched.
pub struct Matching {
    /// The first event that was not looked at.
    pub next_event: int,
    /// Detections without an association, as sequence number and recording time.
    pub pending: Seq<(i64, WallTime)>,
    /// Image times of matched detections.
    pub sources: Map<i64, (Time, WallTime)>,
}

/// The state after the first `count` associations. Each takes up the detections recorded until
/// then and goes to the pending one recorded nearest to it.
pub open spec fn match_associations(
    events: Seq<RecordedEvent>,
    associations: Seq<FieldMarkAssociationTiming>,
    count: int,
) -> Matching
    decreases count,
{
    if count <= 0 {
        Matching { next_event: 0, pending: Seq::empty(), sources: Map::empty() }
    } else {
        let before = match_associations(events, associations, count - 1);
        let association = associations[count - 1];
        let next_event = arrivals_end(events, before.next_event, association);
        let pending = before.pending + detections_between(events, before.next_event, next_event);
        if pending.len() == 0 {
            Matching { next_event, pending, sources: before.sources }
        } else {
            let nearest = first_nearest(pending, association.log_time);
            Matching {
                next_event,
                pending: pending.remove(nearest),
                sources: before.sources.insert(
                    pending[nearest].0,
                    (association.source_time, association.log_time),
                ),
            }
        }
    }
}

/// Finds the first of the pending detections recorded nearest to `time`.
fn find_nearest_pending(pending: &Vec<(i64, WallTime)>, time: WallTime) -> (nearest: usize)
    requires
        pending@.len() > 0,
    ensures
        nearest < pending@.len(),
        nearest == first_nearest(pending@, time),
{
    let mut nearest: usize = 0;
    let mut nearest_distance: u128 = nanos_abs_diff(pending[0].1, time);
    let mut index: usize = 1;
    while index < pending.len()
        invariant
            nearest < index <= pending@.len(),
            nearest_distance == pending_distance(pending@, nearest as int, time),
            forall|other: int|
                0 <= other < index ==> nearest_distance <= #[trigger] pending_distance(
                    pending@,
                    other,
                    time,
                ),
            forall|other: int|
                0 <= other < nearest ==> nearest_distance < #[trigger] pending_distance(
                    pending@,
                    other,
                    time,
                ),
        decreases pending@.len() - index,
    {
        let distance: u128 = nanos_abs_diff(pending[index].1, time);
        assert(distance == pending_distance(pending@, index as int, time));
        if distance < nearest_distance {
            nearest = index;
            nearest_distance = distance;
        }
        index = index + 1;
    }
    proof {
        assert(is_first_nearest(pending@, time, nearest as int));
        let other = first_nearest(pending@, time);
        assert(is_first_nearest(pending@, time, other));
        assert(pending_distance(pending@, other, time) <= pending_distance(
            pending@,
            nearest as int,
            time,
        ));
    }
    nearest
}

/// Finds image times of detections from the field-mark associations that were made from them.
pub fn index_detected_objects_sources_from_field_mark_associations(
    events: &[RecordedEvent],
    field_mark_associations: &[FieldMarkAssociationTiming],
) -> (sources: ImageSources)
    ensures
        sources@ == match_associations(
            events@,
            field_mark_associations@,
            field_mark_associations@.len() as int,
        ).sources,
{
    let mut pending: Vec<(i64, WallTime)> = Vec::new();
    let mut sources: ImageSources = BTreeMap::new();
    let mut event_index: usize = 0;
    let mut association_index: usize = 0;
    while association_index < field_mark_associations.len()
        invariant
            association_index <= field_mark_associations@.len(),
            event_index <= events@.len(),
            ({
                let state = match_associations(
                    events@,
                    field_mark_associations@,
                    association_index as int,
                );
                &&& state.next_event == event_index
                &&& state.pending == pending@
                &&& state.sources == sources@
            }),
        decreases field_mark_associations@.len() - association_index,
    {
        let association = field_mark_associations[association_index];
        let ghost first = event_index as int;
        let ghost earlier = pending@;
        while event_index < events.len() && !check_recorded_after(events[event_index], association)
            invariant
                first <= event_index <= events@.len(),
                pending@ == earlier + detections_between(events@, first, event_index as int),
                arrivals_end(events@, first, association) == arrivals_end(
                    events@,
                    event_index as int,
                    association,
                ),
            decreases events@.len() - event_index,
        {
            let event = events[event_index];
            if let EventKind::DetectedObjects(frame) = event.kind {
                pending.push((frame.sequence_number, event.log_time));
            }
            event_index = event_index + 1;
        }
        if pending.len() > 0 {
            let nearest: usize = find_nearest_pending(&pending, association.log_time);
            let matched = pending.remove(nearest);
            sources.insert(matched.0, (association.source_time, association.log_time));
        }
        association_index = association_index + 1;
    }
    sources
}

/// Whether an event was recorded after an association.
fn check_recorded_after(
    event: RecordedEvent,
    association: FieldMarkAssociationTiming,
) -> (after: bool)
    ensures
        after == is_recorded_after(event, association),
{
    let event_nanos: u128 = nanos_since_epoch(event.log_time);
    let association_nanos: u128 = nanos_since_epoch(association.log_time);
    if event_nanos != association_nanos {
        event_nanos > association_nanos
    } else {
        event.order > association.order
    }
}

/// Whether associations are listed in the order in which they were recorded.
pub open spec fn associations_in_order(associations: Seq<FieldMarkAssociationTiming>) -> bool {
    forall|i: int, j: int|
        #![trigger associations[i], associations[j]]
        0 <= i <= j < associations.len() ==> !comes_after(
            associations[i].log_time,
            associations[i].order,
            associations[j].log_time,
            associations[j].order,
        )
}

/// Whether `entry` stands for a detection among `events` recorded no later than `association`.
pub open spec fn stands_for_detection(
    events: Seq<RecordedEvent>,
    association: FieldMarkAssociationTiming,
    entry: (i64, WallTime),
) -> bool {
    exists|event: int|
        #![trigger events[event]]
        0 <= event < events.len() && !is_recorded_after(events[event], association)
            && detection_of(events[event]) is Some && detection_of(
            events[event],
        )->0.sequence_number == entry.0 && events[event].log_time == entry.1
}

/// Whether `association` tells the image time of a detection with the number `sequence` that was
/// recorded no later than it.
pub open spec fn explains_source(
    events: Seq<RecordedEvent>,
    association: FieldMarkAssociationTiming,
    sequence: i64,
    source: (Time, WallTime),
) -> bool {
    &&& source == (association.source_time, association.log_time)
    &&& exists|log_time: WallTime| #[trigger]
        stands_for_detection(events, association, (sequence, log_time))
}

/// Every image time found for a detection was told by an association recorded no earlier than the
/// detection.
pub proof fn sources_come_from_associations(
    events: Seq<RecordedEvent>,
    associations: Seq<FieldMarkAssociationTiming>,
    sequence: i64,
)
    requires
        associations_in_order(associations),
        match_associations(events, associations, associations.len() as int).sources.contains_key(
            sequence,
        ),
    ensures
        exists|i: int|
            0 <= i < associations.len() && explains_source(
                events,
                #[trigger] associations[i],
                sequence,
                match_associations(
                    events,
                    associations,
                    associations.len() as int,
                ).sources[sequence],
            ),
{
    sources_come_from_first_associations(events, associations, associations.len() as int, sequence);
}

/// Detections can be counted in two parts.
proof fn detections_add_up(events: Seq<RecordedEvent>, from: int, middle: int, to: int)
    requires
        from <= middle <= to,
    ensures
        detections_between(events, from, to).len() == detections_between(events, from, middle).len()
            + detections_between(events, middle, to).len(),
    decreases to - middle,
{
    if middle < to {
        detections_add_up(events, from, middle, to - 1);
    }
}

/// Looking at arrivals never goes back.
proof fn arrivals_end_is_ahead(
    events: Seq<RecordedEvent>,
    from: int,
    association: FieldMarkAssociationTiming,
)
    ensures
        arrivals_end(events, from, association) >= from,
    decreases events.len() - from,
{
    if !(from >= events.len() || is_recorded_after(events[from], association)) {
        arrivals_end_is_ahead(events, from + 1, association);
    }
}

/// An association tells the image time of one detection at most, and a detection takes up one
/// association at most: there are no more image times than associations, and detections that have
/// one and those that wait for one are no more than there were.
pub proof fn detections_are_matched_once(
    events: Seq<RecordedEvent>,
    associations: Seq<FieldMarkAssociationTiming>,
    count: int,
)
    requires
        0 <= count <= associations.len(),
    ensures
        ({
            let matching = match_associations(events, associations, count);
            &&& matching.next_event >= 0
            &&& matching.sources.dom().finite()
            &&& matching.sources.dom().len() <= count
            &&& matching.sources.dom().len() + matching.pending.len() <= detections_between(
                events,
                0,
                matching.next_event,
            ).len()
        }),
    decreases count,
{
    broadcast use vstd::set::group_set_axioms;

    if count > 0 {
        detections_are_matched_once(events, associations, count - 1);
        let before = match_associations(events, associations, count - 1);
        let association = associations[count - 1];
        let next_event = arrivals_end(events, before.next_event, association);
        arrivals_end_is_ahead(events, before.next_event, association);
        detections_add_up(events, 0, before.next_event, next_event);
        let pending = before.pending + detections_between(events, before.next_event, next_event);
        if pending.len() > 0 {
            first_nearest_exists(pending, association.log_time);
            let nearest = first_nearest(pending, association.log_time);
            let matching = match_associations(events, associations, count);
            assert(matching.sources.dom() =~= before.sources.dom().insert(pending[nearest].0));
        }
    }
}

/// Every pending detection was recorded no later than the last association looked at.
proof fn pending_are_detections(
    events: Seq<RecordedEvent>,
    associations: Seq<FieldMarkAssociationTiming>,
    count: int,
    index: int,
)
    requires
        associations_in_order(associations),
        1 <= count <= associations.len(),
        0 <= index < match_associations(events, associations, count).pending.len(),
    ensures
        stands_for_detection(
            events,
            associations[count - 1],
            match_associations(events, associations, count).pending[index],
        ),
    decreases count, 1int,
{
    let before = match_associations(events, associations, count - 1);
    let after = match_associations(events, associations, count);
    let association = associations[count - 1];
    let pending = before.pending + detections_between(events, before.next_event, after.next_event);
    next_event_is_in_range(events, associations, count - 1);
    let from = if pending.len() == 0 {
        index
    } else {
        let nearest = first_nearest(pending, association.log_time);
        first_nearest_exists(pending, association.log_time);
        if index < nearest {
            index
        } else {
            index + 1
        }
    };
    assert(after.pending[index] == pending[from]);
    taken_up_are_detections(events, associations, count, from);
}

/// Every detection taken up by an association was recorded no later than it.
proof fn taken_up_are_detections(
    events: Seq<RecordedEvent>,
    associations: Seq<FieldMarkAssociationTiming>,
    count: int,
    index: int,
)
    requires
        associations_in_order(associations),
        1 <= count <= associations.len(),
        ({
            let before = match_associations(events, associations, count - 1);
            let next_event = arrivals_end(events, before.next_event, associations[count - 1]);
            0 <= index < (before.pending + detections_between(
                events,
                before.next_event,
                next_event,
            )).len()
        }),
    ensures
        ({
            let before = match_associations(events, associations, count - 1);
            let next_event = arrivals_end(events, before.next_event, associations[count - 1]);
            stands_for_detection(
                events,
                associations[count - 1],
                (before.pending + detections_between(events, before.next_event, next_event))[index],
            )
        }),
    decreases count, 0int,
{
    let before = match_associations(events, associations, count - 1);
    let association = associations[count - 1];
    let next_event = arrivals_end(events, before.next_event, association);
    next_event_is_in_range(events, associations, count - 1);
    if index < before.pending.len() {
        pending_are_detections(events, associations, count - 1, index);
        let entry = before.pending[index];
        let earlier = associations[count - 2];
        let event = choose|event: int|
            #![trigger events[event]]
            0 <= event < events.len() && !is_recorded_after(events[event], earlier)
                && detection_of(events[event]) is Some && detection_of(
                events[event],
            )->0.sequence_number == entry.0 && events[event].log_time == entry.1;
        assert(!is_recorded_after(events[event], association));
    } else {
        arrivals_are_not_after(events, before.next_event, association);
        detections_between_stand_for_events(
            events,
            association,
            before.next_event,
            next_event,
            index - before.pending.len(),
        );
    }
}

/// Where some detection is pending, one of them is the first of the nearest.
proof fn first_nearest_exists(pending: Seq<(i64, WallTime)>, time: WallTime)
    requires
        pending.len() > 0,
    ensures
        is_first_nearest(pending, time, first_nearest(pending, time)),
{
    let index = first_nearest_among(pending, time, pending.len() as int);
    assert(is_first_nearest(pending, time, index));
}

/// The first of the nearest among the first `count` pending detections.
proof fn first_nearest_among(
    pending: Seq<(i64, WallTime)>,
    time: WallTime,
    count: int,
) -> (index: int)
    requires
        1 <= count <= pending.len(),
    ensures
        0 <= index < count,
        forall|other: int|
            0 <= other < count ==> pending_distance(pending, index, time)
                <= #[trigger] pending_distance(pending, other, time),
        forall|other: int|
            0 <= other < index ==> pending_distance(pending, index, time)
                < #[trigger] pending_distance(pending, other, time),
    decreases count,
{
    if count == 1 {
        0
    } else {
        let index = first_nearest_among(pending, time, count - 1);
        if pending_distance(pending, count - 1, time) < pending_distance(pending, index, time) {
            count - 1
        } else {
            index
        }
    }
}

/// The first event not looked at is one of the events or their end.
proof fn next_event_is_in_range(
    events: Seq<RecordedEvent>,
    associations: Seq<FieldMarkAssociationTiming>,
    count: int,
)
    requires
        0 <= count <= associations.len(),
    ensures
        0 <= match_associations(events, associations, count).next_event <= events.len(),
    decreases count,
{
    if count > 0 {
        next_event_is_in_range(events, associations, count - 1);
        arrivals_are_not_after(
            events,
            match_associations(events, associations, count - 1).next_event,
            associations[count - 1],
        );
    }
}

/// The events that an association takes up were recorded no later than it.
proof fn arrivals_are_not_after(
    events: Seq<RecordedEvent>,
    from: int,
    association: FieldMarkAssociationTiming,
)
    requires
        0 <= from <= events.len(),
    ensures
        from <= arrivals_end(events, from, association) <= events.len(),
        forall|event: int|
            from <= event < arrivals_end(events, from, association) ==> !is_recorded_after(
                #[trigger] events[event],
                association,
            ),
    decreases events.len() - from,
{
    if from < events.len() && !is_recorded_after(events[from], association) {
        arrivals_are_not_after(events, from + 1, association);
    }
}

/// Detections listed between two events stand for events between them.
proof fn detections_between_stand_for_events(
    events: Seq<RecordedEvent>,
    association: FieldMarkAssociationTiming,
    from: int,
    to: int,
    index: int,
)
    requires
        0 <= from <= to <= events.len(),
        0 <= index < detections_between(events, from, to).len(),
        forall|event: int|
            from <= event < to ==> !is_recorded_after(#[trigger] events[event], association),
    ensures
        stands_for_detection(events, association, detections_between(events, from, to)[index]),
    decreases to - from,
{
    let earlier = detections_between(events, from, to - 1);
    if index < earlier.len() {
        detections_between_stand_for_events(events, association, from, to - 1, index);
    } else {
        assert(!is_recorded_after(events[to - 1], association));
    }
}

/// Every image time found by the first `count` associations was told by one of them.
proof fn sources_come_from_first_associations(
    events: Seq<RecordedEvent>,
    associations: Seq<FieldMarkAssociationTiming>,
    count: int,
    sequence: i64,
)
    requires
        associations_in_order(associations),
        0 <= count <= associations.len(),
        match_associations(events, associations, count).sources.contains_key(sequence),
    ensures
        exists|i: int|
            0 <= i < count && explains_source(
                events,
                #[trigger] associations[i],
                sequence,
                match_associations(events, associations, count).sources[sequence],
            ),
    decreases count,
{
    let before = match_associations(events, associations, count - 1);
    let association = associations[count - 1];
    let next_event = arrivals_end(events, before.next_event, association);
    let pending = before.pending + detections_between(events, before.next_event, next_event);
    if pending.len() == 0 {
        sources_come_from_first_associations(events, associations, count - 1, sequence);
    } else {
        let nearest = first_nearest(pending, association.log_time);
        first_nearest_exists(pending, association.log_time);
        if pending[nearest].0 == sequence {
            taken_up_are_detections(events, associations, count, nearest);
            assert(stands_for_detection(events, association, (sequence, pending[nearest].1)));
            assert(explains_source(
                events,
                associations[count - 1],
                sequence,
                match_associations(events, associations, count).sources[sequence],
            ));
        } else {
            sources_come_from_first_associations(events, associations, count - 1, sequence);
        }
    }
}

/// The instant of a point in a recording, instants before the epoch counted as the epoch.
pub open spec fn instant_of(log_time: WallTime) -> int {
    if log_time.nanos > 0 {
        log_time.nanos as int
    } else {
        0
    }
}

/// Whether an event was recorded no later than an association, by time and by place in the stream.
pub open spec fn is_recorded_by(
    event: RecordedEvent,
    association: FieldMarkAssociationTiming,
) -> bool {
    ||| instant_of(event.log_time) < instant_of(association.log_time)
    ||| instant_of(event.log_time) == instant_of(association.log_time) && event.order
        <= association.order
}

/// The detections among events, as sequence number and recording time.
pub open spec fn waiting_detections(events: Seq<RecordedEvent>) -> Seq<(i64, WallTime)> {
    events.filter(|event: RecordedEvent| event.kind is DetectedObjects).map_values(
        |event: RecordedEvent|
            (event.kind->DetectedObjects_0.sequence_number, event.log_time),
    )
}

/// Nanoseconds between the recording of a waiting detection and an association.
pub open spec fn waiting_gap(
    waiting: Seq<(i64, WallTime)>,
    place: int,
    association: FieldMarkAssociationTiming,
) -> int {
    let own = instant_of(waiting[place].1);
    let other = instant_of(association.log_time);
    if own < other {
        other - own
    } else {
        own - other
    }
}

/// Whether the waiting detection at a place is the first of those recorded nearest to an
/// association.
pub open spec fn waits_nearest(
    waiting: Seq<(i64, WallTime)>,
    association: FieldMarkAssociationTiming,
    place: int,
) -> bool {
    &&& 0 <= place < waiting.len()
    &&& forall|other: int|
        0 <= other < waiting.len() ==> waiting_gap(waiting, place, association)
            <= #[trigger] waiting_gap(waiting, other, association)
    &&& forall|other: int|
        0 <= other < place ==> waiting_gap(waiting, place, association)
            < #[trigger] waiting_gap(waiting, other, association)
}

/// Listed detections are those among the events.
proof fn listed_detections_are_waiting(events: Seq<RecordedEvent>, from: int, to: int)
    requires
        0 <= from <= to <= events.len(),
    ensures
        detections_between(events, from, to) == waiting_detections(events.subrange(from, to)),
    decreases to - from,
{
    reveal(Seq::filter);
    if from < to {
        listed_detections_are_waiting(events, from, to - 1);
        let all = events.subrange(from, to);
        assert(all.drop_last() =~= events.subrange(from, to - 1));
        assert(all.last() == events[to - 1]);
        assert(detections_between(events, from, to) =~= waiting_detections(all));
    } else {
        assert(waiting_detections(events.subrange(from, to)) =~= Seq::empty());
    }
}

/// The end of the arrivals is the first event that was recorded after the association.
proof fn arrivals_end_with_a_later_event(
    events: Seq<RecordedEvent>,
    from: int,
    association: FieldMarkAssociationTiming,
)
    requires
        0 <= from <= events.len(),
    ensures
        arrivals_end(events, from, association) < events.len() ==> is_recorded_after(
            events[arrivals_end(events, from, association)],
            association,
        ),
    decreases events.len() - from,
{
    if from < events.len() && !is_recorded_after(events[from], association) {
        arrivals_end_with_a_later_event(events, from + 1, association);
    }
}

/// An association takes up the detections recorded by then, and tells the image time of the one
/// that was recorded nearest to it among those that still wait, the first of them. That one waits
/// no longer. Where none waits it tells nothing. At first no detection waits.
pub proof fn associations_go_to_the_nearest_waiting_detection(
    events: Seq<RecordedEvent>,
    associations: Seq<FieldMarkAssociationTiming>,
    count: int,
)
    requires
        0 < count <= associations.len(),
    ensures
        ({
            let first = match_associations(events, associations, 0);
            &&& first.next_event == 0
            &&& first.pending.len() == 0
            &&& first.sources == Map::<i64, (Time, WallTime)>::empty()
        }),
        ({
            let association = associations[count - 1];
            let before = match_associations(events, associations, count - 1);
            let after = match_associations(events, associations, count);
            let waiting = before.pending + waiting_detections(
                events.subrange(before.next_event, after.next_event),
            );
            &&& 0 <= before.next_event <= after.next_event <= events.len()
            &&& forall|event: int|
                before.next_event <= event < after.next_event ==> is_recorded_by(
                    #[trigger] events[event],
                    association,
                )
            &&& after.next_event < events.len() ==> !is_recorded_by(
                events[after.next_event],
                association,
            )
            &&& waiting.len() == 0 ==> after.pending.len() == 0 && after.sources == before.sources
            &&& waiting.len() > 0 ==> exists|place: int| #[trigger]
                waits_nearest(waiting, association, place) && after.pending == waiting.remove(place)
                    && after.sources == before.sources.insert(
                    waiting[place].0,
                    (association.source_time, association.log_time),
                )
        }),
{
    let association = associations[count - 1];
    let before = match_associations(events, associations, count - 1);
    let after = match_associations(events, associations, count);
    next_event_is_in_range(events, associations, count - 1);
    arrivals_are_not_after(events, before.next_event, association);
    arrivals_end_with_a_later_event(events, before.next_event, association);
    listed_detections_are_waiting(events, before.next_event, after.next_event);
    let waiting = before.pending + waiting_detections(
        events.subrange(before.next_event, after.next_event),
    );
    if waiting.len() > 0 {
        first_nearest_exists(waiting, association.log_time);
        let nearest = first_nearest(waiting, association.log_time);
        assert forall|other: int| 0 <= other < waiting.len() implies waiting_gap(
            waiting,
            nearest,
            association,
        ) <= #[trigger] waiting_gap(waiting, other, association) by {
            assert(pending_distance(waiting, nearest, association.log_time) <= pending_distance(
                waiting,
                other,
                association.log_time,
            ));
        }
        assert forall|other: int| 0 <= other < nearest implies waiting_gap(
            waiting,
            nearest,
            association,
        ) < #[trigger] waiting_gap(waiting, other, association) by {
            assert(pending_distance(waiting, nearest, association.log_time) < pending_distance(
                waiting,
                other,
                association.log_time,
            ));
        }
        assert(waits_nearest(waiting, association, nearest));
    }
}

} // verus!
