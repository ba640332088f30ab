//! Camera matrices by time, and the times between which visual odometry measures.

use crate::event::{EventKind, RecordedEvent, VisualOdometryDelta};
use crate::playback::aligned_time;
use crate::recording::{Recording, RecordingView};
use crate::replay::TimestampMode;
use crate::time::{
    abs_diff, is_recorded_time, nanos_abs_diff, nanos_since_epoch_spec, Time, WallTime,
};
use vstd::prelude::*;

verus! {

/// Nanoseconds up to which a camera matrix counts for a measurement.
pub const CAMERA_MATRIX_MAX_TIME_DISTANCE: u64 = 100_000_000;

/// A camera matrix with its times.
#[derive(Clone, Copy, Debug, PartialEq, Eq, Structural)]
pub struct OnlineCameraMatrix {
    /// The message with the matrix.
    pub order: usize,
    pub publish_time: WallTime,
    /// The time inside the message.
    pub time: Time,
}

impl OnlineCameraMatrix {
    /// The time that counts.
    pub open spec fn time_spec(self, timestamp_mode: TimestampMode) -> WallTime {
        match timestamp_mode {
            TimestampMode::McapPublish => self.publish_time,
            TimestampMode::Embedded => WallTime { nanos: self.time.nanos as i128 },
        }
    }

    /// The time that counts.
    pub fn time(&self, timestamp_mode: TimestampMode) -> (time: WallTime)
        ensures
            time == self.time_spec(timestamp_mode),
    {
        match timestamp_mode {
            TimestampMode::McapPublish => self.publish_time,
            TimestampMode::Embedded => self.time.to_wallclock(),
        }
    }

    /// Nanoseconds between the matrix and `time`, with instants before the epoch counted as the
    /// epoch.
    pub open spec fn distance_spec(self, time: WallTime, timestamp_mode: TimestampMode) -> nat {
        abs_diff(
            nanos_since_epoch_spec(self.time_spec(timestamp_mode)) as int,
            nanos_since_epoch_spec(time) as int,
        )
    }

    /// Nanoseconds between the matrix and `time`, held at the largest number.
    pub fn distance_to(&self, time: WallTime, timestamp_mode: TimestampMode) -> (nanos: u64)
        ensures
            nanos == held_at_largest(self.distance_spec(time, timestamp_mode)),
    {
        let distance: u128 = nanos_abs_diff(self.time(timestamp_mode), time);
        if distance <= u64::MAX as u128 {
            distance as u64
        } else {
            u64::MAX
        }
    }
}

/// A number of nanoseconds, held at the largest that is counted.
pub open spec fn held_at_largest(nanos: nat) -> nat {
    if nanos <= u64::MAX {
        nanos
    } else {
        u64::MAX as nat
    }
}

/// A camera matrix with its distance from a measurement in nanoseconds.
#[derive(Clone, Copy, Debug, PartialEq, Eq, Structural)]
pub struct NearestCameraMatrix {
    pub matrix: OnlineCameraMatrix,
    pub distance: u64,
}

/// Whether the matrix at `index` is the first of those nearest to `time`.
pub open spec fn is_first_nearest_matrix(
    matrices: Seq<OnlineCameraMatrix>,
    time: WallTime,
    timestamp_mode: TimestampMode,
    index: int,
) -> bool {
    &&& 0 <= index < matrices.len()
    &&& forall|other: int|
        0 <= other < matrices.len() ==> matrices[index].distance_spec(time, timestamp_mode) <= (
        #[trigger] matrices[other]).distance_spec(time, timestamp_mode)
    &&& forall|other: int|
        0 <= other < index ==> matrices[index].distance_spec(time, timestamp_mode) < (
        #[trigger] matrices[other]).distance_spec(time, timestamp_mode)
}

/// The first of the matrices nearest to `time`, with its distance.
pub open spec fn nearest_matrix(
    matrices: Seq<OnlineCameraMatrix>,
    time: WallTime,
    timestamp_mode: TimestampMode,
) -> Option<NearestCameraMatrix> {
    if matrices.len() == 0 {
        None
    } else {
        let index = choose|index: int|
            is_first_nearest_matrix(matrices, time, timestamp_mode, index);
        Some(
            NearestCameraMatrix {
                matrix: matrices[index],
                distance: held_at_largest(
                    matrices[index].distance_spec(time, timestamp_mode),
                ) as u64,
            },
        )
    }
}

/// Some matrix is the first of those nearest to a time.
proof fn first_nearest_matrix_exists(
    matrices: Seq<OnlineCameraMatrix>,
    time: WallTime,
    timestamp_mode: TimestampMode,
) -> (index: int)
    requires
        matrices.len() > 0,
    ensures
        is_first_nearest_matrix(matrices, time, timestamp_mode, index),
    decreases matrices.len(),
{
    let last = matrices.len() - 1;
    if last == 0 {
        0
    } else {
        let front = matrices.drop_last();
        let index = first_nearest_matrix_exists(front, time, timestamp_mode);
        assert forall|other: int| 0 <= other < last implies front[index].distance_spec(
            time,
            timestamp_mode,
        ) <= (#[trigger] matrices[other]).distance_spec(time, timestamp_mode) by {
            assert(front[other] == matrices[other]);
        }
        assert forall|other: int| 0 <= other < index implies front[index].distance_spec(
            time,
            timestamp_mode,
        ) < (#[trigger] matrices[other]).distance_spec(time, timestamp_mode) by {
            assert(front[other] == matrices[other]);
        }
        if matrices[last].distance_spec(time, timestamp_mode) < front[index].distance_spec(
            time,
            timestamp_mode,
        ) {
            last
        } else {
            index
        }
    }
}

/// Where there are camera matrices, one is found for every time. It is one of them, no other is
/// nearer, and none in front of it is as near.
pub proof fn nearest_matrix_is_nearest(
    matrices: Seq<OnlineCameraMatrix>,
    time: WallTime,
    timestamp_mode: TimestampMode,
)
    ensures
        nearest_matrix(matrices, time, timestamp_mode) is Some <==> matrices.len() > 0,
        matrices.len() > 0 ==> exists|index: int| #[trigger]
            is_first_nearest_matrix(matrices, time, timestamp_mode, index) && nearest_matrix(
                matrices,
                time,
                timestamp_mode,
            )->0.matrix == matrices[index],
{
    if matrices.len() > 0 {
        let index = first_nearest_matrix_exists(matrices, time, timestamp_mode);
        let chosen = choose|index: int|
            is_first_nearest_matrix(matrices, time, timestamp_mode, index);
        assert(is_first_nearest_matrix(matrices, time, timestamp_mode, chosen));
    }
}

/// Camera matrices in the order in which they came in.
#[derive(Debug)]
pub struct OnlineCameraMatrices {
    pub matrices: Vec<OnlineCameraMatrix>,
}

impl OnlineCameraMatrices {
    /// No matrices.
    pub fn new() -> (matrices: Self)
        ensures
            matrices.matrices@ == Seq::<OnlineCameraMatrix>::empty(),
    {
        OnlineCameraMatrices { matrices: Vec::new() }
    }

    /// Takes up the camera matrix of an event.
    pub fn push(&mut self, event: &RecordedEvent, time: Time)
        ensures
            final(self).matrices@ == old(self).matrices@.push(
                OnlineCameraMatrix { order: event.order, publish_time: event.publish_time, time },
            ),
    {
        self.matrices.push(
            OnlineCameraMatrix { order: event.order, publish_time: event.publish_time, time },
        );
    }

    /// Finds the first of the matrices nearest to `time`.
    pub fn nearest(&self, time: WallTime, timestamp_mode: TimestampMode) -> (nearest: Option<
        NearestCameraMatrix,
    >)
        ensures
            nearest == nearest_matrix(self.matrices@, time, timestamp_mode),
    {
        if self.matrices.len() == 0 {
            return None;
        }
        let mut nearest: usize = 0;
        let mut nearest_distance: u128 = nanos_abs_diff(
            self.matrices[0].time(timestamp_mode),
            time,
        );
        let mut index: usize = 1;
        while index < self.matrices.len()
            invariant
                nearest < index <= self.matrices@.len(),
                nearest_distance == self.matrices@[nearest as int].distance_spec(
                    time,
                    timestamp_mode,
                ),
                forall|other: int|
                    0 <= other < index ==> nearest_distance <= (
                    #[trigger] self.matrices@[other]).distance_spec(time, timestamp_mode),
                forall|other: int|
                    0 <= other < nearest ==> nearest_distance < (
                    #[trigger] self.matrices@[other]).distance_spec(time, timestamp_mode),
            decreases self.matrices@.len() - index,
        {
            let distance: u128 = nanos_abs_diff(self.matrices[index].time(timestamp_mode), time);
            if distance < nearest_distance {
                nearest = index;
                nearest_distance = distance;
            }
            index = index + 1;
        }
        proof {
            let matrices = self.matrices@;
            assert(is_first_nearest_matrix(matrices, time, timestamp_mode, nearest as int));
            let other = choose|index: int|
                is_first_nearest_matrix(matrices, time, timestamp_mode, index);
            assert(is_first_nearest_matrix(matrices, time, timestamp_mode, other));
            assert(matrices[other].distance_spec(time, timestamp_mode)
                <= matrices[nearest as int].distance_spec(time, timestamp_mode));
        }
        Some(
            NearestCameraMatrix {
                matrix: self.matrices[nearest],
                distance: self.matrices[nearest].distance_to(time, timestamp_mode),
            },
        )
    }
}

/// The camera matrices among the first `count` events.
pub open spec fn matrices_of(events: Seq<RecordedEvent>, count: int) -> Seq<OnlineCameraMatrix>
    decreases count,
{
    if count <= 0 {
        Seq::empty()
    } else {
        let earlier = matrices_of(events, count - 1);
        match events[count - 1].kind {
            EventKind::CameraMatrix(time) => earlier.push(
                OnlineCameraMatrix {
                    order: events[count - 1].order,
                    publish_time: events[count - 1].publish_time,
                    time,
                },
            ),
            _ => earlier,
        }
    }
}

/// Collects the camera matrices of a recording.
pub fn recorded_camera_matrices(recording: &Recording) -> (matrices: OnlineCameraMatrices)
    ensures
        matrices.matrices@ == matrices_of(recording@.events, recording@.events.len() as int),
{
    let events = recording.events();
    let mut matrices = OnlineCameraMatrices::new();
    let mut index: usize = 0;
    while index < events.len()
        invariant
            events@ == recording@.events,
            index <= events@.len(),
            matrices.matrices@ == matrices_of(events@, index as int),
        decreases events@.len() - index,
    {
        if let EventKind::CameraMatrix(time) = events[index].kind {
            matrices.push(&events[index], time);
        }
        index = index + 1;
    }
    matrices
}

/// The times between which a motion was measured: those inside the message, or those at which the
/// images of these times were published.
pub open spec fn measured_between(
    recording: RecordingView,
    delta: VisualOdometryDelta,
    mode: TimestampMode,
) -> Option<(WallTime, WallTime)> {
    match mode {
        TimestampMode::Embedded => Some(
            (
                WallTime { nanos: delta.previous_time.nanos as i128 },
                WallTime { nanos: delta.current_time.nanos as i128 },
            ),
        ),
        TimestampMode::McapPublish => match (
            aligned_time(recording, delta.previous_time),
            aligned_time(recording, delta.current_time),
        ) {
            (Some(previous), Some(current)) => Some((previous, current)),
            _ => None,
        },
    }
}

/// The times between which a motion was measured.
pub fn measurement_times(
    recording: &Recording,
    delta: &VisualOdometryDelta,
    mode: TimestampMode,
) -> (times: Option<(WallTime, WallTime)>)
    ensures
        times == measured_between(recording@, *delta, mode),
{
    match mode {
        TimestampMode::Embedded => Some(
            (delta.previous_time.to_wallclock(), delta.current_time.to_wallclock()),
        ),
        TimestampMode::McapPublish => {
            let previous = match recording.aligned_image_time(delta.previous_time) {
                Some(previous) => previous,
                None => {
                    return None;
                },
            };
            match recording.aligned_image_time(delta.current_time) {
                Some(current) => Some((previous, current)),
                None => None,
            }
        },
    }
}

/// The end of a measured motion by publishing times: that of its image, else that of the message.
pub open spec fn diagnostic_current(
    recording: RecordingView,
    event: RecordedEvent,
    delta: VisualOdometryDelta,
) -> WallTime {
    match aligned_time(recording, delta.current_time) {
        Some(current) => current,
        None => event.publish_time,
    }
}

/// The start of a measured motion by publishing times: that of its image, else the end of the
/// motion before, else as long before its end as the message says, unless it says that the start
/// came later.
pub open spec fn diagnostic_previous(
    recording: RecordingView,
    event: RecordedEvent,
    delta: VisualOdometryDelta,
    previous_current: Option<WallTime>,
) -> Option<WallTime> {
    let duration = delta.current_time.nanos - delta.previous_time.nanos;
    match aligned_time(recording, delta.previous_time) {
        Some(previous) => Some(previous),
        None => match previous_current {
            Some(previous) => Some(previous),
            None => if duration >= 0 {
                Some(
                    WallTime {
                        nanos: (diagnostic_current(recording, event, delta).nanos
                            - duration) as i128,
                    },
                )
            } else {
                None
            },
        },
    }
}

/// The times between which a motion was measured, for diagnostics. By publishing times, times that
/// no image tells are estimated.
pub fn diagnostic_measurement_times(
    recording: &Recording,
    event: &RecordedEvent,
    delta: &VisualOdometryDelta,
    mode: TimestampMode,
    previous_mcap_publish_time: &mut Option<WallTime>,
) -> (times: Option<(WallTime, WallTime)>)
    requires
        is_recorded_time(event.publish_time),
    ensures
        mode is Embedded ==> times == measured_between(recording@, *delta, mode)
            && *final(previous_mcap_publish_time) == *old(previous_mcap_publish_time),
        mode is McapPublish ==> *final(previous_mcap_publish_time) == Some(
            diagnostic_current(recording@, *event, *delta),
        ),
        mode is McapPublish ==> times == match diagnostic_previous(
            recording@,
            *event,
            *delta,
            *old(previous_mcap_publish_time),
        ) {
            Some(previous) => Some((previous, diagnostic_current(recording@, *event, *delta))),
            None => None,
        },
{
    match mode {
        TimestampMode::Embedded => Some(
            (delta.previous_time.to_wallclock(), delta.current_time.to_wallclock()),
        ),
        TimestampMode::McapPublish => {
            let current = match recording.aligned_image_time(delta.current_time) {
                Some(current) => current,
                None => event.publish_time,
            };
            let previous = match recording.aligned_image_time(delta.previous_time) {
                Some(previous) => Some(previous),
                None => match *previous_mcap_publish_time {
                    Some(previous) => Some(previous),
                    None => {
                        let duration: i128 = delta.current_time.nanos as i128
                            - delta.previous_time.nanos as i128;
                        if duration >= 0 {
                            Some(WallTime { nanos: current.nanos - duration })
                        } else {
                            None
                        }
                    },
                },
            };
            *previous_mcap_publish_time = Some(current);
            match previous {
                Some(previous) => Some((previous, current)),
                None => None,
            }
        },
    }
}

} // verus!
