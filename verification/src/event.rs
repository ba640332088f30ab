//! Recorded events and images, reduced to what decides how they are aligned in time.
//!
//! `order` numbers the messages of a recording. It leads back to the message that an event or an
//! image came from, and with it to the payload.

use crate::time::{Time, WallTime};
use vstd::prelude::*;

verus! {

/// The times between which visual odometry measured a motion.
#[derive(Clone, Copy, Debug, PartialEq, Eq, Structural)]
pub struct VisualOdometryDelta {
    pub previous_time: Time,
    pub current_time: Time,
}

/// Objects detected in one camera image.
#[derive(Clone, Copy, Debug, PartialEq, Eq, Structural)]
pub struct DetectedObjectsFrame {
    /// When the image was taken, where an announcement or an association told it.
    pub image_time: Option<Time>,
    pub publish_time: WallTime,
    pub announcement_log_time: Option<WallTime>,
    pub sequence_number: i64,
}

impl DetectedObjectsFrame {
    /// When the frame is shown: at the time of its image, else when it was published.
    pub open spec fn display_time_spec(self) -> WallTime {
        match self.image_time {
            Some(time) => WallTime { nanos: time.nanos as i128 },
            None => self.publish_time,
        }
    }

    /// When the frame is shown: at the time of its image, else when it was published.
    pub fn display_time(&self) -> (time: WallTime)
        ensures
            time == self.display_time_spec(),
    {
        match self.image_time {
            Some(time) => time.to_wallclock(),
            None => self.publish_time,
        }
    }
}

/// What an event is about.
#[derive(Clone, Copy, Debug, PartialEq, Eq, Structural)]
pub enum EventKind {
    Imu,
    VisualOdometry(VisualOdometryDelta),
    RobotKinematics(Time),
    CameraMatrix(Time),
    DetectedObjects(DetectedObjectsFrame),
    /// A recorded pose, or the report that there was none.
    RecordedLocalization { localized: bool },
    CalibratedIntrinsics,
    FieldMarkAssociations(Time),
    /// The state of the global localization, or the report that there was none.
    GlobalLocalizationDebug { present: bool },
    SolveDiagnostics(Time),
}

/// An event of a recording.
#[derive(Clone, Copy, Debug, PartialEq, Eq, Structural)]
pub struct RecordedEvent {
    pub order: usize,
    pub log_time: WallTime,
    pub publish_time: WallTime,
    pub kind: EventKind,
}

impl RecordedEvent {
    /// When the event is shown: at the time inside the message where it has one, else when it was
    /// published.
    pub open spec fn display_time_spec(self) -> WallTime {
        match self.kind {
            EventKind::CameraMatrix(time)
            | EventKind::RobotKinematics(time)
            | EventKind::FieldMarkAssociations(time)
            | EventKind::SolveDiagnostics(time) => WallTime { nanos: time.nanos as i128 },
            EventKind::DetectedObjects(frame) => frame.display_time_spec(),
            _ => self.publish_time,
        }
    }

    /// When the event is shown: at the time inside the message where it has one, else when it was
    /// published.
    pub fn display_time(&self) -> (time: WallTime)
        ensures
            time == self.display_time_spec(),
    {
        match self.kind {
            EventKind::CameraMatrix(time) => time.to_wallclock(),
            EventKind::DetectedObjects(frame) => frame.display_time(),
            EventKind::RobotKinematics(time) => time.to_wallclock(),
            EventKind::FieldMarkAssociations(time) => time.to_wallclock(),
            EventKind::SolveDiagnostics(time) => time.to_wallclock(),
            EventKind::Imu => self.publish_time,
            EventKind::VisualOdometry(_) => self.publish_time,
            EventKind::RecordedLocalization { .. } => self.publish_time,
            EventKind::CalibratedIntrinsics => self.publish_time,
            EventKind::GlobalLocalizationDebug { .. } => self.publish_time,
        }
    }
}

/// A recorded pair of camera images.
#[derive(Clone, Copy, Debug, PartialEq, Eq, Structural)]
pub struct StereoImageIndex {
    pub order: usize,
    pub log_time: WallTime,
    pub publish_time: WallTime,
    /// When the images were taken.
    pub embedded_time: Time,
}

impl StereoImageIndex {
    /// When the images are shown: at the time at which they were taken.
    pub open spec fn display_time_spec(self) -> WallTime {
        WallTime { nanos: self.embedded_time.nanos as i128 }
    }

    /// When the images are shown: at the time at which they were taken.
    pub fn display_time(&self) -> (time: WallTime)
        ensures
            time == self.display_time_spec(),
    {
        self.embedded_time.to_wallclock()
    }
}

/// Names one pair of camera images of a recording.
#[derive(Clone, Copy, Debug, PartialEq, Eq, Structural)]
pub struct StereoImageId(pub usize);

impl StereoImageId {
    /// The place of the images among those of the recording.
    pub fn index(self) -> (index: usize)
        ensures
            index == self.0,
    {
        self.0
    }
}

/// When a field-mark association was recorded, and the time of the image that it speaks of.
#[derive(Clone, Copy, Debug, PartialEq, Eq, Structural)]
pub struct FieldMarkAssociationTiming {
    pub order: usize,
    pub log_time: WallTime,
    pub source_time: Time,
}

} // verus!
