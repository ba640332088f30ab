use localization_mcap_visualizer::course::SolveSample;
use localization_mcap_visualizer::event::{EventKind, StereoImageId, VisualOdometryDelta};
use localization_mcap_visualizer::images::{camera_image_from_rgb, ImageError, RgbPixels};
use localization_mcap_visualizer::interface::{frame_position, step_frame};
use localization_mcap_visualizer::messages::RecordedMessage;
use localization_mcap_visualizer::recording::Recording;
use localization_mcap_visualizer::replay::TimestampMode;
use localization_mcap_visualizer::stats::ReplayStats;
use localization_mcap_visualizer::stream::{read_time_prefix, LoadError, MessageContent};
use localization_mcap_visualizer::time::{Time, WallTime};
use localization_mcap_visualizer::topics::{
    classify_topic, Topic, TOPIC_CAMERA_MATRIX, TOPIC_DETECTED_OBJECTS,
    TOPIC_DETECTED_OBJECTS_ANNOUNCE, TOPIC_FIELD_DIMENSIONS, TOPIC_FIELD_MARK_ASSOCIATIONS,
    TOPIC_IMU_STATE, TOPIC_LOCALIZATION, TOPIC_ROBOT_KINEMATICS, TOPIC_STEREO_CAMERA_INFO,
    TOPIC_STEREO_IMAGE_PAIR, TOPIC_VISUAL_ODOMETRY,
};
use localization_mcap_visualizer::trajectory::{
    sample_segments, segment_ids, LocalizationPoint, WIDEST_GAP,
};
use localization_mcap_visualizer::wire::{cdr_payload, decode_time_prefix};

const MILLISECOND: i64 = 1_000_000;

fn at(milliseconds: i64) -> WallTime {
    WallTime { nanos: (milliseconds * MILLISECOND) as i128 }
}

fn time(milliseconds: i64) -> Time {
    Time::from_nanos(milliseconds * MILLISECOND)
}

fn prefix(milliseconds: i64) -> Vec<u8> {
    let nanos = milliseconds * MILLISECOND;
    let mut data = vec![0, 1, 0, 0];
    data.extend_from_slice(&((nanos / 1_000_000_000) as u64).to_le_bytes());
    data.extend_from_slice(&((nanos % 1_000_000_000) as u32).to_le_bytes());
    data
}

fn message(topic: &str, sequence: u32, log: i64, publish: i64, data: Vec<u8>) -> RecordedMessage {
    RecordedMessage {
        topic: topic.to_string(),
        sequence,
        log_time: (log * MILLISECOND) as u64,
        publish_time: (publish * MILLISECOND) as u64,
        data,
    }
}

fn sample_recording() -> Recording {
    let stream = vec![
        (message(TOPIC_CAMERA_MATRIX, 0, 10, 9, vec![]), MessageContent::CameraMatrix(time(5))),
        (message(TOPIC_IMU_STATE, 0, 20, 19, vec![]), MessageContent::ImuState),
        (message(TOPIC_STEREO_IMAGE_PAIR, 0, 30, 29, prefix(25)), MessageContent::StereoImagePair),
        (message(TOPIC_DETECTED_OBJECTS, 7, 35, 34, vec![]), MessageContent::DetectedObjects),
        (
            message(TOPIC_DETECTED_OBJECTS_ANNOUNCE, 0, 36, 36, vec![]),
            MessageContent::DetectedObjectsAnnounce { time: time(25), sequence_number: 7 },
        ),
        (
            message(TOPIC_LOCALIZATION, 0, 40, 39, vec![]),
            MessageContent::Localization { localized: true },
        ),
        (
            message(TOPIC_LOCALIZATION, 1, 45, 44, vec![]),
            MessageContent::Localization { localized: false },
        ),
        (
            message(TOPIC_LOCALIZATION, 2, 50, 49, vec![]),
            MessageContent::Localization { localized: true },
        ),
        (
            message(TOPIC_VISUAL_ODOMETRY, 0, 60, 59, vec![]),
            MessageContent::VisualOdometry(VisualOdometryDelta {
                previous_time: time(25),
                current_time: time(58),
            }),
        ),
        (message(TOPIC_STEREO_IMAGE_PAIR, 1, 61, 60, prefix(58)), MessageContent::StereoImagePair),
        (
            message(TOPIC_ROBOT_KINEMATICS, 0, 62, 57, vec![]),
            MessageContent::RobotKinematics(time(57)),
        ),
        (message(TOPIC_FIELD_DIMENSIONS, 0, 63, 63, vec![]), MessageContent::FieldDimensions),
        (message(TOPIC_STEREO_CAMERA_INFO, 0, 64, 64, vec![]), MessageContent::StereoCameraInfo),
        (message("other", 0, 65, 65, vec![]), MessageContent::Other),
        (message(TOPIC_IMU_STATE, 1, 5, 4, vec![]), MessageContent::ImuState),
    ];
    let (messages, contents): (Vec<_>, Vec<_>) = stream.into_iter().unzip();
    match Recording::load(&messages, &contents) {
        Ok(recording) => recording,
        Err(error) => panic!("the recording should load: {error:?}"),
    }
}

#[test]
fn events_are_sorted_by_log_time() {
    let recording = sample_recording();

    assert_eq!(recording.event_count(), 9);
    assert_eq!(recording.image_count(), 2);
    let orders: Vec<usize> = recording.events().iter().map(|event| event.order).collect();
    assert_eq!(orders, vec![14, 0, 1, 3, 5, 6, 7, 8, 10]);
    assert_eq!(recording.first_camera_matrix(), 0);
    assert_eq!(recording.stereo_camera_info(), Some(12));
    assert_eq!(recording.field_dimensions(), Some(11));
}

#[test]
fn topics_are_counted() {
    let recording = sample_recording();

    assert_eq!(recording.topic_count(), 11);
    assert_eq!(recording.topic_message_count(TOPIC_IMU_STATE), 2);
    assert_eq!(recording.topic_message_count(TOPIC_LOCALIZATION), 3);
    assert_eq!(recording.topic_message_count("other"), 1);
    assert_eq!(recording.topic_message_count("missing"), 0);
}

#[test]
fn a_recording_spans_its_events_and_images() {
    let recording = sample_recording();

    assert_eq!(recording.start_log_time(), at(5));
    assert_eq!(recording.end_log_time(), at(62));
    assert_eq!(recording.start_source_time(), at(4));
    assert_eq!(recording.start_display_time(), at(4));
    assert_eq!(recording.end_display_time(), at(59));
    assert_eq!(recording.duration(), 55_000_000);
    assert_eq!(recording.graph_start_time(TimestampMode::McapPublish), at(4));
    assert_eq!(recording.graph_start_time(TimestampMode::Embedded), at(4));
}

#[test]
fn images_are_named_by_their_place() {
    let recording = sample_recording();

    let second = recording.image_id_from_index(1).expect("there is a second image");
    assert_eq!(second.index(), 1);
    assert_eq!(recording.image_log_time(second), Some(at(61)));
    assert_eq!(recording.image_display_time(second), Some(at(58)));
    assert_eq!(recording.image(second).map(|image| image.order), Some(9));
    assert_eq!(recording.image_id_from_index(2), None);
    assert_eq!(recording.image_log_time(StereoImageId(2)), None);
    assert_eq!(recording.image_display_time(StereoImageId(2)), None);
}

#[test]
fn announced_image_times_are_filled_in() {
    let recording = sample_recording();
    let event = recording.events()[3];

    match event.kind {
        EventKind::DetectedObjects(frame) => {
            assert_eq!(frame.image_time, Some(time(25)));
            assert_eq!(frame.announcement_log_time, Some(at(36)));
            assert_eq!(frame.publish_time, at(34));
            assert_eq!(frame.sequence_number, 7);
        }
        other => panic!("unexpected kind {other:?}"),
    }
    assert_eq!(recording.detected_objects_image_publish_time(&event), Some(at(29)));
    assert_eq!(
        recording.detected_objects_image_publish_time(&recording.events()[0]),
        None
    );
}

#[test]
fn image_times_are_aligned_to_publish_times() {
    let recording = sample_recording();

    assert_eq!(recording.aligned_image_time(time(26)), Some(at(29)));
    assert_eq!(recording.aligned_image_time(time(58)), Some(at(60)));
    assert_eq!(recording.aligned_image_time(time(158)), Some(at(60)));
    assert_eq!(recording.aligned_image_time(time(159)), None);
}

#[test]
fn the_snapshot_goes_by_the_shown_image() {
    let recording = sample_recording();

    let snapshot = recording.latest_snapshot(at(26));

    assert_eq!(snapshot.image_id, Some(StereoImageId(0)));
    assert_eq!(snapshot.image_display_time, Some(at(25)));
    assert_eq!(snapshot.camera_matrix.map(|event| event.order), Some(0));
    assert_eq!(snapshot.detected_objects.map(|event| event.order), Some(3));
    assert_eq!(snapshot.detected_objects_time, Some(at(25)));
    assert_eq!(snapshot.robot_kinematics.map(|event| event.order), Some(10));
    assert!(snapshot.recorded_localization.is_none());
    assert!(snapshot.calibrated_intrinsics.is_none());
    assert!(snapshot.field_mark_associations.is_none());
    assert!(snapshot.global_localization_debug.is_none());
    assert!(snapshot.solve_diagnostics.is_none());
    assert_eq!(
        recording.detected_objects_for_image(StereoImageId(0)).map(|found| found.1),
        Some(at(25))
    );
    assert!(recording.detected_objects_for_image(StereoImageId(1)).is_none());
}

#[test]
fn the_snapshot_shows_no_lost_pose() {
    let recording = sample_recording();
    let pose_at = |milliseconds: i64| {
        recording
            .latest_snapshot(at(milliseconds))
            .recorded_localization
            .map(|event| event.order)
    };

    assert_eq!(pose_at(38), None);
    assert_eq!(pose_at(39), Some(5));
    assert_eq!(pose_at(44), None);
    assert_eq!(pose_at(49), Some(7));
}

#[test]
fn a_snapshot_far_from_everything_is_empty() {
    let recording = sample_recording();

    let snapshot = recording.latest_snapshot(at(1_000));

    assert!(snapshot.image_id.is_none());
    assert!(snapshot.image_display_time.is_none());
    assert!(snapshot.camera_matrix.is_none());
    assert!(snapshot.detected_objects.is_none());
    assert!(snapshot.detected_objects_time.is_none());
}

#[test]
fn the_nearest_image_is_shown() {
    let recording = sample_recording();

    assert_eq!(recording.nearest_image_id(at(41)), Some(StereoImageId(0)));
    assert_eq!(recording.nearest_image_id(at(42)), Some(StereoImageId(1)));
    assert_eq!(recording.nearest_image_id(at(158)), Some(StereoImageId(1)));
    assert_eq!(recording.nearest_image_id(at(159)), None);
}

#[test]
fn a_lost_pose_starts_a_new_segment() {
    let recording = sample_recording();

    assert_eq!(
        recording.recorded_localization_trajectory(),
        vec![
            LocalizationPoint { order: 5, nanos: 35_000_000, segment_id: 0 },
            LocalizationPoint { order: 7, nanos: 45_000_000, segment_id: 1 },
        ]
    );
}

fn solve_sample_at(graph_nanos: i128) -> SolveSample {
    SolveSample {
        replay_nanos: graph_nanos,
        graph_nanos,
        reused_previous_pose: false,
        stats: ReplayStats::default(),
    }
}

#[test]
fn trajectory_splits_segments_on_large_graph_gap() {
    let segments = sample_segments(&[
        solve_sample_at(0),
        solve_sample_at(100_000_000),
        solve_sample_at(100_000_000 + WIDEST_GAP + 10_000_000),
    ]);

    assert_eq!(segments.len(), 3);
    assert_eq!(segments[0], 0);
    assert_eq!(segments[1], 0);
    assert_eq!(segments[2], 1);
}

#[test]
fn a_gap_of_half_a_second_is_not_wide() {
    assert_eq!(segment_ids(&[0, 500_000_000]), vec![0, 0]);
    assert_eq!(segment_ids(&[0, 500_000_001]), vec![0, 1]);
    assert_eq!(segment_ids(&[0, -500_000_001, 0]), vec![0, 0, 1]);
    assert_eq!(segment_ids(&[i128::MIN, i128::MAX, i128::MIN]), vec![0, 1, 1]);
    assert_eq!(segment_ids(&[]), Vec::<u64>::new());
}

#[test]
fn a_recording_without_camera_matrix_is_refused() {
    let messages = [message(TOPIC_IMU_STATE, 0, 1, 1, vec![])];

    assert_eq!(
        Recording::load(&messages, &[MessageContent::ImuState]).err(),
        Some(LoadError::NoCameraMatrix)
    );
}

#[test]
fn a_short_time_prefix_is_refused() {
    let mut short = prefix(25);
    short.pop();
    let messages = [
        message(TOPIC_CAMERA_MATRIX, 0, 1, 1, vec![]),
        message(TOPIC_STEREO_IMAGE_PAIR, 0, 2, 2, short.clone()),
    ];
    let contents = [MessageContent::CameraMatrix(time(1)), MessageContent::StereoImagePair];

    assert_eq!(
        Recording::load(&messages, &contents).err(),
        Some(LoadError::ShortTimePrefix { order: 1 })
    );
    assert_eq!(
        read_time_prefix(&message(TOPIC_FIELD_MARK_ASSOCIATIONS, 0, 1, 1, short), 4),
        Err(LoadError::ShortTimePrefix { order: 4 })
    );
    assert_eq!(
        read_time_prefix(&message(TOPIC_FIELD_MARK_ASSOCIATIONS, 0, 1, 1, prefix(1_234)), 4),
        Ok(Some(time(1_234)))
    );
    assert_eq!(read_time_prefix(&message(TOPIC_IMU_STATE, 0, 1, 1, vec![]), 4), Ok(None));
}

#[test]
fn associations_time_detections_without_announcements() {
    let messages = [
        message(TOPIC_CAMERA_MATRIX, 0, 1, 1, vec![]),
        message(TOPIC_STEREO_IMAGE_PAIR, 0, 20, 20, prefix(10)),
        message(TOPIC_DETECTED_OBJECTS, 3, 30, 30, vec![]),
        message(TOPIC_FIELD_MARK_ASSOCIATIONS, 0, 31, 31, prefix(10)),
    ];
    let contents = [
        MessageContent::CameraMatrix(time(1)),
        MessageContent::StereoImagePair,
        MessageContent::DetectedObjects,
        MessageContent::FieldMarkAssociations(time(10)),
    ];
    let recording = Recording::load(&messages, &contents).expect("the recording should load");

    assert_eq!(
        recording.detected_objects_image_publish_time(&recording.events()[1]),
        Some(at(20))
    );
    assert_eq!(recording.events()[1].display_time(), at(10));
}

#[test]
fn encapsulation_headers_are_stripped() {
    let data = prefix(1_500);

    assert_eq!(cdr_payload(&data), &data[4..]);
    assert_eq!(decode_time_prefix(&data), Some(time(1_500)));
    assert_eq!(decode_time_prefix(&data[4..]), Some(time(1_500)));
    assert_eq!(cdr_payload(&[0, 2, 0, 0]), [0, 2, 0, 0].as_slice());
    assert_eq!(decode_time_prefix(&[0; 11]), None);
    assert_eq!(decode_time_prefix(&[0xFF; 12]), Some(Time::from_nanos(i64::MAX)));
}

#[test]
fn topics_are_known_by_their_names() {
    assert_eq!(classify_topic("detected_objects"), Topic::DetectedObjects);
    assert_eq!(classify_topic("detected_objects/announce"), Topic::DetectedObjectsAnnounce);
    assert_eq!(classify_topic("debug/solve_diagnostics"), Topic::SolveDiagnostics);
    assert_eq!(classify_topic("Detected_objects"), Topic::Other);
    assert_eq!(classify_topic(""), Topic::Other);
}

#[test]
fn stereo_frames_keep_the_times_of_their_image() {
    let recording = sample_recording();
    let left = RgbPixels { width: 1, height: 2, rgb: vec![1, 2, 3, 4, 5, 6] };
    let right = RgbPixels { width: 1, height: 1, rgb: vec![9, 8, 7] };

    let frame = recording
        .stereo_frame(StereoImageId(1), time(58), &left, &right)
        .expect("the frame should be built");

    assert_eq!(frame.sequence, 9);
    assert_eq!(frame.source_time, time(58));
    assert_eq!(frame.log_time, at(61));
    assert_eq!(frame.publish_time, at(60));
    assert_eq!(frame.left.rgba, vec![1, 2, 3, 255, 4, 5, 6, 255]);
    assert_eq!((frame.left.width, frame.left.height), (1, 2));
    assert_eq!(frame.right.rgba, vec![9, 8, 7, 255]);
    assert_eq!(
        recording.stereo_frame(StereoImageId(2), time(58), &left, &right).err(),
        Some(ImageError::OutOfBounds)
    );
}

#[test]
fn pictures_without_all_pixels_are_refused() {
    let short = RgbPixels { width: 2, height: 1, rgb: vec![1, 2, 3, 4, 5] };

    assert_eq!(camera_image_from_rgb(&short).err(), Some(ImageError::MissingPixels));
}

#[test]
fn frames_are_stepped_within_the_recording() {
    let recording = sample_recording();

    assert_eq!(step_frame(&recording, 0, 1), Some(1));
    assert_eq!(step_frame(&recording, 1, 1), Some(1));
    assert_eq!(step_frame(&recording, 1, -1), Some(0));
    assert_eq!(step_frame(&recording, 0, -1), Some(0));
    assert_eq!(step_frame(&recording, 1, isize::MIN), Some(0));
    assert_eq!(step_frame(&recording, usize::MAX, isize::MAX), Some(1));
    assert_eq!(frame_position(&recording, 0), Some(21_000_000));
    assert_eq!(frame_position(&recording, 1), Some(54_000_000));
    assert_eq!(frame_position(&recording, 2), None);
}

#[test]
fn recordings_without_images_are_not_stepped() {
    let messages = [message(TOPIC_CAMERA_MATRIX, 0, 1, 1, vec![])];
    let contents = [MessageContent::CameraMatrix(time(1))];
    let recording = Recording::load(&messages, &contents).expect("the recording should load");

    assert_eq!(step_frame(&recording, 0, 1), None);
    assert_eq!(recording.nearest_image_id(at(1)), None);
}
