use localization_mcap_visualizer::camera_matrices::{
    diagnostic_measurement_times, measurement_times, recorded_camera_matrices,
    OnlineCameraMatrices, OnlineCameraMatrix,
};
use localization_mcap_visualizer::diagnostics::{
    check_regeneration, diagnose_visual_odometry, FrameAction, RegeneratedVisualOdometry,
    RegenerationError,
};
use localization_mcap_visualizer::event::{StereoImageId, VisualOdometryDelta};
use localization_mcap_visualizer::messages::RecordedMessage;
use localization_mcap_visualizer::recording::Recording;
use localization_mcap_visualizer::replay::{ReplayVisualOdometryEvent, TimestampMode};
use localization_mcap_visualizer::stream::MessageContent;
use localization_mcap_visualizer::time::{Time, WallTime};
use localization_mcap_visualizer::topics::{
    TOPIC_CAMERA_MATRIX, TOPIC_STEREO_IMAGE_PAIR, TOPIC_VISUAL_ODOMETRY,
};

const MILLISECOND: i64 = 1_000_000;

fn at(milliseconds: i64) -> WallTime {
    WallTime { nanos: (milliseconds * MILLISECOND) as i128 }
}

fn time(milliseconds: i64) -> Time {
    Time::from_nanos(milliseconds * MILLISECOND)
}

fn message(topic: &str, log: i64, publish: i64, prefix: i64) -> RecordedMessage {
    let mut data = vec![0, 1, 0, 0];
    data.extend_from_slice(&0u64.to_le_bytes());
    data.extend_from_slice(&((prefix * MILLISECOND) as u32).to_le_bytes());
    RecordedMessage {
        topic: topic.to_string(),
        sequence: 1,
        log_time: (log * MILLISECOND) as u64,
        publish_time: (publish * MILLISECOND) as u64,
        data,
    }
}

fn delta(previous: i64, current: i64) -> VisualOdometryDelta {
    VisualOdometryDelta { previous_time: time(previous), current_time: time(current) }
}

fn sample_recording() -> Recording {
    let messages = [
        message(TOPIC_CAMERA_MATRIX, 1, 2, 0),
        message(TOPIC_STEREO_IMAGE_PAIR, 12, 11, 10),
        message(TOPIC_STEREO_IMAGE_PAIR, 42, 41, 40),
        message(TOPIC_STEREO_IMAGE_PAIR, 72, 71, 70),
        message(TOPIC_VISUAL_ODOMETRY, 43, 43, 0),
        message(TOPIC_VISUAL_ODOMETRY, 73, 73, 0),
        message(TOPIC_CAMERA_MATRIX, 80, 81, 0),
    ];
    let contents = [
        MessageContent::CameraMatrix(time(0)),
        MessageContent::StereoImagePair,
        MessageContent::StereoImagePair,
        MessageContent::StereoImagePair,
        MessageContent::VisualOdometry(delta(10, 40)),
        MessageContent::VisualOdometry(delta(40, 70)),
        MessageContent::CameraMatrix(time(79)),
    ];
    match Recording::load(&messages, &contents) {
        Ok(recording) => recording,
        Err(error) => panic!("the recording should load: {error:?}"),
    }
}

#[test]
fn the_first_nearest_camera_matrix_is_found() {
    let matrices = recorded_camera_matrices(&sample_recording());
    let order_at = |milliseconds: i64, mode: TimestampMode| {
        matrices
            .nearest(at(milliseconds), mode)
            .map(|nearest| (nearest.matrix.order, nearest.distance))
    };

    assert_eq!(order_at(39, TimestampMode::Embedded), Some((0, 39_000_000)));
    assert_eq!(order_at(40, TimestampMode::Embedded), Some((6, 39_000_000)));
    assert_eq!(order_at(41, TimestampMode::McapPublish), Some((0, 39_000_000)));
    assert_eq!(order_at(42, TimestampMode::McapPublish), Some((6, 39_000_000)));
    assert!(OnlineCameraMatrices::new().nearest(at(1), TimestampMode::Embedded).is_none());
}

#[test]
fn equally_near_camera_matrices_give_the_first() {
    let matrices = OnlineCameraMatrices {
        matrices: vec![
            OnlineCameraMatrix { order: 3, publish_time: at(0), time: time(10) },
            OnlineCameraMatrix { order: 4, publish_time: at(0), time: time(30) },
        ],
    };

    let nearest = matrices.nearest(at(20), TimestampMode::Embedded).expect("there are matrices");

    assert_eq!(nearest.matrix.order, 3);
    assert_eq!(nearest.matrix.time(TimestampMode::McapPublish), at(0));
    assert_eq!(nearest.matrix.distance_to(at(20), TimestampMode::McapPublish), 20_000_000);
}

#[test]
fn motions_are_timed_by_their_images() {
    let recording = sample_recording();
    let motion = delta(10, 40);

    assert_eq!(
        measurement_times(&recording, &motion, TimestampMode::Embedded),
        Some((at(10), at(40)))
    );
    assert_eq!(
        measurement_times(&recording, &motion, TimestampMode::McapPublish),
        Some((at(11), at(41)))
    );
    assert_eq!(
        measurement_times(&recording, &delta(10, 400), TimestampMode::McapPublish),
        None
    );
}

#[test]
fn diagnostic_times_are_estimated_where_images_are_missing() {
    let recording = sample_recording();
    let event = recording.events()[1];
    let mut previous = None;

    assert_eq!(
        diagnostic_measurement_times(
            &recording,
            &event,
            &delta(400, 430),
            TimestampMode::McapPublish,
            &mut previous,
        ),
        Some((at(13), at(43)))
    );
    assert_eq!(previous, Some(at(43)));
    assert_eq!(
        diagnostic_measurement_times(
            &recording,
            &event,
            &delta(500, 400),
            TimestampMode::McapPublish,
            &mut previous,
        ),
        Some((at(43), at(43)))
    );
    previous = None;
    assert_eq!(
        diagnostic_measurement_times(
            &recording,
            &event,
            &delta(500, 400),
            TimestampMode::McapPublish,
            &mut previous,
        ),
        None
    );
    assert_eq!(previous, Some(at(43)));
    assert_eq!(
        diagnostic_measurement_times(
            &recording,
            &event,
            &delta(500, 400),
            TimestampMode::Embedded,
            &mut previous,
        ),
        Some((at(500), at(400)))
    );
}

#[test]
fn recorded_motions_are_diagnosed() {
    let recording = sample_recording();
    let matrices = recorded_camera_matrices(&recording);

    let diagnosis = diagnose_visual_odometry(&recording, &matrices, TimestampMode::Embedded);

    assert_eq!(diagnosis.missing_camera_matrix, 0);
    assert_eq!(diagnosis.samples.len(), 2);
    assert_eq!(diagnosis.samples[0].order, 4);
    assert_eq!(diagnosis.samples[0].previous.matrix.order, 0);
    assert_eq!(diagnosis.samples[0].previous.distance, 10_000_000);
    assert_eq!(diagnosis.samples[0].current.matrix.order, 6);
    assert_eq!(diagnosis.samples[1].current.distance, 9_000_000);

    let diagnosis =
        diagnose_visual_odometry(&recording, &OnlineCameraMatrices::new(), TimestampMode::Embedded);
    assert_eq!(diagnosis.missing_camera_matrix, 2);
    assert!(diagnosis.samples.is_empty());
}

#[test]
fn regeneration_needs_images_and_a_baseline() {
    let recording = sample_recording();
    let empty = Recording::load(
        &[message(TOPIC_CAMERA_MATRIX, 1, 1, 0)],
        &[MessageContent::CameraMatrix(time(0))],
    )
    .expect("the recording should load");

    assert_eq!(check_regeneration(&recording, true), Ok(()));
    assert_eq!(check_regeneration(&recording, false), Err(RegenerationError::InvalidBaseline));
    assert_eq!(check_regeneration(&empty, true), Err(RegenerationError::NoImages));
}

#[test]
fn frames_are_joined_to_motions() {
    let recording = sample_recording();
    let matrices = recorded_camera_matrices(&recording);
    let mut regenerated = RegeneratedVisualOdometry::new();

    assert_eq!(regenerated.next_image(&recording), Some(StereoImageId(0)));
    assert_eq!(
        regenerated.take_frame(&recording, &matrices, time(10), false),
        FrameAction::Keep
    );
    match regenerated.take_frame(&recording, &matrices, time(40), true) {
        FrameAction::Measure { previous, current } => {
            assert_eq!(previous.matrix.order, 0);
            assert_eq!(current.matrix.order, 6);
        }
        other => panic!("unexpected action {other:?}"),
    }
    assert_eq!(
        regenerated.take_frame(&recording, &matrices, time(70), false),
        FrameAction::ResetTracking
    );

    assert_eq!(regenerated.next_image(&recording), None);
    assert_eq!(
        regenerated.events(),
        [ReplayVisualOdometryEvent {
            log_time: at(42),
            publish_time: at(41),
            delta: delta(10, 40),
        }]
        .as_slice()
    );
    assert_eq!(regenerated.counts(), (3, 1, 1));
    assert_eq!(regenerated.missing_camera_matrix(), 0);
}

#[test]
fn frames_without_camera_matrix_keep_the_start_of_a_motion() {
    let recording = sample_recording();
    let matrices = OnlineCameraMatrices::new();
    let mut regenerated = RegeneratedVisualOdometry::new();

    regenerated.take_frame(&recording, &matrices, time(10), false);
    assert_eq!(
        regenerated.take_frame(&recording, &matrices, time(40), true),
        FrameAction::Keep
    );
    let known = recorded_camera_matrices(&recording);
    regenerated.take_frame(&recording, &known, time(70), true);

    assert_eq!(regenerated.missing_camera_matrix(), 1);
    assert_eq!(regenerated.events()[0].delta, delta(10, 70));
}
