use localization_mcap_visualizer::course::{
    GlobalStatus, Outcome, Phase, ResolveProgress, SolveResult, FARTHEST_NANOS,
};
use localization_mcap_visualizer::event::VisualOdometryDelta;
use localization_mcap_visualizer::messages::RecordedMessage;
use localization_mcap_visualizer::recording::Recording;
use localization_mcap_visualizer::replay::{
    ReplayEvent, ReplayParameters, ReplayVisualOdometryEvent, TimestampMode,
};
use localization_mcap_visualizer::resolve::{
    detected_objects_measurement_time, is_pose_recent, Replay, ReplayRange,
};
use localization_mcap_visualizer::stats::{AssociationKind, ReplayStats};
use localization_mcap_visualizer::stream::MessageContent;
use localization_mcap_visualizer::time::{Time, WallTime};
use localization_mcap_visualizer::topics::{
    TOPIC_CAMERA_MATRIX, TOPIC_DETECTED_OBJECTS, TOPIC_FIELD_MARK_ASSOCIATIONS, TOPIC_IMU_STATE,
    TOPIC_ROBOT_KINEMATICS, TOPIC_STEREO_IMAGE_PAIR, TOPIC_VISUAL_ODOMETRY,
};

const MILLISECOND: i64 = 1_000_000;

fn at(milliseconds: i64) -> WallTime {
    WallTime { nanos: (milliseconds * MILLISECOND) as i128 }
}

fn time(milliseconds: i64) -> Time {
    Time::from_nanos(milliseconds * MILLISECOND)
}

fn nanos(milliseconds: u128) -> u128 {
    milliseconds * MILLISECOND as u128
}

fn prefix(milliseconds: i64) -> Vec<u8> {
    let mut data = vec![0, 1, 0, 0];
    data.extend_from_slice(&0u64.to_le_bytes());
    data.extend_from_slice(&((milliseconds * MILLISECOND) as u32).to_le_bytes());
    data
}

fn message(topic: &str, milliseconds: i64, data: Vec<u8>) -> RecordedMessage {
    RecordedMessage {
        topic: topic.to_string(),
        sequence: 1,
        log_time: (milliseconds * MILLISECOND) as u64,
        publish_time: (milliseconds * MILLISECOND) as u64,
        data,
    }
}

fn motion(previous: i64, current: i64) -> VisualOdometryDelta {
    VisualOdometryDelta { previous_time: time(previous), current_time: time(current) }
}

fn load(stream: Vec<(RecordedMessage, MessageContent)>) -> Recording {
    let (messages, contents): (Vec<_>, Vec<_>) = stream.into_iter().unzip();
    match Recording::load(&messages, &contents) {
        Ok(recording) => recording,
        Err(error) => panic!("the recording should load: {error:?}"),
    }
}

fn sample_stream() -> Vec<(RecordedMessage, MessageContent)> {
    vec![
        (message(TOPIC_CAMERA_MATRIX, 0, vec![]), MessageContent::CameraMatrix(time(0))),
        (message(TOPIC_IMU_STATE, 10, vec![]), MessageContent::ImuState),
        (message(TOPIC_STEREO_IMAGE_PAIR, 11, prefix(10)), MessageContent::StereoImagePair),
        (message(TOPIC_STEREO_IMAGE_PAIR, 41, prefix(40)), MessageContent::StereoImagePair),
        (
            message(TOPIC_VISUAL_ODOMETRY, 42, vec![]),
            MessageContent::VisualOdometry(motion(10, 40)),
        ),
        (message(TOPIC_DETECTED_OBJECTS, 50, vec![]), MessageContent::DetectedObjects),
        (
            message(TOPIC_ROBOT_KINEMATICS, 56, vec![]),
            MessageContent::RobotKinematics(time(55)),
        ),
        (message(TOPIC_IMU_STATE, 130, vec![]), MessageContent::ImuState),
    ]
}

fn whole_second() -> ReplayRange {
    ReplayRange { start: 0, end: nanos(1_000), cadence: nanos(20) }
}

/// How the work of a replay turns out.
struct Answers {
    head_moved: bool,
    gated: bool,
    features: usize,
    status: Option<GlobalStatus>,
    kinds: Vec<AssociationKind>,
    rejected: Vec<bool>,
}

fn good_answers() -> Answers {
    Answers {
        head_moved: false,
        gated: false,
        features: 4,
        status: Some(GlobalStatus::Unique),
        kinds: vec![AssociationKind::GlobalUnique; 3],
        rejected: vec![],
    }
}

/// Runs a replay to its end, and lists its questions and its progress.
fn run(
    replay: &mut Replay,
    recording: &Recording,
    answers: &Answers,
) -> (Vec<Phase>, Vec<ResolveProgress>) {
    let mut asked = Vec::new();
    let mut progress = Vec::new();
    let mut solves = 0;
    loop {
        let phase = replay.phase();
        let outcome = match phase {
            Phase::NextEvent | Phase::HandleEvent | Phase::Report => {
                progress.extend(replay.progress());
                replay.proceed(recording, false);
                continue;
            }
            Phase::Finished | Phase::Cancelled => return (asked, progress),
            Phase::SolveForEvent { at } | Phase::SolveAtEnd { at } => {
                let rejected = answers.rejected.get(solves).copied().unwrap_or(false);
                solves += 1;
                Outcome::Solved(Some(SolveResult { time: at, rejected }))
            }
            Phase::CheckHeadMotion(_) => Outcome::Judged(answers.head_moved),
            Phase::CheckGate(_) => Outcome::Judged(answers.gated),
            Phase::CountFeatures => Outcome::Counted(answers.features),
            Phase::ReadAssociations => {
                Outcome::Associated { status: None, kinds: answers.kinds.clone() }
            }
            Phase::Associate { .. } => {
                Outcome::Associated { status: answers.status, kinds: answers.kinds.clone() }
            }
            Phase::IngestImu
            | Phase::IngestFootHeights
            | Phase::IngestVisualOdometry(_)
            | Phase::IngestAssociations { .. } => Outcome::Ingested,
        };
        asked.push(phase);
        replay.answer(recording, outcome);
    }
}

#[test]
fn a_replay_takes_in_every_measurement() {
    let recording = load(sample_stream());
    let mut replay = Replay::new(&recording, ReplayParameters::default(), whole_second(), None);

    let (asked, progress) = run(&mut replay, &recording, &good_answers());

    let solve_times: Vec<WallTime> = asked
        .iter()
        .filter_map(|phase| match phase {
            Phase::SolveForEvent { at } | Phase::SolveAtEnd { at } => Some(*at),
            _ => None,
        })
        .collect();
    assert_eq!(solve_times, vec![at(20), at(60), at(1_000)]);
    let samples: Vec<(i128, i128)> = replay
        .samples()
        .iter()
        .map(|sample| (sample.replay_nanos, sample.graph_nanos))
        .collect();
    assert_eq!(
        samples,
        vec![
            (20_000_000, 20_000_000),
            (60_000_000, 60_000_000),
            (1_000_000_000, 1_000_000_000),
        ]
    );
    assert_eq!(
        replay.stats(),
        ReplayStats {
            imu_ingested: 2,
            foot_heights_ingested: 1,
            vo_received: 1,
            vo_ingested: 1,
            global_frames: 1,
            global_candidates: 1,
            global_unique_modulo_symmetry: 1,
            global_frames_ingested: 1,
            global_associations_ingested: 3,
            global_unique_frames_ingested: 1,
            global_unique_associations_ingested: 3,
            ..ReplayStats::default()
        }
    );
    assert_eq!(replay.last_visual_anchor_time(), Some(at(50)));
    assert_eq!(replay.kept_associations(), [0, 1, 2].as_slice());
    assert_eq!(
        progress,
        vec![ResolveProgress { processed_events: 1, total_events: 6, solve_count: 0 }]
    );
}

#[test]
fn foot_heights_count_at_the_time_inside_the_message() {
    let recording = load(sample_stream());
    let mut replay = Replay::new(&recording, ReplayParameters::default(), whole_second(), None);
    while !matches!(replay.phase(), Phase::IngestFootHeights) {
        assert_eq!(replay.foot_heights_time(), None);
        match replay.phase() {
            Phase::NextEvent | Phase::HandleEvent | Phase::Report => {
                replay.proceed(&recording, false);
            }
            Phase::SolveForEvent { .. } => replay.answer(&recording, Outcome::Solved(None)),
            Phase::CheckHeadMotion(_) => replay.answer(&recording, Outcome::Judged(true)),
            Phase::CountFeatures => replay.answer(&recording, Outcome::Counted(0)),
            Phase::IngestImu => replay.answer(&recording, Outcome::Ingested),
            other => panic!("unexpected phase {other:?}"),
        }
    }

    assert_eq!(replay.foot_heights_time(), Some(at(55)));
    match replay.current_event() {
        Some(ReplayEvent::Recorded { event, .. }) => assert_eq!(event.order, 6),
        other => panic!("unexpected event {other:?}"),
    }
    assert_eq!(replay.stats().vo_skipped_head_motion, 1);
    assert_eq!(replay.stats().global_candidates, 0);
    assert!(replay.samples().is_empty());
}

#[test]
fn rejected_poses_give_way_to_the_one_before() {
    let recording = load(sample_stream());
    let mut replay = Replay::new(&recording, ReplayParameters::default(), whole_second(), None);
    let answers = Answers { rejected: vec![true, false, true], ..good_answers() };

    run(&mut replay, &recording, &answers);

    let reused: Vec<bool> =
        replay.samples().iter().map(|sample| sample.reused_previous_pose).collect();
    assert_eq!(reused, vec![false, false, true]);
    assert_eq!(replay.stats().pose_updates_reused_unanchored, 1);
}

#[test]
fn large_motions_are_dropped() {
    let recording = load(sample_stream());
    let mut replay = Replay::new(&recording, ReplayParameters::default(), whole_second(), None);

    run(&mut replay, &recording, &Answers { gated: true, ..good_answers() });

    assert_eq!(replay.stats().vo_received, 1);
    assert_eq!(replay.stats().vo_dropped_gated, 1);
    assert_eq!(replay.stats().vo_ingested, 0);
}

#[test]
fn motions_need_camera_matrices_nearby() {
    let mut stream = sample_stream();
    stream[4].1 = MessageContent::VisualOdometry(motion(90, 101));
    let recording = load(stream);
    let mut replay = Replay::new(&recording, ReplayParameters::default(), whole_second(), None);

    run(&mut replay, &recording, &good_answers());

    assert_eq!(replay.stats().vo_skipped_stale_camera_matrix, 1);

    let mut stream = sample_stream();
    stream[0].0.log_time = 200_000_000;
    let recording = load(stream);
    let mut replay = Replay::new(&recording, ReplayParameters::default(), whole_second(), None);

    run(&mut replay, &recording, &good_answers());

    assert_eq!(replay.stats().vo_skipped_missing_camera_matrix, 1);
}

#[test]
fn motions_that_do_not_advance_are_dropped() {
    let mut stream = sample_stream();
    stream[4].1 = MessageContent::VisualOdometry(motion(40, 40));
    let recording = load(stream);
    let mut replay = Replay::new(&recording, ReplayParameters::default(), whole_second(), None);

    run(&mut replay, &recording, &good_answers());

    assert_eq!(replay.stats().vo_dropped_invalid, 1);
}

#[test]
fn a_replay_ignores_what_is_left_out() {
    let recording = load(sample_stream());
    let parameters = ReplayParameters {
        include_visual_odometry: false,
        include_global_features: false,
        include_imu: false,
        include_foot_heights: false,
        ..ReplayParameters::default()
    };
    let mut replay = Replay::new(&recording, parameters, whole_second(), None);

    let (asked, _) = run(&mut replay, &recording, &good_answers());

    assert!(asked.is_empty());
    assert_eq!(replay.stats(), ReplayStats { vo_received: 1, ..ReplayStats::default() });
}

#[test]
fn a_range_bounds_the_replay() {
    let recording = load(sample_stream());
    let range = ReplayRange { start: nanos(42), end: nanos(60), cadence: nanos(5) };
    let mut replay = Replay::new(&recording, ReplayParameters::default(), range, None);

    let (asked, _) = run(&mut replay, &recording, &good_answers());

    assert_eq!(replay.stats().imu_ingested, 0);
    assert_eq!(replay.stats().vo_ingested, 1);
    assert_eq!(replay.stats().foot_heights_ingested, 1);
    let solve_times: Vec<WallTime> = asked
        .iter()
        .filter_map(|phase| match phase {
            Phase::SolveForEvent { at } | Phase::SolveAtEnd { at } => Some(*at),
            _ => None,
        })
        .collect();
    assert_eq!(solve_times, vec![at(47), at(52), at(60)]);
}

#[test]
fn recorded_associations_are_used() {
    let mut stream = sample_stream();
    stream.push((
        message(TOPIC_FIELD_MARK_ASSOCIATIONS, 135, prefix(40)),
        MessageContent::FieldMarkAssociations(time(40)),
    ));
    let recording = load(stream);
    let mut replay = Replay::new(&recording, ReplayParameters::default(), whole_second(), None);
    let answers = Answers { kinds: vec![AssociationKind::PoseHint; 3], ..good_answers() };

    let (asked, _) = run(&mut replay, &recording, &answers);

    assert!(asked.contains(&Phase::ReadAssociations));
    assert!(!asked.contains(&Phase::CountFeatures));
    assert_eq!(replay.stats().global_frames, 1);
    assert_eq!(replay.stats().pose_hint_frames_ingested, 1);
    assert_eq!(replay.stats().pose_hint_associations_ingested, 3);
    assert_eq!(replay.last_visual_anchor_time(), Some(at(40)));
}

#[test]
fn too_few_pose_hints_are_left_out() {
    let recording = load(sample_stream());
    let mut replay = Replay::new(&recording, ReplayParameters::default(), whole_second(), None);
    let answers = Answers {
        status: None,
        kinds: vec![AssociationKind::PoseHint; 2],
        ..good_answers()
    };

    run(&mut replay, &recording, &answers);

    assert_eq!(replay.stats().global_none, 1);
    assert_eq!(replay.stats().global_frames_ingested, 0);
    assert_eq!(replay.last_visual_anchor_time(), None);
}

#[test]
fn ambiguous_frames_are_counted() {
    let recording = load(sample_stream());
    let mut replay = Replay::new(&recording, ReplayParameters::default(), whole_second(), None);
    let answers = Answers {
        status: Some(GlobalStatus::Ambiguous),
        kinds: vec![],
        ..good_answers()
    };

    run(&mut replay, &recording, &answers);

    assert_eq!(replay.stats().global_ambiguous, 1);
}

#[test]
fn given_motions_take_the_place_of_recorded_ones() {
    let recording = load(sample_stream());
    let overrides = [
        ReplayVisualOdometryEvent {
            log_time: at(5),
            publish_time: at(5),
            delta: motion(10, 40),
        },
        ReplayVisualOdometryEvent {
            log_time: at(6),
            publish_time: at(6),
            delta: motion(40, 10),
        },
    ];
    let mut replay = Replay::new(
        &recording,
        ReplayParameters::default(),
        whole_second(),
        Some(overrides.as_slice()),
    );

    run(&mut replay, &recording, &good_answers());

    assert_eq!(replay.stats().vo_received, 2);
    assert_eq!(replay.stats().vo_ingested, 1);
    assert_eq!(replay.stats().vo_dropped_invalid, 1);
}

#[test]
fn a_replay_can_be_cancelled() {
    let recording = load(sample_stream());
    let mut replay = Replay::new(&recording, ReplayParameters::default(), whole_second(), None);

    replay.proceed(&recording, true);

    assert_eq!(replay.phase(), Phase::Cancelled);
}

#[test]
fn publish_times_need_images() {
    let mut stream = sample_stream();
    stream[4].1 = MessageContent::VisualOdometry(motion(500, 540));
    let recording = load(stream);
    let parameters =
        ReplayParameters { timestamp_mode: TimestampMode::McapPublish, ..Default::default() };
    let mut replay = Replay::new(&recording, parameters, whole_second(), None);

    run(&mut replay, &recording, &good_answers());

    assert_eq!(replay.stats().vo_dropped_invalid, 1);
}

#[test]
fn detections_are_timed_by_their_image() {
    let recording = load(sample_stream());
    let event = recording
        .events()
        .iter()
        .find(|event| event.order == 5)
        .copied()
        .expect("there is a detection");
    let frame = match event.kind {
        localization_mcap_visualizer::event::EventKind::DetectedObjects(frame) => frame,
        other => panic!("unexpected kind {other:?}"),
    };

    for mode in [TimestampMode::McapPublish, TimestampMode::Embedded] {
        assert_eq!(detected_objects_measurement_time(&recording, &event, &frame, mode), at(50));
    }
}

#[test]
fn poses_grow_old() {
    assert!(is_pose_recent(at(10), at(15), nanos(5)));
    assert!(is_pose_recent(at(15), at(10), nanos(5)));
    assert!(!is_pose_recent(at(10), at(16), nanos(5)));
}

#[test]
fn motions_from_far_outside_the_recording_are_passed_over() {
    let recording = load(sample_stream());
    let overrides = [-FARTHEST_NANOS, FARTHEST_NANOS].map(|nanos| ReplayVisualOdometryEvent {
        log_time: WallTime { nanos },
        publish_time: WallTime { nanos },
        delta: motion(10, 40),
    });
    let stats = [overrides.as_slice(), &[]].map(|motions| {
        let parameters = ReplayParameters::default();
        let mut replay = Replay::new(&recording, parameters, whole_second(), Some(motions));
        run(&mut replay, &recording, &good_answers());
        replay.stats()
    });

    assert_eq!(stats[0], stats[1]);
    assert_eq!(stats[0].vo_received, 0);
    assert!(stats[0].imu_ingested > 0);
}
