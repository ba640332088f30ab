use localization_mcap_visualizer::event::{EventKind, RecordedEvent};
use localization_mcap_visualizer::order::{
    nearest_by_distance, partition_point, sort_by_keys, stable_order,
};
use localization_mcap_visualizer::snapshot::SnapshotIndex;
use localization_mcap_visualizer::stats::{
    localization_visual_associations, record_ingested_association_stats, AssociationKind,
    ReplayStats,
};
use localization_mcap_visualizer::time::{Time, WallTime};

fn event(order: usize, nanos: i128, kind: EventKind) -> RecordedEvent {
    let time = WallTime { nanos };
    RecordedEvent { order, log_time: time, publish_time: time, kind }
}

#[test]
fn sorting_keeps_equal_items_in_place() {
    let keys = [(5, 0), (3, 1), (5, 0), (3, 0), (-1, 9)];

    assert_eq!(stable_order(&keys), vec![4, 3, 1, 0, 2]);
    assert_eq!(sort_by_keys(&['a', 'b', 'c', 'd', 'e'], &keys), vec!['e', 'd', 'b', 'a', 'c']);
    assert_eq!(stable_order(&[]), Vec::<usize>::new());
}

#[test]
fn the_partition_point_splits_a_list() {
    let items = [1, 3, 5, 7];

    assert_eq!(partition_point(items.len(), |i: usize| items[i] <= 5), 3);
    assert_eq!(partition_point(items.len(), |i: usize| items[i] <= 0), 0);
    assert_eq!(partition_point(items.len(), |i: usize| items[i] <= 9), 4);
}

#[test]
fn the_nearer_of_two_is_taken_and_the_earlier_of_equals() {
    assert_eq!(nearest_by_distance(Some(("a", 2)), Some(("b", 1))), Some("b"));
    assert_eq!(nearest_by_distance(Some(("a", 1)), Some(("b", 1))), Some("a"));
    assert_eq!(nearest_by_distance(Some(("a", 0.5)), Some(("b", 0.25))), Some("b"));
    assert_eq!(nearest_by_distance(Some(("a", 2)), None), Some("a"));
    assert_eq!(nearest_by_distance(None, Some(("b", 2))), Some("b"));
    assert_eq!(nearest_by_distance::<&str, u8>(None, None), None);
}

#[test]
fn snapshots_find_the_nearest_and_the_latest_events() {
    let events = [
        event(0, 100, EventKind::CameraMatrix(Time::from_nanos(300))),
        event(1, 200, EventKind::CameraMatrix(Time::from_nanos(100))),
        event(2, 300, EventKind::CalibratedIntrinsics),
        event(3, 400, EventKind::CalibratedIntrinsics),
        event(4, 500, EventKind::SolveDiagnostics(Time::from_nanos(450))),
        event(5, 600, EventKind::FieldMarkAssociations(Time::from_nanos(550))),
        event(6, 700, EventKind::GlobalLocalizationDebug { present: true }),
        event(7, 800, EventKind::RobotKinematics(Time::from_nanos(750))),
        event(8, 900, EventKind::RecordedLocalization { localized: false }),
    ];
    let index = SnapshotIndex::new(&events);
    let time = |nanos: i128| WallTime { nanos };
    let order = |found: Option<RecordedEvent>| found.map(|event| event.order);

    assert_eq!(order(index.nearest_camera_matrix(&events, time(200))), Some(1));
    assert_eq!(order(index.nearest_camera_matrix(&events, time(201))), Some(0));
    assert_eq!(order(index.latest_calibrated_intrinsics(&events, time(299))), None);
    assert_eq!(order(index.latest_calibrated_intrinsics(&events, time(399))), Some(2));
    assert_eq!(order(index.latest_calibrated_intrinsics(&events, time(400))), Some(3));
    assert_eq!(order(index.latest_solve_diagnostics(&events, time(449))), None);
    assert_eq!(order(index.latest_solve_diagnostics(&events, time(450))), Some(4));
    assert_eq!(order(index.nearest_field_mark_associations(&events, time(0))), Some(5));
    assert_eq!(order(index.nearest_global_localization_debug(&events, time(0))), Some(6));
    assert_eq!(order(index.nearest_robot_kinematics(&events, time(0))), Some(7));
    assert_eq!(order(index.latest_recorded_localization(&events, time(900))), Some(8));
    assert_eq!(order(index.nearest_detected_objects(&events, time(900))), None);
    let far = time(100_000_751);
    assert_eq!(order(index.nearest_robot_kinematics(&events, far)), None);
}

#[test]
fn unique_associations_push_out_the_others() {
    let unique = AssociationKind::GlobalUnique;
    let hint = AssociationKind::PoseHint;

    assert_eq!(localization_visual_associations(&[hint, unique, hint, unique], 1), vec![1, 3]);
    assert_eq!(localization_visual_associations(&[hint, hint, hint], 3), vec![0, 1, 2]);
    assert_eq!(localization_visual_associations(&[hint, hint], 3), Vec::<usize>::new());
    assert_eq!(localization_visual_associations(&[], 0), Vec::<usize>::new());
}

#[test]
fn associations_are_counted_by_their_kind() {
    let unique = AssociationKind::GlobalUnique;
    let hint = AssociationKind::PoseHint;

    let mut stats = ReplayStats::default();
    record_ingested_association_stats(&mut stats, &[unique, unique]);
    assert_eq!(
        stats,
        ReplayStats {
            global_unique_frames_ingested: 1,
            global_unique_associations_ingested: 2,
            ..ReplayStats::default()
        }
    );
    record_ingested_association_stats(&mut stats, &[hint, unique, hint, hint]);
    assert_eq!(
        stats,
        ReplayStats {
            global_unique_frames_ingested: 2,
            global_unique_associations_ingested: 3,
            pose_hint_frames_ingested: 1,
            pose_hint_associations_ingested: 3,
            ..ReplayStats::default()
        }
    );
    let before = stats;
    record_ingested_association_stats(&mut stats, &[]);
    assert_eq!(stats, before);
}
