use localization_mcap_visualizer::detections::{
    first_image_index_at_or_after_embedded_time, index_detected_objects_by_image,
    index_detected_objects_image_times, nearest_image_index_by_embedded_time,
    SNAPSHOT_MAX_TIME_DISTANCE,
};
use localization_mcap_visualizer::event::{
    DetectedObjectsFrame, EventKind, FieldMarkAssociationTiming, RecordedEvent, StereoImageIndex,
};
use localization_mcap_visualizer::matching::index_detected_objects_sources_from_field_mark_associations;
use localization_mcap_visualizer::snapshot::SnapshotIndex;
use localization_mcap_visualizer::time::{system_time_from_nanos, Time, WallTime};
use std::collections::BTreeMap;

const SECOND: i128 = 1_000_000_000;

fn test_image(order: usize, embedded_nanos: i64) -> StereoImageIndex {
    let time = system_time_from_nanos(embedded_nanos as u64);
    StereoImageIndex {
        order,
        log_time: time,
        publish_time: time,
        embedded_time: Time::from_nanos(embedded_nanos),
    }
}

fn test_detected_objects_event(sequence: i64, image_time: Option<Time>) -> RecordedEvent {
    RecordedEvent {
        order: sequence as usize,
        log_time: system_time_from_nanos(sequence as u64),
        publish_time: system_time_from_nanos(sequence as u64),
        kind: EventKind::DetectedObjects(DetectedObjectsFrame {
            image_time,
            publish_time: system_time_from_nanos(sequence as u64),
            announcement_log_time: None,
            sequence_number: sequence,
        }),
    }
}

fn test_detected_objects_event_at(sequence: i64, log_nanos: i64) -> RecordedEvent {
    RecordedEvent {
        order: sequence as usize,
        log_time: system_time_from_nanos(log_nanos as u64),
        publish_time: system_time_from_nanos(log_nanos as u64),
        kind: EventKind::DetectedObjects(DetectedObjectsFrame {
            image_time: None,
            publish_time: system_time_from_nanos(log_nanos as u64),
            announcement_log_time: None,
            sequence_number: sequence,
        }),
    }
}

fn test_field_mark_association_at(
    embedded_nanos: i64,
    log_nanos: i64,
) -> FieldMarkAssociationTiming {
    FieldMarkAssociationTiming {
        order: embedded_nanos as usize,
        log_time: system_time_from_nanos(log_nanos as u64),
        source_time: Time::from_nanos(embedded_nanos),
    }
}

#[test]
fn detected_objects_display_time_prefers_announced_image_time() {
    let publish_time = WallTime { nanos: 10 * SECOND };
    let image_time = Time::from_wallclock(WallTime { nanos: 12 * SECOND });
    let frame = DetectedObjectsFrame {
        image_time: Some(image_time),
        publish_time,
        announcement_log_time: None,
        sequence_number: 7,
    };

    assert_eq!(frame.display_time(), image_time.to_wallclock());
}

#[test]
fn detected_objects_without_image_time_are_shown_when_published() {
    let frame = DetectedObjectsFrame {
        image_time: None,
        publish_time: WallTime { nanos: 10 * SECOND },
        announcement_log_time: None,
        sequence_number: 7,
    };

    assert_eq!(frame.display_time(), WallTime { nanos: 10 * SECOND });
}

#[test]
fn snapshot_index_rejects_stale_detected_objects() {
    let image_time = WallTime { nanos: 10 * SECOND };
    let frame = DetectedObjectsFrame {
        image_time: Some(Time::from_wallclock(image_time)),
        publish_time: image_time,
        announcement_log_time: None,
        sequence_number: 1,
    };
    let events = vec![RecordedEvent {
        order: 0,
        log_time: image_time,
        publish_time: image_time,
        kind: EventKind::DetectedObjects(frame),
    }];
    let index = SnapshotIndex::new(&events);
    let distance = SNAPSHOT_MAX_TIME_DISTANCE as i128;

    assert!(index
        .nearest_detected_objects(&events, WallTime { nanos: image_time.nanos + distance / 2 })
        .is_some());
    assert!(index
        .nearest_detected_objects(
            &events,
            WallTime { nanos: image_time.nanos + distance + 1_000_000 },
        )
        .is_none());
}

#[test]
fn detection_index_uses_announced_image_time() {
    let images = vec![test_image(0, 10), test_image(1, 20), test_image(2, 30)];
    let images_by_embedded_time = vec![0, 1, 2];
    let events = vec![test_detected_objects_event(7, Some(Time::from_nanos(20)))];

    let index = index_detected_objects_by_image(
        &events,
        &images,
        &images_by_embedded_time,
        &BTreeMap::new(),
    );

    assert_eq!(index, vec![None, Some(0), None]);
}

#[test]
fn detection_index_uses_following_image_when_previous_is_closer() {
    let images = vec![test_image(0, 90_000_000), test_image(1, 120_000_000)];
    let images_by_embedded_time = vec![0, 1];
    let events = vec![test_detected_objects_event(
        7,
        Some(Time::from_nanos(100_000_000)),
    )];

    let index = index_detected_objects_by_image(
        &events,
        &images,
        &images_by_embedded_time,
        &BTreeMap::new(),
    );

    assert_eq!(index, vec![None, Some(0)]);
}

#[test]
fn detection_index_rejects_stale_following_image() {
    let images = vec![test_image(0, 90_000_000), test_image(1, 250_000_001)];
    let images_by_embedded_time = vec![0, 1];
    let events = vec![test_detected_objects_event(
        7,
        Some(Time::from_nanos(100_000_000)),
    )];

    let index = index_detected_objects_by_image(
        &events,
        &images,
        &images_by_embedded_time,
        &BTreeMap::new(),
    );

    assert_eq!(index, vec![None, None]);
}

#[test]
fn detection_index_uses_stream_order_without_timing_sources() {
    let images = vec![test_image(0, 10), test_image(1, 20)];
    let images_by_embedded_time = vec![0, 1];
    let events = vec![
        test_detected_objects_event(0, None),
        test_detected_objects_event(1, None),
    ];

    let index = index_detected_objects_by_image(
        &events,
        &images,
        &images_by_embedded_time,
        &BTreeMap::new(),
    );

    assert_eq!(index, vec![Some(0), Some(1)]);
}

#[test]
fn detection_index_skips_unmapped_detections_when_timing_sources_exist() {
    let images = vec![test_image(0, 10), test_image(1, 20)];
    let images_by_embedded_time = vec![0, 1];
    let events = vec![
        test_detected_objects_event(1, None),
        test_detected_objects_event(2, None),
    ];
    let announcements = BTreeMap::from([(2, (Time::from_nanos(20), WallTime::epoch()))]);

    let index = index_detected_objects_by_image(
        &events,
        &images,
        &images_by_embedded_time,
        &announcements,
    );

    assert_eq!(index, vec![None, Some(1)]);
}

#[test]
fn detection_index_uses_field_mark_association_time_without_announcements() {
    let images = vec![test_image(0, 10), test_image(1, 20), test_image(2, 30)];
    let images_by_embedded_time = vec![0, 1, 2];
    let events = vec![test_detected_objects_event_at(42, 19)];
    let field_mark_associations = vec![test_field_mark_association_at(20, 21)];
    let detected_objects_image_sources =
        index_detected_objects_sources_from_field_mark_associations(
            &events,
            &field_mark_associations,
        );

    let index = index_detected_objects_by_image(
        &events,
        &images,
        &images_by_embedded_time,
        &detected_objects_image_sources,
    );

    assert_eq!(
        detected_objects_image_sources.get(&42),
        Some(&(Time::from_nanos(20), system_time_from_nanos(21)))
    );
    assert_eq!(index, vec![None, Some(0), None]);
}

#[test]
fn field_mark_association_time_matches_nearest_pending_detection() {
    let events = vec![
        test_detected_objects_event_at(10, 10),
        test_detected_objects_event_at(20, 20),
    ];
    let field_mark_associations = vec![test_field_mark_association_at(20, 21)];

    let sources = index_detected_objects_sources_from_field_mark_associations(
        &events,
        &field_mark_associations,
    );

    assert_eq!(
        sources.get(&20),
        Some(&(Time::from_nanos(20), system_time_from_nanos(21)))
    );
    assert!(!sources.contains_key(&10));
}

#[test]
fn associations_give_each_detection_one_source() {
    let events = vec![
        test_detected_objects_event_at(10, 10),
        test_detected_objects_event_at(20, 20),
    ];
    let associations = vec![
        test_field_mark_association_at(11, 12),
        test_field_mark_association_at(21, 22),
    ];

    let sources =
        index_detected_objects_sources_from_field_mark_associations(&events, &associations);

    assert_eq!(sources.len(), 2);
    assert_eq!(sources.get(&10), Some(&(Time::from_nanos(11), system_time_from_nanos(12))));
    assert_eq!(sources.get(&20), Some(&(Time::from_nanos(21), system_time_from_nanos(22))));
}

#[test]
fn the_nearest_image_is_found_and_the_earlier_one_of_two() {
    let images = vec![test_image(0, 10), test_image(1, 20), test_image(2, 31)];
    let by_time = vec![0, 1, 2];

    assert_eq!(
        nearest_image_index_by_embedded_time(&images, &by_time, Time::from_nanos(15)),
        Some(0)
    );
    assert_eq!(
        nearest_image_index_by_embedded_time(&images, &by_time, Time::from_nanos(16)),
        Some(1)
    );
    assert_eq!(
        nearest_image_index_by_embedded_time(&images, &by_time, Time::from_nanos(100_000_031)),
        Some(2)
    );
    assert_eq!(
        nearest_image_index_by_embedded_time(&images, &by_time, Time::from_nanos(100_000_032)),
        None
    );
    assert_eq!(nearest_image_index_by_embedded_time(&[], &[], Time::from_nanos(1)), None);
}

#[test]
fn the_following_image_may_be_at_the_time_itself() {
    let images = vec![test_image(0, 30), test_image(1, 20)];
    let by_time = vec![1, 0];

    assert_eq!(
        first_image_index_at_or_after_embedded_time(&images, &by_time, Time::from_nanos(20)),
        Some(1)
    );
    assert_eq!(
        first_image_index_at_or_after_embedded_time(&images, &by_time, Time::from_nanos(21)),
        Some(0)
    );
    assert_eq!(
        first_image_index_at_or_after_embedded_time(&images, &by_time, Time::from_nanos(31)),
        None
    );
}

#[test]
fn later_detections_take_the_place_of_earlier_ones() {
    let images = vec![test_image(0, 10)];
    let events = vec![
        test_detected_objects_event(3, Some(Time::from_nanos(9))),
        test_detected_objects_event(4, Some(Time::from_nanos(10))),
    ];

    let index = index_detected_objects_by_image(&events, &images, &[0], &BTreeMap::new());

    assert_eq!(index, vec![Some(1)]);
}

#[test]
fn image_times_of_sourced_detections_are_publish_times_of_images() {
    let mut image = test_image(0, 20);
    image.publish_time = system_time_from_nanos(77);
    let sources = BTreeMap::from([(5, (Time::from_nanos(22), system_time_from_nanos(30)))]);

    let times = index_detected_objects_image_times(&[image], &[0], &sources);

    assert_eq!(times, BTreeMap::from([(5, system_time_from_nanos(77))]));
}
