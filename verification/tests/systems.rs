use point_collision::{event_trigger, Collider, OldColliderPosition, Point, TrackerError};

fn at(x: i64, y: i64) -> Point {
    Point { x, y }
}

fn has_point(c: &Collider, x: i64, y: i64) -> bool {
    let mut i = 0;
    while i < c.point_count() {
        let p = c.point_at(i);
        if p.x == x && p.y == y {
            return true;
        }
        i += 1;
    }
    false
}

#[test]
fn tracker_moves_shapes_by_frame_delta() {
    let mut tracker = OldColliderPosition::default();
    tracker.innit_auto_move(&vec![at(0, 0), at(5, 5)]);
    assert_eq!(tracker.tracked_count(), 2);

    let mut colliders = vec![
        Collider::new_round_collider(1, at(0, 0), 90).unwrap(),
        Collider::new_round_collider(1, at(5, 5), 90).unwrap(),
    ];

    // the first owner moved to (3, 4); the second stayed put
    let outcome = tracker.auto_move(&mut colliders, &vec![at(3, 4), at(5, 5)]);
    assert!(outcome.is_ok());
    assert!(has_point(&colliders[0], 3, 4));
    assert!(has_point(&colliders[0], 2, 4));
    assert!(!has_point(&colliders[0], 0, 0));
    assert!(has_point(&colliders[1], 5, 5));

    // a second frame with unchanged positions moves nothing
    let again = tracker.auto_move(&mut colliders, &vec![at(3, 4), at(5, 5)]);
    assert!(again.is_ok());
    assert!(has_point(&colliders[0], 3, 4));
    assert!(has_point(&colliders[1], 5, 5));
}

#[test]
fn tracker_rejects_changed_tracked_set() {
    let mut tracker = OldColliderPosition::default();
    tracker.innit_auto_move(&vec![at(0, 0), at(5, 5)]);

    // the host collection dropped to one tracked shape
    let mut colliders = vec![Collider::new_round_collider(1, at(0, 0), 90).unwrap()];
    let outcome = tracker.auto_move(&mut colliders, &vec![at(3, 4)]);
    assert!(matches!(outcome, Err(TrackerError::SizeMismatch)));

    // nothing moved and nothing was recorded
    assert!(has_point(&colliders[0], 0, 0));
    assert!(!has_point(&colliders[0], 3, 4));
    assert_eq!(tracker.tracked_count(), 2);
}

#[test]
fn scan_reports_each_colliding_pair_twice() {
    let a = Collider::new_round_collider(1, at(0, 0), 90).unwrap();
    let b = Collider::new_round_collider(1, at(10, 10), 90).unwrap();
    let c = Collider::new_round_collider(2, at(0, 0), 90).unwrap();
    let colliders = vec![a.clone(), b.clone(), c.clone()];

    let reports = event_trigger(&colliders);
    // a and c overlap and differ as sequences; b is far from both
    assert_eq!(reports.len(), 2);
    assert_eq!(reports[0].0, 0);
    assert!(reports[0].1.collider1().same_points(&a));
    assert!(reports[0].1.collider2().same_points(&c));
    assert_eq!(reports[1].0, 2);
    assert!(reports[1].1.collider1().same_points(&c));
    assert!(reports[1].1.collider2().same_points(&a));
}

#[test]
fn scan_skips_identical_sequences() {
    // two different entities with identical point sequences are skipped
    let a = Collider::new_round_collider(1, at(0, 0), 90).unwrap();
    let twin = Collider::new_round_collider(1, at(0, 0), 90).unwrap();
    let reports = event_trigger(&vec![a, twin]);
    assert_eq!(reports.len(), 0);
}

#[test]
fn scan_of_disjoint_shapes_reports_nothing() {
    let a = Collider::new_round_collider(1, at(0, 0), 90).unwrap();
    let b = Collider::new_round_collider(1, at(10, 10), 90).unwrap();
    let reports = event_trigger(&vec![a, b]);
    assert_eq!(reports.len(), 0);
}
