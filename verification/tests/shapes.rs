use point_collision::{Collider, ColliderError, Point};

fn pt(x: i64, y: i64) -> Point {
    Point { x, y }
}

fn contains(c: &Collider, x: i64, y: i64) -> bool {
    let mut i = 0;
    while i < c.point_count() {
        let p = c.point_at(i);
        if p.x == x && p.y == y {
            return true;
        }
        i += 1;
    }
    false
}

#[test]
fn disk_unit_quarter_step() {
    let c = Collider::new_round_collider(1, pt(0, 0), 90).unwrap();
    // five sampled angles (0, 90, 180, 270, 360), two radial steps each
    assert_eq!(c.point_count(), 10);
    // the center appears for every sampled angle (radial step 0)
    assert!(contains(&c, 0, 0));
    // the rotated unit spoke tips at each sampled angle
    assert!(contains(&c, 0, 1));
    assert!(contains(&c, -1, 0));
    assert!(contains(&c, 0, -1));
    assert!(contains(&c, 1, 0));
    // and nothing outside the disk
    assert!(!contains(&c, 5, 5));
    assert!(!contains(&c, 1, 1));
}

#[test]
fn disk_negative_radius_is_empty() {
    let c = Collider::new_round_collider(-1, pt(0, 0), 90).unwrap();
    assert_eq!(c.point_count(), 0);
}

#[test]
fn disk_step_not_dividing_360_truncates() {
    // 360 / 100 truncates to 3, so angles 0, 100, 200, 300 are sampled
    let c = Collider::new_round_collider(1, pt(0, 0), 100).unwrap();
    assert_eq!(c.point_count(), 8);
}

#[test]
fn disk_rejects_non_positive_step() {
    assert!(matches!(
        Collider::new_round_collider(1, pt(0, 0), 0),
        Err(ColliderError::NonPositiveAngularStep)
    ));
    assert!(matches!(
        Collider::new_round_collider(1, pt(0, 0), -90),
        Err(ColliderError::NonPositiveAngularStep)
    ));
}

#[test]
fn disk_points_stay_within_radius() {
    let c = Collider::new_round_collider(3, pt(10, -20), 45).unwrap();
    let mut i = 0;
    while i < c.point_count() {
        let p = c.point_at(i);
        assert!(10 - 3 <= p.x && p.x <= 10 + 3);
        assert!(-20 - 3 <= p.y && p.y <= -20 + 3);
        i += 1;
    }
}

#[test]
fn cuboid_stacks_disk_slices() {
    // slice count (2*4)/(2*1) = 4, slices at (0,0), (0,4), (0,8), (0,12)
    let c = Collider::new_cuboid_collider(1, 4, pt(0, 0), 0).unwrap();
    assert_eq!(c.point_count(), 40);
    assert!(contains(&c, 0, 0));
    assert!(contains(&c, 0, 4));
    assert!(contains(&c, 0, 13));
    assert!(contains(&c, 1, 8));
    assert!(!contains(&c, 0, 2));
}

#[test]
fn cuboid_rejects_zero_half_extent() {
    assert!(matches!(
        Collider::new_cuboid_collider(0, 4, pt(0, 0), 0),
        Err(ColliderError::ZeroHalfExtentX)
    ));
}

#[test]
fn cuboid_flat_degenerates_to_no_slices() {
    // slice count (2*1)/(2*3) truncates to 0: the known approximation weakness
    let c = Collider::new_cuboid_collider(3, 1, pt(0, 0), 0).unwrap();
    assert_eq!(c.point_count(), 0);
}

#[test]
fn disks_apart_do_not_collide_and_rebuilt_do() {
    let a = Collider::new_round_collider(1, pt(0, 0), 90).unwrap();
    let b = Collider::new_round_collider(1, pt(10, 10), 90).unwrap();
    assert!(!a.clone().check_collider_collision(b));
    let b2 = Collider::new_round_collider(1, pt(0, 0), 90).unwrap();
    assert!(a.check_collider_collision(b2));
}

#[test]
fn collision_is_symmetric() {
    let a = Collider::new_round_collider(2, pt(0, 0), 90).unwrap();
    let b = Collider::new_round_collider(1, pt(2, 0), 90).unwrap();
    let c = Collider::new_round_collider(1, pt(9, 9), 90).unwrap();
    assert_eq!(
        a.clone().check_collider_collision(b.clone()),
        b.clone().check_collider_collision(a.clone())
    );
    assert_eq!(
        a.clone().check_collider_collision(c.clone()),
        c.clone().check_collider_collision(a.clone())
    );
}

#[test]
fn non_empty_shape_collides_with_itself() {
    let a = Collider::new_round_collider(1, pt(-3, 7), 120).unwrap();
    assert!(a.clone().check_collider_collision(a));
}

#[test]
fn empty_shapes_do_not_collide() {
    let a = Collider::new_round_collider(-1, pt(0, 0), 90).unwrap();
    let b = Collider::new_round_collider(-1, pt(0, 0), 90).unwrap();
    assert!(!a.check_collider_collision(b));
}

#[test]
fn merge_concatenates_and_distributes_over_collision() {
    let a = Collider::new_round_collider(1, pt(0, 0), 90).unwrap();
    let b = Collider::new_round_collider(1, pt(10, 10), 90).unwrap();
    let merged = a.clone().combine_colliders(b.clone());
    assert_eq!(merged.point_count(), a.point_count() + b.point_count());

    // c meets only b, so it meets the merged shape
    let c = Collider::new_round_collider(1, pt(10, 11), 90).unwrap();
    assert!(!a.clone().check_collider_collision(c.clone()));
    assert!(b.clone().check_collider_collision(c.clone()));
    assert!(merged.clone().check_collider_collision(c));

    // d meets neither part, so it does not meet the merged shape
    let d = Collider::new_round_collider(1, pt(-20, -20), 90).unwrap();
    assert!(!merged.clone().check_collider_collision(d));

    // merging a shape with itself preserves duplicates
    let doubled = a.clone().combine_colliders(a.clone());
    assert_eq!(doubled.point_count(), 2 * a.point_count());
}

#[test]
fn move_collider_shifts_every_point() {
    let mut c = Collider::new_round_collider(1, pt(0, 0), 90).unwrap();
    Collider::move_collider(&mut c, pt(10, 20), pt(0, 0));
    assert!(contains(&c, 10, 20));
    assert!(contains(&c, 9, 20));
    assert!(!contains(&c, 0, 0));
    assert_eq!(c.point_count(), 10);
}

#[test]
fn move_collider_roundtrip_restores_points() {
    let original = Collider::new_round_collider(2, pt(3, -4), 45).unwrap();
    let mut moved = original.clone();
    Collider::move_collider(&mut moved, pt(17, 5), pt(3, -4));
    assert!(!moved.same_points(&original));
    Collider::move_collider(&mut moved, pt(3, -4), pt(17, 5));
    assert!(moved.same_points(&original));
}

#[test]
fn same_points_compares_sequences_exactly() {
    let a = Collider::new_round_collider(1, pt(0, 0), 90).unwrap();
    let b = Collider::new_round_collider(1, pt(0, 0), 90).unwrap();
    let c = Collider::new_round_collider(2, pt(0, 0), 90).unwrap();
    assert!(a.same_points(&b));
    assert!(!a.same_points(&c));
    assert!(a.same_points(&a.clone()));
}
