use compound_shape::{Aabb, Isometry, PlacedPoint, Point, Rotation};

fn bb(x0: i64, y0: i64, x1: i64, y1: i64) -> Aabb {
    Aabb::new(PlacedPoint::new(x0, y0), PlacedPoint::new(x1, y1))
}

#[test]
fn invalid_box_has_extreme_corners_and_is_not_valid() {
    let inv = Aabb::new_invalid();
    assert_eq!(inv.mins, PlacedPoint { x: i64::MAX, y: i64::MAX });
    assert_eq!(inv.maxs, PlacedPoint { x: i64::MIN, y: i64::MIN });
    assert!(!inv.is_valid());
}

#[test]
fn validity_needs_both_axes() {
    assert!(bb(0, 0, 0, 0).is_valid());
    assert!(bb(-3, -4, 5, 6).is_valid());
    assert!(!bb(1, 0, 0, 5).is_valid());
    assert!(!bb(0, 1, 5, 0).is_valid());
}

#[test]
fn merge_takes_min_of_lowers_and_max_of_uppers() {
    let mut a = bb(0, 0, 2, 2);
    a.merge(&bb(-1, 1, 1, 5));
    assert_eq!(a, bb(-1, 0, 2, 5));
    assert_eq!(bb(0, 0, 2, 2).merged(&bb(-1, 1, 1, 5)), bb(-1, 0, 2, 5));
}

#[test]
fn merge_with_invalid_is_identity() {
    let boxes = [bb(0, 0, 1, 1), bb(-7, 3, 9, 4), bb(5, 5, 5, 5), bb(i64::MIN, 0, i64::MAX, 1)];
    for x in boxes.iter() {
        assert_eq!(Aabb::new_invalid().merged(x), *x);
        assert_eq!(x.merged(&Aabb::new_invalid()), *x);
        let mut acc = Aabb::new_invalid();
        acc.merge(x);
        assert_eq!(acc, *x);
    }
    assert_eq!(Aabb::new_invalid().merged(&Aabb::new_invalid()), Aabb::new_invalid());
}

#[test]
fn merge_is_commutative_and_associative() {
    let a = bb(0, 0, 1, 1);
    let b = bb(-5, 2, -3, 8);
    let c = bb(4, -9, 6, -2);
    assert_eq!(a.merged(&b), b.merged(&a));
    assert_eq!(a.merged(&b).merged(&c), a.merged(&b.merged(&c)));
    assert_eq!(a.merged(&b).merged(&c), bb(-5, -9, 6, 8));
}

#[test]
fn merged_box_contains_both_operands() {
    let a = bb(0, 0, 1, 1);
    let b = bb(10, -2, 11, 0);
    let m = a.merged(&b);
    assert!(m.contains(&a));
    assert!(m.contains(&b));
    assert!(!a.contains(&m));
    assert!(a.contains(&a));
}

#[test]
fn touching_boxes_intersect() {
    let a = bb(0, 0, 1, 1);
    assert!(a.intersects(&bb(1, 0, 2, 1)));
    assert!(a.intersects(&bb(1, 1, 2, 2)));
    assert!(a.intersects(&bb(0, -1, 1, 0)));
    assert!(bb(1, 1, 2, 2).intersects(&a));
}

#[test]
fn separated_boxes_do_not_intersect() {
    let a = bb(0, 0, 1, 1);
    assert!(!a.intersects(&bb(2, 0, 3, 1)));
    assert!(!a.intersects(&bb(0, 2, 1, 3)));
    assert!(!a.intersects(&bb(-3, -3, -1, -1)));
    assert!(!a.intersects(&Aabb::new_invalid()));
    assert!(!Aabb::new_invalid().intersects(&a));
}

#[test]
fn overlapping_and_nested_boxes_intersect() {
    let a = bb(0, 0, 10, 10);
    assert!(a.intersects(&bb(5, 5, 15, 15)));
    assert!(a.intersects(&bb(2, 2, 3, 3)));
    assert!(bb(2, 2, 3, 3).intersects(&a));
    assert!(a.intersects(&a));
}

#[test]
fn contains_point_includes_the_faces() {
    let a = bb(0, 0, 2, 3);
    assert!(a.contains_point(&PlacedPoint::new(0, 0)));
    assert!(a.contains_point(&PlacedPoint::new(2, 3)));
    assert!(a.contains_point(&PlacedPoint::new(1, 2)));
    assert!(!a.contains_point(&PlacedPoint::new(3, 3)));
    assert!(!a.contains_point(&PlacedPoint::new(1, -1)));
    assert!(!Aabb::new_invalid().contains_point(&PlacedPoint::new(0, 0)));
}

#[test]
fn from_point_is_a_valid_box_of_one_point() {
    let p = PlacedPoint::new(-4, 9);
    let b = Aabb::from_point(p);
    assert_eq!(b, bb(-4, 9, -4, 9));
    assert!(b.is_valid());
}

#[test]
fn transform_point_rotates_then_translates() {
    let p = Point::new(3, 1);
    let t = Point::new(10, 20);
    assert_eq!(
        Isometry::new(t, Rotation::Identity).transform_point(&p),
        PlacedPoint::new(13, 21)
    );
    assert_eq!(
        Isometry::new(t, Rotation::Quarter).transform_point(&p),
        PlacedPoint::new(9, 23)
    );
    assert_eq!(Isometry::new(t, Rotation::Half).transform_point(&p), PlacedPoint::new(7, 19));
    assert_eq!(
        Isometry::new(t, Rotation::ThreeQuarters).transform_point(&p),
        PlacedPoint::new(11, 17)
    );
}

#[test]
fn identity_and_translation_placements() {
    let p = Point::new(-8, 5);
    assert_eq!(Isometry::identity().transform_point(&p), PlacedPoint::new(-8, 5));
    assert_eq!(Isometry::identity(), Isometry::new(Point::new(0, 0), Rotation::Identity));
    assert_eq!(Isometry::translation(3, -2).transform_point(&p), PlacedPoint::new(-5, 3));
    assert_eq!(Isometry::translation(3, -2).rotation, Rotation::Identity);
    assert_eq!(Isometry::translation(3, -2).translation, Point::new(3, -2));
}

#[test]
fn transform_point_at_the_ends_of_the_range() {
    let lo = Point::new(i32::MIN, i32::MIN);
    let far = Isometry::new(Point::new(i32::MAX, i32::MAX), Rotation::Half);
    assert_eq!(far.transform_point(&lo), PlacedPoint::new(4294967295, 4294967295));
    let near = Isometry::new(Point::new(i32::MIN, i32::MIN), Rotation::Identity);
    assert_eq!(near.transform_point(&lo), PlacedPoint::new(-4294967296, -4294967296));
    let q = Isometry::new(Point::new(i32::MAX, i32::MIN), Rotation::Quarter);
    assert_eq!(q.transform_point(&lo), PlacedPoint::new(4294967295, -4294967296));
}

#[test]
fn transform_by_maps_a_box_onto_its_image() {
    let b = bb(1, 2, 4, 3);
    let t = Point::new(10, 100);
    assert_eq!(b.transform_by(&Isometry::new(t, Rotation::Identity)), bb(11, 102, 14, 103));
    assert_eq!(b.transform_by(&Isometry::new(t, Rotation::Quarter)), bb(7, 101, 8, 104));
    assert_eq!(b.transform_by(&Isometry::new(t, Rotation::Half)), bb(6, 97, 9, 98));
    assert_eq!(b.transform_by(&Isometry::new(t, Rotation::ThreeQuarters)), bb(12, 96, 13, 99));
}

#[test]
fn transform_by_keeps_a_box_without_volume_invalid() {
    let pos = Isometry::new(Point::new(5, 5), Rotation::Quarter);
    assert_eq!(Aabb::new_invalid().transform_by(&pos), Aabb::new_invalid());
    assert_eq!(bb(3, 0, 1, 5).transform_by(&pos), Aabb::new_invalid());
}

#[test]
fn transform_by_agrees_with_placing_the_corners() {
    let b = bb(-3, -1, 2, 7);
    let corners = [Point::new(-3, -1), Point::new(2, -1), Point::new(2, 7), Point::new(-3, 7)];
    for rotation in
        [Rotation::Identity, Rotation::Quarter, Rotation::Half, Rotation::ThreeQuarters]
    {
        let pos = Isometry::new(Point::new(-6, 11), rotation);
        let mut expected = Aabb::new_invalid();
        for c in corners.iter() {
            expected.merge(&Aabb::from_point(pos.transform_point(c)));
        }
        assert_eq!(b.transform_by(&pos), expected);
    }
}

#[test]
fn transform_by_far_from_the_origin() {
    let whole = bb(i64::MIN, i64::MIN, i64::MAX, i64::MAX);
    assert_eq!(whole.transform_by(&Isometry::identity()), whole);
    let far = bb(i64::MAX - 10, i64::MIN + 1, i64::MAX - 5, i64::MIN + 3);
    assert_eq!(
        far.transform_by(&Isometry::translation(5, -1)),
        bb(i64::MAX - 5, i64::MIN, i64::MAX, i64::MIN + 2)
    );
    assert_eq!(
        far.transform_by(&Isometry::new(Point::new(-1, 0), Rotation::Half)),
        bb(i64::MIN + 5, i64::MAX - 2, i64::MIN + 10, i64::MAX)
    );
    let edge = bb(i64::MIN, 0, i64::MIN, 0);
    assert_eq!(
        edge.transform_by(&Isometry::new(Point::new(-1, 0), Rotation::Half)),
        bb(i64::MAX, 0, i64::MAX, 0)
    );
}
