use compound_shape::{
    local_point_cloud_aabb, point_cloud_aabb, Aabb, ConvexPolygon, Isometry, PlacedPoint, Point,
    Rotation,
};

fn bb(x0: i64, y0: i64, x1: i64, y1: i64) -> Aabb {
    Aabb::new(PlacedPoint::new(x0, y0), PlacedPoint::new(x1, y1))
}

fn pts(coords: &[(i32, i32)]) -> Vec<Point> {
    coords.iter().map(|c| Point::new(c.0, c.1)).collect()
}

#[test]
fn empty_point_cloud_gives_the_invalid_box() {
    let none: Vec<Point> = Vec::new();
    assert_eq!(local_point_cloud_aabb(&none), Aabb::new_invalid());
    assert_eq!(point_cloud_aabb(&Isometry::identity(), &none), Aabb::new_invalid());
    assert_eq!(
        point_cloud_aabb(&Isometry::new(Point::new(4, 4), Rotation::Half), &none),
        Aabb::new_invalid()
    );
    assert!(!local_point_cloud_aabb(&none).is_valid());
}

#[test]
fn single_point_cloud_gives_a_box_of_one_point() {
    let one = pts(&[(7, -2)]);
    assert_eq!(local_point_cloud_aabb(&one), bb(7, -2, 7, -2));
    assert_eq!(point_cloud_aabb(&Isometry::translation(1, 1), &one), bb(8, -1, 8, -1));
}

#[test]
fn local_point_cloud_aabb_is_tight() {
    let cloud = pts(&[(0, 0), (4, 1), (5, 6), (-2, 3), (1, -7)]);
    assert_eq!(local_point_cloud_aabb(&cloud), bb(-2, -7, 5, 6));
}

#[test]
fn point_cloud_aabb_places_every_point() {
    let cloud = pts(&[(0, 0), (4, 1), (5, 6), (-2, 3), (1, -7)]);
    let t = Point::new(100, -50);
    assert_eq!(
        point_cloud_aabb(&Isometry::new(t, Rotation::Identity), &cloud),
        bb(98, -57, 105, -44)
    );
    assert_eq!(
        point_cloud_aabb(&Isometry::new(t, Rotation::Quarter), &cloud),
        bb(94, -52, 107, -45)
    );
    assert_eq!(
        point_cloud_aabb(&Isometry::new(t, Rotation::Half), &cloud),
        bb(95, -56, 102, -43)
    );
    assert_eq!(
        point_cloud_aabb(&Isometry::new(t, Rotation::ThreeQuarters), &cloud),
        bb(93, -55, 106, -48)
    );
}

#[test]
fn point_cloud_aabb_under_identity_is_the_local_bound() {
    let clouds = [
        pts(&[(0, 0)]),
        pts(&[(0, 0), (1, 0), (1, 1), (0, 1)]),
        pts(&[(-9, 4), (3, 3), (2, -8)]),
        pts(&[(i32::MIN, i32::MAX), (i32::MAX, i32::MIN)]),
        pts(&[]),
    ];
    for cloud in clouds.iter() {
        assert_eq!(
            point_cloud_aabb(&Isometry::identity(), cloud),
            local_point_cloud_aabb(cloud)
        );
    }
}

#[test]
fn point_cloud_aabb_contains_every_placed_point() {
    let cloud = pts(&[(3, 9), (-4, 2), (8, -1), (0, 0)]);
    let pos = Isometry::new(Point::new(-7, 12), Rotation::Quarter);
    let bound = point_cloud_aabb(&pos, &cloud);
    for p in cloud.iter() {
        assert!(bound.contains_point(&pos.transform_point(p)));
    }
    assert!(bound.is_valid());
}

#[test]
fn point_cloud_aabb_at_the_ends_of_the_range() {
    let cloud = pts(&[(i32::MIN, i32::MIN), (i32::MAX, i32::MAX)]);
    assert_eq!(
        local_point_cloud_aabb(&cloud),
        bb(-2147483648, -2147483648, 2147483647, 2147483647)
    );
    let far = Isometry::new(Point::new(i32::MAX, i32::MAX), Rotation::Half);
    assert_eq!(point_cloud_aabb(&far, &cloud), bb(0, 0, 4294967295, 4294967295));
    let near = Isometry::new(Point::new(i32::MIN, i32::MIN), Rotation::Identity);
    assert_eq!(point_cloud_aabb(&near, &cloud), bb(-4294967296, -4294967296, -1, -1));
}

#[test]
fn convex_polygon_keeps_its_vertices() {
    let square = pts(&[(0, 0), (2, 0), (2, 2), (0, 2)]);
    let poly = ConvexPolygon::from_convex_polyline(square.clone());
    assert_eq!(poly.points(), &square[..]);
}

#[test]
fn convex_polygon_local_aabb_is_the_bound_of_its_vertices() {
    let poly = ConvexPolygon::from_convex_polyline(pts(&[(0, 0), (4, 0), (5, 3), (2, 5), (-1, 3)]));
    assert_eq!(poly.local_aabb(), bb(-1, 0, 5, 5));
    assert_eq!(poly.local_aabb(), local_point_cloud_aabb(poly.points()));
}

#[test]
fn convex_polygon_aabb_follows_the_placement() {
    let poly = ConvexPolygon::from_convex_polyline(pts(&[(0, 0), (4, 0), (5, 3), (2, 5), (-1, 3)]));
    assert_eq!(poly.aabb(&Isometry::identity()), poly.local_aabb());
    assert_eq!(poly.aabb(&Isometry::translation(10, 20)), bb(9, 20, 15, 25));
    let turned = Isometry::new(Point::new(10, 20), Rotation::Quarter);
    assert_eq!(poly.aabb(&turned), bb(5, 19, 10, 25));
    assert_eq!(poly.aabb(&turned), point_cloud_aabb(&turned, poly.points()));
}

#[test]
fn convex_polygon_without_vertices_has_no_bound() {
    let poly = ConvexPolygon::from_convex_polyline(Vec::new());
    assert_eq!(poly.local_aabb(), Aabb::new_invalid());
    assert_eq!(poly.aabb(&Isometry::translation(1, 2)), Aabb::new_invalid());
}
