use sort_it_now::geometry::{
    bounding_boxes_intersect, center_of_mass_xy, distance_2d, intersects, overlap_1d,
    overlap_area_xy, point_inside, point_inside_bounds, rests_on, support_area,
};
use sort_it_now::model::{Box3D, PlacedBox};
use sort_it_now::types::Vec3;

fn fx(v: f64) -> i64 {
    (v * 1_000_000.0).round() as i64
}

fn fx3(v: (f64, f64, f64)) -> (i64, i64, i64) {
    (fx(v.0), fx(v.1), fx(v.2))
}

fn make_placed_box(id: usize, pos: (f64, f64, f64), dims: (f64, f64, f64)) -> PlacedBox {
    PlacedBox {
        object: Box3D { id, dims: fx3(dims), weight: fx(1.0) },
        position: fx3(pos),
    }
}

#[test]
fn test_intersects_overlapping_boxes() {
    let a = make_placed_box(1, (0.0, 0.0, 0.0), (10.0, 10.0, 10.0));
    let b = make_placed_box(2, (5.0, 5.0, 5.0), (10.0, 10.0, 10.0));
    assert!(intersects(&a, &b));
}

#[test]
fn test_intersects_separated_boxes() {
    let a = make_placed_box(1, (0.0, 0.0, 0.0), (10.0, 10.0, 10.0));
    let b = make_placed_box(2, (20.0, 0.0, 0.0), (10.0, 10.0, 10.0));
    assert!(!intersects(&a, &b));
}

#[test]
fn test_overlap_1d() {
    assert_eq!(overlap_1d(fx(0.0), fx(5.0), fx(3.0), fx(8.0)), fx(2.0));
    assert_eq!(overlap_1d(fx(0.0), fx(3.0), fx(5.0), fx(8.0)), fx(0.0));
    assert_eq!(overlap_1d(fx(0.0), fx(10.0), fx(2.0), fx(8.0)), fx(6.0));
}

#[test]
fn test_point_inside() {
    let box_ = make_placed_box(1, (0.0, 0.0, 0.0), (10.0, 10.0, 10.0));
    assert!(point_inside(fx3((5.0, 5.0, 5.0)), &box_));
    assert!(!point_inside(fx3((15.0, 5.0, 5.0)), &box_));
}

#[test]
fn test_rests_on() {
    let lower = make_placed_box(1, (0.0, 0.0, 0.0), (10.0, 10.0, 10.0));
    let upper = make_placed_box(2, (0.0, 0.0, 10.0), (10.0, 10.0, 10.0));
    let separate = make_placed_box(3, (20.0, 0.0, 10.0), (10.0, 10.0, 10.0));

    assert!(rests_on(&upper, &lower, fx(1e-3)));
    assert!(!rests_on(&separate, &lower, fx(1e-3)));
}

#[test]
fn test_center_of_mass_xy() {
    let points = vec![fx3((0.0, 0.0, 10.0)), fx3((10.0, 0.0, 10.0))];
    let center = center_of_mass_xy(&points).unwrap();
    assert_eq!(center.0, fx(5.0));
    assert_eq!(center.1, fx(0.0));
}

#[test]
fn test_distance_2d() {
    assert_eq!(distance_2d((fx(0.0), fx(0.0)), (fx(3.0), fx(4.0))), fx(5.0));
}

#[test]
fn intersects_is_false_for_touching_boxes() {
    let a = make_placed_box(1, (0.0, 0.0, 0.0), (10.0, 10.0, 10.0));
    let b = make_placed_box(2, (10.0, 0.0, 0.0), (10.0, 10.0, 10.0));
    let c = make_placed_box(3, (0.0, 0.0, 10.0), (10.0, 10.0, 10.0));
    assert!(!intersects(&a, &b));
    assert!(!intersects(&b, &a));
    assert!(!intersects(&a, &c));
}

#[test]
fn point_inside_includes_the_faces() {
    let box_ = make_placed_box(1, (1.0, 1.0, 1.0), (2.0, 2.0, 2.0));
    assert!(point_inside(fx3((1.0, 1.0, 1.0)), &box_));
    assert!(point_inside(fx3((3.0, 3.0, 3.0)), &box_));
    assert!(!point_inside((fx(3.0) + 1, fx(3.0), fx(3.0)), &box_));
}

#[test]
fn center_of_mass_of_weightless_points_is_none() {
    let points = vec![(fx(1.0), fx(2.0), 0), (fx(3.0), fx(4.0), 0)];
    assert!(center_of_mass_xy(&points).is_none());
    assert!(center_of_mass_xy(&Vec::new()).is_none());
}

#[test]
fn distance_is_rounded_down() {
    assert_eq!(distance_2d((0, 0), (1, 1)), 1);
    assert_eq!(distance_2d((0, 0), (2, 2)), 2);
    assert_eq!(distance_2d((fx(1.0), fx(1.0)), (0, 0)), 1_414_213);
}

#[test]
fn overlap_and_support_areas() {
    let lower = make_placed_box(1, (0.0, 0.0, 0.0), (10.0, 10.0, 10.0));
    let upper = make_placed_box(2, (5.0, 6.0, 10.0), (10.0, 10.0, 10.0));
    let apart = make_placed_box(3, (5.0, 6.0, 12.0), (10.0, 10.0, 10.0));
    assert_eq!(overlap_area_xy(&upper, &lower), 20 * 10i128.pow(12));
    assert_eq!(overlap_area_xy(&lower, &upper), 20 * 10i128.pow(12));
    assert_eq!(support_area(&upper, &lower, fx(0.001)), 20 * 10i128.pow(12));
    assert_eq!(support_area(&apart, &lower, fx(0.001)), 0);
    assert_eq!(support_area(&apart, &lower, fx(2.0)), 20 * 10i128.pow(12));
    assert!(rests_on(&apart, &lower, fx(2.0)));
    let edge = make_placed_box(4, (10.0, 0.0, 10.0), (10.0, 10.0, 10.0));
    assert!(!rests_on(&edge, &lower, fx(0.001)));
    assert_eq!(support_area(&edge, &lower, fx(0.001)), 0);
}

#[test]
fn bounding_boxes_and_points() {
    let a = make_placed_box(1, (0.0, 0.0, 0.0), (10.0, 10.0, 10.0)).bounding_box();
    let b = make_placed_box(2, (9.0, 9.0, 9.0), (10.0, 10.0, 10.0)).bounding_box();
    let c = make_placed_box(3, (10.0, 0.0, 0.0), (10.0, 10.0, 10.0)).bounding_box();
    assert!(bounding_boxes_intersect(&a, &b));
    assert!(!bounding_boxes_intersect(&a, &c));
    assert!(point_inside_bounds(&Vec3::new(fx(10.0), 0, 0), &a));
    assert!(!point_inside_bounds(&Vec3::new(fx(10.0) + 1, 0, 0), &a));
}
