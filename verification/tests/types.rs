use sort_it_now::types::validation;
use sort_it_now::types::{BoundingBox, CenterOfMassCalculator, Vec3, EPSILON_GENERAL};

fn fx(v: f64) -> i64 {
    (v * 1_000_000.0).round() as i64
}

fn vec3(x: f64, y: f64, z: f64) -> Vec3 {
    Vec3::new(fx(x), fx(y), fx(z))
}

#[test]
fn test_vec3_operations() {
    let a = vec3(1.0, 2.0, 3.0);
    let b = vec3(4.0, 5.0, 6.0);

    assert_eq!(a + b, vec3(5.0, 7.0, 9.0));
    assert_eq!(b - a, vec3(3.0, 3.0, 3.0));
    assert_eq!(a * fx(2.0), vec3(2.0, 4.0, 6.0));
}

#[test]
fn test_vec3_volume_and_area() {
    let dims = vec3(10.0, 20.0, 30.0);
    assert_eq!(dims.volume(), 6000 * 10i128.pow(18));
    assert_eq!(dims.base_area(), 200 * 10i128.pow(12));
}

#[test]
fn test_vec3_fits_within() {
    let small = vec3(5.0, 5.0, 5.0);
    let large = vec3(10.0, 10.0, 10.0);

    assert!(small.fits_within(&large, EPSILON_GENERAL));
    assert!(!large.fits_within(&small, EPSILON_GENERAL));
}

#[test]
fn test_bounding_box_intersects() {
    let a = BoundingBox::from_position_and_dims(Vec3::zero(), vec3(10.0, 10.0, 10.0));
    let b = BoundingBox::from_position_and_dims(vec3(5.0, 5.0, 5.0), vec3(10.0, 10.0, 10.0));
    let c = BoundingBox::from_position_and_dims(vec3(20.0, 20.0, 20.0), vec3(10.0, 10.0, 10.0));

    assert!(a.intersects(&b));
    assert!(!a.intersects(&c));
}

#[test]
fn test_bounding_box_overlap_area() {
    let a = BoundingBox::from_position_and_dims(Vec3::zero(), vec3(10.0, 10.0, 10.0));
    let b = BoundingBox::from_position_and_dims(vec3(5.0, 5.0, 0.0), vec3(10.0, 10.0, 10.0));

    let overlap = a.overlap_area_xy(&b);
    assert_eq!(overlap, 25 * 10i128.pow(12)); // 5x5 overlap
}

#[test]
fn test_center_of_mass_calculator() {
    let mut calc = CenterOfMassCalculator::new();
    calc.add_point(fx(0.0), fx(0.0), fx(10.0));
    calc.add_point(fx(10.0), fx(0.0), fx(10.0));

    let center = calc.compute().unwrap();
    assert_eq!(center.0, fx(5.0));
    assert_eq!(center.1, fx(0.0));
}

#[test]
fn test_validation_dimension() {
    assert!(validation::validate_dimension(fx(10.0), "Width").is_ok());
    assert!(validation::validate_dimension(fx(0.0), "Width").is_err());
    assert!(validation::validate_dimension(fx(-1.0), "Width").is_err());
    assert!(validation::validate_dimension(i64::MIN, "Width").is_err());
    assert!(validation::validate_dimension(i64::MAX, "Width").is_err());
}

#[test]
fn test_validation_weight() {
    assert!(validation::validate_weight(fx(10.0)).is_ok());
    assert!(validation::validate_weight(fx(0.0)).is_err());
    assert!(validation::validate_weight(fx(-1.0)).is_err());
}

#[test]
fn validation_messages_name_the_quantity_and_the_value() {
    assert_eq!(
        validation::validate_dimension(fx(-1.5), "Width").unwrap_err(),
        "Width must be positive, got: -1.5"
    );
    assert_eq!(
        validation::validate_dimension(0, "Depth").unwrap_err(),
        "Depth must be positive, got: 0"
    );
    assert_eq!(
        validation::validate_weight(1_000_000_000_001).unwrap_err(),
        "Weight must not be beyond the supported range, got: 1000000.000001"
    );
    assert_eq!(
        validation::validate_dimensions_3d((fx(1.0), fx(-2.0), fx(-3.0))).unwrap_err(),
        "Depth must be positive, got: -2"
    );
    assert!(validation::validate_dimensions_3d((1, 100_000_000_000, 5)).is_ok());
    assert!(validation::validate_dimensions_3d((1, 100_000_000_001, 5)).is_err());
}

#[test]
fn vec3_distances_center_and_tuples() {
    let a = vec3(0.0, 0.0, 0.0);
    let b = vec3(3.0, 4.0, 12.0);
    assert_eq!(a.distance_to(&b), fx(13.0));
    assert_eq!(a.distance_2d(&b), fx(5.0));
    assert_eq!(b.center(), vec3(1.5, 2.0, 6.0));
    assert_eq!(Vec3::new(-3, 3, -1).center(), Vec3::new(-1, 1, 0));
    assert_eq!(b.as_tuple(), (fx(3.0), fx(4.0), fx(12.0)));
    assert_eq!(Vec3::from_tuple((1, 2, 3)), Vec3::new(1, 2, 3));
    assert_eq!(Vec3::from((1, 2, 3)), Vec3::new(1, 2, 3));
    assert!(b.is_valid_dimension());
    assert!(!a.is_valid_dimension());
    assert_eq!(Vec3::new(-5, 7, 9) * fx(0.5), Vec3::new(-2, 3, 4));
}

#[test]
fn bounding_box_points_and_sides() {
    let b = BoundingBox::new(vec3(1.0, 1.0, 1.0), vec3(3.0, 5.0, 7.0));
    assert!(b.contains_point(&vec3(1.0, 1.0, 1.0)));
    assert!(b.contains_point(&vec3(3.0, 5.0, 7.0)));
    assert!(!b.contains_point(&vec3(3.0, 5.0, 7.1)));
    assert_eq!(b.top_z(), fx(7.0));
    assert_eq!(b.center(), vec3(2.0, 3.0, 4.0));
    assert_eq!(b.dimensions(), vec3(2.0, 4.0, 6.0));
}

#[test]
fn center_of_mass_calculator_without_weight() {
    let calc = CenterOfMassCalculator::new();
    assert!(calc.compute().is_none());
    assert_eq!(calc.distance_to((fx(5.0), fx(5.0))), 0);
    let mut calc = CenterOfMassCalculator::default();
    calc.add_point(fx(3.0), fx(4.0), fx(2.0));
    assert_eq!(calc.distance_to((0, 0)), fx(5.0));
}
