use sort_it_now::model::{
    utilization_of, Box3D, Container, ContainerBlueprint, PlacedBox, ValidationError,
};
use sort_it_now::types::{Dimensional, Positioned, Weighted};

fn fx(v: f64) -> i64 {
    (v * 1_000_000.0).round() as i64
}

fn fx3(v: (f64, f64, f64)) -> (i64, i64, i64) {
    (fx(v.0), fx(v.1), fx(v.2))
}

#[test]
fn box_new_accepts_valid_and_refuses_invalid_values() {
    let box_ok = Box3D::new(1, fx3((10.0, 20.0, 30.0)), fx(5.0));
    assert!(box_ok.is_ok());

    let box_invalid = Box3D::new(1, fx3((-10.0, 20.0, 30.0)), fx(5.0));
    assert!(box_invalid.is_err());
}

#[test]
fn box_new_names_the_first_refused_quantity() {
    match Box3D::new(1, fx3((-10.0, 0.0, 30.0)), fx(-5.0)) {
        Err(ValidationError::InvalidDimension(msg)) => {
            assert_eq!(msg, "Width must be positive, got: -10")
        }
        other => panic!("unexpected {:?}", other),
    }
    match Box3D::new(1, fx3((10.0, 0.0, 30.0)), fx(-5.0)) {
        Err(ValidationError::InvalidDimension(msg)) => {
            assert_eq!(msg, "Depth must be positive, got: 0")
        }
        other => panic!("unexpected {:?}", other),
    }
    match Box3D::new(1, (fx(10.0), fx(1.0), 100_000_000_001), fx(-5.0)) {
        Err(ValidationError::InvalidDimension(msg)) => {
            assert_eq!(msg, "Height must not be beyond the supported range, got: 100000.000001")
        }
        other => panic!("unexpected {:?}", other),
    }
    match Box3D::new(1, fx3((10.0, 1.0, 30.0)), fx(-5.25)) {
        Err(ValidationError::InvalidWeight(msg)) => {
            assert_eq!(msg, "Weight must be positive, got: -5.25")
        }
        other => panic!("unexpected {:?}", other),
    }
}

#[test]
fn validation_error_text() {
    assert_eq!(
        ValidationError::InvalidDimension("x".to_string()).to_text(),
        "Invalid dimension: x"
    );
    assert_eq!(ValidationError::InvalidWeight("y".to_string()).to_text(), "Invalid weight: y");
    assert_eq!(
        ValidationError::InvalidConfiguration("z".to_string()).to_text(),
        "Invalid configuration: z"
    );
}

#[test]
fn box_volume_and_area_are_exact_products() {
    let b = Box3D::new(1, fx3((10.0, 20.0, 30.0)), fx(5.0)).unwrap();
    assert_eq!(b.volume(), 6000 * 10i128.pow(18));
    assert_eq!(b.base_area(), 200 * 10i128.pow(12));
    assert_eq!(Dimensional::volume(&b), 6000 * 10i128.pow(18));
    assert_eq!(b.weight(), fx(5.0));
    assert_eq!(b.dims_as_vec3().as_tuple(), fx3((10.0, 20.0, 30.0)));
}

#[test]
fn placed_box_top_center_and_bounding_box() {
    let b = Box3D::new(1, fx3((10.0, 20.0, 30.0)), fx(5.0)).unwrap();
    let p = PlacedBox::new(b, fx3((1.0, 2.0, 3.0)));
    assert_eq!(p.top_z(), fx(33.0));
    assert_eq!(p.center(), fx3((6.0, 12.0, 18.0)));
    assert_eq!(p.center_vec3().as_tuple(), fx3((6.0, 12.0, 18.0)));
    assert_eq!(p.position_vec3().as_tuple(), fx3((1.0, 2.0, 3.0)));
    assert_eq!(p.position().as_tuple(), fx3((1.0, 2.0, 3.0)));
    let bounds = p.bounding_box();
    assert_eq!(bounds.min.as_tuple(), fx3((1.0, 2.0, 3.0)));
    assert_eq!(bounds.max.as_tuple(), fx3((11.0, 22.0, 33.0)));
}

#[test]
fn container_weights_volumes_and_fit() {
    let mut c = Container::new(fx3((10.0, 10.0, 10.0)), fx(20.0)).unwrap();
    assert_eq!(c.total_weight(), 0);
    assert_eq!(c.remaining_weight(), fx(20.0));
    assert_eq!(c.utilization_percent(), 0);
    let b = Box3D::new(1, fx3((5.0, 10.0, 10.0)), fx(15.0)).unwrap();
    assert!(c.can_fit(&b));
    c.placed.push(PlacedBox::new(b, (0, 0, 0)));
    assert_eq!(c.total_weight(), fx(15.0));
    assert_eq!(c.remaining_weight(), fx(5.0));
    assert_eq!(c.used_volume(), 500 * 10i128.pow(18));
    assert_eq!(c.total_volume(), 1000 * 10i128.pow(18));
    assert_eq!(c.utilization_percent(), fx(50.0));
    assert_eq!(c.center_xy(), (fx(5.0), fx(5.0)));

    let light = Box3D::new(2, fx3((5.0, 10.0, 10.0)), fx(5.0) + 1).unwrap();
    assert!(c.can_fit(&light));
    let heavy = Box3D::new(3, fx3((5.0, 10.0, 10.0)), fx(5.0) + 2).unwrap();
    assert!(!c.can_fit(&heavy));
    let long = Box3D::new(4, (fx(10.0) + 2, fx(1.0), fx(1.0)), fx(1.0)).unwrap();
    assert!(!c.can_fit(&long));

    let empty = c.empty_like();
    assert!(empty.placed.is_empty());
    assert_eq!(empty.dims, c.dims);
    let named = empty.with_meta(7, Some("crate".to_string()));
    assert_eq!(named.template_id, Some(7));
    assert_eq!(named.label.as_deref(), Some("crate"));
}

#[test]
fn container_new_refuses_invalid_values() {
    assert!(Container::new(fx3((10.0, 10.0, 0.0)), fx(20.0)).is_err());
    match Container::new(fx3((10.0, 10.0, 10.0)), 0) {
        Err(ValidationError::InvalidWeight(msg)) => {
            assert_eq!(msg, "Weight must be positive, got: 0")
        }
        other => panic!("unexpected {:?}", other),
    }
    match Container::new(fx3((0.0, 10.0, 10.0)), 0) {
        Err(ValidationError::InvalidDimension(msg)) => {
            assert_eq!(msg, "Container width must be positive, got: 0")
        }
        other => panic!("unexpected {:?}", other),
    }
}

#[test]
fn blueprint_instantiates_and_judges_fit() {
    let t =
        ContainerBlueprint::new(3, Some("Large".to_string()), fx3((40.0, 40.0, 40.0)), fx(100.0))
            .unwrap();
    assert_eq!(t.volume(), 64000 * 10i128.pow(18));
    let c = t.instantiate();
    assert_eq!(c.dims, t.dims);
    assert_eq!(c.max_weight, t.max_weight);
    assert_eq!(c.template_id, Some(3));
    assert_eq!(c.label.as_deref(), Some("Large"));
    assert!(c.placed.is_empty());
    let fits = Box3D::new(1, fx3((40.0, 40.0, 40.0)), fx(100.0)).unwrap();
    assert!(t.can_fit(&fits));
    let heavy = Box3D::new(1, fx3((40.0, 40.0, 40.0)), fx(100.0) + 2).unwrap();
    assert!(!t.can_fit(&heavy));
    assert!(ContainerBlueprint::new(0, None, fx3((40.0, -1.0, 40.0)), fx(100.0)).is_err());
    assert_eq!(t.dimensions().as_tuple(), t.dims);
}

#[test]
fn utilization_is_rounded_down_and_capped() {
    assert_eq!(utilization_of(1, 3), 33_333_333);
    assert_eq!(utilization_of(2, 3), 66_666_666);
    assert_eq!(utilization_of(3, 3), 100_000_000);
    assert_eq!(utilization_of(5, 3), 100_000_000);
    assert_eq!(utilization_of(0, 7), 0);
    let total = 10i128.pow(33);
    assert_eq!(utilization_of(total - 1, total), 99_999_999);
}
