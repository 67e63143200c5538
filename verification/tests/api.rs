use sort_it_now::api::{
    locate_asset, pack_request, request_config, validation_response, ContainerRequest, ErrorResponse, PackRequest,
    PackRequestValidationError, PackResponse,
};
use sort_it_now::model::Box3D;
use sort_it_now::optimizer::{pack_objects_with_config, PackingConfig};

fn fx(v: f64) -> i64 {
    (v * 1_000_000.0).round() as i64
}

fn fx3(v: (f64, f64, f64)) -> (i64, i64, i64) {
    (fx(v.0), fx(v.1), fx(v.2))
}

#[test]
fn validated_request_preserves_allow_rotations_value() {
    let request = PackRequest {
        containers: vec![ContainerRequest {
            name: Some("Test".to_string()),
            dims: fx3((10.0, 10.0, 10.0)),
            max_weight: fx(100.0),
        }],
        objects: vec![Box3D { id: 1, dims: fx3((5.0, 5.0, 5.0)), weight: fx(10.0) }],
        allow_rotations: Some(true),
    };

    let validated = request.into_validated().expect("Should validate successfully");
    assert_eq!(
        validated.allow_rotations,
        Some(true),
        "Validated request should preserve allow_rotations value"
    );
    assert_eq!(validated.container_count(), 1);
    assert_eq!(validated.object_count(), 1);
    let (objects, containers, allow) = validated.into_parts();
    assert_eq!(objects.len(), 1);
    assert_eq!(containers[0].id, 0);
    assert_eq!(containers[0].label.as_deref(), Some("Test"));
    assert_eq!(allow, Some(true));
}

#[test]
fn requests_are_refused_for_the_first_fault() {
    let request = PackRequest { containers: Vec::new(), objects: Vec::new(), allow_rotations: None };
    let error = request.into_validated().unwrap_err();
    assert!(matches!(error, PackRequestValidationError::MissingContainers));
    let response = validation_response(&error);
    assert_eq!(response.error, "Invalid input data");
    assert_eq!(response.details, "At least one packaging type must be specified");

    let request = PackRequest {
        containers: vec![
            ContainerRequest { name: None, dims: fx3((10.0, 10.0, 10.0)), max_weight: fx(1.0) },
            ContainerRequest { name: None, dims: fx3((10.0, 0.0, 10.0)), max_weight: fx(1.0) },
        ],
        objects: vec![Box3D { id: 1, dims: fx3((5.0, 5.0, 5.0)), weight: fx(-10.0) }],
        allow_rotations: None,
    };
    let error = request.into_validated().unwrap_err();
    let response = validation_response(&error);
    assert_eq!(response.error, "Invalid container configuration");
    assert_eq!(response.details, "Invalid dimension: Container depth must be positive, got: 0");

    let request = PackRequest {
        containers: vec![ContainerRequest {
            name: None,
            dims: fx3((10.0, 10.0, 10.0)),
            max_weight: fx(1.0),
        }],
        objects: vec![
            Box3D { id: 1, dims: fx3((5.0, 5.0, 5.0)), weight: fx(10.0) },
            Box3D { id: 2, dims: fx3((5.0, 5.0, 5.0)), weight: fx(-10.0) },
        ],
        allow_rotations: None,
    };
    let error = request.into_validated().unwrap_err();
    let response = validation_response(&error);
    assert_eq!(response.error, "Invalid input data");
    assert_eq!(response.details, "Invalid weight: Weight must be positive, got: -10");
}

#[test]
fn too_many_objects_are_refused() {
    let request = PackRequest {
        containers: vec![ContainerRequest {
            name: None,
            dims: fx3((10.0, 10.0, 10.0)),
            max_weight: fx(1.0),
        }],
        objects: vec![Box3D { id: 1, dims: fx3((5.0, 5.0, 5.0)), weight: fx(10.0) }; 100_001],
        allow_rotations: None,
    };
    assert!(matches!(
        request.into_validated().unwrap_err(),
        PackRequestValidationError::TooManyObjects
    ));
}

#[test]
fn response_reports_containers_and_unplaced_items() {
    let request = PackRequest {
        containers: vec![ContainerRequest {
            name: Some("Box".to_string()),
            dims: fx3((10.0, 10.0, 30.0)),
            max_weight: fx(100.0),
        }],
        objects: vec![
            Box3D { id: 1, dims: fx3((10.0, 10.0, 10.0)), weight: fx(10.0) },
            Box3D { id: 2, dims: fx3((10.0, 10.0, 10.0)), weight: fx(4.0) },
            Box3D { id: 3, dims: fx3((50.0, 10.0, 10.0)), weight: fx(4.0) },
        ],
        allow_rotations: None,
    };
    let (objects, templates, allow) = request.into_validated().unwrap().into_parts();
    let config = request_config(PackingConfig::default(), allow);
    let result = pack_objects_with_config(objects, templates, config);
    let response = PackResponse::from_packing_result(result);
    assert_eq!(response.results.len(), 1);
    let first = &response.results[0];
    assert_eq!(first.id, 1);
    assert_eq!(first.template_id, Some(0));
    assert_eq!(first.label.as_deref(), Some("Box"));
    assert_eq!(first.dims, fx3((10.0, 10.0, 30.0)));
    assert_eq!(first.max_weight, fx(100.0));
    assert_eq!(first.total_weight, fx(14.0));
    assert_eq!(first.placed.len(), 2);
    assert_eq!(first.placed[0].id, 1);
    assert_eq!(first.placed[0].pos, (0, 0, 0));
    assert_eq!(first.placed[1].id, 2);
    assert_eq!(first.placed[1].pos, (0, 0, fx(10.0)));
    assert_eq!(first.diagnostics.support_samples.len(), 2);
    assert_eq!(response.unplaced.len(), 1);
    assert_eq!(response.unplaced[0].id, 3);
    assert_eq!(response.unplaced[0].reason_code, "dimensions_exceed_container");
    assert_eq!(
        response.unplaced[0].reason,
        "Object does not fit in the container in at least one dimension"
    );
    assert!(!response.is_complete);
    assert_eq!(response.diagnostics_summary.worst_support_percent, fx(100.0));
}

#[test]
fn error_response_holds_description_and_details() {
    let response = ErrorResponse::new("Invalid JSON data", "expected value");
    assert_eq!(response.error, "Invalid JSON data");
    assert_eq!(response.details, "expected value");
}

#[test]
fn request_config_overrides_rotation_only() {
    let config = PackingConfig::default();
    assert!(request_config(config, Some(true)).allow_item_rotation);
    assert!(!request_config(config, Some(false)).allow_item_rotation);
    assert!(!request_config(config, None).allow_item_rotation);
    assert_eq!(request_config(config, Some(true)).grid_step, config.grid_step);
}

#[test]
fn assets_are_located_below_the_web_directory() {
    let asset = locate_asset("/index.html");
    assert_eq!(asset.path, "index.html");
    assert_eq!(asset.content_type, "text/html");
    let asset = locate_asset("//css/site.css");
    assert_eq!(asset.path, "css/site.css");
    assert_eq!(asset.content_type, "text/css");
    let asset = locate_asset("/data.unknown-extension");
    assert_eq!(asset.content_type, "application/octet-stream");
    let asset = locate_asset("");
    assert_eq!(asset.path, "");
    assert_eq!(asset.content_type, "application/octet-stream");
}

#[test]
fn requests_are_answered_or_refused() {
    let request = PackRequest {
        containers: vec![ContainerRequest {
            name: None,
            dims: fx3((20.0, 20.0, 20.0)),
            max_weight: fx(100.0),
        }],
        objects: vec![Box3D { id: 4, dims: fx3((20.0, 10.0, 5.0)), weight: fx(10.0) }],
        allow_rotations: Some(true),
    };
    let response = pack_request(request, PackingConfig::default()).unwrap();
    assert!(response.is_complete);
    assert_eq!(response.results.len(), 1);
    assert_eq!(response.results[0].placed[0].id, 4);
    assert_eq!(response.results[0].placed[0].pos, (0, 0, 0));
    assert_eq!(response.results[0].total_weight, fx(10.0));

    let request = PackRequest { containers: Vec::new(), objects: Vec::new(), allow_rotations: None };
    assert!(matches!(
        pack_request(request, PackingConfig::default()),
        Err(PackRequestValidationError::MissingContainers)
    ));
}
