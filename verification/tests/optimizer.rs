use sort_it_now::geometry::{intersects, overlap_1d};
use sort_it_now::model::{Box3D, Container, ContainerBlueprint, PlacedBox};
use sort_it_now::optimizer::{
    compute_container_diagnostics, find_stable_position, orientations_for, pack_objects,
    pack_objects_with_config, pack_objects_with_events, pack_objects_with_progress,
    summarize_diagnostics, FootprintClusterStrategy, PackEvent, PackingConfig, ProgressSink,
    UnplacedReason,
};

fn fx(v: f64) -> i64 {
    (v * 1_000_000.0).round() as i64
}

fn fx3(v: (f64, f64, f64)) -> (i64, i64, i64) {
    (fx(v.0), fx(v.1), fx(v.2))
}

fn item(id: usize, dims: (f64, f64, f64), weight: f64) -> Box3D {
    Box3D { id, dims: fx3(dims), weight: fx(weight) }
}

fn single_blueprint(dims: (f64, f64, f64), max_weight: f64) -> Vec<ContainerBlueprint> {
    vec![ContainerBlueprint::new(0, None, fx3(dims), fx(max_weight)).unwrap()]
}

fn assert_heavy_below(cont: &Container, config: &PackingConfig) {
    for lower in &cont.placed {
        let lower_top = lower.position.2 + lower.object.dims.2;

        for upper in &cont.placed {
            if std::ptr::eq(lower, upper) {
                continue;
            }

            let upper_bottom = upper.position.2;
            if upper_bottom + config.height_epsilon < lower_top - config.height_epsilon {
                continue;
            }

            let overlap_x = overlap_1d(
                lower.position.0,
                lower.position.0 + lower.object.dims.0,
                upper.position.0,
                upper.position.0 + upper.object.dims.0,
            );
            let overlap_y = overlap_1d(
                lower.position.1,
                lower.position.1 + lower.object.dims.1,
                upper.position.1,
                upper.position.1 + upper.object.dims.1,
            );

            if overlap_x <= config.general_epsilon || overlap_y <= config.general_epsilon {
                continue;
            }

            assert!(
                lower.object.weight + config.general_epsilon >= upper.object.weight,
                "Object {} ({}) under object {} ({}) violates weight sorting",
                lower.object.id,
                lower.object.weight,
                upper.object.id,
                upper.object.weight
            );
        }
    }
}

#[test]
fn heavy_boxes_stay_below_lighter() {
    let objects = vec![item(1, (10.0, 10.0, 10.0), 10.0), item(2, (10.0, 10.0, 10.0), 4.0)];

    let result = pack_objects(objects, single_blueprint((10.0, 10.0, 30.0), 100.0));
    assert!(result.unplaced.is_empty());
    assert_eq!(result.containers.len(), 1);

    let placements = &result.containers[0].placed;
    assert_eq!(placements.len(), 2);

    let config = PackingConfig::default();
    let bottom_weight = placements
        .iter()
        .filter(|p| (p.position.2 - 0).abs() < config.height_epsilon)
        .map(|p| p.object.weight)
        .sum::<i64>();
    let top_weight = placements
        .iter()
        .filter(|p| p.position.2 > config.height_epsilon)
        .map(|p| p.object.weight)
        .sum::<i64>();

    assert!(bottom_weight >= top_weight);
    assert_eq!(bottom_weight, fx(10.0));
    assert_eq!(top_weight, fx(4.0));
    assert_eq!(placements[0].object.id, 1);
    assert_eq!(placements[0].position, (0, 0, 0));
    assert_eq!(placements[1].object.id, 2);
    assert_eq!(placements[1].position, (0, 0, fx(10.0)));
}

#[test]
fn single_box_snaps_to_corner() {
    let config = PackingConfig::default();

    let objects = vec![item(1, (10.0, 10.0, 10.0), 10.0)];

    let result = pack_objects(objects, single_blueprint((20.0, 20.0, 20.0), 100.0));
    assert!(result.unplaced.is_empty());
    let placement = &result.containers[0].placed[0];

    assert!(placement.position.0 <= config.grid_step + config.general_epsilon);
    assert!(placement.position.1 <= config.grid_step + config.general_epsilon);
    assert!((placement.position.2 - 0).abs() < config.general_epsilon * 10);
}

#[test]
fn creates_additional_containers_when_weight_exceeded() {
    let objects = vec![
        item(1, (10.0, 10.0, 10.0), 300.0),
        item(2, (10.0, 10.0, 10.0), 300.0),
        item(3, (10.0, 10.0, 10.0), 300.0),
    ];

    let result = pack_objects(objects, single_blueprint((20.0, 20.0, 20.0), 400.0));
    assert_eq!(result.containers.len(), 3);
    assert!(result.unplaced.is_empty());
    for cont in &result.containers {
        assert_eq!(cont.placed.len(), 1);
    }
}

#[test]
fn reports_objects_too_large_for_container() {
    let objects = vec![item(1, (12.0, 9.0, 8.0), 5.0)];

    let result = pack_objects(objects, single_blueprint((10.0, 10.0, 10.0), 100.0));
    assert!(result.containers.is_empty());
    assert_eq!(result.unplaced.len(), 1);
    assert_eq!(result.unplaced[0].object.id, 1);
    assert!(matches!(result.unplaced[0].reason, UnplacedReason::DimensionsExceedContainer));
}

#[test]
fn reports_objects_too_heavy_for_container() {
    let objects = vec![item(1, (5.0, 5.0, 5.0), 25.0)];

    let result = pack_objects(objects, single_blueprint((10.0, 10.0, 10.0), 10.0));
    assert!(result.containers.is_empty());
    assert_eq!(result.unplaced.len(), 1);
    assert!(matches!(result.unplaced[0].reason, UnplacedReason::TooHeavyForContainer));
}

#[test]
fn selects_matching_container_type() {
    let templates = vec![
        ContainerBlueprint::new(0, Some("Small".to_string()), fx3((12.0, 12.0, 12.0)), fx(30.0))
            .unwrap(),
        ContainerBlueprint::new(1, Some("Large".to_string()), fx3((40.0, 40.0, 40.0)), fx(100.0))
            .unwrap(),
    ];

    let objects = vec![
        item(1, (30.0, 30.0, 20.0), 90.0),
        item(2, (10.0, 10.0, 10.0), 15.0),
        item(3, (8.0, 8.0, 8.0), 10.0),
    ];

    let result = pack_objects(objects, templates);
    assert_eq!(result.container_count(), 2);
    let mut dims: Vec<_> = result.containers.iter().map(|c| c.dims).collect();
    dims.sort();
    assert_eq!(dims[0], fx3((12.0, 12.0, 12.0)));
    assert_eq!(dims[1], fx3((40.0, 40.0, 40.0)));
}

#[test]
fn rejects_when_no_template_fits_dimensions() {
    let templates = vec![
        ContainerBlueprint::new(0, None, fx3((10.0, 10.0, 10.0)), fx(100.0)).unwrap(),
        ContainerBlueprint::new(1, None, fx3((12.0, 12.0, 12.0)), fx(120.0)).unwrap(),
    ];

    let objects = vec![item(1, (15.0, 12.0, 12.0), 20.0)];

    let result = pack_objects(objects, templates);
    assert!(result.containers.is_empty());
    assert_eq!(result.unplaced.len(), 1);
    assert!(matches!(result.unplaced[0].reason, UnplacedReason::DimensionsExceedContainer));
}

#[test]
fn reject_heavier_on_light_support() {
    let config = PackingConfig::default();
    let mut container = Container::new(fx3((10.0, 10.0, 30.0)), fx(100.0)).unwrap();

    container.placed.push(PlacedBox {
        object: item(1, (10.0, 10.0, 10.0), 5.0),
        position: fx3((0.0, 0.0, 0.0)),
    });

    let heavy_box = item(2, (10.0, 10.0, 10.0), 9.0);

    assert!(find_stable_position(&heavy_box, &container, &config).is_none());
}

#[test]
fn rotation_toggle_controls_reorientation() {
    let object = item(1, (80.0, 40.0, 60.0), 10.0);
    let templates = single_blueprint((60.0, 80.0, 40.0), 100.0);

    let mut config = PackingConfig::default();
    config.allow_item_rotation = false;
    let result_without_rotation =
        pack_objects_with_config(vec![object.clone()], templates.clone(), config);
    assert_eq!(result_without_rotation.unplaced.len(), 1);
    assert!(matches!(
        result_without_rotation.unplaced[0].reason,
        UnplacedReason::DimensionsExceedContainer
    ));

    config.allow_item_rotation = true;
    let result_with_rotation = pack_objects_with_config(vec![object], templates, config);
    assert!(result_with_rotation.unplaced.is_empty());
    assert_eq!(result_with_rotation.containers.len(), 1);
    let placed_dims = result_with_rotation.containers[0].placed[0].object.dims;
    assert_eq!(placed_dims, fx3((60.0, 80.0, 40.0)));
}

#[test]
fn orientation_deduplication_handles_equal_dimensions() {
    let cube = item(1, (50.0, 50.0, 50.0), 10.0);
    let cube_orientations = orientations_for(&cube, true);
    assert_eq!(
        cube_orientations.len(),
        1,
        "Cube should produce only 1 unique orientation, got {}",
        cube_orientations.len()
    );
    assert_eq!(cube_orientations[0].dims, fx3((50.0, 50.0, 50.0)));

    let rect_prism = item(2, (30.0, 30.0, 60.0), 10.0);
    let rect_orientations = orientations_for(&rect_prism, true);
    assert_eq!(
        rect_orientations.len(),
        3,
        "Rectangular prism with two equal dimensions should produce 3 unique orientations, got {}",
        rect_orientations.len()
    );

    for i in 0..rect_orientations.len() {
        for j in (i + 1)..rect_orientations.len() {
            assert_ne!(
                rect_orientations[i].dims, rect_orientations[j].dims,
                "Orientations at indices {} and {} are duplicates: {:?}",
                i, j, rect_orientations[i].dims
            );
        }
    }

    let distinct = item(3, (20.0, 30.0, 40.0), 10.0);
    let distinct_orientations = orientations_for(&distinct, true);
    assert_eq!(
        distinct_orientations.len(),
        6,
        "Object with all distinct dimensions should produce 6 unique orientations, got {}",
        distinct_orientations.len()
    );

    for i in 0..distinct_orientations.len() {
        for j in (i + 1)..distinct_orientations.len() {
            assert_ne!(
                distinct_orientations[i].dims, distinct_orientations[j].dims,
                "Orientations at indices {} and {} are duplicates: {:?}",
                i, j, distinct_orientations[i].dims
            );
        }
    }

    let no_rotation = orientations_for(&distinct, false);
    assert_eq!(no_rotation.len(), 1, "With rotation disabled, should produce only 1 orientation");
    assert_eq!(no_rotation[0].dims, distinct.dims);
}

#[test]
fn sample_pack_respects_weight_order() {
    let config = PackingConfig::default();

    let objects = vec![
        item(1, (30.0, 30.0, 20.0), 50.0),
        item(2, (20.0, 40.0, 25.0), 30.0),
        item(3, (10.0, 20.0, 10.0), 10.0),
        item(4, (50.0, 40.0, 30.0), 70.0),
        item(5, (60.0, 50.0, 40.0), 90.0),
    ];

    let results = pack_objects(objects, single_blueprint((100.0, 100.0, 100.0), 500.0));
    assert!(results.unplaced.is_empty());
    assert!(!results.containers.is_empty());
    for cont in &results.containers {
        assert_heavy_below(cont, &config);
    }

    let primary = &results.containers[0];
    let heavy = primary.placed.iter().find(|p| p.object.id == 5).expect("heaviest object missing");
    assert!(heavy.position.0 <= config.grid_step + config.general_epsilon);
    assert!(heavy.position.1 <= config.grid_step + config.general_epsilon);

    let second =
        primary.placed.iter().find(|p| p.object.id == 4).expect("second heaviest object missing");
    assert!(second.position.2 <= config.height_epsilon);
}

#[test]
fn footprint_cluster_groups_similar_dimensions() {
    let strategy = FootprintClusterStrategy::new(PackingConfig::DEFAULT_FOOTPRINT_CLUSTER_TOLERANCE);
    let mut objects = vec![
        item(1, (20.0, 10.0, 10.0), 30.0),
        item(2, (20.4, 10.1, 9.5), 28.0),
        item(3, (5.0, 5.0, 5.0), 12.0),
    ];

    objects.sort_by(|a, b| b.weight.cmp(&a.weight));
    let reordered = strategy.reorder(objects.clone());

    assert_eq!(reordered.len(), objects.len());
    assert_eq!(reordered[0].id, 1);
    assert_eq!(reordered[1].id, 2);
    assert_eq!(reordered[2].id, 3);
}

#[test]
fn diagnostics_capture_support_and_balance_metrics() {
    let config = PackingConfig::default();
    let mut container = Container::new(fx3((10.0, 10.0, 30.0)), fx(200.0)).unwrap();

    container.placed.push(PlacedBox {
        object: item(1, (5.0, 10.0, 10.0), 8.0),
        position: fx3((0.0, 0.0, 0.0)),
    });

    container.placed.push(PlacedBox {
        object: item(2, (10.0, 10.0, 8.0), 5.0),
        position: fx3((0.0, 0.0, 10.0)),
    });

    let diagnostics = compute_container_diagnostics(&container, &config);

    assert_eq!(diagnostics.support_samples.len(), 2);
    let min_support = diagnostics.minimum_support_percent;
    assert_eq!(min_support, fx(50.0));

    let avg_support = diagnostics.average_support_percent;
    assert_eq!(avg_support, fx(75.0));

    assert!(diagnostics.imbalance_ratio > 0);
    assert!(diagnostics.center_of_mass_offset > 0);

    let summary = summarize_diagnostics(&vec![diagnostics.clone()]);
    assert_eq!(summary.average_support_percent, fx(75.0));
    assert_eq!(summary.worst_support_percent, fx(50.0));
    assert_eq!(summary.max_imbalance_ratio, diagnostics.imbalance_ratio);
}

struct CountDiagnostics {
    diagnostics_events: usize,
}

impl ProgressSink for CountDiagnostics {
    fn emit(&mut self, event: &PackEvent) -> bool {
        if matches!(event, PackEvent::ContainerDiagnostics { .. }) {
            self.diagnostics_events += 1;
        }
        true
    }
}

#[test]
fn progress_emits_diagnostics_events() {
    let config = PackingConfig::default();
    let objects = vec![item(1, (10.0, 10.0, 10.0), 8.0), item(2, (5.0, 5.0, 5.0), 3.0)];

    let mut sink = CountDiagnostics { diagnostics_events: 0 };
    pack_objects_with_progress(
        objects,
        single_blueprint((20.0, 20.0, 30.0), 100.0),
        config,
        &mut sink,
    );

    assert!(sink.diagnostics_events >= 1);
    assert_eq!(sink.diagnostics_events, 2);
}

struct Closing {
    seen: usize,
    limit: usize,
}

impl ProgressSink for Closing {
    fn emit(&mut self, _event: &PackEvent) -> bool {
        self.seen += 1;
        self.seen < self.limit
    }
}

#[test]
fn closed_sink_gets_nothing_more_and_result_is_the_same() {
    let config = PackingConfig::default();
    let objects = vec![
        item(1, (10.0, 10.0, 10.0), 8.0),
        item(2, (5.0, 5.0, 5.0), 3.0),
        item(3, (5.0, 5.0, 5.0), 2.0),
    ];
    let templates = single_blueprint((20.0, 20.0, 30.0), 100.0);

    let mut sink = Closing { seen: 0, limit: 2 };
    let streamed = pack_objects_with_progress(objects.clone(), templates.clone(), config, &mut sink);
    assert_eq!(sink.seen, 2);

    let plain = pack_objects_with_config(objects, templates, config);
    assert_eq!(streamed.containers.len(), plain.containers.len());
    for (a, b) in streamed.containers.iter().zip(plain.containers.iter()) {
        assert_eq!(a.placed.len(), b.placed.len());
        for (p, q) in a.placed.iter().zip(b.placed.iter()) {
            assert_eq!(p.object.id, q.object.id);
            assert_eq!(p.position, q.position);
        }
    }
}

#[test]
fn events_come_in_the_order_of_the_run() {
    let config = PackingConfig::default();
    let objects = vec![item(1, (10.0, 10.0, 10.0), 8.0), item(2, (50.0, 5.0, 5.0), 3.0)];
    let (result, events) =
        pack_objects_with_events(objects, single_blueprint((20.0, 20.0, 30.0), 100.0), config);
    assert_eq!(result.containers.len(), 1);
    assert_eq!(result.unplaced.len(), 1);
    assert_eq!(events.len(), 5);
    assert!(matches!(events[0], PackEvent::ContainerStarted { id: 1, .. }));
    assert!(matches!(events[1], PackEvent::ObjectPlaced { container_id: 1, id: 1, .. }));
    assert!(matches!(events[2], PackEvent::ContainerDiagnostics { container_id: 1, .. }));
    match &events[3] {
        PackEvent::ObjectRejected { id, reason_code, reason_text, .. } => {
            assert_eq!(*id, 2);
            assert_eq!(reason_code, "dimensions_exceed_container");
            assert_eq!(
                reason_text,
                "Object does not fit in the container in at least one dimension"
            );
        }
        other => panic!("unexpected event {:?}", other),
    }
    assert!(matches!(events[4], PackEvent::Finished { containers: 1, unplaced: 1, .. }));
}

#[test]
fn no_two_boxes_of_a_container_intersect() {
    let objects: Vec<Box3D> = (0..12)
        .map(|i| item(i, (10.0 + (i % 3) as f64 * 5.0, 10.0, 10.0 + (i % 2) as f64 * 5.0), 5.0 + i as f64))
        .collect();
    let count = objects.len();
    let config = PackingConfig::default();
    let result = pack_objects(objects, single_blueprint((40.0, 40.0, 40.0), 60.0));
    let mut placed = 0;
    for cont in &result.containers {
        placed += cont.placed.len();
        let total: i64 = cont.placed.iter().map(|p| p.object.weight).sum();
        assert!(total <= cont.max_weight + config.general_epsilon);
        for (i, a) in cont.placed.iter().enumerate() {
            for (j, b) in cont.placed.iter().enumerate() {
                if i != j {
                    assert!(!intersects(a, b));
                }
            }
        }
    }
    assert_eq!(placed + result.unplaced.len(), count);
}

#[test]
fn empty_input_gives_an_empty_result() {
    let result = pack_objects(Vec::new(), single_blueprint((10.0, 10.0, 10.0), 10.0));
    assert!(result.containers.is_empty());
    assert!(result.unplaced.is_empty());
    assert!(result.is_complete());
    assert_eq!(result.diagnostics_summary.max_imbalance_ratio, 0);
    assert_eq!(result.diagnostics_summary.worst_support_percent, fx(100.0));
    assert_eq!(result.diagnostics_summary.average_support_percent, fx(100.0));
}

#[test]
fn without_templates_every_item_is_rejected_for_its_dimensions() {
    let objects = vec![item(7, (1.0, 1.0, 1.0), 1.0), item(3, (2.0, 2.0, 2.0), 9.0)];
    let (result, events) = pack_objects_with_events(objects, Vec::new(), PackingConfig::default());
    assert!(result.containers.is_empty());
    assert_eq!(result.unplaced.len(), 2);
    assert_eq!(result.unplaced[0].object.id, 7);
    assert_eq!(result.unplaced[1].object.id, 3);
    assert_eq!(result.unplaced[0].reason, UnplacedReason::DimensionsExceedContainer);
    assert_eq!(events.len(), 3);
}

#[test]
fn item_that_fits_on_paper_but_finds_no_stable_place() {
    let mut config = PackingConfig::default();
    config.support_ratio = fx(1.0);
    let templates = single_blueprint((10.0, 10.0, 30.0), 100.0);
    let objects = vec![item(1, (5.0, 10.0, 10.0), 9.0), item(2, (10.0, 10.0, 10.0), 5.0)];
    let result = pack_objects_with_config(objects, templates, config);
    assert_eq!(result.containers.len(), 2);
    assert!(result.unplaced.is_empty());

    let templates = single_blueprint((10.0, 10.0, 30.0), 12.0);
    let objects = vec![item(1, (10.0, 10.0, 10.0), 5.0)];
    let mut container = Container::new(fx3((10.0, 10.0, 30.0)), fx(12.0)).unwrap();
    container.placed.push(PlacedBox { object: item(9, (10.0, 10.0, 10.0), 5.0), position: (0, 0, 0) });
    assert!(find_stable_position(&objects[0], &container, &config).is_some());
    let _ = templates;
}

#[test]
fn result_counts_weights_and_utilization() {
    let objects = vec![
        item(1, (10.0, 10.0, 10.0), 300.0),
        item(2, (10.0, 10.0, 10.0), 300.0),
        item(3, (10.0, 10.0, 20.0), 100.0),
        item(4, (30.0, 10.0, 10.0), 1.0),
    ];
    let result = pack_objects(objects, single_blueprint((20.0, 20.0, 20.0), 400.0));
    assert_eq!(result.container_count(), 2);
    assert_eq!(result.unplaced_count(), 1);
    assert!(!result.is_complete());
    assert_eq!(result.total_packed_weight(), fx(700.0) as i128);
    // the containers hold 3000 and 1000 of 8000
    assert_eq!(result.containers[0].utilization_percent(), fx(37.5));
    assert_eq!(result.containers[1].utilization_percent(), fx(12.5));
    assert_eq!(result.average_utilization(), fx(25.0));
    assert_eq!(
        result.diagnostics_summary().worst_support_percent,
        result.diagnostics_summary.worst_support_percent
    );
    let copy = result.clone();
    assert_eq!(copy.containers.len(), 2);
    assert_eq!(copy.containers[0].placed.len(), result.containers[0].placed.len());
    assert_eq!(copy.unplaced[0].object.id, 4);
    assert_eq!(copy.container_diagnostics.len(), 2);
}
