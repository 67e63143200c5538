use sort_it_now::model::{Box3D, Container, ContainerBlueprint, PlacedBox};
use sort_it_now::optimizer::balance::{
    calculate_balance_after, calculate_balance_limit, calculate_current_balance_offset,
};
use sort_it_now::optimizer::grid::{axis_positions, dedup_values, sort_values, z_layers};
use sort_it_now::optimizer::search::{
    compare_with_epsilon, is_better_score, update_best, Candidate, Comparison, PlacementScore,
};
use sort_it_now::optimizer::sorting::{sort_blueprints, sort_items};
use sort_it_now::optimizer::stability::{
    has_sufficient_support, is_center_supported, support_ratio_of, supports_weight_correctly,
};
use sort_it_now::optimizer::{
    compute_container_diagnostics, determine_unfit_reason_across_templates, find_stable_position,
    pack_objects_with_config, summarize_diagnostics, FootprintClusterStrategy, ObjectCluster,
    PackingConfig, UnplacedReason,
};
use sort_it_now::types::{Dimensional, Vec3};

fn fx(v: f64) -> i64 {
    (v * 1_000_000.0).round() as i64
}

fn fx3(v: (f64, f64, f64)) -> (i64, i64, i64) {
    (fx(v.0), fx(v.1), fx(v.2))
}

fn item(id: usize, dims: (f64, f64, f64), weight: f64) -> Box3D {
    Box3D { id, dims: fx3(dims), weight: fx(weight) }
}

fn placed(id: usize, pos: (f64, f64, f64), dims: (f64, f64, f64), weight: f64) -> PlacedBox {
    PlacedBox { object: item(id, dims, weight), position: fx3(pos) }
}

fn blueprint(id: usize, dims: (f64, f64, f64), max_weight: f64) -> ContainerBlueprint {
    ContainerBlueprint::new(id, None, fx3(dims), fx(max_weight)).unwrap()
}

#[test]
fn axis_positions_sweep_the_axis_and_end_at_the_far_edge() {
    let eps = 1;
    assert_eq!(axis_positions(fx(20.0), fx(10.0), fx(5.0), eps), vec![0, fx(5.0), fx(10.0)]);
    assert_eq!(
        axis_positions(fx(20.0), fx(10.0), fx(4.0), eps),
        vec![0, fx(4.0), fx(8.0), fx(10.0)]
    );
    assert_eq!(axis_positions(fx(10.0), fx(10.0), fx(5.0), eps), vec![0]);
    assert_eq!(axis_positions(fx(10.0), fx(12.0), fx(5.0), eps), vec![0]);
    assert_eq!(axis_positions(fx(10.0) + 1, fx(10.0), fx(5.0), eps), vec![0]);
    assert_eq!(axis_positions(fx(10.0) + 2, fx(10.0), fx(5.0), eps), vec![0, 2]);
    // a sweep position within the tolerance beyond the edge is capped at the edge, and a
    // position closer than the tolerance to the one before it is dropped
    assert_eq!(axis_positions(11, 1, 4, 3), vec![0, 4, 8]);
    assert_eq!(axis_positions(11, 1, 4, 2), vec![0, 4, 8, 10]);
    assert_eq!(axis_positions(11, 1, 5, 3), vec![0, 5, 10]);
    assert_eq!(axis_positions(11, 1, 6, 3), vec![0, 6, 10]);
    assert_eq!(axis_positions(13, 1, 6, 3), vec![0, 6, 12]);
}

#[test]
fn values_are_sorted_and_near_repeats_dropped() {
    assert_eq!(sort_values(&vec![3, 1, 2, 1, -5]), vec![-5, 1, 1, 2, 3]);
    assert_eq!(sort_values(&Vec::new()), Vec::<i64>::new());
    assert_eq!(dedup_values(&vec![0, 1, 2, 3, 10, 11, 13], 2), vec![0, 2, 10, 13]);
    assert_eq!(dedup_values(&vec![0, 1, 2, 3], 1), vec![0, 1, 2, 3]);
}

#[test]
fn layers_are_the_floor_and_the_tops() {
    let mut cont = Container::new(fx3((20.0, 20.0, 40.0)), fx(100.0)).unwrap();
    assert_eq!(z_layers(&cont, fx(0.001)), vec![0]);
    cont.placed.push(placed(1, (0.0, 0.0, 0.0), (10.0, 10.0, 10.0), 5.0));
    cont.placed.push(placed(2, (10.0, 0.0, 0.0), (10.0, 10.0, 10.0005), 5.0));
    cont.placed.push(placed(3, (0.0, 0.0, 10.0), (10.0, 10.0, 5.0), 5.0));
    assert_eq!(z_layers(&cont, fx(0.001)), vec![0, fx(10.0), fx(15.0)]);
}

#[test]
fn tolerant_comparison_and_scores() {
    assert_eq!(compare_with_epsilon(10, 12, 2), Comparison::Equal);
    assert_eq!(compare_with_epsilon(10, 13, 2), Comparison::Less);
    assert_eq!(compare_with_epsilon(13, 10, 2), Comparison::Greater);
    assert_eq!(compare_with_epsilon(i64::MIN, i64::MAX, 2), Comparison::Less);

    let config = PackingConfig::default();
    let base = PlacementScore { z: 0, y: 0, x: 0, balance: 100 };
    assert!(!is_better_score(base, base, &config));
    assert!(is_better_score(PlacementScore { balance: 98, ..base }, base, &config));
    assert!(!is_better_score(PlacementScore { balance: 99, ..base }, base, &config));
    assert!(is_better_score(base, PlacementScore { x: 2, ..base }, &config));
    assert!(!is_better_score(base, PlacementScore { x: 1, ..base }, &config));
    assert!(is_better_score(base, PlacementScore { y: 2, x: -50, ..base }, &config));
    assert!(is_better_score(base, PlacementScore { z: 1001, y: -50, ..base }, &config));
    assert!(!is_better_score(base, PlacementScore { z: 1000, y: -50, ..base }, &config));

    let mut best: Option<Candidate> = None;
    update_best(&mut best, (1, 1, 5000), PlacementScore { z: 5000, y: 1, x: 1, balance: 5 }, &config);
    assert_eq!(best.unwrap().position, (1, 1, 5000));
    update_best(&mut best, (9, 1, 5000), PlacementScore { z: 5000, y: 1, x: 9, balance: 0 }, &config);
    assert_eq!(best.unwrap().position, (1, 1, 5000));
    update_best(&mut best, (1, 1, 4500), PlacementScore { z: 4500, y: 1, x: 1, balance: 5 }, &config);
    assert_eq!(best.unwrap().position, (1, 1, 5000));
    update_best(&mut best, (0, 0, 0), PlacementScore { z: 0, y: 0, x: 0, balance: 50 }, &config);
    assert_eq!(best.unwrap().position, (0, 0, 0));
}

#[test]
fn stability_rules_on_a_half_supported_box() {
    let config = PackingConfig::default();
    let mut cont = Container::new(fx3((10.0, 10.0, 30.0)), fx(200.0)).unwrap();
    cont.placed.push(placed(1, (0.0, 0.0, 0.0), (5.0, 10.0, 10.0), 8.0));
    let upper = placed(2, (0.0, 0.0, 10.0), (10.0, 10.0, 8.0), 5.0);
    assert_eq!(support_ratio_of(&upper, &cont, &config), fx(0.5));
    assert!(!has_sufficient_support(&upper, &cont, &config));
    assert!(supports_weight_correctly(&upper, &cont, &config));
    assert!(is_center_supported(&upper, &cont, &config));

    let mut relaxed = config;
    relaxed.support_ratio = fx(0.5);
    assert!(has_sufficient_support(&upper, &cont, &relaxed));

    let heavy = placed(3, (0.0, 0.0, 10.0), (5.0, 10.0, 8.0), 8.0 + 0.000002);
    assert!(!supports_weight_correctly(&heavy, &cont, &config));
    let barely = placed(3, (0.0, 0.0, 10.0), (5.0, 10.0, 8.0), 8.0 + 0.000001);
    assert!(supports_weight_correctly(&barely, &cont, &config));

    let beside = placed(4, (5.0, 0.0, 10.0), (5.0, 10.0, 8.0), 1.0);
    assert_eq!(support_ratio_of(&beside, &cont, &config), 0);
    assert!(!supports_weight_correctly(&beside, &cont, &config));
    assert!(!is_center_supported(&beside, &cont, &config));

    let floor = placed(5, (5.0, 0.0, 0.0), (5.0, 10.0, 8.0), 50.0);
    assert_eq!(support_ratio_of(&floor, &cont, &config), fx(1.0));
    assert!(has_sufficient_support(&floor, &cont, &config));
    assert!(supports_weight_correctly(&floor, &cont, &config));
    assert!(is_center_supported(&floor, &cont, &config));
}

#[test]
fn balance_offset_and_limit() {
    let config = PackingConfig::default();
    let mut cont = Container::new(fx3((6.0, 8.0, 30.0)), fx(200.0)).unwrap();
    // half diagonal 5, times 0.45
    assert_eq!(calculate_balance_limit(&cont, &config), fx(2.25));
    assert_eq!(calculate_current_balance_offset(&cont), 0);
    let first = placed(1, (0.0, 0.0, 0.0), (6.0, 8.0, 1.0), 1.0);
    assert_eq!(calculate_balance_after(&cont, &first), 0);
    let corner = placed(2, (0.0, 0.0, 0.0), (2.0, 2.0, 1.0), 3.0);
    // centre of mass (1, 1), centre of the footprint (3, 4): distance sqrt(13)
    assert_eq!(calculate_balance_after(&cont, &corner), 3_605_551);
    cont.placed.push(first);
    // (3 * 1 + 1 * 3) / 4 = 1.5 and (4 * 1 + 1 * 3) / 4 = 1.75: distance sqrt(1.5^2 + 2.25^2)
    assert_eq!(calculate_balance_after(&cont, &corner), 2_704_163);
    cont.placed.push(corner);
    assert_eq!(calculate_current_balance_offset(&cont), 2_704_163);
    let diagnostics = compute_container_diagnostics(&cont, &config);
    assert_eq!(diagnostics.center_of_mass_offset, 2_704_163);
    assert_eq!(diagnostics.balance_limit, fx(2.25));
    assert_eq!(diagnostics.imbalance_ratio, 1_201_850);
}

#[test]
fn diagnostics_are_the_same_when_computed_twice() {
    let config = PackingConfig::default();
    let mut cont = Container::new(fx3((10.0, 10.0, 30.0)), fx(200.0)).unwrap();
    cont.placed.push(placed(1, (0.0, 0.0, 0.0), (5.0, 10.0, 10.0), 8.0));
    cont.placed.push(placed(2, (0.0, 0.0, 10.0), (10.0, 10.0, 8.0), 5.0));
    let a = compute_container_diagnostics(&cont, &config);
    let b = compute_container_diagnostics(&cont, &config);
    assert_eq!(a.center_of_mass_offset, b.center_of_mass_offset);
    assert_eq!(a.balance_limit, b.balance_limit);
    assert_eq!(a.imbalance_ratio, b.imbalance_ratio);
    assert_eq!(a.average_support_percent, b.average_support_percent);
    assert_eq!(a.minimum_support_percent, b.minimum_support_percent);
    assert_eq!(a.support_samples.len(), b.support_samples.len());
    for (x, y) in a.support_samples.iter().zip(b.support_samples.iter()) {
        assert_eq!(x.object_id, y.object_id);
        assert_eq!(x.support_percent, y.support_percent);
        assert_eq!(x.rests_on_floor, y.rests_on_floor);
    }
    assert!(a.support_samples[0].rests_on_floor);
    assert!(!a.support_samples[1].rests_on_floor);
    assert_eq!(a.support_samples[1].support_percent, fx(50.0));
}

#[test]
fn summary_weights_the_average_by_the_number_of_boxes() {
    let config = PackingConfig::default();
    let mut one = Container::new(fx3((10.0, 10.0, 30.0)), fx(200.0)).unwrap();
    one.placed.push(placed(1, (0.0, 0.0, 0.0), (5.0, 10.0, 10.0), 8.0));
    one.placed.push(placed(2, (0.0, 0.0, 10.0), (10.0, 10.0, 8.0), 5.0));
    let mut two = Container::new(fx3((10.0, 10.0, 30.0)), fx(200.0)).unwrap();
    two.placed.push(placed(3, (0.0, 0.0, 0.0), (10.0, 10.0, 10.0), 8.0));
    let all = vec![
        compute_container_diagnostics(&one, &config),
        compute_container_diagnostics(&two, &config),
    ];
    let summary = summarize_diagnostics(&all);
    // samples: 100, 50, 100
    assert_eq!(summary.average_support_percent, 83_333_333);
    assert_eq!(summary.worst_support_percent, fx(50.0));
    assert_eq!(summary.max_imbalance_ratio, all[0].imbalance_ratio.max(all[1].imbalance_ratio));
    let none = summarize_diagnostics(&Vec::new());
    assert_eq!(none.max_imbalance_ratio, 0);
    assert_eq!(none.worst_support_percent, fx(100.0));
    assert_eq!(none.average_support_percent, fx(100.0));
}

#[test]
fn items_and_templates_are_sorted_stably() {
    let sorted = sort_items(vec![
        item(5, (1.0, 1.0, 1.0), 2.0),
        item(4, (2.0, 1.0, 1.0), 2.0),
        item(3, (1.0, 2.0, 1.0), 2.0),
        item(2, (1.0, 1.0, 1.0), 9.0),
        item(3, (1.0, 1.0, 2.0), 2.0),
    ]);
    let ids: Vec<usize> = sorted.iter().map(|b| b.id).collect();
    assert_eq!(ids, vec![2, 3, 3, 4, 5]);
    assert_eq!(sorted[1].dims, fx3((1.0, 2.0, 1.0)));
    assert_eq!(sorted[2].dims, fx3((1.0, 1.0, 2.0)));

    let templates = sort_blueprints(vec![
        blueprint(0, (2.0, 2.0, 2.0), 5.0),
        blueprint(1, (1.0, 1.0, 1.0), 9.0),
        blueprint(2, (2.0, 4.0, 1.0), 4.0),
        blueprint(3, (4.0, 2.0, 1.0), 5.0),
    ]);
    let ids: Vec<usize> = templates.iter().map(|t| t.id).collect();
    assert_eq!(ids, vec![1, 2, 0, 3]);
}

#[test]
fn clustering_brings_similar_footprints_together() {
    let strategy = FootprintClusterStrategy::new(PackingConfig::DEFAULT_FOOTPRINT_CLUSTER_TOLERANCE);
    let objects = vec![
        item(1, (20.0, 10.0, 10.0), 30.0),
        item(2, (5.0, 5.0, 5.0), 29.0),
        item(3, (20.4, 10.1, 9.5), 28.0),
        item(4, (5.5, 5.5, 1.0), 27.0),
        item(5, (50.0, 5.0, 1.0), 26.0),
    ];
    let ids: Vec<usize> = strategy.reorder(objects.clone()).iter().map(|b| b.id).collect();
    assert_eq!(ids, vec![1, 3, 2, 4, 5]);
    let ids: Vec<usize> =
        FootprintClusterStrategy::new(0).reorder(objects).iter().map(|b| b.id).collect();
    assert_eq!(ids, vec![1, 2, 3, 4, 5]);
    assert!(strategy.compatible((fx(20.0), fx(10.0)), (fx(23.0), fx(10.0))));
    assert!(!strategy.compatible((fx(20.0), fx(10.0)), (fx(24.0), fx(10.0))));
    assert_eq!(strategy.relative_diff(fx(20.0), fx(23.0)), 130_434);
    assert_eq!(strategy.relative_diff(fx(0.5), fx(0.25)), fx(0.25));
}

#[test]
fn reasons_for_rejection() {
    let config = PackingConfig::default();
    let templates = vec![blueprint(0, (10.0, 10.0, 10.0), 10.0), blueprint(1, (5.0, 5.0, 5.0), 50.0)];
    assert_eq!(
        determine_unfit_reason_across_templates(&Vec::new(), &item(1, (1.0, 1.0, 1.0), 1.0), &config),
        UnplacedReason::DimensionsExceedContainer
    );
    assert_eq!(
        determine_unfit_reason_across_templates(&templates, &item(1, (1.0, 1.0, 1.0), 51.0), &config),
        UnplacedReason::TooHeavyForContainer
    );
    assert_eq!(
        determine_unfit_reason_across_templates(&templates, &item(1, (11.0, 1.0, 1.0), 1.0), &config),
        UnplacedReason::DimensionsExceedContainer
    );
    // too heavy for the large template, too large for the strong one
    assert_eq!(
        determine_unfit_reason_across_templates(&templates, &item(1, (6.0, 1.0, 1.0), 20.0), &config),
        UnplacedReason::NoStablePosition
    );
    let mut rotating = config;
    rotating.allow_item_rotation = true;
    assert_eq!(
        determine_unfit_reason_across_templates(&templates, &item(1, (11.0, 1.0, 1.0), 1.0), &rotating),
        UnplacedReason::DimensionsExceedContainer
    );
    assert_eq!(UnplacedReason::TooHeavyForContainer.code(), "too_heavy_for_container");
    assert_eq!(UnplacedReason::NoStablePosition.code(), "no_stable_position");
    assert_eq!(
        UnplacedReason::NoStablePosition.to_text(),
        "No stable position found within the container"
    );
    assert_eq!(
        UnplacedReason::TooHeavyForContainer.to_text(),
        "Object exceeds the maximum allowed weight"
    );
}

#[test]
fn an_item_that_fits_no_single_template_is_rejected_without_a_stable_position() {
    let templates = vec![blueprint(0, (10.0, 10.0, 10.0), 10.0), blueprint(1, (5.0, 5.0, 5.0), 50.0)];
    let result = pack_objects_with_config(
        vec![item(1, (6.0, 1.0, 1.0), 20.0)],
        templates,
        PackingConfig::default(),
    );
    assert!(result.containers.is_empty());
    assert_eq!(result.unplaced[0].reason, UnplacedReason::NoStablePosition);
}

#[test]
fn rotation_against_a_blueprint() {
    let object = item(1, (12.0, 9.0, 8.0), 5.0);
    let mut config = PackingConfig::default();
    config.allow_item_rotation = false;
    let result =
        pack_objects_with_config(vec![object], vec![blueprint(0, (10.0, 10.0, 10.0), 100.0)], config);
    assert_eq!(result.unplaced.len(), 1);
    assert_eq!(result.unplaced[0].reason, UnplacedReason::DimensionsExceedContainer);

    config.allow_item_rotation = true;
    let result =
        pack_objects_with_config(vec![object], vec![blueprint(0, (12.0, 10.0, 9.0), 100.0)], config);
    assert!(result.unplaced.is_empty());
    assert_eq!(result.containers[0].placed[0].object.dims, fx3((12.0, 9.0, 8.0)));

    let result =
        pack_objects_with_config(vec![object], vec![blueprint(0, (9.0, 8.0, 12.0), 100.0)], config);
    assert!(result.unplaced.is_empty());
    assert_eq!(result.containers[0].placed[0].object.dims, fx3((9.0, 8.0, 12.0)));
}

#[test]
fn open_containers_are_tried_in_every_orientation_before_a_new_one_is_opened() {
    let mut config = PackingConfig::default();
    config.allow_item_rotation = true;
    let templates = vec![blueprint(0, (10.0, 10.0, 20.0), 100.0)];
    let objects = vec![item(1, (10.0, 10.0, 12.0), 10.0), item(2, (10.0, 8.0, 10.0), 5.0)];
    let result = pack_objects_with_config(objects, templates, config);
    assert!(result.unplaced.is_empty());
    assert_eq!(result.containers.len(), 1);
    let second = &result.containers[0].placed[1];
    assert_eq!(second.object.id, 2);
    assert_eq!(second.object.dims, fx3((10.0, 10.0, 8.0)));
    assert_eq!(second.position, fx3((0.0, 0.0, 12.0)));
}

#[test]
fn position_within_the_balance_limit_is_preferred() {
    let mut config = PackingConfig::default();
    config.balance_limit_ratio = 0;
    let cont = Container::new(fx3((30.0, 10.0, 10.0)), fx(100.0)).unwrap();
    // with a limit of zero only the centred position is within the limit
    assert_eq!(
        find_stable_position(&item(1, (10.0, 10.0, 10.0), 5.0), &cont, &config),
        Some(fx3((10.0, 0.0, 0.0)))
    );
    // without a position within the limit the best of all is taken
    assert_eq!(
        find_stable_position(&item(1, (12.0, 10.0, 10.0), 5.0), &cont, &config),
        Some(fx3((0.0, 0.0, 0.0)))
    );
    config.balance_limit_ratio = fx(1.0);
    assert_eq!(
        find_stable_position(&item(1, (10.0, 10.0, 10.0), 5.0), &cont, &config),
        Some(fx3((0.0, 0.0, 0.0)))
    );
}

#[test]
fn a_lighter_box_can_later_go_under_an_overhang() {
    let mut config = PackingConfig::default();
    config.footprint_cluster_tolerance = 0;
    let templates = vec![blueprint(0, (20.0, 10.0, 30.0), 100.0)];
    let objects = vec![
        item(1, (10.0, 10.0, 10.0), 10.0),
        item(2, (15.0, 10.0, 5.0), 8.0),
        item(3, (10.0, 10.0, 10.0), 3.0),
    ];
    let result = pack_objects_with_config(objects, templates, config);
    assert!(result.unplaced.is_empty());
    assert_eq!(result.containers.len(), 1);
    let boxes = &result.containers[0].placed;
    assert_eq!((boxes[0].object.id, boxes[0].position), (1, fx3((0.0, 0.0, 0.0))));
    assert_eq!((boxes[1].object.id, boxes[1].position), (2, fx3((0.0, 0.0, 10.0))));
    assert_eq!((boxes[2].object.id, boxes[2].position), (3, fx3((10.0, 0.0, 0.0))));
}

#[test]
fn a_box_within_the_floor_tolerance_is_not_held_to_the_weight_rule() {
    let config = PackingConfig::default();
    let mut cont = Container::new(fx3((10.0, 10.0, 30.0)), fx(100.0)).unwrap();
    cont.placed.push(placed(1, (0.0, 0.0, 0.0), (10.0, 10.0, 0.001), 5.0));
    assert_eq!(
        find_stable_position(&item(2, (5.0, 5.0, 5.0), 7.0), &cont, &config),
        Some((0, 0, fx(0.001)))
    );
}

#[test]
fn a_cluster_keeps_the_running_average_of_its_footprints() {
    let mut cluster = ObjectCluster::new(item(1, (20.0, 10.0, 1.0), 1.0));
    assert_eq!(cluster.representative, (fx(20.0), fx(10.0)));
    cluster.add(item(2, (21.0, 10.0, 1.0), 1.0));
    assert_eq!(cluster.representative, (fx(20.5), fx(10.0)));
    cluster.add(item(3, (20.0, 13.0, 1.0), 1.0));
    assert_eq!(cluster.representative, (20_333_333, fx(11.0)));
    let ids: Vec<usize> = cluster.into_members().iter().map(|b| b.id).collect();
    assert_eq!(ids, vec![1, 2, 3]);
}

#[test]
fn items_know_whether_they_fit_into_given_dimensions() {
    let b = item(1, (10.0, 20.0, 30.0), 1.0);
    assert!(b.fits_in(&Vec3::new(fx(10.0), fx(20.0), fx(30.0)), 0));
    assert!(!b.fits_in(&Vec3::new(fx(10.0), fx(20.0), fx(30.0) - 2), 1));
    assert!(b.fits_in(&Vec3::new(fx(10.0), fx(20.0), fx(30.0) - 2), 2));
    assert_eq!(Dimensional::base_area(&b), 200 * 10i128.pow(12));
    assert_eq!(b.dimensions(), Vec3::new(fx(10.0), fx(20.0), fx(30.0)));
}
