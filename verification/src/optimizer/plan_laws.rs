//! What holds of every packing, proved of the allocation plan: no two boxes of a
//! container intersect, no container is overloaded, weights are layered, and every
//! item is accounted for.

use vstd::prelude::*;
use vstd::seq_lib::to_multiset_contains;
use crate::fixed::MAX_ITEMS;
use crate::geometry::{boxes_intersect, overlap_x, overlap_y, touches_top};
use crate::model::{Box3D, ContainerBlueprint, ContainerModel};
use crate::optimizer::cluster::lemma_clustered_is_permutation;
use crate::optimizer::config::PackingConfig;
use crate::optimizer::invariants::{
    lemma_empty_well_packed, lemma_placement_keeps_well_packed, lemma_stable_is_layered,
    well_packed,
};
use crate::optimizer::orientation::{lemma_orientations_valid, orientations};
use crate::optimizer::plan::{
    accepting, decide, first_accepting, first_fitting, first_index, fitting, handled,
    lemma_first_index, lemma_placed_count_bounds, lemma_placed_count_push,
    lemma_placed_count_update, packing_run, place, placeable_fresh, placeable_open, placed_count,
    placement_order, run_of, RunModel,
};
use crate::optimizer::search::best_position;
use crate::optimizer::search_laws::lemma_best_position;
use crate::optimizer::sorting::{
    all_blueprints_valid, all_items_valid, blueprint_order, item_order, lemma_stable_sort,
    sorted_blueprints, sorted_items,
};
use crate::optimizer::stability::on_floor;

verus! {

/// Every container of the run is well packed and holds at least one box.
pub open spec fn sound_run(run: RunModel, config: PackingConfig) -> bool {
    forall|i: int|
        0 <= i < run.containers.len() ==> well_packed(#[trigger] run.containers[i], config)
            && run.containers[i].placed.len() >= 1
}

/// Two sequences with the same elements: what holds of every element of the one holds
/// of every element of the other.
pub proof fn lemma_same_elements<T>(a: Seq<T>, b: Seq<T>, p: spec_fn(T) -> bool)
    requires
        a.to_multiset() == b.to_multiset(),
        forall|i: int| 0 <= i < b.len() ==> p(#[trigger] b[i]),
    ensures
        forall|i: int| 0 <= i < a.len() ==> p(#[trigger] a[i]),
{
    assert forall|i: int| 0 <= i < a.len() implies p(#[trigger] a[i]) by {
        to_multiset_contains(a, a[i]);
        to_multiset_contains(b, a[i]);
        assert(a.contains(a[i]));
        let k = choose|k: int| 0 <= k < b.len() && b[k] == a[i];
        assert(p(b[k]));
    }
}

/// The items in placement order are the given items, each as often as given, and all
/// valid if the given ones are.
pub proof fn lemma_placement_order(objects: Seq<Box3D>, config: PackingConfig)
    ensures
        placement_order(objects, config).to_multiset() == objects.to_multiset(),
        placement_order(objects, config).len() == objects.len(),
        all_items_valid(objects) ==> all_items_valid(placement_order(objects, config)),
{
    lemma_stable_sort(objects, item_order());
    lemma_clustered_is_permutation(
        sorted_items(objects),
        config.footprint_cluster_tolerance as int,
    );
    if all_items_valid(objects) {
        lemma_same_elements(placement_order(objects, config), objects, |b: Box3D| b.valid());
    }
}

/// The templates in trial order are the given templates, and all valid if the given
/// ones are.
pub proof fn lemma_trial_order(templates: Seq<ContainerBlueprint>)
    ensures
        sorted_blueprints(templates).to_multiset() == templates.to_multiset(),
        sorted_blueprints(templates).len() == templates.len(),
        all_blueprints_valid(templates) ==> all_blueprints_valid(sorted_blueprints(templates)),
{
    lemma_stable_sort(templates, blueprint_order());
    if all_blueprints_valid(templates) {
        lemma_same_elements(
            sorted_blueprints(templates),
            templates,
            |t: ContainerBlueprint| t.valid(),
        );
    }
}

/// One more item keeps the run sound and is one more item handled.
pub proof fn lemma_place(
    run: RunModel,
    templates: Seq<ContainerBlueprint>,
    object: Box3D,
    config: PackingConfig,
)
    requires
        sound_run(run, config),
        config.valid(),
        object.valid(),
        all_blueprints_valid(templates),
        handled(run) < MAX_ITEMS,
    ensures
        sound_run(place(run, templates, object, config), config),
        handled(place(run, templates, object, config)) == handled(run) + 1,
{
    let orients = orientations(object, config.allow_item_rotation);
    lemma_orientations_valid(object, config.allow_item_rotation);
    lemma_placed_count_bounds(run.containers);
    let open = placeable_open(run.containers, orients, config);
    let fresh = placeable_fresh(templates, orients, config);
    lemma_first_index(orients.len() as int, open);
    lemma_first_index(orients.len() as int, fresh);
    let in_open = first_index(orients.len() as int, open);
    let in_fresh = first_index(orients.len() as int, fresh);
    let outcome = decide(run.containers, templates, object, config);
    let after = place(run, templates, object, config);
    if in_open < orients.len() {
        let oriented = orients[in_open];
        assert(oriented.valid());
        lemma_first_index(run.containers.len() as int, accepting(run.containers, oriented, config));
        let c = first_accepting(run.containers, oriented, config);
        assert(open(in_open));
        assert(c < run.containers.len());
        assert(accepting(run.containers, oriented, config)(c));
        let cont = run.containers[c];
        assert(well_packed(cont, config));
        lemma_best_position(oriented, cont, config);
        let position = best_position(oriented, cont, config).unwrap();
        lemma_placement_keeps_well_packed(cont, oriented, position, config);
        lemma_placed_count_update(
            run.containers,
            c,
            crate::optimizer::search::placed_at(oriented, position),
        );
        assert forall|i: int| 0 <= i < after.containers.len() implies well_packed(
            #[trigger] after.containers[i],
            config,
        ) && after.containers[i].placed.len() >= 1 by {
            if i != c {
                assert(after.containers[i] == run.containers[i]);
            }
        }
    } else if in_fresh < orients.len() {
        let oriented = orients[in_fresh];
        assert(oriented.valid());
        lemma_first_index(templates.len() as int, fitting(templates, oriented, config));
        let t = first_fitting(templates, oriented, config);
        assert(fresh(in_fresh));
        assert(t < templates.len());
        assert(fitting(templates, oriented, config)(t));
        assert(templates[t].valid());
        let cont = templates[t].fresh();
        lemma_empty_well_packed(cont, config);
        lemma_best_position(oriented, cont, config);
        let position = best_position(oriented, cont, config).unwrap();
        lemma_placement_keeps_well_packed(cont, oriented, position, config);
        lemma_placed_count_push(
            run.containers,
            cont.with_box(crate::optimizer::search::placed_at(oriented, position)),
        );
        assert forall|i: int| 0 <= i < after.containers.len() implies well_packed(
            #[trigger] after.containers[i],
            config,
        ) && after.containers[i].placed.len() >= 1 by {
            if i < run.containers.len() {
                assert(after.containers[i] == run.containers[i]);
            }
        }
    } else {
    }
}

/// A run over valid items is sound and has handled every item.
pub proof fn lemma_run_of(
    items: Seq<Box3D>,
    templates: Seq<ContainerBlueprint>,
    config: PackingConfig,
)
    requires
        all_items_valid(items),
        all_blueprints_valid(templates),
        config.valid(),
        items.len() <= MAX_ITEMS,
    ensures
        sound_run(run_of(items, templates, config), config),
        handled(run_of(items, templates, config)) == items.len(),
    decreases items.len(),
{
    if items.len() > 0 {
        let rest = items.drop_last();
        assert(all_items_valid(rest)) by {
            assert forall|i: int| 0 <= i < rest.len() implies (#[trigger] rest[i]).valid() by {
                assert(rest[i] == items[i]);
            }
        }
        lemma_run_of(rest, templates, config);
        assert(items[items.len() - 1].valid());
        lemma_place(run_of(rest, templates, config), templates, items.last(), config);
    }
}

/// The run of a packing of valid items is sound and has handled every item.
pub proof fn lemma_packing_run(
    objects: Seq<Box3D>,
    templates: Seq<ContainerBlueprint>,
    config: PackingConfig,
)
    requires
        all_items_valid(objects),
        all_blueprints_valid(templates),
        config.valid(),
        objects.len() <= MAX_ITEMS,
    ensures
        sound_run(packing_run(objects, templates, config), config),
        handled(packing_run(objects, templates, config)) == objects.len(),
{
    if objects.len() > 0 && templates.len() == 0 {
        assert(placed_count(Seq::<ContainerModel>::empty()) == 0);
    } else {
        lemma_placement_order(objects, config);
        lemma_trial_order(templates);
        lemma_run_of(placement_order(objects, config), sorted_blueprints(templates), config);
    }
}

/// No overlap: in every container of a packing, no two boxes intersect.
pub proof fn law_no_overlap(
    objects: Seq<Box3D>,
    templates: Seq<ContainerBlueprint>,
    config: PackingConfig,
    container: int,
    first: int,
    second: int,
)
    requires
        all_items_valid(objects),
        all_blueprints_valid(templates),
        config.valid(),
        objects.len() <= MAX_ITEMS,
        0 <= container < packing_run(objects, templates, config).containers.len(),
        0 <= first < packing_run(objects, templates, config).containers[container].placed.len(),
        0 <= second < packing_run(objects, templates, config).containers[container].placed.len(),
        first != second,
    ensures
        !boxes_intersect(
            packing_run(objects, templates, config).containers[container].placed[first],
            packing_run(objects, templates, config).containers[container].placed[second],
        ),
{
    lemma_packing_run(objects, templates, config);
    assert(well_packed(packing_run(objects, templates, config).containers[container], config));
}

/// Weight capacity: in every container of a packing, the total weight of the boxes is
/// at most the weight limit plus the general tolerance.
pub proof fn law_weight_capacity(
    objects: Seq<Box3D>,
    templates: Seq<ContainerBlueprint>,
    config: PackingConfig,
    container: int,
)
    requires
        all_items_valid(objects),
        all_blueprints_valid(templates),
        config.valid(),
        objects.len() <= MAX_ITEMS,
        0 <= container < packing_run(objects, templates, config).containers.len(),
    ensures
        packing_run(objects, templates, config).containers[container].total_weight()
            <= packing_run(objects, templates, config).containers[container].max_weight
            + config.general_epsilon,
{
    lemma_packing_run(objects, templates, config);
    assert(well_packed(packing_run(objects, templates, config).containers[container], config));
}

/// Weight layering: in every container of a packing, a box that was placed above the
/// floor tolerance on top of an earlier box, with overlapping footprints, is not heavier
/// than that box by more than the general tolerance.
pub proof fn law_weight_layering(
    objects: Seq<Box3D>,
    templates: Seq<ContainerBlueprint>,
    config: PackingConfig,
    container: int,
    lower: int,
    upper: int,
)
    requires
        all_items_valid(objects),
        all_blueprints_valid(templates),
        config.valid(),
        objects.len() <= MAX_ITEMS,
        0 <= container < packing_run(objects, templates, config).containers.len(),
        0 <= lower < upper < packing_run(objects, templates, config).containers[container].placed.len(),
        !on_floor(
            packing_run(objects, templates, config).containers[container].placed[upper],
            config,
        ),
        touches_top(
            packing_run(objects, templates, config).containers[container].placed[upper],
            packing_run(objects, templates, config).containers[container].placed[lower],
            config.height_epsilon as int,
        ),
        overlap_x(
            packing_run(objects, templates, config).containers[container].placed[upper],
            packing_run(objects, templates, config).containers[container].placed[lower],
        ) > 0,
        overlap_y(
            packing_run(objects, templates, config).containers[container].placed[upper],
            packing_run(objects, templates, config).containers[container].placed[lower],
        ) > 0,
    ensures
        packing_run(objects, templates, config).containers[container].placed[lower].object.weight
            + config.general_epsilon >= packing_run(
            objects,
            templates,
            config,
        ).containers[container].placed[upper].object.weight,
{
    lemma_packing_run(objects, templates, config);
    let cont = packing_run(objects, templates, config).containers[container];
    assert(well_packed(cont, config));
    lemma_stable_is_layered(cont.placed, config);
}

/// Accounting: the boxes in all containers of a packing and the unplaced items are
/// together as many as the items that were given.
pub proof fn law_accounting(
    objects: Seq<Box3D>,
    templates: Seq<ContainerBlueprint>,
    config: PackingConfig,
)
    requires
        all_items_valid(objects),
        all_blueprints_valid(templates),
        config.valid(),
        objects.len() <= MAX_ITEMS,
    ensures
        placed_count(packing_run(objects, templates, config).containers) + packing_run(
            objects,
            templates,
            config,
        ).unplaced.len() == objects.len(),
{
    lemma_packing_run(objects, templates, config);
}

} // verus!
