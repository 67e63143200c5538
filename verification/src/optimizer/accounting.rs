//! Accounting for the items of a packing: every item that was given is, up to its
//! orientation, either in exactly one container or among the unplaced, and nothing else
//! is.

use vstd::prelude::*;
use vstd::multiset::Multiset;
use vstd::seq_lib::{
    to_multiset_build, to_multiset_contains, to_multiset_insert, to_multiset_len,
    to_multiset_remove,
};

use crate::model::{Box3D, ContainerBlueprint, ContainerModel, PlacedBox};
use crate::optimizer::config::PackingConfig;
use crate::optimizer::orientation::{lemma_orientations_valid, orientations, permutations};
use crate::optimizer::outcome::UnplacedBox;
use crate::optimizer::plan::{
    accepting, all_rejected, first_accepting, first_fitting, first_index, fitting,
    lemma_first_index, packing_run, place, placeable_fresh, placeable_open, placement_order,
    run_of, RunModel,
};
use crate::optimizer::plan_laws::lemma_placement_order;
use crate::optimizer::search::{best_position, placed_at};
use crate::optimizer::sorting::{all_items_valid, sorted_blueprints};

verus! {

/// The three lengths in ascending order.
pub open spec fn ascending_dims(dims: (i64, i64, i64)) -> (i64, i64, i64) {
    let (a, b, c) = dims;
    if a <= b {
        if b <= c {
            (a, b, c)
        } else if a <= c {
            (a, c, b)
        } else {
            (c, a, b)
        }
    } else {
        if a <= c {
            (b, a, c)
        } else if b <= c {
            (b, c, a)
        } else {
            (c, b, a)
        }
    }
}

/// The item with its side lengths in ascending order: the same item for every
/// orientation.
pub open spec fn unoriented(b: Box3D) -> Box3D {
    Box3D { id: b.id, dims: ascending_dims(b.dims), weight: b.weight }
}

/// The items, each without its orientation.
pub open spec fn unoriented_items(items: Seq<Box3D>) -> Seq<Box3D> {
    Seq::new(items.len(), |i: int| unoriented(items[i]))
}

/// The items of the boxes of one container, without their orientations.
pub open spec fn container_items(placed: Seq<PlacedBox>) -> Multiset<Box3D>
    decreases placed.len(),
{
    if placed.len() == 0 {
        Multiset::empty()
    } else {
        container_items(placed.drop_last()).insert(unoriented(placed.last().object))
    }
}

/// The items of the boxes of all containers, without their orientations.
pub open spec fn placed_items(containers: Seq<ContainerModel>) -> Multiset<Box3D>
    decreases containers.len(),
{
    if containers.len() == 0 {
        Multiset::empty()
    } else {
        placed_items(containers.drop_last()).add(container_items(containers.last().placed))
    }
}

/// The unplaced items, without their orientations.
pub open spec fn unplaced_items(unplaced: Seq<UnplacedBox>) -> Multiset<Box3D>
    decreases unplaced.len(),
{
    if unplaced.len() == 0 {
        Multiset::empty()
    } else {
        unplaced_items(unplaced.drop_last()).insert(unoriented(unplaced.last().object))
    }
}

/// The items that a run accounts for: those in its containers and those unplaced.
pub open spec fn accounted(run: RunModel) -> Multiset<Box3D> {
    placed_items(run.containers).add(unplaced_items(run.unplaced))
}

/// Every order of the three lengths has the same ascending order.
pub proof fn lemma_ascending_dims(dims: (i64, i64, i64), other: (i64, i64, i64))
    requires
        permutations(dims).contains(other),
    ensures
        ascending_dims(other) == ascending_dims(dims),
{
    let p = permutations(dims);
    let k = choose|k: int| 0 <= k < p.len() && p[k] == other;
    assert(p[k] == other);
}

/// One more box in one container is one more item among the placed.
pub proof fn lemma_placed_items_update(containers: Seq<ContainerModel>, at: int, p: PlacedBox)
    requires
        0 <= at < containers.len(),
    ensures
        placed_items(containers.update(at, containers[at].with_box(p))) == placed_items(
            containers,
        ).insert(unoriented(p.object)),
    decreases containers.len(),
{
    broadcast use vstd::multiset::group_multiset_axioms;

    let updated = containers.update(at, containers[at].with_box(p));
    let rest = containers.drop_last();
    if at == containers.len() - 1 {
        assert(updated.drop_last() =~= rest);
        assert(containers[at].placed.push(p).drop_last() =~= containers[at].placed);
        assert(placed_items(updated) =~= placed_items(containers).insert(unoriented(p.object)));
    } else {
        assert(updated.drop_last() =~= rest.update(at, rest[at].with_box(p)));
        assert(updated.last() == containers.last());
        lemma_placed_items_update(rest, at, p);
        assert(placed_items(updated) =~= placed_items(containers).insert(unoriented(p.object)));
    }
}

/// A fresh container with one box is one more item among the placed.
pub proof fn lemma_placed_items_push(containers: Seq<ContainerModel>, cont: ContainerModel, p: PlacedBox)
    requires
        cont.placed.len() == 0,
    ensures
        placed_items(containers.push(cont.with_box(p))) == placed_items(containers).insert(
            unoriented(p.object),
        ),
{
    broadcast use vstd::multiset::group_multiset_axioms;

    let pushed = containers.push(cont.with_box(p));
    assert(pushed.drop_last() =~= containers);
    assert(cont.placed.push(p).drop_last() =~= cont.placed);
    assert(container_items(cont.placed) =~= Multiset::<Box3D>::empty());
    assert(placed_items(pushed) =~= placed_items(containers).insert(unoriented(p.object)));
}

/// One more item is, whatever happens to it, one more item accounted for.
pub proof fn lemma_place_accounts(
    run: RunModel,
    templates: Seq<ContainerBlueprint>,
    object: Box3D,
    config: PackingConfig,
)
    requires
        object.valid(),
    ensures
        accounted(place(run, templates, object, config)) == accounted(run).insert(
            unoriented(object),
        ),
{
    broadcast use vstd::multiset::group_multiset_axioms;

    let orients = orientations(object, config.allow_item_rotation);
    lemma_orientations_valid(object, config.allow_item_rotation);
    let open = placeable_open(run.containers, orients, config);
    let fresh = placeable_fresh(templates, orients, config);
    lemma_first_index(orients.len() as int, open);
    lemma_first_index(orients.len() as int, fresh);
    let in_open = first_index(orients.len() as int, open);
    let in_fresh = first_index(orients.len() as int, fresh);
    let after = place(run, templates, object, config);
    if in_open < orients.len() {
        let oriented = orients[in_open];
        lemma_ascending_dims(object.dims, oriented.dims);
        lemma_first_index(run.containers.len() as int, accepting(run.containers, oriented, config));
        let c = first_accepting(run.containers, oriented, config);
        assert(open(in_open));
        let position = best_position(oriented, run.containers[c], config).unwrap();
        lemma_placed_items_update(run.containers, c, placed_at(oriented, position));
        assert(accounted(after) =~= accounted(run).insert(unoriented(object)));
    } else if in_fresh < orients.len() {
        let oriented = orients[in_fresh];
        lemma_ascending_dims(object.dims, oriented.dims);
        lemma_first_index(templates.len() as int, fitting(templates, oriented, config));
        let t = first_fitting(templates, oriented, config);
        assert(fresh(in_fresh));
        let position = best_position(oriented, templates[t].fresh(), config).unwrap();
        lemma_placed_items_push(
            run.containers,
            templates[t].fresh(),
            placed_at(oriented, position),
        );
        assert(accounted(after) =~= accounted(run).insert(unoriented(object)));
    } else {
        let reason = crate::optimizer::plan::unfit_reason(templates, object, config);
        assert(run.unplaced.push(UnplacedBox { object, reason }).drop_last() =~= run.unplaced);
        assert(accounted(after) =~= accounted(run).insert(unoriented(object)));
    }
}

/// A run accounts for exactly the items that it has handled.
pub proof fn lemma_run_accounts(
    items: Seq<Box3D>,
    templates: Seq<ContainerBlueprint>,
    config: PackingConfig,
)
    requires
        all_items_valid(items),
    ensures
        accounted(run_of(items, templates, config)) == unoriented_items(items).to_multiset(),
    decreases items.len(),
{
    broadcast use vstd::multiset::group_multiset_axioms;

    if items.len() == 0 {
        assert(unoriented_items(items) =~= Seq::<Box3D>::empty());
        assert(unoriented_items(items).to_multiset() =~= Multiset::<Box3D>::empty()) by {
            to_multiset_len(unoriented_items(items));
        }
        assert(accounted(run_of(items, templates, config)) =~= Multiset::<Box3D>::empty());
    } else {
        let rest = items.drop_last();
        assert(all_items_valid(rest)) by {
            assert forall|i: int| 0 <= i < rest.len() implies (#[trigger] rest[i]).valid() by {
                assert(rest[i] == items[i]);
            }
        }
        lemma_run_accounts(rest, templates, config);
        assert(items[items.len() - 1].valid());
        lemma_place_accounts(run_of(rest, templates, config), templates, items.last(), config);
        to_multiset_build(unoriented_items(rest), unoriented(items.last()));
        assert(unoriented_items(rest).push(unoriented(items.last())) =~= unoriented_items(items));
    }
}

/// Sequences with the same elements have the same elements once their orientations are
/// taken off.
pub proof fn lemma_unoriented_same_elements(a: Seq<Box3D>, b: Seq<Box3D>)
    requires
        a.to_multiset() == b.to_multiset(),
    ensures
        unoriented_items(a).to_multiset() == unoriented_items(b).to_multiset(),
    decreases a.len(),
{
    broadcast use vstd::multiset::group_multiset_axioms;

    to_multiset_len(a);
    to_multiset_len(b);
    if a.len() == 0 {
        assert(unoriented_items(a) =~= unoriented_items(b));
    } else {
        let x = a.last();
        let rest = a.drop_last();
        to_multiset_build(rest, x);
        assert(rest.push(x) =~= a);
        to_multiset_contains(a, x);
        to_multiset_contains(b, x);
        assert(a.contains(x)) by {
            assert(a[a.len() - 1] == x);
        }
        let k = choose|k: int| 0 <= k < b.len() && b[k] == x;
        let others = b.remove(k);
        to_multiset_remove(b, k);
        assert(others.to_multiset() =~= rest.to_multiset());
        lemma_unoriented_same_elements(rest, others);
        to_multiset_build(unoriented_items(rest), unoriented(x));
        assert(unoriented_items(rest).push(unoriented(x)) =~= unoriented_items(a));
        to_multiset_insert(unoriented_items(others), k, unoriented(x));
        assert(unoriented_items(others).insert(k, unoriented(x)) =~= unoriented_items(b)) by {
            assert(others.insert(k, x) =~= b);
        }
    }
}

/// The items that are rejected for want of a template are the given items.
pub proof fn lemma_all_rejected_accounts(objects: Seq<Box3D>)
    ensures
        unplaced_items(all_rejected(objects)) == unoriented_items(objects).to_multiset(),
    decreases objects.len(),
{
    broadcast use vstd::multiset::group_multiset_axioms;

    if objects.len() == 0 {
        assert(unoriented_items(objects) =~= Seq::<Box3D>::empty());
        to_multiset_len(unoriented_items(objects));
        assert(unoriented_items(objects).to_multiset() =~= Multiset::<Box3D>::empty());
    } else {
        let rest = objects.drop_last();
        lemma_all_rejected_accounts(rest);
        assert(all_rejected(objects).drop_last() =~= all_rejected(rest));
        to_multiset_build(unoriented_items(rest), unoriented(objects.last()));
        assert(unoriented_items(rest).push(unoriented(objects.last())) =~= unoriented_items(
            objects,
        ));
    }
}

/// Every item is accounted for exactly once: the items in the containers of a packing
/// and its unplaced items are, their orientations aside, exactly the items that were
/// given, each as often as it was given.
pub proof fn law_every_item_accounted(
    objects: Seq<Box3D>,
    templates: Seq<ContainerBlueprint>,
    config: PackingConfig,
)
    requires
        all_items_valid(objects),
    ensures
        accounted(packing_run(objects, templates, config)) == unoriented_items(
            objects,
        ).to_multiset(),
{
    broadcast use vstd::multiset::group_multiset_axioms;

    if objects.len() > 0 && templates.len() == 0 {
        lemma_all_rejected_accounts(objects);
        assert(accounted(packing_run(objects, templates, config)) =~= unoriented_items(
            objects,
        ).to_multiset());
    } else {
        lemma_placement_order(objects, config);
        lemma_run_accounts(placement_order(objects, config), sorted_blueprints(templates), config);
        lemma_unoriented_same_elements(placement_order(objects, config), objects);
    }
}

} // verus!
