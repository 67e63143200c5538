//! What holds of every container that the engine fills, and why each placement keeps it.

use vstd::prelude::*;
use crate::fixed::MAX_ITEMS;
use crate::geometry::{boxes_intersect, overlap_x, overlap_y, touches_top};
use crate::model::{all_valid, lemma_sums_push, Box3D, ContainerModel, PlacedBox};
use crate::optimizer::config::PackingConfig;
use crate::optimizer::search::{legal_placement, placed_at, within_container};
use crate::optimizer::stability::{is_support, on_floor, stable_on, weight_supported};

verus! {

/// No two boxes of the sequence intersect.
pub open spec fn no_overlap(placed: Seq<PlacedBox>) -> bool {
    forall|i: int, j: int|
        0 <= i < placed.len() && 0 <= j < placed.len() && i != j ==> !boxes_intersect(
            placed[i],
            placed[j],
        )
}

/// The total weight is at most the weight limit plus the general tolerance.
pub open spec fn within_capacity(cont: ContainerModel, config: PackingConfig) -> bool {
    cont.total_weight() <= cont.max_weight + config.general_epsilon
}

/// Every box stays inside the container, with the general tolerance.
pub open spec fn all_inside(cont: ContainerModel, config: PackingConfig) -> bool {
    forall|i: int|
        0 <= i < cont.placed.len() ==> within_container(#[trigger] cont.placed[i], cont.dims, config)
}

/// Every box was stable on the boxes placed before it: it rested on the floor, or the
/// three stability rules held for it.
pub open spec fn stable_when_placed(placed: Seq<PlacedBox>, config: PackingConfig) -> bool {
    forall|j: int| 0 <= j < placed.len() ==> stable_on(#[trigger] placed[j], placed.take(j), config)
}

/// Weight layering: a box above the floor tolerance is never heavier, by more than the
/// general tolerance, than a box placed before it on whose top it rests with
/// overlapping footprints.
pub open spec fn weight_layered(placed: Seq<PlacedBox>, config: PackingConfig) -> bool {
    forall|lower: int, upper: int|
        0 <= lower < upper < placed.len() && !on_floor(placed[upper], config) && touches_top(
            placed[upper],
            placed[lower],
            config.height_epsilon as int,
        ) && overlap_x(placed[upper], placed[lower]) > 0 && overlap_y(placed[upper], placed[lower])
            > 0 ==> placed[lower].object.weight + config.general_epsilon
            >= placed[upper].object.weight
}

/// A well packed container: valid, without overlaps, within its weight capacity, with
/// every box inside it and stable when it was placed.
pub open spec fn well_packed(cont: ContainerModel, config: PackingConfig) -> bool {
    &&& cont.valid()
    &&& no_overlap(cont.placed)
    &&& within_capacity(cont, config)
    &&& all_inside(cont, config)
    &&& stable_when_placed(cont.placed, config)
}

/// An empty container is well packed.
pub proof fn lemma_empty_well_packed(cont: ContainerModel, config: PackingConfig)
    requires
        cont.valid(),
        cont.placed.len() == 0,
        config.valid(),
    ensures
        well_packed(cont, config),
{
}

/// A legal placement of an item that can fit keeps a container well packed.
pub proof fn lemma_placement_keeps_well_packed(
    cont: ContainerModel,
    b: Box3D,
    position: (i64, i64, i64),
    config: PackingConfig,
)
    requires
        well_packed(cont, config),
        config.valid(),
        cont.placed.len() < MAX_ITEMS,
        cont.can_fit(b),
        placed_at(b, position).valid(),
        legal_placement(placed_at(b, position), cont.dims, cont.placed, config),
    ensures
        well_packed(cont.with_box(placed_at(b, position)), config),
{
    let cand = placed_at(b, position);
    let next = cont.with_box(cand);
    let n = cont.placed.len() as int;
    lemma_sums_push(cont.placed, cand);
    assert(all_valid(next.placed)) by {
        assert forall|i: int| 0 <= i < next.placed.len() implies (#[trigger] next.placed[i]).valid() by {
            if i < n {
                assert(cont.placed[i].valid());
            }
        }
    }
    assert(no_overlap(next.placed)) by {
        assert forall|i: int, j: int|
            0 <= i < next.placed.len() && 0 <= j < next.placed.len() && i != j
            implies !boxes_intersect(next.placed[i], next.placed[j]) by {
            if i < n && j < n {
                assert(!boxes_intersect(cont.placed[i], cont.placed[j]));
            } else if i < n {
                assert(!boxes_intersect(cont.placed[i], cand));
            } else {
                assert(!boxes_intersect(cont.placed[j], cand));
            }
        }
    }
    assert(all_inside(next, config)) by {
        assert forall|i: int| 0 <= i < next.placed.len() implies within_container(
            #[trigger] next.placed[i],
            next.dims,
            config,
        ) by {
            if i < n {
                assert(within_container(cont.placed[i], cont.dims, config));
            }
        }
    }
    assert(stable_when_placed(next.placed, config)) by {
        assert forall|j: int| 0 <= j < next.placed.len() implies stable_on(
            #[trigger] next.placed[j],
            next.placed.take(j),
            config,
        ) by {
            if j < n {
                assert(next.placed.take(j) =~= cont.placed.take(j));
                assert(stable_on(cont.placed[j], cont.placed.take(j), config));
            } else {
                assert(next.placed.take(j) =~= cont.placed);
            }
        }
    }
}

/// In a container where every box was stable when placed, the weights are layered.
pub proof fn lemma_stable_is_layered(placed: Seq<PlacedBox>, config: PackingConfig)
    requires
        stable_when_placed(placed, config),
    ensures
        weight_layered(placed, config),
{
    assert forall|lower: int, upper: int|
        0 <= lower < upper < placed.len() && !on_floor(placed[upper], config) && touches_top(
            placed[upper],
            placed[lower],
            config.height_epsilon as int,
        ) && overlap_x(placed[upper], placed[lower]) > 0 && overlap_y(placed[upper], placed[lower])
            > 0 implies placed[lower].object.weight + config.general_epsilon
        >= placed[upper].object.weight by {
        let before = placed.take(upper);
        assert(stable_on(placed[upper], before, config));
        assert(weight_supported(placed[upper], before, config));
        assert(before[lower] == placed[lower]);
        assert(is_support(placed[upper], before[lower], config));
    }
}

} // verus!
