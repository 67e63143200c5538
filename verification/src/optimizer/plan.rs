//! The allocation plan as mathematics: what happens to one item, and to a whole
//! sequence of items, given the containers that are open and the templates at hand.

use vstd::prelude::*;
use crate::model::{Box3D, ContainerBlueprint, ContainerModel, PlacedBox};
use crate::optimizer::cluster::clustered;
use crate::optimizer::config::PackingConfig;
use crate::optimizer::diagnostics::{container_diagnostics, summary_of, DiagnosticsModel};
use crate::optimizer::orientation::orientations;
use crate::optimizer::outcome::{EventModel, ResultModel, UnplacedBox, UnplacedReason};
use crate::optimizer::search::{best_position, placed_at};
use crate::optimizer::sorting::{sorted_blueprints, sorted_items};

verus! {

/// The least index below `n` at which `p` holds; `n` when there is none.
pub open spec fn first_index(n: int, p: spec_fn(int) -> bool) -> int
    decreases n,
{
    if n <= 0 {
        0
    } else {
        let before = first_index(n - 1, p);
        if before < n - 1 {
            before
        } else if p(n - 1) {
            n - 1
        } else {
            n
        }
    }
}

/// The first index is the first: `p` holds there, and nowhere before.
pub proof fn lemma_first_index(n: int, p: spec_fn(int) -> bool)
    requires
        0 <= n,
    ensures
        0 <= first_index(n, p) <= n,
        first_index(n, p) < n ==> p(first_index(n, p)),
        forall|k: int| 0 <= k < first_index(n, p) ==> !#[trigger] p(k),
    decreases n,
{
    if n > 0 {
        lemma_first_index(n - 1, p);
    }
}

/// An index at which `p` holds, with none before it, is the first index.
pub proof fn lemma_first_index_is(n: int, p: spec_fn(int) -> bool, at: int)
    requires
        0 <= at <= n,
        at < n ==> p(at),
        forall|k: int| 0 <= k < at ==> !#[trigger] p(k),
    ensures
        first_index(n, p) == at,
{
    lemma_first_index(n, p);
    let f = first_index(n, p);
    if f < at {
        assert(!p(f));
    }
}

/// The container accepts the oriented item: the position search finds a position.
pub open spec fn accepts(cont: ContainerModel, oriented: Box3D, config: PackingConfig) -> bool {
    best_position(oriented, cont, config) is Some
}

/// Which of the open containers accept the oriented item.
pub open spec fn accepting(containers: Seq<ContainerModel>, oriented: Box3D, config: PackingConfig) -> spec_fn(
    int,
) -> bool {
    |i: int| accepts(containers[i], oriented, config)
}

/// Index of the first open container that accepts the oriented item; the number of
/// containers when none does.
pub open spec fn first_accepting(
    containers: Seq<ContainerModel>,
    oriented: Box3D,
    config: PackingConfig,
) -> int {
    first_index(containers.len() as int, accepting(containers, oriented, config))
}

/// Which of the templates give a fresh container that accepts the oriented item.
pub open spec fn fitting(templates: Seq<ContainerBlueprint>, oriented: Box3D, config: PackingConfig) -> spec_fn(
    int,
) -> bool {
    |i: int| accepts(templates[i].fresh(), oriented, config)
}

/// Index of the first template whose fresh container accepts the oriented item; the
/// number of templates when none does.
pub open spec fn first_fitting(
    templates: Seq<ContainerBlueprint>,
    oriented: Box3D,
    config: PackingConfig,
) -> int {
    first_index(templates.len() as int, fitting(templates, oriented, config))
}

/// Which of the orientations some open container accepts.
pub open spec fn placeable_open(
    containers: Seq<ContainerModel>,
    orients: Seq<Box3D>,
    config: PackingConfig,
) -> spec_fn(int) -> bool {
    |k: int| first_accepting(containers, orients[k], config) < containers.len()
}

/// Which of the orientations a fresh container of some template accepts.
pub open spec fn placeable_fresh(
    templates: Seq<ContainerBlueprint>,
    orients: Seq<Box3D>,
    config: PackingConfig,
) -> spec_fn(int) -> bool {
    |k: int| first_fitting(templates, orients[k], config) < templates.len()
}

/// The item is heavier than the template allows, beyond the general tolerance.
pub open spec fn weight_blocked(t: ContainerBlueprint, object: Box3D, config: PackingConfig) -> bool {
    object.weight > t.max_weight + config.general_epsilon
}

/// The oriented item is longer than the template on some axis, beyond the general
/// tolerance.
pub open spec fn dimension_blocked(t: ContainerBlueprint, oriented: Box3D, config: PackingConfig) -> bool {
    ||| oriented.dims.0 > t.dims.0 + config.general_epsilon
    ||| oriented.dims.1 > t.dims.1 + config.general_epsilon
    ||| oriented.dims.2 > t.dims.2 + config.general_epsilon
}

/// Every template is too weak for the item.
pub open spec fn all_weight_blocked(
    templates: Seq<ContainerBlueprint>,
    object: Box3D,
    config: PackingConfig,
) -> bool {
    forall|i: int| 0 <= i < templates.len() ==> weight_blocked(#[trigger] templates[i], object, config)
}

/// Every template is too small for every orientation of the item.
pub open spec fn all_dimension_blocked(
    templates: Seq<ContainerBlueprint>,
    orients: Seq<Box3D>,
    config: PackingConfig,
) -> bool {
    forall|i: int, k: int|
        0 <= i < templates.len() && 0 <= k < orients.len() ==> dimension_blocked(
            #[trigger] templates[i],
            #[trigger] orients[k],
            config,
        )
}

/// The reason for which an item that found no place is rejected: its dimensions when
/// there is no template; its weight when every template is too weak for it; its
/// dimensions when every template is too small for every admissible orientation;
/// else the lack of a stable position.
pub open spec fn unfit_reason(
    templates: Seq<ContainerBlueprint>,
    object: Box3D,
    config: PackingConfig,
) -> UnplacedReason {
    if templates.len() == 0 {
        UnplacedReason::DimensionsExceedContainer
    } else if all_weight_blocked(templates, object, config) {
        UnplacedReason::TooHeavyForContainer
    } else if all_dimension_blocked(
        templates,
        orientations(object, config.allow_item_rotation),
        config,
    ) {
        UnplacedReason::DimensionsExceedContainer
    } else {
        UnplacedReason::NoStablePosition
    }
}

/// What happens to an item.
pub enum Outcome {
    /// It goes, in the given orientation and position, into the open container with
    /// the given index.
    Existing { container: int, placed: PlacedBox },
    /// It goes, in the given orientation and position, into a fresh container of the
    /// template with the given index.
    Fresh { template: int, placed: PlacedBox },
    /// It stays unplaced.
    Rejected { reason: UnplacedReason },
}

/// The open containers and the unplaced items of a run.
pub struct RunModel {
    pub containers: Seq<ContainerModel>,
    pub unplaced: Seq<UnplacedBox>,
}

/// What happens to `object`: the first orientation that some open container accepts
/// goes into the first such container; if there is none, the first orientation that a
/// fresh container of some template accepts goes into a fresh container of the first
/// such template; if there is none either, the item is rejected.
pub open spec fn decide(
    containers: Seq<ContainerModel>,
    templates: Seq<ContainerBlueprint>,
    object: Box3D,
    config: PackingConfig,
) -> Outcome {
    let orients = orientations(object, config.allow_item_rotation);
    let in_open = first_index(orients.len() as int, placeable_open(containers, orients, config));
    let in_fresh = first_index(orients.len() as int, placeable_fresh(templates, orients, config));
    if in_open < orients.len() {
        let oriented = orients[in_open];
        let container = first_accepting(containers, oriented, config);
        Outcome::Existing {
            container,
            placed: placed_at(
                oriented,
                best_position(oriented, containers[container], config).unwrap(),
            ),
        }
    } else if in_fresh < orients.len() {
        let oriented = orients[in_fresh];
        let template = first_fitting(templates, oriented, config);
        Outcome::Fresh {
            template,
            placed: placed_at(
                oriented,
                best_position(oriented, templates[template].fresh(), config).unwrap(),
            ),
        }
    } else {
        Outcome::Rejected { reason: unfit_reason(templates, object, config) }
    }
}

/// The run after the outcome for `object` has been carried out.
pub open spec fn apply(
    run: RunModel,
    templates: Seq<ContainerBlueprint>,
    object: Box3D,
    outcome: Outcome,
) -> RunModel {
    match outcome {
        Outcome::Existing { container, placed } => RunModel {
            containers: run.containers.update(container, run.containers[container].with_box(placed)),
            unplaced: run.unplaced,
        },
        Outcome::Fresh { template, placed } => RunModel {
            containers: run.containers.push(templates[template].fresh().with_box(placed)),
            unplaced: run.unplaced,
        },
        Outcome::Rejected { reason } => RunModel {
            containers: run.containers,
            unplaced: run.unplaced.push(UnplacedBox { object, reason }),
        },
    }
}

/// The run after one more item.
pub open spec fn place(
    run: RunModel,
    templates: Seq<ContainerBlueprint>,
    object: Box3D,
    config: PackingConfig,
) -> RunModel {
    apply(run, templates, object, decide(run.containers, templates, object, config))
}

/// The run before any item.
pub open spec fn empty_run() -> RunModel {
    RunModel { containers: Seq::<ContainerModel>::empty(), unplaced: Seq::<UnplacedBox>::empty() }
}

/// The run after the items have been handled one after the other.
pub open spec fn run_of(
    items: Seq<Box3D>,
    templates: Seq<ContainerBlueprint>,
    config: PackingConfig,
) -> RunModel
    decreases items.len(),
{
    if items.len() == 0 {
        empty_run()
    } else {
        place(run_of(items.drop_last(), templates, config), templates, items.last(), config)
    }
}

/// The event that reports a rejected item.
pub open spec fn rejection_event(object: Box3D, reason: UnplacedReason) -> EventModel {
    EventModel::ObjectRejected {
        id: object.id,
        weight: object.weight,
        dims: object.dims,
        reason_code: reason.spec_code(),
        reason_text: reason.spec_text(),
    }
}

/// The events that report that `placed` went into the container `cont`, now number
/// `number`: the placement, then the new diagnostics of the container.
pub open spec fn placement_events(cont: ContainerModel, number: int, config: PackingConfig) -> Seq<
    EventModel,
> {
    let placed = cont.placed.last();
    seq![
        EventModel::ObjectPlaced {
            container_id: number as usize,
            id: placed.object.id,
            pos: placed.position,
            weight: placed.object.weight,
            dims: placed.object.dims,
            total_weight: cont.total_weight() as i64,
        },
        EventModel::ContainerDiagnostics {
            container_id: number as usize,
            diagnostics: container_diagnostics(cont, config),
        },
    ]
}

/// The event that reports a fresh container.
pub open spec fn start_event(cont: ContainerModel, number: int) -> EventModel {
    EventModel::ContainerStarted {
        id: number as usize,
        dims: cont.dims,
        max_weight: cont.max_weight,
        label: cont.label,
        template_id: cont.template_id,
    }
}

/// The events of one item: for a placement in an open container the placement and the
/// diagnostics; for a fresh container its start first; for a rejection the rejection.
pub open spec fn step_events(
    run_before: RunModel,
    templates: Seq<ContainerBlueprint>,
    object: Box3D,
    config: PackingConfig,
) -> Seq<EventModel> {
    let outcome = decide(run_before.containers, templates, object, config);
    let after = apply(run_before, templates, object, outcome);
    match outcome {
        Outcome::Existing { container, placed } => placement_events(
            after.containers[container],
            container + 1,
            config,
        ),
        Outcome::Fresh { template, placed } => seq![
            start_event(after.containers.last(), after.containers.len() as int),
        ] + placement_events(after.containers.last(), after.containers.len() as int, config),
        Outcome::Rejected { reason } => seq![rejection_event(object, reason)],
    }
}

/// The events of the items handled one after the other.
pub open spec fn run_events(
    items: Seq<Box3D>,
    templates: Seq<ContainerBlueprint>,
    config: PackingConfig,
) -> Seq<EventModel>
    decreases items.len(),
{
    if items.len() == 0 {
        Seq::<EventModel>::empty()
    } else {
        run_events(items.drop_last(), templates, config) + step_events(
            run_of(items.drop_last(), templates, config),
            templates,
            items.last(),
            config,
        )
    }
}

/// The run in which every item is rejected for its dimensions, in the given order.
pub open spec fn all_rejected(objects: Seq<Box3D>) -> Seq<UnplacedBox> {
    Seq::new(
        objects.len(),
        |i: int|
            UnplacedBox { object: objects[i], reason: UnplacedReason::DimensionsExceedContainer },
    )
}

/// The order in which the items of a run are handled: sorted, then clustered by
/// footprint.
pub open spec fn placement_order(objects: Seq<Box3D>, config: PackingConfig) -> Seq<Box3D> {
    clustered(sorted_items(objects), config.footprint_cluster_tolerance as int)
}

/// The run of a packing: without templates every item is rejected in the given order;
/// else the items are handled in placement order against the sorted templates.
pub open spec fn packing_run(
    objects: Seq<Box3D>,
    templates: Seq<ContainerBlueprint>,
    config: PackingConfig,
) -> RunModel {
    if objects.len() > 0 && templates.len() == 0 {
        RunModel {
            containers: Seq::<ContainerModel>::empty(),
            unplaced: all_rejected(objects),
        }
    } else {
        run_of(placement_order(objects, config), sorted_blueprints(templates), config)
    }
}

/// The diagnostics of each container of a sequence.
pub open spec fn diagnostics_of(containers: Seq<ContainerModel>, config: PackingConfig) -> Seq<
    DiagnosticsModel,
> {
    Seq::new(containers.len(), |i: int| container_diagnostics(containers[i], config))
}

/// The result of a run: its containers and its unplaced items, the diagnostics of each
/// container, and their summary.
pub open spec fn result_of(run: RunModel, config: PackingConfig) -> ResultModel {
    ResultModel {
        containers: run.containers,
        unplaced: run.unplaced,
        container_diagnostics: diagnostics_of(run.containers, config),
        diagnostics_summary: summary_of(diagnostics_of(run.containers, config)),
    }
}

/// The result of a packing: the result of its run.
pub open spec fn packing_result(
    objects: Seq<Box3D>,
    templates: Seq<ContainerBlueprint>,
    config: PackingConfig,
) -> ResultModel {
    result_of(packing_run(objects, templates, config), config)
}

/// The event that ends a packing.
pub open spec fn finish_event(result: ResultModel) -> EventModel {
    EventModel::Finished {
        containers: result.containers.len() as usize,
        unplaced: result.unplaced.len() as usize,
        diagnostics_summary: result.diagnostics_summary,
    }
}

/// The rejection events of the items, in the given order.
pub open spec fn rejection_events(objects: Seq<Box3D>) -> Seq<EventModel> {
    Seq::new(
        objects.len(),
        |i: int| rejection_event(objects[i], UnplacedReason::DimensionsExceedContainer),
    )
}

/// The events of a packing, in order: the events of each item as it is handled, then
/// the end of the run.
pub open spec fn packing_events(
    objects: Seq<Box3D>,
    templates: Seq<ContainerBlueprint>,
    config: PackingConfig,
) -> Seq<EventModel> {
    let steps = if objects.len() > 0 && templates.len() == 0 {
        rejection_events(objects)
    } else {
        run_events(placement_order(objects, config), sorted_blueprints(templates), config)
    };
    steps.push(finish_event(packing_result(objects, templates, config)))
}

/// Number of boxes in all containers.
pub open spec fn placed_count(containers: Seq<ContainerModel>) -> int
    decreases containers.len(),
{
    if containers.len() == 0 {
        0
    } else {
        placed_count(containers.drop_last()) + containers.last().placed.len()
    }
}

/// Number of items that a run has handled: the placed ones and the unplaced ones.
pub open spec fn handled(run: RunModel) -> int {
    placed_count(run.containers) + run.unplaced.len()
}

/// No container holds more boxes than all containers together.
pub proof fn lemma_placed_count_bounds(containers: Seq<ContainerModel>)
    ensures
        placed_count(containers) >= 0,
        forall|i: int|
            0 <= i < containers.len() ==> (#[trigger] containers[i]).placed.len() <= placed_count(
                containers,
            ),
    decreases containers.len(),
{
    if containers.len() > 0 {
        let rest = containers.drop_last();
        lemma_placed_count_bounds(rest);
        assert forall|i: int| 0 <= i < containers.len() implies (
        #[trigger] containers[i]).placed.len() <= placed_count(containers) by {
            if i < rest.len() {
                assert(rest[i] == containers[i]);
            }
        }
    }
}

/// With at least one box in each container there are no more containers than boxes.
pub proof fn lemma_placed_count_containers(containers: Seq<ContainerModel>)
    requires
        forall|i: int| 0 <= i < containers.len() ==> (#[trigger] containers[i]).placed.len() >= 1,
    ensures
        containers.len() <= placed_count(containers),
    decreases containers.len(),
{
    if containers.len() > 0 {
        let rest = containers.drop_last();
        assert forall|i: int| 0 <= i < rest.len() implies (#[trigger] rest[i]).placed.len() >= 1 by {
            assert(rest[i] == containers[i]);
        }
        lemma_placed_count_containers(rest);
        assert(containers[containers.len() - 1].placed.len() >= 1);
    }
}

/// One more box in one container is one more box in all.
pub proof fn lemma_placed_count_update(containers: Seq<ContainerModel>, at: int, p: PlacedBox)
    requires
        0 <= at < containers.len(),
    ensures
        placed_count(containers.update(at, containers[at].with_box(p))) == placed_count(containers)
            + 1,
    decreases containers.len(),
{
    let updated = containers.update(at, containers[at].with_box(p));
    let rest = containers.drop_last();
    if at == containers.len() - 1 {
        assert(updated.drop_last() =~= rest);
    } else {
        assert(updated.drop_last() =~= rest.update(at, rest[at].with_box(p)));
        lemma_placed_count_update(rest, at, p);
    }
}

/// A further container adds its boxes to the count.
pub proof fn lemma_placed_count_push(containers: Seq<ContainerModel>, cont: ContainerModel)
    ensures
        placed_count(containers.push(cont)) == placed_count(containers) + cont.placed.len(),
{
    assert(containers.push(cont).drop_last() =~= containers);
}

} // verus!
