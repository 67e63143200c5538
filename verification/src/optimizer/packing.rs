//! The allocation loop: items are sorted and clustered, each is tried in the open
//! containers and then in fresh ones, and what finds no place is rejected with a reason.

use vstd::prelude::*;
use vstd::string::StringExecFns;
use crate::fixed::MAX_ITEMS;
use crate::model::{
    clone_label, weight_sum, Box3D, Container, ContainerBlueprint, ContainerModel, PlacedBox,
};
use crate::optimizer::cluster::FootprintClusterStrategy;
use crate::optimizer::config::PackingConfig;
use crate::optimizer::diagnostics::{
    all_plausible, compute_container_diagnostics, container_diagnostics, plausible,
    summarize_diagnostics, ContainerDiagnostics,
};
use crate::optimizer::invariants::{
    lemma_empty_well_packed, lemma_placement_keeps_well_packed, lemma_stable_is_layered,
    weight_layered, well_packed,
};
use crate::optimizer::orientation::{lemma_orientations_valid, orientations, orientations_for};
use crate::optimizer::outcome::{
    container_models, event_models, EventLog, EventModel, NoProgress, PackEvent, PackingResult,
    ProgressSink, ResultModel, UnplacedBox, UnplacedReason,
};
use crate::optimizer::plan::{
    accepting, accepts, all_dimension_blocked, all_rejected, all_weight_blocked, apply,
    diagnostics_of, dimension_blocked, empty_run, finish_event, first_accepting, first_fitting,
    first_index, fitting, handled, lemma_first_index_is, lemma_placed_count_bounds,
    lemma_placed_count_containers, lemma_placed_count_push, lemma_placed_count_update,
    packing_events, packing_result, place, placeable_fresh, placeable_open, placed_count,
    placement_events, placement_order, rejection_event, rejection_events, result_of, run_events,
    run_of, start_event, step_events, unfit_reason, weight_blocked, Outcome, RunModel,
};
use crate::optimizer::search::{best_position, find_stable_position, legal_placement, placed_at};
use crate::optimizer::sorting::{
    all_blueprints_valid, all_items_valid, sort_blueprints, sort_items,
};

verus! {

/// The state of a run: the open containers, the unplaced items, and the diagnostics of
/// each container.
pub struct PackingRun {
    pub containers: Vec<Container>,
    pub unplaced: Vec<UnplacedBox>,
    pub container_diagnostics: Vec<ContainerDiagnostics>,
}

/// A container that was found for an item: the index of the orientation, the index of
/// the container or template, and the position.
struct Found {
    orientation: usize,
    target: usize,
    position: (i64, i64, i64),
}

impl View for PackingRun {
    type V = RunModel;

    open spec fn view(&self) -> RunModel {
        RunModel { containers: container_models(self.containers@), unplaced: self.unplaced@ }
    }
}

impl PackingRun {
    /// Every container is well packed and holds at least one box, and the diagnostics
    /// are those of the containers as they are.
    pub open spec fn wf(&self, config: PackingConfig) -> bool {
        &&& self.container_diagnostics@.len() == self.containers@.len()
        &&& forall|i: int|
            0 <= i < self.containers@.len() ==> well_packed(
                (#[trigger] self.containers@[i])@,
                config,
            ) && self.containers@[i]@.placed.len() >= 1
        &&& forall|i: int|
            0 <= i < self.containers@.len() ==> (#[trigger] self.container_diagnostics@[i])@
                == container_diagnostics(self.containers@[i]@, config) && plausible(
                self.container_diagnostics@[i]@,
            )
    }

    /// The run before any item.
    pub fn new() -> (run: Self)
        ensures
            run@ == empty_run(),
            run.containers@.len() == 0,
            run.unplaced@.len() == 0,
            run.container_diagnostics@.len() == 0,
            forall|config: PackingConfig| run.wf(config),
    {
        let run = Self {
            containers: Vec::new(),
            unplaced: Vec::new(),
            container_diagnostics: Vec::new(),
        };
        assert(run@.containers =~= Seq::<ContainerModel>::empty());
        run
    }
}

/// Searches the open containers for the first orientation that one of them accepts,
/// and for the first container that accepts it.
fn find_in_open(containers: &Vec<Container>, orients: &Vec<Box3D>, config: &PackingConfig) -> (r:
    Option<Found>)
    requires
        config.valid(),
        all_items_valid(orients@),
        forall|i: int| 0 <= i < containers@.len() ==> (#[trigger] containers@[i]).valid(),
    ensures
        r is None ==> first_index(
            orients@.len() as int,
            placeable_open(container_models(containers@), orients@, *config),
        ) == orients@.len(),
        r matches Some(f) ==> {
            &&& f.orientation < orients@.len()
            &&& f.target < containers@.len()
            &&& f.orientation == first_index(
                orients@.len() as int,
                placeable_open(container_models(containers@), orients@, *config),
            )
            &&& f.target == first_accepting(
                container_models(containers@),
                orients@[f.orientation as int],
                *config,
            )
            &&& best_position(orients@[f.orientation as int], containers@[f.target as int]@, *config)
                == Some(f.position)
            &&& containers@[f.target as int]@.can_fit(orients@[f.orientation as int])
            &&& placed_at(orients@[f.orientation as int], f.position).valid()
            &&& legal_placement(
                placed_at(orients@[f.orientation as int], f.position),
                containers@[f.target as int].dims,
                containers@[f.target as int].placed@,
                *config,
            )
        },
{
    let ghost models = container_models(containers@);
    let ghost open = placeable_open(models, orients@, *config);
    let mut k: usize = 0;
    while k < orients.len()
        invariant
            k <= orients@.len(),
            config.valid(),
            all_items_valid(orients@),
            forall|i: int| 0 <= i < containers@.len() ==> (#[trigger] containers@[i]).valid(),
            models == container_models(containers@),
            open == placeable_open(models, orients@, *config),
            forall|j: int| 0 <= j < k ==> !#[trigger] open(j),
        decreases orients@.len() - k,
    {
        let oriented = &orients[k];
        assert(oriented.valid());
        let ghost takes = accepting(models, *oriented, *config);
        let mut idx: usize = 0;
        while idx < containers.len()
            invariant
                idx <= containers@.len(),
                k < orients@.len(),
                *oriented == orients@[k as int],
                oriented.valid(),
                config.valid(),
                forall|i: int| 0 <= i < containers@.len() ==> (#[trigger] containers@[i]).valid(),
                models == container_models(containers@),
                open == placeable_open(models, orients@, *config),
                takes == accepting(models, *oriented, *config),
                forall|j: int| 0 <= j < k ==> !#[trigger] open(j),
                forall|c: int| 0 <= c < idx ==> !#[trigger] takes(c),
            decreases containers@.len() - idx,
        {
            let cont = &containers[idx];
            assert(cont.valid());
            assert(models[idx as int] == cont@);
            if cont.can_fit(oriented) {
                match find_stable_position(oriented, cont, config) {
                    Some(position) => {
                        proof {
                            assert(takes(idx as int));
                            lemma_first_index_is(containers@.len() as int, takes, idx as int);
                            assert(open(k as int));
                            lemma_first_index_is(orients@.len() as int, open, k as int);
                        }
                        return Some(Found { orientation: k, target: idx, position });
                    },
                    None => {},
                }
            }
            assert(!takes(idx as int));
            idx = idx + 1;
        }
        proof {
            lemma_first_index_is(containers@.len() as int, takes, containers@.len() as int);
            assert(!open(k as int));
        }
        k = k + 1;
    }
    proof {
        lemma_first_index_is(orients@.len() as int, open, orients@.len() as int);
    }
    None
}

/// Searches the templates for the first orientation that a fresh container of one of
/// them accepts, and for the first template that does.
fn find_in_fresh(templates: &Vec<ContainerBlueprint>, orients: &Vec<Box3D>, config: &PackingConfig) -> (r:
    Option<Found>)
    requires
        config.valid(),
        all_items_valid(orients@),
        all_blueprints_valid(templates@),
    ensures
        r is None ==> first_index(
            orients@.len() as int,
            placeable_fresh(templates@, orients@, *config),
        ) == orients@.len(),
        r matches Some(f) ==> {
            &&& f.orientation < orients@.len()
            &&& f.target < templates@.len()
            &&& f.orientation == first_index(
                orients@.len() as int,
                placeable_fresh(templates@, orients@, *config),
            )
            &&& f.target == first_fitting(templates@, orients@[f.orientation as int], *config)
            &&& best_position(
                orients@[f.orientation as int],
                templates@[f.target as int].fresh(),
                *config,
            ) == Some(f.position)
            &&& templates@[f.target as int].fresh().can_fit(orients@[f.orientation as int])
            &&& placed_at(orients@[f.orientation as int], f.position).valid()
            &&& legal_placement(
                placed_at(orients@[f.orientation as int], f.position),
                templates@[f.target as int].dims,
                Seq::<PlacedBox>::empty(),
                *config,
            )
        },
{
    let ghost fresh = placeable_fresh(templates@, orients@, *config);
    let mut k: usize = 0;
    while k < orients.len()
        invariant
            k <= orients@.len(),
            config.valid(),
            all_items_valid(orients@),
            all_blueprints_valid(templates@),
            fresh == placeable_fresh(templates@, orients@, *config),
            forall|j: int| 0 <= j < k ==> !#[trigger] fresh(j),
        decreases orients@.len() - k,
    {
        let oriented = &orients[k];
        assert(oriented.valid());
        let ghost fits = fitting(templates@, *oriented, *config);
        let mut idx: usize = 0;
        while idx < templates.len()
            invariant
                idx <= templates@.len(),
                k < orients@.len(),
                *oriented == orients@[k as int],
                oriented.valid(),
                config.valid(),
                all_blueprints_valid(templates@),
                fresh == placeable_fresh(templates@, orients@, *config),
                fits == fitting(templates@, *oriented, *config),
                forall|j: int| 0 <= j < k ==> !#[trigger] fresh(j),
                forall|c: int| 0 <= c < idx ==> !#[trigger] fits(c),
            decreases templates@.len() - idx,
        {
            let template = &templates[idx];
            assert(template.valid());
            assert(weight_sum(template.fresh().placed) == 0);
            if template.can_fit(oriented) {
                let candidate = template.instantiate();
                match find_stable_position(oriented, &candidate, config) {
                    Some(position) => {
                        proof {
                            assert(fits(idx as int));
                            lemma_first_index_is(templates@.len() as int, fits, idx as int);
                            assert(fresh(k as int));
                            lemma_first_index_is(orients@.len() as int, fresh, k as int);
                        }
                        return Some(Found { orientation: k, target: idx, position });
                    },
                    None => {},
                }
            }
            assert(!fits(idx as int));
            idx = idx + 1;
        }
        proof {
            lemma_first_index_is(templates@.len() as int, fits, templates@.len() as int);
            assert(!fresh(k as int));
        }
        k = k + 1;
    }
    proof {
        lemma_first_index_is(orients@.len() as int, fresh, orients@.len() as int);
    }
    None
}

/// Whether every template is too weak for the item.
fn weight_blocked_everywhere(templates: &Vec<ContainerBlueprint>, object: &Box3D, config: &PackingConfig) -> (r:
    bool)
    ensures
        r == all_weight_blocked(templates@, *object, *config),
{
    let mut i: usize = 0;
    while i < templates.len()
        invariant
            i <= templates@.len(),
            forall|k: int| 0 <= k < i ==> weight_blocked(#[trigger] templates@[k], *object, *config),
        decreases templates@.len() - i,
    {
        if !(object.weight as i128 > templates[i].max_weight as i128
            + config.general_epsilon as i128) {
            assert(!weight_blocked(templates@[i as int], *object, *config));
            return false;
        }
        i = i + 1;
    }
    true
}

/// Whether the template is too small for the oriented item.
fn is_dimension_blocked(t: &ContainerBlueprint, oriented: &Box3D, config: &PackingConfig) -> (r: bool)
    ensures
        r == dimension_blocked(*t, *oriented, *config),
{
    let eps: i128 = config.general_epsilon as i128;
    oriented.dims.0 as i128 > t.dims.0 as i128 + eps || oriented.dims.1 as i128 > t.dims.1 as i128
        + eps || oriented.dims.2 as i128 > t.dims.2 as i128 + eps
}

/// Whether every template is too small for every orientation.
fn dimension_blocked_everywhere(
    templates: &Vec<ContainerBlueprint>,
    orients: &Vec<Box3D>,
    config: &PackingConfig,
) -> (r: bool)
    ensures
        r == all_dimension_blocked(templates@, orients@, *config),
{
    let mut i: usize = 0;
    while i < templates.len()
        invariant
            i <= templates@.len(),
            forall|a: int, b: int|
                0 <= a < i && 0 <= b < orients@.len() ==> dimension_blocked(
                    #[trigger] templates@[a],
                    #[trigger] orients@[b],
                    *config,
                ),
        decreases templates@.len() - i,
    {
        let mut k: usize = 0;
        while k < orients.len()
            invariant
                k <= orients@.len(),
                i < templates@.len(),
                forall|b: int|
                    0 <= b < k ==> dimension_blocked(
                        templates@[i as int],
                        #[trigger] orients@[b],
                        *config,
                    ),
            decreases orients@.len() - k,
        {
            if !is_dimension_blocked(&templates[i], &orients[k], config) {
                assert(!dimension_blocked(templates@[i as int], orients@[k as int], *config));
                return false;
            }
            k = k + 1;
        }
        i = i + 1;
    }
    true
}

/// The reason for which an item that found no place is rejected.
pub fn determine_unfit_reason_across_templates(
    templates: &Vec<ContainerBlueprint>,
    object: &Box3D,
    config: &PackingConfig,
) -> (r: UnplacedReason)
    ensures
        r == unfit_reason(templates@, *object, *config),
{
    if templates.len() == 0 {
        return UnplacedReason::DimensionsExceedContainer;
    }
    if weight_blocked_everywhere(templates, object, config) {
        return UnplacedReason::TooHeavyForContainer;
    }
    let orients = orientations_for(object, config.allow_item_rotation);
    if dimension_blocked_everywhere(templates, &orients, config) {
        return UnplacedReason::DimensionsExceedContainer;
    }
    UnplacedReason::NoStablePosition
}

/// The event that reports a rejected item.
fn rejected(object: &Box3D, reason: UnplacedReason) -> (e: PackEvent)
    ensures
        e@ == rejection_event(*object, reason),
{
    PackEvent::ObjectRejected {
        id: object.id,
        weight: object.weight,
        dims: object.dims,
        reason_code: String::from_str(reason.code()),
        reason_text: reason.to_text(),
    }
}

impl PackingRun {
    /// Appends the events that report the last placement into container `idx`, and
    /// stores the new diagnostics of that container.
    fn report_placement(&mut self, idx: usize, config: &PackingConfig, events: &mut Vec<PackEvent>)
        requires
            config.valid(),
            idx < old(self).containers@.len(),
            old(self).containers@.len() <= MAX_ITEMS,
            old(self).container_diagnostics@.len() == old(self).containers@.len(),
            old(self).containers@[idx as int].valid(),
            old(self).containers@[idx as int].placed@.len() >= 1,
        ensures
            final(self).containers@ == old(self).containers@,
            final(self).unplaced@ == old(self).unplaced@,
            final(self).container_diagnostics@.len() == old(self).container_diagnostics@.len(),
            forall|i: int|
                0 <= i < final(self).container_diagnostics@.len() && i != idx
                    ==> final(self).container_diagnostics@[i] == old(self).container_diagnostics@[i],
            final(self).container_diagnostics@[idx as int]@ == container_diagnostics(
                old(self).containers@[idx as int]@,
                *config,
            ),
            plausible(final(self).container_diagnostics@[idx as int]@),
            event_models(final(events)@) == event_models(old(events)@) + placement_events(
                old(self).containers@[idx as int]@,
                idx + 1,
                *config,
            ),
    {
        let cont = &self.containers[idx];
        let total_w: i64 = cont.total_weight();
        let placed = &cont.placed[cont.placed.len() - 1];
        let ghost before = event_models(events@);
        events.push(
            PackEvent::ObjectPlaced {
                container_id: idx + 1,
                id: placed.object.id,
                pos: placed.position,
                weight: placed.object.weight,
                dims: placed.object.dims,
                total_weight: total_w,
            },
        );
        let diagnostics = compute_container_diagnostics(cont, config);
        let copy = diagnostics.clone();
        events.push(PackEvent::ContainerDiagnostics { container_id: idx + 1, diagnostics });
        proof {
            assert(event_models(events@) =~= before + placement_events(
                old(self).containers@[idx as int]@,
                idx + 1,
                *config,
            ));
        }
        self.container_diagnostics[idx] = copy;
    }

    /// Ends the run: returns its result, with the summary of the diagnostics, and the
    /// event that reports the end.
    pub fn finish(self, config: &PackingConfig) -> (r: (PackingResult, PackEvent))
        requires
            self.wf(*config),
            handled(self@) <= MAX_ITEMS,
        ensures
            r.0@ == result_of(self@, *config),
            r.1@ == finish_event(r.0@),
            sound_result(r.0@, *config, handled(self@)),
            r.0.valid(),
            r.0.container_diagnostics@.len() == r.0.containers@.len(),
    {
        proof {
            lemma_placed_count_containers(self@.containers);
            lemma_placed_count_bounds(self@.containers);
            assert(all_plausible(self.container_diagnostics@));
        }
        let diagnostics_summary = summarize_diagnostics(&self.container_diagnostics);
        let finished = PackEvent::Finished {
            containers: self.containers.len(),
            unplaced: self.unplaced.len(),
            diagnostics_summary,
        };
        let result = PackingResult {
            containers: self.containers,
            unplaced: self.unplaced,
            container_diagnostics: self.container_diagnostics,
            diagnostics_summary,
        };
        proof {
            assert(result@.container_diagnostics =~= diagnostics_of(
                result@.containers,
                *config,
            ));
            assert forall|k: int| 0 <= k < result@.containers.len() implies well_packed(
                #[trigger] result@.containers[k],
                *config,
            ) && weight_layered(
                result@.containers[k].placed,
                *config,
            ) by {
                assert(well_packed(result.containers@[k]@, *config));
                lemma_stable_is_layered(
                    result@.containers[k].placed,
                    *config,
                );
            }
            assert forall|k: int| 0 <= k < result.containers@.len() implies (
            #[trigger] result.containers@[k]).valid() by {
                assert(well_packed(result.containers@[k]@, *config));
            }
        }
        (result, finished)
    }

    /// Handles one item: places it in the first open container that accepts one of its
    /// orientations, else in a fresh container of the first template that does, else
    /// records it as unplaced. Returns the events of this step, in order.
    pub fn place_item(
        &mut self,
        templates: &Vec<ContainerBlueprint>,
        object: Box3D,
        config: &PackingConfig,
    ) -> (events: Vec<PackEvent>)
        requires
            old(self).wf(*config),
            config.valid(),
            object.valid(),
            all_blueprints_valid(templates@),
            handled(old(self)@) < MAX_ITEMS,
        ensures
            final(self).wf(*config),
            final(self)@ == place(old(self)@, templates@, object, *config),
            handled(final(self)@) == handled(old(self)@) + 1,
            event_models(events@) == step_events(old(self)@, templates@, object, *config),
    {
        let orients = orientations_for(&object, config.allow_item_rotation);
        let ghost models = container_models(self.containers@);
        let ghost before = self@;
        proof {
            lemma_orientations_valid(object, config.allow_item_rotation);
            lemma_placed_count_bounds(models);
            lemma_placed_count_containers(models);
            assert(forall|i: int|
                0 <= i < self.containers@.len() ==> (#[trigger] self.containers@[i]).valid());
        }
        let mut events: Vec<PackEvent> = Vec::new();
        assert(event_models(events@) =~= Seq::<EventModel>::empty());
        match find_in_open(&self.containers, &orients, config) {
            Some(found) => {
                let oriented: Box3D = orients[found.orientation];
                let idx: usize = found.target;
                let placed = PlacedBox { object: oriented, position: found.position };
                proof {
                    assert(placed == placed_at(oriented, found.position));
                    assert(models[idx as int] == self.containers@[idx as int]@);
                    assert(models[idx as int].placed.len() <= placed_count(models));
                    assert(well_packed(self.containers@[idx as int]@, *config));
                    lemma_placement_keeps_well_packed(
                        models[idx as int],
                        oriented,
                        found.position,
                        *config,
                    );
                    lemma_placed_count_update(models, idx as int, placed);
                }
                self.containers[idx].placed.push(placed);
                proof {
                    assert(self.containers@[idx as int]@ == models[idx as int].with_box(placed));
                    assert(container_models(self.containers@) =~= models.update(
                        idx as int,
                        models[idx as int].with_box(placed),
                    ));
                }
                self.report_placement(idx, config, &mut events);
                proof {
                    assert(self@ == apply(
                        before,
                        templates@,
                        object,
                        Outcome::Existing { container: idx as int, placed },
                    ));
                }
                events
            },
            None => {
                match find_in_fresh(templates, &orients, config) {
                    Some(found) => {
                        let oriented: Box3D = orients[found.orientation];
                        let template = &templates[found.target];
                        let placed = PlacedBox { object: oriented, position: found.position };
                        let mut cont = template.instantiate();
                        let number: usize = self.containers.len() + 1;
                        events.push(
                            PackEvent::ContainerStarted {
                                id: number,
                                dims: cont.dims,
                                max_weight: cont.max_weight,
                                label: clone_label(&cont.label),
                                template_id: cont.template_id,
                            },
                        );
                        proof {
                            assert(placed == placed_at(oriented, found.position));
                            lemma_empty_well_packed(template.fresh(), *config);
                            lemma_placement_keeps_well_packed(
                                template.fresh(),
                                oriented,
                                found.position,
                                *config,
                            );
                            lemma_placed_count_push(models, template.fresh().with_box(placed));
                        }
                        cont.placed.push(placed);
                        let ghost fresh_model = template.fresh().with_box(placed);
                        assert(cont@ == fresh_model);
                        self.containers.push(cont);
                        let diagnostics = compute_container_diagnostics(
                            &self.containers[number - 1],
                            config,
                        );
                        self.container_diagnostics.push(diagnostics);
                        proof {
                            assert(container_models(self.containers@) =~= models.push(fresh_model));
                            assert(event_models(events@) =~= seq![
                                start_event(fresh_model, number as int),
                            ]);
                        }
                        self.report_placement(number - 1, config, &mut events);
                        proof {
                            assert(self@ == apply(
                                before,
                                templates@,
                                object,
                                Outcome::Fresh { template: found.target as int, placed },
                            ));
                        }
                        events
                    },
                    None => {
                        let reason = determine_unfit_reason_across_templates(
                            templates,
                            &object,
                            config,
                        );
                        events.push(rejected(&object, reason));
                        self.unplaced.push(UnplacedBox { object, reason });
                        proof {
                            assert(event_models(events@) =~= seq![rejection_event(object, reason)]);
                            assert(self@ == apply(
                                before,
                                templates@,
                                object,
                                Outcome::Rejected { reason },
                            ));
                        }
                        events
                    },
                }
            },
        }
    }
}


/// What a consumer has been handed of the events of a run: the events up to some point,
/// in order and without gaps; all of them unless it has stopped listening.
pub open spec fn handed_over(
    taken_before: Seq<EventModel>,
    taken_after: Seq<EventModel>,
    closed_after: bool,
    events: Seq<EventModel>,
) -> bool {
    exists|n: int|
        0 <= n <= events.len() && taken_after == taken_before + #[trigger] events.take(n) && (n
            == events.len() || closed_after)
}

/// The state of the consumer while a run goes on: as long as it listens it has been
/// handed every event so far; once it has stopped, it has been handed the events up to
/// the point at which it stopped.
spec fn delivered<S: ProgressSink>(
    sink: &S,
    taken_before: Seq<EventModel>,
    produced: Seq<EventModel>,
    listening: bool,
) -> bool {
    if listening {
        sink.taken() == taken_before + produced
    } else {
        sink.closed() && exists|n: int|
            0 <= n <= produced.len() && sink.taken() == taken_before + #[trigger] produced.take(n)
    }
}

/// Events that are produced after the consumer has stopped listening change nothing.
proof fn lemma_delivered_more<S: ProgressSink>(
    sink: &S,
    taken_before: Seq<EventModel>,
    produced: Seq<EventModel>,
    more: Seq<EventModel>,
)
    requires
        delivered(sink, taken_before, produced, false),
    ensures
        delivered(sink, taken_before, produced + more, false),
{
    let n = choose|n: int|
        0 <= n <= produced.len() && sink.taken() == taken_before + #[trigger] produced.take(n);
    assert((produced + more).take(n) =~= produced.take(n));
}

/// Hands the events to the consumer, in order, as long as it listens. Returns whether
/// it still listens.
fn forward<S: ProgressSink>(
    events: &Vec<PackEvent>,
    sink: &mut S,
    listening: bool,
    Ghost(taken_before): Ghost<Seq<EventModel>>,
    Ghost(produced): Ghost<Seq<EventModel>>,
) -> (still: bool)
    requires
        delivered(old(sink), taken_before, produced, listening),
    ensures
        delivered(final(sink), taken_before, produced + event_models(events@), still),
{
    let mut still: bool = listening;
    let mut i: usize = 0;
    assert(produced + event_models(events@).take(0) =~= produced);
    while i < events.len()
        invariant
            i <= events@.len(),
            delivered(sink, taken_before, produced + event_models(events@).take(i as int), still),
        decreases events@.len() - i,
    {
        let ghost so_far = produced + event_models(events@).take(i as int);
        let ghost next = produced + event_models(events@).take(i as int + 1);
        proof {
            assert(next =~= so_far.push(events@[i as int]@));
        }
        if still {
            still = sink.emit(&events[i]);
            proof {
                assert(sink.taken() =~= taken_before + next);
                if !still {
                    assert(next.take(next.len() as int) =~= next);
                }
            }
        } else {
            proof {
                lemma_delivered_more(&*sink, taken_before, so_far, seq![events@[i as int]@]);
                assert(so_far + seq![events@[i as int]@] =~= next);
            }
        }
        i = i + 1;
    }
    assert(event_models(events@).take(events@.len() as int) =~= event_models(events@));
    still
}

/// What holds of the result of every packing: every container is well packed, with its
/// weights layered, and every item is either in a container or among the unplaced.
pub open spec fn sound_result(
    result: ResultModel,
    config: PackingConfig,
    items: int,
) -> bool {
    &&& forall|i: int|
        0 <= i < result.containers.len() ==> well_packed(#[trigger] result.containers[i], config)
            && weight_layered(result.containers[i].placed, config)
    &&& placed_count(result.containers) + result.unplaced.len() == items
}

/// Packs the items as `pack_objects_with_config` does and hands every event to the
/// consumer as it happens: the events of each item as it is handled, then the end of
/// the run. Once the consumer has stopped listening nothing more is sent to it; the
/// result does not depend on the consumer.
pub fn pack_objects_with_progress<S: ProgressSink>(
    objects: Vec<Box3D>,
    container_templates: Vec<ContainerBlueprint>,
    config: PackingConfig,
    sink: &mut S,
) -> (result: PackingResult)
    requires
        all_items_valid(objects@),
        all_blueprints_valid(container_templates@),
        config.valid(),
        objects@.len() <= MAX_ITEMS,
    ensures
        result@ == packing_result(objects@, container_templates@, config),
        sound_result(result@, config, objects@.len() as int),
        result.valid(),
        result.container_diagnostics@.len() == result.containers@.len(),
        handed_over(
            old(sink).taken(),
            final(sink).taken(),
            final(sink).closed(),
            packing_events(objects@, container_templates@, config),
        ),
{
    let ghost taken_before = sink.taken();
    let ghost mut produced = Seq::<EventModel>::empty();
    let mut listening: bool = true;
    let mut run = PackingRun::new();
    assert(taken_before + produced =~= taken_before);
    if objects.len() > 0 && container_templates.len() == 0 {
        let mut i: usize = 0;
        while i < objects.len()
            invariant
                i <= objects@.len(),
                run.containers@.len() == 0,
                run.container_diagnostics@.len() == 0,
                run.unplaced@ == all_rejected(objects@).take(i as int),
                produced == rejection_events(objects@).take(i as int),
                delivered(sink, taken_before, produced, listening),
            decreases objects@.len() - i,
        {
            let object: Box3D = objects[i];
            let reason = UnplacedReason::DimensionsExceedContainer;
            let mut events: Vec<PackEvent> = Vec::new();
            events.push(rejected(&object, reason));
            listening = forward(&events, sink, listening, Ghost(taken_before), Ghost(produced));
            proof {
                assert(event_models(events@) =~= seq![rejection_event(object, reason)]);
                produced = produced + event_models(events@);
                assert(produced =~= rejection_events(objects@).take(
                    i as int + 1,
                ));
            }
            run.unplaced.push(UnplacedBox { object, reason });
            assert(run.unplaced@ =~= all_rejected(objects@).take(
                i as int + 1,
            ));
            i = i + 1;
        }
        proof {
            assert(all_rejected(objects@).take(i as int)
                =~= all_rejected(objects@));
            assert(rejection_events(objects@).take(i as int)
                =~= rejection_events(objects@));
            assert(container_models(run.containers@) =~= Seq::<ContainerModel>::empty());
        }
    } else {
        let ordered = placement_queue(objects, &config);
        let templates = sort_blueprints(container_templates);
        let mut i: usize = 0;
        assert(ordered@.take(0) =~= Seq::<Box3D>::empty());
        while i < ordered.len()
            invariant
                i <= ordered@.len() <= MAX_ITEMS,
                config.valid(),
                all_items_valid(ordered@),
                all_blueprints_valid(templates@),
                run.wf(config),
                run@ == run_of(ordered@.take(i as int), templates@, config),
                handled(run@) == i,
                produced == run_events(
                    ordered@.take(i as int),
                    templates@,
                    config,
                ),
                delivered(sink, taken_before, produced, listening),
            decreases ordered@.len() - i,
        {
            let object: Box3D = ordered[i];
            assert(object.valid());
            assert(ordered@.take(i as int + 1).drop_last() =~= ordered@.take(i as int));
            let events = run.place_item(&templates, object, &config);
            listening = forward(&events, sink, listening, Ghost(taken_before), Ghost(produced));
            proof {
                produced = produced + event_models(events@);
            }
            i = i + 1;
        }
        assert(ordered@.take(i as int) =~= ordered@);
    }
    let (result, finished) = run.finish(&config);
    let mut last: Vec<PackEvent> = Vec::new();
    last.push(finished);
    listening = forward(&last, sink, listening, Ghost(taken_before), Ghost(produced));
    proof {
        let all = packing_events(objects@, container_templates@, config);
        assert(event_models(last@) =~= seq![finish_event(result@)]);
        assert(produced + event_models(last@) =~= all);
        if listening {
            assert(all.take(all.len() as int) =~= all);
        }
    }
    result
}

/// The items in the order in which a run handles them: sorted (heaviest, then largest,
/// then lowest identifier first) and then clustered by footprint.
pub fn placement_queue(objects: Vec<Box3D>, config: &PackingConfig) -> (r: Vec<Box3D>)
    requires
        all_items_valid(objects@),
    ensures
        r@ == placement_order(objects@, *config),
        r@.len() == objects@.len(),
        all_items_valid(r@),
{
    let sorted = sort_items(objects);
    FootprintClusterStrategy::new(config.footprint_cluster_tolerance).reorder(sorted)
}

/// Packs the items into containers of the given templates with the default
/// configuration.
pub fn pack_objects(objects: Vec<Box3D>, container_templates: Vec<ContainerBlueprint>) -> (result:
    PackingResult)
    requires
        all_items_valid(objects@),
        all_blueprints_valid(container_templates@),
        objects@.len() <= MAX_ITEMS,
    ensures
        result@ == packing_result(
            objects@,
            container_templates@,
            PackingConfig::spec_default(),
        ),
        sound_result(result@, PackingConfig::spec_default(), objects@.len() as int),
        result.valid(),
        result.container_diagnostics@.len() == result.containers@.len(),
{
    pack_objects_with_config(objects, container_templates, PackingConfig::default())
}

/// Packs the items into containers of the given templates: the items are sorted
/// (heaviest, then largest, then lowest identifier first) and clustered by footprint;
/// each item goes, in its first orientation that an open container accepts, into the
/// first such container, else into a fresh container of the first template that
/// accepts one of its orientations, else it is recorded as unplaced with the reason.
pub fn pack_objects_with_config(
    objects: Vec<Box3D>,
    container_templates: Vec<ContainerBlueprint>,
    config: PackingConfig,
) -> (result: PackingResult)
    requires
        all_items_valid(objects@),
        all_blueprints_valid(container_templates@),
        config.valid(),
        objects@.len() <= MAX_ITEMS,
    ensures
        result@ == packing_result(objects@, container_templates@, config),
        sound_result(result@, config, objects@.len() as int),
        result.valid(),
        result.container_diagnostics@.len() == result.containers@.len(),
{
    let mut sink = NoProgress::new();
    pack_objects_with_progress(objects, container_templates, config, &mut sink)
}

/// Packs the items as `pack_objects_with_config` does and returns, with the result,
/// every event of the run in order.
pub fn pack_objects_with_events(
    objects: Vec<Box3D>,
    container_templates: Vec<ContainerBlueprint>,
    config: PackingConfig,
) -> (r: (PackingResult, Vec<PackEvent>))
    requires
        all_items_valid(objects@),
        all_blueprints_valid(container_templates@),
        config.valid(),
        objects@.len() <= MAX_ITEMS,
    ensures
        r.0@ == packing_result(objects@, container_templates@, config),
        sound_result(r.0@, config, objects@.len() as int),
        r.0.valid(),
        r.0.container_diagnostics@.len() == r.0.containers@.len(),
        event_models(r.1@) == packing_events(
            objects@,
            container_templates@,
            config,
        ),
{
    let mut log = EventLog::new();
    let ghost all = packing_events(objects@, container_templates@, config);
    let result = pack_objects_with_progress(objects, container_templates, config, &mut log);
    proof {
        let n = choose|n: int|
            0 <= n <= all.len() && log.taken() == Seq::<EventModel>::empty() + #[trigger] all.take(
                n,
            ) && (n == all.len() || log.closed());
        assert(all.take(all.len() as int) =~= all);
        assert(Seq::<EventModel>::empty() + all =~= all);
    }
    (result, log.events)
}

} // verus!
