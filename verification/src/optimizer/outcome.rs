//! Results of a run: the reasons for which an item stays unplaced, the result record
//! and the progress events.

use vstd::prelude::*;
use vstd::string::StringExecFns;
use crate::fixed::{MAX_ITEMS, MAX_WEIGHT};
use crate::model::{
    clone_label, label_text, utilization, volume_sum, Box3D, Container, ContainerModel,
};
use crate::optimizer::diagnostics::{
    diagnostics_models, ContainerDiagnostics, DiagnosticsModel, PackingDiagnosticsSummary,
};

verus! {

/// Why an item could not be placed.
#[derive(Clone, Copy, Debug, PartialEq, Eq, Structural)]
pub enum UnplacedReason {
    /// The item is too heavy for every container template.
    TooHeavyForContainer,
    /// No admissible orientation of the item fits into any container template.
    DimensionsExceedContainer,
    /// The item fits on paper, but no legal stable position was found.
    NoStablePosition,
}

impl UnplacedReason {
    /// The machine-readable code of the reason.
    pub open spec fn spec_code(&self) -> Seq<char> {
        match self {
            UnplacedReason::TooHeavyForContainer => "too_heavy_for_container"@,
            UnplacedReason::DimensionsExceedContainer => "dimensions_exceed_container"@,
            UnplacedReason::NoStablePosition => "no_stable_position"@,
        }
    }

    /// The human-readable text of the reason.
    pub open spec fn spec_text(&self) -> Seq<char> {
        match self {
            UnplacedReason::TooHeavyForContainer => "Object exceeds the maximum allowed weight"@,
            UnplacedReason::DimensionsExceedContainer => "Object does not fit in the container in at least one dimension"@,
            UnplacedReason::NoStablePosition => "No stable position found within the container"@,
        }
    }

    /// The machine-readable code of the reason.
    pub fn code(&self) -> (r: &'static str)
        ensures
            r@ == self.spec_code(),
    {
        match self {
            UnplacedReason::TooHeavyForContainer => "too_heavy_for_container",
            UnplacedReason::DimensionsExceedContainer => "dimensions_exceed_container",
            UnplacedReason::NoStablePosition => "no_stable_position",
        }
    }

    /// The human-readable text of the reason.
    pub fn to_text(&self) -> (r: String)
        ensures
            r@ == self.spec_text(),
    {
        match self {
            UnplacedReason::TooHeavyForContainer => String::from_str(
                "Object exceeds the maximum allowed weight",
            ),
            UnplacedReason::DimensionsExceedContainer => String::from_str(
                "Object does not fit in the container in at least one dimension",
            ),
            UnplacedReason::NoStablePosition => String::from_str(
                "No stable position found within the container",
            ),
        }
    }
}

/// An item that could not be placed, with the reason.
#[derive(Clone, Copy, Debug)]
pub struct UnplacedBox {
    pub object: Box3D,
    pub reason: UnplacedReason,
}

/// The result of a run: the containers with their boxes, the unplaced items, the
/// diagnostics of each container and their summary.
#[derive(Debug)]
pub struct PackingResult {
    pub containers: Vec<Container>,
    pub unplaced: Vec<UnplacedBox>,
    pub container_diagnostics: Vec<ContainerDiagnostics>,
    pub diagnostics_summary: PackingDiagnosticsSummary,
}

/// The mathematical content of a result.
pub struct ResultModel {
    pub containers: Seq<ContainerModel>,
    pub unplaced: Seq<UnplacedBox>,
    pub container_diagnostics: Seq<DiagnosticsModel>,
    pub diagnostics_summary: PackingDiagnosticsSummary,
}

/// The models of a sequence of containers.
pub open spec fn container_models(containers: Seq<Container>) -> Seq<ContainerModel> {
    Seq::new(containers.len(), |i: int| containers[i]@)
}

impl View for PackingResult {
    type V = ResultModel;

    open spec fn view(&self) -> ResultModel {
        ResultModel {
            containers: container_models(self.containers@),
            unplaced: self.unplaced@,
            container_diagnostics: diagnostics_models(
                self.container_diagnostics@,
            ),
            diagnostics_summary: self.diagnostics_summary,
        }
    }
}

impl Clone for PackingResult {
    fn clone(&self) -> (r: Self)
        ensures
            r@ == self@,
    {
        let mut containers: Vec<Container> = Vec::new();
        let mut i: usize = 0;
        while i < self.containers.len()
            invariant
                i <= self.containers@.len(),
                containers@.len() == i,
                container_models(containers@) == container_models(self.containers@).take(i as int),
            decreases self.containers@.len() - i,
        {
            let copy = self.containers[i].clone();
            assert(copy@ == self.containers@[i as int]@);
            let ghost before = containers@;
            containers.push(copy);
            assert forall|k: int| 0 <= k < containers@.len() implies container_models(
                containers@,
            )[k] == container_models(self.containers@).take(i as int + 1)[k] by {
                if k < i {
                    assert(containers@[k] == before[k]);
                    assert(container_models(before)[k] == container_models(
                        self.containers@,
                    ).take(i as int)[k]);
                }
            }
            assert(container_models(containers@) =~= container_models(self.containers@).take(
                i as int + 1,
            ));
            i = i + 1;
        }
        assert(container_models(self.containers@).take(i as int) =~= container_models(
            self.containers@,
        ));
        let mut unplaced: Vec<UnplacedBox> = Vec::new();
        let mut k: usize = 0;
        while k < self.unplaced.len()
            invariant
                k <= self.unplaced@.len(),
                unplaced@ == self.unplaced@.take(k as int),
            decreases self.unplaced@.len() - k,
        {
            unplaced.push(self.unplaced[k]);
            assert(unplaced@ =~= self.unplaced@.take(k as int + 1));
            k = k + 1;
        }
        assert(self.unplaced@.take(k as int) =~= self.unplaced@);
        let mut diagnostics: Vec<ContainerDiagnostics> = Vec::new();
        let ghost models = diagnostics_models(
            self.container_diagnostics@,
        );
        let mut d: usize = 0;
        while d < self.container_diagnostics.len()
            invariant
                d <= self.container_diagnostics@.len(),
                diagnostics@.len() == d,
                models == diagnostics_models(
                    self.container_diagnostics@,
                ),
                diagnostics_models(diagnostics@) == models.take(
                    d as int,
                ),
            decreases self.container_diagnostics@.len() - d,
        {
            let copy = self.container_diagnostics[d].clone();
            let ghost before = diagnostics@;
            diagnostics.push(copy);
            assert forall|k: int|
                0 <= k < diagnostics@.len() implies diagnostics_models(
                diagnostics@,
            )[k] == models.take(d as int + 1)[k] by {
                if k < d {
                    assert(diagnostics@[k] == before[k]);
                    assert(diagnostics_models(before)[k]
                        == models.take(d as int)[k]);
                }
            }
            assert(diagnostics_models(diagnostics@)
                =~= models.take(d as int + 1));
            d = d + 1;
        }
        assert(models.take(d as int) =~= models);
        Self {
            containers,
            unplaced,
            container_diagnostics: diagnostics,
            diagnostics_summary: self.diagnostics_summary,
        }
    }
}

/// Sum of the utilization percentages of the containers.
pub open spec fn utilization_sum(containers: Seq<ContainerModel>) -> int
    decreases containers.len(),
{
    if containers.len() == 0 {
        0
    } else {
        utilization_sum(containers.drop_last()) + utilization(
            volume_sum(containers.last().placed),
            containers.last().dims.0 as int * containers.last().dims.1 as int
                * containers.last().dims.2 as int,
        )
    }
}

/// Sum of the total weights of the containers.
pub open spec fn packed_weight(containers: Seq<ContainerModel>) -> int
    decreases containers.len(),
{
    if containers.len() == 0 {
        0
    } else {
        packed_weight(containers.drop_last()) + containers.last().total_weight()
    }
}

impl PackingResult {
    /// There are no more containers than the supported range allows, and every
    /// container is valid.
    pub open spec fn valid(&self) -> bool {
        &&& self.containers@.len() <= MAX_ITEMS
        &&& forall|i: int| 0 <= i < self.containers@.len() ==> (#[trigger] self.containers@[i]).valid()
    }

    /// Mean of the utilization percentages of the containers, rounded down; zero for
    /// no containers.
    pub fn average_utilization(&self) -> (r: i64)
        requires
            self.valid(),
        ensures
            r == (if self.containers@.len() == 0 {
                0
            } else {
                utilization_sum(self@.containers) / (self.containers@.len() as int)
            }),
    {
        let n: usize = self.containers.len();
        if n == 0 {
            return 0;
        }
        let ghost models = self@.containers;
        let mut sum: i64 = 0;
        let mut i: usize = 0;
        while i < n
            invariant
                i <= n,
                n == self.containers@.len(),
                n <= MAX_ITEMS,
                self.valid(),
                models == self@.containers,
                sum == utilization_sum(models.take(i as int)),
                0 <= sum <= i * 100_000_000,
            decreases n - i,
        {
            let cont = &self.containers[i];
            assert(cont.valid());
            proof {
                assert(models.take(i as int + 1).drop_last() =~= models.take(i as int));
                assert(models.take(i as int + 1).last() == cont@);
                assert((i + 1) * 100_000_000 == i * 100_000_000 + 100_000_000)
                    by (nonlinear_arith);
                assert(i * 100_000_000 <= MAX_ITEMS * 100_000_000) by (nonlinear_arith)
                    requires
                        i <= MAX_ITEMS,
                ;
            }
            sum = sum + cont.utilization_percent();
            i = i + 1;
        }
        assert(models.take(i as int) =~= models);
        sum / (n as i64)
    }

    /// Total weight of the boxes in all containers.
    pub fn total_packed_weight(&self) -> (r: i128)
        requires
            self.valid(),
        ensures
            r == packed_weight(self@.containers),
    {
        let ghost models = self@.containers;
        let mut sum: i128 = 0;
        let mut i: usize = 0;
        while i < self.containers.len()
            invariant
                i <= self.containers@.len() <= MAX_ITEMS,
                self.valid(),
                models == self@.containers,
                sum == packed_weight(models.take(i as int)),
                0 <= sum <= i * (MAX_ITEMS * MAX_WEIGHT),
            decreases self.containers@.len() - i,
        {
            let cont = &self.containers[i];
            assert(cont.valid());
            proof {
                assert(models.take(i as int + 1).drop_last() =~= models.take(i as int));
                assert(models.take(i as int + 1).last() == cont@);
                assert((i + 1) * (MAX_ITEMS * MAX_WEIGHT) == i * (MAX_ITEMS * MAX_WEIGHT)
                    + MAX_ITEMS * MAX_WEIGHT) by (nonlinear_arith);
                assert(i * (MAX_ITEMS * MAX_WEIGHT) <= MAX_ITEMS * (MAX_ITEMS * MAX_WEIGHT))
                    by (nonlinear_arith)
                    requires
                        i <= MAX_ITEMS,
                ;
            }
            sum = sum + cont.total_weight() as i128;
            i = i + 1;
        }
        assert(models.take(i as int) =~= models);
        sum
    }

    /// Whether every item was placed.
    pub fn is_complete(&self) -> (r: bool)
        ensures
            r == (self.unplaced@.len() == 0),
    {
        self.unplaced.len() == 0
    }

    /// Number of containers.
    pub fn container_count(&self) -> (r: usize)
        ensures
            r == self.containers@.len(),
    {
        self.containers.len()
    }

    /// Number of unplaced items.
    pub fn unplaced_count(&self) -> (r: usize)
        ensures
            r == self.unplaced@.len(),
    {
        self.unplaced.len()
    }

    /// The summary of the diagnostics.
    pub fn diagnostics_summary(&self) -> (r: &PackingDiagnosticsSummary)
        ensures
            *r == self.diagnostics_summary,
    {
        &self.diagnostics_summary
    }
}

/// A step of a run, as reported to the caller while the run goes on.
#[derive(Debug)]
pub enum PackEvent {
    /// A new container was opened.
    ContainerStarted {
        id: usize,
        dims: (i64, i64, i64),
        max_weight: i64,
        label: Option<String>,
        template_id: Option<usize>,
    },
    /// An item was placed.
    ObjectPlaced {
        container_id: usize,
        id: usize,
        pos: (i64, i64, i64),
        weight: i64,
        dims: (i64, i64, i64),
        total_weight: i64,
    },
    /// The diagnostics of a container changed.
    ContainerDiagnostics { container_id: usize, diagnostics: ContainerDiagnostics },
    /// An item could not be placed.
    ObjectRejected {
        id: usize,
        weight: i64,
        dims: (i64, i64, i64),
        reason_code: String,
        reason_text: String,
    },
    /// The run is over.
    Finished { containers: usize, unplaced: usize, diagnostics_summary: PackingDiagnosticsSummary },
}

impl Clone for PackEvent {
    fn clone(&self) -> (e: Self)
        ensures
            e@ == self@,
    {
        match self {
            PackEvent::ContainerStarted { id, dims, max_weight, label, template_id } => {
                PackEvent::ContainerStarted {
                    id: *id,
                    dims: *dims,
                    max_weight: *max_weight,
                    label: clone_label(label),
                    template_id: *template_id,
                }
            },
            PackEvent::ObjectPlaced { container_id, id, pos, weight, dims, total_weight } => {
                PackEvent::ObjectPlaced {
                    container_id: *container_id,
                    id: *id,
                    pos: *pos,
                    weight: *weight,
                    dims: *dims,
                    total_weight: *total_weight,
                }
            },
            PackEvent::ContainerDiagnostics { container_id, diagnostics } => {
                PackEvent::ContainerDiagnostics {
                    container_id: *container_id,
                    diagnostics: diagnostics.clone(),
                }
            },
            PackEvent::ObjectRejected { id, weight, dims, reason_code, reason_text } => {
                PackEvent::ObjectRejected {
                    id: *id,
                    weight: *weight,
                    dims: *dims,
                    reason_code: reason_code.clone(),
                    reason_text: reason_text.clone(),
                }
            },
            PackEvent::Finished { containers, unplaced, diagnostics_summary } => {
                PackEvent::Finished {
                    containers: *containers,
                    unplaced: *unplaced,
                    diagnostics_summary: *diagnostics_summary,
                }
            },
        }
    }
}

/// The mathematical content of an event.
pub enum EventModel {
    ContainerStarted {
        id: usize,
        dims: (i64, i64, i64),
        max_weight: i64,
        label: Option<Seq<char>>,
        template_id: Option<usize>,
    },
    ObjectPlaced {
        container_id: usize,
        id: usize,
        pos: (i64, i64, i64),
        weight: i64,
        dims: (i64, i64, i64),
        total_weight: i64,
    },
    ContainerDiagnostics { container_id: usize, diagnostics: DiagnosticsModel },
    ObjectRejected {
        id: usize,
        weight: i64,
        dims: (i64, i64, i64),
        reason_code: Seq<char>,
        reason_text: Seq<char>,
    },
    Finished { containers: usize, unplaced: usize, diagnostics_summary: PackingDiagnosticsSummary },
}

impl View for PackEvent {
    type V = EventModel;

    open spec fn view(&self) -> EventModel {
        match self {
            PackEvent::ContainerStarted { id, dims, max_weight, label, template_id } => {
                EventModel::ContainerStarted {
                    id: *id,
                    dims: *dims,
                    max_weight: *max_weight,
                    label: label_text(*label),
                    template_id: *template_id,
                }
            },
            PackEvent::ObjectPlaced { container_id, id, pos, weight, dims, total_weight } => {
                EventModel::ObjectPlaced {
                    container_id: *container_id,
                    id: *id,
                    pos: *pos,
                    weight: *weight,
                    dims: *dims,
                    total_weight: *total_weight,
                }
            },
            PackEvent::ContainerDiagnostics { container_id, diagnostics } => {
                EventModel::ContainerDiagnostics {
                    container_id: *container_id,
                    diagnostics: diagnostics@,
                }
            },
            PackEvent::ObjectRejected { id, weight, dims, reason_code, reason_text } => {
                EventModel::ObjectRejected {
                    id: *id,
                    weight: *weight,
                    dims: *dims,
                    reason_code: reason_code@,
                    reason_text: reason_text@,
                }
            },
            PackEvent::Finished { containers, unplaced, diagnostics_summary } => {
                EventModel::Finished {
                    containers: *containers,
                    unplaced: *unplaced,
                    diagnostics_summary: *diagnostics_summary,
                }
            },
        }
    }
}

/// The models of a sequence of events.
pub open spec fn event_models(events: Seq<PackEvent>) -> Seq<EventModel> {
    Seq::new(events.len(), |i: int| events[i]@)
}

/// A consumer of progress events. `emit` hands it one event and returns whether it
/// still listens; a run sends nothing more to a consumer that has answered that it does
/// not.
pub trait ProgressSink {
    /// The events that the consumer has been handed so far.
    closed spec fn taken(&self) -> Seq<EventModel> {
        Seq::empty()
    }

    /// The consumer has stopped listening.
    closed spec fn closed(&self) -> bool {
        false
    }

    /// Takes one event. Returns whether the consumer still listens.
    fn emit(&mut self, event: &PackEvent) -> (listening: bool)
        ensures
            final(self).taken() == old(self).taken().push(event@),
            listening == !final(self).closed(),
    ;
}

/// The consumer that ignores every event.
pub struct NoProgress {
    pub seen: Ghost<Seq<EventModel>>,
}

impl NoProgress {
    /// The consumer that ignores every event.
    pub fn new() -> (sink: Self)
        ensures
            sink.taken() == Seq::<EventModel>::empty(),
    {
        NoProgress { seen: Ghost(Seq::empty()) }
    }
}

impl ProgressSink for NoProgress {
    open spec fn taken(&self) -> Seq<EventModel> {
        self.seen@
    }

    open spec fn closed(&self) -> bool {
        false
    }

    fn emit(&mut self, event: &PackEvent) -> (listening: bool) {
        proof {
            self.seen@ = self.seen@.push(event@);
        }
        true
    }
}

/// The consumer that keeps every event, in order.
#[derive(Debug)]
pub struct EventLog {
    pub events: Vec<PackEvent>,
}

impl EventLog {
    /// The log without events.
    pub fn new() -> (log: Self)
        ensures
            log.events@.len() == 0,
            log.taken() == Seq::<EventModel>::empty(),
    {
        let log = EventLog { events: Vec::new() };
        assert(event_models(log.events@) =~= Seq::<EventModel>::empty());
        log
    }
}

impl ProgressSink for EventLog {
    open spec fn taken(&self) -> Seq<EventModel> {
        event_models(self.events@)
    }

    open spec fn closed(&self) -> bool {
        false
    }

    fn emit(&mut self, event: &PackEvent) -> (listening: bool) {
        let ghost before = self.events@;
        self.events.push(event.clone());
        assert(event_models(self.events@) =~= event_models(before).push(event@));
        true
    }
}

} // verus!
