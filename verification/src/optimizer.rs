//! The placement engine: configuration, orientations, footprint clustering, stability
//! rules, position search, diagnostics and the allocation loop.

pub mod accounting;
pub mod balance;
pub mod cluster;
pub mod config;
pub mod diagnostics;
pub mod grid;
pub mod invariants;
pub mod orientation;
pub mod outcome;
pub mod packing;
pub mod plan;
pub mod plan_laws;
pub mod search;
pub mod search_laws;
pub mod sorting;
pub mod stability;

pub use crate::optimizer::cluster::{FootprintClusterStrategy, ObjectCluster};
pub use crate::optimizer::config::{PackingConfig, PackingConfigBuilder};
pub use crate::optimizer::diagnostics::{
    compute_container_diagnostics, summarize_diagnostics, ContainerDiagnostics,
    PackingDiagnosticsSummary, SupportDiagnostics,
};
pub use crate::optimizer::orientation::orientations_for;
pub use crate::optimizer::outcome::{
    EventLog, NoProgress, PackEvent, PackingResult, ProgressSink, UnplacedBox, UnplacedReason,
};
pub use crate::optimizer::packing::{
    determine_unfit_reason_across_templates, pack_objects, pack_objects_with_config,
    pack_objects_with_events, pack_objects_with_progress,
};
pub use crate::optimizer::search::find_stable_position;
