//! Requests and responses of the packing service, and the validation of a request.
//! Transport and serialisation are left to the caller.

use vstd::prelude::*;
use vstd::string::StringExecFns;
use crate::fixed::MAX_ITEMS;
use crate::model::{
    box_params_error, clone_label, container_params_error, label_text, valid_dims, valid_weight,
    Box3D, ContainerBlueprint, ContainerModel, PlacedBox, ValidationError,
};
use crate::optimizer::diagnostics::{
    ContainerDiagnostics, DiagnosticsModel, PackingDiagnosticsSummary,
};
use crate::optimizer::config::PackingConfig;
use crate::optimizer::outcome::{PackingResult, ResultModel, UnplacedBox};
use crate::optimizer::packing::pack_objects_with_config;
use crate::optimizer::plan::packing_result;
use crate::optimizer::sorting::{all_blueprints_valid, all_items_valid};
use crate::text::{count_leading, from_chars, strip_leading, to_chars};

verus! {

/// A container type as a request names it.
#[derive(Debug)]
pub struct ContainerRequest {
    pub name: Option<String>,
    pub dims: (i64, i64, i64),
    pub max_weight: i64,
}

impl ContainerRequest {
    /// The container type is acceptable.
    pub open spec fn valid(&self) -> bool {
        valid_dims(self.dims) && valid_weight(self.max_weight as int)
    }

    /// The template of this container type with the given identifier.
    pub fn into_blueprint(&self, id: usize) -> (r: Result<ContainerBlueprint, ValidationError>)
        ensures
            self.valid() <==> r is Ok,
            r matches Ok(t) ==> t.id == id && t.label == self.name && t.dims == self.dims
                && t.max_weight == self.max_weight && t.valid(),
            r matches Err(e) ==> container_params_error(self.dims, self.max_weight, Err(e)),
    {
        ContainerBlueprint::new(id, clone_label(&self.name), self.dims, self.max_weight)
    }
}

/// A request to pack items into containers of the given types.
#[derive(Debug)]
pub struct PackRequest {
    pub containers: Vec<ContainerRequest>,
    pub objects: Vec<Box3D>,
    pub allow_rotations: Option<bool>,
}

/// A request whose container types and items have been validated.
#[derive(Debug)]
pub struct ValidatedPackRequest {
    pub containers: Vec<ContainerBlueprint>,
    pub objects: Vec<Box3D>,
    pub allow_rotations: Option<bool>,
}

/// Why a request was refused.
#[derive(Debug)]
pub enum PackRequestValidationError {
    /// The request names no container type.
    MissingContainers,
    /// A container type is not acceptable.
    InvalidContainer(ValidationError),
    /// An item is not acceptable.
    InvalidObject(ValidationError),
    /// The request holds more items than one run supports.
    TooManyObjects,
}

impl ValidatedPackRequest {
    /// Number of container types.
    pub fn container_count(&self) -> (r: usize)
        ensures
            r == self.containers@.len(),
    {
        self.containers.len()
    }

    /// Number of items.
    pub fn object_count(&self) -> (r: usize)
        ensures
            r == self.objects@.len(),
    {
        self.objects.len()
    }

    /// The items, the templates and the rotation override.
    pub fn into_parts(self) -> (r: (Vec<Box3D>, Vec<ContainerBlueprint>, Option<bool>))
        ensures
            r.0 == self.objects,
            r.1 == self.containers,
            r.2 == self.allow_rotations,
    {
        (self.objects, self.containers, self.allow_rotations)
    }
}

/// Every container type before the index is acceptable.
pub open spec fn containers_valid_before(containers: Seq<ContainerRequest>, n: int) -> bool {
    forall|i: int| 0 <= i < n ==> (#[trigger] containers[i]).valid()
}

/// Every item before the index is valid.
pub open spec fn objects_valid_before(objects: Seq<Box3D>, n: int) -> bool {
    forall|i: int| 0 <= i < n ==> (#[trigger] objects[i]).valid()
}

/// The request is accepted: it names at least one container type, every container type
/// is acceptable, every item is valid, and there are no more items than one run
/// supports.
pub open spec fn accepted(request: PackRequest) -> bool {
    &&& request.containers@.len() > 0
    &&& containers_valid_before(request.containers@, request.containers@.len() as int)
    &&& objects_valid_before(request.objects@, request.objects@.len() as int)
    &&& request.objects@.len() <= MAX_ITEMS
}

/// The error with which a request that is not accepted is refused: the first of these
/// that applies. Without container types the request lacks containers; with a container
/// type that is not acceptable it is refused for the first such type; with an item
/// that is not valid it is refused for the first such item; else it is refused for the
/// number of its items.
pub open spec fn refused_with(request: PackRequest, error: PackRequestValidationError) -> bool {
    let containers = request.containers@;
    let objects = request.objects@;
    if containers.len() == 0 {
        error matches PackRequestValidationError::MissingContainers
    } else if !containers_valid_before(containers, containers.len() as int) {
        error matches PackRequestValidationError::InvalidContainer(e) && exists|i: int|
            0 <= i < containers.len() && containers_valid_before(containers, i) && !(
            #[trigger] containers[i]).valid() && container_params_error(
                containers[i].dims,
                containers[i].max_weight,
                Err(e),
            )
    } else if !objects_valid_before(objects, objects.len() as int) {
        error matches PackRequestValidationError::InvalidObject(e) && exists|i: int|
            0 <= i < objects.len() && objects_valid_before(objects, i) && !(
            #[trigger] objects[i]).valid() && box_params_error(
                objects[i].dims,
                objects[i].weight,
                Err(e),
            )
    } else {
        error matches PackRequestValidationError::TooManyObjects
    }
}

/// The templates of the container types of a request: each with its index as
/// identifier and its name as label.
pub open spec fn blueprints_of(containers: Seq<ContainerRequest>) -> Seq<ContainerBlueprint> {
    Seq::new(
        containers.len(),
        |i: int|
            ContainerBlueprint {
                id: i as usize,
                label: containers[i].name,
                dims: containers[i].dims,
                max_weight: containers[i].max_weight,
            },
    )
}

/// The outcome of validating a request: an accepted request is handed on as it is,
/// its container types as templates; any other request is refused with its error.
pub open spec fn validated(
    request: PackRequest,
    r: Result<ValidatedPackRequest, PackRequestValidationError>,
) -> bool {
    if accepted(request) {
        r matches Ok(v) && v.objects@ == request.objects@ && v.allow_rotations
            == request.allow_rotations && v.containers@ == blueprints_of(request.containers@)
            && all_blueprints_valid(v.containers@) && all_items_valid(v.objects@)
    } else {
        r matches Err(e) && refused_with(request, e)
    }
}

impl PackRequest {
    /// Validates the request.
    pub fn into_validated(self) -> (r: Result<ValidatedPackRequest, PackRequestValidationError>)
        ensures
            validated(self, r),
    {
        if self.containers.len() == 0 {
            return Err(PackRequestValidationError::MissingContainers);
        }
        let mut containers: Vec<ContainerBlueprint> = Vec::new();
        let mut i: usize = 0;
        while i < self.containers.len()
            invariant
                i <= self.containers@.len(),
                containers@.len() == i,
                containers_valid_before(self.containers@, i as int),
                all_blueprints_valid(containers@),
                forall|k: int|
                    0 <= k < i ==> {
                        let t = #[trigger] containers@[k];
                        t.id == k && t.label == self.containers@[k].name && t.dims
                            == self.containers@[k].dims && t.max_weight
                            == self.containers@[k].max_weight
                    },
            decreases self.containers@.len() - i,
        {
            match self.containers[i].into_blueprint(i) {
                Ok(t) => {
                    containers.push(t);
                },
                Err(e) => {
                    assert(!self.containers@[i as int].valid());
                    return Err(PackRequestValidationError::InvalidContainer(e));
                },
            }
            i = i + 1;
        }
        let mut k: usize = 0;
        while k < self.objects.len()
            invariant
                k <= self.objects@.len(),
                objects_valid_before(self.objects@, k as int),
                self.containers@.len() > 0,
                containers_valid_before(self.containers@, self.containers@.len() as int),
                containers@.len() == self.containers@.len(),
                all_blueprints_valid(containers@),
                forall|j: int|
                    0 <= j < containers@.len() ==> {
                        let t = #[trigger] containers@[j];
                        t.id == j && t.label == self.containers@[j].name && t.dims
                            == self.containers@[j].dims && t.max_weight
                            == self.containers@[j].max_weight
                    },
            decreases self.objects@.len() - k,
        {
            let o = &self.objects[k];
            match Box3D::new(o.id, o.dims, o.weight) {
                Ok(_) => {},
                Err(e) => {
                    assert(!self.objects@[k as int].valid());
                    return Err(PackRequestValidationError::InvalidObject(e));
                },
            }
            k = k + 1;
        }
        if self.objects.len() > MAX_ITEMS {
            return Err(PackRequestValidationError::TooManyObjects);
        }
        assert(containers@ =~= blueprints_of(self.containers@));
        Ok(
            ValidatedPackRequest {
                containers,
                objects: self.objects,
                allow_rotations: self.allow_rotations,
            },
        )
    }
}

/// A placed item as a response reports it.
#[derive(Clone, Copy, Debug)]
pub struct PackedObject {
    pub id: usize,
    pub pos: (i64, i64, i64),
    pub weight: i64,
    pub dims: (i64, i64, i64),
}

/// A container as a response reports it.
#[derive(Debug)]
pub struct PackedContainer {
    /// Number of the container, counted from one.
    pub id: usize,
    pub template_id: Option<usize>,
    pub label: Option<String>,
    pub dims: (i64, i64, i64),
    pub max_weight: i64,
    pub total_weight: i64,
    pub placed: Vec<PackedObject>,
    pub diagnostics: ContainerDiagnostics,
}

/// An unplaced item as a response reports it.
#[derive(Debug)]
pub struct PackedUnplacedObject {
    pub id: usize,
    pub weight: i64,
    pub dims: (i64, i64, i64),
    pub reason_code: String,
    pub reason: String,
}

/// The response to a pack request.
#[derive(Debug)]
pub struct PackResponse {
    pub results: Vec<PackedContainer>,
    pub unplaced: Vec<PackedUnplacedObject>,
    pub is_complete: bool,
    pub diagnostics_summary: PackingDiagnosticsSummary,
}

/// The report of a placed box.
pub open spec fn packed_object(p: PlacedBox) -> PackedObject {
    PackedObject { id: p.object.id, pos: p.position, weight: p.object.weight, dims: p.object.dims }
}

/// The report `r` is that of the container `cont` with the diagnostics `d` as the
/// container with the given number.
pub open spec fn reports_container(
    r: PackedContainer,
    cont: ContainerModel,
    d: DiagnosticsModel,
    number: int,
) -> bool {
    &&& r.id == number
    &&& r.template_id == cont.template_id
    &&& label_text(r.label) == cont.label
    &&& r.dims == cont.dims
    &&& r.max_weight == cont.max_weight
    &&& r.total_weight == cont.total_weight()
    &&& r.placed@ == Seq::new(cont.placed.len(), |i: int| packed_object(cont.placed[i]))
    &&& r.diagnostics@ == d
}

/// The response `r` reports the result: each container with its diagnostics, numbered
/// from one in the order of the result, each unplaced item with the code and the text
/// of its reason, whether nothing is left unplaced, and the summary.
pub open spec fn reports_result(r: PackResponse, result: ResultModel) -> bool {
    &&& r.results@.len() == result.containers.len()
    &&& forall|i: int|
        0 <= i < r.results@.len() ==> reports_container(
            #[trigger] r.results@[i],
            result.containers[i],
            result.container_diagnostics[i],
            i + 1,
        )
    &&& r.unplaced@.len() == result.unplaced.len()
    &&& forall|i: int|
        0 <= i < r.unplaced@.len() ==> reports_unplaced(#[trigger] r.unplaced@[i], result.unplaced[i])
    &&& r.is_complete == (result.unplaced.len() == 0)
    &&& r.diagnostics_summary == result.diagnostics_summary
}

/// The report `r` is that of the unplaced item `u`.
pub open spec fn reports_unplaced(r: PackedUnplacedObject, u: UnplacedBox) -> bool {
    &&& r.id == u.object.id
    &&& r.weight == u.object.weight
    &&& r.dims == u.object.dims
    &&& r.reason_code@ == u.reason.spec_code()
    &&& r.reason@ == u.reason.spec_text()
}

impl PackResponse {
    /// Reports a result: each container with its diagnostics, numbered from one in
    /// the order of the result, each unplaced item with the code and the text of its
    /// reason, whether nothing is left unplaced, and the summary.
    pub fn from_packing_result(result: PackingResult) -> (r: PackResponse)
        requires
            result.valid(),
            result.container_diagnostics@.len() == result.containers@.len(),
        ensures
            reports_result(r, result@),
    {
        let mut results: Vec<PackedContainer> = Vec::new();
        let mut i: usize = 0;
        while i < result.containers.len()
            invariant
                i <= result.containers@.len() <= MAX_ITEMS,
                result.valid(),
                result.container_diagnostics@.len() == result.containers@.len(),
                results@.len() == i,
                forall|k: int|
                    0 <= k < i ==> reports_container(
                        #[trigger] results@[k],
                        result.containers@[k]@,
                        result.container_diagnostics@[k]@,
                        k + 1,
                    ),
            decreases result.containers@.len() - i,
        {
            let cont = &result.containers[i];
            assert(cont.valid());
            let mut placed: Vec<PackedObject> = Vec::new();
            let mut k: usize = 0;
            while k < cont.placed.len()
                invariant
                    k <= cont.placed@.len(),
                    placed@ == Seq::new(k as nat, |j: int| packed_object(cont.placed@[j])),
                decreases cont.placed@.len() - k,
            {
                let p = &cont.placed[k];
                placed.push(
                    PackedObject {
                        id: p.object.id,
                        pos: p.position,
                        weight: p.object.weight,
                        dims: p.object.dims,
                    },
                );
                assert(placed@ =~= Seq::new(
                    (k + 1) as nat,
                    |j: int| packed_object(cont.placed@[j]),
                ));
                k = k + 1;
            }
            results.push(
                PackedContainer {
                    id: i + 1,
                    template_id: cont.template_id,
                    label: clone_label(&cont.label),
                    dims: cont.dims,
                    max_weight: cont.max_weight,
                    total_weight: cont.total_weight(),
                    placed,
                    diagnostics: result.container_diagnostics[i].clone(),
                },
            );
            i = i + 1;
        }
        let mut unplaced: Vec<PackedUnplacedObject> = Vec::new();
        let mut u: usize = 0;
        while u < result.unplaced.len()
            invariant
                u <= result.unplaced@.len(),
                unplaced@.len() == u,
                forall|k: int|
                    0 <= k < u ==> reports_unplaced(#[trigger] unplaced@[k], result.unplaced@[k]),
            decreases result.unplaced@.len() - u,
        {
            let entry = &result.unplaced[u];
            unplaced.push(
                PackedUnplacedObject {
                    id: entry.object.id,
                    weight: entry.object.weight,
                    dims: entry.object.dims,
                    reason_code: String::from_str(entry.reason.code()),
                    reason: entry.reason.to_text(),
                },
            );
            u = u + 1;
        }
        PackResponse {
            results,
            unplaced,
            is_complete: result.unplaced.len() == 0,
            diagnostics_summary: result.diagnostics_summary,
        }
    }
}

/// An error as a response reports it: a short description and the details.
#[derive(Debug)]
pub struct ErrorResponse {
    pub error: String,
    pub details: String,
}

impl ErrorResponse {
    /// The error response with the given description and details.
    pub fn new(error: &str, details: &str) -> (r: Self)
        ensures
            r.error@ == error@,
            r.details@ == details@,
    {
        Self { error: String::from_str(error), details: String::from_str(details) }
    }
}

/// The error response `r` has the given description and details.
pub open spec fn error_response_is(r: ErrorResponse, error: Seq<char>, details: Seq<char>) -> bool {
    r.error@ == error && r.details@ == details
}

/// The error response for a refused request: a request without container types and a
/// request with an item that is not acceptable are invalid input data; a container
/// type that is not acceptable is an invalid container configuration.
pub fn validation_response(error: &PackRequestValidationError) -> (r: ErrorResponse)
    ensures
        match error {
            PackRequestValidationError::MissingContainers => error_response_is(
                r,
                "Invalid input data"@,
                "At least one packaging type must be specified"@,
            ),
            PackRequestValidationError::InvalidContainer(e) => error_response_is(
                r,
                "Invalid container configuration"@,
                e.text(),
            ),
            PackRequestValidationError::InvalidObject(e) => error_response_is(
                r,
                "Invalid input data"@,
                e.text(),
            ),
            PackRequestValidationError::TooManyObjects => error_response_is(
                r,
                "Invalid input data"@,
                "Too many objects in one request"@,
            ),
        },
{
    match error {
        PackRequestValidationError::MissingContainers => ErrorResponse::new(
            "Invalid input data",
            "At least one packaging type must be specified",
        ),
        PackRequestValidationError::InvalidContainer(e) => ErrorResponse::new(
            "Invalid container configuration",
            e.to_text().as_str(),
        ),
        PackRequestValidationError::InvalidObject(e) => ErrorResponse::new(
            "Invalid input data",
            e.to_text().as_str(),
        ),
        PackRequestValidationError::TooManyObjects => ErrorResponse::new(
            "Invalid input data",
            "Too many objects in one request",
        ),
    }
}

/// The packing configuration of a request: the configured one, with rotation allowed
/// or forbidden as the request says, if it says so.
pub open spec fn config_for(config: PackingConfig, allow_rotations: Option<bool>) -> PackingConfig {
    match allow_rotations {
        Some(allow) => PackingConfig { allow_item_rotation: allow, ..config },
        None => config,
    }
}

/// The packing configuration of a request.
pub fn request_config(config: PackingConfig, allow_rotations: Option<bool>) -> (r: PackingConfig)
    ensures
        r == config_for(config, allow_rotations),
{
    let mut packing_config = config;
    if let Some(allow) = allow_rotations {
        packing_config.allow_item_rotation = allow;
    }
    packing_config
}

/// Answers a request: a request that is not accepted is refused with its error; an
/// accepted request is packed, with the configured options and its own choice on
/// rotation, and the result is reported.
pub fn pack_request(request: PackRequest, config: PackingConfig) -> (r: Result<
    PackResponse,
    PackRequestValidationError,
>)
    requires
        config.valid(),
    ensures
        r is Ok <==> accepted(request),
        r matches Err(e) ==> refused_with(request, e),
        r matches Ok(response) ==> reports_result(
            response,
            packing_result(
                request.objects@,
                blueprints_of(request.containers@),
                config_for(config, request.allow_rotations),
            ),
        ),
{
    match request.into_validated() {
        Err(e) => Err(e),
        Ok(validated) => {
            let (objects, templates, allow_rotations) = validated.into_parts();
            let packing_config = request_config(config, allow_rotations);
            let result = pack_objects_with_config(objects, templates, packing_config);
            Ok(PackResponse::from_packing_result(result))
        },
    }
}

/// A file of the web interface as a request names it: its path below the directory of
/// the web interface, and its content type.
#[derive(Debug)]
pub struct StaticAsset {
    pub path: String,
    pub content_type: String,
}

/// Calls `mime_guess::from_path` and takes the first guess, or
/// `application/octet-stream` when there is none. The guess goes by the extension of
/// the path as the platform's path rules see it, so nothing is claimed of the result.
#[verifier::external_body]
fn guess_content_type(path: &str) -> (r: String) {
    mime_guess::from_path(path).first_or_octet_stream().as_ref().to_string()
}

/// The file that the path of a request names: the path without its leading slashes,
/// with the content type that its extension suggests.
pub fn locate_asset(uri_path: &str) -> (r: StaticAsset)
    ensures
        r.path@ == strip_leading(uri_path@, '/'),
{
    let chars = to_chars(uri_path);
    let at: usize = count_leading(&chars, '/');
    let path = from_chars(&chars, at, chars.len());
    let content_type = guess_content_type(path.as_str());
    StaticAsset { path, content_type }
}

} // verus!
