//! The packing domain: items, placed items, containers and container templates.

use vstd::prelude::*;
use vstd::string::StringExecFns;
use crate::fixed::{MAX_COORD, MAX_ITEMS, MAX_LENGTH, MAX_WEIGHT};
use crate::text::{fixed_text, push_fixed};
use crate::types::{BoundingBox, Dimensional, Positioned, Vec3, Weighted, EPSILON_GENERAL};

verus! {

/// Why a dimension, a weight or a configuration value was refused.
#[derive(Debug)]
pub enum ValidationError {
    InvalidDimension(String),
    InvalidWeight(String),
    InvalidConfiguration(String),
}

impl Clone for ValidationError {
    fn clone(&self) -> (e: Self)
        ensures
            e == *self,
    {
        match self {
            ValidationError::InvalidDimension(msg) => ValidationError::InvalidDimension(
                msg.clone(),
            ),
            ValidationError::InvalidWeight(msg) => ValidationError::InvalidWeight(msg.clone()),
            ValidationError::InvalidConfiguration(msg) => ValidationError::InvalidConfiguration(
                msg.clone(),
            ),
        }
    }
}

impl ValidationError {
    /// The text of this error: the kind of error, a colon, and the detail message.
    pub open spec fn text(&self) -> Seq<char> {
        match self {
            ValidationError::InvalidDimension(msg) => "Invalid dimension: "@ + msg@,
            ValidationError::InvalidWeight(msg) => "Invalid weight: "@ + msg@,
            ValidationError::InvalidConfiguration(msg) => "Invalid configuration: "@ + msg@,
        }
    }

    /// Renders the error for display.
    pub fn to_text(&self) -> (s: String)
        ensures
            s@ == self.text(),
    {
        match self {
            ValidationError::InvalidDimension(msg) => {
                String::from_str("Invalid dimension: ").concat(msg.as_str())
            },
            ValidationError::InvalidWeight(msg) => {
                String::from_str("Invalid weight: ").concat(msg.as_str())
            },
            ValidationError::InvalidConfiguration(msg) => {
                String::from_str("Invalid configuration: ").concat(msg.as_str())
            },
        }
    }
}

/// A length is acceptable: strictly positive and within the supported range.
pub open spec fn valid_length(v: int) -> bool {
    1 <= v <= MAX_LENGTH
}

/// A weight is acceptable: strictly positive and within the supported range.
pub open spec fn valid_weight(v: int) -> bool {
    1 <= v <= MAX_WEIGHT
}

/// All three lengths of a triple are acceptable.
pub open spec fn valid_dims(dims: (i64, i64, i64)) -> bool {
    valid_length(dims.0 as int) && valid_length(dims.1 as int) && valid_length(dims.2 as int)
}

/// The detail message for a refused quantity called `name` with value `v`.
pub open spec fn refusal_text(name: Seq<char>, v: int) -> Seq<char> {
    if v <= 0 {
        name + " must be positive, got: "@ + fixed_text(v)
    } else {
        name + " must not be beyond the supported range, got: "@ + fixed_text(v)
    }
}

/// Builds the detail message for a refused quantity.
fn refusal_message(name: &str, value: i64) -> (msg: String)
    ensures
        msg@ == refusal_text(name@, value as int),
{
    let mut msg = String::from_str(name);
    if value <= 0 {
        msg.append(" must be positive, got: ");
    } else {
        msg.append(" must not be beyond the supported range, got: ");
    }
    push_fixed(&mut msg, value);
    msg
}

/// Accepts a length, or says why not.
fn validate_dimension(value: i64, name: &str) -> (r: Result<(), ValidationError>)
    ensures
        valid_length(value as int) ==> r is Ok,
        !valid_length(value as int) ==> (r matches Err(ValidationError::InvalidDimension(msg))
            && msg@ == refusal_text(name@, value as int)),
{
    if value <= 0 || value > MAX_LENGTH {
        return Err(ValidationError::InvalidDimension(refusal_message(name, value)));
    }
    Ok(())
}

/// Accepts a weight, or says why not.
fn validate_weight_value(value: i64) -> (r: Result<(), ValidationError>)
    ensures
        valid_weight(value as int) ==> r is Ok,
        !valid_weight(value as int) ==> (r matches Err(ValidationError::InvalidWeight(msg))
            && msg@ == refusal_text("Weight"@, value as int)),
{
    if value <= 0 || value > MAX_WEIGHT {
        return Err(ValidationError::InvalidWeight(refusal_message("Weight", value)));
    }
    Ok(())
}

/// The outcome of validating an item's dimensions and weight: the first refusal in
/// the order width, depth, height, weight.
pub open spec fn box_params_error(dims: (i64, i64, i64), weight: i64, r: Result<
    (),
    ValidationError,
>) -> bool {
    if !valid_length(dims.0 as int) {
        r matches Err(ValidationError::InvalidDimension(msg)) && msg@ == refusal_text(
            "Width"@,
            dims.0 as int,
        )
    } else if !valid_length(dims.1 as int) {
        r matches Err(ValidationError::InvalidDimension(msg)) && msg@ == refusal_text(
            "Depth"@,
            dims.1 as int,
        )
    } else if !valid_length(dims.2 as int) {
        r matches Err(ValidationError::InvalidDimension(msg)) && msg@ == refusal_text(
            "Height"@,
            dims.2 as int,
        )
    } else if !valid_weight(weight as int) {
        r matches Err(ValidationError::InvalidWeight(msg)) && msg@ == refusal_text(
            "Weight"@,
            weight as int,
        )
    } else {
        r is Ok
    }
}

/// The outcome of validating a container's dimensions and weight limit: the first
/// refusal in the order width, depth, height, weight limit.
pub open spec fn container_params_error(dims: (i64, i64, i64), max_weight: i64, r: Result<
    (),
    ValidationError,
>) -> bool {
    if !valid_length(dims.0 as int) {
        r matches Err(ValidationError::InvalidDimension(msg)) && msg@ == refusal_text(
            "Container width"@,
            dims.0 as int,
        )
    } else if !valid_length(dims.1 as int) {
        r matches Err(ValidationError::InvalidDimension(msg)) && msg@ == refusal_text(
            "Container depth"@,
            dims.1 as int,
        )
    } else if !valid_length(dims.2 as int) {
        r matches Err(ValidationError::InvalidDimension(msg)) && msg@ == refusal_text(
            "Container height"@,
            dims.2 as int,
        )
    } else if !valid_weight(max_weight as int) {
        r matches Err(ValidationError::InvalidWeight(msg)) && msg@ == refusal_text(
            "Weight"@,
            max_weight as int,
        )
    } else {
        r is Ok
    }
}

fn validate_box_params(dims: (i64, i64, i64), weight: i64) -> (r: Result<(), ValidationError>)
    ensures
        box_params_error(dims, weight, r),
{
    match validate_dimension(dims.0, "Width") {
        Err(e) => { return Err(e); },
        Ok(_) => {},
    }
    match validate_dimension(dims.1, "Depth") {
        Err(e) => { return Err(e); },
        Ok(_) => {},
    }
    match validate_dimension(dims.2, "Height") {
        Err(e) => { return Err(e); },
        Ok(_) => {},
    }
    validate_weight_value(weight)
}

fn validate_container_params(dims: (i64, i64, i64), max_weight: i64) -> (r: Result<
    (),
    ValidationError,
>)
    ensures
        container_params_error(dims, max_weight, r),
{
    match validate_dimension(dims.0, "Container width") {
        Err(e) => { return Err(e); },
        Ok(_) => {},
    }
    match validate_dimension(dims.1, "Container depth") {
        Err(e) => { return Err(e); },
        Ok(_) => {},
    }
    match validate_dimension(dims.2, "Container height") {
        Err(e) => { return Err(e); },
        Ok(_) => {},
    }
    validate_weight_value(max_weight)
}

/// An item to be packed: a cuboid with an identifier, three side lengths
/// (width, depth, height) and a weight.
#[derive(Clone, Copy, Debug)]
pub struct Box3D {
    pub id: usize,
    pub dims: (i64, i64, i64),
    pub weight: i64,
}

impl Box3D {
    /// All side lengths and the weight are strictly positive and in range.
    pub open spec fn valid(&self) -> bool {
        valid_dims(self.dims) && valid_weight(self.weight as int)
    }

    /// Product of the three side lengths.
    pub open spec fn spec_volume(&self) -> int {
        self.dims.0 as int * self.dims.1 as int * self.dims.2 as int
    }

    /// Product of width and depth.
    pub open spec fn spec_base_area(&self) -> int {
        self.dims.0 as int * self.dims.1 as int
    }

    /// Builds an item after validating its dimensions and weight.
    pub fn new(id: usize, dims: (i64, i64, i64), weight: i64) -> (r: Result<Self, ValidationError>)
        ensures
            (valid_dims(dims) && valid_weight(weight as int)) <==> r is Ok,
            r matches Ok(b) ==> b.id == id && b.dims == dims && b.weight == weight && b.valid(),
            r matches Err(e) ==> box_params_error(dims, weight, Err(e)),
    {
        match validate_box_params(dims, weight) {
            Err(e) => Err(e),
            Ok(_) => Ok(Self { id, dims, weight }),
        }
    }

    /// Volume: the exact product of the three side lengths.
    pub fn volume(&self) -> (v: i128)
        requires
            self.valid(),
        ensures
            v == self.spec_volume(),
            0 < v <= MAX_LENGTH * MAX_LENGTH * MAX_LENGTH,
    {
        proof {
            lemma_volume_bounds(self.dims.0 as int, self.dims.1 as int, self.dims.2 as int);
        }
        let area: i128 = self.dims.0 as i128 * self.dims.1 as i128;
        area * self.dims.2 as i128
    }

    /// Base area: the exact product of width and depth.
    pub fn base_area(&self) -> (a: i128)
        requires
            self.valid(),
        ensures
            a == self.spec_base_area(),
            0 < a <= MAX_LENGTH * MAX_LENGTH,
    {
        proof {
            lemma_volume_bounds(self.dims.0 as int, self.dims.1 as int, self.dims.2 as int);
        }
        self.dims.0 as i128 * self.dims.1 as i128
    }

    /// The side lengths as a vector.
    pub fn dims_as_vec3(&self) -> (v: Vec3)
        ensures
            v.x == self.dims.0 && v.y == self.dims.1 && v.z == self.dims.2,
    {
        Vec3::from_tuple(self.dims)
    }
}

impl Dimensional for Box3D {
    open spec fn spec_dimensions(&self) -> Vec3 {
        Vec3 { x: self.dims.0, y: self.dims.1, z: self.dims.2 }
    }

    fn dimensions(&self) -> (d: Vec3) {
        self.dims_as_vec3()
    }
}

impl Weighted for Box3D {
    open spec fn spec_weight(&self) -> i64 {
        self.weight
    }

    fn weight(&self) -> (w: i64) {
        self.weight
    }
}

/// Areas and volumes of acceptable lengths are positive and bounded.
pub proof fn lemma_volume_bounds(w: int, d: int, h: int)
    requires
        valid_length(w),
        valid_length(d),
        valid_length(h),
    ensures
        0 < w * d <= MAX_LENGTH * MAX_LENGTH,
        0 < w * d * h <= MAX_LENGTH * MAX_LENGTH * MAX_LENGTH,
        MAX_LENGTH * MAX_LENGTH * MAX_LENGTH == 1_000_000_000_000_000_000_000_000_000_000_000,
        MAX_LENGTH * MAX_LENGTH == 10_000_000_000_000_000_000_000,
{
    let m = MAX_LENGTH as int;
    assert(0 < w * d <= m * m) by (nonlinear_arith)
        requires
            1 <= w <= m,
            1 <= d <= m,
    ;
    assert(0 < (w * d) * h <= (m * m) * m) by (nonlinear_arith)
        requires
            0 < w * d <= m * m,
            1 <= h <= m,
    ;
    assert(m * m == 10_000_000_000_000_000_000_000) by (nonlinear_arith)
        requires
            m == 100_000_000_000,
    ;
    assert(m * m * m == 1_000_000_000_000_000_000_000_000_000_000_000) by (nonlinear_arith)
        requires
            m == 100_000_000_000,
    ;
}

/// An item together with the position of its lower corner inside a container.
#[derive(Clone, Copy, Debug)]
pub struct PlacedBox {
    pub object: Box3D,
    pub position: (i64, i64, i64),
}

impl PlacedBox {
    /// The item is valid and every coordinate lies between zero and the largest
    /// coordinate.
    pub open spec fn valid(&self) -> bool {
        &&& self.object.valid()
        &&& 0 <= self.position.0 <= MAX_COORD
        &&& 0 <= self.position.1 <= MAX_COORD
        &&& 0 <= self.position.2 <= MAX_COORD
    }

    /// Height of the top face.
    pub open spec fn spec_top_z(&self) -> int {
        self.position.2 as int + self.object.dims.2 as int
    }

    /// Centre of the box: the position plus half of each side length, halves rounded down.
    pub open spec fn spec_center(&self) -> (int, int, int) {
        (
            self.position.0 as int + self.object.dims.0 as int / 2,
            self.position.1 as int + self.object.dims.1 as int / 2,
            self.position.2 as int + self.object.dims.2 as int / 2,
        )
    }

    /// Places `object` at `position`.
    pub fn new(object: Box3D, position: (i64, i64, i64)) -> (p: Self)
        ensures
            p.object == object,
            p.position == position,
    {
        Self { object, position }
    }

    /// Height of the top face: the z coordinate plus the height of the item.
    pub fn top_z(&self) -> (z: i64)
        requires
            self.valid(),
        ensures
            z == self.spec_top_z(),
    {
        self.position.2 + self.object.dims.2
    }

    /// Centre of the box.
    pub fn center(&self) -> (c: (i64, i64, i64))
        requires
            self.valid(),
        ensures
            (c.0 as int, c.1 as int, c.2 as int) == self.spec_center(),
    {
        (
            self.position.0 + self.object.dims.0 / 2,
            self.position.1 + self.object.dims.1 / 2,
            self.position.2 + self.object.dims.2 / 2,
        )
    }

    /// Centre of the box as a vector.
    pub fn center_vec3(&self) -> (c: Vec3)
        requires
            self.valid(),
        ensures
            (c.x as int, c.y as int, c.z as int) == self.spec_center(),
    {
        let c = self.center();
        Vec3::new(c.0, c.1, c.2)
    }

    /// The axis-aligned box that the item occupies.
    pub fn bounding_box(&self) -> (b: BoundingBox)
        requires
            self.valid(),
        ensures
            b.min.x == self.position.0 && b.min.y == self.position.1 && b.min.z == self.position.2,
            b.max.x == self.position.0 + self.object.dims.0,
            b.max.y == self.position.1 + self.object.dims.1,
            b.max.z == self.position.2 + self.object.dims.2,
    {
        BoundingBox::from_position_and_dims(
            Vec3::from_tuple(self.position),
            self.object.dims_as_vec3(),
        )
    }

    /// The position as a vector.
    pub fn position_vec3(&self) -> (v: Vec3)
        ensures
            v.x == self.position.0 && v.y == self.position.1 && v.z == self.position.2,
    {
        Vec3::from_tuple(self.position)
    }
}

impl Positioned for PlacedBox {
    open spec fn spec_position(&self) -> Vec3 {
        Vec3 { x: self.position.0, y: self.position.1, z: self.position.2 }
    }

    fn position(&self) -> (p: Vec3) {
        self.position_vec3()
    }
}

impl Dimensional for PlacedBox {
    open spec fn spec_dimensions(&self) -> Vec3 {
        Vec3 { x: self.object.dims.0, y: self.object.dims.1, z: self.object.dims.2 }
    }

    fn dimensions(&self) -> (d: Vec3) {
        self.object.dims_as_vec3()
    }
}

impl Weighted for PlacedBox {
    open spec fn spec_weight(&self) -> i64 {
        self.object.weight
    }

    fn weight(&self) -> (w: i64) {
        self.object.weight
    }
}

/// Sum of the weights of a sequence of placed boxes.
pub open spec fn weight_sum(placed: Seq<PlacedBox>) -> int
    decreases placed.len(),
{
    if placed.len() == 0 {
        0
    } else {
        weight_sum(placed.drop_last()) + placed.last().object.weight as int
    }
}

/// Sum of the volumes of a sequence of placed boxes.
pub open spec fn volume_sum(placed: Seq<PlacedBox>) -> int
    decreases placed.len(),
{
    if placed.len() == 0 {
        0
    } else {
        volume_sum(placed.drop_last()) + placed.last().object.spec_volume()
    }
}

/// Every box of the sequence is valid.
pub open spec fn all_valid(placed: Seq<PlacedBox>) -> bool {
    forall|i: int| 0 <= i < placed.len() ==> (#[trigger] placed[i]).valid()
}

/// Appending a box adds its weight and its volume to the sums.
pub proof fn lemma_sums_push(placed: Seq<PlacedBox>, b: PlacedBox)
    ensures
        weight_sum(placed.push(b)) == weight_sum(placed) + b.object.weight,
        volume_sum(placed.push(b)) == volume_sum(placed) + b.object.spec_volume(),
{
    assert(placed.push(b).drop_last() =~= placed);
}

/// The sums over valid boxes are bounded by the number of boxes.
pub proof fn lemma_sums_bounds(placed: Seq<PlacedBox>)
    requires
        all_valid(placed),
    ensures
        placed.len() <= weight_sum(placed) <= placed.len() * MAX_WEIGHT,
        0 <= volume_sum(placed) <= placed.len() * (MAX_LENGTH * MAX_LENGTH * MAX_LENGTH),
    decreases placed.len(),
{
    if placed.len() > 0 {
        let rest = placed.drop_last();
        assert(all_valid(rest)) by {
            assert forall|i: int| 0 <= i < rest.len() implies (#[trigger] rest[i]).valid() by {
                assert(rest[i] == placed[i]);
            }
        }
        lemma_sums_bounds(rest);
        let b = placed.last();
        assert(b.valid());
        lemma_volume_bounds(b.object.dims.0 as int, b.object.dims.1 as int, b.object.dims.2 as int);
        let n = rest.len() as int;
        let m = MAX_LENGTH * MAX_LENGTH * MAX_LENGTH;
        assert((n + 1) * MAX_WEIGHT == n * MAX_WEIGHT + MAX_WEIGHT) by (nonlinear_arith);
        assert((n + 1) * m == n * m + m) by (nonlinear_arith);
    }
}

/// The text of an optional label.
pub open spec fn label_text(label: Option<String>) -> Option<Seq<char>> {
    match label {
        Some(s) => Some(s@),
        None => None,
    }
}

/// The mathematical content of a container: its dimensions, its weight limit, the
/// boxes placed in it in the order of placement, and the template it came from.
pub struct ContainerModel {
    pub dims: (i64, i64, i64),
    pub max_weight: i64,
    pub placed: Seq<PlacedBox>,
    pub template_id: Option<usize>,
    pub label: Option<Seq<char>>,
}

impl ContainerModel {
    /// Dimensions and weight limit are acceptable, the number of boxes is within the
    /// supported range, and every box is valid.
    pub open spec fn valid(self) -> bool {
        &&& valid_dims(self.dims)
        &&& valid_weight(self.max_weight as int)
        &&& self.placed.len() <= MAX_ITEMS
        &&& all_valid(self.placed)
    }

    /// Total weight of the placed boxes.
    pub open spec fn total_weight(self) -> int {
        weight_sum(self.placed)
    }

    /// Whether an item can fit at all: its weight is within the remaining capacity and
    /// each side is within the matching side of the container, each with the general
    /// tolerance.
    pub open spec fn can_fit(self, b: Box3D) -> bool {
        &&& self.max_weight - self.total_weight() + EPSILON_GENERAL >= b.weight
        &&& b.dims.0 <= self.dims.0 + EPSILON_GENERAL
        &&& b.dims.1 <= self.dims.1 + EPSILON_GENERAL
        &&& b.dims.2 <= self.dims.2 + EPSILON_GENERAL
    }

    /// The container with one more box at the end.
    pub open spec fn with_box(self, p: PlacedBox) -> ContainerModel {
        ContainerModel { placed: self.placed.push(p), ..self }
    }
}

/// A live container: its inner dimensions, its weight limit, and the boxes placed in it
/// so far, in the order in which they were placed.
#[derive(Debug)]
pub struct Container {
    pub dims: (i64, i64, i64),
    pub max_weight: i64,
    pub placed: Vec<PlacedBox>,
    pub template_id: Option<usize>,
    pub label: Option<String>,
}

impl View for Container {
    type V = ContainerModel;

    open spec fn view(&self) -> ContainerModel {
        ContainerModel {
            dims: self.dims,
            max_weight: self.max_weight,
            placed: self.placed@,
            template_id: self.template_id,
            label: label_text(self.label),
        }
    }
}

impl Container {
    /// Dimensions and weight limit are acceptable, the number of boxes is within the
    /// supported range, and every box is valid.
    pub open spec fn valid(&self) -> bool {
        self@.valid()
    }

    /// Total weight of the placed boxes.
    pub open spec fn spec_total_weight(&self) -> int {
        self@.total_weight()
    }

    /// Total volume of the placed boxes.
    pub open spec fn spec_used_volume(&self) -> int {
        volume_sum(self.placed@)
    }

    /// Volume of the container.
    pub open spec fn spec_total_volume(&self) -> int {
        self.dims.0 as int * self.dims.1 as int * self.dims.2 as int
    }

    /// Whether an item can fit at all: its weight is within the remaining capacity and
    /// each side is within the matching side of the container, each with the general
    /// tolerance.
    pub open spec fn spec_can_fit(&self, b: Box3D) -> bool {
        self@.can_fit(b)
    }

    /// Builds an empty container after validating its dimensions and weight limit.
    pub fn new(dims: (i64, i64, i64), max_weight: i64) -> (r: Result<Self, ValidationError>)
        ensures
            (valid_dims(dims) && valid_weight(max_weight as int)) <==> r is Ok,
            r matches Ok(c) ==> c.dims == dims && c.max_weight == max_weight && c.placed@.len() == 0
                && c.template_id is None && c.label is None && c.valid(),
            r matches Err(e) ==> container_params_error(dims, max_weight, Err(e)),
    {
        match validate_container_params(dims, max_weight) {
            Err(e) => Err(e),
            Ok(_) => Ok(
                Self { dims, max_weight, placed: Vec::new(), template_id: None, label: None },
            ),
        }
    }

    /// Total weight of the placed boxes.
    pub fn total_weight(&self) -> (w: i64)
        requires
            self.valid(),
        ensures
            w == self.spec_total_weight(),
            0 <= w <= MAX_ITEMS * MAX_WEIGHT,
    {
        let mut total: i64 = 0;
        let mut i: usize = 0;
        while i < self.placed.len()
            invariant
                i <= self.placed@.len() <= MAX_ITEMS,
                all_valid(self.placed@),
                total == weight_sum(self.placed@.take(i as int)),
                0 <= total <= i * MAX_WEIGHT,
            decreases self.placed@.len() - i,
        {
            proof {
                let next = self.placed@.take(i as int + 1);
                assert(next.drop_last() =~= self.placed@.take(i as int));
                assert(next.last() == self.placed@[i as int]);
                assert(self.placed@[i as int].valid());
                assert((i + 1) * MAX_WEIGHT == i * MAX_WEIGHT + MAX_WEIGHT) by (nonlinear_arith);
                assert(i * MAX_WEIGHT <= MAX_ITEMS * MAX_WEIGHT) by (nonlinear_arith)
                    requires
                        i <= MAX_ITEMS,
                ;
            }
            total = total + self.placed[i].object.weight;
            i = i + 1;
        }
        proof {
            assert(self.placed@.take(i as int) =~= self.placed@);
            assert(i * MAX_WEIGHT <= MAX_ITEMS * MAX_WEIGHT) by (nonlinear_arith)
                requires
                    i <= MAX_ITEMS,
            ;
        }
        total
    }

    /// Weight that can still be added: the limit minus the total weight.
    pub fn remaining_weight(&self) -> (w: i64)
        requires
            self.valid(),
        ensures
            w == self.max_weight - self.spec_total_weight(),
    {
        self.max_weight - self.total_weight()
    }

    /// Total volume of the placed boxes.
    pub fn used_volume(&self) -> (v: i128)
        requires
            self.valid(),
        ensures
            v == self.spec_used_volume(),
            0 <= v <= MAX_ITEMS * (MAX_LENGTH * MAX_LENGTH * MAX_LENGTH),
    {
        let mut total: i128 = 0;
        let mut i: usize = 0;
        let ghost cube: int = MAX_LENGTH * MAX_LENGTH * MAX_LENGTH;
        proof {
            lemma_volume_bounds(1, 1, 1);
        }
        while i < self.placed.len()
            invariant
                i <= self.placed@.len() <= MAX_ITEMS,
                all_valid(self.placed@),
                total == volume_sum(self.placed@.take(i as int)),
                cube == 1_000_000_000_000_000_000_000_000_000_000_000,
                cube == MAX_LENGTH * MAX_LENGTH * MAX_LENGTH,
                0 <= total <= i * cube,
            decreases self.placed@.len() - i,
        {
            proof {
                let next = self.placed@.take(i as int + 1);
                assert(next.drop_last() =~= self.placed@.take(i as int));
                assert(next.last() == self.placed@[i as int]);
                assert(self.placed@[i as int].valid());
                assert((i + 1) * cube == i * cube + cube) by (nonlinear_arith);
                assert(i * cube <= MAX_ITEMS * cube) by (nonlinear_arith)
                    requires
                        i <= MAX_ITEMS,
                        cube >= 0,
                ;
            }
            let v: i128 = self.placed[i].object.volume();
            total = total + v;
            i = i + 1;
        }
        proof {
            assert(self.placed@.take(i as int) =~= self.placed@);
            assert(i * cube <= MAX_ITEMS * cube) by (nonlinear_arith)
                requires
                    i <= MAX_ITEMS,
                    cube >= 0,
            ;
        }
        total
    }

    /// Volume of the container: the exact product of its three side lengths.
    pub fn total_volume(&self) -> (v: i128)
        requires
            self.valid(),
        ensures
            v == self.spec_total_volume(),
            0 < v <= MAX_LENGTH * MAX_LENGTH * MAX_LENGTH,
    {
        proof {
            lemma_volume_bounds(self.dims.0 as int, self.dims.1 as int, self.dims.2 as int);
        }
        let area: i128 = self.dims.0 as i128 * self.dims.1 as i128;
        area * self.dims.2 as i128
    }

    /// Share of the container's volume that the placed boxes take, in percent, capped
    /// at one hundred.
    pub fn utilization_percent(&self) -> (r: i64)
        requires
            self.valid(),
        ensures
            r == utilization(self.spec_used_volume(), self.spec_total_volume()),
            0 <= r <= 100_000_000,
    {
        let total: i128 = self.total_volume();
        let used: i128 = self.used_volume();
        proof {
            lemma_volume_bounds(1, 1, 1);
        }
        utilization_of(used, total)
    }

    /// Whether an item can fit at all, by weight and by each dimension.
    pub fn can_fit(&self, b: &Box3D) -> (r: bool)
        requires
            self.valid(),
        ensures
            r == self.spec_can_fit(*b),
    {
        self.remaining_weight() as i128 + EPSILON_GENERAL as i128 >= b.weight as i128
            && b.dims.0 <= self.dims.0 + EPSILON_GENERAL && b.dims.1 <= self.dims.1
            + EPSILON_GENERAL && b.dims.2 <= self.dims.2 + EPSILON_GENERAL
    }

    /// The dimensions as a vector.
    pub fn dims_as_vec3(&self) -> (v: Vec3)
        ensures
            v.x == self.dims.0 && v.y == self.dims.1 && v.z == self.dims.2,
    {
        Vec3::from_tuple(self.dims)
    }

    /// Centre of the container's footprint: half the width and half the depth,
    /// rounded down.
    pub fn center_xy(&self) -> (c: (i64, i64))
        requires
            self.valid(),
        ensures
            c.0 == self.dims.0 / 2,
            c.1 == self.dims.1 / 2,
    {
        (self.dims.0 / 2, self.dims.1 / 2)
    }

    /// A new empty container with the same dimensions, limit, template and label.
    pub fn empty_like(&self) -> (c: Self)
        ensures
            c.dims == self.dims,
            c.max_weight == self.max_weight,
            c.placed@.len() == 0,
            c.template_id == self.template_id,
            c.label == self.label,
    {
        Self {
            dims: self.dims,
            max_weight: self.max_weight,
            placed: Vec::new(),
            template_id: self.template_id,
            label: clone_label(&self.label),
        }
    }

    /// The same container with the given template identifier and label.
    pub fn with_meta(self, template_id: usize, label: Option<String>) -> (c: Self)
        ensures
            c.dims == self.dims,
            c.max_weight == self.max_weight,
            c.placed == self.placed,
            c.template_id == Some(template_id),
            c.label == label,
    {
        let mut c = self;
        c.template_id = Some(template_id);
        c.label = label;
        c
    }
}

impl Dimensional for Container {
    open spec fn spec_dimensions(&self) -> Vec3 {
        Vec3 { x: self.dims.0, y: self.dims.1, z: self.dims.2 }
    }

    fn dimensions(&self) -> (d: Vec3) {
        Vec3::from_tuple(self.dims)
    }
}

impl Dimensional for ContainerBlueprint {
    open spec fn spec_dimensions(&self) -> Vec3 {
        Vec3 { x: self.dims.0, y: self.dims.1, z: self.dims.2 }
    }

    fn dimensions(&self) -> (d: Vec3) {
        Vec3::from_tuple(self.dims)
    }
}

/// Share of `total` that `used` takes, in percent, rounded down and capped at one
/// hundred.
pub open spec fn utilization(used: int, total: int) -> int {
    if used >= total {
        100_000_000
    } else {
        used * 100_000_000 / total
    }
}

/// Share of `total` that `used` takes, in percent.
pub fn utilization_of(used: i128, total: i128) -> (r: i64)
    requires
        0 <= used,
        0 < total <= 1_000_000_000_000_000_000_000_000_000_000_000,
    ensures
        r == utilization(used as int, total as int),
        0 <= r <= 100_000_000,
{
    if used >= total {
        return 100_000_000;
    }
    let a: i128 = used * 10_000;
    let q1: i128 = a / total;
    let r1: i128 = a % total;
    let b: i128 = r1 * 10_000;
    let q2: i128 = b / total;
    proof {
        let r2 = b as int % total as int;
        vstd::arithmetic::div_mod::lemma_fundamental_div_mod(a as int, total as int);
        vstd::arithmetic::div_mod::lemma_fundamental_div_mod(b as int, total as int);
        assert(0 <= q1 < 10_000 && 0 <= q2 < 10_000) by (nonlinear_arith)
            requires
                a == total * q1 + r1,
                b == total * q2 + r2,
                0 <= r1 < total,
                0 <= r2 < total,
                0 <= a < total * 10_000,
                b == r1 * 10_000,
                total > 0,
        ;
        assert(used * 100_000_000 == (q1 * 10_000 + q2) * total + r2) by (nonlinear_arith)
            requires
                a == used * 10_000,
                a == total * q1 + r1,
                b == r1 * 10_000,
                b == total * q2 + r2,
        ;
        vstd::arithmetic::div_mod::lemma_fundamental_div_mod_converse(
            used * 100_000_000,
            total as int,
            q1 * 10_000 + q2,
            r2,
        );
    }
    (q1 * 10_000 + q2) as i64
}

/// Copies a sequence of placed boxes.
pub fn clone_placed(placed: &Vec<PlacedBox>) -> (r: Vec<PlacedBox>)
    ensures
        r@ == placed@,
{
    let mut out: Vec<PlacedBox> = Vec::new();
    let mut i: usize = 0;
    while i < placed.len()
        invariant
            i <= placed@.len(),
            out@ == placed@.take(i as int),
        decreases placed@.len() - i,
    {
        out.push(placed[i]);
        assert(out@ =~= placed@.take(i as int + 1));
        i = i + 1;
    }
    assert(placed@.take(i as int) =~= placed@);
    out
}

impl Clone for Container {
    fn clone(&self) -> (c: Self)
        ensures
            c.dims == self.dims,
            c.max_weight == self.max_weight,
            c.placed@ == self.placed@,
            c.template_id == self.template_id,
            c.label == self.label,
    {
        Self {
            dims: self.dims,
            max_weight: self.max_weight,
            placed: clone_placed(&self.placed),
            template_id: self.template_id,
            label: clone_label(&self.label),
        }
    }
}

impl Clone for ContainerBlueprint {
    fn clone(&self) -> (t: Self)
        ensures
            t == *self,
    {
        Self {
            id: self.id,
            label: clone_label(&self.label),
            dims: self.dims,
            max_weight: self.max_weight,
        }
    }
}

/// Copies an optional label.
pub fn clone_label(label: &Option<String>) -> (r: Option<String>)
    ensures
        r == *label,
{
    match label {
        Some(s) => Some(s.clone()),
        None => None,
    }
}

/// A reusable container template.
#[derive(Debug)]
pub struct ContainerBlueprint {
    pub id: usize,
    pub label: Option<String>,
    pub dims: (i64, i64, i64),
    pub max_weight: i64,
}

impl ContainerBlueprint {
    /// Dimensions and weight limit are acceptable.
    pub open spec fn valid(&self) -> bool {
        valid_dims(self.dims) && valid_weight(self.max_weight as int)
    }

    /// Volume of the template.
    pub open spec fn spec_volume(&self) -> int {
        self.dims.0 as int * self.dims.1 as int * self.dims.2 as int
    }

    /// Whether an item can fit into an empty container of this template: its weight is
    /// within the limit and each side within the matching side, each with the general
    /// tolerance.
    pub open spec fn spec_can_fit(&self, b: Box3D) -> bool {
        &&& b.weight <= self.max_weight + EPSILON_GENERAL
        &&& b.dims.0 <= self.dims.0 + EPSILON_GENERAL
        &&& b.dims.1 <= self.dims.1 + EPSILON_GENERAL
        &&& b.dims.2 <= self.dims.2 + EPSILON_GENERAL
    }

    /// The empty container that the template describes.
    pub open spec fn fresh(&self) -> ContainerModel {
        ContainerModel {
            dims: self.dims,
            max_weight: self.max_weight,
            placed: Seq::<PlacedBox>::empty(),
            template_id: Some(self.id),
            label: label_text(self.label),
        }
    }

    /// Builds a template after validating its dimensions and weight limit.
    pub fn new(id: usize, label: Option<String>, dims: (i64, i64, i64), max_weight: i64) -> (r:
        Result<Self, ValidationError>)
        ensures
            (valid_dims(dims) && valid_weight(max_weight as int)) <==> r is Ok,
            r matches Ok(t) ==> t.id == id && t.label == label && t.dims == dims && t.max_weight
                == max_weight && t.valid(),
            r matches Err(e) ==> container_params_error(dims, max_weight, Err(e)),
    {
        match validate_container_params(dims, max_weight) {
            Err(e) => Err(e),
            Ok(_) => Ok(Self { id, label, dims, max_weight }),
        }
    }

    /// A fresh empty container with the template's dimensions, limit, identifier and label.
    pub fn instantiate(&self) -> (c: Container)
        ensures
            c@ == self.fresh(),
            c.label == self.label,
            self.valid() ==> c.valid(),
    {
        let c = Container {
            dims: self.dims,
            max_weight: self.max_weight,
            placed: Vec::new(),
            template_id: Some(self.id),
            label: clone_label(&self.label),
        };
        assert(c@.placed =~= Seq::<PlacedBox>::empty());
        c
    }

    /// Whether an item can fit into an empty container of this template.
    pub fn can_fit(&self, object: &Box3D) -> (r: bool)
        requires
            self.valid(),
        ensures
            r == self.spec_can_fit(*object),
    {
        object.weight as i128 <= self.max_weight as i128 + EPSILON_GENERAL as i128
            && object.dims.0 as i128 <= self.dims.0 as i128 + EPSILON_GENERAL as i128
            && object.dims.1 as i128 <= self.dims.1 as i128 + EPSILON_GENERAL as i128
            && object.dims.2 as i128 <= self.dims.2 as i128 + EPSILON_GENERAL as i128
    }

    /// Volume of the template: the exact product of its three side lengths.
    pub fn volume(&self) -> (v: i128)
        requires
            self.valid(),
        ensures
            v == self.spec_volume(),
            0 < v <= MAX_LENGTH * MAX_LENGTH * MAX_LENGTH,
    {
        proof {
            lemma_volume_bounds(self.dims.0 as int, self.dims.1 as int, self.dims.2 as int);
        }
        let area: i128 = self.dims.0 as i128 * self.dims.1 as i128;
        area * self.dims.2 as i128
    }

    /// The dimensions as a vector.
    pub fn dims_as_vec3(&self) -> (v: Vec3)
        ensures
            v.x == self.dims.0 && v.y == self.dims.1 && v.z == self.dims.2,
    {
        Vec3::from_tuple(self.dims)
    }
}

} // verus!
