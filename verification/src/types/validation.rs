//! Checks on single quantities, with the refusal as text.

use vstd::prelude::*;
use vstd::string::StringExecFns;
use crate::fixed::{MAX_LENGTH, MAX_WEIGHT};
use crate::text::{fixed_text, push_fixed};

verus! {

/// The text that refuses a quantity called `name` with the value `value` and the limit
/// `limit`: it must be positive, and it must not be beyond the supported range.
pub open spec fn refusal(name: Seq<char>, value: int, limit: int) -> Option<Seq<char>> {
    if value <= 0 {
        Some(name + " must be positive, got: "@ + fixed_text(value))
    } else if value > limit {
        Some(name + " must not be beyond the supported range, got: "@ + fixed_text(value))
    } else {
        None
    }
}

/// The result of a check with the given refusal.
pub open spec fn checked(refused: Option<Seq<char>>, r: Result<(), String>) -> bool {
    match refused {
        Some(text) => r matches Err(msg) && msg@ == text,
        None => r is Ok,
    }
}

/// Checks a quantity against zero and its limit.
fn validate_quantity(value: i64, name: &str, limit: i64) -> (r: Result<(), String>)
    ensures
        checked(refusal(name@, value as int, limit as int), r),
{
    if value <= 0 {
        let mut msg = String::from_str(name);
        msg.append(" must be positive, got: ");
        push_fixed(&mut msg, value);
        return Err(msg);
    }
    if value > limit {
        let mut msg = String::from_str(name);
        msg.append(" must not be beyond the supported range, got: ");
        push_fixed(&mut msg, value);
        return Err(msg);
    }
    Ok(())
}

/// Checks a single length: it must be strictly positive and in range.
pub fn validate_dimension(value: i64, name: &str) -> (r: Result<(), String>)
    ensures
        checked(refusal(name@, value as int, MAX_LENGTH as int), r),
        r is Ok <==> 1 <= value <= MAX_LENGTH,
{
    validate_quantity(value, name, MAX_LENGTH)
}

/// Checks a weight: it must be strictly positive and in range.
pub fn validate_weight(value: i64) -> (r: Result<(), String>)
    ensures
        checked(refusal("Weight"@, value as int, MAX_WEIGHT as int), r),
        r is Ok <==> 1 <= value <= MAX_WEIGHT,
{
    validate_quantity(value, "Weight", MAX_WEIGHT)
}

/// The refusal of a triple of lengths: that of the first length that is refused, in
/// the order width, depth, height.
pub open spec fn dimensions_refusal(dims: (i64, i64, i64)) -> Option<Seq<char>> {
    if refusal("Width"@, dims.0 as int, MAX_LENGTH as int) is Some {
        refusal("Width"@, dims.0 as int, MAX_LENGTH as int)
    } else if refusal("Depth"@, dims.1 as int, MAX_LENGTH as int) is Some {
        refusal("Depth"@, dims.1 as int, MAX_LENGTH as int)
    } else {
        refusal("Height"@, dims.2 as int, MAX_LENGTH as int)
    }
}

/// Checks the three lengths of an item.
pub fn validate_dimensions_3d(dims: (i64, i64, i64)) -> (r: Result<(), String>)
    ensures
        checked(dimensions_refusal(dims), r),
        r is Ok <==> crate::model::valid_dims(dims),
{
    match validate_dimension(dims.0, "Width") {
        Err(e) => { return Err(e); },
        Ok(_) => {},
    }
    match validate_dimension(dims.1, "Depth") {
        Err(e) => { return Err(e); },
        Ok(_) => {},
    }
    validate_dimension(dims.2, "Height")
}

} // verus!
