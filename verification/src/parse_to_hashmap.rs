//! Builds the flat map of a structured value.

use vstd::prelude::*;

use crate::errors::StringTemplaterError;
use crate::flat_map::FlatMap;
use crate::structured::{flat_of, flatten, StructuredValue};

verus! {

/// Flattens `value` into a flat map.  The conversion into `StructuredValue`
/// happens upstream, so nothing is left here that can fail; the `Result`
/// shape is kept for the callers that thread a serialization error through.
pub fn parse_to_hashmap(value: &StructuredValue) -> (r: Result<FlatMap, StringTemplaterError>)
    ensures
        r is Ok,
        r matches Result::Ok(m) ==> m@ == flat_of(*value, Seq::<char>::empty()),
{
    Result::Ok(flatten(value))
}

} // verus!
