//! Fallible narrowing of dynamic values and the capability traits the
//! record controller is generic over.
//!
//! Narrowing a value to a concrete shape reports a `ConversionError`
//! naming the expected and the found shape instead of panicking; the
//! record-to-value direction is total and lives with each record type.

use vstd::prelude::*;
use crate::error::{Error, SpecError};
use crate::value::{spec_kind, spec_of_values, Kind, Object, SpecValue, Value};

verus! {

/// A type that may be the content of a create operation: it has a total
/// conversion into a dynamic value.
pub trait Creatable {
    /// Model of the dynamic value this record serializes to.
    spec fn spec_value(&self) -> SpecValue;

    /// Serializes the record; total, never fails.
    fn to_value(&self) -> (v: Value)
        ensures
            v@ == self.spec_value(),
    ;
}

/// A type that may be the content of an update-merge operation: it has a
/// total conversion into a dynamic value that carries only its present
/// fields.
pub trait Patchable {
    /// Model of the dynamic value this patch serializes to.
    spec fn spec_value(&self) -> SpecValue;

    /// Serializes the patch; total, never fails.
    fn to_value(&self) -> (v: Value)
        ensures
            v@ == self.spec_value(),
    ;
}

/// Narrows a dynamic value to a field mapping, reporting the found shape
/// on mismatch.
pub fn value_to_object(v: Value) -> (r: Result<Object, Error>)
    ensures
        match r {
            Ok(o) => v@ == SpecValue::Object(o@),
            Err(e) => {
                &&& !(v@ is Object)
                &&& e@ == SpecError::ConversionError {
                    expected: Kind::Object,
                    got: Some(spec_kind(v@)),
                }
            },
        },
{
    match v {
        Value::Object(o) => Ok(o),
        other => Err(
            Error::ConversionError { expected: Kind::Object, got: Some(other.kind()) },
        ),
    }
}

/// Narrows a dynamic value to an ordered array, reporting the found
/// shape on mismatch.
pub fn value_to_array(v: Value) -> (r: Result<Vec<Value>, Error>)
    ensures
        match r {
            Ok(vs) => v@ == SpecValue::Array(spec_of_values(vs@)),
            Err(e) => {
                &&& !(v@ is Array)
                &&& e@ == SpecError::ConversionError {
                    expected: Kind::Array,
                    got: Some(spec_kind(v@)),
                }
            },
        },
{
    match v {
        Value::Array(vs) => Ok(vs),
        other => Err(Error::ConversionError { expected: Kind::Array, got: Some(other.kind()) }),
    }
}

} // verus!
