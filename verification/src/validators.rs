//! The checks that validation is assembled from.

use vstd::prelude::*;
use crate::Timestamp;
use crate::errors::Field;
use crate::errors::FieldError;
use crate::errors::ValidationCode;
use crate::errors::ValidationError;
use crate::errors::ValidationParams;

verus! {

/// A failure with reason `code` that reports no values.
pub open spec fn plain_error(code: ValidationCode) -> ValidationError {
    ValidationError { code, params: ValidationParams::none() }
}

/// A window is valid when it starts strictly before it ends; an empty window is not.
pub fn start_date_valid(start_date: Timestamp, end_date: Timestamp) -> (r: Result<(), ValidationError>)
    ensures
        r is Ok <==> start_date < end_date,
        r matches Err(e) ==> e == plain_error(ValidationCode::StartDateMustBeBeforeEndDate),
{
    if start_date >= end_date {
        return Err(
            ValidationError {
                code: ValidationCode::StartDateMustBeBeforeEndDate,
                params: ValidationParams::none(),
            },
        );
    }
    Ok(())
}

/// `value` must not be below `min`; where it is, the failure has the reason `code`.
pub fn validate_greater_than_or_equal(value: i64, min: i64, code: ValidationCode) -> (r: Result<
    (),
    ValidationError,
>)
    ensures
        r is Ok <==> value >= min,
        r matches Err(e) ==> e == plain_error(code),
{
    if value < min {
        return Err(ValidationError { code, params: ValidationParams::none() });
    }
    Ok(())
}

/// The failures collected so far, with that of `result` under `field` behind them if it is one.
pub open spec fn appended(errors: Seq<FieldError>, field: Field, result: Result<(), ValidationError>) -> Seq<
    FieldError,
> {
    match result {
        Ok(_) => errors,
        Err(error) => errors.push(FieldError { field, error }),
    }
}

pub fn append_validation_error(
    errors: Vec<FieldError>,
    field: Field,
    result: Result<(), ValidationError>,
) -> (r: Vec<FieldError>)
    ensures
        r@ == appended(errors@, field, result),
{
    let mut errors = errors;
    match result {
        Ok(_) => {},
        Err(error) => {
            errors.push(FieldError { field, error });
        },
    }
    errors
}

} // verus!
