use vstd::prelude::*;
use crate::error::CheckoutError;
use crate::model::{CheckoutStateRow, UpdateReturned};

verus! {

/// The decision of the guard read before a checkout: the book must exist and
/// have no open checkout.
pub open spec fn checkout_guard(row: Option<CheckoutStateRow>) -> Result<(), CheckoutError> {
    match row {
        None => Err(CheckoutError::EntityNotFound),
        Some(r) => if r.checkout_id is Some {
            Err(CheckoutError::Conflict)
        } else {
            Ok(())
        },
    }
}

/// The decision of the guard read before a return: the book must exist, and an
/// open checkout on it must be the one named, held by the returner.
pub open spec fn return_guard(row: Option<CheckoutStateRow>, event: UpdateReturned) -> Result<
    (),
    CheckoutError,
> {
    match row {
        None => Err(CheckoutError::EntityNotFound),
        Some(r) => match (r.checkout_id, r.user_id) {
            (Some(c), Some(u)) => if c != event.checkout_id || u != event.returned_by {
                Err(CheckoutError::Conflict)
            } else {
                Ok(())
            },
            _ => Ok(()),
        },
    }
}

/// Decides whether a checkout may proceed after its guard read.
pub fn check_checkout_guard(row: &Option<CheckoutStateRow>) -> (r: Result<(), CheckoutError>)
    ensures
        r == checkout_guard(*row),
{
    match row {
        None => Err(CheckoutError::EntityNotFound),
        Some(r) => match r.checkout_id {
            Some(_) => Err(CheckoutError::Conflict),
            None => Ok(()),
        },
    }
}

/// Decides whether a return may proceed after its guard read.
pub fn check_return_guard(row: &Option<CheckoutStateRow>, event: &UpdateReturned) -> (r: Result<
    (),
    CheckoutError,
>)
    ensures
        r == return_guard(*row, *event),
{
    match row {
        None => Err(CheckoutError::EntityNotFound),
        Some(r) => match (r.checkout_id, r.user_id) {
            (Some(c), Some(u)) => {
                if c.0 != event.checkout_id.0 || u.0 != event.returned_by.0 {
                    Err(CheckoutError::Conflict)
                } else {
                    Ok(())
                }
            },
            _ => Ok(()),
        },
    }
}

/// Turns the number of rows that a write changed into its outcome: a write that
/// changed no row is an anomaly.
pub fn require_rows_affected(rows: u64) -> (r: Result<(), CheckoutError>)
    ensures
        r is Ok <==> rows >= 1,
        r is Err ==> r == Err::<(), CheckoutError>(CheckoutError::WriteAnomaly),
{
    if rows < 1 {
        Err(CheckoutError::WriteAnomaly)
    } else {
        Ok(())
    }
}

} // verus!
