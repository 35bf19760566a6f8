use vstd::prelude::*;

verus! {

/// The kinds of failure that leave the checkout subsystem.
#[derive(Clone, Copy, Debug, PartialEq, Eq, Structural)]
pub enum CheckoutError {
    /// The referenced book (or checkout) does not exist.
    EntityNotFound,
    /// A guard read found a state that forbids the operation.
    Conflict,
    /// A write changed no row although one was expected.
    WriteAnomaly,
    /// The store failed to begin, run or commit the transaction.
    Transaction,
}

impl CheckoutError {
    /// The kind of a store statement that failed: a serialization abort is a
    /// transaction failure that may be retried, any other failure is an anomaly.
    pub fn statement_failure(serialization_abort: bool) -> (r: CheckoutError)
        ensures
            r == (if serialization_abort {
                CheckoutError::Transaction
            } else {
                CheckoutError::WriteAnomaly
            }),
    {
        if serialization_abort {
            CheckoutError::Transaction
        } else {
            CheckoutError::WriteAnomaly
        }
    }

    /// Whether a caller may retry the operation as it stands.
    pub fn is_retryable(&self) -> (r: bool)
        ensures
            r == (*self == CheckoutError::Transaction),
    {
        match self {
            CheckoutError::Transaction => true,
            _ => false,
        }
    }
}

} // verus!
