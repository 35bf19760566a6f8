use adapter::{
    assemble_history, check_checkout_guard, check_return_guard, require_rows_affected, BookId,
    Checkout, CheckoutBook, CheckoutError, CheckoutId, CheckoutStateRow, UpdateReturned, UserId,
};

fn state(checkout: Option<u128>, user: Option<u128>) -> Option<CheckoutStateRow> {
    Some(CheckoutStateRow {
        book_id: BookId(1),
        checkout_id: checkout.map(CheckoutId),
        user_id: user.map(UserId),
    })
}

fn request(k: u128, u: u128) -> UpdateReturned {
    UpdateReturned { checkout_id: CheckoutId(k), book_id: BookId(1), returned_by: UserId(u), returned_at: 5 }
}

fn record(id: u128, returned_at: Option<i64>) -> Checkout {
    Checkout {
        id: CheckoutId(id),
        checked_out_by: UserId(1),
        checked_out_at: id as i64,
        returned_at,
        book: CheckoutBook {
            book_id: BookId(1),
            title: "T".to_string(),
            author: "A".to_string(),
            isbn: "I".to_string(),
        },
    }
}

#[test]
fn checkout_guard_decisions() {
    assert_eq!(check_checkout_guard(&None), Err(CheckoutError::EntityNotFound));
    assert_eq!(check_checkout_guard(&state(Some(3), None)), Err(CheckoutError::Conflict));
    assert_eq!(check_checkout_guard(&state(None, None)), Ok(()));
}

#[test]
fn return_guard_decisions() {
    assert_eq!(check_return_guard(&None, &request(3, 4)), Err(CheckoutError::EntityNotFound));
    assert_eq!(check_return_guard(&state(Some(3), Some(4)), &request(3, 4)), Ok(()));
    assert_eq!(check_return_guard(&state(Some(3), Some(4)), &request(3, 5)), Err(CheckoutError::Conflict));
    assert_eq!(check_return_guard(&state(Some(3), Some(4)), &request(2, 4)), Err(CheckoutError::Conflict));
    assert_eq!(check_return_guard(&state(None, None), &request(3, 4)), Ok(()));
}

#[test]
fn rows_affected_decisions() {
    assert_eq!(require_rows_affected(0), Err(CheckoutError::WriteAnomaly));
    assert_eq!(require_rows_affected(1), Ok(()));
    assert_eq!(require_rows_affected(u64::MAX), Ok(()));
}

#[test]
fn history_assembly() {
    let returned = vec![record(3, Some(9)), record(1, Some(8))];
    let h = assemble_history(Some(record(4, None)), returned.clone());
    assert_eq!(h, vec![record(4, None), record(3, Some(9)), record(1, Some(8))]);
    assert_eq!(assemble_history(None, returned.clone()), returned);
    assert_eq!(assemble_history(None, vec![]), vec![]);
    assert_eq!(assemble_history(Some(record(4, None)), vec![]), vec![record(4, None)]);
}

#[test]
fn only_transaction_errors_are_retryable() {
    assert!(CheckoutError::Transaction.is_retryable());
    assert!(!CheckoutError::Conflict.is_retryable());
    assert!(!CheckoutError::EntityNotFound.is_retryable());
    assert!(!CheckoutError::WriteAnomaly.is_retryable());
}

#[test]
fn statement_failures_by_kind() {
    assert_eq!(CheckoutError::statement_failure(true), CheckoutError::Transaction);
    assert_eq!(CheckoutError::statement_failure(false), CheckoutError::WriteAnomaly);
    assert!(CheckoutError::statement_failure(true).is_retryable());
    assert!(!CheckoutError::statement_failure(false).is_retryable());
}
