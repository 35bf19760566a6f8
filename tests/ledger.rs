use adapter::{
    BookId, Checkout, CheckoutBook, CheckoutError, CheckoutId, CheckoutLedger, CreateCheckout,
    UpdateReturned, UserId,
};

const DAY: i64 = 86_400_000;
// 2024-01-01T00:00Z in milliseconds since the epoch.
const JAN_1: i64 = 1_704_067_200_000;

fn uuid(s: &str) -> u128 {
    uuid::Uuid::parse_str(s).unwrap().as_u128()
}

fn book(id: u128, title: &str) -> CheckoutBook {
    CheckoutBook {
        book_id: BookId(id),
        title: title.to_string(),
        author: "Author".to_string(),
        isbn: "978-0000000000".to_string(),
    }
}

fn ledger_with(ids: &[u128]) -> CheckoutLedger {
    let mut l = CheckoutLedger::new();
    for (n, id) in ids.iter().enumerate() {
        l.register_book(book(*id, &format!("Book {}", n)));
    }
    l
}

fn checkout(b: u128, u: u128, at: i64) -> CreateCheckout {
    CreateCheckout { book_id: BookId(b), checked_out_by: UserId(u), checked_out_at: at }
}

fn giveback(k: CheckoutId, b: u128, u: u128, at: i64) -> UpdateReturned {
    UpdateReturned { checkout_id: k, book_id: BookId(b), returned_by: UserId(u), returned_at: at }
}

#[test]
fn scenario_checkout_conflict_return_recheckout() {
    let (b1, u1, u2) = (1u128, 11u128, 12u128);
    let mut l = ledger_with(&[b1]);
    let k1 = l.create(checkout(b1, u1, JAN_1), CheckoutId(100)).unwrap();
    assert_eq!(k1, CheckoutId(100));
    assert_eq!(l.create(checkout(b1, u2, JAN_1 + DAY), CheckoutId(101)), Err(CheckoutError::Conflict));
    assert_eq!(l.update_returned(giveback(k1, b1, u1, JAN_1 + 4 * DAY)), Ok(()));
    let k2 = l.create(checkout(b1, u2, JAN_1 + 5 * DAY), CheckoutId(102)).unwrap();
    let history = l.find_history_by_book_id(BookId(b1));
    assert_eq!(history.len(), 2);
    assert_eq!(history[0].id, k2);
    assert_eq!(history[0].returned_at, None);
    assert_eq!(
        history[1],
        Checkout {
            id: k1,
            checked_out_by: UserId(u1),
            checked_out_at: JAN_1,
            returned_at: Some(JAN_1 + 4 * DAY),
            book: book(b1, "Book 0"),
        }
    );
    let open = l.find_unreturned_by_book_id(BookId(b1)).unwrap();
    assert_eq!(open.id, k2);
    assert_eq!(open.checked_out_by, UserId(u2));
    assert_eq!(open.checked_out_at, JAN_1 + 5 * DAY);
}

#[test]
fn test_checkout_and_return() {
    let user_id1 = UserId(uuid("9582f9de-0fd1-4892-b20c-70139a7eb95b"));
    let user_id2 = UserId(uuid("050afe56-c3da-4448-8e4d-6f44007d2ca5"));
    let book_id1 = uuid("9890736e-a4e4-461a-a77d-eac3517ef11b");
    let mut l = ledger_with(&[book_id1]);
    let id = l.create(checkout(book_id1, user_id1.0, JAN_1), CheckoutId(1)).unwrap();
    let co = l.find_unreturned_by_book_id(BookId(book_id1)).unwrap();
    assert_eq!(co.id, id);
    assert_eq!(co.checked_out_by, user_id1);
    // Another user cannot return it.
    let wrong = giveback(co.id, book_id1, user_id2.0, JAN_1 + DAY);
    assert_eq!(l.update_returned(wrong), Err(CheckoutError::Conflict));
    // Its borrower can.
    assert_eq!(l.update_returned(giveback(co.id, book_id1, user_id1.0, JAN_1 + DAY)), Ok(()));
    assert!(l.find_unreturned_by_book_id(BookId(book_id1)).is_none());
    let history = l.find_history_by_book_id(BookId(book_id1));
    assert_eq!(history.len(), 1);
    assert_eq!(history[0].returned_at, Some(JAN_1 + DAY));
}

#[test]
fn test_checkout_list() {
    let user_id1 = uuid("9582f9de-0fd1-4892-b20c-70139a7eb95b");
    let user_id2 = uuid("050afe56-c3da-4448-8e4d-6f44007d2ca5");
    let book_id1 = uuid("9890736e-a4e4-461a-a77d-eac3517ef11b");
    let (b2, b3) = (2u128, 3u128);
    let mut l = ledger_with(&[book_id1, b2, b3]);
    l.create(checkout(b2, user_id2, JAN_1 + 2 * DAY), CheckoutId(2)).unwrap();
    l.create(checkout(book_id1, user_id1, JAN_1 + 3 * DAY), CheckoutId(1)).unwrap();
    l.create(checkout(b3, user_id1, JAN_1), CheckoutId(3)).unwrap();
    let all: Vec<CheckoutId> = l.find_unreturned_all().iter().map(|c| c.id).collect();
    assert_eq!(all, vec![CheckoutId(3), CheckoutId(2), CheckoutId(1)]);
    let mine: Vec<CheckoutId> =
        l.find_unreturned_by_user_id(UserId(user_id1)).iter().map(|c| c.id).collect();
    assert_eq!(mine, vec![CheckoutId(3), CheckoutId(1)]);
    let theirs = l.find_unreturned_by_user_id(UserId(user_id2));
    assert_eq!(theirs.len(), 1);
    assert_eq!(theirs[0].book.book_id, BookId(b2));
    assert_eq!(theirs[0].book.title, "Book 1");
}

#[test]
fn checkout_then_find_returns_submitted_values() {
    let mut l = ledger_with(&[5]);
    assert_eq!(l.create(checkout(5, 50, 1234), CheckoutId(9)), Ok(CheckoutId(9)));
    let c = l.find_unreturned_by_book_id(BookId(5)).unwrap();
    assert_eq!(
        c,
        Checkout {
            id: CheckoutId(9),
            checked_out_by: UserId(50),
            checked_out_at: 1234,
            returned_at: None,
            book: book(5, "Book 0"),
        }
    );
}

#[test]
fn second_checkout_conflicts_and_keeps_first() {
    let mut l = ledger_with(&[5]);
    l.create(checkout(5, 50, 1000), CheckoutId(9)).unwrap();
    assert_eq!(l.create(checkout(5, 51, 2000), CheckoutId(10)), Err(CheckoutError::Conflict));
    let c = l.find_unreturned_by_book_id(BookId(5)).unwrap();
    assert_eq!((c.id, c.checked_out_by, c.checked_out_at), (CheckoutId(9), UserId(50), 1000));
    assert_eq!(l.find_unreturned_all().len(), 1);
}

#[test]
fn checkout_of_unknown_book_is_not_found() {
    let mut l = ledger_with(&[5]);
    assert_eq!(l.create(checkout(6, 50, 1000), CheckoutId(9)), Err(CheckoutError::EntityNotFound));
    assert!(l.find_unreturned_all().is_empty());
}

#[test]
fn checkout_with_used_id_is_write_anomaly() {
    let mut l = ledger_with(&[5, 6]);
    l.create(checkout(5, 50, 1000), CheckoutId(9)).unwrap();
    assert_eq!(l.create(checkout(6, 50, 1000), CheckoutId(9)), Err(CheckoutError::WriteAnomaly));
    l.update_returned(giveback(CheckoutId(9), 5, 50, 2000)).unwrap();
    assert_eq!(l.create(checkout(6, 50, 3000), CheckoutId(9)), Err(CheckoutError::WriteAnomaly));
    assert!(l.find_unreturned_by_book_id(BookId(6)).is_none());
}

#[test]
fn return_by_other_borrower_conflicts_and_keeps_checkout() {
    let mut l = ledger_with(&[5]);
    l.create(checkout(5, 50, 1000), CheckoutId(9)).unwrap();
    assert_eq!(l.update_returned(giveback(CheckoutId(9), 5, 51, 2000)), Err(CheckoutError::Conflict));
    assert_eq!(l.find_unreturned_by_book_id(BookId(5)).unwrap().id, CheckoutId(9));
    assert!(l.find_history_by_book_id(BookId(5))[0].returned_at.is_none());
}

#[test]
fn return_of_other_checkout_id_conflicts() {
    let mut l = ledger_with(&[5]);
    l.create(checkout(5, 50, 1000), CheckoutId(9)).unwrap();
    assert_eq!(l.update_returned(giveback(CheckoutId(8), 5, 50, 2000)), Err(CheckoutError::Conflict));
    assert_eq!(l.find_unreturned_all().len(), 1);
}

#[test]
fn return_of_unknown_book_is_not_found() {
    let mut l = ledger_with(&[5]);
    assert_eq!(
        l.update_returned(giveback(CheckoutId(9), 6, 50, 2000)),
        Err(CheckoutError::EntityNotFound)
    );
}

#[test]
fn return_without_open_checkout_is_write_anomaly() {
    let mut l = ledger_with(&[5]);
    assert_eq!(
        l.update_returned(giveback(CheckoutId(9), 5, 50, 2000)),
        Err(CheckoutError::WriteAnomaly)
    );
    l.create(checkout(5, 50, 1000), CheckoutId(9)).unwrap();
    l.update_returned(giveback(CheckoutId(9), 5, 50, 2000)).unwrap();
    assert_eq!(
        l.update_returned(giveback(CheckoutId(9), 5, 50, 3000)),
        Err(CheckoutError::WriteAnomaly)
    );
    assert_eq!(l.find_history_by_book_id(BookId(5)).len(), 1);
}

#[test]
fn history_without_open_is_latest_first() {
    let mut l = ledger_with(&[5]);
    // Returned in an order other than that of their checkout times.
    for (k, t) in [(2u128, 200i64), (1, 100), (3, 300)] {
        l.create(checkout(5, 50, t), CheckoutId(k)).unwrap();
        l.update_returned(giveback(CheckoutId(k), 5, 50, t + 10)).unwrap();
    }
    let h = l.find_history_by_book_id(BookId(5));
    let times: Vec<i64> = h.iter().map(|c| c.checked_out_at).collect();
    assert_eq!(times, vec![300, 200, 100]);
    assert!(h.iter().all(|c| c.returned_at == Some(c.checked_out_at + 10)));
}

#[test]
fn history_with_open_puts_it_first() {
    let mut l = ledger_with(&[5, 6]);
    for (k, t) in [(1u128, 100i64), (3, 300), (2, 200)] {
        l.create(checkout(5, 50, t), CheckoutId(k)).unwrap();
        l.update_returned(giveback(CheckoutId(k), 5, 50, 1000)).unwrap();
    }
    l.create(checkout(6, 50, 50), CheckoutId(7)).unwrap();
    l.update_returned(giveback(CheckoutId(7), 6, 50, 60)).unwrap();
    // Open, and checked out earlier than every returned record.
    l.create(checkout(5, 51, 10), CheckoutId(4)).unwrap();
    let h = l.find_history_by_book_id(BookId(5));
    let ids: Vec<CheckoutId> = h.iter().map(|c| c.id).collect();
    assert_eq!(ids, vec![CheckoutId(4), CheckoutId(3), CheckoutId(2), CheckoutId(1)]);
    assert_eq!(h[0].returned_at, None);
}

#[test]
fn history_of_unknown_book_is_empty() {
    let l = ledger_with(&[5]);
    assert!(l.find_history_by_book_id(BookId(6)).is_empty());
    assert!(l.find_unreturned_by_book_id(BookId(6)).is_none());
}

#[test]
fn later_catalogue_entry_supersedes() {
    let mut l = ledger_with(&[5]);
    l.register_book(book(5, "Second edition"));
    l.create(checkout(5, 50, 1), CheckoutId(1)).unwrap();
    assert_eq!(l.find_unreturned_by_book_id(BookId(5)).unwrap().book.title, "Second edition");
    assert_eq!(l.book(BookId(5)).unwrap().title, "Second edition");
    assert!(l.book(BookId(6)).is_none());
}

#[test]
fn equal_checkout_times_keep_creation_order() {
    let mut l = ledger_with(&[5, 6, 7]);
    l.create(checkout(6, 50, 100), CheckoutId(1)).unwrap();
    l.create(checkout(5, 50, 100), CheckoutId(2)).unwrap();
    l.create(checkout(7, 50, 100), CheckoutId(3)).unwrap();
    let ids: Vec<CheckoutId> = l.find_unreturned_all().iter().map(|c| c.id).collect();
    assert_eq!(ids, vec![CheckoutId(1), CheckoutId(2), CheckoutId(3)]);
}

#[test]
fn return_naming_another_book_cannot_close_a_checkout() {
    let (b1, b2, u1, u9) = (1u128, 2u128, 11u128, 99u128);
    let mut l = ledger_with(&[b1, b2]);
    let k1 = l.create(checkout(b1, u1, JAN_1), CheckoutId(100)).unwrap();
    assert_eq!(l.update_returned(giveback(k1, b2, u9, JAN_1 + DAY)), Err(CheckoutError::WriteAnomaly));
    assert_eq!(l.update_returned(giveback(k1, b2, u1, JAN_1 + DAY)), Err(CheckoutError::WriteAnomaly));
    assert_eq!(l.find_unreturned_by_book_id(BookId(b1)).unwrap().id, k1);
    assert!(l.find_history_by_book_id(BookId(b2)).is_empty());
    assert_eq!(l.find_history_by_book_id(BookId(b1)).len(), 1);
}
