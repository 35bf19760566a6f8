use vstd::prelude::*;

verus! {

/// Identifier of a book.
#[derive(Clone, Copy, Debug, PartialEq, Eq, Structural)]
pub struct BookId(pub u128);

/// Identifier of a user (a borrower).
#[derive(Clone, Copy, Debug, PartialEq, Eq, Structural)]
pub struct UserId(pub u128);

/// Identifier of a checkout.
#[derive(Clone, Copy, Debug, PartialEq, Eq, Structural)]
pub struct CheckoutId(pub u128);

/// The catalogue data of a book that checkouts are joined with.
#[derive(Clone, Debug, PartialEq, Eq)]
pub struct CheckoutBook {
    pub book_id: BookId,
    pub title: String,
    pub author: String,
    pub isbn: String,
}

impl CheckoutBook {
    /// A copy of the book with equal fields.
    pub fn duplicate(&self) -> (r: CheckoutBook)
        ensures
            r == *self,
    {
        CheckoutBook {
            book_id: self.book_id,
            title: self.title.clone(),
            author: self.author.clone(),
            isbn: self.isbn.clone(),
        }
    }
}

/// A checkout as callers see it: open while `returned_at` is `None`.
/// Times are milliseconds since the Unix epoch.
#[derive(Clone, Debug, PartialEq, Eq)]
pub struct Checkout {
    pub id: CheckoutId,
    pub checked_out_by: UserId,
    pub checked_out_at: i64,
    pub returned_at: Option<i64>,
    pub book: CheckoutBook,
}

/// A row of the table of open checkouts.
#[derive(Clone, Copy, Debug, PartialEq, Eq, Structural)]
pub struct CheckoutRow {
    pub checkout_id: CheckoutId,
    pub book_id: BookId,
    pub user_id: UserId,
    pub checked_out_at: i64,
}

/// A row of the append-only table of returned checkouts.
#[derive(Clone, Copy, Debug, PartialEq, Eq, Structural)]
pub struct ReturnedCheckoutRow {
    pub checkout_id: CheckoutId,
    pub book_id: BookId,
    pub user_id: UserId,
    pub checked_out_at: i64,
    pub returned_at: i64,
}

/// What a guard read finds: a book, joined with its open checkout if any.
#[derive(Clone, Copy, Debug, PartialEq, Eq, Structural)]
pub struct CheckoutStateRow {
    pub book_id: BookId,
    pub checkout_id: Option<CheckoutId>,
    pub user_id: Option<UserId>,
}

/// A request to check a book out.
#[derive(Clone, Copy, Debug, PartialEq, Eq, Structural)]
pub struct CreateCheckout {
    pub book_id: BookId,
    pub checked_out_by: UserId,
    pub checked_out_at: i64,
}

/// A request to return a checked-out book.
#[derive(Clone, Copy, Debug, PartialEq, Eq, Structural)]
pub struct UpdateReturned {
    pub checkout_id: CheckoutId,
    pub book_id: BookId,
    pub returned_by: UserId,
    pub returned_at: i64,
}

/// The checkout that an open row and its book stand for.
pub open spec fn open_checkout_of(row: CheckoutRow, book: CheckoutBook) -> Checkout {
    Checkout {
        id: row.checkout_id,
        checked_out_by: row.user_id,
        checked_out_at: row.checked_out_at,
        returned_at: None,
        book: book,
    }
}

/// The checkout that a returned row and its book stand for.
pub open spec fn returned_checkout_of(row: ReturnedCheckoutRow, book: CheckoutBook) -> Checkout {
    Checkout {
        id: row.checkout_id,
        checked_out_by: row.user_id,
        checked_out_at: row.checked_out_at,
        returned_at: Some(row.returned_at),
        book: book,
    }
}

impl Checkout {
    /// Joins an open row with its book.
    pub fn from_open(row: CheckoutRow, book: CheckoutBook) -> (r: Checkout)
        ensures
            r == open_checkout_of(row, book),
    {
        Checkout {
            id: row.checkout_id,
            checked_out_by: row.user_id,
            checked_out_at: row.checked_out_at,
            returned_at: None,
            book,
        }
    }

    /// Joins a returned row with its book.
    pub fn from_returned(row: ReturnedCheckoutRow, book: CheckoutBook) -> (r: Checkout)
        ensures
            r == returned_checkout_of(row, book),
    {
        Checkout {
            id: row.checkout_id,
            checked_out_by: row.user_id,
            checked_out_at: row.checked_out_at,
            returned_at: Some(row.returned_at),
            book,
        }
    }
}

} // verus!
