//! Checkout and return of library books: the guard decisions that a
//! transactional executor applies, the assembly of a book's history, a
//! verified in-memory ledger of open and returned checkouts with the laws it
//! obeys, and the password and row checks of user accounts.

pub mod error;
pub mod guard;
pub mod history;
pub mod laws;
pub mod ledger;
pub mod model;
pub mod seqs;
pub mod user;

pub use error::CheckoutError;
pub use guard::{check_checkout_guard, check_return_guard, require_rows_affected};
pub use history::assemble_history;
pub use ledger::CheckoutLedger;
pub use model::{
    BookId, Checkout, CheckoutBook, CheckoutId, CheckoutRow, CheckoutStateRow, CreateCheckout,
    ReturnedCheckoutRow, UpdateReturned, UserId,
};
pub use user::{
    check_password_verdict, require_user_created, require_user_found, verify_password, UserError,
};
