use vstd::prelude::*;
use crate::error::CheckoutError;
use crate::ledger::{
    book_of, earliest_first, latest_first, open_joined, open_keys, lemma_create_keeps_wf, lemma_return_keeps_wf, open_on_book,
    open_named, returned_joined, returned_on_book, returned_records, returned_keys, LedgerView,
};
use crate::model::{
    returned_checkout_of, BookId, Checkout, CheckoutId, CheckoutRow, CreateCheckout,
    ReturnedCheckoutRow, UpdateReturned, UserId,
};
use crate::seqs::{
    asc_slot, last_index, lemma_asc_slot, lemma_last_index, lemma_last_index_at,
    lemma_last_index_none, sorted_asc,
};

verus! {

/// The open row of a book lies at the index that the search finds, and its
/// book is known.
proof fn lemma_open_row(l: LedgerView, b: BookId) -> (i: int)
    requires
        l.wf(),
        l.open_row_of_book(b) is Some,
    ensures
        0 <= i < l.open.len(),
        i == last_index(l.open, open_on_book(b)),
        l.open_row_of_book(b) == Some(l.open[i]),
        l.open[i].book_id == b,
        book_of(l.books, b) is Some,
        l.state_row(b) is Some,
        l.state_row(b)->0.checkout_id == Some(l.open[i].checkout_id),
        l.state_row(b)->0.user_id == Some(l.open[i].user_id),
{
    lemma_last_index(l.open, open_on_book(b));
    let i = last_index(l.open, open_on_book(b));
    assert(open_on_book(b)(l.open[i]));
    assert(book_of(l.books, l.open[i].book_id) is Some);
    i
}

/// After a successful checkout of a book, the book's open checkout is the one
/// just created: the submitted borrower and time under the returned id.
pub proof fn lemma_checkout_then_find(l: LedgerView, e: CreateCheckout, k: CheckoutId)
    requires
        l.wf(),
        l.create_outcome(e, k).1 is Ok,
    ensures
        l.create_outcome(e, k).1 == Ok::<CheckoutId, CheckoutError>(k),
        book_of(l.books, e.book_id) is Some,
        l.create_outcome(e, k).0.open_by_book(e.book_id) == Some(
            Checkout {
                id: k,
                checked_out_by: e.checked_out_by,
                checked_out_at: e.checked_out_at,
                returned_at: None,
                book: book_of(l.books, e.book_id)->0,
            },
        ),
{
    lemma_create_keeps_wf(l, e, k);
    let l2 = l.create_outcome(e, k).0;
    let row = CheckoutRow {
        checkout_id: k,
        book_id: e.book_id,
        user_id: e.checked_out_by,
        checked_out_at: e.checked_out_at,
    };
    let p = asc_slot(crate::ledger::open_keys(l.open), e.checked_out_at);
    lemma_asc_slot(crate::ledger::open_keys(l.open), e.checked_out_at);
    assert(l2.open[p] == row);
    assert forall|j: int| p < j < l2.open.len() implies !open_on_book(e.book_id)(
        #[trigger] l2.open[j],
    ) by {
        assert(l2.open[p].book_id != l2.open[j].book_id);
    }
    lemma_last_index_at(l2.open, open_on_book(e.book_id), p);
}

/// A checkout of a book that is already checked out fails with a conflict
/// and leaves the tables as they were.
pub proof fn lemma_second_checkout_conflicts(l: LedgerView, e: CreateCheckout, k: CheckoutId)
    requires
        l.wf(),
        l.open_row_of_book(e.book_id) is Some,
    ensures
        l.create_outcome(e, k) == (l, Err::<CheckoutId, CheckoutError>(CheckoutError::Conflict)),
{
    lemma_open_row(l, e.book_id);
}

/// Returning an open checkout by its own borrower succeeds; afterwards the
/// book has no open checkout and its history holds the returned record with
/// the given return time.
pub proof fn lemma_return_then_history(l: LedgerView, b: BookId, t: i64)
    requires
        l.wf(),
        l.open_row_of_book(b) is Some,
    ensures
        ({
            let c = l.open_row_of_book(b)->0;
            let e = UpdateReturned {
                checkout_id: c.checkout_id,
                book_id: b,
                returned_by: c.user_id,
                returned_at: t,
            };
            let l2 = l.return_outcome(e).0;
            &&& l.return_outcome(e).1 is Ok
            &&& l2.open_by_book(b) is None
            &&& l2.history(b).contains(
                returned_checkout_of(
                    ReturnedCheckoutRow {
                        checkout_id: c.checkout_id,
                        book_id: b,
                        user_id: c.user_id,
                        checked_out_at: c.checked_out_at,
                        returned_at: t,
                    },
                    book_of(l.books, b)->0,
                ),
            )
        }),
{
    let i = lemma_open_row(l, b);
    let c = l.open[i];
    let e = UpdateReturned {
        checkout_id: c.checkout_id,
        book_id: b,
        returned_by: c.user_id,
        returned_at: t,
    };
    assert forall|j: int| i < j < l.open.len() implies !open_named(c.checkout_id, b)(
        #[trigger] l.open[j],
    ) by {
        assert(l.open[i].checkout_id != l.open[j].checkout_id);
    }
    lemma_last_index_at(l.open, open_named(c.checkout_id, b), i);
    lemma_return_keeps_wf(l, e);
    let l2 = l.return_outcome(e).0;
    assert forall|j: int| 0 <= j < l2.open.len() implies !open_on_book(b)(#[trigger] l2.open[j]) by {
        let j2 = if j < i { j } else { j + 1 };
        assert(l2.open[j] == l.open[j2]);
        assert(l.open[j2].book_id != l.open[i].book_id);
    }
    lemma_last_index_none(l2.open, open_on_book(b));
    let row = ReturnedCheckoutRow {
        checkout_id: c.checkout_id,
        book_id: b,
        user_id: c.user_id,
        checked_out_at: c.checked_out_at,
        returned_at: t,
    };
    let p = asc_slot(returned_keys(l.returned), c.checked_out_at);
    lemma_asc_slot(returned_keys(l.returned), c.checked_out_at);
    assert(l2.returned[p] == row);
    lemma_returned_joined_contains(l.books, l2.returned, b, p);
}

/// A return whose returner is not the borrower of the book's open checkout
/// fails with a conflict and leaves the tables as they were.
pub proof fn lemma_wrong_returner_conflicts(l: LedgerView, e: UpdateReturned)
    requires
        l.wf(),
        l.open_row_of_book(e.book_id) is Some,
        l.open_row_of_book(e.book_id)->0.user_id != e.returned_by,
    ensures
        l.return_outcome(e) == (l, Err::<(), CheckoutError>(CheckoutError::Conflict)),
{
    lemma_open_row(l, e.book_id);
}

/// A return succeeds only against the open checkout of the requested book,
/// and only where that checkout carries the requested id and is held by the
/// returner.
pub proof fn lemma_return_only_named(l: LedgerView, e: UpdateReturned)
    requires
        l.wf(),
        l.return_outcome(e).1 is Ok,
    ensures
        l.open_row_of_book(e.book_id) is Some,
        l.open_row_of_book(e.book_id)->0.checkout_id == e.checkout_id,
        l.open_row_of_book(e.book_id)->0.user_id == e.returned_by,
{
    let i = last_index(l.open, open_named(e.checkout_id, e.book_id));
    lemma_last_index(l.open, open_named(e.checkout_id, e.book_id));
    lemma_last_index(l.open, open_on_book(e.book_id));
    assert(open_on_book(e.book_id)(l.open[i]));
    let j = lemma_open_row(l, e.book_id);
    if i != j {
        assert(l.open[i].book_id != l.open[j].book_id);
    }
}

/// A returned row of the book stands, joined, in the book's returned history.
proof fn lemma_returned_joined_contains(
    books: Seq<crate::model::CheckoutBook>,
    rows: Seq<ReturnedCheckoutRow>,
    b: BookId,
    j: int,
)
    requires
        0 <= j < rows.len(),
        rows[j].book_id == b,
        book_of(books, b) is Some,
    ensures
        returned_joined(books, rows, b).contains(returned_checkout_of(rows[j], book_of(books, b)->0)),
    decreases rows.len(),
{
    let x = returned_checkout_of(rows[j], book_of(books, b)->0);
    let rest = returned_joined(books, rows.drop_first(), b);
    if j == 0 {
        assert(rest.push(x)[rest.len() as int] == x);
    } else {
        assert(rows.drop_first()[j - 1] == rows[j]);
        lemma_returned_joined_contains(books, rows.drop_first(), b, j - 1);
        let k = choose|k: int| 0 <= k < rest.len() && rest[k] == x;
        if rows[0].book_id == b {
            assert(rest.push(returned_checkout_of(rows[0], book_of(books, b)->0))[k] == x);
        }
    }
}

/// The returned history of a book from rows ordered by checkout time is
/// ordered latest first, holds only returned records, and none checked out
/// before `lo` when no row is.
proof fn lemma_returned_joined_order(
    books: Seq<crate::model::CheckoutBook>,
    rows: Seq<ReturnedCheckoutRow>,
    b: BookId,
    lo: i64,
)
    requires
        sorted_asc(returned_keys(rows)),
        forall|j: int| 0 <= j < rows.len() ==> (#[trigger] rows[j]).checked_out_at >= lo,
    ensures
        latest_first(returned_joined(books, rows, b)),
        forall|i: int|
            0 <= i < returned_joined(books, rows, b).len() ==> (#[trigger] returned_joined(
                books,
                rows,
                b,
            )[i]).checked_out_at >= lo && returned_joined(books, rows, b)[i].returned_at is Some,
    decreases rows.len(),
{
    if rows.len() > 0 {
        let rest = rows.drop_first();
        assert(returned_keys(rest) =~= returned_keys(rows).drop_first());
        assert forall|j: int| 0 <= j < rest.len() implies (#[trigger] rest[j]).checked_out_at
            >= rows[0].checked_out_at by {
            assert(returned_keys(rows)[0] <= returned_keys(rows)[j + 1]);
        }
        lemma_returned_joined_order(books, rest, b, rows[0].checked_out_at);
        assert(rows[0].checked_out_at >= lo);
    }
}

/// The returned history of a book is the book's returned rows, joined, in
/// reverse table order.
proof fn lemma_returned_joined_exact(
    books: Seq<crate::model::CheckoutBook>,
    rows: Seq<ReturnedCheckoutRow>,
    b: BookId,
)
    ensures
        returned_joined(books, rows, b) == returned_records(books, rows, b).reverse(),
    decreases rows.len(),
{
    if book_of(books, b) is None {
        lemma_returned_joined_none(books, rows, b);
        assert(returned_records(books, rows, b).reverse() =~= Seq::<Checkout>::empty());
    } else if rows.len() > 0 {
        let bk = book_of(books, b)->0;
        let f = |r: ReturnedCheckoutRow| returned_checkout_of(r, bk);
        let p = returned_on_book(b);
        let x = seq![rows[0]];
        let rest = rows.drop_first();
        lemma_returned_joined_exact(books, rest, b);
        assert(rows =~= x + rest);
        Seq::filter_distributes_over_add(x, rest, p);
        reveal_with_fuel(Seq::filter, 2);
        assert(x.drop_last() =~= Seq::<ReturnedCheckoutRow>::empty());
        let a = x.filter(p).map_values(f);
        let c = rest.filter(p).map_values(f);
        assert((x.filter(p) + rest.filter(p)).map_values(f) =~= a + c);
        assert((a + c).reverse() =~= c.reverse() + a.reverse());
        if p(rows[0]) {
            assert(x.filter(p) =~= x);
            assert(a.reverse() =~= seq![f(rows[0])]);
            assert(returned_joined(books, rest, b).push(f(rows[0])) =~= c.reverse() + a.reverse());
        } else {
            assert(x.filter(p) =~= Seq::<ReturnedCheckoutRow>::empty());
            assert(a.reverse() =~= Seq::<Checkout>::empty());
            assert(returned_joined(books, rest, b) =~= c.reverse() + a.reverse());
        }
    } else {
        reveal_with_fuel(Seq::filter, 1);
        assert(returned_records(books, rows, b).reverse() =~= Seq::<Checkout>::empty());
    }
}

/// Where the book is unknown, its returned history is empty.
proof fn lemma_returned_joined_none(
    books: Seq<crate::model::CheckoutBook>,
    rows: Seq<ReturnedCheckoutRow>,
    b: BookId,
)
    requires
        book_of(books, b) is None,
    ensures
        returned_joined(books, rows, b) == Seq::<Checkout>::empty(),
    decreases rows.len(),
{
    if rows.len() > 0 {
        lemma_returned_joined_none(books, rows.drop_first(), b);
    }
}

/// With no open checkout, a book's history is its returned records, latest
/// checkout first.
pub proof fn lemma_history_without_open(l: LedgerView, b: BookId)
    requires
        l.wf(),
        l.open_by_book(b) is None,
    ensures
        l.history(b) == l.returned_history(b),
        l.history(b) == returned_records(l.books, l.returned, b).reverse(),
        latest_first(l.history(b)),
        forall|i: int| 0 <= i < l.history(b).len() ==> (#[trigger] l.history(b)[i]).returned_at is Some,
{
    lemma_returned_joined_order(l.books, l.returned, b, i64::MIN);
    lemma_returned_joined_exact(l.books, l.returned, b);
}

/// With an open checkout, a book's history starts with it, followed by the
/// returned records, latest checkout first.
pub proof fn lemma_history_with_open(l: LedgerView, b: BookId)
    requires
        l.wf(),
        l.open_by_book(b) is Some,
    ensures
        l.history(b).len() == l.returned_history(b).len() + 1,
        l.history(b)[0] == l.open_by_book(b)->0,
        l.history(b)[0].returned_at is None,
        l.history(b).drop_first() == l.returned_history(b),
        l.history(b).drop_first() == returned_records(l.books, l.returned, b).reverse(),
        latest_first(l.history(b).drop_first()),
        forall|i: int|
            1 <= i < l.history(b).len() ==> (#[trigger] l.history(b)[i]).returned_at is Some,
{
    lemma_returned_joined_order(l.books, l.returned, b, i64::MIN);
    lemma_returned_joined_exact(l.books, l.returned, b);
    let c = l.open_by_book(b)->0;
    assert((seq![c] + l.returned_history(b)).drop_first() =~= l.returned_history(b));
    assert forall|i: int| 1 <= i < l.history(b).len() implies (#[trigger] l.history(
        b,
    )[i]).returned_at is Some by {
        assert(l.history(b)[i] == l.returned_history(b)[i - 1]);
    }
}

/// Open rows ordered by checkout time give joined checkouts ordered earliest
/// first, none checked out after `hi` when no row is.
proof fn lemma_open_joined_order(
    books: Seq<crate::model::CheckoutBook>,
    rows: Seq<CheckoutRow>,
    user: Option<UserId>,
    hi: i64,
)
    requires
        sorted_asc(open_keys(rows)),
        forall|j: int| 0 <= j < rows.len() ==> (#[trigger] rows[j]).checked_out_at <= hi,
    ensures
        earliest_first(open_joined(books, rows, user)),
        forall|i: int|
            0 <= i < open_joined(books, rows, user).len() ==> (#[trigger] open_joined(
                books,
                rows,
                user,
            )[i]).checked_out_at <= hi,
    decreases rows.len(),
{
    if rows.len() > 0 {
        let rest = rows.drop_last();
        let last = rows.len() - 1;
        assert(open_keys(rest) =~= open_keys(rows).drop_last());
        assert forall|j: int| 0 <= j < rest.len() implies (#[trigger] rest[j]).checked_out_at
            <= rows[last].checked_out_at by {
            assert(open_keys(rows)[j] <= open_keys(rows)[last]);
        }
        lemma_open_joined_order(books, rest, user, rows[last].checked_out_at);
    }
}

/// The open checkouts, of everyone or of one borrower, are listed earliest
/// checkout first.
pub proof fn lemma_open_listing_earliest_first(l: LedgerView, user: Option<UserId>)
    requires
        l.wf(),
    ensures
        earliest_first(open_joined(l.books, l.open, user)),
{
    lemma_open_joined_order(l.books, l.open, user, i64::MAX);
}

} // verus!
