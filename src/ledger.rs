use vstd::prelude::*;
use crate::error::CheckoutError;
use crate::guard::{check_checkout_guard, check_return_guard, checkout_guard, return_guard};
use crate::history::{assemble_history, history_of};
use crate::model::{
    open_checkout_of, returned_checkout_of, BookId, Checkout, CheckoutBook, CheckoutId,
    CheckoutRow, CheckoutStateRow, CreateCheckout, ReturnedCheckoutRow, UpdateReturned, UserId,
};
use crate::seqs::{
    asc_slot, last_index, lemma_asc_slot, lemma_asc_slot_at, lemma_insert_sorted, lemma_last_index,
    lemma_last_index_at, lemma_last_index_none, lemma_remove_sorted, sorted_asc,
};

verus! {

pub open spec fn book_is(b: BookId) -> spec_fn(CheckoutBook) -> bool {
    |x: CheckoutBook| x.book_id == b
}

pub open spec fn open_on_book(b: BookId) -> spec_fn(CheckoutRow) -> bool {
    |r: CheckoutRow| r.book_id == b
}

pub open spec fn open_with_id(k: CheckoutId) -> spec_fn(CheckoutRow) -> bool {
    |r: CheckoutRow| r.checkout_id == k
}

/// The open row of the given checkout on the given book.
pub open spec fn open_named(k: CheckoutId, b: BookId) -> spec_fn(CheckoutRow) -> bool {
    |r: CheckoutRow| r.checkout_id == k && r.book_id == b
}

pub open spec fn returned_with_id(k: CheckoutId) -> spec_fn(ReturnedCheckoutRow) -> bool {
    |r: ReturnedCheckoutRow| r.checkout_id == k
}

/// The checkout times of open rows, in table order.
pub open spec fn open_keys(s: Seq<CheckoutRow>) -> Seq<i64> {
    s.map_values(|r: CheckoutRow| r.checked_out_at)
}

/// The checkout times of returned rows, in table order.
pub open spec fn returned_keys(s: Seq<ReturnedCheckoutRow>) -> Seq<i64> {
    s.map_values(|r: ReturnedCheckoutRow| r.checked_out_at)
}

/// The catalogue entry of a book; a later entry for an id supersedes earlier ones.
pub open spec fn book_of(books: Seq<CheckoutBook>, b: BookId) -> Option<CheckoutBook> {
    let i = last_index(books, book_is(b));
    if i < 0 {
        None
    } else {
        Some(books[i])
    }
}

pub open spec fn user_matches(user: Option<UserId>, u: UserId) -> bool {
    match user {
        None => true,
        Some(x) => x == u,
    }
}

/// Open rows of the given borrower (of anyone, for `None`) joined with their
/// books, in table order; rows whose book is unknown drop out, as in an inner join.
pub open spec fn open_joined(
    books: Seq<CheckoutBook>,
    rows: Seq<CheckoutRow>,
    user: Option<UserId>,
) -> Seq<Checkout>
    decreases rows.len(),
{
    if rows.len() == 0 {
        seq![]
    } else {
        let r = rows.last();
        let rest = open_joined(books, rows.drop_last(), user);
        if user_matches(user, r.user_id) && book_of(books, r.book_id) is Some {
            rest.push(open_checkout_of(r, book_of(books, r.book_id)->0))
        } else {
            rest
        }
    }
}

/// Returned rows of a book joined with it, in reverse table order.
pub open spec fn returned_joined(
    books: Seq<CheckoutBook>,
    rows: Seq<ReturnedCheckoutRow>,
    b: BookId,
) -> Seq<Checkout>
    decreases rows.len(),
{
    if rows.len() == 0 {
        seq![]
    } else {
        let r = rows[0];
        let rest = returned_joined(books, rows.drop_first(), b);
        if r.book_id == b && book_of(books, b) is Some {
            rest.push(returned_checkout_of(r, book_of(books, b)->0))
        } else {
            rest
        }
    }
}

pub open spec fn returned_on_book(b: BookId) -> spec_fn(ReturnedCheckoutRow) -> bool {
    |r: ReturnedCheckoutRow| r.book_id == b
}

/// The returned rows of a book joined with it, in table order; none where the
/// book is unknown.
pub open spec fn returned_records(
    books: Seq<CheckoutBook>,
    rows: Seq<ReturnedCheckoutRow>,
    b: BookId,
) -> Seq<Checkout> {
    match book_of(books, b) {
        None => seq![],
        Some(bk) => rows.filter(returned_on_book(b)).map_values(
            |r: ReturnedCheckoutRow| returned_checkout_of(r, bk),
        ),
    }
}

/// Checkouts by checkout time, earliest first.
pub open spec fn earliest_first(cs: Seq<Checkout>) -> bool {
    forall|i: int, j: int|
        0 <= i <= j < cs.len() ==> cs[i].checked_out_at <= cs[j].checked_out_at
}

/// Checkouts by checkout time, latest first.
pub open spec fn latest_first(cs: Seq<Checkout>) -> bool {
    forall|i: int, j: int|
        0 <= i <= j < cs.len() ==> cs[i].checked_out_at >= cs[j].checked_out_at
}

/// The three tables: catalogue, open checkouts, returned checkouts.
pub struct LedgerView {
    pub books: Seq<CheckoutBook>,
    pub open: Seq<CheckoutRow>,
    pub returned: Seq<ReturnedCheckoutRow>,
}

impl LedgerView {
    /// At most one open checkout per book, checkout ids distinct over both
    /// tables, each open row's book known, both tables ordered by checkout time.
    pub open spec fn wf(self) -> bool {
        &&& forall|i: int, j: int|
            0 <= i < j < self.open.len() ==> (#[trigger] self.open[i]).book_id != (
            #[trigger] self.open[j]).book_id
        &&& forall|i: int, j: int|
            0 <= i < j < self.open.len() ==> (#[trigger] self.open[i]).checkout_id != (
            #[trigger] self.open[j]).checkout_id
        &&& forall|i: int, j: int|
            0 <= i < j < self.returned.len() ==> (#[trigger] self.returned[i]).checkout_id != (
            #[trigger] self.returned[j]).checkout_id
        &&& forall|i: int, j: int|
            0 <= i < self.open.len() && 0 <= j < self.returned.len() ==> (
            #[trigger] self.open[i]).checkout_id != (#[trigger] self.returned[j]).checkout_id
        &&& forall|i: int|
            0 <= i < self.open.len() ==> book_of(self.books, (#[trigger] self.open[i]).book_id) is Some
        &&& sorted_asc(open_keys(self.open))
        &&& sorted_asc(returned_keys(self.returned))
    }

    /// The open row of a book, if any.
    pub open spec fn open_row_of_book(self, b: BookId) -> Option<CheckoutRow> {
        let i = last_index(self.open, open_on_book(b));
        if i < 0 {
            None
        } else {
            Some(self.open[i])
        }
    }

    /// The guard read: the book, if known, with its open checkout.
    pub open spec fn state_row(self, b: BookId) -> Option<CheckoutStateRow> {
        if book_of(self.books, b) is None {
            None
        } else {
            match self.open_row_of_book(b) {
                None => Some(CheckoutStateRow { book_id: b, checkout_id: None, user_id: None }),
                Some(r) => Some(
                    CheckoutStateRow {
                        book_id: b,
                        checkout_id: Some(r.checkout_id),
                        user_id: Some(r.user_id),
                    },
                ),
            }
        }
    }

    /// Whether a checkout id stands in either table.
    pub open spec fn id_in_use(self, k: CheckoutId) -> bool {
        last_index(self.open, open_with_id(k)) >= 0 || last_index(
            self.returned,
            returned_with_id(k),
        ) >= 0
    }

    /// Tables and outcome after checking a book out under the fresh id `k`.
    pub open spec fn create_outcome(self, e: CreateCheckout, k: CheckoutId) -> (
        LedgerView,
        Result<CheckoutId, CheckoutError>,
    ) {
        match checkout_guard(self.state_row(e.book_id)) {
            Err(x) => (self, Err(x)),
            Ok(_) => if self.id_in_use(k) {
                (self, Err(CheckoutError::WriteAnomaly))
            } else {
                let row = CheckoutRow {
                    checkout_id: k,
                    book_id: e.book_id,
                    user_id: e.checked_out_by,
                    checked_out_at: e.checked_out_at,
                };
                (
                    LedgerView {
                        books: self.books,
                        open: self.open.insert(
                            asc_slot(open_keys(self.open), row.checked_out_at),
                            row,
                        ),
                        returned: self.returned,
                    },
                    Ok(k),
                )
            },
        }
    }

    /// Tables and outcome after a return: the open row with the requested
    /// checkout id on the requested book moves to the returned table; where the
    /// book has no such row, nothing changes and the outcome is an anomaly.
    pub open spec fn return_outcome(self, e: UpdateReturned) -> (
        LedgerView,
        Result<(), CheckoutError>,
    ) {
        match return_guard(self.state_row(e.book_id), e) {
            Err(x) => (self, Err(x)),
            Ok(_) => {
                let i = last_index(self.open, open_named(e.checkout_id, e.book_id));
                if i < 0 {
                    (self, Err(CheckoutError::WriteAnomaly))
                } else {
                    let o = self.open[i];
                    let row = ReturnedCheckoutRow {
                        checkout_id: o.checkout_id,
                        book_id: o.book_id,
                        user_id: o.user_id,
                        checked_out_at: o.checked_out_at,
                        returned_at: e.returned_at,
                    };
                    (
                        LedgerView {
                            books: self.books,
                            open: self.open.remove(i),
                            returned: self.returned.insert(
                                asc_slot(returned_keys(self.returned), row.checked_out_at),
                                row,
                            ),
                        },
                        Ok(()),
                    )
                }
            },
        }
    }

    /// The open checkout of a book, joined with the book.
    pub open spec fn open_by_book(self, b: BookId) -> Option<Checkout> {
        match self.open_row_of_book(b) {
            None => None,
            Some(r) => match book_of(self.books, r.book_id) {
                None => None,
                Some(bk) => Some(open_checkout_of(r, bk)),
            },
        }
    }

    /// The returned checkouts of a book, latest checkout first.
    pub open spec fn returned_history(self, b: BookId) -> Seq<Checkout> {
        returned_joined(self.books, self.returned, b)
    }

    /// A book's history: its open checkout first, then its returned ones.
    pub open spec fn history(self, b: BookId) -> Seq<Checkout> {
        history_of(self.open_by_book(b), self.returned_history(b))
    }
}

/// Adding a catalogue entry keeps every known book known.
pub proof fn lemma_book_of_push(books: Seq<CheckoutBook>, x: CheckoutBook, b: BookId)
    ensures
        book_of(books, b) is Some ==> book_of(books.push(x), b) is Some,
        x.book_id == b ==> book_of(books.push(x), b) == Some(x),
{
    assert(books.push(x).drop_last() =~= books);
    assert(books.push(x).last() == x);
}

/// A checkout keeps the tables well formed.
pub proof fn lemma_create_keeps_wf(l: LedgerView, e: CreateCheckout, k: CheckoutId)
    requires
        l.wf(),
    ensures
        l.create_outcome(e, k).0.wf(),
{
    if l.create_outcome(e, k).1 is Ok {
        let row = CheckoutRow {
            checkout_id: k,
            book_id: e.book_id,
            user_id: e.checked_out_by,
            checked_out_at: e.checked_out_at,
        };
        let p = asc_slot(open_keys(l.open), row.checked_out_at);
        lemma_asc_slot(open_keys(l.open), row.checked_out_at);
        lemma_last_index(l.open, open_on_book(e.book_id));
        lemma_last_index(l.open, open_with_id(k));
        lemma_last_index(l.returned, returned_with_id(k));
        assert forall|j: int| 0 <= j < l.returned.len() implies #[trigger] l.returned[j].checkout_id
            != k by {
            assert(!returned_with_id(k)(l.returned[j]));
        }
        let n = l.open.insert(p, row);
        assert forall|i: int, j: int| 0 <= i < n.len() && 0 <= j < l.returned.len() implies (
        #[trigger] n[i]).checkout_id != (#[trigger] l.returned[j]).checkout_id by {
            if i < p {
                assert(n[i] == l.open[i]);
            } else if i > p {
                assert(n[i] == l.open[i - 1]);
            }
        }
        assert forall|i: int| 0 <= i < l.open.len() implies #[trigger] l.open[i].book_id != e.book_id
            && l.open[i].checkout_id != k by {
            assert(!open_on_book(e.book_id)(l.open[i]));
            assert(!open_with_id(k)(l.open[i]));
        }
        assert forall|i: int, j: int| 0 <= i < j < n.len() implies (#[trigger] n[i]).book_id != (
        #[trigger] n[j]).book_id && n[i].checkout_id != n[j].checkout_id by {
            let i2 = if i < p { i } else { i - 1 };
            let j2 = if j < p { j } else { j - 1 };
            if i != p && j != p {
                assert(n[i] == l.open[i2] && n[j] == l.open[j2]);
            } else if i == p {
                assert(n[j] == l.open[j2]);
            } else {
                assert(n[i] == l.open[i2]);
            }
        }
        assert forall|i: int| 0 <= i < n.len() implies book_of(
            l.books,
            (#[trigger] n[i]).book_id,
        ) is Some by {
            if i < p {
                assert(n[i] == l.open[i]);
            } else if i > p {
                assert(n[i] == l.open[i - 1]);
            }
        }
        assert(open_keys(n) =~= open_keys(l.open).insert(p, row.checked_out_at));
        lemma_insert_sorted(open_keys(l.open), row.checked_out_at);
    }
}

/// A return keeps the tables well formed.
pub proof fn lemma_return_keeps_wf(l: LedgerView, e: UpdateReturned)
    requires
        l.wf(),
    ensures
        l.return_outcome(e).0.wf(),
{
    if l.return_outcome(e).1 is Ok {
        let i = last_index(l.open, open_named(e.checkout_id, e.book_id));
        lemma_last_index(l.open, open_named(e.checkout_id, e.book_id));
        let o = l.open[i];
        let row = ReturnedCheckoutRow {
            checkout_id: o.checkout_id,
            book_id: o.book_id,
            user_id: o.user_id,
            checked_out_at: o.checked_out_at,
            returned_at: e.returned_at,
        };
        let n = l.open.remove(i);
        assert forall|a: int, b: int| 0 <= a < b < n.len() implies (#[trigger] n[a]).book_id != (
        #[trigger] n[b]).book_id && n[a].checkout_id != n[b].checkout_id by {
            let a2 = if a < i { a } else { a + 1 };
            let b2 = if b < i { b } else { b + 1 };
            assert(n[a] == l.open[a2] && n[b] == l.open[b2]);
        }
        assert forall|a: int| 0 <= a < n.len() implies book_of(
            l.books,
            (#[trigger] n[a]).book_id,
        ) is Some by {
            let a2 = if a < i { a } else { a + 1 };
            assert(n[a] == l.open[a2]);
        }
        assert(open_keys(n) =~= open_keys(l.open).remove(i));
        lemma_remove_sorted(open_keys(l.open), i);
        let p = asc_slot(returned_keys(l.returned), row.checked_out_at);
        lemma_asc_slot(returned_keys(l.returned), row.checked_out_at);
        let m = l.returned.insert(p, row);
        assert forall|a: int, b: int| 0 <= a < b < m.len() implies (#[trigger] m[a]).checkout_id != (
        #[trigger] m[b]).checkout_id by {
            let a2 = if a < p { a } else { a - 1 };
            let b2 = if b < p { b } else { b - 1 };
            if a != p && b != p {
                assert(m[a] == l.returned[a2] && m[b] == l.returned[b2]);
            } else if a == p {
                assert(m[b] == l.returned[b2]);
                assert(l.open[i].checkout_id != l.returned[b2].checkout_id);
            } else {
                assert(m[a] == l.returned[a2]);
                assert(l.open[i].checkout_id != l.returned[a2].checkout_id);
            }
        }
        assert forall|a: int, b: int| 0 <= a < n.len() && 0 <= b < m.len() implies (
        #[trigger] n[a]).checkout_id != (#[trigger] m[b]).checkout_id by {
            let a2 = if a < i { a } else { a + 1 };
            assert(n[a] == l.open[a2]);
            if b == p {
                assert(l.open[a2].checkout_id != l.open[i].checkout_id);
            } else {
                let b2 = if b < p { b } else { b - 1 };
                assert(m[b] == l.returned[b2]);
                assert(l.open[a2].checkout_id != l.returned[b2].checkout_id);
            }
        }
        assert(returned_keys(l.returned.insert(p, row)) =~= returned_keys(l.returned).insert(
            p,
            row.checked_out_at,
        ));
        lemma_insert_sorted(returned_keys(l.returned), row.checked_out_at);
    }
}

fn find_book(books: &Vec<CheckoutBook>, b: BookId) -> (r: Option<usize>)
    ensures
        match r {
            Some(i) => i < books.len() && last_index(books@, book_is(b)) == i,
            None => last_index(books@, book_is(b)) == -1,
        },
{
    let mut i: usize = books.len();
    while i > 0
        invariant
            i <= books.len(),
            forall|k: int| i <= k < books.len() ==> !book_is(b)(#[trigger] books@[k]),
        decreases i,
    {
        if books[i - 1].book_id.0 == b.0 {
            proof {
                lemma_last_index_at(books@, book_is(b), i - 1);
            }
            return Some(i - 1);
        }
        i = i - 1;
    }
    proof {
        lemma_last_index_none(books@, book_is(b));
    }
    None
}

fn find_open_on_book(open: &Vec<CheckoutRow>, b: BookId) -> (r: Option<usize>)
    ensures
        match r {
            Some(i) => i < open.len() && last_index(open@, open_on_book(b)) == i,
            None => last_index(open@, open_on_book(b)) == -1,
        },
{
    let mut i: usize = open.len();
    while i > 0
        invariant
            i <= open.len(),
            forall|k: int| i <= k < open.len() ==> !open_on_book(b)(#[trigger] open@[k]),
        decreases i,
    {
        if open[i - 1].book_id.0 == b.0 {
            proof {
                lemma_last_index_at(open@, open_on_book(b), i - 1);
            }
            return Some(i - 1);
        }
        i = i - 1;
    }
    proof {
        lemma_last_index_none(open@, open_on_book(b));
    }
    None
}

fn find_open_with_id(open: &Vec<CheckoutRow>, k: CheckoutId) -> (r: Option<usize>)
    ensures
        match r {
            Some(i) => i < open.len() && last_index(open@, open_with_id(k)) == i,
            None => last_index(open@, open_with_id(k)) == -1,
        },
{
    let mut i: usize = open.len();
    while i > 0
        invariant
            i <= open.len(),
            forall|j: int| i <= j < open.len() ==> !open_with_id(k)(#[trigger] open@[j]),
        decreases i,
    {
        if open[i - 1].checkout_id.0 == k.0 {
            proof {
                lemma_last_index_at(open@, open_with_id(k), i - 1);
            }
            return Some(i - 1);
        }
        i = i - 1;
    }
    proof {
        lemma_last_index_none(open@, open_with_id(k));
    }
    None
}

fn find_open_named(open: &Vec<CheckoutRow>, k: CheckoutId, b: BookId) -> (r: Option<usize>)
    ensures
        match r {
            Some(i) => i < open.len() && last_index(open@, open_named(k, b)) == i,
            None => last_index(open@, open_named(k, b)) == -1,
        },
{
    let mut i: usize = open.len();
    while i > 0
        invariant
            i <= open.len(),
            forall|j: int| i <= j < open.len() ==> !open_named(k, b)(#[trigger] open@[j]),
        decreases i,
    {
        if open[i - 1].checkout_id.0 == k.0 && open[i - 1].book_id.0 == b.0 {
            proof {
                lemma_last_index_at(open@, open_named(k, b), i - 1);
            }
            return Some(i - 1);
        }
        i = i - 1;
    }
    proof {
        lemma_last_index_none(open@, open_named(k, b));
    }
    None
}

fn find_returned_with_id(returned: &Vec<ReturnedCheckoutRow>, k: CheckoutId) -> (r: Option<usize>)
    ensures
        match r {
            Some(i) => i < returned.len() && last_index(returned@, returned_with_id(k)) == i,
            None => last_index(returned@, returned_with_id(k)) == -1,
        },
{
    let mut i: usize = returned.len();
    while i > 0
        invariant
            i <= returned.len(),
            forall|j: int| i <= j < returned.len() ==> !returned_with_id(k)(#[trigger] returned@[j]),
        decreases i,
    {
        if returned[i - 1].checkout_id.0 == k.0 {
            proof {
                lemma_last_index_at(returned@, returned_with_id(k), i - 1);
            }
            return Some(i - 1);
        }
        i = i - 1;
    }
    proof {
        lemma_last_index_none(returned@, returned_with_id(k));
    }
    None
}

fn open_slot(open: &Vec<CheckoutRow>, t: i64) -> (r: usize)
    ensures
        r == asc_slot(open_keys(open@), t),
{
    let mut i: usize = open.len();
    while i > 0 && open[i - 1].checked_out_at > t
        invariant
            i <= open.len(),
            forall|k: int| i <= k < open.len() ==> #[trigger] open_keys(open@)[k] > t,
        decreases i,
    {
        i = i - 1;
    }
    proof {
        lemma_asc_slot_at(open_keys(open@), t, i as int);
    }
    i
}

fn returned_slot(returned: &Vec<ReturnedCheckoutRow>, t: i64) -> (r: usize)
    ensures
        r == asc_slot(returned_keys(returned@), t),
{
    let mut i: usize = returned.len();
    while i > 0 && returned[i - 1].checked_out_at > t
        invariant
            i <= returned.len(),
            forall|k: int| i <= k < returned.len() ==> #[trigger] returned_keys(returned@)[k] > t,
        decreases i,
    {
        i = i - 1;
    }
    proof {
        lemma_asc_slot_at(returned_keys(returned@), t, i as int);
    }
    i
}

/// An in-memory store of the catalogue, the open checkouts and the returned
/// checkouts. Each operation runs as one atomic unit: it either fails and
/// leaves the tables as they were, or applies all of its writes.
pub struct CheckoutLedger {
    books: Vec<CheckoutBook>,
    open: Vec<CheckoutRow>,
    returned: Vec<ReturnedCheckoutRow>,
}

impl View for CheckoutLedger {
    type V = LedgerView;

    closed spec fn view(&self) -> LedgerView {
        LedgerView { books: self.books@, open: self.open@, returned: self.returned@ }
    }
}

impl CheckoutLedger {
    /// An empty ledger: no book, no checkout.
    pub fn new() -> (r: CheckoutLedger)
        ensures
            r@.wf(),
            r@.books.len() == 0,
            r@.open.len() == 0,
            r@.returned.len() == 0,
    {
        let r = CheckoutLedger { books: Vec::new(), open: Vec::new(), returned: Vec::new() };
        assert(open_keys(r.open@) =~= Seq::<i64>::empty());
        assert(returned_keys(r.returned@) =~= Seq::<i64>::empty());
        r
    }

    /// Adds a catalogue entry; for an id already known it supersedes the old one.
    pub fn register_book(&mut self, book: CheckoutBook)
        requires
            old(self)@.wf(),
        ensures
            final(self)@.wf(),
            final(self)@ == (LedgerView {
                books: old(self)@.books.push(book),
                open: old(self)@.open,
                returned: old(self)@.returned,
            }),
    {
        proof {
            assert forall|i: int| 0 <= i < self.open@.len() implies book_of(
                self.books@.push(book),
                (#[trigger] self.open@[i]).book_id,
            ) is Some by {
                lemma_book_of_push(self.books@, book, self.open@[i].book_id);
            }
        }
        self.books.push(book);
    }

    /// The catalogue entry of a book.
    pub fn book(&self, b: BookId) -> (r: Option<CheckoutBook>)
        ensures
            r == book_of(self@.books, b),
    {
        match find_book(&self.books, b) {
            Some(i) => Some(self.books[i].duplicate()),
            None => None,
        }
    }

    /// The guard read of a book: the book, if known, with its open checkout.
    pub fn state_row(&self, b: BookId) -> (r: Option<CheckoutStateRow>)
        ensures
            r == self@.state_row(b),
    {
        match find_book(&self.books, b) {
            None => None,
            Some(_) => match find_open_on_book(&self.open, b) {
                None => Some(CheckoutStateRow { book_id: b, checkout_id: None, user_id: None }),
                Some(i) => Some(
                    CheckoutStateRow {
                        book_id: b,
                        checkout_id: Some(self.open[i].checkout_id),
                        user_id: Some(self.open[i].user_id),
                    },
                ),
            },
        }
    }

    /// Checks a book out under the fresh id `checkout_id`: the book must be
    /// known and not checked out, and the id unused.
    pub fn create(&mut self, event: CreateCheckout, checkout_id: CheckoutId) -> (r: Result<
        CheckoutId,
        CheckoutError,
    >)
        requires
            old(self)@.wf(),
        ensures
            final(self)@.wf(),
            (final(self)@, r) == old(self)@.create_outcome(event, checkout_id),
    {
        proof {
            lemma_create_keeps_wf(self@, event, checkout_id);
        }
        let row = self.state_row(event.book_id);
        match check_checkout_guard(&row) {
            Err(x) => return Err(x),
            Ok(()) => {},
        }
        if find_open_with_id(&self.open, checkout_id).is_some() || find_returned_with_id(
            &self.returned,
            checkout_id,
        ).is_some() {
            return Err(CheckoutError::WriteAnomaly);
        }
        let new_row = CheckoutRow {
            checkout_id,
            book_id: event.book_id,
            user_id: event.checked_out_by,
            checked_out_at: event.checked_out_at,
        };
        let p = open_slot(&self.open, event.checked_out_at);
        proof {
            lemma_asc_slot(open_keys(self.open@), event.checked_out_at);
        }
        self.open.insert(p, new_row);
        Ok(checkout_id)
    }

    /// Returns a book: the open checkout of the requested book, which must
    /// carry the requested checkout id and be held by the returner, moves to
    /// the returned table with the given return time.
    pub fn update_returned(&mut self, event: UpdateReturned) -> (r: Result<(), CheckoutError>)
        requires
            old(self)@.wf(),
        ensures
            final(self)@.wf(),
            (final(self)@, r) == old(self)@.return_outcome(event),
    {
        proof {
            lemma_return_keeps_wf(self@, event);
        }
        let row = self.state_row(event.book_id);
        match check_return_guard(&row, &event) {
            Err(x) => return Err(x),
            Ok(()) => {},
        }
        let i = match find_open_named(&self.open, event.checkout_id, event.book_id) {
            None => return Err(CheckoutError::WriteAnomaly),
            Some(i) => i,
        };
        let o = self.open[i];
        let returned_row = ReturnedCheckoutRow {
            checkout_id: o.checkout_id,
            book_id: o.book_id,
            user_id: o.user_id,
            checked_out_at: o.checked_out_at,
            returned_at: event.returned_at,
        };
        let p = returned_slot(&self.returned, o.checked_out_at);
        proof {
            lemma_asc_slot(returned_keys(self.returned@), o.checked_out_at);
        }
        self.returned.insert(p, returned_row);
        self.open.remove(i);
        Ok(())
    }

    /// The open checkout of a book, joined with the book.
    pub fn find_unreturned_by_book_id(&self, book_id: BookId) -> (r: Option<Checkout>)
        ensures
            r == self@.open_by_book(book_id),
    {
        match find_open_on_book(&self.open, book_id) {
            None => None,
            Some(i) => {
                let row = self.open[i];
                match self.book(row.book_id) {
                    None => None,
                    Some(bk) => Some(Checkout::from_open(row, bk)),
                }
            },
        }
    }

    fn open_matching(&self, user: Option<UserId>) -> (r: Vec<Checkout>)
        ensures
            r@ == open_joined(self@.books, self@.open, user),
    {
        let mut r: Vec<Checkout> = Vec::new();
        let mut i: usize = 0;
        while i < self.open.len()
            invariant
                i <= self.open.len(),
                r@ == open_joined(self@.books, self@.open.take(i as int), user),
            decreases self.open.len() - i,
        {
            let row = self.open[i];
            proof {
                assert(self@.open.take(i + 1).drop_last() =~= self@.open.take(i as int));
                assert(self@.open.take(i + 1).last() == row);
            }
            let wanted = match user {
                None => true,
                Some(u) => u.0 == row.user_id.0,
            };
            if wanted {
                match self.book(row.book_id) {
                    None => {},
                    Some(bk) => r.push(Checkout::from_open(row, bk)),
                }
            }
            i = i + 1;
        }
        assert(self@.open.take(self.open.len() as int) =~= self@.open);
        r
    }

    /// Every open checkout, earliest checkout first.
    pub fn find_unreturned_all(&self) -> (r: Vec<Checkout>)
        ensures
            r@ == open_joined(self@.books, self@.open, None),
    {
        self.open_matching(None)
    }

    /// The open checkouts of one borrower, earliest checkout first.
    pub fn find_unreturned_by_user_id(&self, user_id: UserId) -> (r: Vec<Checkout>)
        ensures
            r@ == open_joined(self@.books, self@.open, Some(user_id)),
    {
        self.open_matching(Some(user_id))
    }

    fn returned_of_book(&self, book_id: BookId) -> (r: Vec<Checkout>)
        ensures
            r@ == self@.returned_history(book_id),
    {
        let bk = self.book(book_id);
        let mut r: Vec<Checkout> = Vec::new();
        let mut i: usize = self.returned.len();
        while i > 0
            invariant
                i <= self.returned.len(),
                bk == book_of(self@.books, book_id),
                r@ == returned_joined(
                    self@.books,
                    self@.returned.subrange(i as int, self.returned.len() as int),
                    book_id,
                ),
            decreases i,
        {
            let row = self.returned[i - 1];
            proof {
                let s = self@.returned.subrange(i - 1, self.returned.len() as int);
                assert(s.drop_first() =~= self@.returned.subrange(
                    i as int,
                    self.returned.len() as int,
                ));
                assert(s[0] == row);
            }
            if row.book_id.0 == book_id.0 {
                match &bk {
                    None => {},
                    Some(b) => r.push(Checkout::from_returned(row, b.duplicate())),
                }
            }
            i = i - 1;
        }
        assert(self@.returned.subrange(0, self.returned.len() as int) =~= self@.returned);
        r
    }

    /// A book's history: its open checkout, if any, then its returned
    /// checkouts, latest checkout first.
    pub fn find_history_by_book_id(&self, book_id: BookId) -> (r: Vec<Checkout>)
        ensures
            r@ == self@.history(book_id),
    {
        let open = self.find_unreturned_by_book_id(book_id);
        let returned = self.returned_of_book(book_id);
        assemble_history(open, returned)
    }
}

} // verus!
