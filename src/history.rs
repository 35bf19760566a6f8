use vstd::prelude::*;
use crate::model::Checkout;

verus! {

/// A book's history: its open checkout, if any, before its returned ones.
pub open spec fn history_of(open: Option<Checkout>, returned: Seq<Checkout>) -> Seq<Checkout> {
    match open {
        Some(c) => seq![c] + returned,
        None => returned,
    }
}

/// Places the open checkout, if any, in front of the returned records.
pub fn assemble_history(open: Option<Checkout>, returned: Vec<Checkout>) -> (r: Vec<Checkout>)
    ensures
        r@ == history_of(open, returned@),
{
    let mut r = returned;
    match open {
        Some(c) => {
            r.insert(0, c);
            assert(r@ =~= seq![c] + returned@);
        },
        None => {},
    }
    r
}

} // verus!
