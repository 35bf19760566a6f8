use vstd::prelude::*;

verus! {

/// Index of the last element of `s` that satisfies `p`, or -1 if none does.
pub open spec fn last_index<T>(s: Seq<T>, p: spec_fn(T) -> bool) -> int
    decreases s.len(),
{
    if s.len() == 0 {
        -1
    } else if p(s.last()) {
        s.len() - 1
    } else {
        last_index(s.drop_last(), p)
    }
}

/// What `last_index` finds: a satisfying element with none after it, or no
/// satisfying element at all.
pub proof fn lemma_last_index<T>(s: Seq<T>, p: spec_fn(T) -> bool)
    ensures
        -1 <= last_index(s, p) < s.len(),
        last_index(s, p) >= 0 ==> p(s[last_index(s, p)]),
        forall|k: int| last_index(s, p) < k < s.len() ==> !p(#[trigger] s[k]),
    decreases s.len(),
{
    if s.len() > 0 && !p(s.last()) {
        lemma_last_index(s.drop_last(), p);
        assert forall|k: int| last_index(s, p) < k < s.len() implies !p(#[trigger] s[k]) by {
            if k < s.len() - 1 {
                assert(s[k] == s.drop_last()[k]);
            }
        }
    }
}

/// A satisfying element with none after it is the one that `last_index` finds.
pub proof fn lemma_last_index_at<T>(s: Seq<T>, p: spec_fn(T) -> bool, j: int)
    requires
        0 <= j < s.len(),
        p(s[j]),
        forall|k: int| j < k < s.len() ==> !p(#[trigger] s[k]),
    ensures
        last_index(s, p) == j,
    decreases s.len(),
{
    if j < s.len() - 1 {
        assert(!p(s[s.len() - 1]));
        lemma_last_index_at(s.drop_last(), p, j);
    }
}

/// With no satisfying element, `last_index` is -1.
pub proof fn lemma_last_index_none<T>(s: Seq<T>, p: spec_fn(T) -> bool)
    requires
        forall|k: int| 0 <= k < s.len() ==> !p(#[trigger] s[k]),
    ensures
        last_index(s, p) == -1,
    decreases s.len(),
{
    if s.len() > 0 {
        assert(!p(s[s.len() - 1]));
        lemma_last_index_none(s.drop_last(), p);
    }
}

/// Keys in ascending order.
pub open spec fn sorted_asc(k: Seq<i64>) -> bool {
    forall|i: int, j: int| 0 <= i <= j < k.len() ==> k[i] <= k[j]
}

/// The place where `t` goes in ascending keys: after every key not above it.
pub open spec fn asc_slot(k: Seq<i64>, t: i64) -> int
    decreases k.len(),
{
    if k.len() == 0 {
        0
    } else if k.last() <= t {
        k.len() as int
    } else {
        asc_slot(k.drop_last(), t)
    }
}

/// The keys after the slot are above `t`, the key just before it is not.
pub proof fn lemma_asc_slot(k: Seq<i64>, t: i64)
    ensures
        0 <= asc_slot(k, t) <= k.len(),
        asc_slot(k, t) > 0 ==> k[asc_slot(k, t) - 1] <= t,
        forall|i: int| asc_slot(k, t) <= i < k.len() ==> #[trigger] k[i] > t,
    decreases k.len(),
{
    if k.len() > 0 && k.last() > t {
        lemma_asc_slot(k.drop_last(), t);
        assert forall|i: int| asc_slot(k, t) <= i < k.len() implies #[trigger] k[i] > t by {
            if i < k.len() - 1 {
                assert(k[i] == k.drop_last()[i]);
            }
        }
    }
}

/// A place with every later key above `t` and the key before it not above is
/// the slot.
pub proof fn lemma_asc_slot_at(k: Seq<i64>, t: i64, j: int)
    requires
        0 <= j <= k.len(),
        j > 0 ==> k[j - 1] <= t,
        forall|i: int| j <= i < k.len() ==> #[trigger] k[i] > t,
    ensures
        asc_slot(k, t) == j,
    decreases k.len(),
{
    if j < k.len() {
        assert(k[k.len() - 1] > t);
        lemma_asc_slot_at(k.drop_last(), t, j);
    }
}

/// Putting `t` in its slot keeps ascending keys ascending.
pub proof fn lemma_insert_sorted(k: Seq<i64>, t: i64)
    requires
        sorted_asc(k),
    ensures
        sorted_asc(k.insert(asc_slot(k, t), t)),
{
    lemma_asc_slot(k, t);
    let p = asc_slot(k, t);
    let n = k.insert(p, t);
    assert forall|i: int, j: int| 0 <= i <= j < n.len() implies n[i] <= n[j] by {
        if i < p {
            assert(k[i] <= k[p - 1]);
        }
        if j > p {
            assert(k[j - 1] > t);
        }
    }
}

/// Removing a key keeps ascending keys ascending.
pub proof fn lemma_remove_sorted(k: Seq<i64>, i: int)
    requires
        sorted_asc(k),
        0 <= i < k.len(),
    ensures
        sorted_asc(k.remove(i)),
{
    let n = k.remove(i);
    assert forall|a: int, b: int| 0 <= a <= b < n.len() implies n[a] <= n[b] by {
        let a2 = if a < i { a } else { a + 1 };
        let b2 = if b < i { b } else { b + 1 };
        assert(n[a] == k[a2] && n[b] == k[b2]);
    }
}

} // verus!
