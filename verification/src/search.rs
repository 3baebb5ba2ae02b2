//! First occurrences in sequences.

use vstd::prelude::*;

verus! {

/// The index of the first item for which `p` holds, or the length.
pub open spec fn index_where<A>(s: Seq<A>, p: spec_fn(A) -> bool) -> int
    decreases s.len(),
{
    if s.len() == 0 || p(s[0]) {
        0
    } else {
        1 + index_where(s.drop_first(), p)
    }
}

/// Whether `p` holds for some item.
pub open spec fn any_where<A>(s: Seq<A>, p: spec_fn(A) -> bool) -> bool {
    index_where(s, p) < s.len()
}

/// The index is within the sequence or its length; `p` holds there and not before.
pub proof fn index_where_bounds<A>(s: Seq<A>, p: spec_fn(A) -> bool)
    ensures
        0 <= index_where(s, p) <= s.len(),
        index_where(s, p) < s.len() ==> p(s[index_where(s, p)]),
        forall|j: int| 0 <= j < index_where(s, p) ==> !p(#[trigger] s[j]),
    decreases s.len(),
{
    if s.len() > 0 && !p(s[0]) {
        let rest = s.drop_first();
        index_where_bounds(rest, p);
        assert forall|j: int| 0 <= j < index_where(s, p) implies !p(#[trigger] s[j]) by {
            if j > 0 {
                assert(rest[j - 1] == s[j]);
            }
        }
    }
}

/// An item for which `p` holds, with none before it, is the first.
pub proof fn index_where_is<A>(s: Seq<A>, p: spec_fn(A) -> bool, i: int)
    requires
        0 <= i <= s.len(),
        i < s.len() ==> p(s[i]),
        forall|j: int| 0 <= j < i ==> !p(#[trigger] s[j]),
    ensures
        index_where(s, p) == i,
{
    index_where_bounds(s, p);
}

/// The items for which `p` holds, in their order.
pub open spec fn kept_where<A>(s: Seq<A>, p: spec_fn(A) -> bool) -> Seq<A>
    decreases s.len(),
{
    if s.len() == 0 {
        Seq::empty()
    } else if p(s.last()) {
        kept_where(s.drop_last(), p).push(s.last())
    } else {
        kept_where(s.drop_last(), p)
    }
}

/// What is kept are the items for which `p` holds.
pub proof fn kept_where_holds<A>(s: Seq<A>, p: spec_fn(A) -> bool)
    ensures
        kept_where(s, p).len() <= s.len(),
        forall|i: int|
            0 <= i < kept_where(s, p).len() ==> {
                &&& p(#[trigger] kept_where(s, p)[i])
                &&& s.contains(kept_where(s, p)[i])
            },
        forall|x: A| s.contains(x) && #[trigger] p(x) ==> kept_where(s, p).contains(x),
    decreases s.len(),
{
    if s.len() > 0 {
        let less = s.drop_last();
        kept_where_holds(less, p);
        let kept = kept_where(less, p);
        assert forall|i: int| 0 <= i < kept_where(s, p).len() implies {
            &&& p(#[trigger] kept_where(s, p)[i])
            &&& s.contains(kept_where(s, p)[i])
        } by {
            if i < kept.len() {
                assert(kept_where(s, p)[i] == kept[i]);
                assert(less.contains(kept[i]));
                let j = choose|j: int| 0 <= j < less.len() && less[j] == kept[i];
                assert(s[j] == kept[i]);
            } else {
                assert(s[s.len() - 1] == s.last());
            }
        }
        assert forall|x: A| s.contains(x) && #[trigger] p(x) implies kept_where(s, p).contains(
            x,
        ) by {
            let j = choose|j: int| 0 <= j < s.len() && s[j] == x;
            if j < s.len() - 1 {
                assert(less[j] == x);
                assert(kept.contains(x));
                let k = choose|k: int| 0 <= k < kept.len() && kept[k] == x;
                assert(kept_where(s, p)[k] == x);
            } else {
                assert(kept_where(s, p)[kept.len() as int] == x);
            }
        }
    }
}

/// The first item for which `p` holds.
pub open spec fn found<A>(s: Seq<A>, p: spec_fn(A) -> bool) -> Option<A> {
    if any_where(s, p) {
        Some(s[index_where(s, p)])
    } else {
        None
    }
}

/// What is found is in the sequence and `p` holds for it and for nothing before it; where
/// nothing is found, `p` holds for nothing.
pub proof fn found_is_first<A>(s: Seq<A>, p: spec_fn(A) -> bool)
    ensures
        match found(s, p) {
            Some(x) => p(x) && exists|i: int|
                {
                    &&& 0 <= i < s.len()
                    &&& #[trigger] s[i] == x
                    &&& forall|j: int| 0 <= j < i ==> !p(#[trigger] s[j])
                },
            None => forall|j: int| 0 <= j < s.len() ==> !p(#[trigger] s[j]),
        },
{
    index_where_bounds(s, p);
}

/// An item at the end is found where nothing before it is.
pub proof fn found_after_push<A>(s: Seq<A>, x: A, p: spec_fn(A) -> bool)
    ensures
        found(s.push(x), p) == (if found(s, p) is Some {
            found(s, p)
        } else if p(x) {
            Some(x)
        } else {
            None
        }),
{
    index_where_bounds(s, p);
    let t = s.push(x);
    let i = index_where(s, p);
    assert forall|j: int| 0 <= j < i implies !p(#[trigger] t[j]) by {
        assert(t[j] == s[j]);
    }
    if i < s.len() {
        assert(t[i] == s[i]);
        index_where_is(t, p, i);
    } else {
        assert(t[i] == x);
        if p(x) {
            index_where_is(t, p, i);
        } else {
            index_where_is(t, p, i + 1);
        }
    }
}

/// An item for which `p` does not hold can go, and nothing else is found for it.
pub proof fn found_after_remove<A>(s: Seq<A>, k: int, p: spec_fn(A) -> bool)
    requires
        0 <= k < s.len(),
        !p(s[k]),
    ensures
        found(s.remove(k), p) == found(s, p),
{
    index_where_bounds(s, p);
    let t = s.remove(k);
    let i = index_where(s, p);
    let n = if i > k {
        i - 1
    } else {
        i
    };
    assert forall|j: int| 0 <= j < n implies !p(#[trigger] t[j]) by {
        if j < k {
            assert(t[j] == s[j]);
        } else {
            assert(t[j] == s[j + 1]);
        }
    }
    if i < s.len() {
        assert(t[n] == s[i]);
    }
    index_where_is(t, p, n);
}

/// An item that is replaced by one that `p` holds for as well, or by one that it does not
/// hold for either.
pub proof fn found_after_update<A>(s: Seq<A>, k: int, x: A, p: spec_fn(A) -> bool)
    requires
        0 <= k < s.len(),
        p(s[k]) == p(x),
    ensures
        index_where(s.update(k, x), p) == index_where(s, p),
        found(s.update(k, x), p) == (if index_where(s, p) == k {
            Some(x)
        } else {
            found(s, p)
        }),
{
    index_where_bounds(s, p);
    let t = s.update(k, x);
    let i = index_where(s, p);
    assert forall|j: int| 0 <= j < i implies !p(#[trigger] t[j]) by {
        if j != k {
            assert(t[j] == s[j]);
        }
    }
    index_where_is(t, p, i);
}

/// What is kept is kept item by item and in order.
pub proof fn kept_one_by_one<A>(s: Seq<A>, x: A, p: spec_fn(A) -> bool)
    ensures
        kept_where(Seq::<A>::empty(), p) == Seq::<A>::empty(),
        kept_where(s.push(x), p) == (if p(x) {
            kept_where(s, p).push(x)
        } else {
            kept_where(s, p)
        }),
{
    assert(s.push(x).drop_last() =~= s);
}

} // verus!
