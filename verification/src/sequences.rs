//! Facts about sequences that several modules use.
use vstd::prelude::*;

verus! {

/// The position of the first element with `wanted`; the length where there is none.
pub open spec fn first_index<A>(s: Seq<A>, wanted: spec_fn(A) -> bool) -> int
    decreases s.len(),
{
    if s.len() == 0 {
        0
    } else {
        let before = first_index(s.drop_last(), wanted);
        if before < s.len() - 1 {
            before
        } else if wanted(s.last()) {
            s.len() - 1
        } else {
            s.len() as int
        }
    }
}

/// The first element with `wanted`.
pub open spec fn first_where<A>(s: Seq<A>, wanted: spec_fn(A) -> bool) -> Option<A> {
    let i = first_index(s, wanted);
    if i < s.len() {
        Some(s[i])
    } else {
        None
    }
}

/// Some element has `wanted`.
pub open spec fn any_where<A>(s: Seq<A>, wanted: spec_fn(A) -> bool) -> bool {
    first_index(s, wanted) < s.len()
}

/// How many elements have `wanted`.
pub open spec fn count_where<A>(s: Seq<A>, wanted: spec_fn(A) -> bool) -> nat {
    s.filter(wanted).len()
}

/// The sum of the values that `value` gives the elements.
pub open spec fn sum_of<A>(s: Seq<A>, value: spec_fn(A) -> nat) -> nat
    decreases s.len(),
{
    if s.len() == 0 {
        0
    } else {
        sum_of(s.drop_last(), value) + value(s.last())
    }
}

/// What `first_index` says of the elements.
pub proof fn first_index_properties<A>(s: Seq<A>, wanted: spec_fn(A) -> bool)
    ensures
        0 <= first_index(s, wanted) <= s.len(),
        first_index(s, wanted) < s.len() ==> wanted(s[first_index(s, wanted)]),
        forall|i: int| 0 <= i < first_index(s, wanted) ==> !wanted(#[trigger] s[i]),
    decreases s.len(),
{
    if s.len() > 0 {
        let head = s.drop_last();
        first_index_properties(head, wanted);
        assert forall|i: int| 0 <= i < first_index(s, wanted) implies !wanted(#[trigger] s[i]) by {
            if i < s.len() - 1 {
                assert(s[i] == head[i]);
            }
        }
        if first_index(head, wanted) < head.len() {
            assert(s[first_index(head, wanted)] == head[first_index(head, wanted)]);
        }
    }
}

/// The position that `first_index` names is the only one with what it says.
pub proof fn first_index_is<A>(s: Seq<A>, wanted: spec_fn(A) -> bool, p: int)
    requires
        0 <= p <= s.len(),
        p < s.len() ==> wanted(s[p]),
        forall|i: int| 0 <= i < p ==> !wanted(#[trigger] s[i]),
    ensures
        first_index(s, wanted) == p,
{
    first_index_properties(s, wanted);
    let q = first_index(s, wanted);
    if q < p {
        assert(!wanted(s[q]));
    } else if p < q {
        assert(!wanted(s[p]));
    }
}

/// Some element has `wanted` exactly where one can be named.
pub proof fn any_where_iff<A>(s: Seq<A>, wanted: spec_fn(A) -> bool)
    ensures
        any_where(s, wanted) <==> exists|i: int| 0 <= i < s.len() && wanted(#[trigger] s[i]),
{
    first_index_properties(s, wanted);
}

/// Counting one element more.
pub proof fn count_where_push<A>(s: Seq<A>, a: A, wanted: spec_fn(A) -> bool)
    ensures
        count_where(s.push(a), wanted) == count_where(s, wanted) + if wanted(a) {
            1nat
        } else {
            0nat
        },
{
    crate::text::filter_push(s, a, wanted);
}

/// At most every element is counted.
pub proof fn count_where_bound<A>(s: Seq<A>, wanted: spec_fn(A) -> bool)
    ensures
        count_where(s, wanted) <= s.len(),
    decreases s.len(),
{
    reveal(Seq::filter);
    if s.len() > 0 {
        count_where_bound(s.drop_last(), wanted);
        count_where_push(s.drop_last(), s.last(), wanted);
        assert(s.drop_last().push(s.last()) =~= s);
    }
}

/// What replacing one element does to a count.
pub proof fn count_where_update<A>(s: Seq<A>, i: int, a: A, wanted: spec_fn(A) -> bool)
    requires
        0 <= i < s.len(),
    ensures
        count_where(s.update(i, a), wanted) + (if wanted(s[i]) {
            1nat
        } else {
            0nat
        }) == count_where(s, wanted) + (if wanted(a) {
            1nat
        } else {
            0nat
        }),
    decreases s.len(),
{
    let t = s.update(i, a);
    let head = s.drop_last();
    count_where_push(head, s.last(), wanted);
    assert(head.push(s.last()) =~= s);
    count_where_push(t.drop_last(), t.last(), wanted);
    assert(t.drop_last().push(t.last()) =~= t);
    if i == s.len() - 1 {
        assert(t.drop_last() =~= head);
    } else {
        count_where_update(head, i, a, wanted);
        assert(t.drop_last() =~= head.update(i, a));
    }
}

/// The first of two sequences put together: the first one's where it has one.
pub proof fn first_where_append<A>(a: Seq<A>, b: Seq<A>, wanted: spec_fn(A) -> bool)
    ensures
        first_where(a + b, wanted) == if any_where(a, wanted) {
            first_where(a, wanted)
        } else {
            first_where(b, wanted)
        },
        any_where(a + b, wanted) <==> any_where(a, wanted) || any_where(b, wanted),
{
    first_index_properties(a, wanted);
    first_index_properties(b, wanted);
    let i = first_index(a, wanted);
    let j = first_index(b, wanted);
    if i < a.len() {
        assert forall|k: int| 0 <= k < i implies !wanted(#[trigger] (a + b)[k]) by {
            assert((a + b)[k] == a[k]);
        }
        first_index_is(a + b, wanted, i);
    } else {
        assert forall|k: int| 0 <= k < a.len() + j implies !wanted(#[trigger] (a + b)[k]) by {
            if k < a.len() {
                assert((a + b)[k] == a[k]);
            } else {
                assert((a + b)[k] == b[k - a.len()]);
            }
        }
        first_index_is(a + b, wanted, a.len() + j);
    }
}

/// Where whatever is wanted is also liked, and something liked is not wanted, fewer are wanted than
/// liked.
pub proof fn count_where_less<A>(
    s: Seq<A>,
    wanted: spec_fn(A) -> bool,
    liked: spec_fn(A) -> bool,
    i: int,
)
    requires
        0 <= i < s.len(),
        liked(s[i]) && !wanted(s[i]),
        forall|k: int| 0 <= k < s.len() && wanted(#[trigger] s[k]) ==> liked(s[k]),
    ensures
        count_where(s, wanted) < count_where(s, liked),
    decreases s.len(),
{
    let head = s.drop_last();
    assert(s =~= head.push(s.last()));
    count_where_push(head, s.last(), wanted);
    count_where_push(head, s.last(), liked);
    assert forall|k: int| 0 <= k < head.len() && wanted(#[trigger] head[k]) implies liked(
        head[k],
    ) by {
        assert(head[k] == s[k]);
    }
    if i < head.len() {
        assert(head[i] == s[i]);
        count_where_less(head, wanted, liked, i);
    } else {
        count_where_most(head, wanted, liked);
    }
}

/// Where whatever is wanted is also liked, no more are wanted than liked.
proof fn count_where_most<A>(s: Seq<A>, wanted: spec_fn(A) -> bool, liked: spec_fn(A) -> bool)
    requires
        forall|k: int| 0 <= k < s.len() && wanted(#[trigger] s[k]) ==> liked(s[k]),
    ensures
        count_where(s, wanted) <= count_where(s, liked),
    decreases s.len(),
{
    if s.len() > 0 {
        let head = s.drop_last();
        assert(s =~= head.push(s.last()));
        count_where_push(head, s.last(), wanted);
        count_where_push(head, s.last(), liked);
        assert forall|k: int| 0 <= k < head.len() && wanted(#[trigger] head[k]) implies liked(
            head[k],
        ) by {
            assert(head[k] == s[k]);
        }
        count_where_most(head, wanted, liked);
    } else {
        assert(s.filter(wanted) =~= s) by {
            reveal(Seq::filter);
        }
    }
}

/// What stays of a list by a test is what passes the test.
pub proof fn filter_is_exact<A>(list: Seq<A>, test: spec_fn(A) -> bool, item: A)
    ensures
        list.filter(test).contains(item) <==> list.contains(item) && test(item),
{
    if list.contains(item) && test(item) {
        let k = list.index_of(item);
        list.lemma_filter_contains(test, k);
    }
    if list.filter(test).contains(item) {
        let k = list.filter(test).index_of(item);
        list.lemma_filter_pred(test, k);
        list.lemma_filter_contains_rev(test, item);
    }
}

} // verus!
