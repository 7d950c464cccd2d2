//! Stable sorting with its meaning spelled out.

use vstd::prelude::*;

verus! {

/// Types whose values are listed in some order.
pub trait Ranked: Sized {
    /// Whether `self` is listed strictly before `other`.
    spec fn precedes(&self, other: &Self) -> bool;

    /// Whether `self` is listed strictly before `other`.
    fn goes_before(&self, other: &Self) -> (before: bool)
        ensures
            before == self.precedes(other),
    ;

    /// The order is irreflexive, and not preceding is transitive.
    proof fn lemma_weak_order(a: &Self, b: &Self, c: &Self)
        ensures
            !a.precedes(a),
            !b.precedes(a) && !c.precedes(b) ==> !c.precedes(a),
            a.precedes(b) ==> !b.precedes(a),
    ;
}

/// `x` put into the ordered list `s`, behind everything it does not
/// precede.
pub open spec fn ranked_insert<T: Ranked>(s: Seq<T>, x: T) -> Seq<T>
    decreases s.len(),
{
    if s.len() == 0 {
        seq![x]
    } else if x.precedes(&s.last()) {
        ranked_insert(s.drop_last(), x).push(s.last())
    } else {
        s.push(x)
    }
}

/// `s` in order; values that do not precede each other stay as they stood.
pub open spec fn ranked<T: Ranked>(s: Seq<T>) -> Seq<T>
    decreases s.len(),
{
    if s.len() == 0 {
        Seq::empty()
    } else {
        ranked_insert(ranked(s.drop_last()), s.last())
    }
}

/// Whether nothing in `s` precedes what stands before it.
pub open spec fn in_order<T: Ranked>(s: Seq<T>) -> bool {
    forall|i: int, j: int|
        #![trigger s[i], s[j]]
        0 <= i < j < s.len() ==> !s[j].precedes(&s[i])
}

/// Inserting adds exactly the new value.
pub proof fn lemma_ranked_insert_adds<T: Ranked>(s: Seq<T>, x: T)
    ensures
        ranked_insert(s, x).to_multiset() == s.to_multiset().insert(x),
        ranked_insert(s, x).len() == s.len() + 1,
    decreases s.len(),
{
    broadcast use vstd::seq_lib::group_to_multiset_ensures;

    if s.len() == 0 {
        assert(s =~= Seq::empty());
        assert(seq![x] =~= Seq::empty().push(x));
        assert(ranked_insert(s, x).to_multiset() =~= s.to_multiset().insert(x));
    } else if x.precedes(&s.last()) {
        lemma_ranked_insert_adds(s.drop_last(), x);
        assert(s =~= s.drop_last().push(s.last()));
        assert(ranked_insert(s, x).to_multiset() =~= s.to_multiset().insert(x));
    } else {
        assert(ranked_insert(s, x).to_multiset() =~= s.to_multiset().insert(x));
    }
}

/// Sorting rearranges: nothing is lost, added, or changed.
pub proof fn law_ranked_rearranges<T: Ranked>(s: Seq<T>)
    ensures
        ranked(s).to_multiset() == s.to_multiset(),
        ranked(s).len() == s.len(),
    decreases s.len(),
{
    broadcast use vstd::seq_lib::group_to_multiset_ensures;

    if s.len() == 0 {
        assert(s =~= Seq::empty());
    } else {
        law_ranked_rearranges(s.drop_last());
        lemma_ranked_insert_adds(ranked(s.drop_last()), s.last());
        assert(s =~= s.drop_last().push(s.last()));
    }
}

/// Inserting into an ordered list keeps it ordered, and the values stay
/// those that were there and the new one.
proof fn lemma_ranked_insert_ordered<T: Ranked>(s: Seq<T>, x: T)
    requires
        in_order(s),
    ensures
        in_order(ranked_insert(s, x)),
        forall|i: int|
            0 <= i < ranked_insert(s, x).len() ==> (#[trigger] ranked_insert(s, x)[i]) == x || s.contains(
                ranked_insert(s, x)[i],
            ),
    decreases s.len(),
{
    let r = ranked_insert(s, x);
    if s.len() == 0 {
    } else if x.precedes(&s.last()) {
        let before = s.drop_last();
        lemma_ranked_insert_ordered(before, x);
        lemma_ranked_insert_adds(before, x);
        let inner = ranked_insert(before, x);
        assert forall|i: int| 0 <= i < r.len() implies (#[trigger] r[i]) == x || s.contains(
            r[i],
        ) by {
            if i < inner.len() {
                assert(r[i] == inner[i]);
                if inner[i] != x {
                    assert(before.contains(inner[i]));
                    let k = choose|k: int| 0 <= k < before.len() && before[k] == inner[i];
                    assert(s[k] == inner[i]);
                }
            } else {
                assert(r[i] == s.last());
                assert(s[s.len() - 1] == r[i]);
            }
        }
        assert forall|i: int, j: int|
            #![trigger r[i], r[j]]
            0 <= i < j < r.len() implies !r[j].precedes(&r[i]) by {
            if j < inner.len() {
                assert(r[i] == inner[i] && r[j] == inner[j]);
            } else {
                assert(r[j] == s.last());
                assert(r[i] == inner[i]);
                if inner[i] == x {
                    T::lemma_weak_order(&x, &s.last(), &x);
                } else {
                    assert(before.contains(inner[i]));
                    let k = choose|k: int| 0 <= k < before.len() && before[k] == inner[i];
                    assert(s[k] == inner[i]);
                    assert(!s[s.len() - 1].precedes(&s[k]));
                }
            }
        }
    } else {
        assert forall|i: int| 0 <= i < r.len() implies (#[trigger] r[i]) == x || s.contains(
            r[i],
        ) by {
            if i < s.len() {
                assert(s[i] == r[i]);
            }
        }
        assert forall|i: int, j: int|
            #![trigger r[i], r[j]]
            0 <= i < j < r.len() implies !r[j].precedes(&r[i]) by {
            if j == s.len() {
                let last = s[s.len() - 1];
                if i < s.len() - 1 {
                    assert(!s[s.len() - 1].precedes(&s[i]));
                }
                T::lemma_weak_order(&s[i], &last, &x);
                T::lemma_weak_order(&s[i], &s[i], &x);
            } else {
                assert(!s[j].precedes(&s[i]));
            }
        }
    }
}

/// Sorting puts values in order.
pub proof fn law_ranked_is_ordered<T: Ranked>(s: Seq<T>)
    ensures
        in_order(ranked(s)),
    decreases s.len(),
{
    if s.len() > 0 {
        law_ranked_is_ordered(s.drop_last());
        lemma_ranked_insert_ordered(ranked(s.drop_last()), s.last());
    }
}

/// Whether of any two values in `s` one precedes the other.
pub open spec fn told_apart<T: Ranked>(s: Seq<T>) -> bool {
    forall|i: int, j: int|
        #![trigger s[i], s[j]]
        0 <= i < j < s.len() ==> s[i].precedes(&s[j]) || s[j].precedes(&s[i])
}

/// Where any two values are told apart, so are they in any other
/// arrangement.
pub proof fn lemma_told_apart_rearranged<T: Ranked>(a: Seq<T>, b: Seq<T>)
    requires
        told_apart(a),
        a.to_multiset() == b.to_multiset(),
    ensures
        told_apart(b),
{
    broadcast use vstd::seq_lib::group_to_multiset_ensures;

    assert(a.no_duplicates()) by {
        assert forall|i: int, j: int| 0 <= i < a.len() && 0 <= j < a.len() && i != j implies a[i]
            != a[j] by {
            T::lemma_weak_order(&a[i], &a[i], &a[i]);
            if i < j {
                assert(a[i].precedes(&a[j]) || a[j].precedes(&a[i]));
            } else {
                assert(a[j].precedes(&a[i]) || a[i].precedes(&a[j]));
            }
        }
    }
    a.lemma_multiset_has_no_duplicates();
    b.lemma_multiset_has_no_duplicates_conv();
    assert forall|i: int, j: int|
        #![trigger b[i], b[j]]
        0 <= i < j < b.len() implies b[i].precedes(&b[j]) || b[j].precedes(&b[i]) by {
        assert(b.to_multiset().count(b[i]) > 0 && b.to_multiset().count(b[j]) > 0);
        assert(a.contains(b[i]) && a.contains(b[j]));
        let p = choose|p: int| 0 <= p < a.len() && a[p] == b[i];
        let q = choose|q: int| 0 <= q < a.len() && a[q] == b[j];
        assert(b[i] != b[j]);
        if p < q {
            assert(a[p].precedes(&a[q]) || a[q].precedes(&a[p]));
        } else {
            assert(a[q].precedes(&a[p]) || a[p].precedes(&a[q]));
        }
    }
}

/// There is one way to put values in order that are told apart.
proof fn lemma_one_order<T: Ranked>(a: Seq<T>, b: Seq<T>)
    requires
        in_order(a),
        in_order(b),
        told_apart(a),
        told_apart(b),
        a.to_multiset() == b.to_multiset(),
    ensures
        a == b,
    decreases a.len(),
{
    broadcast use vstd::seq_lib::group_to_multiset_ensures;

    assert(a.len() == a.to_multiset().len() && b.len() == b.to_multiset().len());
    if a.len() == 0 {
        assert(a =~= b);
    } else {
        let x = a.last();
        let y = b.last();
        if x != y {
            assert(a[a.len() - 1] == x && b[b.len() - 1] == y);
            assert(a.to_multiset().count(x) > 0 && b.to_multiset().count(y) > 0);
            assert(b.contains(x) && a.contains(y));
            let i = choose|i: int| 0 <= i < a.len() && a[i] == y;
            let j = choose|j: int| 0 <= j < b.len() && b[j] == x;
            assert(!a[a.len() - 1].precedes(&a[i]));
            assert(!b[b.len() - 1].precedes(&b[j]));
            assert(a[i].precedes(&a[a.len() - 1]) || a[a.len() - 1].precedes(&a[i]));
            T::lemma_weak_order(&x, &y, &x);
        }
        assert(a =~= a.drop_last().push(x));
        assert(b =~= b.drop_last().push(y));
        assert(a.drop_last().to_multiset() =~= a.to_multiset().remove(x));
        assert(b.drop_last().to_multiset() =~= b.to_multiset().remove(y));
        assert forall|i: int, j: int|
            #![trigger a.drop_last()[i], a.drop_last()[j]]
            0 <= i < j < a.drop_last().len() implies !a.drop_last()[j].precedes(
            &a.drop_last()[i],
        ) && (a.drop_last()[i].precedes(&a.drop_last()[j]) || a.drop_last()[j].precedes(
            &a.drop_last()[i],
        )) by {
            assert(a.drop_last()[i] == a[i] && a.drop_last()[j] == a[j]);
        }
        assert forall|i: int, j: int|
            #![trigger b.drop_last()[i], b.drop_last()[j]]
            0 <= i < j < b.drop_last().len() implies !b.drop_last()[j].precedes(
            &b.drop_last()[i],
        ) && (b.drop_last()[i].precedes(&b.drop_last()[j]) || b.drop_last()[j].precedes(
            &b.drop_last()[i],
        )) by {
            assert(b.drop_last()[i] == b[i] && b.drop_last()[j] == b[j]);
        }
        lemma_one_order(a.drop_last(), b.drop_last());
    }
}

/// Where any two values are told apart, the order they are put in does not
/// depend on how they stood.
pub proof fn law_ranked_ignores_arrangement<T: Ranked>(a: Seq<T>, b: Seq<T>)
    requires
        told_apart(a),
        a.to_multiset() == b.to_multiset(),
    ensures
        ranked(a) == ranked(b),
{
    law_ranked_rearranges(a);
    law_ranked_rearranges(b);
    law_ranked_is_ordered(a);
    law_ranked_is_ordered(b);
    lemma_told_apart_rearranged(a, ranked(a));
    lemma_told_apart_rearranged(a, ranked(b));
    lemma_one_order(ranked(a), ranked(b));
}

/// Where `x` goes: behind `k` values, before the rest.
proof fn lemma_ranked_insert_at<T: Ranked>(s: Seq<T>, x: T, k: int)
    requires
        0 <= k <= s.len(),
        forall|j: int| #![trigger s[j]] k <= j < s.len() ==> x.precedes(&s[j]),
        k > 0 ==> !x.precedes(&s[k - 1]),
    ensures
        ranked_insert(s, x) == s.insert(k, x),
    decreases s.len(),
{
    if s.len() == 0 {
        assert(seq![x] =~= s.insert(k, x));
    } else if k == s.len() {
        assert(s.push(x) =~= s.insert(k, x));
    } else {
        assert(x.precedes(&s[s.len() - 1]));
        assert forall|j: int|
            #![trigger s.drop_last()[j]]
            k <= j < s.drop_last().len() implies x.precedes(&s.drop_last()[j]) by {
            assert(s.drop_last()[j] == s[j]);
        }
        lemma_ranked_insert_at(s.drop_last(), x, k);
        assert(s.drop_last().insert(k, x).push(s.last()) =~= s.insert(k, x));
    }
}

/// Put `x` into the ordered list `list`, behind everything it does not
/// precede.
pub fn insert_ranked<T: Ranked>(list: &mut Vec<T>, x: T)
    ensures
        final(list)@ == ranked_insert(old(list)@, x),
{
    let mut k: usize = list.len();
    while k > 0 && x.goes_before(&list[k - 1])
        invariant
            k <= list@.len(),
            list@ == old(list)@,
            forall|j: int| #![trigger list@[j]] k <= j < list@.len() ==> x.precedes(&list@[j]),
        decreases k,
    {
        k -= 1;
    }
    proof {
        lemma_ranked_insert_at(list@, x, k as int);
    }
    list.insert(k, x);
}

/// What stands in order already stays as it stands, so that values of one
/// rank keep their places.
pub proof fn law_ranking_is_stable<T: Ranked>(s: Seq<T>)
    requires
        in_order(s),
    ensures
        ranked(s) == s,
    decreases s.len(),
{
    if s.len() > 0 {
        let before = s.drop_last();
        assert forall|i: int, j: int|
            #![trigger before[i], before[j]]
            0 <= i < j < before.len() implies !before[j].precedes(&before[i]) by {
            assert(before[i] == s[i] && before[j] == s[j]);
        }
        law_ranking_is_stable(before);
        if before.len() > 0 {
            assert(before.last() == s[s.len() - 2]);
            assert(!s[s.len() - 1].precedes(&s[s.len() - 2]));
        }
        assert(before.push(s.last()) =~= s);
    } else {
        assert(s =~= Seq::empty());
    }
}

/// Order means that nothing precedes what stands before it, for every two
/// places.
pub proof fn law_order_holds_between_all<T: Ranked>(s: Seq<T>, i: int, j: int)
    requires
        0 <= i < j < s.len(),
    ensures
        !ranked(s)[j].precedes(&ranked(s)[i]),
        ranked(s).len() == s.len(),
{
    law_ranked_is_ordered(s);
    law_ranked_rearranges(s);
    let all = ranked(s);
    assert(!all[j].precedes(&all[i]));
}

} // verus!
