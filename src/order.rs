//! Stable sorting under a strict weak order, and the facts about it that
//! the view state relies on.

use vstd::prelude::*;

verus! {

/// `lt` is irreflexive and transitive, and incomparability is transitive:
/// whenever `lt(a, b)`, any `c` falls after `a` or before `b`.
pub open spec fn strict_weak_order<T>(lt: spec_fn(T, T) -> bool) -> bool {
    &&& forall|a: T| !#[trigger] lt(a, a)
    &&& forall|a: T, b: T, c: T| #[trigger] lt(a, b) && #[trigger] lt(b, c) ==> lt(a, c)
    &&& forall|a: T, b: T, c: T| #[trigger] lt(a, b) ==> #[trigger] lt(a, c) || #[trigger] lt(c, b)
}

/// Neither of `a` and `b` goes before the other.
pub open spec fn tied<T>(lt: spec_fn(T, T) -> bool, a: T, b: T) -> bool {
    !lt(a, b) && !lt(b, a)
}

/// No element goes strictly before an element that precedes it.
pub open spec fn sorted_by<T>(s: Seq<T>, lt: spec_fn(T, T) -> bool) -> bool {
    forall|i: int, j: int| 0 <= i < j < s.len() ==> !lt(#[trigger] s[j], #[trigger] s[i])
}

/// Puts `x` into `t` after every element that does not go strictly after it.
pub open spec fn insert_sorted<T>(t: Seq<T>, x: T, lt: spec_fn(T, T) -> bool) -> Seq<T>
    decreases t.len(),
{
    if t.len() == 0 {
        seq![x]
    } else if lt(x, t.last()) {
        insert_sorted(t.drop_last(), x, lt).push(t.last())
    } else {
        t.push(x)
    }
}

/// Stable sort: the elements of `s` taken in order and each inserted after
/// the ones it ties with.
pub open spec fn stable_sort<T>(s: Seq<T>, lt: spec_fn(T, T) -> bool) -> Seq<T>
    decreases s.len(),
{
    if s.len() == 0 {
        s
    } else {
        insert_sorted(stable_sort(s.drop_last(), lt), s.last(), lt)
    }
}

/// The elements of `s` tied with `y`, in the order in which they stand.
pub open spec fn tie_class<T>(s: Seq<T>, lt: spec_fn(T, T) -> bool, y: T) -> Seq<T> {
    s.filter(|z: T| tied(lt, z, y))
}

proof fn lemma_tied_facts<T>(lt: spec_fn(T, T) -> bool)
    requires
        strict_weak_order(lt),
    ensures
        forall|a: T, b: T| #[trigger] lt(a, b) ==> !lt(b, a),
        forall|a: T, b: T, c: T|
            #[trigger] tied(lt, a, b) && #[trigger] tied(lt, b, c) ==> tied(lt, a, c),
        forall|a: T, b: T, c: T| #[trigger] lt(a, b) && #[trigger] tied(lt, a, c) ==> lt(c, b),
        forall|a: T, b: T, c: T| #[trigger] lt(a, b) && #[trigger] tied(lt, b, c) ==> lt(a, c),
{
    assert forall|a: T, b: T| #[trigger] lt(a, b) implies !lt(b, a) by {
        if lt(b, a) {
            assert(lt(a, a));
        }
    }
    assert forall|a: T, b: T, c: T|
        #[trigger] tied(lt, a, b) && #[trigger] tied(lt, b, c) implies tied(lt, a, c) by {
        if lt(a, c) {
            assert(lt(a, b) || lt(b, c));
        }
        if lt(c, a) {
            assert(lt(c, b) || lt(b, a));
        }
    }
    assert forall|a: T, b: T, c: T| #[trigger] lt(a, b) && #[trigger] tied(lt, a, c) implies lt(c, b) by {
        assert(lt(a, c) || lt(c, b));
    }
    assert forall|a: T, b: T, c: T| #[trigger] lt(a, b) && #[trigger] tied(lt, b, c) implies lt(a, c) by {
        assert(lt(a, c) || lt(c, b));
    }
}

pub proof fn lemma_filter_push<T>(s: Seq<T>, x: T, p: spec_fn(T) -> bool)
    ensures
        s.push(x).filter(p) == if p(x) { s.filter(p).push(x) } else { s.filter(p) },
{
    reveal(Seq::filter);
    assert(s.push(x).drop_last() =~= s);
}

proof fn lemma_filter_prepend<T>(x: T, s: Seq<T>, p: spec_fn(T) -> bool)
    ensures
        (seq![x] + s).filter(p) == if p(x) { seq![x] + s.filter(p) } else { s.filter(p) },
{
    Seq::filter_distributes_over_add(seq![x], s, p);
    reveal_with_fuel(Seq::filter, 2);
    assert(seq![x].drop_last() =~= Seq::<T>::empty());
    if p(x) {
        assert(seq![x].filter(p) =~= seq![x]);
    } else {
        assert(seq![x].filter(p) =~= Seq::<T>::empty());
        assert(Seq::<T>::empty() + s.filter(p) =~= s.filter(p));
    }
}

/// Inserting `x` adds it at the end of its own tie class and leaves the
/// other classes alone.
proof fn lemma_insert_tie_class<T>(t: Seq<T>, x: T, lt: spec_fn(T, T) -> bool, y: T)
    requires
        strict_weak_order(lt),
    ensures
        tie_class(insert_sorted(t, x, lt), lt, y) == if tied(lt, x, y) {
            tie_class(t, lt, y).push(x)
        } else {
            tie_class(t, lt, y)
        },
    decreases t.len(),
{
    let p = |z: T| tied(lt, z, y);
    lemma_tied_facts(lt);
    if t.len() == 0 {
        lemma_filter_push(t, x, p);
        assert(t.push(x) =~= seq![x]);
    } else if lt(x, t.last()) {
        let u = insert_sorted(t.drop_last(), x, lt);
        lemma_insert_tie_class(t.drop_last(), x, lt, y);
        lemma_filter_push(u, t.last(), p);
        lemma_filter_push(t.drop_last(), t.last(), p);
        assert(t.drop_last().push(t.last()) =~= t);
        assert(insert_sorted(t, x, lt) == u.push(t.last()));
        if tied(lt, x, y) {
            assert(lt(x, y) || lt(y, t.last()));
            assert(!p(t.last()));
            assert(u.push(t.last()).filter(p) == u.filter(p));
            assert(t.filter(p) == t.drop_last().filter(p));
        } else {
            assert(u.filter(p) == t.drop_last().filter(p));
        }
    } else {
        lemma_filter_push(t, x, p);
        assert(insert_sorted(t, x, lt) == t.push(x));
    }
}

/// Sorting keeps every tie class as it was: the sort is stable.
pub proof fn lemma_sort_keeps_ties<T>(s: Seq<T>, lt: spec_fn(T, T) -> bool, y: T)
    requires
        strict_weak_order(lt),
    ensures
        tie_class(stable_sort(s, lt), lt, y) == tie_class(s, lt, y),
    decreases s.len(),
{
    if s.len() > 0 {
        lemma_sort_keeps_ties(s.drop_last(), lt, y);
        lemma_insert_tie_class(stable_sort(s.drop_last(), lt), s.last(), lt, y);
        lemma_filter_push(s.drop_last(), s.last(), |z: T| tied(lt, z, y));
        assert(s.drop_last().push(s.last()) =~= s);
    }
}

/// Where `insert_sorted` puts `x`: after the last element that it does not
/// go strictly before.
pub open spec fn insert_pos<T>(t: Seq<T>, x: T, lt: spec_fn(T, T) -> bool) -> int
    decreases t.len(),
{
    if t.len() == 0 {
        0
    } else if lt(x, t.last()) {
        insert_pos(t.drop_last(), x, lt)
    } else {
        t.len() as int
    }
}

proof fn lemma_insert_pos<T>(t: Seq<T>, x: T, lt: spec_fn(T, T) -> bool)
    ensures
        0 <= insert_pos(t, x, lt) <= t.len(),
        forall|k: int| insert_pos(t, x, lt) <= k < t.len() ==> lt(x, #[trigger] t[k]),
        insert_pos(t, x, lt) == 0 || !lt(x, t[insert_pos(t, x, lt) - 1]),
    decreases t.len(),
{
    if t.len() > 0 && lt(x, t.last()) {
        lemma_insert_pos(t.drop_last(), x, lt);
        assert forall|k: int| insert_pos(t, x, lt) <= k < t.len() implies lt(x, #[trigger] t[k]) by {
            if k < t.len() - 1 {
                assert(t.drop_last()[k] == t[k]);
            }
        }
    }
}

/// Any `p` with every later element strictly after `x`, and the one before
/// it not, is where `insert_sorted` puts `x`.
pub proof fn lemma_insert_split<T>(t: Seq<T>, x: T, lt: spec_fn(T, T) -> bool, p: int)
    requires
        0 <= p <= t.len(),
        forall|k: int| p <= k < t.len() ==> lt(x, #[trigger] t[k]),
        p == 0 || !lt(x, t[p - 1]),
    ensures
        insert_sorted(t, x, lt) == t.subrange(0, p).push(x) + t.subrange(p, t.len() as int),
    decreases t.len(),
{
    if t.len() == 0 {
        assert(t.subrange(0, p).push(x) + t.subrange(p, t.len() as int) =~= seq![x]);
    } else if p == t.len() {
        assert(!lt(x, t.last()));
        assert(t.subrange(0, p).push(x) + t.subrange(p, t.len() as int) =~= t.push(x));
    } else {
        assert(lt(x, t[t.len() - 1]));
        lemma_insert_split(t.drop_last(), x, lt, p);
        assert(t.drop_last().subrange(0, p) =~= t.subrange(0, p));
        assert((t.subrange(0, p).push(x) + t.drop_last().subrange(p, t.len() - 1)).push(t.last())
            =~= t.subrange(0, p).push(x) + t.subrange(p, t.len() as int));
    }
}

proof fn lemma_insert_sorted_sorted<T>(t: Seq<T>, x: T, lt: spec_fn(T, T) -> bool)
    requires
        strict_weak_order(lt),
        sorted_by(t, lt),
    ensures
        sorted_by(insert_sorted(t, x, lt), lt),
        insert_sorted(t, x, lt).len() == t.len() + 1,
{
    lemma_tied_facts(lt);
    lemma_insert_pos(t, x, lt);
    let p = insert_pos(t, x, lt);
    lemma_insert_split(t, x, lt, p);
    let r = insert_sorted(t, x, lt);
    assert forall|i: int, j: int| 0 <= i < j < r.len() implies !lt(#[trigger] r[j], #[trigger] r[i]) by {
        if j < p {
            assert(r[i] == t[i] && r[j] == t[j]);
        } else if j == p {
            assert(r[i] == t[i]);
            assert(!lt(t[p - 1], t[i]) || i == p - 1);
            if lt(x, t[i]) {
                assert(lt(x, t[p - 1]) || lt(t[p - 1], t[i]));
            }
        } else if i == p {
            assert(r[j] == t[j - 1]);
            assert(lt(x, t[j - 1]));
        } else if i < p {
            assert(r[i] == t[i] && r[j] == t[j - 1]);
        } else {
            assert(r[i] == t[i - 1] && r[j] == t[j - 1]);
        }
    }
}

/// The result of `stable_sort` is sorted.
pub proof fn lemma_sort_sorted<T>(s: Seq<T>, lt: spec_fn(T, T) -> bool)
    requires
        strict_weak_order(lt),
    ensures
        sorted_by(stable_sort(s, lt), lt),
        stable_sort(s, lt).len() == s.len(),
    decreases s.len(),
{
    if s.len() > 0 {
        lemma_sort_sorted(s.drop_last(), lt);
        lemma_insert_sorted_sorted(stable_sort(s.drop_last(), lt), s.last(), lt);
    }
}

proof fn lemma_filter_none<T>(s: Seq<T>, p: spec_fn(T) -> bool)
    requires
        forall|i: int| 0 <= i < s.len() ==> !p(#[trigger] s[i]),
    ensures
        s.filter(p).len() == 0,
    decreases s.len(),
{
    reveal(Seq::filter);
    if s.len() > 0 {
        lemma_filter_none(s.drop_last(), p);
    }
}

proof fn lemma_first_not_after<T>(t1: Seq<T>, t2: Seq<T>, lt: spec_fn(T, T) -> bool)
    requires
        strict_weak_order(lt),
        t1.len() > 0,
        t2.len() > 0,
        sorted_by(t2, lt),
        tie_class(t1, lt, t1[0]) == tie_class(t2, lt, t1[0]),
    ensures
        !lt(t1[0], t2[0]),
{
    let a = t1[0];
    let p = |z: T| tied(lt, z, a);
    if lt(a, t2[0]) {
        assert forall|i: int| 0 <= i < t2.len() implies !p(#[trigger] t2[i]) by {
            if i > 0 {
                assert(!lt(t2[i], t2[0]));
            }
            assert(lt(a, t2[i]) || lt(t2[i], t2[0]));
        }
        lemma_filter_none(t2, p);
        lemma_filter_prepend(a, t1.drop_first(), p);
        assert(seq![a] + t1.drop_first() =~= t1);
    }
}

/// Two sorted sequences with the same tie classes are equal.
pub proof fn lemma_sorted_unique<T>(t1: Seq<T>, t2: Seq<T>, lt: spec_fn(T, T) -> bool)
    requires
        strict_weak_order(lt),
        sorted_by(t1, lt),
        sorted_by(t2, lt),
        forall|y: T| #[trigger] tie_class(t1, lt, y) == tie_class(t2, lt, y),
    ensures
        t1 == t2,
    decreases t1.len() + t2.len(),
{
    lemma_tied_facts(lt);
    if t1.len() == 0 && t2.len() == 0 {
        assert(t1 =~= t2);
    } else if t1.len() == 0 || t2.len() == 0 {
        let (u, v) = if t1.len() == 0 { (t2, t1) } else { (t1, t2) };
        let a = u[0];
        let p = |z: T| tied(lt, z, a);
        assert(tie_class(u, lt, a) == tie_class(v, lt, a));
        lemma_filter_prepend(a, u.drop_first(), p);
        assert(seq![a] + u.drop_first() =~= u);
        reveal(Seq::filter);
        assert(v.filter(p).len() == 0);
    } else {
        let a = t1[0];
        let b = t2[0];
        assert(tie_class(t1, lt, a) == tie_class(t2, lt, a));
        assert(tie_class(t2, lt, b) == tie_class(t1, lt, b));
        lemma_first_not_after(t1, t2, lt);
        lemma_first_not_after(t2, t1, lt);
        assert(tied(lt, a, b));
        let r1 = t1.drop_first();
        let r2 = t2.drop_first();
        assert(seq![a] + r1 =~= t1);
        assert(seq![b] + r2 =~= t2);
        lemma_filter_prepend(a, r1, |z: T| tied(lt, z, a));
        lemma_filter_prepend(b, r2, |z: T| tied(lt, z, a));
        assert(tie_class(t1, lt, a)[0] == a);
        assert(tie_class(t2, lt, a)[0] == b);
        assert(a == b);
        assert forall|y: T| #[trigger] tie_class(r1, lt, y) == tie_class(r2, lt, y) by {
            lemma_filter_prepend(a, r1, |z: T| tied(lt, z, y));
            lemma_filter_prepend(b, r2, |z: T| tied(lt, z, y));
            assert(tie_class(t1, lt, y) == tie_class(t2, lt, y));
            if tied(lt, a, y) {
                assert(tie_class(r1, lt, y) =~= tie_class(t1, lt, y).drop_first());
                assert(tie_class(r2, lt, y) =~= tie_class(t2, lt, y).drop_first());
            }
        }
        assert forall|i: int, j: int| 0 <= i < j < r1.len() implies !lt(#[trigger] r1[j], #[trigger] r1[i]) by {
            assert(r1[i] == t1[i + 1] && r1[j] == t1[j + 1]);
        }
        assert forall|i: int, j: int| 0 <= i < j < r2.len() implies !lt(#[trigger] r2[j], #[trigger] r2[i]) by {
            assert(r2[i] == t2[i + 1] && r2[j] == t2[j + 1]);
        }
        lemma_sorted_unique(r1, r2, lt);
    }
}

/// Sorting a sequence that is already sorted leaves it as it is.
pub proof fn lemma_sort_of_sorted<T>(s: Seq<T>, lt: spec_fn(T, T) -> bool)
    requires
        strict_weak_order(lt),
        sorted_by(s, lt),
    ensures
        stable_sort(s, lt) == s,
{
    lemma_sort_sorted(s, lt);
    assert forall|y: T| #[trigger] tie_class(stable_sort(s, lt), lt, y) == tie_class(s, lt, y) by {
        lemma_sort_keeps_ties(s, lt, y);
    }
    lemma_sorted_unique(stable_sort(s, lt), s, lt);
}

/// Re-sorting a sorted sequence under the reversed order and then under the
/// order again gives the sequence back.
pub proof fn lemma_reverse_twice<T>(s: Seq<T>, lt: spec_fn(T, T) -> bool, rev: spec_fn(T, T) -> bool)
    requires
        strict_weak_order(lt),
        forall|a: T, b: T| #[trigger] rev(a, b) == lt(b, a),
        sorted_by(s, lt),
    ensures
        stable_sort(stable_sort(s, rev), lt) == s,
{
    lemma_tied_facts(lt);
    assert(strict_weak_order(rev)) by {
        assert forall|a: T, b: T, c: T| #[trigger] rev(a, b) implies #[trigger] rev(a, c) || #[trigger] rev(c, b) by {
            assert(lt(b, a));
            assert(lt(b, c) || lt(c, a));
        }
        assert forall|a: T, b: T, c: T| #[trigger] rev(a, b) && #[trigger] rev(b, c) implies rev(a, c) by {
            assert(lt(c, b) && lt(b, a));
        }
        assert forall|a: T| !#[trigger] rev(a, a) by {
            assert(!lt(a, a));
        }
    }
    let u = stable_sort(s, rev);
    let w = stable_sort(u, lt);
    lemma_sort_sorted(u, lt);
    assert forall|y: T| #[trigger] tie_class(w, lt, y) == tie_class(s, lt, y) by {
        lemma_sort_keeps_ties(u, lt, y);
        lemma_sort_keeps_ties(s, rev, y);
        assert(tie_class(u, rev, y) == tie_class(u, lt, y)) by {
            assert((|z: T| tied(rev, z, y)) =~= (|z: T| tied(lt, z, y)));
        }
        assert(tie_class(s, rev, y) == tie_class(s, lt, y)) by {
            assert((|z: T| tied(rev, z, y)) =~= (|z: T| tied(lt, z, y)));
        }
    }
    lemma_sorted_unique(w, s, lt);
}

} // verus!
