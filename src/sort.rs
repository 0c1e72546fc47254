//! Sort criteria and the sorting of entity lists under them.

use vstd::prelude::*;
use crate::order::{lemma_insert_split, stable_sort, strict_weak_order};
use crate::text::chars_of;

verus! {

/// The attribute a list is ordered by.
#[derive(Debug, Clone, Copy, PartialEq, Eq, Structural)]
pub enum SortField {
    Name,
    Status,
    Cpu,
    Memory,
}

/// The field that follows `f` in the cycle Name, Status, CPU, Memory.
pub open spec fn successor(f: SortField) -> SortField {
    match f {
        SortField::Name => SortField::Status,
        SortField::Status => SortField::Cpu,
        SortField::Cpu => SortField::Memory,
        SortField::Memory => SortField::Name,
    }
}

pub open spec fn field_label(f: SortField) -> Seq<char> {
    match f {
        SortField::Name => "Name"@,
        SortField::Status => "Status"@,
        SortField::Cpu => "CPU"@,
        SortField::Memory => "Memory"@,
    }
}

impl SortField {
    pub fn next(self) -> (r: SortField)
        ensures
            r == successor(self),
    {
        match self {
            SortField::Name => SortField::Status,
            SortField::Status => SortField::Cpu,
            SortField::Cpu => SortField::Memory,
            SortField::Memory => SortField::Name,
        }
    }

    pub fn label(&self) -> (r: &'static str)
        ensures
            r@ == field_label(*self),
    {
        match self {
            SortField::Name => "Name",
            SortField::Status => "Status",
            SortField::Cpu => "CPU",
            SortField::Memory => "Memory",
        }
    }
}

/// Four steps of the cycle come back to the start, and the four fields met
/// on the way are all the fields, each once.
pub proof fn lemma_sort_cycle(f: SortField)
    ensures
        successor(successor(successor(successor(f)))) == f,
        f != successor(f),
        f != successor(successor(f)),
        f != successor(successor(successor(f))),
        successor(f) != successor(successor(f)),
        successor(f) != successor(successor(successor(f))),
        successor(successor(f)) != successor(successor(successor(f))),
        set![f, successor(f), successor(successor(f)), successor(successor(successor(f)))]
            == set![SortField::Name, SortField::Status, SortField::Cpu, SortField::Memory],
{
    assert(set![f, successor(f), successor(successor(f)), successor(successor(successor(f)))]
        =~= set![SortField::Name, SortField::Status, SortField::Cpu, SortField::Memory]);
}

/// Lexicographic order of names, character by character on code points
/// (the order of `str`'s `Ord`).
pub open spec fn name_lt(a: Seq<char>, b: Seq<char>) -> bool
    decreases a.len(),
{
    if a.len() == 0 {
        b.len() > 0
    } else if b.len() == 0 {
        false
    } else if a[0] != b[0] {
        a[0] < b[0]
    } else {
        name_lt(a.drop_first(), b.drop_first())
    }
}

proof fn lemma_name_irreflexive(a: Seq<char>)
    ensures
        !name_lt(a, a),
    decreases a.len(),
{
    if a.len() > 0 {
        lemma_name_irreflexive(a.drop_first());
    }
}

proof fn lemma_name_transitive(a: Seq<char>, b: Seq<char>, c: Seq<char>)
    requires
        name_lt(a, b),
        name_lt(b, c),
    ensures
        name_lt(a, c),
    decreases a.len(),
{
    if a.len() > 0 && b.len() > 0 && c.len() > 0 && a[0] == b[0] && b[0] == c[0] {
        lemma_name_transitive(a.drop_first(), b.drop_first(), c.drop_first());
    }
}

proof fn lemma_name_between(a: Seq<char>, b: Seq<char>, c: Seq<char>)
    requires
        name_lt(a, b),
    ensures
        name_lt(a, c) || name_lt(c, b),
    decreases a.len(),
{
    if a.len() > 0 && b.len() > 0 && c.len() > 0 {
        if a[0] == b[0] && a[0] == c[0] {
            lemma_name_between(a.drop_first(), b.drop_first(), c.drop_first());
        }
    }
}

proof fn lemma_name_skip(a: Seq<char>, b: Seq<char>, i: int)
    requires
        0 <= i <= a.len(),
        i <= b.len(),
        a.subrange(0, i) == b.subrange(0, i),
    ensures
        name_lt(a, b) == name_lt(a.subrange(i, a.len() as int), b.subrange(i, b.len() as int)),
    decreases i,
{
    if i > 0 {
        assert(a[0] == a.subrange(0, i)[0]);
        assert(b[0] == b.subrange(0, i)[0]);
        assert(a.drop_first().subrange(0, i - 1) =~= a.subrange(0, i).drop_first());
        assert(b.drop_first().subrange(0, i - 1) =~= b.subrange(0, i).drop_first());
        lemma_name_skip(a.drop_first(), b.drop_first(), i - 1);
        assert(a.drop_first().subrange(i - 1, a.len() - 1) =~= a.subrange(i, a.len() as int));
        assert(b.drop_first().subrange(i - 1, b.len() - 1) =~= b.subrange(i, b.len() as int));
    } else {
        assert(a.subrange(0, a.len() as int) =~= a);
        assert(b.subrange(0, b.len() as int) =~= b);
    }
}

/// Whether name `a` goes strictly before name `b`.
pub fn name_before(a: &str, b: &str) -> (r: bool)
    ensures
        r == name_lt(a@, b@),
{
    let x = chars_of(a);
    let y = chars_of(b);
    let mut i: usize = 0;
    while i < x.len() && i < y.len() && x[i] == y[i]
        invariant
            x@ == a@,
            y@ == b@,
            i <= x@.len(),
            i <= y@.len(),
            x@.subrange(0, i as int) =~= y@.subrange(0, i as int),
        decreases x.len() - i,
    {
        i += 1;
    }
    proof {
        lemma_name_skip(a@, b@, i as int);
        let sa = a@.subrange(i as int, a@.len() as int);
        let sb = b@.subrange(i as int, b@.len() as int);
        if i < x.len() && i < y.len() {
            assert(sa[0] == x@[i as int] && sb[0] == y@[i as int]);
        }
    }
    if i == x.len() {
        i < y.len()
    } else if i == y.len() {
        false
    } else {
        x[i] < y[i]
    }
}

/// What a list is ordered by: the name, whether the entity is active, the
/// CPU use and the memory percentage.
pub type RankKey = (Seq<char>, bool, nat, nat);

/// `a` goes strictly before `b` in ascending order of `f`. Active entities
/// come first under Status.
pub open spec fn key_lt(f: SortField, a: RankKey, b: RankKey) -> bool {
    match f {
        SortField::Name => name_lt(a.0, b.0),
        SortField::Status => a.1 && !b.1,
        SortField::Cpu => a.2 < b.2,
        SortField::Memory => a.3 < b.3,
    }
}

/// `a` goes strictly before `b` under `f` in the given direction: the
/// descending order is the ascending comparison with its arguments swapped.
pub open spec fn key_before(f: SortField, ascending: bool, a: RankKey, b: RankKey) -> bool {
    if ascending {
        key_lt(f, a, b)
    } else {
        key_lt(f, b, a)
    }
}

/// An entity that can be ordered by the sort fields.
pub trait Ranked: Sized {
    spec fn rank_key(&self) -> RankKey;

    fn goes_before(&self, other: &Self, f: SortField, ascending: bool) -> (r: bool)
        ensures
            r == key_before(f, ascending, self.rank_key(), other.rank_key());
}

/// The order that sorting by `f` in the given direction uses.
pub open spec fn rank_order<T: Ranked>(f: SortField, ascending: bool) -> spec_fn(T, T) -> bool {
    |a: T, b: T| key_before(f, ascending, a.rank_key(), b.rank_key())
}

/// Every sort criterion is a strict weak order.
pub proof fn lemma_rank_order_strict_weak<T: Ranked>(f: SortField, ascending: bool)
    ensures
        strict_weak_order(rank_order::<T>(f, ascending)),
{
    let lt = rank_order::<T>(f, ascending);
    assert forall|a: T| !#[trigger] lt(a, a) by {
        lemma_name_irreflexive(a.rank_key().0);
    }
    assert forall|a: T, b: T, c: T| #[trigger] lt(a, b) && #[trigger] lt(b, c) implies lt(a, c) by {
        if f == SortField::Name {
            if ascending {
                lemma_name_transitive(a.rank_key().0, b.rank_key().0, c.rank_key().0);
            } else {
                lemma_name_transitive(c.rank_key().0, b.rank_key().0, a.rank_key().0);
            }
        }
    }
    assert forall|a: T, b: T, c: T| #[trigger] lt(a, b) implies #[trigger] lt(a, c) || #[trigger] lt(c, b) by {
        if f == SortField::Name {
            if ascending {
                lemma_name_between(a.rank_key().0, b.rank_key().0, c.rank_key().0);
            } else {
                lemma_name_between(b.rank_key().0, a.rank_key().0, c.rank_key().0);
            }
        }
    }
}

/// Stable sort of `v` by `f` in the given direction.
pub fn sort_by_field<T: Ranked>(v: &mut Vec<T>, f: SortField, ascending: bool)
    ensures
        final(v)@ == stable_sort(old(v)@, rank_order::<T>(f, ascending)),
{
    let ghost lt = rank_order::<T>(f, ascending);
    let ghost orig = v@;
    let mut input: Vec<T> = Vec::new();
    std::mem::swap(v, &mut input);
    let n = input.len();
    let mut i: usize = 0;
    assert(orig.subrange(0, 0) =~= Seq::<T>::empty());
    while i < n
        invariant
            n == orig.len(),
            i <= n,
            input@ == orig.subrange(i as int, n as int),
            v@ == stable_sort(orig.subrange(0, i as int), lt),
            lt == rank_order::<T>(f, ascending),
        decreases n - i,
    {
        let x = input.remove(0);
        assert(x == orig[i as int]);
        assert(input@ =~= orig.subrange(i + 1, n as int));
        let mut p = v.len();
        while p > 0 && x.goes_before(&v[p - 1], f, ascending)
            invariant
                p <= v@.len(),
                forall|k: int| p <= k < v@.len() ==> lt(x, #[trigger] v@[k]),
                lt == rank_order::<T>(f, ascending),
            decreases p,
        {
            p -= 1;
        }
        proof {
            lemma_insert_split(v@, x, lt, p as int);
            assert(orig.subrange(0, i + 1).drop_last() =~= orig.subrange(0, i as int));
            assert(v@.insert(p as int, x) =~= v@.subrange(0, p as int).push(x) + v@.subrange(
                p as int,
                v@.len() as int,
            ));
        }
        v.insert(p, x);
        i += 1;
    }
    assert(orig.subrange(0, n as int) =~= orig);
}

} // verus!
