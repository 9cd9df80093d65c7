//! Sorted vectors of numbers and identifiers.
use vstd::prelude::*;
use crate::ieee::Real64;

verus! {

/// Whether numbers stand in the total order of their bit patterns.
pub open spec fn in_total_order(s: Seq<Real64>) -> bool {
    forall|i: int, j: int| 0 <= i < j < s.len() ==> (#[trigger] s[i]).total_key() <= (#[trigger] s[j]).total_key()
}

/// Whether `sorted` holds what `s` holds, in the total order of bit patterns.
pub open spec fn is_sorting_of(sorted: Seq<Real64>, s: Seq<Real64>) -> bool {
    in_total_order(sorted) && sorted.to_multiset() == s.to_multiset()
}

/// Sorts numbers by the total order of their bit patterns.
pub fn sort_numbers(numbers: &[Real64]) -> (r: Vec<Real64>)
    ensures
        is_sorting_of(r@, numbers@),
        r@.len() == numbers@.len(),
{
    let mut out: Vec<Real64> = Vec::new();
    let n: usize = numbers.len();
    let mut i: usize = 0;
    assert(numbers@.take(0) =~= out@);
    while i < n
        invariant
            i <= n,
            n == numbers@.len(),
            out@.len() == i,
            is_sorting_of(out@, numbers@.take(i as int)),
        decreases n - i,
    {
        let x: Real64 = numbers[i];
        let mut pos: usize = i;
        while pos > 0 && x.total_less(out[pos - 1])
            invariant
                pos <= i,
                out@.len() == i,
                in_total_order(out@),
                forall|k: int| pos <= k < i ==> x.total_key() < (#[trigger] out@[k]).total_key(),
            decreases pos,
        {
            pos = pos - 1;
        }
        let ghost before = out@;
        proof {
            vstd::seq_lib::to_multiset_insert(before, pos as int, x);
            vstd::seq_lib::to_multiset_build(numbers@.take(i as int), x);
            assert(numbers@.take(i + 1) =~= numbers@.take(i as int).push(x));
        }
        out.insert(pos, x);
        assert forall|a: int, b: int| 0 <= a < b < out@.len() implies (#[trigger] out@[a]).total_key() <= (
        #[trigger] out@[b]).total_key() by {
            if pos > 0 {
                let left = before[pos - 1];
                if a < pos {
                    assert(before[a].total_key() <= left.total_key() || a == pos - 1);
                }
            }
            if a < pos && b < pos {
                assert(before[a].total_key() <= before[b].total_key());
            } else if a < pos && b > pos {
                assert(before[a].total_key() <= before[b - 1].total_key());
            } else if a > pos {
                assert(before[a - 1].total_key() <= before[b - 1].total_key());
            }
        }
        i = i + 1;
    }
    assert(numbers@.take(n as int) =~= numbers@);
    out
}

/// Two sortings of the same numbers are the same sequence.
pub proof fn law_sorting_is_unique(a: Seq<Real64>, b: Seq<Real64>, s: Seq<Real64>)
    requires
        is_sorting_of(a, s),
        is_sorting_of(b, s),
    ensures
        a == b,
{
    let leq = |x: Real64, y: Real64| x.total_key() <= y.total_key();
    assert(vstd::relations::sorted_by(a, leq));
    assert(vstd::relations::sorted_by(b, leq));
    assert(vstd::relations::total_ordering(leq));
    vstd::seq_lib::lemma_sorted_unique(a, b, leq);
}

/// Something with an identifier.
pub trait Identified: Sized {
    spec fn id_of(self) -> u64;

    fn id(&self) -> (r: u64)
        ensures
            r == self.id_of(),
    ;
}

impl Identified for u64 {
    open spec fn id_of(self) -> u64 {
        self
    }

    fn id(&self) -> (r: u64) {
        *self
    }
}

/// Whether items stand in ascending order of their identifiers.
pub open spec fn by_id<T: Identified>(s: Seq<T>) -> bool {
    forall|i: int, j: int| 0 <= i < j < s.len() ==> (#[trigger] s[i]).id_of() <= (#[trigger] s[j]).id_of()
}

/// Whether no two items have the same identifier.
pub open spec fn distinct_ids<T: Identified>(s: Seq<T>) -> bool {
    forall|i: int, j: int| 0 <= i < j < s.len() ==> (#[trigger] s[i]).id_of() != (#[trigger] s[j]).id_of()
}

/// Whether `sorted` holds what `s` holds, in ascending order of the identifiers.
pub open spec fn is_id_sorting_of<T: Identified>(sorted: Seq<T>, s: Seq<T>) -> bool {
    by_id(sorted) && sorted.to_multiset() == s.to_multiset()
}

/// Sorts items by their identifiers.
pub fn sort_by_id<T: Identified + Copy>(items: &[T]) -> (r: Vec<T>)
    ensures
        is_id_sorting_of(r@, items@),
        r@.len() == items@.len(),
{
    let mut out: Vec<T> = Vec::new();
    let n: usize = items.len();
    let mut i: usize = 0;
    assert(items@.take(0) =~= out@);
    while i < n
        invariant
            i <= n,
            n == items@.len(),
            out@.len() == i,
            is_id_sorting_of(out@, items@.take(i as int)),
        decreases n - i,
    {
        let x: T = items[i];
        let id: u64 = x.id();
        let mut pos: usize = i;
        while pos > 0 && id < out[pos - 1].id()
            invariant
                pos <= i,
                out@.len() == i,
                id == x.id_of(),
                by_id(out@),
                forall|k: int| pos <= k < i ==> id < (#[trigger] out@[k]).id_of(),
            decreases pos,
        {
            pos = pos - 1;
        }
        let ghost before = out@;
        proof {
            vstd::seq_lib::to_multiset_insert(before, pos as int, x);
            vstd::seq_lib::to_multiset_build(items@.take(i as int), x);
            assert(items@.take(i + 1) =~= items@.take(i as int).push(x));
        }
        out.insert(pos, x);
        assert forall|a: int, b: int| 0 <= a < b < out@.len() implies (#[trigger] out@[a]).id_of() <= (
        #[trigger] out@[b]).id_of() by {
            if pos > 0 {
                let left = before[pos - 1];
                if a < pos {
                    assert(before[a].id_of() <= left.id_of() || a == pos - 1);
                }
            }
            if a < pos && b < pos {
                assert(before[a].id_of() <= before[b].id_of());
            } else if a < pos && b > pos {
                assert(before[a].id_of() <= before[b - 1].id_of());
            } else if a > pos {
                assert(before[a - 1].id_of() <= before[b - 1].id_of());
            }
        }
        i = i + 1;
    }
    assert(items@.take(n as int) =~= items@);
    out
}

/// Where no two items have the same identifier, their sorting is unique.
pub proof fn law_id_sorting_is_unique<T: Identified>(a: Seq<T>, b: Seq<T>, s: Seq<T>)
    requires
        is_id_sorting_of(a, s),
        is_id_sorting_of(b, s),
        distinct_ids(a),
    ensures
        a == b,
    decreases a.len(),
{
    broadcast use vstd::seq_lib::group_to_multiset_ensures;

    assert(a.len() == a.to_multiset().len());
    assert(b.len() == b.to_multiset().len());
    if a.len() > 0 {
        let x = a.last();
        let y = b.last();
        assert(a.contains(x));
        assert(b.contains(y));
        assert(b.to_multiset().count(x) > 0);
        assert(a.to_multiset().count(y) > 0);
        let i = choose|i: int| 0 <= i < a.len() && a[i] == y;
        let j = choose|j: int| 0 <= j < b.len() && b[j] == x;
        assert(y.id_of() <= x.id_of());
        assert(x.id_of() <= y.id_of());
        assert(i == a.len() - 1);
        assert(a.drop_last().push(x) =~= a);
        assert(b.drop_last().push(x) =~= b);
        vstd::seq_lib::to_multiset_build(a.drop_last(), x);
        vstd::seq_lib::to_multiset_build(b.drop_last(), x);
        assert(a.drop_last().to_multiset() =~= a.to_multiset().remove(x));
        assert(b.drop_last().to_multiset() =~= b.to_multiset().remove(x));
        law_id_sorting_is_unique(a.drop_last(), b.drop_last(), a.drop_last());
    } else {
        assert(a =~= b);
    }
}

/// Sorted numbers ascend as numbers, and none is lost or added.
pub proof fn law_sorted_numbers_ascend(numbers: &[Real64], r: Vec<Real64>, i: int, j: int)
    requires
        call_ensures(sort_numbers, (numbers,), r),
        0 <= i < j < r@.len(),
        !r@[i].nan(),
        !r@[j].nan(),
    ensures
        r@[i].le(r@[j]),
        r@.to_multiset() == numbers@.to_multiset(),
{
    assert(r@[i].total_key() <= r@[j].total_key());
    r@[i].lemma_key_orders_values(r@[j]);
}

} // verus!
