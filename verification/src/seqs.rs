//! Facts about filtered sequences.
use vstd::prelude::*;

verus! {

/// Filtering an extended sequence extends the filtered sequence or leaves it.
pub proof fn lemma_filter_push<T>(s: Seq<T>, x: T, keep: spec_fn(T) -> bool)
    ensures
        s.push(x).filter(keep) == (if keep(x) {
            s.filter(keep).push(x)
        } else {
            s.filter(keep)
        }),
{
    reveal(Seq::filter);
    assert(s.push(x).drop_last() =~= s);
}

/// Filtering one more element of a sequence.
pub proof fn lemma_filter_take<T>(s: Seq<T>, n: int, keep: spec_fn(T) -> bool)
    requires
        0 <= n < s.len(),
    ensures
        s.take(n + 1).filter(keep) == (if keep(s[n]) {
            s.take(n).filter(keep).push(s[n])
        } else {
            s.take(n).filter(keep)
        }),
{
    assert(s.take(n + 1) =~= s.take(n).push(s[n]));
    lemma_filter_push(s.take(n), s[n], keep);
}

/// What an extended sequence holds.
pub proof fn lemma_push_contains<T>(s: Seq<T>, x: T, y: T)
    ensures
        s.push(x).contains(y) <==> s.contains(y) || x == y,
{
    if s.contains(y) {
        let i = choose|i: int| 0 <= i < s.len() && s[i] == y;
        assert(s.push(x)[i] == y);
    }
    assert(s.push(x)[s.len() as int] == x);
    if s.push(x).contains(y) && x != y {
        let i = choose|i: int| 0 <= i < s.push(x).len() && s.push(x)[i] == y;
        assert(s[i] == y);
    }
}

/// Filtering a sequence with one more element in front.
pub proof fn lemma_filter_prepend<T>(x: T, s: Seq<T>, keep: spec_fn(T) -> bool)
    ensures
        (seq![x] + s).filter(keep) == (if keep(x) {
            seq![x] + s.filter(keep)
        } else {
            s.filter(keep)
        }),
    decreases s.len(),
{
    reveal(Seq::filter);
    let whole = seq![x] + s;
    if s.len() == 0 {
        assert(whole.drop_last() =~= Seq::<T>::empty());
        assert(s.filter(keep) =~= Seq::<T>::empty());
        assert(whole.drop_last().filter(keep) =~= Seq::<T>::empty());
        assert(whole.last() == x);
        assert(whole.filter(keep) =~= (if keep(x) {
            seq![x] + s.filter(keep)
        } else {
            s.filter(keep)
        }));
    } else {
        lemma_filter_prepend(x, s.drop_last(), keep);
        assert(whole.drop_last() =~= seq![x] + s.drop_last());
        assert(whole.last() == s.last());
        assert(whole.filter(keep) =~= (if keep(x) {
            seq![x] + s.filter(keep)
        } else {
            s.filter(keep)
        }));
    }
}

} // verus!
