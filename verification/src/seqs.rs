//! Sequence lemmas shared by the dedup scanner and the page populator,
//! mostly about how `Seq::filter` interacts with prefixes and order.

use vstd::prelude::*;

verus! {

/// Filtering a sequence extended by one element keeps the filtered prefix
/// and appends the new element exactly when the predicate holds of it.
pub proof fn lemma_filter_push<A>(s: Seq<A>, pred: spec_fn(A) -> bool, x: A)
    ensures
        s.push(x).filter(pred) == if pred(x) {
            s.filter(pred).push(x)
        } else {
            s.filter(pred)
        },
{
    reveal(Seq::filter);
    assert(s.push(x).drop_last() =~= s);
    assert(s.push(x).last() == x);
}

/// A filter whose predicate holds of every element changes nothing.
pub proof fn lemma_filter_all_true<A>(s: Seq<A>, pred: spec_fn(A) -> bool)
    requires
        forall|i: int| 0 <= i < s.len() ==> pred(#[trigger] s[i]),
    ensures
        s.filter(pred) == s,
    decreases s.len(),
{
    reveal(Seq::filter);
    if s.len() > 0 {
        lemma_filter_all_true(s.drop_last(), pred);
        assert(s.drop_last().push(s.last()) =~= s);
    }
}

/// An element a filter kept was already in the source sequence.
pub proof fn lemma_filter_element_of<A>(s: Seq<A>, pred: spec_fn(A) -> bool, x: A)
    requires
        s.filter(pred).contains(x),
    ensures
        s.contains(x),
    decreases s.len(),
{
    reveal(Seq::filter);
    let f = s.filter(pred);
    if s.len() > 0 {
        if pred(s.last()) && x == s.last() {
            assert(s[s.len() - 1] == x);
        } else {
            let fd = s.drop_last().filter(pred);
            assert(fd.contains(x)) by {
                let k = choose|k: int| 0 <= k < f.len() && f[k] == x;
                if pred(s.last()) {
                    assert(f == fd.push(s.last()));
                    assert(k < fd.len());
                    assert(fd[k] == x);
                }
            }
            lemma_filter_element_of(s.drop_last(), pred, x);
            let i = choose|i: int| 0 <= i < s.drop_last().len() && s.drop_last()[i] == x;
            assert(s[i] == x);
        }
    }
}

/// Taking a prefix of a concatenation that ends inside the first part
/// reads only the first part.
pub proof fn lemma_take_of_add<A>(a: Seq<A>, b: Seq<A>, m: int)
    requires
        0 <= m <= a.len(),
    ensures
        (a + b).take(m) == a.take(m),
{
    assert((a + b).take(m) =~= a.take(m));
}

/// `xs` appears inside `ys` in order, possibly with other elements of
/// `ys` interleaved between its elements.
pub open spec fn subsequence_of<A>(xs: Seq<A>, ys: Seq<A>) -> bool
    decreases ys.len(),
{
    if xs.len() == 0 {
        true
    } else if ys.len() == 0 {
        false
    } else if xs.last() == ys.last() {
        subsequence_of(xs.drop_last(), ys.drop_last())
    } else {
        subsequence_of(xs, ys.drop_last())
    }
}

/// A sequence with the last element dropped is still a subsequence.
pub proof fn lemma_subsequence_drop_last<A>(xs: Seq<A>, ys: Seq<A>)
    requires
        xs.len() > 0,
        subsequence_of(xs, ys),
    ensures
        subsequence_of(xs.drop_last(), ys),
    decreases ys.len(), 1int,
{
    if xs.last() == ys.last() {
        lemma_subsequence_skip_last(xs.drop_last(), ys);
    } else {
        lemma_subsequence_drop_last(xs, ys.drop_last());
        lemma_subsequence_skip_last(xs.drop_last(), ys);
    }
}

/// A subsequence of a shortened sequence is a subsequence of the whole.
pub proof fn lemma_subsequence_skip_last<A>(xs: Seq<A>, ys: Seq<A>)
    requires
        subsequence_of(xs, ys.drop_last()),
        ys.len() > 0,
    ensures
        subsequence_of(xs, ys),
    decreases ys.len(), 0int,
{
    if xs.len() > 0 && xs.last() == ys.last() {
        lemma_subsequence_drop_last(xs, ys.drop_last());
    }
}

/// What a filter keeps appears in the original sequence, in order.
pub proof fn lemma_filter_subsequence<A>(s: Seq<A>, pred: spec_fn(A) -> bool)
    ensures
        subsequence_of(s.filter(pred), s),
    decreases s.len(),
{
    reveal(Seq::filter);
    if s.len() > 0 {
        lemma_filter_subsequence(s.drop_last(), pred);
        if pred(s.last()) {
            assert(s.filter(pred).last() == s.last());
            assert(s.filter(pred).drop_last() =~= s.drop_last().filter(pred));
        } else {
            lemma_subsequence_skip_last(s.drop_last().filter(pred), s);
        }
    }
}

/// A prefix of a sequence is a subsequence of it.
pub proof fn lemma_take_subsequence<A>(s: Seq<A>, m: int)
    requires
        0 <= m <= s.len(),
    ensures
        subsequence_of(s.take(m), s),
    decreases s.len(),
{
    if m == s.len() {
        lemma_subsequence_refl(s.take(m), s);
    } else if s.len() > 0 {
        lemma_take_subsequence(s.drop_last(), m);
        assert(s.drop_last().take(m) =~= s.take(m));
        lemma_subsequence_skip_last(s.take(m), s);
    }
}

/// Two equal sequences are subsequences of each other.
pub proof fn lemma_subsequence_refl<A>(xs: Seq<A>, ys: Seq<A>)
    requires
        xs =~= ys,
    ensures
        subsequence_of(xs, ys),
    decreases ys.len(),
{
    if xs.len() > 0 {
        lemma_subsequence_refl(xs.drop_last(), ys.drop_last());
    }
}

/// No two elements of the sequence share a key.
pub open spec fn distinct_by<A, K>(s: Seq<A>, key: spec_fn(A) -> K) -> bool {
    forall|i: int, j: int| 0 <= i < j < s.len() ==> key(#[trigger] s[i]) != key(#[trigger] s[j])
}

/// Every element of a subsequence occurs in the underlying sequence.
pub proof fn lemma_subsequence_elements<A>(xs: Seq<A>, ys: Seq<A>, x: A)
    requires
        subsequence_of(xs, ys),
        xs.contains(x),
    ensures
        ys.contains(x),
    decreases ys.len(),
{
    if xs.len() > 0 && ys.len() > 0 {
        if xs.last() == ys.last() {
            if x == xs.last() {
                assert(ys[ys.len() - 1] == x);
            } else {
                let k = choose|k: int| 0 <= k < xs.len() && xs[k] == x;
                assert(xs.drop_last()[k] == x);
                lemma_subsequence_elements(xs.drop_last(), ys.drop_last(), x);
                let i = choose|i: int| 0 <= i < ys.drop_last().len() && ys.drop_last()[i] == x;
                assert(ys[i] == x);
            }
        } else {
            lemma_subsequence_elements(xs, ys.drop_last(), x);
            let i = choose|i: int| 0 <= i < ys.drop_last().len() && ys.drop_last()[i] == x;
            assert(ys[i] == x);
        }
    }
}

/// A subsequence of a sequence with pairwise distinct keys has pairwise
/// distinct keys itself.
pub proof fn lemma_subsequence_distinct_by<A, K>(xs: Seq<A>, ys: Seq<A>, key: spec_fn(A) -> K)
    requires
        subsequence_of(xs, ys),
        distinct_by(ys, key),
    ensures
        distinct_by(xs, key),
    decreases ys.len(),
{
    if xs.len() > 0 && ys.len() > 0 {
        if xs.last() == ys.last() {
            lemma_subsequence_distinct_by(xs.drop_last(), ys.drop_last(), key);
            assert forall|i: int, j: int| 0 <= i < j < xs.len() implies key(#[trigger] xs[i])
                != key(#[trigger] xs[j]) by {
                if j == xs.len() - 1 {
                    assert(xs.drop_last().contains(xs[i])) by {
                        assert(xs.drop_last()[i] == xs[i]);
                    }
                    lemma_subsequence_elements(xs.drop_last(), ys.drop_last(), xs[i]);
                    let m = choose|m: int|
                        0 <= m < ys.drop_last().len() && ys.drop_last()[m] == xs[i];
                    assert(ys[m] == xs[i]);
                    assert(key(ys[m]) != key(ys[ys.len() - 1]));
                } else {
                    assert(key(xs.drop_last()[i]) != key(xs.drop_last()[j]));
                }
            }
        } else {
            lemma_subsequence_distinct_by(xs, ys.drop_last(), key);
        }
    }
}

/// Being a subsequence is transitive.
pub proof fn lemma_subsequence_trans<A>(xs: Seq<A>, ys: Seq<A>, zs: Seq<A>)
    requires
        subsequence_of(xs, ys),
        subsequence_of(ys, zs),
    ensures
        subsequence_of(xs, zs),
    decreases zs.len(), ys.len(),
{
    if xs.len() == 0 {
    } else if ys.len() > 0 && zs.len() > 0 {
        if ys.last() == zs.last() {
            if xs.last() == ys.last() {
                lemma_subsequence_trans(xs.drop_last(), ys.drop_last(), zs.drop_last());
            } else {
                lemma_subsequence_trans(xs, ys.drop_last(), zs.drop_last());
                lemma_subsequence_skip_last(xs, zs);
            }
        } else {
            lemma_subsequence_trans(xs, ys, zs.drop_last());
            lemma_subsequence_skip_last(xs, zs);
        }
    }
}

} // verus!
