//! Small general lemmas about filtered sequences.

use vstd::prelude::*;

verus! {

/// An element of a filtered sequence is an element of the original on which
/// the predicate holds.
pub proof fn lemma_filter_member<A>(s: Seq<A>, pred: spec_fn(A) -> bool, x: A)
    requires
        s.filter(pred).contains(x),
    ensures
        s.contains(x),
        pred(x),
    decreases s.len(),
{
    reveal(Seq::filter);
    if s.len() > 0 {
        if pred(s.last()) && x == s.last() {
            assert(s[s.len() - 1] == x);
        } else {
            let f = s.filter(pred);
            let fd = s.drop_last().filter(pred);
            let i = choose|i: int| 0 <= i < f.len() && f[i] == x;
            assert(fd.contains(x)) by {
                if pred(s.last()) {
                    assert(f == fd.push(s.last()));
                    assert(fd[i] == x);
                } else {
                    assert(f == fd);
                }
            }
            lemma_filter_member(s.drop_last(), pred, x);
            let j = choose|j: int| 0 <= j < s.drop_last().len() && s.drop_last()[j] == x;
            assert(s[j] == x);
        }
    }
}

/// A filtered sequence keeps every pairwise-distinct attribute of its
/// elements, for any attribute type.
pub proof fn lemma_filter_distinct_on<A, B>(
    s: Seq<A>,
    pred: spec_fn(A) -> bool,
    attr: spec_fn(A) -> B,
)
    requires
        forall|i: int, j: int| 0 <= i < j < s.len() ==> attr(s[i]) != attr(s[j]),
    ensures
        forall|i: int, j: int|
            0 <= i < j < s.filter(pred).len() ==> attr(#[trigger] s.filter(pred)[i]) != attr(
                #[trigger] s.filter(pred)[j],
            ),
    decreases s.len(),
{
    reveal(Seq::filter);
    if s.len() > 0 {
        let d = s.drop_last();
        assert(forall|i: int, j: int| 0 <= i < j < d.len() ==> attr(d[i]) != attr(d[j]));
        lemma_filter_distinct_on(d, pred, attr);
        let fd = d.filter(pred);
        if pred(s.last()) {
            assert(s.filter(pred) == fd.push(s.last()));
            assert forall|m: int| 0 <= m < fd.len() implies attr(fd[m]) != attr(s.last()) by {
                assert(fd.contains(fd[m]));
                lemma_filter_member(d, pred, fd[m]);
                let t = choose|t: int| 0 <= t < d.len() && d[t] == fd[m];
                assert(s[t] == fd[m]);
                assert(attr(s[t]) != attr(s[s.len() - 1]));
            }
        }
    }
}

/// Filtering changes nothing when the predicate holds everywhere.
pub proof fn lemma_filter_all_true<A>(s: Seq<A>, pred: spec_fn(A) -> bool)
    requires
        forall|i: int| 0 <= i < s.len() ==> pred(#[trigger] s[i]),
    ensures
        s.filter(pred) == s,
    decreases s.len(),
{
    reveal(Seq::filter);
    if s.len() > 0 {
        let d = s.drop_last();
        assert(forall|i: int| 0 <= i < d.len() ==> pred(#[trigger] d[i]));
        lemma_filter_all_true(d, pred);
        assert(s.filter(pred) =~= s);
    } else {
        assert(s.filter(pred) =~= s);
    }
}

/// Filtering removes exactly one element when the predicate fails at one
/// position and holds at every other.
pub proof fn lemma_filter_removes_one<A>(s: Seq<A>, pred: spec_fn(A) -> bool, k: int)
    requires
        0 <= k < s.len(),
        !pred(s[k]),
        forall|i: int| 0 <= i < s.len() && i != k ==> pred(#[trigger] s[i]),
    ensures
        s.filter(pred) == s.remove(k),
    decreases s.len(),
{
    reveal(Seq::filter);
    let d = s.drop_last();
    if k == s.len() - 1 {
        assert(forall|i: int| 0 <= i < d.len() ==> pred(#[trigger] d[i]));
        lemma_filter_all_true(d, pred);
        assert(s.filter(pred) == d.filter(pred));
        assert(s.remove(k) =~= d);
    } else {
        assert(forall|i: int| 0 <= i < d.len() && i != k ==> pred(#[trigger] d[i]));
        lemma_filter_removes_one(d, pred, k);
        assert(pred(s.last()));
        assert(s.filter(pred) == d.filter(pred).push(s.last()));
        assert(d.remove(k).push(s.last()) =~= s.remove(k));
    }
}

} // verus!
