//! Sums over a sequence, and the facts about them that the hand and the
//! shoe rest on: a sum does not depend on the order of its terms.
use vstd::prelude::*;

verus! {

/// The sum of `f` over the items of `s`.
pub open spec fn tally<T>(s: Seq<T>, f: spec_fn(T) -> int) -> int
    decreases s.len(),
{
    if s.len() == 0 {
        0
    } else {
        tally(s.drop_last(), f) + f(s.last())
    }
}

/// `n` copies of one item.
pub open spec fn run<T>(item: T, n: nat) -> Seq<T> {
    Seq::new(n, |i: int| item)
}

/// One more item adds its term.
pub proof fn lemma_tally_push<T>(s: Seq<T>, x: T, f: spec_fn(T) -> int)
    ensures
        tally(s.push(x), f) == tally(s, f) + f(x),
{
    assert(s.push(x).drop_last() =~= s);
}

/// The sum over two sequences laid end to end is the sum of their sums.
pub proof fn lemma_tally_concat<T>(a: Seq<T>, b: Seq<T>, f: spec_fn(T) -> int)
    ensures
        tally(a + b, f) == tally(a, f) + tally(b, f),
    decreases b.len(),
{
    if b.len() == 0 {
        assert(a + b =~= a);
    } else {
        assert((a + b).drop_last() =~= a + b.drop_last());
        lemma_tally_concat(a, b.drop_last(), f);
    }
}

/// Taking one item out takes its term out.
pub proof fn lemma_tally_remove<T>(s: Seq<T>, i: int, f: spec_fn(T) -> int)
    requires
        0 <= i < s.len(),
    ensures
        tally(s, f) == tally(s.remove(i), f) + f(s[i]),
    decreases s.len(),
{
    if i == s.len() - 1 {
        assert(s.remove(i) =~= s.drop_last());
    } else {
        assert(s.remove(i).drop_last() =~= s.drop_last().remove(i));
        lemma_tally_remove(s.drop_last(), i, f);
    }
}

/// Two sequences that hold the same items, each as often, have the same sum.
pub proof fn lemma_tally_permutation<T>(a: Seq<T>, b: Seq<T>, f: spec_fn(T) -> int)
    requires
        a.to_multiset() == b.to_multiset(),
    ensures
        tally(a, f) == tally(b, f),
    decreases a.len(),
{
    broadcast use vstd::seq_lib::group_to_multiset_ensures;

    assert(a.to_multiset().len() == a.len());
    assert(b.to_multiset().len() == b.len());
    if a.len() == 0 {
    } else {
        let x = a.last();
        assert(a.contains(x));
        assert(b.to_multiset().count(x) > 0);
        assert(b.contains(x));
        let i = b.index_of(x);
        assert(a.drop_last() =~= a.remove(a.len() - 1));
        assert(a.drop_last().to_multiset() == b.remove(i).to_multiset());
        lemma_tally_permutation(a.drop_last(), b.remove(i), f);
        lemma_tally_remove(b, i, f);
    }
}

/// Where every term lies between `lo` and `hi`, the sum lies between
/// `lo` and `hi` times the number of terms.
pub proof fn lemma_tally_bounds<T>(s: Seq<T>, f: spec_fn(T) -> int, lo: int, hi: int)
    requires
        forall|x: T| lo <= #[trigger] f(x) <= hi,
    ensures
        lo * s.len() <= tally(s, f) <= hi * s.len(),
    decreases s.len(),
{
    if s.len() > 0 {
        lemma_tally_bounds(s.drop_last(), f, lo, hi);
        assert(lo * s.len() == lo * (s.len() - 1) + lo) by (nonlinear_arith);
        assert(hi * s.len() == hi * (s.len() - 1) + hi) by (nonlinear_arith);
    }
}

/// Where no term of `f` exceeds the term of `g`, neither does the sum.
pub proof fn lemma_tally_monotone<T>(s: Seq<T>, f: spec_fn(T) -> int, g: spec_fn(T) -> int)
    requires
        forall|x: T| #[trigger] f(x) <= g(x),
    ensures
        tally(s, f) <= tally(s, g),
    decreases s.len(),
{
    if s.len() > 0 {
        lemma_tally_monotone(s.drop_last(), f, g);
    }
}

/// Where each term of `f` is the term of `g` plus the term of `h`, the
/// sum of `f` is the sum of `g` plus the sum of `h`.
pub proof fn lemma_tally_split<T>(
    s: Seq<T>,
    f: spec_fn(T) -> int,
    g: spec_fn(T) -> int,
    h: spec_fn(T) -> int,
)
    requires
        forall|x: T| #[trigger] f(x) == g(x) + h(x),
    ensures
        tally(s, f) == tally(s, g) + tally(s, h),
    decreases s.len(),
{
    if s.len() > 0 {
        lemma_tally_split(s.drop_last(), f, g, h);
    }
}

/// One for `item`, nothing for anything else: the term that counts it.
pub open spec fn marks<T>(item: T) -> spec_fn(T) -> int {
    |x: T|
        if x == item {
            1int
        } else {
            0int
        }
}

/// How often an item occurs in a sequence is the sum of its marks.
pub proof fn lemma_count_is_tally<T>(s: Seq<T>, item: T)
    ensures
        s.to_multiset().count(item) == tally(s, marks(item)),
    decreases s.len(),
{
    broadcast use vstd::seq_lib::group_to_multiset_ensures;

    if s.len() == 0 {
        assert(s.to_multiset().len() == s.len());
    } else {
        assert(s =~= s.drop_last().push(s.last()));
        lemma_count_is_tally(s.drop_last(), item);
        assert(s.to_multiset() =~= s.drop_last().to_multiset().insert(s.last()));
    }
}

/// Two sequences in which every item occurs as often hold the same
/// items: they differ in order at most.
pub proof fn lemma_same_counts<T>(a: Seq<T>, b: Seq<T>)
    requires
        forall|item: T| tally(a, #[trigger] marks(item)) == tally(b, marks(item)),
    ensures
        a.to_multiset() == b.to_multiset(),
{
    assert forall|item: T| a.to_multiset().count(item) == b.to_multiset().count(item) by {
        lemma_count_is_tally(a, item);
        lemma_count_is_tally(b, item);
        assert(tally(a, marks(item)) == tally(b, marks(item)));
    }
    assert(a.to_multiset() =~= b.to_multiset());
}

/// The sum over `n` copies of one item is `n` times its term.
pub proof fn lemma_tally_run<T>(item: T, n: nat, f: spec_fn(T) -> int)
    ensures
        tally(run(item, n), f) == n * f(item),
    decreases n,
{
    if n > 0 {
        assert(run(item, n).drop_last() =~= run(item, (n - 1) as nat));
        assert(run(item, n).last() == item);
        lemma_tally_run(item, (n - 1) as nat, f);
        assert(n * f(item) == (n - 1) * f(item) + f(item)) by (nonlinear_arith);
    } else {
        assert(n * f(item) == 0) by (nonlinear_arith)
            requires
                n == 0,
        ;
    }
}

} // verus!
