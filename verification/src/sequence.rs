//! Sequences that are put together piece by piece.
use vstd::prelude::*;

verus! {

/// The pieces that `f` gives for each position and item, one after another.
pub open spec fn gather<A, B>(s: Seq<A>, f: spec_fn(int, A) -> Seq<B>) -> Seq<B>
    decreases s.len(),
{
    if s.len() == 0 {
        Seq::empty()
    } else {
        gather(s.drop_last(), f) + f(s.len() - 1, s.last())
    }
}

/// One more item adds its piece at the end.
pub proof fn lemma_gather_step<A, B>(s: Seq<A>, f: spec_fn(int, A) -> Seq<B>, i: int)
    requires
        0 <= i < s.len(),
    ensures
        gather(s.take(i + 1), f) == gather(s.take(i), f) + f(i, s[i]),
{
    assert(s.take(i + 1).drop_last() =~= s.take(i));
}

/// The pieces of two sequences, where they do not depend on positions, stand one after another.
pub proof fn lemma_gather_concat<A, B>(a: Seq<A>, b: Seq<A>, f: spec_fn(int, A) -> Seq<B>)
    requires
        forall|i: int, j: int, x: A| #[trigger] f(i, x) == #[trigger] f(j, x),
    ensures
        gather(a + b, f) == gather(a, f) + gather(b, f),
    decreases b.len(),
{
    if b.len() == 0 {
        assert(a + b =~= a);
        assert(gather(a, f) + gather(b, f) =~= gather(a, f));
    } else {
        lemma_gather_concat(a, b.drop_last(), f);
        assert((a + b).drop_last() =~= a + b.drop_last());
        assert(f((a + b).len() - 1, b.last()) == f(b.len() - 1, b.last()));
        assert(gather(a, f) + (gather(b.drop_last(), f) + f(b.len() - 1, b.last())) =~= gather(
            a,
            f,
        ) + gather(b.drop_last(), f) + f(b.len() - 1, b.last()));
    }
}

/// What stands in an item's piece stands in the whole.
pub proof fn lemma_gather_contains<A, B>(s: Seq<A>, f: spec_fn(int, A) -> Seq<B>, i: int, k: int)
    requires
        0 <= i < s.len(),
        0 <= k < f(i, s[i]).len(),
    ensures
        gather(s, f).contains(f(i, s[i])[k]),
    decreases s.len(),
{
    let before = gather(s.drop_last(), f);
    let last = f(s.len() - 1, s.last());
    if i == s.len() - 1 {
        assert((before + last)[before.len() + k] == last[k]);
    } else {
        lemma_gather_contains(s.drop_last(), f, i, k);
        let j = choose|j: int| 0 <= j < before.len() && before[j] == f(i, s[i])[k];
        assert((before + last)[j] == before[j]);
    }
}

/// What holds of every item of every piece holds of every item of the whole.
pub proof fn lemma_gather_all<A, B>(
    s: Seq<A>,
    f: spec_fn(int, A) -> Seq<B>,
    p: spec_fn(B) -> bool,
)
    requires
        forall|i: int, k: int|
            0 <= i < s.len() && 0 <= k < f(i, s[i]).len() ==> p(#[trigger] f(i, s[i])[k]),
    ensures
        forall|k: int| 0 <= k < gather(s, f).len() ==> p(#[trigger] gather(s, f)[k]),
    decreases s.len(),
{
    if s.len() > 0 {
        let t = s.drop_last();
        assert forall|i: int, k: int| 0 <= i < t.len() && 0 <= k < f(i, t[i]).len() implies p(
            #[trigger] f(i, t[i])[k],
        ) by {
            assert(t[i] == s[i]);
        }
        lemma_gather_all(t, f, p);
        let before = gather(t, f);
        let last = f(s.len() - 1, s.last());
        assert forall|k: int| 0 <= k < gather(s, f).len() implies p(#[trigger] gather(s, f)[k]) by {
            if k < before.len() {
                assert(gather(s, f)[k] == before[k]);
            } else {
                assert(gather(s, f)[k] == last[k - before.len()]);
                assert(p(f(s.len() - 1, s[s.len() - 1])[k - before.len()]));
            }
        }
    }
}

/// An item's piece, where the item has one.
pub open spec fn piece<B>(item: Option<B>) -> Seq<B> {
    match item {
        Some(item) => seq![item],
        None => Seq::empty(),
    }
}

} // verus!
