//! Facts about sequences used by several modules.

use vstd::prelude::*;

verus! {

/// `s` with every occurrence of `x` left out, order kept.
pub open spec fn seq_without<A>(s: Seq<A>, x: A) -> Seq<A> {
    s.filter(|m: A| m != x)
}

pub proof fn lemma_without_push<A>(s: Seq<A>, a: A, x: A)
    ensures
        seq_without(s.push(a), x) == if a == x {
            seq_without(s, x)
        } else {
            seq_without(s, x).push(a)
        },
{
    reveal_with_fuel(Seq::filter, 1);
    assert(s.push(a).drop_last() =~= s);
}

pub proof fn lemma_without_absent<A>(s: Seq<A>, x: A)
    requires
        !s.contains(x),
    ensures
        seq_without(s, x) == s,
    decreases s.len(),
{
    reveal_with_fuel(Seq::filter, 1);
    if s.len() > 0 {
        assert(!s.drop_last().contains(x));
        lemma_without_absent(s.drop_last(), x);
        assert(s.drop_last().push(s.last()) =~= s);
        lemma_without_push(s.drop_last(), s.last(), x);
    } else {
        assert(seq_without(s, x) =~= s);
    }
}

pub proof fn lemma_without_unique<A>(s: Seq<A>, x: A, i: int)
    requires
        s.no_duplicates(),
        0 <= i < s.len(),
        s[i] == x,
    ensures
        seq_without(s, x) == s.remove(i),
    decreases s.len(),
{
    assert(s.drop_last().push(s.last()) =~= s);
    lemma_without_push(s.drop_last(), s.last(), x);
    if i == s.len() - 1 {
        assert(!s.drop_last().contains(x));
        lemma_without_absent(s.drop_last(), x);
        assert(s.remove(i) =~= s.drop_last());
    } else {
        assert(s.drop_last().no_duplicates());
        lemma_without_unique(s.drop_last(), x, i);
        assert(s.remove(i) =~= s.drop_last().remove(i).push(s.last()));
    }
}

proof fn lemma_push_contains<A>(s: Seq<A>, a: A, y: A)
    ensures
        s.push(a).contains(y) <==> (s.contains(y) || a == y),
{
    if s.push(a).contains(y) {
        let i = choose|i: int| 0 <= i < s.push(a).len() && s.push(a)[i] == y;
        if i < s.len() {
            assert(s[i] == y);
        }
    }
    if s.contains(y) {
        let i = choose|i: int| 0 <= i < s.len() && s[i] == y;
        assert(s.push(a)[i] == y);
    }
    if a == y {
        assert(s.push(a)[s.len() as int] == y);
    }
}

/// What is left of `s` without `x`: exactly its other elements.
pub proof fn lemma_without_contains<A>(s: Seq<A>, x: A, y: A)
    ensures
        seq_without(s, x).contains(y) <==> (s.contains(y) && y != x),
    decreases s.len(),
{
    reveal_with_fuel(Seq::filter, 1);
    if s.len() == 0 {
        assert(seq_without(s, x) =~= s);
    } else {
        let t = s.drop_last();
        assert(t.push(s.last()) =~= s);
        lemma_without_push(t, s.last(), x);
        lemma_without_contains(t, x, y);
        lemma_push_contains(t, s.last(), y);
        lemma_push_contains(seq_without(t, x), s.last(), y);
    }
}

} // verus!
