//! Facts about sequences used across the crate.
use vstd::prelude::*;

verus! {

/// What pushing adds to a sequence's elements.
pub proof fn lemma_push_contains<A>(s: Seq<A>, x: A)
    ensures
        forall|a: A| #[trigger] s.push(x).contains(a) <==> (s.contains(a) || a == x),
        s.push(x).to_set() == s.to_set().insert(x),
{
    assert forall|a: A| #[trigger] s.push(x).contains(a) <==> (s.contains(a) || a == x) by {
        if s.push(x).contains(a) {
            let j = choose|j: int| 0 <= j < s.push(x).len() && s.push(x)[j] == a;
            if j < s.len() {
                assert(s[j] == a);
            }
        }
        if s.contains(a) {
            let j = choose|j: int| 0 <= j < s.len() && s[j] == a;
            assert(s.push(x)[j] == a);
        }
        assert(s.push(x)[s.len() as int] == x);
    }
    assert(s.push(x).to_set() =~= s.to_set().insert(x));
}

/// Pushing a new element keeps a sequence free of duplicates.
pub proof fn lemma_push_no_duplicates<A>(s: Seq<A>, x: A)
    requires
        s.no_duplicates(),
        !s.contains(x),
    ensures
        s.push(x).no_duplicates(),
{
    assert forall|i: int, j: int| 0 <= i < s.push(x).len() && 0 <= j < s.push(x).len() && i != j
        implies s.push(x)[i] != s.push(x)[j] by {
        if i == s.len() {
            assert(s[j] != x);
        } else if j == s.len() {
            assert(s[i] != x);
        }
    }
}

/// The first `i + 1` elements are the first `i` and then element `i`.
pub proof fn lemma_take_next<A>(s: Seq<A>, i: int)
    requires
        0 <= i < s.len(),
    ensures
        s.take(i + 1) == s.take(i).push(s[i]),
{
    assert(s.take(i + 1) =~= s.take(i).push(s[i]));
}

/// In a sequence without duplicates, an element does not occur before its position.
pub proof fn lemma_not_before<A>(s: Seq<A>, i: int)
    requires
        s.no_duplicates(),
        0 <= i < s.len(),
    ensures
        !s.take(i).contains(s[i]),
{
    if s.take(i).contains(s[i]) {
        let j = choose|j: int| 0 <= j < i && s.take(i)[j] == s[i];
        assert(s[j] == s[i]);
    }
}

/// `s` with each element kept at its first occurrence only.
pub open spec fn dedup_seq<A>(s: Seq<A>) -> Seq<A>
    decreases s.len(),
{
    if s.len() == 0 {
        s
    } else {
        let d = dedup_seq(s.drop_last());
        if d.contains(s.last()) { d } else { d.push(s.last()) }
    }
}

/// Keeping first occurrences leaves each element once, and every element of `s`.
pub proof fn lemma_dedup_seq<A>(s: Seq<A>)
    ensures
        dedup_seq(s).no_duplicates(),
        forall|a: A| #[trigger] dedup_seq(s).contains(a) <==> s.contains(a),
    decreases s.len(),
{
    if s.len() > 0 {
        let p = s.drop_last();
        lemma_dedup_seq(p);
        let d = dedup_seq(p);
        assert forall|a: A| #[trigger] s.contains(a) <==> (p.contains(a) || a == s.last()) by {
            assert(s =~= p.push(s.last()));
            lemma_push_contains(p, s.last());
        }
        if !d.contains(s.last()) {
            lemma_push_contains(d, s.last());
            lemma_push_no_duplicates(d, s.last());
        }
    }
}

} // verus!
