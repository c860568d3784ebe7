//! The order of texts (character by character, as `str` compares them) and sorting by it.
use vstd::prelude::*;
use vstd::seq_lib::{to_multiset_insert, to_multiset_build, to_multiset_contains};
use crate::text::{same_text, texts};

verus! {

/// `a` comes before `b`, deciding at position `k`: they agree before `k`, and at `k` either
/// `a`'s character is smaller or `a` has ended while `b` goes on.
pub open spec fn lt_at(a: Seq<char>, b: Seq<char>, k: int) -> bool {
    &&& 0 <= k <= a.len()
    &&& k <= b.len()
    &&& a.take(k) == b.take(k)
    &&& ((k < a.len() && k < b.len() && a[k] < b[k]) || (k == a.len() && k < b.len()))
}

/// `a` comes strictly before `b`.
pub open spec fn text_lt(a: Seq<char>, b: Seq<char>) -> bool {
    exists|k: int| lt_at(a, b, k)
}

/// No text comes before itself.
pub proof fn lemma_text_lt_irreflexive(a: Seq<char>)
    ensures
        !text_lt(a, a),
{
}

/// The order is transitive.
pub proof fn lemma_text_lt_transitive(a: Seq<char>, b: Seq<char>, c: Seq<char>)
    requires
        text_lt(a, b),
        text_lt(b, c),
    ensures
        text_lt(a, c),
{
    let k1 = choose|k: int| lt_at(a, b, k);
    let k2 = choose|k: int| lt_at(b, c, k);
    if k1 < k2 {
        assert(b.take(k2)[k1] == b[k1]);
        assert(c.take(k2)[k1] == c[k1]);
        assert(a.take(k1) =~= c.take(k1)) by {
            assert forall|j: int| 0 <= j < k1 implies a.take(k1)[j] == c.take(k1)[j] by {
                assert(a.take(k1)[j] == b.take(k1)[j]);
                assert(b.take(k2)[j] == c.take(k2)[j]);
            }
        }
        assert(lt_at(a, c, k1));
    } else if k2 < k1 {
        assert(a.take(k1)[k2] == a[k2]);
        assert(b.take(k1)[k2] == b[k2]);
        assert(a.take(k2) =~= c.take(k2)) by {
            assert forall|j: int| 0 <= j < k2 implies a.take(k2)[j] == c.take(k2)[j] by {
                assert(a.take(k1)[j] == b.take(k1)[j]);
                assert(b.take(k2)[j] == c.take(k2)[j]);
            }
        }
        assert(lt_at(a, c, k2));
    } else {
        assert(a.take(k1) =~= c.take(k1));
        assert(lt_at(a, c, k1));
    }
}

/// Of two different texts, one comes before the other.
pub proof fn lemma_text_lt_total(a: Seq<char>, b: Seq<char>)
    requires
        a != b,
    ensures
        text_lt(a, b) || text_lt(b, a),
{
    assert(a.take(0) =~= b.take(0));
    lemma_first_difference(a, b, 0);
}

proof fn lemma_first_difference(a: Seq<char>, b: Seq<char>, k: int)
    requires
        a != b,
        0 <= k <= a.len(),
        k <= b.len(),
        a.take(k) == b.take(k),
    ensures
        text_lt(a, b) || text_lt(b, a),
    decreases a.len() - k,
{
    if k == a.len() || k == b.len() {
        if a.len() == b.len() {
            assert(a =~= a.take(k));
            assert(b =~= b.take(k));
        } else if k == a.len() {
            assert(lt_at(a, b, k));
        } else {
            assert(lt_at(b, a, k));
        }
    } else if a[k] != b[k] {
        if a[k] < b[k] {
            assert(lt_at(a, b, k));
        } else {
            assert(b[k] < a[k]);
            assert(lt_at(b, a, k));
        }
    } else {
        assert(a.take(k + 1) =~= a.take(k).push(a[k]));
        assert(b.take(k + 1) =~= b.take(k).push(b[k]));
        lemma_first_difference(a, b, k + 1);
    }
}

/// Whether `a` comes before `b`.
pub fn text_less(a: &str, b: &str) -> (r: bool)
    ensures
        r == text_lt(a@, b@),
{
    let la = a.unicode_len();
    let lb = b.unicode_len();
    let n = if la < lb { la } else { lb };
    let mut k: usize = 0;
    while k < n
        invariant
            k <= n,
            n <= la,
            n <= lb,
            la == a@.len(),
            lb == b@.len(),
            n == la || n == lb,
            a@.take(k as int) == b@.take(k as int),
        decreases n - k,
    {
        let ca = a.get_char(k);
        let cb = b.get_char(k);
        if ca != cb {
            let lt = ca < cb;
            proof {
                if lt {
                    assert(lt_at(a@, b@, k as int));
                } else {
                    assert forall|j: int| !lt_at(a@, b@, j) by {
                        if lt_at(a@, b@, j) {
                            if j < k {
                                assert(a@.take(k as int)[j] == b@.take(k as int)[j]);
                            } else if j > k {
                                assert(a@.take(j)[k as int] == b@.take(j)[k as int]);
                            }
                        }
                    }
                }
            }
            return lt;
        }
        proof {
            assert(a@.take(k + 1) =~= a@.take(k as int).push(a@[k as int]));
            assert(b@.take(k + 1) =~= b@.take(k as int).push(b@[k as int]));
        }
        k = k + 1;
    }
    proof {
        if la < lb {
            assert(lt_at(a@, b@, k as int));
        } else {
            assert forall|j: int| !lt_at(a@, b@, j) by {
                if lt_at(a@, b@, j) {
                    if j < k {
                        assert(a@.take(k as int)[j] == b@.take(k as int)[j]);
                    }
                }
            }
        }
    }
    la < lb
}

/// A value ordered by a text of its own.
pub trait TextKeyed: Sized {
    spec fn text_key(&self) -> Seq<char>;

    fn key_str(&self) -> (r: &str)
        ensures
            r@ == self.text_key();
}

impl TextKeyed for String {
    open spec fn text_key(&self) -> Seq<char> {
        self@
    }

    fn key_str(&self) -> (r: &str) {
        self.as_str()
    }
}

/// No later element comes before an earlier one.
pub open spec fn sorted_by_text<T: TextKeyed>(s: Seq<T>) -> bool {
    forall|i: int, j: int| 0 <= i < j < s.len() ==> !text_lt(#[trigger] s[j].text_key(), #[trigger] s[i].text_key())
}

/// The elements of `v` ordered by their texts.
pub fn sort_by_text<T: TextKeyed>(v: Vec<T>) -> (r: Vec<T>)
    ensures
        sorted_by_text(r@),
        r@.to_multiset() == v@.to_multiset(),
{
    let ghost orig = v@;
    let mut rest = v;
    let mut r: Vec<T> = Vec::new();
    proof {
        assert(rest@ =~= orig.subrange(0, orig.len() as int));
        assert(orig.subrange(0, 0) =~= r@);
    }
    while rest.len() > 0
        invariant
            rest@.len() <= orig.len(),
            rest@ == orig.subrange(orig.len() - rest@.len(), orig.len() as int),
            sorted_by_text(r@),
            r@.to_multiset() == orig.subrange(0, orig.len() - rest@.len()).to_multiset(),
        decreases rest@.len(),
    {
        let ghost done = orig.len() - rest@.len();
        let x = rest.remove(0);
        proof {
            assert(x == orig[done]);
            assert(rest@ =~= orig.subrange(done + 1, orig.len() as int));
        }
        let mut p: usize = 0;
        while p < r.len()
            invariant
                p <= r@.len(),
                forall|k: int| 0 <= k < p ==> !text_lt(x.text_key(), #[trigger] r@[k].text_key()),
            ensures
                p <= r@.len(),
                forall|k: int| 0 <= k < p ==> !text_lt(x.text_key(), #[trigger] r@[k].text_key()),
                p < r@.len() ==> text_lt(x.text_key(), r@[p as int].text_key()),
            decreases r@.len() - p,
        {
            if text_less(x.key_str(), r[p].key_str()) {
                break;
            }
            p = p + 1;
        }
        let ghost before = r@;
        let ghost xk = x.text_key();
        proof {
            if p < before.len() {
                assert(text_lt(xk, before[p as int].text_key()));
            }
        }
        r.insert(p, x);
        proof {
            to_multiset_insert(before, p as int, orig[done]);
            assert(orig.subrange(0, done + 1) =~= orig.subrange(0, done).push(orig[done]));
            to_multiset_build(orig.subrange(0, done), orig[done]);
            assert forall|i: int, j: int| 0 <= i < j < r@.len() implies !text_lt(#[trigger] r@[j].text_key(), #[trigger] r@[i].text_key()) by {
                if j < p {
                    assert(r@[i] == before[i] && r@[j] == before[j]);
                } else if j == p {
                    assert(r@[i] == before[i]);
                } else if i == p {
                    assert(r@[j] == before[j - 1]);
                    if text_lt(before[j - 1].text_key(), xk) {
                        if j - 1 == p {
                            lemma_text_lt_transitive(before[j - 1].text_key(), xk, before[j - 1].text_key());
                            lemma_text_lt_irreflexive(before[j - 1].text_key());
                        } else {
                            lemma_text_lt_transitive(before[j - 1].text_key(), xk, before[p as int].text_key());
                        }
                    }
                } else if i < p {
                    assert(r@[i] == before[i] && r@[j] == before[j - 1]);
                } else {
                    assert(r@[i] == before[i - 1] && r@[j] == before[j - 1]);
                }
            }
        }
    }
    assert(orig.subrange(0, orig.len() as int) =~= orig);
    r
}

/// Each text comes strictly before the next ones.
pub open spec fn strictly_sorted(s: Seq<Seq<char>>) -> bool {
    forall|i: int, j: int| 0 <= i < j < s.len() ==> text_lt(#[trigger] s[i], #[trigger] s[j])
}

/// Texts neither of which comes before the other are the same.
pub proof fn lemma_text_lt_antisymmetric(a: Seq<char>, b: Seq<char>)
    requires
        !text_lt(a, b),
        !text_lt(b, a),
    ensures
        a == b,
{
    if a != b {
        lemma_text_lt_total(a, b);
    }
}

/// The distinct texts of `names`, in order.
pub fn sorted_unique_texts(names: Vec<String>) -> (r: Vec<String>)
    ensures
        strictly_sorted(texts(r@)),
        forall|t: Seq<char>| texts(r@).contains(t) <==> texts(names@).contains(t),
{
    let ghost orig = names@;
    let sorted = sort_by_text(names);
    let ghost ss = sorted@;
    proof {
        assert forall|t: Seq<char>| texts(ss).contains(t) <==> texts(orig).contains(t) by {
            if texts(ss).contains(t) {
                let i = choose|i: int| 0 <= i < texts(ss).len() && texts(ss)[i] == t;
                to_multiset_contains(ss, ss[i]);
                to_multiset_contains(orig, ss[i]);
                assert(ss.contains(ss[i]));
                let j = choose|j: int| 0 <= j < orig.len() && orig[j] == ss[i];
                assert(texts(orig)[j] == t);
            }
            if texts(orig).contains(t) {
                let i = choose|i: int| 0 <= i < texts(orig).len() && texts(orig)[i] == t;
                to_multiset_contains(orig, orig[i]);
                to_multiset_contains(ss, orig[i]);
                assert(orig.contains(orig[i]));
                let j = choose|j: int| 0 <= j < ss.len() && ss[j] == orig[i];
                assert(texts(ss)[j] == t);
            }
        }
    }
    let mut r: Vec<String> = Vec::new();
    let mut i: usize = 0;
    while i < sorted.len()
        invariant
            i <= ss.len(),
            sorted@ == ss,
            sorted_by_text(ss),
            strictly_sorted(texts(r@)),
            forall|t: Seq<char>| texts(r@).contains(t) <==> texts(ss.take(i as int)).contains(t),
            i > 0 ==> r@.len() > 0 && r@.last()@ == ss[i - 1]@,
            i == 0 ==> r@.len() == 0,
        decreases ss.len() - i,
    {
        let ghost before = r@;
        let x = &sorted[i];
        let fresh = r.len() == 0 || !same_text(r[r.len() - 1].as_str(), x.as_str());
        proof {
            let t = ss.take(i + 1);
            assert(t =~= ss.take(i as int).push(ss[i as int]));
            assert(texts(t) =~= texts(ss.take(i as int)).push(ss[i as int]@));
            crate::seqs::lemma_push_contains(texts(ss.take(i as int)), ss[i as int]@);
        }
        if fresh {
            r.push(x.clone());
            proof {
                assert(texts(r@) =~= texts(before).push(ss[i as int]@));
                crate::seqs::lemma_push_contains(texts(before), ss[i as int]@);
                if before.len() > 0 {
                    let last = before.last()@;
                    assert(!text_lt(ss[i as int].text_key(), ss[i - 1].text_key()));
                    assert(last != ss[i as int]@);
                    lemma_text_lt_total(last, ss[i as int]@);
                    assert(text_lt(last, ss[i as int]@));
                    assert forall|a: int, b: int| 0 <= a < b < texts(r@).len()
                        implies text_lt(#[trigger] texts(r@)[a], #[trigger] texts(r@)[b]) by {
                        if b == before.len() && a < before.len() - 1 {
                            assert(text_lt(texts(before)[a], texts(before)[before.len() - 1]));
                            lemma_text_lt_transitive(texts(before)[a], last, ss[i as int]@);
                        } else if b < before.len() {
                            assert(texts(r@)[a] == texts(before)[a] && texts(r@)[b] == texts(before)[b]);
                        }
                    }
                } else {
                    assert(texts(r@).len() == 1);
                }
            }
        } else {
            proof {
                assert(texts(before).contains(ss[i as int]@)) by {
                    assert(texts(before)[before.len() - 1] == ss[i as int]@);
                }
            }
        }
        i = i + 1;
    }
    assert(ss.take(ss.len() as int) =~= ss);
    r
}

} // verus!
