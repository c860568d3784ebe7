//! Maps kept as vectors of entries with distinct keys, in key order.
use vstd::prelude::*;
use crate::text::same_text;
use crate::order::{lemma_text_lt_irreflexive, lemma_text_lt_total, lemma_text_lt_transitive, text_less, text_lt};

verus! {

/// A key whose value the maps compare, with a strict total order on those values.
pub trait MapKey: Sized {
    type KeyView;

    spec fn key_view(&self) -> Self::KeyView;

    /// `a` comes before `b`.
    spec fn key_lt(a: Self::KeyView, b: Self::KeyView) -> bool;

    proof fn lemma_key_lt_irreflexive(a: Self::KeyView)
        ensures
            !Self::key_lt(a, a);

    proof fn lemma_key_lt_transitive(a: Self::KeyView, b: Self::KeyView, c: Self::KeyView)
        requires
            Self::key_lt(a, b),
            Self::key_lt(b, c),
        ensures
            Self::key_lt(a, c);

    proof fn lemma_key_lt_total(a: Self::KeyView, b: Self::KeyView)
        requires
            a != b,
        ensures
            Self::key_lt(a, b) || Self::key_lt(b, a);

    fn key_less(&self, other: &Self) -> (b: bool)
        ensures
            b == Self::key_lt(self.key_view(), other.key_view());

    fn same_key(&self, other: &Self) -> (b: bool)
        ensures
            b == (self.key_view() == other.key_view());

    fn copy_key(&self) -> (r: Self)
        ensures
            r.key_view() == self.key_view();
}

impl MapKey for String {
    type KeyView = Seq<char>;

    open spec fn key_view(&self) -> Seq<char> {
        self@
    }

    open spec fn key_lt(a: Seq<char>, b: Seq<char>) -> bool {
        text_lt(a, b)
    }

    proof fn lemma_key_lt_irreflexive(a: Seq<char>) {
        lemma_text_lt_irreflexive(a);
    }

    proof fn lemma_key_lt_transitive(a: Seq<char>, b: Seq<char>, c: Seq<char>) {
        lemma_text_lt_transitive(a, b, c);
    }

    proof fn lemma_key_lt_total(a: Seq<char>, b: Seq<char>) {
        lemma_text_lt_total(a, b);
    }

    fn key_less(&self, other: &Self) -> (b: bool) {
        text_less(self.as_str(), other.as_str())
    }

    fn same_key(&self, other: &Self) -> (b: bool) {
        same_text(self.as_str(), other.as_str())
    }

    fn copy_key(&self) -> (r: Self) {
        self.clone()
    }
}

impl MapKey for u16 {
    type KeyView = u16;

    open spec fn key_view(&self) -> u16 {
        *self
    }

    open spec fn key_lt(a: u16, b: u16) -> bool {
        a < b
    }

    proof fn lemma_key_lt_irreflexive(a: u16) {
    }

    proof fn lemma_key_lt_transitive(a: u16, b: u16, c: u16) {
    }

    proof fn lemma_key_lt_total(a: u16, b: u16) {
    }

    fn key_less(&self, other: &Self) -> (b: bool) {
        *self < *other
    }

    fn same_key(&self, other: &Self) -> (b: bool) {
        *self == *other
    }

    fn copy_key(&self) -> (r: Self) {
        *self
    }
}

/// The keys of a sequence of entries.
pub open spec fn entry_keys<K: MapKey, V>(s: Seq<(K, V)>) -> Seq<K::KeyView> {
    s.map_values(|e: (K, V)| e.0.key_view())
}

/// Each key comes before the keys after it.
pub open spec fn keys_sorted<K: MapKey, V>(s: Seq<(K, V)>) -> bool {
    forall|i: int, j: int| 0 <= i < j < s.len() ==> K::key_lt(#[trigger] s[i].0.key_view(), #[trigger] s[j].0.key_view())
}

/// The map that a sequence of entries with distinct keys stands for.
pub open spec fn entries_map<K: MapKey, V>(s: Seq<(K, V)>) -> Map<K::KeyView, V> {
    Map::new(
        |k: K::KeyView| entry_keys(s).contains(k),
        |k: K::KeyView| s[entry_keys(s).index_of(k)].1,
    )
}

/// Each entry shows up in the map.
pub proof fn lemma_entries_map_at<K: MapKey, V>(s: Seq<(K, V)>, i: int)
    requires
        entry_keys(s).no_duplicates(),
        0 <= i < s.len(),
    ensures
        entries_map(s).dom().contains(s[i].0.key_view()),
        entries_map(s)[s[i].0.key_view()] == s[i].1,
{
    let h = entry_keys(s);
    assert(h[i] == s[i].0.key_view());
    assert(h.contains(h[i]));
    let k = h.index_of(h[i]);
    assert(h[k] == h[i]);
}

/// The map is determined by its entries and by which keys occur.
pub proof fn lemma_entries_map_ext<K: MapKey, V>(s: Seq<(K, V)>, m: Map<K::KeyView, V>)
    requires
        entry_keys(s).no_duplicates(),
        forall|j: int| 0 <= j < s.len() ==> m.dom().contains(#[trigger] s[j].0.key_view()) && m[s[j].0.key_view()] == s[j].1,
        forall|x: K::KeyView| m.dom().contains(x) ==> exists|j: int| 0 <= j < s.len() && #[trigger] s[j].0.key_view() == x,
    ensures
        entries_map(s) == m,
{
    let h = entry_keys(s);
    assert forall|x: K::KeyView| #[trigger] entries_map(s).dom().contains(x) == m.dom().contains(x) by {
        if m.dom().contains(x) {
            let j = choose|j: int| 0 <= j < s.len() && s[j].0.key_view() == x;
            assert(h[j] == x);
        }
        if h.contains(x) {
            let j = choose|j: int| 0 <= j < h.len() && h[j] == x;
            assert(s[j].0.key_view() == x);
        }
    }
    assert forall|x: K::KeyView| entries_map(s).dom().contains(x) implies #[trigger] entries_map(s)[x] == m[x] by {
        let k = h.index_of(x);
        assert(h[k] == x);
    }
    assert(entries_map(s) =~= m);
}

/// Adding an entry with a new key adds it to the map.
pub proof fn lemma_entries_map_push<K: MapKey, V>(s: Seq<(K, V)>, e: (K, V))
    requires
        entry_keys(s.push(e)).no_duplicates(),
    ensures
        entries_map(s.push(e)) == entries_map(s).insert(e.0.key_view(), e.1),
        entry_keys(s).no_duplicates(),
{
    let t = s.push(e);
    assert(entry_keys(t) =~= entry_keys(s).push(e.0.key_view()));
    assert(entry_keys(s).no_duplicates()) by {
        assert forall|i: int, j: int| 0 <= i < entry_keys(s).len() && 0 <= j < entry_keys(s).len() && i != j
            implies entry_keys(s)[i] != entry_keys(s)[j] by {
            assert(entry_keys(t)[i] != entry_keys(t)[j]);
        }
    }
    let m = entries_map(s).insert(e.0.key_view(), e.1);
    assert forall|j: int| 0 <= j < t.len() implies m.dom().contains(#[trigger] t[j].0.key_view())
        && m[t[j].0.key_view()] == t[j].1 by {
        if j < s.len() {
            lemma_entries_map_at(s, j);
            assert(entry_keys(t)[j] != entry_keys(t)[s.len() as int]);
        }
    }
    assert forall|x: K::KeyView| m.dom().contains(x) implies exists|j: int| 0 <= j < t.len()
        && #[trigger] t[j].0.key_view() == x by {
        if x == e.0.key_view() {
            assert(t[s.len() as int].0.key_view() == x);
        } else {
            let j = choose|j: int| 0 <= j < entry_keys(s).len() && entry_keys(s)[j] == x;
            assert(t[j].0.key_view() == x);
        }
    }
    lemma_entries_map_ext(t, m);
}

/// The texts of a map's string values.
pub open spec fn map_texts<K>(m: Map<K, String>) -> Map<K, Seq<char>> {
    m.map_values(|s: String| s@)
}

/// A map from keys to values, its entries kept in key order.
#[derive(Debug)]
pub struct KeyedVec<K: MapKey, V> {
    entries: Vec<(K, V)>,
}

impl<K: MapKey, V> KeyedVec<K, V> {
    #[verifier::type_invariant]
    spec fn keys_unique(self) -> bool {
        entry_keys(self.entries@).no_duplicates() && keys_sorted(self.entries@)
    }

    /// The map held.
    pub closed spec fn map(self) -> Map<K::KeyView, V> {
        entries_map(self.entries@)
    }

    /// The entries, in key order.
    pub closed spec fn seq(self) -> Seq<(K, V)> {
        self.entries@
    }

    /// An empty map.
    pub fn new() -> (m: Self)
        ensures
            m.map() == Map::<K::KeyView, V>::empty(),
            m.seq().len() == 0,
    {
        let m = KeyedVec { entries: Vec::new() };
        assert(m.map() =~= Map::<K::KeyView, V>::empty());
        m
    }

    fn position(&self, k: &K) -> (r: Option<usize>)
        ensures
            r is Some ==> r->0 < self.entries@.len() && self.entries@[r->0 as int].0.key_view() == k.key_view(),
            r is None ==> !entry_keys(self.entries@).contains(k.key_view()),
    {
        let mut i: usize = 0;
        while i < self.entries.len()
            invariant
                i <= self.entries@.len(),
                forall|j: int| 0 <= j < i ==> self.entries@[j].0.key_view() != k.key_view(),
            decreases self.entries@.len() - i,
        {
            if self.entries[i].0.same_key(k) {
                return Some(i);
            }
            i = i + 1;
        }
        proof {
            if entry_keys(self.entries@).contains(k.key_view()) {
                let j = choose|j: int| 0 <= j < entry_keys(self.entries@).len() && entry_keys(self.entries@)[j] == k.key_view();
                assert(self.entries@[j].0.key_view() == k.key_view());
            }
        }
        None
    }

    /// Number of entries.
    pub fn len(&self) -> (n: usize)
        ensures
            n == self.map().dom().len(),
    {
        proof {
            use_type_invariant(self);
            let h = entry_keys(self.entries@);
            assert(self.map().dom() =~= h.to_set());
            h.unique_seq_to_set();
        }
        self.entries.len()
    }

    /// Whether the map is empty.
    pub fn is_empty(&self) -> (b: bool)
        ensures
            b == (self.map().dom().len() == 0),
    {
        self.len() == 0
    }

    /// Whether `k` is a key.
    pub fn contains_key(&self, k: &K) -> (b: bool)
        ensures
            b == self.map().dom().contains(k.key_view()),
    {
        proof { use_type_invariant(self); }
        match self.position(k) {
            Some(i) => {
                proof { lemma_entries_map_at(self.entries@, i as int); }
                true
            },
            None => false,
        }
    }

    /// The value at `k`.
    pub fn get(&self, k: &K) -> (r: Option<&V>)
        ensures
            r is Some <==> self.map().dom().contains(k.key_view()),
            r is Some ==> *r->0 == self.map()[k.key_view()],
    {
        proof { use_type_invariant(self); }
        match self.position(k) {
            Some(i) => {
                proof { lemma_entries_map_at(self.entries@, i as int); }
                Some(&self.entries[i].1)
            },
            None => None,
        }
    }

    /// Where `k` belongs: the first position whose key does not come before `k`, and
    /// whether `k` is the key there.
    fn place(&self, k: &K) -> (r: (usize, bool))
        ensures
            r.0 <= self.entries@.len(),
            forall|j: int| 0 <= j < r.0 ==> K::key_lt(#[trigger] self.entries@[j].0.key_view(), k.key_view()),
            r.0 < self.entries@.len() ==> !K::key_lt(self.entries@[r.0 as int].0.key_view(), k.key_view()),
            r.1 == (r.0 < self.entries@.len() && self.entries@[r.0 as int].0.key_view() == k.key_view()),
    {
        let mut i: usize = 0;
        while i < self.entries.len()
            invariant
                i <= self.entries@.len(),
                forall|j: int| 0 <= j < i ==> K::key_lt(#[trigger] self.entries@[j].0.key_view(), k.key_view()),
            decreases self.entries@.len() - i,
        {
            if !self.entries[i].0.key_less(k) {
                let same = self.entries[i].0.same_key(k);
                return (i, same);
            }
            i = i + 1;
        }
        (i, false)
    }

    /// Sets the value at `k`: an earlier value is replaced in place, a new key goes where
    /// its order puts it, the other entries keeping theirs.
    pub fn insert(&mut self, k: K, v: V)
        ensures
            final(self).map() == old(self).map().insert(k.key_view(), v),
            old(self).map().dom().contains(k.key_view()) ==> exists|i: int| 0 <= i < old(self).seq().len()
                && final(self).seq() == old(self).seq().update(i, (k, v)),
            !old(self).map().dom().contains(k.key_view()) ==> exists|i: int| 0 <= i <= old(self).seq().len()
                && final(self).seq() == old(self).seq().insert(i, (k, v)),
    {
        proof { use_type_invariant(&*self); }
        let ghost old_s = self.entries@;
        let ghost kv = k.key_view();
        let (p, found) = self.place(&k);
        proof {
            if !found {
                assert forall|j: int| 0 <= j < old_s.len() implies old_s[j].0.key_view() != kv by {
                    if j < p {
                        assert(K::key_lt(old_s[j].0.key_view(), kv));
                        K::lemma_key_lt_irreflexive(kv);
                    } else {
                        let kp = old_s[p as int].0.key_view();
                        K::lemma_key_lt_total(kp, kv);
                        if j > p {
                            assert(K::key_lt(kp, old_s[j].0.key_view()));
                            K::lemma_key_lt_transitive(kv, kp, old_s[j].0.key_view());
                        }
                        K::lemma_key_lt_irreflexive(kv);
                    }
                }
                assert(!entry_keys(old_s).contains(kv));
                assert(!old(self).map().dom().contains(kv));
            } else {
                lemma_entries_map_at(old_s, p as int);
            }
        }
        let mut es: Vec<(K, V)> = Vec::new();
        std::mem::swap(&mut es, &mut self.entries);
        if found {
            es.set(p, (k, v));
            proof {
                assert(entry_keys(es@) =~= entry_keys(old_s).update(p as int, kv));
                assert(entry_keys(es@) =~= entry_keys(old_s));
                assert(keys_sorted(es@)) by {
                    assert forall|i: int, j: int| 0 <= i < j < es@.len()
                        implies K::key_lt(#[trigger] es@[i].0.key_view(), #[trigger] es@[j].0.key_view()) by {
                        assert(entry_keys(es@)[i] == entry_keys(old_s)[i]);
                        assert(entry_keys(es@)[j] == entry_keys(old_s)[j]);
                        assert(K::key_lt(old_s[i].0.key_view(), old_s[j].0.key_view()));
                    }
                }
                let m = old(self).map().insert(kv, v);
                let ns = es@;
                assert forall|j: int| 0 <= j < ns.len() implies m.dom().contains(#[trigger] ns[j].0.key_view())
                    && m[ns[j].0.key_view()] == ns[j].1 by {
                    if j != p {
                        lemma_entries_map_at(old_s, j);
                        assert(entry_keys(old_s)[j] != entry_keys(old_s)[p as int]);
                    }
                }
                assert forall|x: K::KeyView| m.dom().contains(x) implies exists|j: int| 0 <= j < ns.len()
                    && #[trigger] ns[j].0.key_view() == x by {
                    if x == kv {
                        assert(ns[p as int].0.key_view() == x);
                    } else {
                        let j = choose|j: int| 0 <= j < entry_keys(old_s).len() && entry_keys(old_s)[j] == x;
                        assert(ns[j] == old_s[j]);
                    }
                }
                lemma_entries_map_ext(ns, m);
                assert(ns == old_s.update(p as int, (k, v)));
            }
        } else {
            es.insert(p, (k, v));
            proof {
                let ns = es@;
                assert(ns == old_s.insert(p as int, (k, v)));
                assert(forall|j: int| 0 <= j < p ==> ns[j] == old_s[j]);
                assert(forall|j: int| p < j < ns.len() ==> ns[j] == old_s[j - 1]);
                assert(ns[p as int] == (k, v));
                assert forall|i: int, j: int| 0 <= i < j < ns.len()
                    implies K::key_lt(#[trigger] ns[i].0.key_view(), #[trigger] ns[j].0.key_view()) by {
                    if j < p {
                        assert(K::key_lt(old_s[i].0.key_view(), old_s[j].0.key_view()));
                    } else if j == p {
                        assert(K::key_lt(old_s[i].0.key_view(), kv));
                    } else if i == p {
                        let kp = old_s[p as int].0.key_view();
                        assert(kp != kv);
                        K::lemma_key_lt_total(kp, kv);
                        assert(K::key_lt(kv, kp));
                        if j - 1 > p {
                            assert(K::key_lt(kp, old_s[j - 1].0.key_view()));
                            K::lemma_key_lt_transitive(kv, kp, old_s[j - 1].0.key_view());
                        }
                    } else if i < p {
                        assert(K::key_lt(old_s[i].0.key_view(), old_s[j - 1].0.key_view()));
                    } else {
                        assert(K::key_lt(old_s[i - 1].0.key_view(), old_s[j - 1].0.key_view()));
                    }
                }
                assert forall|x: int, y: int| 0 <= x < entry_keys(ns).len() && 0 <= y < entry_keys(ns).len()
                    && x != y implies entry_keys(ns)[x] != entry_keys(ns)[y] by {
                    let (a, b) = if x < y { (x, y) } else { (y, x) };
                    assert(K::key_lt(ns[a].0.key_view(), ns[b].0.key_view()));
                    K::lemma_key_lt_irreflexive(ns[a].0.key_view());
                }
                let m = old(self).map().insert(kv, v);
                assert forall|j: int| 0 <= j < ns.len() implies m.dom().contains(#[trigger] ns[j].0.key_view())
                    && m[ns[j].0.key_view()] == ns[j].1 by {
                    if j != p {
                        let oj = if j < p { j } else { j - 1 };
                        assert(ns[j] == old_s[oj]);
                        lemma_entries_map_at(old_s, oj);
                        assert(entry_keys(old_s)[oj] == old_s[oj].0.key_view());
                    }
                }
                assert forall|x: K::KeyView| m.dom().contains(x) implies exists|j: int| 0 <= j < ns.len()
                    && #[trigger] ns[j].0.key_view() == x by {
                    if x == kv {
                        assert(ns[p as int].0.key_view() == x);
                    } else {
                        let oj = choose|oj: int| 0 <= oj < entry_keys(old_s).len() && entry_keys(old_s)[oj] == x;
                        if oj < p {
                            assert(ns[oj] == old_s[oj]);
                        } else {
                            assert(ns[oj + 1] == old_s[oj]);
                        }
                    }
                }
                lemma_entries_map_ext(ns, m);
            }
        }
        let ghost ns = es@;
        self.entries = es;
        proof {
            if found {
                assert(ns == old_s.update(p as int, (k, v)));
                assert(self.seq() == old(self).seq().update(p as int, (k, v)));
            } else {
                assert(ns == old_s.insert(p as int, (k, v)));
                assert(self.seq() == old(self).seq().insert(p as int, (k, v)));
            }
        }
    }

    /// Takes out the value at `k`, if any; the other entries keep their order.
    pub fn remove(&mut self, k: &K) -> (r: Option<V>)
        ensures
            r is Some <==> old(self).map().dom().contains(k.key_view()),
            r is Some ==> r->0 == old(self).map()[k.key_view()],
            final(self).map() == old(self).map().remove(k.key_view()),
    {
        proof { use_type_invariant(&*self); }
        let ghost old_s = self.entries@;
        let ghost kv = k.key_view();
        match self.position(k) {
            None => {
                proof {
                    assert(!old(self).map().dom().contains(kv));
                    assert(old(self).map().remove(kv) =~= old(self).map());
                }
                None
            },
            Some(i) => {
                proof { lemma_entries_map_at(old_s, i as int); }
                let mut es: Vec<(K, V)> = Vec::new();
                std::mem::swap(&mut es, &mut self.entries);
                let e = es.remove(i);
                proof {
                    let ns = es@;
                    let h = entry_keys(old_s);
                    assert(ns =~= old_s.subrange(0, i as int) + old_s.subrange(i + 1, old_s.len() as int));
                    assert(forall|j: int| 0 <= j < i ==> ns[j] == old_s[j]);
                    assert(forall|j: int| i <= j < ns.len() ==> ns[j] == old_s[j + 1]);
                    assert forall|x: int, y: int| 0 <= x < entry_keys(ns).len() && 0 <= y < entry_keys(ns).len()
                        && x != y implies entry_keys(ns)[x] != entry_keys(ns)[y] by {
                        let ox = if x < i { x } else { x + 1 };
                        let oy = if y < i { y } else { y + 1 };
                        assert(entry_keys(ns)[x] == h[ox]);
                        assert(entry_keys(ns)[y] == h[oy]);
                    }
                    let m = old(self).map().remove(kv);
                    assert forall|j: int| 0 <= j < ns.len() implies m.dom().contains(#[trigger] ns[j].0.key_view())
                        && m[ns[j].0.key_view()] == ns[j].1 by {
                        let oj = if j < i { j } else { j + 1 };
                        assert(ns[j] == old_s[oj]);
                        lemma_entries_map_at(old_s, oj);
                        assert(h[oj] != h[i as int]);
                    }
                    assert forall|x: K::KeyView| m.dom().contains(x) implies exists|j: int| 0 <= j < ns.len()
                        && #[trigger] ns[j].0.key_view() == x by {
                        let oj = choose|oj: int| 0 <= oj < h.len() && h[oj] == x;
                        assert(oj != i);
                        if oj < i {
                            assert(ns[oj].0.key_view() == x);
                        } else {
                            assert(ns[oj - 1].0.key_view() == x);
                        }
                    }
                    lemma_entries_map_ext(ns, m);
                }
                self.entries = es;
                Some(e.1)
            },
        }
    }

    /// The entries, in key order.
    pub fn entries(&self) -> (r: &Vec<(K, V)>)
        ensures
            r@ == self.seq(),
            entry_keys(r@).no_duplicates(),
            keys_sorted(r@),
            entries_map(r@) == self.map(),
            r@.len() == self.map().dom().len(),
    {
        proof {
            use_type_invariant(self);
            let h = entry_keys(self.entries@);
            assert(self.map().dom() =~= h.to_set());
            h.unique_seq_to_set();
        }
        &self.entries
    }

    /// Gives up the entries, in key order.
    pub fn into_entries(self) -> (r: Vec<(K, V)>)
        ensures
            r@ == self.seq(),
            entry_keys(r@).no_duplicates(),
            keys_sorted(r@),
            entries_map(r@) == self.map(),
            r@.len() == self.map().dom().len(),
    {
        proof {
            use_type_invariant(&self);
            let h = entry_keys(self.entries@);
            assert(self.map().dom() =~= h.to_set());
            h.unique_seq_to_set();
        }
        self.entries
    }
}

} // verus!
