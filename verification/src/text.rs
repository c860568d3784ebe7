//! Character-level helpers on `String` and `&str`, stated over `Seq<char>`.
use vstd::prelude::*;

verus! {

/// Appends one character to a string (`String::push` of std).
/// Claimed: the new text is the old text followed by `c`.
#[verifier::external_body]
pub fn push_char(s: &mut String, c: char)
    ensures
        final(s)@ == old(s)@.push(c),
{
    s.push(c);
}

/// The characters of `s`, in order.
pub fn chars_of(s: &str) -> (v: Vec<char>)
    ensures
        v@ == s@,
{
    let n = s.unicode_len();
    let mut v: Vec<char> = Vec::new();
    let mut i: usize = 0;
    while i < n
        invariant
            n == s@.len(),
            i <= n,
            v@ == s@.subrange(0, i as int),
        decreases n - i,
    {
        let c = s.get_char(i);
        v.push(c);
        i = i + 1;
        assert(v@ =~= s@.subrange(0, i as int));
    }
    assert(v@ =~= s@);
    v
}

/// A string holding the characters `v[from..to]`.
pub fn string_of_range(v: &Vec<char>, from: usize, to: usize) -> (s: String)
    requires
        from <= to <= v@.len(),
    ensures
        s@ == v@.subrange(from as int, to as int),
{
    let mut s = String::new();
    let mut i: usize = from;
    while i < to
        invariant
            from <= i <= to <= v@.len(),
            s@ == v@.subrange(from as int, i as int),
        decreases to - i,
    {
        push_char(&mut s, v[i]);
        i = i + 1;
        assert(s@ =~= v@.subrange(from as int, i as int));
    }
    s
}

/// A string holding all of `v`.
pub fn string_of_chars(v: &Vec<char>) -> (s: String)
    ensures
        s@ == v@,
{
    let s = string_of_range(v, 0, v.len());
    assert(v@.subrange(0, v@.len() as int) =~= v@);
    s
}

/// A copy of `s` as an owned string.
pub fn owned(s: &str) -> (r: String)
    ensures
        r@ == s@,
{
    let v = chars_of(s);
    string_of_chars(&v)
}

/// `a` followed by `b`.
pub fn concat2(a: &str, b: &str) -> (r: String)
    ensures
        r@ == a@ + b@,
{
    let mut r = owned(a);
    r.append(b);
    r
}

/// `a`, `b`, `c` in a row.
pub fn concat3(a: &str, b: &str, c: &str) -> (r: String)
    ensures
        r@ == a@ + b@ + c@,
{
    let mut r = owned(a);
    r.append(b);
    r.append(c);
    r
}

/// `a`, `b`, `c`, `d` in a row.
pub fn concat4(a: &str, b: &str, c: &str, d: &str) -> (r: String)
    ensures
        r@ == a@ + b@ + c@ + d@,
{
    let mut r = concat3(a, b, c);
    r.append(d);
    r
}

/// `a`, `b`, `c`, `d`, `e` in a row.
pub fn concat5(a: &str, b: &str, c: &str, d: &str, e: &str) -> (r: String)
    ensures
        r@ == a@ + b@ + c@ + d@ + e@,
{
    let mut r = concat4(a, b, c, d);
    r.append(e);
    r
}

/// The texts of a sequence of strings.
pub open spec fn texts(s: Seq<String>) -> Seq<Seq<char>> {
    s.map_values(|x: String| x@)
}

/// `p` is a prefix of `s`.
pub open spec fn has_prefix(s: Seq<char>, p: Seq<char>) -> bool {
    p.len() <= s.len() && s.subrange(0, p.len() as int) == p
}

/// `p` is a suffix of `s`.
pub open spec fn has_suffix(s: Seq<char>, p: Seq<char>) -> bool {
    p.len() <= s.len() && s.subrange(s.len() - p.len(), s.len() as int) == p
}

/// Whether `v[at..]` starts with `p`.
pub fn matches_at(v: &Vec<char>, at: usize, p: &Vec<char>) -> (b: bool)
    requires
        at <= v@.len(),
    ensures
        b == has_prefix(v@.subrange(at as int, v@.len() as int), p@),
{
    if p.len() > v.len() - at {
        return false;
    }
    let mut i: usize = 0;
    while i < p.len()
        invariant
            at + p@.len() <= v@.len(),
            v@.len() == v.len(),
            i <= p@.len(),
            forall|k: int| 0 <= k < i ==> v@[at + k] == p@[k],
        decreases p@.len() - i,
    {
        if v[at + i] != p[i] {
            assert(v@.subrange(at as int, v@.len() as int).subrange(0, p@.len() as int)[i as int]
                != p@[i as int]);
            return false;
        }
        i = i + 1;
    }
    assert(v@.subrange(at as int, v@.len() as int).subrange(0, p@.len() as int) =~= p@);
    true
}

/// `s` with the prefix `p` removed, when `s` starts with `p`.
pub fn strip_prefix(s: &str, p: &str) -> (r: Option<String>)
    ensures
        r is Some <==> has_prefix(s@, p@),
        r is Some ==> r->0@ == s@.subrange(p@.len() as int, s@.len() as int),
{
    let v = chars_of(s);
    let pv = chars_of(p);
    assert(v@.subrange(0, v@.len() as int) =~= v@);
    if matches_at(&v, 0, &pv) {
        Some(string_of_range(&v, pv.len(), v.len()))
    } else {
        None
    }
}

/// `s` with the suffix `p` removed, when `s` ends with `p`.
pub fn strip_suffix(s: &str, p: &str) -> (r: Option<String>)
    ensures
        r is Some <==> has_suffix(s@, p@),
        r is Some ==> r->0@ + p@ == s@,
{
    let v = chars_of(s);
    let pv = chars_of(p);
    if pv.len() > v.len() {
        return None;
    }
    let at = v.len() - pv.len();
    let b = matches_at(&v, at, &pv);
    proof {
        let rest = v@.subrange(at as int, v@.len() as int);
        assert(rest.subrange(0, pv@.len() as int) =~= rest);
    }
    if b {
        let r = string_of_range(&v, 0, at);
        assert(r@ + p@ =~= s@);
        Some(r)
    } else {
        None
    }
}

/// `p` occurs somewhere in `s`.
pub open spec fn contains_text(s: Seq<char>, p: Seq<char>) -> bool {
    exists|i: int| occurs_at(s, i, p)
}

/// Whether `p` occurs in `s`.
pub fn text_contains(s: &str, p: &str) -> (b: bool)
    ensures
        b == contains_text(s@, p@),
{
    let v = chars_of(s);
    let pv = chars_of(p);
    match find_in(&v, &pv) {
        Some(i) => {
            assert(occurs_at(s@, i as int, p@));
            true
        },
        None => false,
    }
}

/// Whether two texts are the same.
pub fn same_text(a: &str, b: &str) -> (r: bool)
    ensures
        r == (a@ == b@),
{
    let av = chars_of(a);
    let bv = chars_of(b);
    if av.len() != bv.len() {
        return false;
    }
    assert(av@.subrange(0, av@.len() as int) =~= av@);
    let r = matches_at(&av, 0, &bv);
    if r {
        assert(av@ =~= bv@);
    }
    r
}

/// `sep` occurs in `s` starting at index `i`.
pub open spec fn occurs_at(s: Seq<char>, i: int, sep: Seq<char>) -> bool {
    0 <= i && i + sep.len() <= s.len() && s.subrange(i, i + sep.len()) == sep
}

/// `i` is the first index at which `sep` occurs in `s`.
pub open spec fn first_occurrence(s: Seq<char>, i: int, sep: Seq<char>) -> bool {
    occurs_at(s, i, sep) && forall|j: int| 0 <= j < i ==> !occurs_at(s, j, sep)
}

/// The index of the first occurrence of `sep` in `s`, if any.
pub open spec fn find_first(s: Seq<char>, sep: Seq<char>) -> Option<int> {
    if exists|i: int| first_occurrence(s, i, sep) {
        Some(choose|i: int| first_occurrence(s, i, sep))
    } else {
        None
    }
}

/// There is at most one first occurrence.
pub proof fn lemma_first_occurrence_unique(s: Seq<char>, i: int, k: int, sep: Seq<char>)
    requires
        first_occurrence(s, i, sep),
        first_occurrence(s, k, sep),
    ensures
        i == k,
{
    if i < k {
        assert(!occurs_at(s, i, sep));
    } else if k < i {
        assert(!occurs_at(s, k, sep));
    }
}

/// The index of the first occurrence of `sep` in `v`.
pub fn find_in(v: &Vec<char>, sep: &Vec<char>) -> (r: Option<usize>)
    ensures
        r is Some ==> find_first(v@, sep@) == Some(r->0 as int),
        r is Some ==> first_occurrence(v@, r->0 as int, sep@),
        r is None ==> find_first(v@, sep@) is None,
        r is None ==> forall|j: int| !occurs_at(v@, j, sep@),
{
    let mut i: usize = 0;
    loop
        invariant
            i <= v@.len(),
            v@.len() == v.len(),
            forall|j: int| 0 <= j < i ==> !occurs_at(v@, j, sep@),
        ensures
            forall|j: int| 0 <= j <= v@.len() ==> !occurs_at(v@, j, sep@),
        decreases v@.len() - i,
    {
        if matches_at(v, i, sep) {
            proof {
                assert(v@.subrange(i as int, v@.len() as int).subrange(0, sep@.len() as int)
                    =~= v@.subrange(i as int, i + sep@.len()));
                assert(first_occurrence(v@, i as int, sep@));
                let k = choose|k: int| first_occurrence(v@, k, sep@);
                lemma_first_occurrence_unique(v@, i as int, k, sep@);
            }
            return Some(i);
        }
        proof {
            if occurs_at(v@, i as int, sep@) {
                assert(v@.subrange(i as int, v@.len() as int).subrange(0, sep@.len() as int)
                    =~= v@.subrange(i as int, i + sep@.len()));
            }
        }
        if i == v.len() {
            break;
        }
        i = i + 1;
    }
    proof {
        assert forall|j: int| !occurs_at(v@, j, sep@) by {
            if j > v@.len() {
                assert(!occurs_at(v@, j, sep@));
            }
        }
    }
    None
}

/// The decimal digit for `d`.
pub open spec fn digit_char(d: nat) -> char {
    if d == 0 { '0' }
    else if d == 1 { '1' }
    else if d == 2 { '2' }
    else if d == 3 { '3' }
    else if d == 4 { '4' }
    else if d == 5 { '5' }
    else if d == 6 { '6' }
    else if d == 7 { '7' }
    else if d == 8 { '8' }
    else { '9' }
}

/// The decimal text of a natural number, most significant digit first, no leading zeros.
pub open spec fn decimal(n: nat) -> Seq<char>
    decreases n,
{
    if n < 10 {
        seq![digit_char(n)]
    } else {
        decimal(n / 10).push(digit_char(n % 10))
    }
}

/// The decimal text of an integer, with a leading `-` when negative.
pub open spec fn int_text(i: int) -> Seq<char> {
    if i < 0 {
        seq!['-'] + decimal((-i) as nat)
    } else {
        decimal(i as nat)
    }
}

fn digit(d: u64) -> (c: char)
    requires
        d < 10,
    ensures
        c == digit_char(d as nat),
{
    if d == 0 { '0' }
    else if d == 1 { '1' }
    else if d == 2 { '2' }
    else if d == 3 { '3' }
    else if d == 4 { '4' }
    else if d == 5 { '5' }
    else if d == 6 { '6' }
    else if d == 7 { '7' }
    else if d == 8 { '8' }
    else { '9' }
}

/// The decimal text of `n`.
pub fn u64_text(n: u64) -> (s: String)
    ensures
        s@ == decimal(n as nat),
{
    // digits collected least significant first
    let mut rev: Vec<char> = Vec::new();
    let mut m: u64 = n;
    while m >= 10
        invariant
            decimal(n as nat) == decimal(m as nat) + rev@.reverse(),
        decreases m,
    {
        let d = m % 10;
        let c = digit(d);
        proof {
            assert(decimal(m as nat) == decimal((m / 10) as nat).push(c));
            assert(rev@.push(c).reverse() =~= seq![c] + rev@.reverse());
            assert(decimal((m / 10) as nat).push(c) + rev@.reverse()
                =~= decimal((m / 10) as nat) + (seq![c] + rev@.reverse()));
        }
        rev.push(c);
        m = m / 10;
    }
    let c = digit(m);
    rev.push(c);
    proof {
        assert(decimal(m as nat) == seq![c]);
        assert(rev@.reverse() =~= seq![c] + rev@.drop_last().reverse());
    }
    let mut s = String::new();
    let mut i: usize = rev.len();
    while i > 0
        invariant
            i <= rev@.len(),
            s@ == rev@.subrange(i as int, rev@.len() as int).reverse(),
        decreases i,
    {
        i = i - 1;
        push_char(&mut s, rev[i]);
        assert(s@ =~= rev@.subrange(i as int, rev@.len() as int).reverse());
    }
    assert(rev@.subrange(0, rev@.len() as int) =~= rev@);
    s
}

/// The decimal text of `i`.
pub fn i64_text(i: i64) -> (s: String)
    ensures
        s@ == int_text(i as int),
{
    if i < 0 {
        let m: u64 = if i == i64::MIN { 9223372036854775808u64 } else { (-i) as u64 };
        let digits = u64_text(m);
        let mut s = String::new();
        push_char(&mut s, '-');
        s.append(digits.as_str());
        assert(s@ =~= seq!['-'] + decimal(m as nat));
        s
    } else {
        u64_text(i as u64)
    }
}

} // verus!
