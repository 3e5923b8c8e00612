//! Membership in, and removal from, lists of ids and accounts.
use vstd::prelude::*;

verus! {

/// The sequence with every occurrence of `x` left out, order kept.
pub open spec fn without<T>(s: Seq<T>, x: T) -> Seq<T>
    decreases s.len(),
{
    if s.len() == 0 {
        s
    } else if s.last() == x {
        without(s.drop_last(), x)
    } else {
        without(s.drop_last(), x).push(s.last())
    }
}

/// What a sequence with one more element at its end contains.
pub proof fn lemma_contains_push<T>(s: Seq<T>, a: T, y: T)
    ensures
        s.push(a).contains(y) <==> (s.contains(y) || a == y),
{
    if s.push(a).contains(y) {
        let i = choose|i: int| 0 <= i < s.push(a).len() && s.push(a)[i] == y;
        if i < s.len() {
            assert(s[i] == y);
        }
    }
    if s.contains(y) {
        let i = choose|i: int| 0 <= i < s.len() && s[i] == y;
        assert(s.push(a)[i] == y);
    }
    if a == y {
        assert(s.push(a)[s.len() as int] == y);
    }
}

/// Nothing left in `without(s, x)` equals `x`, and everything else in `s` stays.
pub proof fn lemma_without<T>(s: Seq<T>, x: T)
    ensures
        !without(s, x).contains(x),
        forall|y: T| y != x ==> (without(s, x).contains(y) <==> s.contains(y)),
        without(s, x).len() <= s.len(),
    decreases s.len(),
{
    if s.len() > 0 {
        let t = s.drop_last();
        lemma_without(t, x);
        assert(s =~= t.push(s.last()));
        assert forall|y: T| y != x implies (without(s, x).contains(y) <==> s.contains(y)) by {
            lemma_contains_push(t, s.last(), y);
            if s.last() != x {
                lemma_contains_push(without(t, x), s.last(), y);
            }
        }
        if s.last() != x {
            lemma_contains_push(without(t, x), s.last(), x);
        }
    }
}

/// Whether `x` occurs in `v`.
pub fn contains_u128(v: &Vec<u128>, x: u128) -> (b: bool)
    ensures
        b == v@.contains(x),
{
    let mut i: usize = 0;
    while i < v.len()
        invariant
            i <= v@.len(),
            forall|j: int| 0 <= j < i ==> v@[j] != x,
        decreases v@.len() - i,
    {
        if v[i] == x {
            return true;
        }
        i = i + 1;
    }
    false
}

/// Whether `x` occurs in `v`.
pub fn contains_u64(v: &Vec<u64>, x: u64) -> (b: bool)
    ensures
        b == v@.contains(x),
{
    let mut i: usize = 0;
    while i < v.len()
        invariant
            i <= v@.len(),
            forall|j: int| 0 <= j < i ==> v@[j] != x,
        decreases v@.len() - i,
    {
        if v[i] == x {
            return true;
        }
        i = i + 1;
    }
    false
}

/// `v` with every occurrence of `x` left out.
pub fn without_u128(v: &Vec<u128>, x: u128) -> (r: Vec<u128>)
    ensures
        r@ == without(v@, x),
{
    let mut r: Vec<u128> = Vec::new();
    let mut i: usize = 0;
    while i < v.len()
        invariant
            i <= v@.len(),
            r@ == without(v@.subrange(0, i as int), x),
        decreases v@.len() - i,
    {
        assert(v@.subrange(0, i + 1).drop_last() =~= v@.subrange(0, i as int));
        if v[i] != x {
            r.push(v[i]);
        }
        i = i + 1;
    }
    assert(v@.subrange(0, v@.len() as int) =~= v@);
    r
}

/// `v` with every occurrence of `x` left out.
pub fn without_u64(v: &Vec<u64>, x: u64) -> (r: Vec<u64>)
    ensures
        r@ == without(v@, x),
{
    let mut r: Vec<u64> = Vec::new();
    let mut i: usize = 0;
    while i < v.len()
        invariant
            i <= v@.len(),
            r@ == without(v@.subrange(0, i as int), x),
        decreases v@.len() - i,
    {
        assert(v@.subrange(0, i + 1).drop_last() =~= v@.subrange(0, i as int));
        if v[i] != x {
            r.push(v[i]);
        }
        i = i + 1;
    }
    assert(v@.subrange(0, v@.len() as int) =~= v@);
    r
}

/// A copy of `v`.
pub fn copy_u128s(v: &Vec<u128>) -> (r: Vec<u128>)
    ensures
        r@ == v@,
{
    let mut r: Vec<u128> = Vec::new();
    let mut i: usize = 0;
    while i < v.len()
        invariant
            i <= v@.len(),
            r@ == v@.subrange(0, i as int),
        decreases v@.len() - i,
    {
        r.push(v[i]);
        i = i + 1;
        assert(r@ =~= v@.subrange(0, i as int));
    }
    assert(r@ =~= v@);
    r
}

/// A copy of `v`.
pub fn copy_u64s(v: &Vec<u64>) -> (r: Vec<u64>)
    ensures
        r@ == v@,
{
    let mut r: Vec<u64> = Vec::new();
    let mut i: usize = 0;
    while i < v.len()
        invariant
            i <= v@.len(),
            r@ == v@.subrange(0, i as int),
        decreases v@.len() - i,
    {
        r.push(v[i]);
        i = i + 1;
        assert(r@ =~= v@.subrange(0, i as int));
    }
    assert(r@ =~= v@);
    r
}


/// The sequence with its first occurrence of `x` left out, order kept; unchanged where
/// `x` does not occur.
pub open spec fn remove_first<T>(s: Seq<T>, x: T) -> Seq<T>
    decreases s.len(),
{
    if s.len() == 0 {
        s
    } else if s[0] == x {
        s.drop_first()
    } else {
        remove_first(s.drop_first(), x).insert(0, s[0])
    }
}

/// Where `k` is the first index holding `x`, removing the first occurrence cuts out `k`.
pub proof fn lemma_remove_first_at<T>(s: Seq<T>, x: T, k: int)
    requires
        0 <= k < s.len(),
        s[k] == x,
        forall|j: int| 0 <= j < k ==> s[j] != x,
    ensures
        remove_first(s, x) == s.take(k) + s.skip(k + 1),
    decreases k,
{
    if k > 0 {
        let t = s.drop_first();
        assert forall|j: int| 0 <= j < k - 1 implies t[j] != x by {
            assert(t[j] == s[j + 1]);
        }
        lemma_remove_first_at(t, x, k - 1);
        assert((t.take(k - 1) + t.skip(k)).insert(0, s[0]) =~= s.take(k) + s.skip(k + 1));
    } else {
        assert(s.drop_first() =~= s.take(0) + s.skip(1));
    }
}

/// Where `x` does not occur, removing its first occurrence changes nothing.
pub proof fn lemma_remove_first_absent<T>(s: Seq<T>, x: T)
    requires
        !s.contains(x),
    ensures
        remove_first(s, x) == s,
    decreases s.len(),
{
    if s.len() > 0 {
        let t = s.drop_first();
        assert(!t.contains(x)) by {
            if t.contains(x) {
                let j = choose|j: int| 0 <= j < t.len() && t[j] == x;
                assert(s[j + 1] == x);
            }
        }
        assert(s[0] != x) by {
            if s[0] == x {
                assert(s.contains(x));
            }
        }
        lemma_remove_first_absent(t, x);
        assert(t.insert(0, s[0]) =~= s);
    }
}

/// `v` with its first occurrence of `x` left out.
pub fn remove_first_u128(v: &Vec<u128>, x: u128) -> (r: Vec<u128>)
    ensures
        r@ == remove_first(v@, x),
{
    let mut r: Vec<u128> = Vec::new();
    let mut found = false;
    let ghost mut k: int = 0;
    let mut i: usize = 0;
    while i < v.len()
        invariant
            i <= v@.len(),
            !found ==> r@ == v@.take(i as int) && forall|j: int| 0 <= j < i ==> v@[j] != x,
            found ==> 0 <= k < i && v@[k] == x && (forall|j: int| 0 <= j < k ==> v@[j] != x)
                && r@ == v@.take(k) + v@.subrange(k + 1, i as int),
        decreases v@.len() - i,
    {
        let amt = v[i];
        if found || amt != x {
            r.push(amt);
            proof {
                if found {
                    assert(v@.take(k) + v@.subrange(k + 1, i + 1) =~= (v@.take(k) + v@.subrange(k + 1, i as int)).push(amt));
                } else {
                    assert(v@.take(i + 1) =~= v@.take(i as int).push(amt));
                }
            }
        } else {
            found = true;
            proof {
                k = i as int;
                assert(v@.take(k) + v@.subrange(k + 1, i + 1) =~= v@.take(k));
            }
        }
        i = i + 1;
    }
    proof {
        if found {
            lemma_remove_first_at(v@, x, k);
            assert(v@.subrange(k + 1, v@.len() as int) =~= v@.skip(k + 1));
        } else {
            assert(!v@.contains(x));
            lemma_remove_first_absent(v@, x);
            assert(v@.take(v@.len() as int) =~= v@);
        }
    }
    r
}

} // verus!
