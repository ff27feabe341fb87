//! First-match lookup over sequences, shared by every keyed table of the
//! engine: the store's account, note and transaction tables and an account's
//! asset vault.
use vstd::prelude::*;

verus! {

/// Index of the first element satisfying `p`, or -1 if none does.
pub open spec fn find_idx<T>(s: Seq<T>, p: spec_fn(T) -> bool) -> int
    decreases s.len(),
{
    if s.len() == 0 {
        -1
    } else if p(s.first()) {
        0
    } else {
        let r = find_idx(s.skip(1), p);
        if r < 0 {
            -1
        } else {
            r + 1
        }
    }
}

/// The first element satisfying `p`, if any.
pub open spec fn find_first<T>(s: Seq<T>, p: spec_fn(T) -> bool) -> Option<T> {
    if find_idx(s, p) >= 0 {
        Some(s[find_idx(s, p)])
    } else {
        None
    }
}

/// No two elements share a key.
pub open spec fn unique_by<T, K>(s: Seq<T>, key: spec_fn(T) -> K) -> bool {
    forall|i: int, j: int| 0 <= i < j < s.len() ==> key(#[trigger] s[i]) != key(#[trigger] s[j])
}

/// Characterization of `find_idx`: it is in range, it points at a match, and
/// nothing before it matches; -1 means nothing matches at all.
pub proof fn lemma_find_idx<T>(s: Seq<T>, p: spec_fn(T) -> bool)
    ensures
        -1 <= find_idx(s, p) < s.len(),
        find_idx(s, p) >= 0 ==> p(s[find_idx(s, p)]),
        forall|k: int| 0 <= k < find_idx(s, p) ==> !p(#[trigger] s[k]),
        find_idx(s, p) == -1 ==> forall|k: int| 0 <= k < s.len() ==> !p(#[trigger] s[k]),
    decreases s.len(),
{
    if s.len() == 0 {
    } else if p(s.first()) {
    } else {
        lemma_find_idx(s.skip(1), p);
        let r = find_idx(s.skip(1), p);
        assert forall|k: int| 0 <= k < find_idx(s, p) implies !p(#[trigger] s[k]) by {
            if k > 0 {
                assert(s[k] == s.skip(1)[k - 1]);
            }
        }
        if find_idx(s, p) == -1 {
            assert forall|k: int| 0 <= k < s.len() implies !p(#[trigger] s[k]) by {
                if k > 0 {
                    assert(s[k] == s.skip(1)[k - 1]);
                }
            }
        } else {
            assert(s[find_idx(s, p)] == s.skip(1)[r]);
        }
    }
}

/// A sequence with an element updated in place keeps its first match at the
/// same spot when the update neither adds an earlier match nor removes the
/// match at that spot.
pub proof fn lemma_find_idx_update<T>(s: Seq<T>, p: spec_fn(T) -> bool, i: int, x: T)
    requires
        0 <= i < s.len(),
        find_idx(s, p) == i,
        p(x),
    ensures
        find_idx(s.update(i, x), p) == i,
        find_first(s.update(i, x), p) == Some(x),
{
    lemma_find_idx(s, p);
    let s2 = s.update(i, x);
    lemma_find_idx(s2, p);
    let j = find_idx(s2, p);
    assert(p(s2[i]));
    if j == -1 {
        assert(!p(s2[i]));
        assert(false);
    }
    if j < i {
        assert(s2[j] == s[j]);
        assert(!p(s[j]));
        assert(false);
    }
    if j > i {
        assert(!p(s2[i]));
        assert(false);
    }
}

/// Appending an element to a sequence with no match makes it the first match.
pub proof fn lemma_find_idx_push<T>(s: Seq<T>, p: spec_fn(T) -> bool, x: T)
    requires
        find_idx(s, p) == -1,
        p(x),
    ensures
        find_idx(s.push(x), p) == s.len(),
        find_first(s.push(x), p) == Some(x),
    decreases s.len(),
{
    lemma_find_idx(s, p);
    let s2 = s.push(x);
    lemma_find_idx(s2, p);
    let j = find_idx(s2, p);
    assert(p(s2[s.len() as int]));
    if j == -1 {
        assert(!p(s2[s.len() as int]));
        assert(false);
    }
    if j < s.len() {
        assert(s2[j] == s[j]);
        assert(!p(s[j]));
        assert(false);
    }
}

/// Appending an element that does not satisfy the predicate moves no first
/// match.
pub proof fn lemma_find_idx_push_other<T>(s: Seq<T>, p: spec_fn(T) -> bool, x: T)
    requires
        !p(x),
    ensures
        find_idx(s.push(x), p) == find_idx(s, p),
    decreases s.len(),
{
    lemma_find_idx(s, p);
    let s2 = s.push(x);
    lemma_find_idx(s2, p);
    let i = find_idx(s, p);
    let j = find_idx(s2, p);
    if i == -1 {
        if j >= 0 {
            if j < s.len() {
                assert(s2[j] == s[j]);
                assert(!p(s[j]));
            } else {
                assert(s2[j] == x);
            }
            assert(false);
        }
    } else {
        assert(p(s2[i]) && s2[i] == s[i]);
        if j == -1 {
            assert(!p(s2[i]));
            assert(false);
        }
        if j < i {
            assert(s2[j] == s[j]);
            assert(!p(s[j]));
            assert(false);
        }
        if j > i {
            assert(!p(s2[i]));
            assert(false);
        }
    }
}

/// Updating one element does not move or change the first match under a
/// predicate that holds of neither the old nor the new element at that spot.
pub proof fn lemma_find_idx_update_other<T>(s: Seq<T>, p: spec_fn(T) -> bool, i: int, x: T)
    requires
        0 <= i < s.len(),
        !p(s[i]),
        !p(x),
    ensures
        find_idx(s.update(i, x), p) == find_idx(s, p),
{
    lemma_find_idx(s, p);
    let s2 = s.update(i, x);
    lemma_find_idx(s2, p);
    let a = find_idx(s, p);
    let b = find_idx(s2, p);
    if a == b {
    } else if a == -1 {
        assert(p(s2[b]));
        assert(b != i);
        assert(s2[b] == s[b]);
        assert(false);
    } else if b == -1 {
        assert(p(s[a]));
        assert(a != i);
        assert(s2[a] == s[a]);
        assert(!p(s2[a]));
        assert(false);
    } else if b < a {
        assert(p(s2[b]));
        assert(b != i);
        assert(s2[b] == s[b]);
        assert(!p(s[b]));
        assert(false);
    } else {
        assert(p(s[a]));
        assert(a != i);
        assert(s2[a] == s[a]);
        assert(!p(s2[a]));
        assert(false);
    }
}

/// Replacing an element with one of the same key keeps keys unique.
pub proof fn lemma_unique_update<T, K>(s: Seq<T>, key: spec_fn(T) -> K, i: int, x: T)
    requires
        unique_by(s, key),
        0 <= i < s.len(),
        key(s[i]) == key(x),
    ensures
        unique_by(s.update(i, x), key),
{
    let s2 = s.update(i, x);
    assert forall|a: int, b: int| 0 <= a < b < s2.len() implies key(#[trigger] s2[a]) != key(
        #[trigger] s2[b],
    ) by {
        assert(key(s2[a]) == key(s[a]));
        assert(key(s2[b]) == key(s[b]));
    }
}

/// Appending an element whose key no element holds keeps keys unique.
pub proof fn lemma_unique_push<T, K>(s: Seq<T>, key: spec_fn(T) -> K, x: T)
    requires
        unique_by(s, key),
        forall|k: int| 0 <= k < s.len() ==> key(#[trigger] s[k]) != key(x),
    ensures
        unique_by(s.push(x), key),
{
    let s2 = s.push(x);
    assert forall|a: int, b: int| 0 <= a < b < s2.len() implies key(#[trigger] s2[a]) != key(
        #[trigger] s2[b],
    ) by {
        assert(s2[a] == s[a]);
        if b < s.len() {
            assert(s2[b] == s[b]);
        } else {
            assert(s2[b] == x);
        }
    }
}

} // verus!
