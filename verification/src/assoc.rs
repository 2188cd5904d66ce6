//! Association lists, the ledger's in-memory maps: entry vectors with unique
//! keys, either principal byte strings or 32-bit ids, kept in ascending key
//! order where pagination enumerates them.

use vstd::prelude::*;
use crate::bytesutil::{bytes_eq, bytes_lt, lex_lt, lemma_lex_trichotomy, lemma_lex_trans};

verus! {

// ---------------------------------------------------------------------------
// Byte-string keys.
// ---------------------------------------------------------------------------

/// Some entry is bound to `k`.
pub open spec fn bmap_has<V>(s: Seq<(Vec<u8>, V)>, k: Seq<u8>) -> bool {
    exists|i: int| 0 <= i < s.len() && s[i].0@ == k
}

/// An index bound to `k` (the index, once keys are unique).
pub open spec fn bmap_idx<V>(s: Seq<(Vec<u8>, V)>, k: Seq<u8>) -> int {
    choose|i: int| 0 <= i < s.len() && s[i].0@ == k
}

/// The value bound to `k`, if any.
pub open spec fn bmap_get<V>(s: Seq<(Vec<u8>, V)>, k: Seq<u8>) -> Option<V> {
    if bmap_has(s, k) {
        Some(s[bmap_idx(s, k)].1)
    } else {
        None
    }
}

/// No key occurs twice.
pub open spec fn bmap_unique<V>(s: Seq<(Vec<u8>, V)>) -> bool {
    forall|i: int, j: int| 0 <= i < j < s.len() ==> s[i].0@ != s[j].0@
}

/// Keys strictly ascend in lexicographic order.
pub open spec fn bmap_sorted<V>(s: Seq<(Vec<u8>, V)>) -> bool {
    forall|i: int, j: int| 0 <= i < j < s.len() ==> lex_lt(s[i].0@, s[j].0@)
}

/// A sorted entry list has unique keys.
pub proof fn lemma_bmap_sorted_unique<V>(s: Seq<(Vec<u8>, V)>)
    requires
        bmap_sorted(s),
    ensures
        bmap_unique(s),
{
    assert forall|i: int, j: int| 0 <= i < j < s.len() implies s[i].0@ != s[j].0@ by {
        lemma_lex_trichotomy(s[i].0@, s[j].0@);
    }
}

/// With unique keys, any entry bound to `k` is the lookup result.
pub proof fn lemma_bmap_get_at<V>(s: Seq<(Vec<u8>, V)>, k: Seq<u8>, i: int)
    requires
        bmap_unique(s),
        0 <= i < s.len(),
        s[i].0@ == k,
    ensures
        bmap_get(s, k) == Some(s[i].1),
        bmap_idx(s, k) == i,
{
    assert(bmap_has(s, k));
    let j = bmap_idx(s, k);
    assert(0 <= j < s.len() && s[j].0@ == k);
    if i != j {
        assert(s[i].0@ != s[j].0@);
    }
}

/// Finds the index of the entry bound to `k`.
pub fn bmap_find<V>(s: &Vec<(Vec<u8>, V)>, k: &Vec<u8>) -> (r: Option<usize>)
    ensures
        match r {
            Some(i) => i < s@.len() && s@[i as int].0@ == k@ && bmap_has(s@, k@),
            None => !bmap_has(s@, k@),
        },
{
    let mut i: usize = 0;
    while i < s.len()
        invariant
            i <= s@.len(),
            forall|j: int| 0 <= j < i ==> s@[j].0@ != k@,
        decreases s@.len() - i,
    {
        if bytes_eq(&s[i].0, k) {
            return Some(i);
        }
        i = i + 1;
    }
    None
}

/// Two entry lists that hold the same entries for every key other than `k`
/// look the same to every lookup but `k`'s.
#[verifier::rlimit(100)]
pub proof fn lemma_bmap_preserve<V>(a: Seq<(Vec<u8>, V)>, b: Seq<(Vec<u8>, V)>, k: Seq<u8>)
    requires
        bmap_unique(a),
        bmap_unique(b),
        forall|i: int|
            0 <= i < a.len() && a[i].0@ != k ==> exists|j: int|
                0 <= j < b.len() && #[trigger] a[i] == b[j],
        forall|j: int|
            0 <= j < b.len() && b[j].0@ != k ==> exists|i: int|
                0 <= i < a.len() && #[trigger] b[j] == a[i],
    ensures
        forall|k2: Seq<u8>| k2 != k ==> bmap_get(a, k2) == bmap_get(b, k2),
{
    assert forall|k2: Seq<u8>| k2 != k implies bmap_get(a, k2) == bmap_get(b, k2) by {
        if bmap_has(a, k2) {
            let i = bmap_idx(a, k2);
            assert(0 <= i < a.len() && a[i].0@ == k2);
            let j = choose|j: int| 0 <= j < b.len() && a[i] == b[j];
            lemma_bmap_get_at(b, k2, j);
            lemma_bmap_get_at(a, k2, i);
        } else if bmap_has(b, k2) {
            let j = bmap_idx(b, k2);
            assert(0 <= j < b.len() && b[j].0@ == k2);
            let i = choose|i: int| 0 <= i < a.len() && b[j] == a[i];
            assert(bmap_has(a, k2));
        }
    }
}

/// Binds `k` to `v`: replaces the existing entry or appends a fresh one.
/// Every other binding is untouched.
pub fn bmap_set<V>(s: &mut Vec<(Vec<u8>, V)>, k: Vec<u8>, v: V)
    requires
        bmap_unique(old(s)@),
    ensures
        bmap_unique(final(s)@),
        bmap_get(final(s)@, k@) == Some(v),
        forall|k2: Seq<u8>| k2 != k@ ==> bmap_get(final(s)@, k2) == bmap_get(old(s)@, k2),
        final(s)@.len() <= old(s)@.len() + 1,
        forall|j: int|
            #![trigger final(s)@[j]]
            0 <= j < final(s)@.len() ==> final(s)@[j].1 == v || exists|i: int|
                0 <= i < old(s)@.len() && final(s)@[j] == old(s)@[i],
{
    let ghost kv = k@;
    match bmap_find(s, &k) {
        Some(i) => {
            s.set(i, (k, v));
            proof {
                assert(forall|j: int| 0 <= j < s@.len() && j != i ==> s@[j] == old(s)@[j]);
                assert(s@[i as int].0@ == old(s)@[i as int].0@);
                assert(bmap_unique(s@));
                lemma_bmap_get_at(s@, kv, i as int);
                assert forall|i2: int|
                    0 <= i2 < old(s)@.len() && old(s)@[i2].0@ != kv implies exists|j2: int|
                    0 <= j2 < s@.len() && #[trigger] old(s)@[i2] == s@[j2] by {
                    assert(old(s)@[i2] == s@[i2]);
                }
                assert forall|j2: int|
                    0 <= j2 < s@.len() && s@[j2].0@ != kv implies exists|i2: int|
                    0 <= i2 < old(s)@.len() && #[trigger] s@[j2] == old(s)@[i2] by {
                    assert(s@[j2] == old(s)@[j2]);
                }
                lemma_bmap_preserve(old(s)@, s@, kv);
            }
        },
        None => {
            s.push((k, v));
            proof {
                assert(forall|j: int| 0 <= j < old(s)@.len() ==> s@[j] == old(s)@[j]);
                assert(s@[old(s)@.len() as int].0@ == kv);
                assert(bmap_unique(s@));
                lemma_bmap_get_at(s@, kv, old(s)@.len() as int);
                assert forall|i2: int|
                    0 <= i2 < old(s)@.len() && old(s)@[i2].0@ != kv implies exists|j2: int|
                    0 <= j2 < s@.len() && #[trigger] old(s)@[i2] == s@[j2] by {
                    assert(old(s)@[i2] == s@[i2]);
                }
                assert forall|j2: int|
                    0 <= j2 < s@.len() && s@[j2].0@ != kv implies exists|i2: int|
                    0 <= i2 < old(s)@.len() && #[trigger] s@[j2] == old(s)@[i2] by {
                    assert(j2 < old(s)@.len() && s@[j2] == old(s)@[j2]);
                }
                lemma_bmap_preserve(old(s)@, s@, kv);
            }
        },
    }
}

/// Unbinds `k`, handing back the value it was bound to, if any. Every other
/// binding is untouched.
/// What removing the entry at `i` (bound to `k`) does to every lookup.
pub proof fn lemma_bmap_removed<V>(pre: Seq<(Vec<u8>, V)>, post: Seq<(Vec<u8>, V)>, i: int, k: Seq<u8>)
    requires
        bmap_unique(pre),
        0 <= i < pre.len(),
        pre[i].0@ == k,
        post == pre.remove(i),
    ensures
        bmap_unique(post),
        bmap_get(post, k) is None,
        forall|k2: Seq<u8>| k2 != k ==> bmap_get(post, k2) == bmap_get(pre, k2),
        bmap_sorted(pre) ==> bmap_sorted(post),
        forall|j: int|
            #![trigger post[j]]
            0 <= j < post.len() ==> exists|i2: int| 0 <= i2 < pre.len() && post[j] == pre[i2],
{
    assert(forall|j: int| 0 <= j < i ==> post[j] == pre[j]);
    assert(forall|j: int| i <= j < post.len() ==> post[j] == pre[j + 1]);
    assert(bmap_unique(post));
    if bmap_sorted(pre) {
        assert(bmap_sorted(post));
    }
    assert forall|j: int| 0 <= j < post.len() implies post[j].0@ != k by {
        if j < i {
            assert(pre[j].0@ != pre[i].0@);
        } else {
            assert(pre[j + 1].0@ != pre[i].0@);
        }
    }
    assert(!bmap_has(post, k));
    assert forall|i2: int|
        0 <= i2 < pre.len() && pre[i2].0@ != k implies exists|j2: int|
        0 <= j2 < post.len() && #[trigger] pre[i2] == post[j2] by {
        if i2 < i {
            assert(pre[i2] == post[i2]);
        } else {
            assert(i2 > i && pre[i2] == post[i2 - 1]);
        }
    }
    assert forall|j2: int|
        0 <= j2 < post.len() implies exists|i2: int|
        0 <= i2 < pre.len() && #[trigger] post[j2] == pre[i2] by {
        if j2 < i {
            assert(post[j2] == pre[j2]);
        } else {
            assert(post[j2] == pre[j2 + 1]);
        }
    }
    lemma_bmap_preserve(pre, post, k);
}

/// Unbinds `k`, handing back the value it was bound to, if any. Every other
/// binding is untouched.
pub fn bmap_remove<V>(s: &mut Vec<(Vec<u8>, V)>, k: &Vec<u8>) -> (r: Option<V>)
    requires
        bmap_unique(old(s)@),
    ensures
        bmap_unique(final(s)@),
        bmap_get(final(s)@, k@) is None,
        forall|k2: Seq<u8>| k2 != k@ ==> bmap_get(final(s)@, k2) == bmap_get(old(s)@, k2),
        r == bmap_get(old(s)@, k@),
        bmap_sorted(old(s)@) ==> bmap_sorted(final(s)@),
        final(s)@.len() <= old(s)@.len(),
        !bmap_has(old(s)@, k@) ==> final(s)@ == old(s)@,
        bmap_has(old(s)@, k@) ==> final(s)@ == old(s)@.remove(bmap_idx(old(s)@, k@)),
{
    match bmap_find(s, k) {
        None => None,
        Some(i) => {
            let e = s.remove(i);
            proof {
                lemma_bmap_get_at(old(s)@, k@, i as int);
                lemma_bmap_removed(old(s)@, s@, i as int, k@);
            }
            Some(e.1)
        },
    }
}

/// The first index whose key is not below `k` in a sorted entry list.
fn bmap_lower_bound<V>(s: &Vec<(Vec<u8>, V)>, k: &Vec<u8>) -> (i: usize)
    ensures
        i <= s@.len(),
        forall|j: int| 0 <= j < i ==> lex_lt(s@[j].0@, k@),
        i < s@.len() ==> !lex_lt(s@[i as int].0@, k@),
{
    let mut i: usize = 0;
    while i < s.len()
        invariant
            i <= s@.len(),
            forall|j: int| 0 <= j < i ==> lex_lt(s@[j].0@, k@),
        decreases s@.len() - i,
    {
        if !bytes_lt(&s[i].0, k) {
            return i;
        }
        i = i + 1;
    }
    i
}

/// Binds `k` to `v` in a sorted entry list, keeping the order: replaces the
/// existing entry or splices a fresh one in at its place.
#[verifier::rlimit(100)]
#[verifier::spinoff_prover]
pub fn bmap_sorted_set<V>(s: &mut Vec<(Vec<u8>, V)>, k: Vec<u8>, v: V)
    requires
        bmap_sorted(old(s)@),
    ensures
        bmap_sorted(final(s)@),
        bmap_get(final(s)@, k@) == Some(v),
        forall|k2: Seq<u8>| k2 != k@ ==> bmap_get(final(s)@, k2) == bmap_get(old(s)@, k2),
        old(s)@.len() <= final(s)@.len() <= old(s)@.len() + 1,
        (final(s)@.len() == old(s)@.len() + 1) <==> !bmap_has(old(s)@, k@),
        forall|j: int|
            #![trigger final(s)@[j]]
            0 <= j < final(s)@.len() ==> final(s)@[j].1 == v || exists|i: int|
                0 <= i < old(s)@.len() && final(s)@[j] == old(s)@[i],
{
    let ghost kv = k@;
    proof {
        lemma_bmap_sorted_unique(old(s)@);
    }
    let i = bmap_lower_bound(s, &k);
    let hit = i < s.len() && bytes_eq(&s[i].0, &k);
    if hit {
        s.set(i, (k, v));
        proof {
            assert(forall|j: int| 0 <= j < s@.len() && j != i ==> s@[j] == old(s)@[j]);
            assert(s@[i as int].0@ == old(s)@[i as int].0@);
            assert(bmap_sorted(s@));
            lemma_bmap_sorted_unique(s@);
            lemma_bmap_get_at(s@, kv, i as int);
            lemma_bmap_get_at(old(s)@, kv, i as int);
            assert forall|i2: int|
                0 <= i2 < old(s)@.len() && old(s)@[i2].0@ != kv implies exists|j2: int|
                0 <= j2 < s@.len() && #[trigger] old(s)@[i2] == s@[j2] by {
                assert(old(s)@[i2] == s@[i2]);
            }
            assert forall|j2: int|
                0 <= j2 < s@.len() && s@[j2].0@ != kv implies exists|i2: int|
                0 <= i2 < old(s)@.len() && #[trigger] s@[j2] == old(s)@[i2] by {
                assert(s@[j2] == old(s)@[j2]);
            }
            lemma_bmap_preserve(old(s)@, s@, kv);
        }
    } else {
        proof {
            assert forall|j: int| i <= j < old(s)@.len() implies lex_lt(kv, old(s)@[j].0@) by {
                lemma_lex_trichotomy(old(s)@[j].0@, kv);
                if j > i {
                    if lex_lt(old(s)@[j].0@, kv) {
                        lemma_lex_trans(old(s)@[i as int].0@, old(s)@[j].0@, kv);
                        lemma_lex_trichotomy(old(s)@[i as int].0@, kv);
                    }
                }
                if old(s)@[j].0@ == kv {
                    if j == i {
                        lemma_lex_trichotomy(old(s)@[i as int].0@, kv);
                    } else {
                        assert(lex_lt(old(s)@[i as int].0@, old(s)@[j].0@));
                    }
                }
            }
            assert forall|j: int| 0 <= j < old(s)@.len() implies old(s)@[j].0@ != kv by {
                if j < i {
                    lemma_lex_trichotomy(old(s)@[j].0@, kv);
                } else {
                    lemma_lex_trichotomy(old(s)@[j].0@, kv);
                }
            }
            assert(!bmap_has(old(s)@, kv));
        }
        s.insert(i, (k, v));
        proof {
            assert(forall|j: int| 0 <= j < i ==> s@[j] == old(s)@[j]);
            assert(forall|j: int| i < j < s@.len() ==> s@[j] == old(s)@[j - 1]);
            assert(s@[i as int].0@ == kv);
            assert forall|a: int, b: int| 0 <= a < b < s@.len() implies lex_lt(
                s@[a].0@,
                s@[b].0@,
            ) by {
                if a == i {
                    assert(lex_lt(kv, old(s)@[b - 1].0@));
                } else if b == i {
                    assert(lex_lt(old(s)@[a].0@, kv));
                }
            }
            lemma_bmap_sorted_unique(s@);
            lemma_bmap_get_at(s@, kv, i as int);
            assert forall|i2: int|
                0 <= i2 < old(s)@.len() && old(s)@[i2].0@ != kv implies exists|j2: int|
                0 <= j2 < s@.len() && #[trigger] old(s)@[i2] == s@[j2] by {
                if i2 < i {
                    assert(old(s)@[i2] == s@[i2]);
                } else {
                    assert(old(s)@[i2] == s@[i2 + 1]);
                }
            }
            assert forall|j2: int|
                0 <= j2 < s@.len() && s@[j2].0@ != kv implies exists|i2: int|
                0 <= i2 < old(s)@.len() && #[trigger] s@[j2] == old(s)@[i2] by {
                if j2 < i {
                    assert(s@[j2] == old(s)@[j2]);
                } else {
                    assert(j2 > i && s@[j2] == old(s)@[j2 - 1]);
                }
            }
            lemma_bmap_preserve(old(s)@, s@, kv);
        }
    }
}

// ---------------------------------------------------------------------------
// 32-bit keys, always sorted.
// ---------------------------------------------------------------------------

/// Some entry is bound to `k`.
pub open spec fn umap_has<V>(s: Seq<(u32, V)>, k: u32) -> bool {
    exists|i: int| 0 <= i < s.len() && s[i].0 == k
}

/// An index bound to `k` (the index, once keys are unique).
pub open spec fn umap_idx<V>(s: Seq<(u32, V)>, k: u32) -> int {
    choose|i: int| 0 <= i < s.len() && s[i].0 == k
}

/// The value bound to `k`, if any.
pub open spec fn umap_get<V>(s: Seq<(u32, V)>, k: u32) -> Option<V> {
    if umap_has(s, k) {
        Some(s[umap_idx(s, k)].1)
    } else {
        None
    }
}

/// Keys strictly ascend.
pub open spec fn umap_sorted<V>(s: Seq<(u32, V)>) -> bool {
    forall|i: int, j: int| 0 <= i < j < s.len() ==> s[i].0 < s[j].0
}

/// With ascending keys, any entry bound to `k` is the lookup result.
pub proof fn lemma_umap_get_at<V>(s: Seq<(u32, V)>, k: u32, i: int)
    requires
        umap_sorted(s),
        0 <= i < s.len(),
        s[i].0 == k,
    ensures
        umap_get(s, k) == Some(s[i].1),
        umap_idx(s, k) == i,
{
    assert(umap_has(s, k));
    let j = umap_idx(s, k);
    assert(0 <= j < s.len() && s[j].0 == k);
    if i < j {
        assert(s[i].0 < s[j].0);
    }
    if j < i {
        assert(s[j].0 < s[i].0);
    }
}

/// Two sorted entry lists that hold the same entries for every key other
/// than `k` look the same to every lookup but `k`'s.
#[verifier::rlimit(100)]
pub proof fn lemma_umap_preserve<V>(a: Seq<(u32, V)>, b: Seq<(u32, V)>, k: u32)
    requires
        umap_sorted(a),
        umap_sorted(b),
        forall|i: int|
            0 <= i < a.len() && a[i].0 != k ==> exists|j: int|
                0 <= j < b.len() && #[trigger] a[i] == b[j],
        forall|j: int|
            0 <= j < b.len() && b[j].0 != k ==> exists|i: int|
                0 <= i < a.len() && #[trigger] b[j] == a[i],
    ensures
        forall|k2: u32| k2 != k ==> umap_get(a, k2) == umap_get(b, k2),
{
    assert forall|k2: u32| k2 != k implies umap_get(a, k2) == umap_get(b, k2) by {
        if umap_has(a, k2) {
            let i = umap_idx(a, k2);
            assert(0 <= i < a.len() && a[i].0 == k2);
            let j = choose|j: int| 0 <= j < b.len() && a[i] == b[j];
            lemma_umap_get_at(b, k2, j);
            lemma_umap_get_at(a, k2, i);
        } else if umap_has(b, k2) {
            let j = umap_idx(b, k2);
            assert(0 <= j < b.len() && b[j].0 == k2);
            let i = choose|i: int| 0 <= i < a.len() && b[j] == a[i];
            assert(umap_has(a, k2));
        }
    }
}

/// Finds the index of the entry bound to `k`.
pub fn umap_find<V>(s: &Vec<(u32, V)>, k: u32) -> (r: Option<usize>)
    ensures
        match r {
            Some(i) => i < s@.len() && s@[i as int].0 == k && umap_has(s@, k),
            None => !umap_has(s@, k),
        },
{
    let mut i: usize = 0;
    while i < s.len()
        invariant
            i <= s@.len(),
            forall|j: int| 0 <= j < i ==> s@[j].0 != k,
        decreases s@.len() - i,
    {
        if s[i].0 == k {
            return Some(i);
        }
        i = i + 1;
    }
    None
}

/// The first index whose key is not below `k`.
fn umap_lower_bound<V>(s: &Vec<(u32, V)>, k: u32) -> (i: usize)
    ensures
        i <= s@.len(),
        forall|j: int| 0 <= j < i ==> s@[j].0 < k,
        i < s@.len() ==> s@[i as int].0 >= k,
{
    let mut i: usize = 0;
    while i < s.len()
        invariant
            i <= s@.len(),
            forall|j: int| 0 <= j < i ==> s@[j].0 < k,
        decreases s@.len() - i,
    {
        if s[i].0 >= k {
            return i;
        }
        i = i + 1;
    }
    i
}

/// Binds `k` to `v`, keeping keys ascending: replaces the existing entry or
/// splices a fresh one in at its place.
#[verifier::rlimit(100)]
#[verifier::spinoff_prover]
pub fn umap_set<V>(s: &mut Vec<(u32, V)>, k: u32, v: V)
    requires
        umap_sorted(old(s)@),
    ensures
        umap_sorted(final(s)@),
        umap_get(final(s)@, k) == Some(v),
        forall|k2: u32| k2 != k ==> umap_get(final(s)@, k2) == umap_get(old(s)@, k2),
        old(s)@.len() <= final(s)@.len() <= old(s)@.len() + 1,
        (final(s)@.len() == old(s)@.len() + 1) <==> !umap_has(old(s)@, k),
        forall|j: int|
            #![trigger final(s)@[j]]
            0 <= j < final(s)@.len() ==> final(s)@[j].1 == v || exists|i: int|
                0 <= i < old(s)@.len() && final(s)@[j] == old(s)@[i],
{
    let i = umap_lower_bound(s, k);
    let hit = i < s.len() && s[i].0 == k;
    if hit {
        s.set(i, (k, v));
        proof {
            assert(forall|j: int| 0 <= j < s@.len() && j != i ==> s@[j] == old(s)@[j]);
            assert(s@[i as int].0 == old(s)@[i as int].0);
            assert(umap_sorted(s@));
            lemma_umap_get_at(s@, k, i as int);
            lemma_umap_get_at(old(s)@, k, i as int);
            assert forall|i2: int|
                0 <= i2 < old(s)@.len() && old(s)@[i2].0 != k implies exists|j2: int|
                0 <= j2 < s@.len() && #[trigger] old(s)@[i2] == s@[j2] by {
                assert(old(s)@[i2] == s@[i2]);
            }
            assert forall|j2: int|
                0 <= j2 < s@.len() && s@[j2].0 != k implies exists|i2: int|
                0 <= i2 < old(s)@.len() && #[trigger] s@[j2] == old(s)@[i2] by {
                assert(s@[j2] == old(s)@[j2]);
            }
            lemma_umap_preserve(old(s)@, s@, k);
        }
    } else {
        proof {
            assert(forall|j: int| 0 <= j < old(s)@.len() ==> old(s)@[j].0 != k);
            assert(!umap_has(old(s)@, k));
        }
        s.insert(i, (k, v));
        proof {
            assert(forall|j: int| 0 <= j < i ==> s@[j] == old(s)@[j]);
            assert(forall|j: int| i < j < s@.len() ==> s@[j] == old(s)@[j - 1]);
            assert(s@[i as int].0 == k);
            assert(umap_sorted(s@));
            lemma_umap_get_at(s@, k, i as int);
            assert forall|i2: int|
                0 <= i2 < old(s)@.len() && old(s)@[i2].0 != k implies exists|j2: int|
                0 <= j2 < s@.len() && #[trigger] old(s)@[i2] == s@[j2] by {
                if i2 < i {
                    assert(old(s)@[i2] == s@[i2]);
                } else {
                    assert(old(s)@[i2] == s@[i2 + 1]);
                }
            }
            assert forall|j2: int|
                0 <= j2 < s@.len() && s@[j2].0 != k implies exists|i2: int|
                0 <= i2 < old(s)@.len() && #[trigger] s@[j2] == old(s)@[i2] by {
                if j2 < i {
                    assert(s@[j2] == old(s)@[j2]);
                } else {
                    assert(j2 > i && s@[j2] == old(s)@[j2 - 1]);
                }
            }
            lemma_umap_preserve(old(s)@, s@, k);
        }
    }
}

/// Unbinds `k`, handing back the value it was bound to, if any. Every other
/// binding is untouched.
/// What removing the entry at `i` (bound to `k`) does to every lookup.
pub proof fn lemma_umap_removed<V>(pre: Seq<(u32, V)>, post: Seq<(u32, V)>, i: int, k: u32)
    requires
        umap_sorted(pre),
        0 <= i < pre.len(),
        pre[i].0 == k,
        post == pre.remove(i),
    ensures
        umap_sorted(post),
        umap_get(post, k) is None,
        forall|k2: u32| k2 != k ==> umap_get(post, k2) == umap_get(pre, k2),
        forall|j: int|
            #![trigger post[j]]
            0 <= j < post.len() ==> exists|i2: int| 0 <= i2 < pre.len() && post[j] == pre[i2],
{
    assert(forall|j: int| 0 <= j < i ==> post[j] == pre[j]);
    assert(forall|j: int| i <= j < post.len() ==> post[j] == pre[j + 1]);
    assert(umap_sorted(post));
    assert forall|j: int| 0 <= j < post.len() implies post[j].0 != k by {
        if j < i {
            assert(pre[j].0 < pre[i].0);
        } else {
            assert(pre[i].0 < pre[j + 1].0);
        }
    }
    assert(!umap_has(post, k));
    assert forall|i2: int|
        0 <= i2 < pre.len() && pre[i2].0 != k implies exists|j2: int|
        0 <= j2 < post.len() && #[trigger] pre[i2] == post[j2] by {
        if i2 < i {
            assert(pre[i2] == post[i2]);
        } else {
            assert(i2 > i && pre[i2] == post[i2 - 1]);
        }
    }
    assert forall|j2: int|
        0 <= j2 < post.len() implies exists|i2: int|
        0 <= i2 < pre.len() && #[trigger] post[j2] == pre[i2] by {
        if j2 < i {
            assert(post[j2] == pre[j2]);
        } else {
            assert(post[j2] == pre[j2 + 1]);
        }
    }
    lemma_umap_preserve(pre, post, k);
}

/// Unbinds `k`, handing back the value it was bound to, if any. Every other
/// binding is untouched.
pub fn umap_remove<V>(s: &mut Vec<(u32, V)>, k: u32) -> (r: Option<V>)
    requires
        umap_sorted(old(s)@),
    ensures
        umap_sorted(final(s)@),
        umap_get(final(s)@, k) is None,
        forall|k2: u32| k2 != k ==> umap_get(final(s)@, k2) == umap_get(old(s)@, k2),
        r == umap_get(old(s)@, k),
        final(s)@.len() <= old(s)@.len(),
        !umap_has(old(s)@, k) ==> final(s)@ == old(s)@,
        umap_has(old(s)@, k) ==> final(s)@ == old(s)@.remove(umap_idx(old(s)@, k)),
{
    match umap_find(s, k) {
        None => None,
        Some(i) => {
            let e = s.remove(i);
            proof {
                lemma_umap_get_at(old(s)@, k, i as int);
                lemma_umap_removed(old(s)@, s@, i as int, k);
            }
            Some(e.1)
        },
    }
}

} // verus!
