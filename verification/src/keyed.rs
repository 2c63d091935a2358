//! Lists of `(key, value)` entries in which no two keys have the same view: what
//! they mean as maps, and how replacing and appending an entry changes that.
use vstd::prelude::*;

verus! {

/// No two entries of `s` have keys with the same view.
pub open spec fn distinct_keys<K: View, V>(s: Seq<(K, V)>) -> bool {
    forall|i: int, j: int| 0 <= i < s.len() && 0 <= j < s.len() && i != j ==> s[i].0@ != s[j].0@
}

/// The views of the keys of `s`, in order.
pub open spec fn keys<K: View, V>(s: Seq<(K, V)>) -> Seq<K::V> {
    Seq::new(s.len(), |i: int| s[i].0@)
}

/// Some entry of `s` has a key whose view is `k`.
pub open spec fn has_key<K: View, V>(s: Seq<(K, V)>, k: K::V) -> bool {
    exists|i: int| 0 <= i < s.len() && s[i].0@ == k
}

/// The position of an entry of `s` whose key's view is `k`.
pub open spec fn index_of<K: View, V>(s: Seq<(K, V)>, k: K::V) -> int {
    choose|i: int| 0 <= i < s.len() && s[i].0@ == k
}

/// The entries of `s` as a map from key views to values.
pub open spec fn entries_map<K: View, V>(s: Seq<(K, V)>) -> Map<K::V, V> {
    Map::new(|k: K::V| has_key(s, k), |k: K::V| s[index_of(s, k)].1)
}

pub proof fn lemma_has_key<K: View, V>(s: Seq<(K, V)>, k: K::V)
    requires
        has_key(s, k),
    ensures
        0 <= index_of(s, k) < s.len(),
        s[index_of(s, k)].0@ == k,
{
}

/// The entry at position `j` is what the map gives for its key.
pub proof fn lemma_index<K: View, V>(s: Seq<(K, V)>, j: int)
    requires
        distinct_keys(s),
        0 <= j < s.len(),
    ensures
        has_key(s, s[j].0@),
        index_of(s, s[j].0@) == j,
        entries_map(s).contains_key(s[j].0@),
        entries_map(s)[s[j].0@] == s[j].1,
{
    let k = s[j].0@;
    assert(has_key(s, k));
    let i = index_of(s, k);
    assert(s[i].0@ == k);
}

/// The key views are those of the map, each once.
pub proof fn lemma_keys<K: View, V>(s: Seq<(K, V)>)
    requires
        distinct_keys(s),
    ensures
        keys(s).no_duplicates(),
        forall|k: K::V| #[trigger] keys(s).contains(k) <==> entries_map(s).contains_key(k),
{
    assert forall|k: K::V| #[trigger] keys(s).contains(k) <==> entries_map(s).contains_key(k) by {
        if keys(s).contains(k) {
            let i = choose|i: int| 0 <= i < keys(s).len() && keys(s)[i] == k;
            assert(s[i].0@ == k);
        }
        if entries_map(s).contains_key(k) {
            lemma_has_key(s, k);
            assert(keys(s)[index_of(s, k)] == k);
        }
    }
}

/// Replacing the value at `i`, with a key of the same view, updates the map at that key.
pub proof fn lemma_replace<K: View, V>(pre: Seq<(K, V)>, post: Seq<(K, V)>, i: int)
    requires
        distinct_keys(pre),
        0 <= i < pre.len(),
        post == pre.update(i, post[i]),
        post[i].0@ == pre[i].0@,
    ensures
        distinct_keys(post),
        keys(post) == keys(pre),
        entries_map(post) == entries_map(pre).insert(post[i].0@, post[i].1),
{
    let key = post[i].0@;
    assert forall|k: K::V| has_key(post, k) == (has_key(pre, k) || k == key) by {
        if has_key(pre, k) {
            lemma_has_key(pre, k);
            assert(post[index_of(pre, k)].0@ == k);
        }
        if has_key(post, k) {
            lemma_has_key(post, k);
            assert(pre[index_of(post, k)].0@ == k);
        }
        if k == key {
            assert(post[i].0@ == k);
        }
    }
    assert forall|k: K::V| has_key(post, k) && k != key implies
        #[trigger] post[index_of(post, k)].1 == pre[index_of(pre, k)].1 by {
        lemma_has_key(post, k);
        let j = index_of(post, k);
        assert(j != i);
        lemma_index(pre, j);
    }
    lemma_index(post, i);
    assert(keys(post) =~= keys(pre));
    assert(entries_map(post) =~= entries_map(pre).insert(key, post[i].1));
}

/// Appending an entry with a new key inserts it into the map.
pub proof fn lemma_append<K: View, V>(pre: Seq<(K, V)>, post: Seq<(K, V)>)
    requires
        distinct_keys(pre),
        post.len() == pre.len() + 1,
        post.take(pre.len() as int) == pre,
        !has_key(pre, post.last().0@),
    ensures
        distinct_keys(post),
        keys(post) == keys(pre).push(post.last().0@),
        entries_map(post) == entries_map(pre).insert(post.last().0@, post.last().1),
{
    let n = pre.len() as int;
    let key = post[n].0@;
    assert forall|j: int| 0 <= j < n implies #[trigger] post[j] == pre[j] by {
        assert(post.take(n)[j] == post[j]);
    }
    assert forall|a: int, b: int| 0 <= a < post.len() && 0 <= b < post.len() && a != b implies post[a].0@
        != post[b].0@ by {
        if a == n {
            assert(pre[b].0@ != key);
        } else if b == n {
            assert(pre[a].0@ != key);
        }
    }
    assert forall|k: K::V| has_key(post, k) == (has_key(pre, k) || k == key) by {
        if has_key(pre, k) {
            lemma_has_key(pre, k);
            assert(post[index_of(pre, k)].0@ == k);
        }
        if has_key(post, k) {
            lemma_has_key(post, k);
            let j = index_of(post, k);
            if j != n {
                assert(pre[j].0@ == k);
            }
        }
        if k == key {
            assert(post[n].0@ == k);
        }
    }
    assert forall|k: K::V| has_key(post, k) && k != key implies
        #[trigger] post[index_of(post, k)].1 == pre[index_of(pre, k)].1 by {
        lemma_has_key(post, k);
        let j = index_of(post, k);
        assert(j != n);
        lemma_index(pre, j);
    }
    lemma_index(post, n);
    assert(keys(post) =~= keys(pre).push(key));
    assert(entries_map(post) =~= entries_map(pre).insert(key, post[n].1));
}


}
