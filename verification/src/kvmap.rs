//! List-backed maps and sets with exact contracts: key-value lists
//! with distinct keys, insertion-ordered string sets, and strictly
//! sorted value lists with their canonicity law.

use vstd::prelude::*;

use crate::text::{lemma_lex_connected, lemma_lex_irrefl, lemma_lex_trans, lex_lt, str_eq, str_lt, views};

verus! {

/// The key views of a key-value list.
pub open spec fn key_views(m: Seq<(String, String)>) -> Seq<Seq<char>> {
    m.map_values(|p: (String, String)| p.0@)
}

/// No two entries share a key: the list behaves as a map.
pub open spec fn keys_distinct(m: Seq<(String, String)>) -> bool {
    forall|i: int, j: int| 0 <= i < j < m.len() ==> m[i].0@ != m[j].0@
}

/// The value stored under `k`, if any: the first entry with that key.
pub open spec fn lookup(m: Seq<(String, String)>, k: Seq<char>) -> Option<Seq<char>>
    decreases m.len(),
{
    if m.len() == 0 {
        None
    } else if m[0].0@ == k {
        Some(m[0].1@)
    } else {
        lookup(m.drop_first(), k)
    }
}

/// Stores `v` under `k`: replaces the value of an existing entry, else
/// appends a new entry; what a map insertion does.
pub fn map_insert(m: &mut Vec<(String, String)>, k: String, v: String)
    requires
        keys_distinct(old(m)@),
    ensures
        keys_distinct(final(m)@),
        lookup(final(m)@, k@) == Some(v@),
        forall|q: Seq<char>| q != k@ ==> lookup(final(m)@, q) == lookup(old(m)@, q),
        forall|q: Seq<char>| #[trigger]
            key_views(final(m)@).contains(q) <==> (key_views(old(m)@).contains(q) || q == k@),
{
    let ghost m0 = old(m)@;
    let n: usize = m.len();
    let mut i: usize = 0;
    while i < n
        invariant
            n == m@.len(),
            i <= n,
            m@ == m0,
            m0 == old(m)@,
            keys_distinct(m0),
            forall|j: int| 0 <= j < i ==> m0[j].0@ != k@,
        decreases n - i,
    {
        if str_eq(m[i].0.as_str(), k.as_str()) {
            let ghost gk = k;
            let ghost gv = v;
            m.remove(i);
            m.insert(i, (k, v));
            proof {
                assert(forall|j: int| 0 <= j < m0.len() && j != i ==> m@[j] == m0[j]);
                assert(m@[i as int] == (gk, gv));
                lemma_map_update_at(m0, m@, i as int, gk@, gv@);
                assert forall|q: Seq<char>| #[trigger]
                    key_views(m@).contains(q) <==> (key_views(m0).contains(q) || q == k@) by {
                    assert(forall|j: int|
                        0 <= j < m@.len() && j != i ==> key_views(m@)[j] == key_views(m0)[j]);
                    assert(key_views(m0)[i as int] == k@);
                    assert(key_views(m@)[i as int] == k@);
                    if key_views(m@).contains(q) {
                        let w = choose|w: int| 0 <= w < m@.len() && key_views(m@)[w] == q;
                        assert(key_views(m0)[w] == q || q == k@);
                    }
                    if key_views(m0).contains(q) {
                        let w = choose|w: int| 0 <= w < m0.len() && key_views(m0)[w] == q;
                        assert(key_views(m@)[w] == q || q == k@);
                    }
                    if q == k@ {
                        assert(key_views(m@)[i as int] == q);
                    }
                }
            }
            return ;
        }
        i += 1;
    }
    let ghost gk = k;
    let ghost gv = v;
    m.push((k, v));
    proof {
        assert(m@ =~= m0.push((gk, gv)));
        lemma_push_lookup(m0, gk, gv);
        assert forall|q: Seq<char>| #[trigger]
            key_views(m@).contains(q) <==> (key_views(m0).contains(q) || q == k@) by {
            assert(forall|j: int| 0 <= j < m0.len() ==> key_views(m@)[j] == key_views(m0)[j]);
            assert(key_views(m@)[m0.len() as int] == k@);
            if key_views(m@).contains(q) {
                let w = choose|w: int| 0 <= w < m@.len() && key_views(m@)[w] == q;
                assert(key_views(m0)[w] == q || q == k@);
            }
            if key_views(m0).contains(q) {
                let w = choose|w: int| 0 <= w < m0.len() && key_views(m0)[w] == q;
                assert(key_views(m@)[w] == q);
            }
        }
        assert(keys_distinct(m@)) by {
            assert(forall|j: int| 0 <= j < m0.len() ==> m@[j] == m0[j]);
        }
    }
}

/// Replacing the value at an existing key's slot keeps all other
/// lookups and distinctness.
proof fn lemma_map_update_at(m0: Seq<(String, String)>, m1: Seq<(String, String)>, i: int, k: Seq<char>, v: Seq<char>)
    requires
        keys_distinct(m0),
        0 <= i < m0.len(),
        m0[i].0@ == k,
        m1.len() == m0.len(),
        m1[i].0@ == k,
        m1[i].1@ == v,
        forall|j: int| 0 <= j < m0.len() && j != i ==> m1[j] == m0[j],
    ensures
        keys_distinct(m1),
        lookup(m1, k) == Some(v),
        forall|q: Seq<char>| q != k ==> lookup(m1, q) == lookup(m0, q),
    decreases m0.len(),
{
    assert(forall|a: int, b: int| 0 <= a < b < m1.len() ==> m1[a].0@ != m1[b].0@) by {
        assert(forall|j: int| 0 <= j < m0.len() ==> m1[j].0@ == m0[j].0@);
    }
    if i == 0 {
        assert(m1.drop_first() =~= m0.drop_first());
        assert forall|q: Seq<char>| q != k implies lookup(m1, q) == lookup(m0, q) by {
            assert(lookup(m1, q) == lookup(m1.drop_first(), q));
            assert(lookup(m0, q) == lookup(m0.drop_first(), q));
        }
    } else {
        assert(m1[0] == m0[0]);
        assert(forall|j: int|
            0 <= j < m0.drop_first().len() && j != i - 1 ==> m1.drop_first()[j]
                == m0.drop_first()[j]);
        assert(m0.drop_first()[i - 1] == m0[i]);
        assert(m1.drop_first()[i - 1] == m1[i]);
        lemma_map_update_at(m0.drop_first(), m1.drop_first(), i - 1, k, v);
        assert(m0[0].0@ != k);
        assert(lookup(m1, k) == lookup(m1.drop_first(), k));
        assert forall|q: Seq<char>| q != k implies lookup(m1, q) == lookup(m0, q) by {
            if q == m0[0].0@ {
                assert(lookup(m1, q) == Some(m1[0].1@));
                assert(lookup(m0, q) == Some(m0[0].1@));
            } else {
                assert(lookup(m1, q) == lookup(m1.drop_first(), q));
                assert(lookup(m0, q) == lookup(m0.drop_first(), q));
            }
        }
    }
}

/// Lookup through a pushed entry: found at the end when no earlier
/// entry holds the key.
proof fn lemma_push_lookup(m0: Seq<(String, String)>, kk: String, vv: String)
    requires
        forall|j: int| 0 <= j < m0.len() ==> m0[j].0@ != kk@,
    ensures
        lookup(m0.push((kk, vv)), kk@) == Some(vv@),
        forall|q: Seq<char>| q != kk@ ==> lookup(m0.push((kk, vv)), q) == lookup(m0, q),
    decreases m0.len(),
{
    let m1 = m0.push((kk, vv));
    if m0.len() == 0 {
        assert(m1[0] == (kk, vv));
        assert(m1.drop_first() =~= m0);
        assert forall|q: Seq<char>| q != kk@ implies lookup(m1, q) == lookup(m0, q) by {
            assert(lookup(m1, q) == lookup(m1.drop_first(), q));
        }
    } else {
        assert(m1[0] == m0[0]);
        assert(m1.drop_first() =~= m0.drop_first().push((kk, vv)));
        assert(forall|j: int| 0 <= j < m0.drop_first().len() ==> m0.drop_first()[j] == m0[j + 1]);
        lemma_push_lookup(m0.drop_first(), kk, vv);
        assert(m0[0].0@ != kk@);
        assert(lookup(m1, kk@) == lookup(m1.drop_first(), kk@));
        assert forall|q: Seq<char>| q != kk@ implies lookup(m1, q) == lookup(m0, q) by {
            if q == m0[0].0@ {
                assert(lookup(m1, q) == Some(m1[0].1@));
                assert(lookup(m0, q) == Some(m0[0].1@));
            } else {
                assert(lookup(m1, q) == lookup(m1.drop_first(), q));
                assert(lookup(m0, q) == lookup(m0.drop_first(), q));
            }
        }
    }
}

/// Looks a key up in a key-value list; clones the stored value.
pub fn map_get(m: &Vec<(String, String)>, k: &str) -> (r: Option<String>)
    ensures
        match r {
            Some(v) => lookup(m@, k@) == Some(v@),
            None => lookup(m@, k@) is None,
        },
{
    let n: usize = m.len();
    let mut i: usize = 0;
    proof {
        assert(m@.skip(0) =~= m@);
    }
    while i < n
        invariant
            n == m@.len(),
            i <= n,
            forall|j: int| 0 <= j < i ==> m@[j].0@ != k@,
            lookup(m@, k@) == lookup(m@.skip(i as int), k@),
        decreases n - i,
    {
        proof {
            assert(m@.skip(i as int)[0] == m@[i as int]);
            assert(m@.skip(i as int).drop_first() =~= m@.skip(i + 1 as int));
        }
        if str_eq(m[i].0.as_str(), k) {
            return Some(m[i].1.clone());
        }
        i += 1;
    }
    proof {
        assert(m@.skip(n as int) =~= Seq::<(String, String)>::empty());
    }
    None
}

/// Whether the list of strings holds one reading `x`.
pub fn vec_contains_str(v: &Vec<String>, x: &str) -> (r: bool)
    ensures
        r == views(v@).contains(x@),
{
    let n: usize = v.len();
    let mut i: usize = 0;
    while i < n
        invariant
            n == v@.len(),
            i <= n,
            forall|j: int| 0 <= j < i ==> views(v@)[j] != x@,
        decreases n - i,
    {
        if str_eq(v[i].as_str(), x) {
            proof {
                assert(views(v@)[i as int] == x@);
            }
            return true;
        }
        i += 1;
    }
    false
}

/// No two strings in the list read the same: the list behaves as a set
/// that remembers insertion order.
pub open spec fn distinct_views(s: Seq<Seq<char>>) -> bool {
    forall|i: int, j: int| 0 <= i < j < s.len() ==> s[i] != s[j]
}

/// Adds `x` to a distinct list unless an equal string is already there.
pub fn set_insert(v: &mut Vec<String>, x: String)
    requires
        distinct_views(views(old(v)@)),
    ensures
        distinct_views(views(final(v)@)),
        views(final(v)@) == if views(old(v)@).contains(x@) {
            views(old(v)@)
        } else {
            views(old(v)@).push(x@)
        },
{
    if !vec_contains_str(v, x.as_str()) {
        v.push(x);
        proof {
            assert(views(v@) =~= views(old(v)@).push(x@));
        }
    } else {
        proof {
            assert(views(v@) =~= views(old(v)@));
        }
    }
}

/// Strictly ascending in the lexicographic order; in particular all
/// entries are distinct.
pub open spec fn sorted_lt(s: Seq<Seq<char>>) -> bool {
    forall|i: int, j: int| 0 <= i < j < s.len() ==> lex_lt(s[i], s[j])
}

/// Inserts `x` into a strictly sorted list, keeping it strictly
/// sorted; an equal entry is left alone.
pub fn sorted_insert(v: &mut Vec<String>, x: String)
    requires
        sorted_lt(views(old(v)@)),
    ensures
        sorted_lt(views(final(v)@)),
        forall|q: Seq<char>| #[trigger]
            views(final(v)@).contains(q) <==> (views(old(v)@).contains(q) || q == x@),
{
    let ghost s0 = views(old(v)@);
    let n: usize = v.len();
    let mut i: usize = 0;
    while i < n
        invariant
            n == v@.len(),
            v@ == old(v)@,
            sorted_lt(s0),
            s0 == views(v@),
            i <= n,
            forall|j: int| 0 <= j < i ==> lex_lt(s0[j], x@),
        decreases n - i,
    {
        if !str_lt(v[i].as_str(), x.as_str()) {
            if str_eq(v[i].as_str(), x.as_str()) {
                proof {
                    assert(views(v@).contains(x@)) by {
                        assert(views(v@)[i as int] == x@);
                    }
                }
                return ;
            }
            proof {
                lemma_lex_connected(s0[i as int], x@);
                assert(lex_lt(x@, s0[i as int]));
            }
            v.insert(i, x);
            proof {
                let s1 = views(v@);
                assert(s1.len() == s0.len() + 1);
                assert(forall|j: int| 0 <= j < i ==> s1[j] == s0[j]);
                assert(s1[i as int] == x@);
                assert(forall|j: int| i < j < s1.len() ==> s1[j] == s0[j - 1]);
                assert forall|a: int, b: int| 0 <= a < b < s1.len() implies lex_lt(s1[a], s1[b]) by {
                    if b < i {
                        assert(lex_lt(s0[a], s0[b]));
                    } else if b == i {
                        assert(lex_lt(s0[a], x@));
                    } else if a == i {
                        if b - 1 > i {
                            assert(lex_lt(s0[i as int], s0[b - 1]));
                            lemma_lex_trans(x@, s0[i as int], s0[b - 1]);
                        } else {
                            assert(s1[b] == s0[i as int]);
                        }
                    } else if a < i {
                        assert(a < b - 1);
                        assert(lex_lt(s0[a], s0[b - 1]));
                    } else {
                        assert(lex_lt(s0[a - 1], s0[b - 1]));
                    }
                }
                assert forall|q: Seq<char>| #[trigger]
                    s1.contains(q) <==> (s0.contains(q) || q == x@) by {
                    if s1.contains(q) {
                        let w = choose|w: int| 0 <= w < s1.len() && s1[w] == q;
                        if w < i {
                            assert(s0[w] == q);
                        } else if w > i {
                            assert(s0[w - 1] == q);
                        }
                    }
                    if s0.contains(q) {
                        let w = choose|w: int| 0 <= w < s0.len() && s0[w] == q;
                        if w < i {
                            assert(s1[w] == q);
                        } else {
                            assert(s1[w + 1] == q);
                        }
                    }
                    if q == x@ {
                        assert(s1[i as int] == q);
                    }
                }
            }
            return ;
        }
        i += 1;
    }
    v.push(x);
    proof {
        let s1 = views(v@);
        assert(s1 =~= s0.push(x@));
        assert forall|a: int, b: int| 0 <= a < b < s1.len() implies lex_lt(s1[a], s1[b]) by {
            if b == s0.len() {
                assert(lex_lt(s0[a], x@));
            }
        }
        assert forall|q: Seq<char>| #[trigger] s1.contains(q) <==> (s0.contains(q) || q == x@) by {
            if s1.contains(q) {
                let w = choose|w: int| 0 <= w < s1.len() && s1[w] == q;
                if w < s0.len() {
                    assert(s0[w] == q);
                }
            }
            if s0.contains(q) {
                let w = choose|w: int| 0 <= w < s0.len() && s0[w] == q;
                assert(s1[w] == q);
            }
            if q == x@ {
                assert(s1[s0.len() as int] == q);
            }
        }
    }
}

/// A strictly sorted list is determined by what it holds: any two
/// accumulation orders that end with the same member set render the
/// same list. This is what makes cfg-value accumulation a set, not a
/// list.
pub proof fn lemma_sorted_canonical(s1: Seq<Seq<char>>, s2: Seq<Seq<char>>)
    requires
        sorted_lt(s1),
        sorted_lt(s2),
        forall|q: Seq<char>| #[trigger] s1.contains(q) <==> s2.contains(q),
    ensures
        s1 == s2,
    decreases s1.len(),
{
    if s1.len() == 0 {
        if s2.len() > 0 {
            assert(s2.contains(s2[0])) by {
                assert(s2[0] == s2[0]);
            }
            assert(s1.contains(s2[0]));
        }
        assert(s1 =~= s2);
    } else if s2.len() == 0 {
        assert(s1.contains(s1[0])) by {
            assert(s1[0] == s1[0]);
        }
        assert(s2.contains(s1[0]));
    } else {
        assert(s1.contains(s1[0])) by {
            assert(s1[0] == s1[0]);
        }
        assert(s2.contains(s2[0])) by {
            assert(s2[0] == s2[0]);
        }
        assert(s2.contains(s1[0]));
        assert(s1.contains(s2[0]));
        let a = choose|a: int| 0 <= a < s2.len() && s2[a] == s1[0];
        let b = choose|b: int| 0 <= b < s1.len() && s1[b] == s2[0];
        if s1[0] != s2[0] {
            assert(a != 0);
            assert(b != 0);
            assert(lex_lt(s2[0], s2[a]));
            assert(lex_lt(s1[0], s1[b]));
            lemma_lex_trans(s1[0], s2[0], s1[0]);
            lemma_lex_irrefl(s1[0]);
        }
        assert(s1[0] == s2[0]);
        assert forall|q: Seq<char>| #[trigger]
            s1.drop_first().contains(q) <==> s2.drop_first().contains(q) by {
            lemma_head_not_in_tail(s1);
            lemma_head_not_in_tail(s2);
            if s1.drop_first().contains(q) {
                let w = choose|w: int| 0 <= w < s1.drop_first().len() && s1.drop_first()[w] == q;
                assert(s1[w + 1] == q);
                assert(s1.contains(q));
                assert(s2.contains(q));
                let u = choose|u: int| 0 <= u < s2.len() && s2[u] == q;
                assert(u != 0);
                assert(s2.drop_first()[u - 1] == q);
            }
            if s2.drop_first().contains(q) {
                let w = choose|w: int| 0 <= w < s2.drop_first().len() && s2.drop_first()[w] == q;
                assert(s2[w + 1] == q);
                assert(s2.contains(q));
                assert(s1.contains(q));
                let u = choose|u: int| 0 <= u < s1.len() && s1[u] == q;
                assert(u != 0);
                assert(s1.drop_first()[u - 1] == q);
            }
        }
        lemma_sorted_canonical(s1.drop_first(), s2.drop_first());
        assert(forall|j: int| 1 <= j < s1.len() ==> s1[j] == s1.drop_first()[j - 1]);
        assert(forall|j: int| 1 <= j < s2.len() ==> s2[j] == s2.drop_first()[j - 1]);
        assert(s1.len() == s2.len());
        assert(s1 =~= s2);
    }
}

/// The head of a strictly sorted list never reappears in its tail.
proof fn lemma_head_not_in_tail(s: Seq<Seq<char>>)
    requires
        sorted_lt(s),
        s.len() > 0,
    ensures
        forall|w: int| 0 <= w < s.drop_first().len() ==> s.drop_first()[w] != s[0],
{
    assert forall|w: int| 0 <= w < s.drop_first().len() implies s.drop_first()[w] != s[0] by {
        assert(s.drop_first()[w] == s[w + 1]);
        assert(lex_lt(s[0], s[w + 1]));
        if s[w + 1] == s[0] {
            lemma_lex_irrefl(s[0]);
        }
    }
}


/// No two entries share a key, for any value type.
pub open spec fn gen_keys_distinct<V>(m: Seq<(String, V)>) -> bool {
    forall|i: int, j: int| 0 <= i < j < m.len() ==> m[i].0@ != m[j].0@
}

/// The value stored under `k`, if any, for any value type.
pub open spec fn gen_lookup<V>(m: Seq<(String, V)>, k: Seq<char>) -> Option<V>
    decreases m.len(),
{
    if m.len() == 0 {
        None
    } else if m[0].0@ == k {
        Some(m[0].1)
    } else {
        gen_lookup(m.drop_first(), k)
    }
}

/// Replacing the value at an existing key's slot keeps all other
/// lookups and distinctness, for any value type.
pub proof fn lemma_gen_update_at<V>(m0: Seq<(String, V)>, m1: Seq<(String, V)>, i: int, k: Seq<char>)
    requires
        gen_keys_distinct(m0),
        0 <= i < m0.len(),
        m0[i].0@ == k,
        m1.len() == m0.len(),
        m1[i].0@ == k,
        forall|j: int| 0 <= j < m0.len() && j != i ==> m1[j] == m0[j],
    ensures
        gen_keys_distinct(m1),
        gen_lookup(m1, k) == Some(m1[i].1),
        forall|q: Seq<char>| q != k ==> gen_lookup(m1, q) == gen_lookup(m0, q),
    decreases m0.len(),
{
    assert(forall|a: int, b: int| 0 <= a < b < m1.len() ==> m1[a].0@ != m1[b].0@) by {
        assert(forall|j: int| 0 <= j < m0.len() ==> m1[j].0@ == m0[j].0@);
    }
    if i == 0 {
        assert(m1.drop_first() =~= m0.drop_first());
        assert forall|q: Seq<char>| q != k implies gen_lookup(m1, q) == gen_lookup(m0, q) by {
            assert(gen_lookup(m1, q) == gen_lookup(m1.drop_first(), q));
            assert(gen_lookup(m0, q) == gen_lookup(m0.drop_first(), q));
        }
    } else {
        assert(m1[0] == m0[0]);
        assert(forall|j: int|
            0 <= j < m0.drop_first().len() && j != i - 1 ==> m1.drop_first()[j]
                == m0.drop_first()[j]);
        assert(m0.drop_first()[i - 1] == m0[i]);
        assert(m1.drop_first()[i - 1] == m1[i]);
        lemma_gen_update_at(m0.drop_first(), m1.drop_first(), i - 1, k);
        assert(m0[0].0@ != k);
        assert(gen_lookup(m1, k) == gen_lookup(m1.drop_first(), k));
        assert forall|q: Seq<char>| q != k implies gen_lookup(m1, q) == gen_lookup(m0, q) by {
            if q == m0[0].0@ {
                assert(gen_lookup(m1, q) == Some(m1[0].1));
                assert(gen_lookup(m0, q) == Some(m0[0].1));
            } else {
                assert(gen_lookup(m1, q) == gen_lookup(m1.drop_first(), q));
                assert(gen_lookup(m0, q) == gen_lookup(m0.drop_first(), q));
            }
        }
    }
}

/// Appending a fresh key finds it at the end and keeps all other
/// lookups, for any value type.
pub proof fn lemma_gen_push<V>(m0: Seq<(String, V)>, kk: String, vv: V)
    requires
        forall|j: int| 0 <= j < m0.len() ==> m0[j].0@ != kk@,
    ensures
        gen_lookup(m0.push((kk, vv)), kk@) == Some(vv),
        forall|q: Seq<char>| q != kk@ ==> gen_lookup(m0.push((kk, vv)), q) == gen_lookup(m0, q),
    decreases m0.len(),
{
    let m1 = m0.push((kk, vv));
    if m0.len() == 0 {
        assert(m1[0] == (kk, vv));
        assert(m1.drop_first() =~= m0);
        assert forall|q: Seq<char>| q != kk@ implies gen_lookup(m1, q) == gen_lookup(m0, q) by {
            assert(gen_lookup(m1, q) == gen_lookup(m1.drop_first(), q));
        }
    } else {
        assert(m1[0] == m0[0]);
        assert(m1.drop_first() =~= m0.drop_first().push((kk, vv)));
        assert(forall|j: int| 0 <= j < m0.drop_first().len() ==> m0.drop_first()[j] == m0[j + 1]);
        lemma_gen_push(m0.drop_first(), kk, vv);
        assert(m0[0].0@ != kk@);
        assert(gen_lookup(m1, kk@) == gen_lookup(m1.drop_first(), kk@));
        assert forall|q: Seq<char>| q != kk@ implies gen_lookup(m1, q) == gen_lookup(m0, q) by {
            if q == m0[0].0@ {
                assert(gen_lookup(m1, q) == Some(m1[0].1));
                assert(gen_lookup(m0, q) == Some(m0[0].1));
            } else {
                assert(gen_lookup(m1, q) == gen_lookup(m1.drop_first(), q));
                assert(gen_lookup(m0, q) == gen_lookup(m0.drop_first(), q));
            }
        }
    }
}


/// An entry anywhere settles the lookup of its key when keys are
/// distinct, for any value type.
pub proof fn lemma_gen_lookup_at<V>(m: Seq<(String, V)>, i: int)
    requires
        gen_keys_distinct(m),
        0 <= i < m.len(),
    ensures
        gen_lookup(m, m[i].0@) == Some(m[i].1),
    decreases m.len(),
{
    if i > 0 {
        assert(m[0].0@ != m[i].0@);
        assert(m.drop_first()[i - 1] == m[i]);
        lemma_gen_lookup_at(m.drop_first(), i - 1);
    }
}

/// A key no entry holds is not found, for any value type.
pub proof fn lemma_gen_lookup_none<V>(m: Seq<(String, V)>, k: Seq<char>)
    requires
        forall|i: int| 0 <= i < m.len() ==> m[i].0@ != k,
    ensures
        gen_lookup(m, k) is None,
    decreases m.len(),
{
    if m.len() > 0 {
        assert(forall|i: int| 0 <= i < m.drop_first().len() ==> m.drop_first()[i] == m[i + 1]);
        lemma_gen_lookup_none(m.drop_first(), k);
    }
}

/// The spec view of a key-value list: both sides as characters.
pub open spec fn pair_views(m: Seq<(String, String)>) -> Seq<(Seq<char>, Seq<char>)> {
    m.map_values(|p: (String, String)| (p.0@, p.1@))
}

/// The keys of a list, for any value type.
pub open spec fn gen_key_views<V>(m: Seq<(String, V)>) -> Seq<Seq<char>> {
    m.map_values(|p: (String, V)| p.0@)
}

} // verus!

