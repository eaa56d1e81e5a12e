//! Session properties kept as a list of `(name, value)` pairs sorted strictly
//! by name, and the map that such a list stands for.
use vstd::prelude::*;
use crate::text::{
    is_normalized, lex_lt, lemma_lex_irreflexive, lemma_lex_transitive, lemma_lex_asymmetric,
    lemma_lex_total, str_eq, str_lt,
};

verus! {

pub type Entry = (Seq<char>, Seq<char>);

pub open spec fn entries_view(v: Seq<(String, String)>) -> Seq<Entry> {
    v.map_values(|p: (String, String)| (p.0@, p.1@))
}

/// Names strictly increasing, hence distinct.
pub open spec fn entries_sorted(s: Seq<Entry>) -> bool {
    forall|i: int, j: int| 0 <= i < j < s.len() ==> lex_lt(#[trigger] s[i].0, #[trigger] s[j].0)
}

pub open spec fn entries_normalized(s: Seq<Entry>) -> bool {
    forall|i: int| 0 <= i < s.len() ==> is_normalized(#[trigger] s[i].0) && is_normalized(s[i].1)
}

pub open spec fn has_name(s: Seq<Entry>, k: Seq<char>) -> bool {
    exists|i: int| 0 <= i < s.len() && #[trigger] s[i].0 == k
}

/// The map from property name to value that a list of entries stands for.
pub open spec fn entries_map(s: Seq<Entry>) -> Map<Seq<char>, Seq<char>> {
    Map::new(
        |k: Seq<char>| has_name(s, k),
        |k: Seq<char>| s[choose|i: int| 0 <= i < s.len() && #[trigger] s[i].0 == k].1,
    )
}

/// The one sorted list of entries that stands for `m`.
pub open spec fn sorted_entries(m: Map<Seq<char>, Seq<char>>) -> Seq<Entry> {
    choose|s: Seq<Entry>| entries_sorted(s) && entries_map(s) == m
}

pub proof fn lemma_entries_map_at(s: Seq<Entry>, i: int)
    requires
        entries_sorted(s),
        0 <= i < s.len(),
    ensures
        entries_map(s).contains_key(s[i].0),
        entries_map(s)[s[i].0] == s[i].1,
{
    assert(has_name(s, s[i].0));
    let j = choose|j: int| 0 <= j < s.len() && #[trigger] s[j].0 == s[i].0;
    if j < i {
        assert(lex_lt(s[j].0, s[i].0));
        lemma_lex_irreflexive(s[i].0);
    } else if i < j {
        assert(lex_lt(s[i].0, s[j].0));
        lemma_lex_irreflexive(s[i].0);
    }
}

/// Two sorted lists that stand for the same map are the same list.
pub proof fn lemma_sorted_unique(s1: Seq<Entry>, s2: Seq<Entry>)
    requires
        entries_sorted(s1),
        entries_sorted(s2),
        entries_map(s1) == entries_map(s2),
    ensures
        s1 == s2,
    decreases s1.len() + s2.len(),
{
    if s1.len() == 0 && s2.len() == 0 {
        assert(s1 =~= s2);
    } else if s1.len() == 0 {
        lemma_entries_map_at(s2, 0);
        assert(!has_name(s1, s2[0].0));
    } else if s2.len() == 0 {
        lemma_entries_map_at(s1, 0);
        assert(!has_name(s2, s1[0].0));
    } else {
        let k1 = s1[0].0;
        lemma_entries_map_at(s1, 0);
        assert(has_name(s2, k1));
        let j = choose|j: int| 0 <= j < s2.len() && #[trigger] s2[j].0 == k1;
        if j > 0 {
            lemma_entries_map_at(s2, 0);
            let k2 = s2[0].0;
            assert(has_name(s1, k2));
            let i = choose|i: int| 0 <= i < s1.len() && #[trigger] s1[i].0 == k2;
            assert(lex_lt(k2, k1));
            if i == 0 {
                lemma_lex_irreflexive(k1);
            } else {
                assert(lex_lt(k1, k2));
                lemma_lex_asymmetric(k1, k2);
            }
        }
        lemma_entries_map_at(s2, 0);
        let t1 = s1.drop_first();
        let t2 = s2.drop_first();
        assert(entries_sorted(t1)) by {
            assert forall|a: int, b: int| 0 <= a < b < t1.len() implies lex_lt(
                #[trigger] t1[a].0,
                #[trigger] t1[b].0,
            ) by {
                assert(t1[a] == s1[a + 1] && t1[b] == s1[b + 1]);
            }
        }
        assert(entries_sorted(t2)) by {
            assert forall|a: int, b: int| 0 <= a < b < t2.len() implies lex_lt(
                #[trigger] t2[a].0,
                #[trigger] t2[b].0,
            ) by {
                assert(t2[a] == s2[a + 1] && t2[b] == s2[b + 1]);
            }
        }
        lemma_drop_first_map(s1);
        lemma_drop_first_map(s2);
        lemma_sorted_unique(t1, t2);
        assert(s1 =~= seq![s1[0]] + t1);
        assert(s2 =~= seq![s2[0]] + t2);
    }
}

proof fn lemma_drop_first_map(s: Seq<Entry>)
    requires
        entries_sorted(s),
        s.len() > 0,
    ensures
        entries_map(s.drop_first()) == entries_map(s).remove(s[0].0),
{
    let t = s.drop_first();
    assert forall|k: Seq<char>| #[trigger] has_name(t, k) <==> (has_name(s, k) && k != s[0].0) by {
        if has_name(t, k) {
            let i = choose|i: int| 0 <= i < t.len() && #[trigger] t[i].0 == k;
            assert(s[i + 1].0 == k);
            assert(lex_lt(s[0].0, s[i + 1].0));
            if k == s[0].0 {
                lemma_lex_irreflexive(k);
            }
        }
        if has_name(s, k) && k != s[0].0 {
            let i = choose|i: int| 0 <= i < s.len() && #[trigger] s[i].0 == k;
            assert(t[i - 1].0 == k);
        }
    }
    assert forall|k: Seq<char>| #[trigger] entries_map(t).contains_key(k) implies entries_map(t)[k]
        == entries_map(s)[k] by {
        let i = choose|i: int| 0 <= i < t.len() && #[trigger] t[i].0 == k;
        lemma_entries_map_at(s, i + 1);
        assert(entries_sorted(t)) by {
            assert forall|a: int, b: int| 0 <= a < b < t.len() implies lex_lt(
                #[trigger] t[a].0,
                #[trigger] t[b].0,
            ) by {
                assert(t[a] == s[a + 1] && t[b] == s[b + 1]);
            }
        }
        lemma_entries_map_at(t, i);
    }
    assert(entries_map(t) =~= entries_map(s).remove(s[0].0));
}

/// The sorted list that stands for a sorted list's map is that list.
pub proof fn lemma_sorted_entries_of(s: Seq<Entry>)
    requires
        entries_sorted(s),
    ensures
        sorted_entries(entries_map(s)) == s,
{
    let m = entries_map(s);
    assert(entries_sorted(s) && entries_map(s) == m);
    let t = sorted_entries(m);
    lemma_sorted_unique(t, s);
}

/// A sorted list whose entries all agree with `m`, and which names every key
/// of `m`, stands for `m`.
pub proof fn lemma_map_of_sorted(t: Seq<Entry>, m: Map<Seq<char>, Seq<char>>)
    requires
        entries_sorted(t),
        forall|i: int| 0 <= i < t.len() ==> #[trigger] m.contains_key(t[i].0) && m[t[i].0] == t[i].1,
        forall|k: Seq<char>| #[trigger] m.contains_key(k) ==> has_name(t, k),
    ensures
        entries_map(t) == m,
{
    assert forall|k: Seq<char>| #[trigger] entries_map(t).contains_key(k) implies m.contains_key(k)
        && entries_map(t)[k] == m[k] by {
        let i = choose|i: int| 0 <= i < t.len() && #[trigger] t[i].0 == k;
        assert(m.contains_key(t[i].0));
        lemma_entries_map_at(t, i);
    }
    assert(entries_map(t) =~= m);
}

/// Position of the first entry whose name does not come before `k`.
fn lower_bound(es: &Vec<(String, String)>, k: &str) -> (i: usize)
    ensures
        i <= es@.len(),
        forall|j: int| 0 <= j < i ==> lex_lt(#[trigger] es@[j].0@, k@),
        i < es@.len() ==> !lex_lt(es@[i as int].0@, k@),
{
    let n = es.len();
    let mut i: usize = 0;
    while i < n
        invariant
            n == es@.len(),
            i <= n,
            forall|j: int| 0 <= j < i ==> lex_lt(#[trigger] es@[j].0@, k@),
        decreases n - i,
    {
        if !str_lt(es[i].0.as_str(), k) {
            return i;
        }
        i = i + 1;
    }
    i
}

/// Set property `k` to `v`, replacing an earlier value of `k`.
pub fn insert_entry(es: &mut Vec<(String, String)>, k: String, v: String)
    requires
        entries_sorted(entries_view(old(es)@)),
        entries_normalized(entries_view(old(es)@)),
        is_normalized(k@),
        is_normalized(v@),
    ensures
        entries_sorted(entries_view(final(es)@)),
        entries_normalized(entries_view(final(es)@)),
        entries_map(entries_view(final(es)@)) == entries_map(entries_view(old(es)@)).insert(k@, v@),
{
    let ghost s = entries_view(es@);
    let ghost kv = k@;
    let ghost vv = v@;
    let p = lower_bound(es, k.as_str());
    let same = p < es.len() && str_eq(es[p].0.as_str(), k.as_str());
    if same {
        es.set(p, (k, v));
    } else {
        es.insert(p, (k, v));
    }
    proof {
        let t = entries_view(es@);
        let m = entries_map(s).insert(kv, vv);
        if same {
            assert(t =~= s.update(p as int, (kv, vv)));
        } else {
            assert(t =~= s.insert(p as int, (kv, vv)));
            if p < s.len() {
                lemma_lex_total(s[p as int].0, kv);
            }
        }
        assert(entries_sorted(t)) by {
            assert forall|a: int, b: int| 0 <= a < b < t.len() implies lex_lt(
                #[trigger] t[a].0,
                #[trigger] t[b].0,
            ) by {
                if same {
                    if a == p {
                        if p + 1 <= b {
                            assert(lex_lt(s[a].0, s[b].0));
                        }
                    }
                } else {
                    if b == p {
                        assert(lex_lt(s[a].0, kv));
                    } else if a == p {
                        if b > p + 1 {
                            assert(lex_lt(s[p as int].0, s[b - 1].0));
                            lemma_lex_transitive(kv, s[p as int].0, s[b - 1].0);
                        }
                    } else if a > p {
                        assert(lex_lt(s[a - 1].0, s[b - 1].0));
                    } else if b > p {
                        assert(lex_lt(s[a].0, s[b - 1].0));
                    }
                }
            }
        }
        assert forall|i: int| 0 <= i < t.len() implies #[trigger] m.contains_key(t[i].0) && m[t[i].0]
            == t[i].1 by {
            if t[i].0 == kv {
                if i < p {
                    assert(lex_lt(t[i].0, t[p as int].0));
                    lemma_lex_irreflexive(kv);
                } else if i > p {
                    assert(lex_lt(t[p as int].0, t[i].0));
                    lemma_lex_irreflexive(kv);
                }
            } else {
                let j = if same || i < p { i } else { i - 1 };
                assert(t[i] == s[j]);
                lemma_entries_map_at(s, j);
            }
        }
        assert forall|kk: Seq<char>| #[trigger] m.contains_key(kk) implies has_name(t, kk) by {
            if kk == kv {
                assert(t[p as int].0 == kv);
            } else {
                let j = choose|j: int| 0 <= j < s.len() && #[trigger] s[j].0 == kk;
                if same || j < p {
                    assert(t[j].0 == kk);
                } else {
                    assert(t[j + 1].0 == kk);
                }
            }
        }
        lemma_map_of_sorted(t, m);
    }
}

/// Remove property `k`, if it is set.
pub fn remove_entry(es: &mut Vec<(String, String)>, k: &str)
    requires
        entries_sorted(entries_view(old(es)@)),
        entries_normalized(entries_view(old(es)@)),
    ensures
        entries_sorted(entries_view(final(es)@)),
        entries_normalized(entries_view(final(es)@)),
        entries_map(entries_view(final(es)@)) == entries_map(entries_view(old(es)@)).remove(k@),
{
    let ghost s = entries_view(es@);
    let p = lower_bound(es, k);
    if p < es.len() && str_eq(es[p].0.as_str(), k) {
        es.remove(p);
        proof {
            let t = entries_view(es@);
            let m = entries_map(s).remove(k@);
            assert(t =~= s.remove(p as int));
            assert(entries_sorted(t)) by {
                assert forall|a: int, b: int| 0 <= a < b < t.len() implies lex_lt(
                    #[trigger] t[a].0,
                    #[trigger] t[b].0,
                ) by {
                    if a >= p {
                        assert(lex_lt(s[a + 1].0, s[b + 1].0));
                    } else if b >= p {
                        assert(lex_lt(s[a].0, s[b + 1].0));
                    }
                }
            }
            assert forall|i: int| 0 <= i < t.len() implies #[trigger] m.contains_key(t[i].0)
                && m[t[i].0] == t[i].1 by {
                let j = if i < p { i } else { i + 1 };
                assert(t[i] == s[j]);
                lemma_entries_map_at(s, j);
                if j < p {
                    assert(lex_lt(s[j].0, s[p as int].0));
                } else {
                    assert(lex_lt(s[p as int].0, s[j].0));
                }
                if s[j].0 == k@ {
                    lemma_lex_irreflexive(k@);
                }
            }
            assert forall|kk: Seq<char>| #[trigger] m.contains_key(kk) implies has_name(t, kk) by {
                let j = choose|j: int| 0 <= j < s.len() && #[trigger] s[j].0 == kk;
                if j < p {
                    assert(t[j].0 == kk);
                } else {
                    assert(j != p);
                    assert(t[j - 1].0 == kk);
                }
            }
            lemma_map_of_sorted(t, m);
        }
    } else {
        proof {
            assert(!has_name(s, k@)) by {
                if has_name(s, k@) {
                    let j = choose|j: int| 0 <= j < s.len() && #[trigger] s[j].0 == k@;
                    if j < p {
                        lemma_lex_irreflexive(k@);
                    } else if j > p {
                        assert(lex_lt(s[p as int].0, s[j].0));
                        lemma_lex_total(s[p as int].0, k@);
                        lemma_lex_asymmetric(s[p as int].0, k@);
                    }
                }
            }
            assert(entries_map(s).remove(k@) =~= entries_map(s));
        }
    }
}

} // verus!
