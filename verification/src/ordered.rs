//! Texts in lexicographic order: the order of `str`'s `Ord`, by which the
//! vault keeps its sets of names and keys.
use vstd::prelude::*;
use crate::text::chars_of;

verus! {

/// `a` comes before `b` in lexicographic order of characters.
pub open spec fn lex_lt(a: Seq<char>, b: Seq<char>) -> bool
    decreases a.len(),
{
    if a.len() == 0 {
        b.len() > 0
    } else if b.len() == 0 {
        false
    } else if a[0] < b[0] {
        true
    } else if a[0] == b[0] {
        lex_lt(a.skip(1), b.skip(1))
    } else {
        false
    }
}

/// Exactly one of `a < b`, `a == b`, `b < a` holds.
pub proof fn lemma_lex_trichotomy(a: Seq<char>, b: Seq<char>)
    ensures
        a == b || lex_lt(a, b) || lex_lt(b, a),
        !(lex_lt(a, b) && lex_lt(b, a)),
        !lex_lt(a, a),
    decreases a.len(),
{
    if a.len() > 0 && b.len() > 0 && a[0] == b[0] {
        lemma_lex_trichotomy(a.skip(1), b.skip(1));
        if a.skip(1) == b.skip(1) {
            assert(a =~= seq![a[0]] + a.skip(1));
            assert(b =~= seq![b[0]] + b.skip(1));
        }
    }
    if a.len() > 0 {
        lemma_lex_trichotomy(a.skip(1), a.skip(1));
    }
    if a.len() == 0 && b.len() == 0 {
        assert(a =~= b);
    }
}

/// Lexicographic order is transitive.
pub proof fn lemma_lex_transitive(a: Seq<char>, b: Seq<char>, c: Seq<char>)
    requires
        lex_lt(a, b),
        lex_lt(b, c),
    ensures
        lex_lt(a, c),
    decreases a.len(),
{
    if a.len() > 0 && b.len() > 0 && c.len() > 0 && a[0] == b[0] && b[0] == c[0] {
        lemma_lex_transitive(a.skip(1), b.skip(1), c.skip(1));
    }
}

/// Whether `a` comes before `b`.
pub fn text_less(a: &str, b: &str) -> (result: bool)
    ensures
        result == lex_lt(a@, b@),
{
    let x = chars_of(a);
    let y = chars_of(b);
    let mut i: usize = 0;
    assert(x@.skip(0) =~= x@);
    assert(y@.skip(0) =~= y@);
    while i < x.len() && i < y.len() && x[i] == y[i]
        invariant
            x@ == a@,
            y@ == b@,
            i <= x@.len(),
            i <= y@.len(),
            lex_lt(a@, b@) == lex_lt(x@.skip(i as int), y@.skip(i as int)),
        decreases x@.len() - i,
    {
        proof {
            assert(x@.skip(i as int).skip(1) =~= x@.skip(i + 1));
            assert(y@.skip(i as int).skip(1) =~= y@.skip(i + 1));
        }
        i = i + 1;
    }
    if i == x.len() {
        i < y.len()
    } else if i == y.len() {
        false
    } else {
        x[i] < y[i]
    }
}

/// The views of a vector of strings.
pub open spec fn string_views(v: Seq<String>) -> Seq<Seq<char>> {
    v.map_values(|s: String| s@)
}

/// Each text comes strictly before every later one.
pub open spec fn strictly_sorted(s: Seq<Seq<char>>) -> bool {
    forall|i: int, j: int| 0 <= i < j < s.len() ==> lex_lt(#[trigger] s[i], #[trigger] s[j])
}

/// Adds `item` to a strictly sorted vector of texts, unless it holds it.
pub fn insert_sorted(v: &mut Vec<String>, item: String)
    requires
        strictly_sorted(string_views(old(v)@)),
    ensures
        strictly_sorted(string_views(final(v)@)),
        string_views(final(v)@).to_set() == string_views(old(v)@).to_set().insert(item@),
{
    let ghost before = string_views(v@);
    let mut p: usize = 0;
    while p < v.len() && text_less(v[p].as_str(), item.as_str())
        invariant
            p <= v@.len(),
            before == string_views(v@),
            strictly_sorted(before),
            forall|k: int| 0 <= k < p ==> lex_lt(#[trigger] before[k], item@),
        decreases v@.len() - p,
    {
        p = p + 1;
    }
    if p < v.len() && crate::text::str_eq(v[p].as_str(), item.as_str()) {
        proof {
            assert(before[p as int] == item@);
            assert(before.to_set() =~= before.to_set().insert(item@));
        }
        return;
    }
    proof {
        if p < v@.len() {
            assert(!lex_lt(before[p as int], item@));
            lemma_lex_trichotomy(before[p as int], item@);
        }
    }
    v.insert(p, item);
    proof {
        let after = string_views(v@);
        assert(after =~= before.insert(p as int, item@));
        assert forall|i: int, j: int| 0 <= i < j < after.len() implies lex_lt(
            #[trigger] after[i],
            #[trigger] after[j],
        ) by {
            if j < p {
                assert(after[i] == before[i] && after[j] == before[j]);
            } else if j == p {
                assert(after[i] == before[i]);
            } else if i == p {
                assert(after[j] == before[j - 1]);
                if j - 1 > p {
                    assert(lex_lt(before[p as int], before[j - 1]));
                    lemma_lex_transitive(item@, before[p as int], before[j - 1]);
                }
            } else if i < p {
                assert(after[i] == before[i] && after[j] == before[j - 1]);
                if j - 1 >= p {
                    if j - 1 == p {
                        lemma_lex_transitive(before[i], item@, before[j - 1]);
                    } else {
                        assert(lex_lt(before[i], before[j - 1]));
                    }
                }
            } else {
                assert(after[i] == before[i - 1] && after[j] == before[j - 1]);
            }
        }
        assert(after.to_set() =~= before.to_set().insert(item@)) by {
            assert forall|x: Seq<char>| after.to_set().contains(x) <==> before.to_set().insert(
                item@,
            ).contains(x) by {
                if after.to_set().contains(x) {
                    let k = choose|k: int| 0 <= k < after.len() && after[k] == x;
                    if k < p {
                        assert(before[k] == x);
                    } else if k > p {
                        assert(before[k - 1] == x);
                    }
                }
                if before.to_set().contains(x) {
                    let k = choose|k: int| 0 <= k < before.len() && before[k] == x;
                    if k < p {
                        assert(after[k] == x);
                    } else {
                        assert(after[k + 1] == x);
                    }
                }
                if x == item@ {
                    assert(after[p as int] == x);
                }
            }
        }
    }
}

/// A strictly sorted list holds each text once, so it is as long as its set.
pub proof fn lemma_sorted_set_len(s: Seq<Seq<char>>)
    requires
        strictly_sorted(s),
    ensures
        s.no_duplicates(),
        s.len() == s.to_set().len(),
{
    assert forall|i: int, j: int| 0 <= i < s.len() && 0 <= j < s.len() && i != j implies s[i] != s[j] by {
        if i < j {
            assert(lex_lt(s[i], s[j]));
        } else {
            assert(lex_lt(s[j], s[i]));
        }
        lemma_lex_trichotomy(s[i], s[j]);
    }
    s.unique_seq_to_set();
}

/// An empty list, which is sorted.
pub proof fn lemma_empty_sorted()
    ensures
        strictly_sorted(Seq::<Seq<char>>::empty()),
        Seq::<Seq<char>>::empty().to_set() == Set::<Seq<char>>::empty(),
{
    assert(Seq::<Seq<char>>::empty().to_set() =~= Set::<Seq<char>>::empty());
}

/// The texts of key-value entries.
pub open spec fn entry_views(v: Seq<(String, String)>) -> Seq<(Seq<char>, Seq<char>)> {
    v.map_values(|e: (String, String)| (e.0@, e.1@))
}

/// The keys of entries, in order.
pub open spec fn entry_keys(es: Seq<(Seq<char>, Seq<char>)>) -> Seq<Seq<char>> {
    es.map_values(|e: (Seq<char>, Seq<char>)| e.0)
}

/// The map the entries stand for.
pub open spec fn entries_map(es: Seq<(Seq<char>, Seq<char>)>) -> Map<Seq<char>, Seq<char>>
    decreases es.len(),
{
    if es.len() == 0 {
        Map::empty()
    } else {
        entries_map(es.drop_last()).insert(es.last().0, es.last().1)
    }
}

/// The map's keys are the entries' keys.
pub proof fn lemma_entries_map_dom(es: Seq<(Seq<char>, Seq<char>)>)
    ensures
        entries_map(es).dom() == entry_keys(es).to_set(),
    decreases es.len(),
{
    if es.len() > 0 {
        lemma_entries_map_dom(es.drop_last());
        assert(entry_keys(es) =~= entry_keys(es.drop_last()).push(es.last().0));
        broadcast use vstd::seq_lib::group_seq_properties;
        assert(entries_map(es).dom() =~= entry_keys(es).to_set());
    } else {
        assert(entry_keys(es).to_set() =~= Set::<Seq<char>>::empty());
        assert(entries_map(es).dom() =~= Set::<Seq<char>>::empty());
    }
}

/// Inserting an entry under a new key anywhere inserts it into the map.
pub proof fn lemma_entries_map_insert(es: Seq<(Seq<char>, Seq<char>)>, p: int, e: (Seq<char>, Seq<char>))
    requires
        0 <= p <= es.len(),
        !entry_keys(es).contains(e.0),
    ensures
        entries_map(es.insert(p, e)) == entries_map(es).insert(e.0, e.1),
    decreases es.len(),
{
    if p == es.len() {
        assert(es.insert(p, e) =~= es.push(e));
        assert(es.push(e).drop_last() =~= es);
    } else {
        let init = es.drop_last();
        assert(es.insert(p, e).drop_last() =~= init.insert(p, e));
        assert(es.insert(p, e).last() == es.last());
        assert(!entry_keys(init).contains(e.0)) by {
            if entry_keys(init).contains(e.0) {
                let k = choose|k: int| 0 <= k < entry_keys(init).len() && entry_keys(init)[k] == e.0;
                assert(entry_keys(es)[k] == e.0);
            }
        }
        lemma_entries_map_insert(init, p, e);
        assert(es.last().0 != e.0) by {
            assert(entry_keys(es)[es.len() - 1] == es.last().0);
        }
        assert(entries_map(es.insert(p, e)) =~= entries_map(es).insert(e.0, e.1));
    }
}

/// Looks a key up in sorted entries.
pub fn find_entry(entries: &Vec<(String, String)>, key: &str) -> (result: Option<usize>)
    ensures
        match result {
            Some(i) => i < entries@.len() && entries@[i as int].0@ == key@,
            None => !entry_keys(entry_views(entries@)).contains(key@),
        },
{
    let mut i: usize = 0;
    while i < entries.len()
        invariant
            i <= entries@.len(),
            forall|j: int| 0 <= j < i ==> entries@[j].0@ != key@,
        decreases entries@.len() - i,
    {
        if crate::text::str_eq(entries[i].0.as_str(), key) {
            return Some(i);
        }
        i = i + 1;
    }
    proof {
        if entry_keys(entry_views(entries@)).contains(key@) {
            let k = choose|k: int|
                0 <= k < entry_keys(entry_views(entries@)).len() && entry_keys(entry_views(entries@))[k]
                    == key@;
            assert(entries@[k].0@ == key@);
        }
    }
    None
}

/// Adds an entry under a key the sorted entries do not hold, keeping them
/// sorted by key.
pub fn insert_entry(entries: &mut Vec<(String, String)>, key: String, value: String)
    requires
        strictly_sorted(entry_keys(entry_views(old(entries)@))),
        !entry_keys(entry_views(old(entries)@)).contains(key@),
    ensures
        strictly_sorted(entry_keys(entry_views(final(entries)@))),
        entries_map(entry_views(final(entries)@)) == entries_map(entry_views(old(entries)@)).insert(
            key@,
            value@,
        ),
{
    let ghost before = entry_views(entries@);
    let ghost ks = entry_keys(before);
    let mut p: usize = 0;
    while p < entries.len() && text_less(entries[p].0.as_str(), key.as_str())
        invariant
            p <= entries@.len(),
            before == entry_views(entries@),
            ks == entry_keys(before),
            strictly_sorted(ks),
            forall|k: int| 0 <= k < p ==> lex_lt(#[trigger] ks[k], key@),
        decreases entries@.len() - p,
    {
        proof {
            assert(ks[p as int] == entries@[p as int].0@);
        }
        p = p + 1;
    }
    proof {
        if p < entries@.len() {
            assert(ks[p as int] == entries@[p as int].0@);
            assert(!lex_lt(ks[p as int], key@));
            lemma_lex_trichotomy(ks[p as int], key@);
            assert(ks[p as int] != key@);
        }
    }
    let ghost item = (key@, value@);
    entries.insert(p, (key, value));
    proof {
        let after = entry_views(entries@);
        assert(after =~= before.insert(p as int, item));
        let aks = entry_keys(after);
        assert(aks =~= ks.insert(p as int, item.0));
        assert forall|i: int, j: int| 0 <= i < j < aks.len() implies lex_lt(
            #[trigger] aks[i],
            #[trigger] aks[j],
        ) by {
            if j < p {
                assert(aks[i] == ks[i] && aks[j] == ks[j]);
            } else if j == p {
                assert(aks[i] == ks[i]);
            } else if i == p {
                assert(aks[j] == ks[j - 1]);
                if j - 1 > p {
                    assert(lex_lt(ks[p as int], ks[j - 1]));
                    lemma_lex_transitive(item.0, ks[p as int], ks[j - 1]);
                } else {
                    lemma_lex_trichotomy(ks[p as int], item.0);
                }
            } else if i < p {
                assert(aks[i] == ks[i] && aks[j] == ks[j - 1]);
                if j - 1 == p {
                    lemma_lex_trichotomy(ks[p as int], item.0);
                    lemma_lex_transitive(ks[i], item.0, ks[j - 1]);
                } else {
                    assert(lex_lt(ks[i], ks[j - 1]));
                }
            } else {
                assert(aks[i] == ks[i - 1] && aks[j] == ks[j - 1]);
            }
        }
        lemma_entries_map_insert(before, p as int, item);
    }
}

} // verus!
