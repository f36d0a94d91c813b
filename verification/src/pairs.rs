//! Maps from names to values held as vectors of pairs, one pair per name.

use vstd::prelude::*;

use crate::text::str_eq;

verus! {

/// The map that a sequence of pairs stands for; a later pair overrides an
/// earlier pair with the same name.
pub open spec fn pairs_map(s: Seq<(String, String)>) -> Map<Seq<char>, Seq<char>>
    decreases s.len(),
{
    if s.len() == 0 {
        Map::empty()
    } else {
        pairs_map(s.drop_last()).insert(s.last().0@, s.last().1@)
    }
}

/// Whether no name occurs twice among the pairs.
pub open spec fn names_unique(s: Seq<(String, String)>) -> bool {
    forall|i: int, j: int| 0 <= i < j < s.len() ==> s[i].0@ != s[j].0@
}

/// A name is in the map exactly when some pair has it, and the last pair
/// that has it gives its value.
pub proof fn lemma_pairs_map_index(s: Seq<(String, String)>)
    requires
        names_unique(s),
    ensures
        forall|k: Seq<char>|
            pairs_map(s).contains_key(k) <==> exists|i: int| 0 <= i < s.len() && #[trigger] s[i].0@ == k,
        forall|i: int| 0 <= i < s.len() ==> #[trigger] pairs_map(s)[s[i].0@] == s[i].1@,
        forall|i: int| 0 <= i < s.len() ==> pairs_map(s).contains_key(#[trigger] s[i].0@),
    decreases s.len(),
{
    if s.len() > 0 {
        let d = s.drop_last();
        assert(names_unique(d));
        lemma_pairs_map_index(d);
        assert forall|k: Seq<char>|
            pairs_map(s).contains_key(k) <==> exists|i: int| 0 <= i < s.len() && #[trigger] s[i].0@ == k by {
            if pairs_map(s).contains_key(k) {
                if k != s.last().0@ {
                    assert(pairs_map(d).contains_key(k));
                    let i = choose|i: int| 0 <= i < d.len() && #[trigger] d[i].0@ == k;
                    assert(d[i] == s[i]);
                    assert(s[i].0@ == k);
                } else {
                    assert(s[s.len() - 1].0@ == k);
                }
            }
            if exists|i: int| 0 <= i < s.len() && #[trigger] s[i].0@ == k {
                let i = choose|i: int| 0 <= i < s.len() && #[trigger] s[i].0@ == k;
                if i < d.len() {
                    assert(d[i] == s[i]);
                    assert(d[i].0@ == k);
                }
            }
        }
        assert forall|i: int| 0 <= i < s.len() implies #[trigger] pairs_map(s)[s[i].0@] == s[i].1@ by {
            if i < d.len() {
                assert(d[i] == s[i]);
                assert(s[i].0@ != s.last().0@);
            }
        }
        assert forall|i: int| 0 <= i < s.len() implies pairs_map(s).contains_key(#[trigger] s[i].0@) by {
            if i < d.len() {
                assert(d[i] == s[i]);
            }
        }
    }
}

/// The position of the pair named `name`, if any.
pub fn find_name(pairs: &Vec<(String, String)>, name: &str) -> (r: Option<usize>)
    ensures
        match r {
            Some(i) => i < pairs@.len() && pairs@[i as int].0@ == name@,
            None => forall|i: int| 0 <= i < pairs@.len() ==> pairs@[i].0@ != name@,
        },
{
    let mut i: usize = 0;
    while i < pairs.len()
        invariant
            i <= pairs@.len(),
            forall|j: int| 0 <= j < i ==> pairs@[j].0@ != name@,
        decreases pairs@.len() - i,
    {
        if str_eq(pairs[i].0.as_str(), name) {
            return Some(i);
        }
        i = i + 1;
    }
    None
}

/// The map that a sequence of named entries stands for; a later entry
/// overrides an earlier entry with the same name.
pub open spec fn named_map<V>(s: Seq<(String, V)>) -> Map<Seq<char>, V>
    decreases s.len(),
{
    if s.len() == 0 {
        Map::empty()
    } else {
        named_map(s.drop_last()).insert(s.last().0@, s.last().1)
    }
}

/// Whether no name occurs twice among the entries.
pub open spec fn entry_names_unique<V>(s: Seq<(String, V)>) -> bool {
    forall|i: int, j: int| 0 <= i < j < s.len() ==> s[i].0@ != s[j].0@
}

/// A name is in the map exactly when some entry has it, and that entry
/// gives its value.
pub proof fn lemma_named_map_index<V>(s: Seq<(String, V)>)
    requires
        entry_names_unique(s),
    ensures
        forall|k: Seq<char>|
            named_map(s).contains_key(k) <==> exists|i: int| 0 <= i < s.len() && #[trigger] s[i].0@ == k,
        forall|i: int| 0 <= i < s.len() ==> #[trigger] named_map(s)[s[i].0@] == s[i].1,
        forall|i: int| 0 <= i < s.len() ==> named_map(s).contains_key(#[trigger] s[i].0@),
    decreases s.len(),
{
    if s.len() > 0 {
        let d = s.drop_last();
        assert(entry_names_unique(d));
        lemma_named_map_index(d);
        assert forall|k: Seq<char>|
            named_map(s).contains_key(k) <==> exists|i: int| 0 <= i < s.len() && #[trigger] s[i].0@ == k by {
            if named_map(s).contains_key(k) {
                if k != s.last().0@ {
                    assert(named_map(d).contains_key(k));
                    let i = choose|i: int| 0 <= i < d.len() && #[trigger] d[i].0@ == k;
                    assert(d[i] == s[i]);
                    assert(s[i].0@ == k);
                } else {
                    assert(s[s.len() - 1].0@ == k);
                }
            }
            if exists|i: int| 0 <= i < s.len() && #[trigger] s[i].0@ == k {
                let i = choose|i: int| 0 <= i < s.len() && #[trigger] s[i].0@ == k;
                if i < d.len() {
                    assert(d[i] == s[i]);
                    assert(d[i].0@ == k);
                }
            }
        }
        assert forall|i: int| 0 <= i < s.len() implies #[trigger] named_map(s)[s[i].0@] == s[i].1 by {
            if i < d.len() {
                assert(d[i] == s[i]);
                assert(s[i].0@ != s.last().0@);
            }
        }
        assert forall|i: int| 0 <= i < s.len() implies named_map(s).contains_key(#[trigger] s[i].0@) by {
            if i < d.len() {
                assert(d[i] == s[i]);
            }
        }
    }
}

/// The position of the entry named `name`, if any.
pub fn find_entry<V>(entries: &Vec<(String, V)>, name: &str) -> (r: Option<usize>)
    ensures
        match r {
            Some(i) => i < entries@.len() && entries@[i as int].0@ == name@,
            None => forall|i: int| 0 <= i < entries@.len() ==> entries@[i].0@ != name@,
        },
{
    let mut i: usize = 0;
    while i < entries.len()
        invariant
            i <= entries@.len(),
            forall|j: int| 0 <= j < i ==> entries@[j].0@ != name@,
        decreases entries@.len() - i,
    {
        if str_eq(entries[i].0.as_str(), name) {
            return Some(i);
        }
        i = i + 1;
    }
    None
}

/// Sets the entry named `name` to `value`: the entry that has the name is
/// replaced, or a new entry is added. Returns whether the name was there.
pub fn set_entry<V>(entries: &mut Vec<(String, V)>, name: &str, value: V) -> (replaced: bool)
    requires
        entry_names_unique(old(entries)@),
    ensures
        entry_names_unique(final(entries)@),
        replaced == named_map(old(entries)@).contains_key(name@),
        named_map(final(entries)@) == named_map(old(entries)@).insert(name@, value),
{
    proof {
        lemma_named_map_index(entries@);
    }
    let ghost before = entries@;
    match find_entry(entries, name) {
        Some(i) => {
            let key = name.to_owned();
            let ghost entry = (key, value);
            entries.set(i, (key, value));
            proof {
                let after = entries@;
                assert(after =~= before.update(i as int, entry));
                assert(after[i as int].0@ == name@);
                assert forall|a: int, b: int| 0 <= a < b < after.len() implies after[a].0@ != after[b].0@ by {
                    assert(before[a].0@ != before[b].0@);
                }
                lemma_named_map_index(after);
                let m0 = named_map(before).insert(name@, value);
                assert forall|k: Seq<char>| #[trigger] named_map(after).contains_key(k) == m0.contains_key(k) by {
                    if named_map(after).contains_key(k) {
                        let j = choose|j: int| 0 <= j < after.len() && #[trigger] after[j].0@ == k;
                        if j != i {
                            assert(before[j] == after[j]);
                            assert(named_map(before).contains_key(before[j].0@));
                        }
                    }
                    if m0.contains_key(k) && k != name@ {
                        let j = choose|j: int| 0 <= j < before.len() && #[trigger] before[j].0@ == k;
                        assert(before[j] == after[j]);
                        assert(named_map(after).contains_key(after[j].0@));
                    }
                }
                assert forall|k: Seq<char>| #[trigger] named_map(after).contains_key(k) implies named_map(after)[k] == m0[k] by {
                    let j = choose|j: int| 0 <= j < after.len() && #[trigger] after[j].0@ == k;
                    assert(named_map(after)[after[j].0@] == after[j].1);
                    if j != i {
                        assert(before[j] == after[j]);
                        assert(named_map(before)[before[j].0@] == before[j].1);
                    }
                }
                assert(named_map(after) =~= m0);
            }
            true
        },
        None => {
            let key = name.to_owned();
            entries.push((key, value));
            proof {
                assert(entries@.drop_last() =~= before);
            }
            false
        },
    }
}

} // verus!
