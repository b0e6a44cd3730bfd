//! Lists of named entries, read as maps from a name to what it names.
//!
//! A list whose names are pairwise distinct stands for a finite map. The
//! types of this crate that are keyed by a string keep such a list and state
//! their contracts over the map.

use vstd::prelude::*;
use crate::text::str_equal;

verus! {

/// The names of the entries, in the order of the list.
pub open spec fn names<V>(entries: Seq<(String, V)>) -> Seq<Seq<char>> {
    Seq::new(entries.len(), |i: int| entries[i].0@)
}

/// The map that a list of entries stands for: each name is mapped to the
/// value of the entry that carries it.
pub open spec fn as_map<V>(entries: Seq<(String, V)>) -> Map<Seq<char>, V> {
    Map::new(
        |name: Seq<char>| names(entries).contains(name),
        |name: Seq<char>| entries[names(entries).index_of(name)].1,
    )
}

/// In a list with distinct names, each entry is what the map holds under its
/// name.
pub proof fn lemma_entry<V>(entries: Seq<(String, V)>, i: int)
    requires
        names(entries).no_duplicates(),
        0 <= i < entries.len(),
    ensures
        as_map(entries).contains_key(entries[i].0@),
        as_map(entries)[entries[i].0@] == entries[i].1,
{
    assert(names(entries)[i] == entries[i].0@);
}

/// The map of a list is finite, and has as many keys as the list has entries
/// when the names are distinct.
pub proof fn lemma_as_map_finite<V>(entries: Seq<(String, V)>)
    requires
        names(entries).no_duplicates(),
    ensures
        as_map(entries).dom().finite(),
        as_map(entries).dom().len() == entries.len(),
        as_map(entries).dom() == names(entries).to_set(),
{
    names(entries).unique_seq_to_set();
}

/// Appending an entry under a new name adds that key to the map.
pub proof fn lemma_push<V>(entries: Seq<(String, V)>, name: String, value: V)
    requires
        names(entries).no_duplicates(),
        !names(entries).contains(name@),
    ensures
        names(entries.push((name, value))) == names(entries).push(name@),
        names(entries.push((name, value))).no_duplicates(),
        as_map(entries.push((name, value))) == as_map(entries).insert(name@, value),
{
    let longer = entries.push((name, value));
    assert(names(longer) =~= names(entries).push(name@));
    assert forall|i: int, j: int|
        0 <= i < names(longer).len() && 0 <= j < names(longer).len() && i != j implies names(
        longer,
    )[i] != names(longer)[j] by {
        if i < entries.len() && j < entries.len() {
            assert(names(entries)[i] != names(entries)[j]);
        }
    }
    assert forall|key: Seq<char>| #[trigger]
        as_map(longer).contains_key(key) <==> as_map(entries).insert(name@, value).contains_key(
            key,
        ) by {
        if names(longer).contains(key) {
            let i = choose|i: int| 0 <= i < names(longer).len() && names(longer)[i] == key;
            if i < entries.len() {
                assert(names(entries)[i] == key);
            }
        }
        if names(entries).contains(key) {
            let i = choose|i: int| 0 <= i < names(entries).len() && names(entries)[i] == key;
            assert(names(longer)[i] == key);
        }
        if key == name@ {
            assert(names(longer)[entries.len() as int] == key);
        }
    }
    assert forall|key: Seq<char>| #[trigger] as_map(longer).contains_key(key) implies as_map(
        longer,
    )[key] == as_map(entries).insert(name@, value)[key] by {
        let i = names(longer).index_of(key);
        lemma_entry(longer, i);
        if i < entries.len() {
            lemma_entry(entries, i);
        }
    }
}

/// Replacing the value of an entry, under the same name, replaces what the
/// map holds under that key.
pub proof fn lemma_update<V>(entries: Seq<(String, V)>, i: int, name: String, value: V)
    requires
        names(entries).no_duplicates(),
        0 <= i < entries.len(),
        name@ == entries[i].0@,
    ensures
        names(entries.update(i, (name, value))) == names(entries),
        as_map(entries.update(i, (name, value))) == as_map(entries).insert(name@, value),
{
    let changed = entries.update(i, (name, value));
    assert(names(changed) =~= names(entries));
    assert forall|key: Seq<char>| #[trigger] as_map(changed).contains_key(key) implies as_map(
        changed,
    )[key] == as_map(entries).insert(name@, value)[key] by {
        let j = names(changed).index_of(key);
        lemma_entry(changed, j);
        assert(names(entries)[i] == name@);
        if j != i {
            lemma_entry(entries, j);
        }
    }
    assert(names(entries)[i] == name@);
}

/// Finds the entry with the given name.
pub(crate) fn position<V>(entries: &Vec<(String, V)>, name: &str) -> (found: Option<usize>)
    ensures
        match found {
            Some(i) => i < entries.len() && entries[i as int].0@ == name@,
            None => !names(entries@).contains(name@),
        },
{
    let mut i: usize = 0;
    while i < entries.len()
        invariant
            i <= entries.len(),
            forall|j: int| 0 <= j < i ==> entries[j].0@ != name@,
        decreases entries.len() - i,
    {
        if str_equal(entries[i].0.as_str(), name) {
            return Some(i);
        }
        i += 1;
    }
    assert(forall|j: int| 0 <= j < names(entries@).len() ==> names(entries@)[j] != name@);
    None
}

} // verus!
