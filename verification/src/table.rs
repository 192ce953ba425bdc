//! Values kept under names, in the order in which the names came.
//!
//! A value put under a name that is there already takes the place of the old
//! one, so no name stands twice.

use vstd::prelude::*;

verus! {

/// The names of `entries`, one for one.
pub open spec fn names<T>(entries: Seq<(String, T)>) -> Seq<Seq<char>> {
    Seq::new(entries.len(), |i: int| entries[i].0@)
}

/// The names of `entries`, one for one.
pub open spec fn keys<V>(entries: Seq<(Seq<char>, V)>) -> Seq<Seq<char>> {
    Seq::new(entries.len(), |i: int| entries[i].0)
}

/// Where `name` stands first in `names` at or after `from`, or the length of
/// `names` if it does not.
pub open spec fn first_named(names: Seq<Seq<char>>, name: Seq<char>, from: int) -> int
    decreases names.len() - from,
{
    if from < 0 || from >= names.len() {
        names.len() as int
    } else if names[from] == name {
        from
    } else {
        first_named(names, name, from + 1)
    }
}

/// The entries after `value` is put under `name`: in the place of the first
/// entry of that name, or at the end if there is none.
pub open spec fn spec_put<V>(entries: Seq<(Seq<char>, V)>, name: Seq<char>, value: V) -> Seq<
    (Seq<char>, V),
> {
    let i = first_named(keys(entries), name, 0);
    if i < entries.len() {
        entries.update(i, (name, value))
    } else {
        entries.push((name, value))
    }
}

/// The value under `name`, if there is one.
pub open spec fn spec_get<V>(entries: Seq<(Seq<char>, V)>, name: Seq<char>) -> Option<V> {
    let i = first_named(keys(entries), name, 0);
    if i < entries.len() {
        Some(entries[i].1)
    } else {
        None
    }
}

/// Whether no name stands twice.
pub open spec fn distinct(names: Seq<Seq<char>>) -> bool {
    forall|i: int, j: int| 0 <= i < j < names.len() ==> names[i] != names[j]
}

/// Where `name` is found first, it stands, and not before.
pub proof fn lemma_first_named(names: Seq<Seq<char>>, name: Seq<char>, from: int)
    requires
        0 <= from <= names.len(),
    ensures
        from <= first_named(names, name, from) <= names.len(),
        first_named(names, name, from) < names.len() ==> names[first_named(names, name, from)]
            == name,
        forall|i: int| from <= i < first_named(names, name, from) ==> names[i] != name,
    decreases names.len() - from,
{
    if from < names.len() && names[from] != name {
        lemma_first_named(names, name, from + 1);
    }
}

/// Putting a value under a name keeps the names distinct, and the value is
/// then found under that name.
pub proof fn lemma_put<V>(entries: Seq<(Seq<char>, V)>, name: Seq<char>, value: V)
    requires
        distinct(keys(entries)),
    ensures
        distinct(keys(spec_put(entries, name, value))),
        spec_get(spec_put(entries, name, value), name) == Some(value),
{
    let old_keys = keys(entries);
    let after = spec_put(entries, name, value);
    let new_keys = keys(after);
    lemma_first_named(old_keys, name, 0);
    let i = first_named(old_keys, name, 0);
    assert forall|a: int, b: int| 0 <= a < b < new_keys.len() implies new_keys[a] != new_keys[b] by {
        if i < entries.len() {
            assert(new_keys[a] == old_keys[a]);
            assert(new_keys[b] == old_keys[b]);
        } else if b < entries.len() {
            assert(new_keys[a] == old_keys[a]);
            assert(new_keys[b] == old_keys[b]);
        } else {
            assert(new_keys[a] == old_keys[a]);
        }
    }
    lemma_first_named(new_keys, name, 0);
    let j = first_named(new_keys, name, 0);
    if i < entries.len() {
        assert(new_keys[i] == name);
        if j < i {
            assert(new_keys[j] == old_keys[j]);
        }
    } else {
        assert(new_keys[entries.len() as int] == name);
        if j < entries.len() {
            assert(new_keys[j] == old_keys[j]);
        }
    }
}

/// Finds where `name` stands first in `entries`; the length of `entries` if
/// it does not.
pub fn find<T>(entries: &Vec<(String, T)>, name: &String) -> (i: usize)
    ensures
        i == first_named(names(entries@), name@, 0),
        i <= entries@.len(),
        i < entries@.len() ==> entries@[i as int].0@ == name@,
{
    let mut i: usize = 0;
    while i < entries.len()
        invariant
            i <= entries@.len(),
            first_named(names(entries@), name@, 0) == first_named(names(entries@), name@, i as int),
        decreases entries@.len() - i,
    {
        if entries[i].0 == *name {
            return i;
        }
        i += 1;
    }
    i
}

/// Puts `value` under `name`: in the place of the entry of that name, or at
/// the end if there is none.
pub fn put<T>(entries: &mut Vec<(String, T)>, name: String, value: T)
    ensures
        ({
            let i = first_named(names(old(entries)@), name@, 0);
            final(entries)@ == if i < old(entries)@.len() {
                old(entries)@.update(i, (name, value))
            } else {
                old(entries)@.push((name, value))
            }
        }),
{
    let i = find(entries, &name);
    if i < entries.len() {
        entries[i] = (name, value);
    } else {
        entries.push((name, value));
    }
}

} // verus!
