//! Values kept by name in a list: the last entry of a name holds its value.

use vstd::prelude::*;
use crate::text::text_eq;

verus! {

/// The value of `name` among `entries`: that of its last entry.
pub open spec fn entry_of<V>(entries: Seq<(String, V)>, name: Seq<char>) -> Option<V>
    decreases entries.len(),
{
    if entries.len() == 0 {
        None
    } else if entries.last().0@ == name {
        Some(entries.last().1)
    } else {
        entry_of(entries.drop_last(), name)
    }
}

/// Whether `k` is the last entry of `name`.
pub open spec fn last_entry<V>(entries: Seq<(String, V)>, name: Seq<char>, k: int) -> bool {
    &&& 0 <= k < entries.len()
    &&& entries[k].0@ == name
    &&& forall|j: int| k < j < entries.len() ==> (#[trigger] entries[j]).0@ != name
}

/// Replacing the last entry of a name changes that name's value and no
/// other's.
pub proof fn lemma_entry_update<V>(entries: Seq<(String, V)>, k: int, name: String, v: V)
    requires
        last_entry(entries, name@, k),
    ensures
        forall|w: Seq<char>|
            #[trigger] entry_of(entries.update(k, (name, v)), w) == if w == name@ {
                Some(v)
            } else {
                entry_of(entries, w)
            },
    decreases entries.len(),
{
    let updated = entries.update(k, (name, v));
    if k < entries.len() - 1 {
        let rest = entries.drop_last();
        assert forall|j: int| k < j < rest.len() implies (#[trigger] rest[j]).0@ != name@ by {
            assert(rest[j] == entries[j]);
        }
        lemma_entry_update(rest, k, name, v);
        assert(updated.drop_last() =~= rest.update(k, (name, v)));
        assert(updated.last() == entries.last());
        assert(entries.last() == entries[entries.len() - 1]);
        assert forall|w: Seq<char>|
            #[trigger] entry_of(updated, w) == if w == name@ {
                Some(v)
            } else {
                entry_of(entries, w)
            } by {
            assert(entry_of(rest.update(k, (name, v)), w) == if w == name@ {
                Some(v)
            } else {
                entry_of(rest, w)
            });
        }
    } else {
        assert(updated.drop_last() =~= entries.drop_last());
        assert forall|w: Seq<char>|
            #[trigger] entry_of(updated, w) == if w == name@ {
                Some(v)
            } else {
                entry_of(entries, w)
            } by {
            if w != name@ {
                assert(entries.last().0@ == name@);
            }
        }
    }
}

/// The position of the last entry of `name`, if any.
pub fn find_entry<V>(entries: &Vec<(String, V)>, name: &str) -> (res: Option<usize>)
    ensures
        match res {
            Some(k) => last_entry(entries@, name@, k as int) && entry_of(entries@, name@) == Some(entries@[k as int].1),
            None => entry_of(entries@, name@) is None && forall|j: int|
                0 <= j < entries@.len() ==> (#[trigger] entries@[j]).0@ != name@,
        },
{
    let mut i: usize = entries.len();
    assert(entries@.take(i as int) =~= entries@);
    while i > 0
        invariant
            i <= entries@.len(),
            entry_of(entries@, name@) == entry_of(entries@.take(i as int), name@),
            forall|j: int| i <= j < entries@.len() ==> (#[trigger] entries@[j]).0@ != name@,
        decreases i,
    {
        let k = i - 1;
        assert(entries@.take(i as int).drop_last() =~= entries@.take(k as int));
        assert(entries@.take(i as int).last() == entries@[k as int]);
        if text_eq(entries[k].0.as_str(), name) {
            return Some(k);
        }
        i = k;
    }
    None
}

/// Gives `name` the value `v`: its last entry takes it, or a new entry
/// comes last.
pub fn set_entry<V>(entries: &mut Vec<(String, V)>, name: &str, v: V)
    ensures
        forall|w: Seq<char>|
            #[trigger] entry_of(final(entries)@, w) == if w == name@ {
                Some(v)
            } else {
                entry_of(old(entries)@, w)
            },
        final(entries)@.len() <= old(entries)@.len() + 1,
{
    match find_entry(entries, name) {
        Some(k) => {
            let key = entries[k].0.clone();
            proof {
                lemma_entry_update(entries@, k as int, key, v);
            }
            entries.set(k, (key, v));
        },
        None => {
            let ghost before = entries@;
            entries.push((String::from_str(name), v));
            proof {
                assert(entries@.drop_last() =~= before);
            }
        },
    }
}

/// Drops every entry of `name`.
pub fn drop_named<V>(entries: &mut Vec<(String, V)>, name: &str)
    ensures
        forall|w: Seq<char>|
            #[trigger] entry_of(final(entries)@, w) == if w == name@ {
                None
            } else {
                entry_of(old(entries)@, w)
            },
        final(entries)@.len() <= old(entries)@.len(),
{
    let mut kept: Vec<(String, V)> = Vec::new();
    let mut rest: Vec<(String, V)> = Vec::new();
    std::mem::swap(&mut rest, entries);
    let ghost all = rest@;
    let total = rest.len();
    let mut i: usize = 0;
    while rest.len() > 0
        invariant
            total == all.len(),
            i <= all.len(),
            i + rest@.len() == all.len(),
            rest@ == all.skip(i as int),
            kept@.len() <= i,
            forall|w: Seq<char>|
                #[trigger] entry_of(kept@, w) == if w == name@ {
                    None
                } else {
                    entry_of(all.take(i as int), w)
                },
        decreases rest@.len(),
    {
        let ghost before = kept@;
        let ghost rest_before = rest@;
        let e = rest.remove(0);
        proof {
            assert(rest_before[0] == all[i as int]);
            assert(all.take(i + 1).drop_last() =~= all.take(i as int));
            assert(all.take(i + 1).last() == all[i as int]);
            assert(rest@ =~= all.skip(i + 1));
        }
        if !text_eq(e.0.as_str(), name) {
            kept.push(e);
            proof {
                assert(kept@.drop_last() =~= before);
            }
        }
        proof {
            assert forall|w: Seq<char>|
                #[trigger] entry_of(kept@, w) == if w == name@ {
                    None
                } else {
                    entry_of(all.take(i + 1), w)
                } by {
                assert(entry_of(before, w) == if w == name@ {
                    None
                } else {
                    entry_of(all.take(i as int), w)
                });
            }
        }
        i = i + 1;
    }
    assert(all.take(i as int) =~= all);
    *entries = kept;
}


/// Whether no name has two entries.
pub open spec fn names_distinct<V>(entries: Seq<(String, V)>) -> bool {
    forall|i: int, j: int| 0 <= i < j < entries.len() ==> (#[trigger] entries[i]).0@ != (#[trigger] entries[j]).0@
}

/// A name without a value has no entry.
pub proof fn lemma_entry_of_none<V>(entries: Seq<(String, V)>, name: Seq<char>)
    requires
        entry_of(entries, name) is None,
    ensures
        forall|j: int| 0 <= j < entries.len() ==> (#[trigger] entries[j]).0@ != name,
    decreases entries.len(),
{
    if entries.len() > 0 {
        lemma_entry_of_none(entries.drop_last(), name);
        assert forall|j: int| 0 <= j < entries.len() implies (#[trigger] entries[j]).0@ != name by {
            if j < entries.len() - 1 {
                assert(entries.drop_last()[j] == entries[j]);
            }
        }
    }
}

/// With distinct names, the entry of a name is its value.
pub proof fn lemma_entry_of_distinct<V>(entries: Seq<(String, V)>, k: int)
    requires
        names_distinct(entries),
        0 <= k < entries.len(),
    ensures
        last_entry(entries, entries[k].0@, k),
        entry_of(entries, entries[k].0@) == Some(entries[k].1),
    decreases entries.len(),
{
    assert forall|j: int| k < j < entries.len() implies (#[trigger] entries[j]).0@ != entries[k].0@ by {}
    if k < entries.len() - 1 {
        let t = entries.drop_last();
        assert(t[k] == entries[k]);
        assert forall|a: int, b: int| 0 <= a < b < t.len() implies (#[trigger] t[a]).0@ != (#[trigger] t[b]).0@ by {
            assert(t[a] == entries[a] && t[b] == entries[b]);
        }
        lemma_entry_of_distinct(t, k);
        assert(entries[entries.len() - 1].0@ != entries[k].0@);
    }
}

/// Taking away an entry, with distinct names, takes away its name alone.
pub proof fn lemma_remove_distinct<V>(entries: Seq<(String, V)>, k: int)
    requires
        names_distinct(entries),
        0 <= k < entries.len(),
    ensures
        names_distinct(entries.remove(k)),
        forall|w: Seq<char>|
            #[trigger] entry_of(entries.remove(k), w) == if w == entries[k].0@ {
                None
            } else {
                entry_of(entries, w)
            },
    decreases entries.len(),
{
    let r = entries.remove(k);
    assert forall|a: int, b: int| 0 <= a < b < r.len() implies (#[trigger] r[a]).0@ != (#[trigger] r[b]).0@ by {
        let a2 = if a < k { a } else { a + 1 };
        let b2 = if b < k { b } else { b + 1 };
        assert(r[a] == entries[a2] && r[b] == entries[b2]);
    }
    if k == entries.len() - 1 {
        assert(r =~= entries.drop_last());
        let t = entries.drop_last();
        assert forall|j: int| 0 <= j < t.len() implies (#[trigger] t[j]).0@ != entries[k].0@ by {
            assert(t[j] == entries[j]);
        }
        lemma_absent_entry(t, entries[k].0@);
        assert forall|w: Seq<char>|
            #[trigger] entry_of(r, w) == if w == entries[k].0@ {
                None
            } else {
                entry_of(entries, w)
            } by {
            assert(entries.last() == entries[k]);
        }
    } else {
        let t = entries.drop_last();
        assert forall|a: int, b: int| 0 <= a < b < t.len() implies (#[trigger] t[a]).0@ != (#[trigger] t[b]).0@ by {
            assert(t[a] == entries[a] && t[b] == entries[b]);
        }
        lemma_remove_distinct(t, k);
        assert(r.drop_last() =~= t.remove(k));
        assert(r.last() == entries.last());
        assert(t[k] == entries[k]);
        assert(entries.last() == entries[entries.len() - 1]);
        assert(entries[entries.len() - 1].0@ != entries[k].0@);
        assert forall|w: Seq<char>|
            #[trigger] entry_of(r, w) == if w == entries[k].0@ {
                None
            } else {
                entry_of(entries, w)
            } by {
            assert(entry_of(t.remove(k), w) == if w == t[k].0@ {
                None
            } else {
                entry_of(t, w)
            });
        }
    }
}

/// A name that no entry has has no value.
pub proof fn lemma_absent_entry<V>(entries: Seq<(String, V)>, name: Seq<char>)
    requires
        forall|j: int| 0 <= j < entries.len() ==> (#[trigger] entries[j]).0@ != name,
    ensures
        entry_of(entries, name) is None,
    decreases entries.len(),
{
    if entries.len() > 0 {
        let t = entries.drop_last();
        assert forall|j: int| 0 <= j < t.len() implies (#[trigger] t[j]).0@ != name by {
            assert(t[j] == entries[j]);
        }
        assert(entries[entries.len() - 1].0@ != name);
        lemma_absent_entry(t, name);
    }
}

} // verus!
