//! String-keyed association lists.
//!
//! The configuration tables (icons, aliases, general settings, boolean
//! options) are ordered lists of key/value pairs looked up by first match.
//! Keeping them as plain vectors preserves insertion order, which matters
//! for the alias tables: their patterns are tried in configured order.

use vstd::prelude::*;

verus! {

/// First-match lookup in an association list, over views.
pub open spec fn lookup<V>(entries: Seq<(Seq<char>, V)>, key: Seq<char>) -> Option<V>
    decreases entries.len(),
{
    if entries.len() == 0 {
        None
    } else if entries[0].0 == key {
        Some(entries[0].1)
    } else {
        lookup(entries.drop_first(), key)
    }
}

/// The view of a string-to-string table: both columns as character sequences.
pub open spec fn str_entries(m: Seq<(String, String)>) -> Seq<(Seq<char>, Seq<char>)> {
    m.map(|i: int, p: (String, String)| (p.0@, p.1@))
}

/// The view of a string-to-bool table.
pub open spec fn bool_entries(m: Seq<(String, bool)>) -> Seq<(Seq<char>, bool)> {
    m.map(|i: int, p: (String, bool)| (p.0@, p.1))
}

/// Skipping a prefix of keys that all differ from `key` does not change the
/// result of `lookup`.
proof fn lemma_lookup_skip<V>(entries: Seq<(Seq<char>, V)>, key: Seq<char>, i: int)
    requires
        0 <= i <= entries.len(),
        forall|j: int| 0 <= j < i ==> entries[j].0 != key,
    ensures
        lookup(entries, key) == lookup(entries.skip(i), key),
    decreases i,
{
    if i > 0 {
        assert(entries.drop_first() =~= entries.skip(1));
        lemma_lookup_skip(entries.drop_first(), key, i - 1);
        assert(entries.drop_first().skip(i - 1) =~= entries.skip(i));
    } else {
        assert(entries.skip(0) =~= entries);
    }
}

/// When the first entry carrying `key` sits at index `i`, `lookup` returns
/// its value.
proof fn lemma_lookup_found<V>(entries: Seq<(Seq<char>, V)>, key: Seq<char>, i: int)
    requires
        0 <= i < entries.len(),
        entries[i].0 == key,
        forall|j: int| 0 <= j < i ==> entries[j].0 != key,
    ensures
        lookup(entries, key) == Some(entries[i].1),
{
    lemma_lookup_skip(entries, key, i);
    assert(entries.skip(i)[0] == entries[i]);
}

/// When no entry carries `key`, `lookup` fails.
proof fn lemma_lookup_absent<V>(entries: Seq<(Seq<char>, V)>, key: Seq<char>)
    requires
        forall|j: int| 0 <= j < entries.len() ==> entries[j].0 != key,
    ensures
        lookup(entries, key) is None,
{
    lemma_lookup_skip(entries, key, entries.len() as int);
}

/// Replacing the value of the first entry carrying `key` changes `lookup`
/// only at that key.
proof fn lemma_lookup_update<V>(entries: Seq<(Seq<char>, V)>, key: Seq<char>, value: V, i: int)
    requires
        0 <= i < entries.len(),
        entries[i].0 == key,
        forall|j: int| 0 <= j < i ==> entries[j].0 != key,
    ensures
        forall|k: Seq<char>| #[trigger] lookup(entries.update(i, (key, value)), k)
            == (if k == key { Some(value) } else { lookup(entries, k) }),
    decreases i,
{
    assert forall|k: Seq<char>| #[trigger] lookup(entries.update(i, (key, value)), k)
        == (if k == key { Some(value) } else { lookup(entries, k) }) by {
        let updated = entries.update(i, (key, value));
        assert(lookup(updated, k) == lookup(entries.update(i, (key, value)), k));
        if i == 0 {
            assert(updated[0] == (key, value));
            if k == key {
                assert(lookup(updated, k) == Some(value));
            } else {
                assert(updated.drop_first() =~= entries.drop_first());
                assert(lookup(updated, k) == lookup(updated.drop_first(), k));
                assert(lookup(entries, k) == lookup(entries.drop_first(), k));
            }
        } else {
            lemma_lookup_update(entries.drop_first(), key, value, i - 1);
            assert(updated.drop_first() =~= entries.drop_first().update(i - 1, (key, value)));
            assert(updated[0] == entries[0]);
            assert(entries[0].0 != key);
            if entries[0].0 == k {
                assert(lookup(updated, k) == Some(entries[0].1));
                assert(lookup(entries, k) == Some(entries[0].1));
            } else {
                assert(lookup(updated.drop_first(), k)
                    == (if k == key { Some(value) } else { lookup(entries.drop_first(), k) }));
                assert(lookup(updated, k) == lookup(updated.drop_first(), k));
                assert(lookup(entries, k) == lookup(entries.drop_first(), k));
            }
        }
    }
}

/// Appending an entry for a key that is absent changes `lookup` only at
/// that key.
proof fn lemma_lookup_push<V>(entries: Seq<(Seq<char>, V)>, key: Seq<char>, value: V)
    requires
        forall|j: int| 0 <= j < entries.len() ==> entries[j].0 != key,
    ensures
        forall|k: Seq<char>| #[trigger] lookup(entries.push((key, value)), k)
            == (if k == key { Some(value) } else { lookup(entries, k) }),
    decreases entries.len(),
{
    assert forall|k: Seq<char>| #[trigger] lookup(entries.push((key, value)), k)
        == (if k == key { Some(value) } else { lookup(entries, k) }) by {
        let pushed = entries.push((key, value));
        assert(lookup(pushed, k) == lookup(entries.push((key, value)), k));
        if entries.len() == 0 {
            assert(pushed[0] == (key, value));
            if k == key {
                assert(lookup(pushed, k) == Some(value));
            } else {
                assert(pushed.drop_first() =~= Seq::<(Seq<char>, V)>::empty());
                assert(lookup(Seq::<(Seq<char>, V)>::empty(), k) is None);
                assert(lookup(pushed, k) is None);
                assert(lookup(entries, k) is None);
            }
        } else {
            lemma_lookup_push(entries.drop_first(), key, value);
            assert(pushed.drop_first() =~= entries.drop_first().push((key, value)));
            assert(pushed[0] == entries[0]);
            assert(entries[0].0 != key);
            if pushed[0].0 == k {
                assert(lookup(pushed, k) == Some(entries[0].1));
                assert(lookup(entries, k) == Some(entries[0].1));
            } else {
                assert(lookup(pushed.drop_first(), k)
                    == (if k == key { Some(value) } else { lookup(entries.drop_first(), k) }));
                assert(lookup(pushed, k) == lookup(pushed.drop_first(), k));
                assert(lookup(entries, k) == lookup(entries.drop_first(), k));
            }
        }
    }
}

/// Looks `key` up in a string-to-string table, returning a reference to the
/// value of the first entry whose key equals it.
pub fn get_str<'a>(m: &'a Vec<(String, String)>, key: &str) -> (r: Option<&'a String>)
    ensures
        match r {
            Some(v) => lookup(str_entries(m@), key@) == Some(v@),
            None => lookup(str_entries(m@), key@) is None,
        },
{
    let k: String = key.to_owned();
    let ghost entries = str_entries(m@);
    let mut i: usize = 0;
    while i < m.len()
        invariant
            i <= m.len(),
            k@ == key@,
            entries == str_entries(m@),
            forall|j: int| 0 <= j < i ==> entries[j].0 != key@,
        decreases m.len() - i,
    {
        if m[i].0 == k {
            proof {
                lemma_lookup_found(entries, key@, i as int);
            }
            return Some(&m[i].1);
        }
        i += 1;
    }
    proof {
        lemma_lookup_absent(entries, key@);
    }
    None
}

/// Looks `key` up in a string-to-bool table.
pub fn get_bool(m: &Vec<(String, bool)>, key: &str) -> (r: Option<bool>)
    ensures
        r == lookup(bool_entries(m@), key@),
{
    let k: String = key.to_owned();
    let ghost entries = bool_entries(m@);
    let mut i: usize = 0;
    while i < m.len()
        invariant
            i <= m.len(),
            k@ == key@,
            entries == bool_entries(m@),
            forall|j: int| 0 <= j < i ==> entries[j].0 != key@,
        decreases m.len() - i,
    {
        if m[i].0 == k {
            proof {
                lemma_lookup_found(entries, key@, i as int);
            }
            return Some(m[i].1);
        }
        i += 1;
    }
    proof {
        lemma_lookup_absent(entries, key@);
    }
    None
}

/// Binds `key` to `value` in a string-to-string table: the first entry
/// carrying `key` is replaced, or a new entry is appended.
pub fn set_str(m: &mut Vec<(String, String)>, key: String, value: String)
    ensures
        forall|k: Seq<char>| #[trigger] lookup(str_entries(final(m)@), k)
            == (if k == key@ { Some(value@) } else { lookup(str_entries(old(m)@), k) }),
{
    let ghost entries = str_entries(m@);
    let mut i: usize = 0;
    while i < m.len()
        invariant
            i <= m.len(),
            m@ == old(m)@,
            entries == str_entries(m@),
            forall|j: int| 0 <= j < i ==> entries[j].0 != key@,
        decreases m.len() - i,
    {
        if m[i].0 == key {
            proof {
                lemma_lookup_update(entries, key@, value@, i as int);
            }
            let ghost idx = i as int;
            m.set(i, (key, value));
            proof {
                assert(str_entries(m@) =~= entries.update(idx, (key@, value@)));
            }
            return;
        }
        i += 1;
    }
    proof {
        lemma_lookup_push(entries, key@, value@);
    }
    m.push((key, value));
    proof {
        assert(str_entries(m@) =~= entries.push((key@, value@)));
    }
}

/// Binds `key` to `value` in a string-to-bool table.
pub fn set_bool(m: &mut Vec<(String, bool)>, key: String, value: bool)
    ensures
        forall|k: Seq<char>| #[trigger] lookup(bool_entries(final(m)@), k)
            == (if k == key@ { Some(value) } else { lookup(bool_entries(old(m)@), k) }),
{
    let ghost entries = bool_entries(m@);
    let mut i: usize = 0;
    while i < m.len()
        invariant
            i <= m.len(),
            m@ == old(m)@,
            entries == bool_entries(m@),
            forall|j: int| 0 <= j < i ==> entries[j].0 != key@,
        decreases m.len() - i,
    {
        if m[i].0 == key {
            proof {
                lemma_lookup_update(entries, key@, value, i as int);
            }
            let ghost idx = i as int;
            m.set(i, (key, value));
            proof {
                assert(bool_entries(m@) =~= entries.update(idx, (key@, value)));
            }
            return;
        }
        i += 1;
    }
    proof {
        lemma_lookup_push(entries, key@, value);
    }
    m.push((key, value));
    proof {
        assert(bool_entries(m@) =~= entries.push((key@, value)));
    }
}

} // verus!
