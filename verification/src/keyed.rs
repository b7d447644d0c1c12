//! Keyed tables: ordered `(name, value)` entries, looked up by name. They
//! stand for the TOML tables of the config file, in file order; a TOML
//! table holds each key once, and config validation refuses a repeated key.

use vstd::prelude::*;

use crate::text::str_eq;

verus! {

/// The value of the first entry keyed `key`.
pub open spec fn lookup<T>(entries: Seq<(String, T)>, key: Seq<char>) -> Option<T>
    decreases entries.len(),
{
    if entries.len() == 0 {
        None
    } else if entries[0].0@ == key {
        Some(entries[0].1)
    } else {
        lookup(entries.drop_first(), key)
    }
}

/// Looks up the first entry keyed `key` in a keyed table.
pub fn find_entry<'a, T>(entries: &'a Vec<(String, T)>, key: &str) -> (r: Option<&'a T>)
    ensures
        match lookup(entries@, key@) {
            Some(v) => r == Some(&v),
            None => r is None,
        },
{
    let mut i: usize = 0;
    proof {
        assert(entries@.skip(0) == entries@);
    }
    while i < entries.len()
        invariant
            i <= entries@.len(),
            lookup(entries@, key@) == lookup(entries@.skip(i as int), key@),
        decreases entries@.len() - i,
    {
        proof {
            assert(entries@.skip(i as int).drop_first() == entries@.skip(i + 1));
        }
        if str_eq(entries[i].0.as_str(), key) {
            return Some(&entries[i].1);
        }
        i = i + 1;
    }
    None
}


/// The first key of a keyed table that another, later entry repeats.
pub open spec fn duplicate_key<T>(entries: Seq<(String, T)>) -> Option<Seq<char>>
    decreases entries.len(),
{
    if entries.len() == 0 {
        None
    } else if exists|j: int| 1 <= j < entries.len() && (#[trigger] entries[j]).0@ == entries[0].0@ {
        Some(entries[0].0@)
    } else {
        duplicate_key(entries.drop_first())
    }
}

/// Finds the first key of a keyed table that a later entry repeats.
pub fn find_duplicate<T>(entries: &Vec<(String, T)>) -> (r: Option<String>)
    ensures
        match duplicate_key(entries@) {
            Some(k) => r matches Some(s) && s@ == k,
            None => r is None,
        },
{
    let mut i: usize = 0;
    proof {
        assert(entries@.skip(0) == entries@);
    }
    while i < entries.len()
        invariant
            i <= entries@.len(),
            duplicate_key(entries@) == duplicate_key(entries@.skip(i as int)),
        decreases entries@.len() - i,
    {
        let ghost s = entries@.skip(i as int);
        let mut j: usize = i + 1;
        while j < entries.len()
            invariant
                i < j <= entries@.len(),
                s == entries@.skip(i as int),
                duplicate_key(entries@) == duplicate_key(s),
                forall|k: int| i + 1 <= k < j ==> entries@[k].0@ != entries@[i as int].0@,
            decreases entries@.len() - j,
        {
            if str_eq(entries[j].0.as_str(), entries[i].0.as_str()) {
                proof {
                    assert(s[j - i] == entries@[j as int]);
                    assert(s[0] == entries@[i as int]);
                    assert(1 <= j - i < s.len() && s[j - i].0@ == s[0].0@);
                }
                return Some(entries[i].0.clone());
            }
            j = j + 1;
        }
        proof {
            assert(s.drop_first() == entries@.skip(i + 1));
            assert forall|jj: int| 1 <= jj < s.len() implies (#[trigger] s[jj]).0@ != s[0].0@ by {
                assert(s[jj] == entries@[i + jj]);
                assert(s[0] == entries@[i as int]);
            }
        }
        i = i + 1;
    }
    proof {
        assert(entries@.skip(i as int).len() == 0);
    }
    None
}

} // verus!
