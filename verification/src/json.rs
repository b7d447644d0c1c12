//! The JSON values that source responses are read as.

use vstd::prelude::*;

verus! {

/// A JSON value. Numbers keep the text they are printed as, since the
/// extraction rules only ever read them back as strings.
#[derive(Debug, PartialEq)]
pub enum Json {
    /// `null`.
    Null,
    /// `true` / `false`.
    Bool(bool),
    /// A number, as its canonical printed text (e.g. `"42"`, `"1.5"`).
    Number(String),
    /// A string.
    Str(String),
    /// An array, in order.
    Array(Vec<Json>),
    /// An object's members, in iteration order.
    Object(Vec<(String, Json)>),
}

/// The value of the first member of `entries` named `name`.
pub open spec fn obj_get(entries: Seq<(String, Json)>, name: Seq<char>) -> Option<Json>
    decreases entries.len(),
{
    if entries.len() == 0 {
        None
    } else if entries[0].0@ == name {
        Some(entries[0].1)
    } else {
        obj_get(entries.drop_first(), name)
    }
}

/// The values of an object's members, in order.
pub open spec fn obj_values(entries: Seq<(String, Json)>) -> Seq<Json> {
    entries.map_values(|e: (String, Json)| e.1)
}

/// Looks up member `name` of an object's member list.
pub fn object_get<'a>(entries: &'a Vec<(String, Json)>, name: &String) -> (r: Option<&'a Json>)
    ensures
        match obj_get(entries@, name@) {
            Some(v) => r == Some(&v),
            None => r is None,
        },
{
    let mut i: usize = 0;
    proof {
        assert(entries@.skip(0) == entries@);
    }
    while i < entries.len()
        invariant
            i <= entries@.len(),
            obj_get(entries@, name@) == obj_get(entries@.skip(i as int), name@),
        decreases entries@.len() - i,
    {
        proof {
            assert(entries@.skip(i as int).drop_first() == entries@.skip(i + 1));
        }
        if entries[i].0 == *name {
            return Some(&entries[i].1);
        }
        i = i + 1;
    }
    None
}

} // verus!
