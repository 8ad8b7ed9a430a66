//! Helpers over hash tables keyed by integers and over lists.

use crate::doc::opt_text;
use crate::text::same_text;
use std::collections::{HashMap, HashSet};
use vstd::prelude::*;

verus! {

/// The keys of a table, each once, in no particular order.
pub fn keys_of<V>(table: &HashMap<i64, V>) -> (r: Vec<i64>)
    ensures
        r@.no_duplicates(),
        r@.to_set() == table@.dom(),
{
    broadcast use vstd::std_specs::hash::group_hash_axioms;

    let mut out: Vec<i64> = Vec::new();
    for key in iter: table.keys()
        invariant
            iter.seq().unref().to_set() == table@.dom(),
            iter.seq().no_duplicates(),
            out@ == iter.seq().unref().take(iter.index() as int),
            iter.index() == iter.seq().len() ==> out@ == iter.seq().unref(),
    {
        out.push(*key);
        assert(out@ =~= iter.seq().unref().take(iter.index() + 1));
    }
    out
}

/// The members of a set, each once, in no particular order.
pub fn members_of(set: &HashSet<i64>) -> (r: Vec<i64>)
    ensures
        r@.no_duplicates(),
        r@.to_set() == set@,
{
    broadcast use vstd::std_specs::hash::group_hash_axioms;

    let mut out: Vec<i64> = Vec::new();
    for key in iter: set.iter()
        invariant
            iter.seq().unref().to_set() == set@,
            iter.seq().no_duplicates(),
            out@ == iter.seq().unref().take(iter.index() as int),
            iter.index() == iter.seq().len() ==> out@ == iter.seq().unref(),
    {
        out.push(*key);
        assert(out@ =~= iter.seq().unref().take(iter.index() + 1));
    }
    out
}

/// What a list of strings holds.
pub open spec fn texts_of(list: Seq<String>) -> Seq<Seq<char>> {
    list.map_values(|s: String| s@)
}

/// Whether a text stands in a list.
pub fn has_text(list: &Vec<String>, s: &str) -> (r: bool)
    ensures
        r == texts_of(list@).contains(s@),
{
    let mut i: usize = 0;
    while i < list.len()
        invariant
            i <= list@.len(),
            forall|j: int| 0 <= j < i ==> list@[j]@ != s@,
        decreases list@.len() - i,
    {
        if same_text(list[i].as_str(), s) {
            assert(texts_of(list@)[i as int] == s@);
            return true;
        }
        i += 1;
    }
    false
}

/// A copy of an optional string.
pub fn copy_opt_text(s: &Option<String>) -> (r: Option<String>)
    ensures
        opt_text(r) == opt_text(*s),
{
    match s {
        Some(t) => Some(t.clone()),
        None => None,
    }
}

/// A copy of bytes.
pub fn copy_bytes(bytes: &Vec<u8>) -> (r: Vec<u8>)
    ensures
        r@ == bytes@,
{
    let mut out: Vec<u8> = Vec::new();
    out.extend_from_slice(bytes.as_slice());
    assert(out@ =~= bytes@);
    out
}

/// The members of a list after one more item.
pub proof fn push_contains<T>(s: Seq<T>, x: T, y: T)
    ensures
        s.push(x).contains(y) <==> s.contains(y) || y == x,
{
    let t = s.push(x);
    if t.contains(y) {
        let n = choose|n: int| 0 <= n < t.len() && t[n] == y;
        if n < s.len() {
            assert(s[n] == y);
        }
    }
    if s.contains(y) {
        let n = choose|n: int| 0 <= n < s.len() && s[n] == y;
        assert(t[n] == y);
    }
    assert(t[s.len() as int] == x);
}

} // verus!
