//! Lists of `(key, value)` pairs used as small maps by the in-memory ports.
//! A key is found by text equality, or by path equality where keys are
//! file-system paths; a list never holds two keys that match each other
//! under the lookups that insert into it, so the first match is the match.

use vstd::prelude::*;
use crate::paths::{paths_equal, same_path};

verus! {

/// `stored` matches `key`: by path equality when `by_path` (which holds of
/// equal texts), else as text.
pub open spec fn key_matches(by_path: bool, stored: Seq<char>, key: Seq<char>) -> bool {
    if by_path {
        stored == key || same_path(stored, key)
    } else {
        stored == key
    }
}

/// The keys of a list of pairs, as text.
pub open spec fn keys_of<V>(entries: Seq<(String, V)>) -> Seq<Seq<char>> {
    entries.map_values(|e: (String, V)| e.0@)
}

/// The first position at or after `i` whose key matches `key`.
pub open spec fn first_match_from(keys: Seq<Seq<char>>, key: Seq<char>, by_path: bool, i: int) -> Option<int>
    decreases keys.len() - i,
{
    if i < 0 || i >= keys.len() {
        None
    } else if key_matches(by_path, keys[i], key) {
        Some(i)
    } else {
        first_match_from(keys, key, by_path, i + 1)
    }
}

/// The first position whose key matches `key`.
pub open spec fn first_match(keys: Seq<Seq<char>>, key: Seq<char>, by_path: bool) -> Option<int> {
    first_match_from(keys, key, by_path, 0)
}

/// A first match lies in the list and its key matches.
pub proof fn lemma_first_match_from(keys: Seq<Seq<char>>, key: Seq<char>, by_path: bool, i: int)
    requires
        0 <= i,
    ensures
        match first_match_from(keys, key, by_path, i) {
            Some(j) => i <= j < keys.len() && key_matches(by_path, keys[j], key) && forall|m: int|
                i <= m < j ==> !key_matches(by_path, keys[m], key),
            None => forall|m: int| i <= m < keys.len() ==> !key_matches(by_path, keys[m], key),
        },
    decreases keys.len() - i,
{
    if i < keys.len() && !key_matches(by_path, keys[i], key) {
        lemma_first_match_from(keys, key, by_path, i + 1);
    }
}

/// Two keys match the same keys when matching by path, as path equality is
/// an equivalence.
pub open spec fn same_matches(stored: Seq<char>, key: Seq<char>) -> bool {
    forall|c: Seq<char>| #[trigger] key_matches(true, stored, c) == key_matches(true, key, c)
}

/// Whether `stored` matches `key` (see `key_matches`); a match by path
/// makes the two keys match the same keys.
pub fn key_match(by_path: bool, stored: &str, key: &str) -> (m: bool)
    ensures
        m == key_matches(by_path, stored@, key@),
        m && by_path ==> same_matches(stored@, key@),
{
    if by_path {
        paths_equal(stored, key)
    } else {
        crate::text::str_equal(stored, key)
    }
}

/// The first position in `entries` whose key matches `key`.
pub fn find_key<V>(entries: &Vec<(String, V)>, key: &str, by_path: bool) -> (found: Option<usize>)
    ensures
        match found {
            Some(i) => first_match(keys_of(entries@), key@, by_path) == Some(i as int) && i
                < entries@.len() && (by_path ==> same_matches(keys_of(entries@)[i as int], key@)),
            None => first_match(keys_of(entries@), key@, by_path) is None,
        },
{
    let n = entries.len();
    let ghost keys = keys_of(entries@);
    let mut i: usize = 0;
    while i < n
        invariant
            n == entries@.len(),
            keys == keys_of(entries@),
            i <= n,
            first_match(keys, key@, by_path) == first_match_from(keys, key@, by_path, i as int),
        decreases n - i,
    {
        if key_match(by_path, entries[i].0.as_str(), key) {
            assert(keys[i as int] == entries@[i as int].0@);
            return Some(i);
        }
        assert(keys[i as int] == entries@[i as int].0@);
        i = i + 1;
    }
    None
}

/// Appending a key changes no earlier match; a key without an earlier match
/// is found at the appended position when it matches there.
pub proof fn lemma_first_match_push(keys: Seq<Seq<char>>, k: Seq<char>, key: Seq<char>, by_path: bool)
    ensures
        first_match(keys.push(k), key, by_path) == (match first_match(keys, key, by_path) {
            Some(i) => Some(i),
            None => if key_matches(by_path, k, key) {
                Some(keys.len() as int)
            } else {
                None
            },
        }),
{
    lemma_first_match_push_from(keys, k, key, by_path, 0);
}

proof fn lemma_first_match_push_from(
    keys: Seq<Seq<char>>,
    k: Seq<char>,
    key: Seq<char>,
    by_path: bool,
    i: int,
)
    requires
        0 <= i <= keys.len(),
    ensures
        first_match_from(keys.push(k), key, by_path, i) == (match first_match_from(keys, key, by_path, i) {
            Some(j) => Some(j),
            None => if key_matches(by_path, k, key) {
                Some(keys.len() as int)
            } else {
                None
            },
        }),
    decreases keys.len() - i,
{
    assert(keys.push(k)[i] == if i < keys.len() { keys[i] } else { k });
    if i < keys.len() {
        lemma_first_match_push_from(keys, k, key, by_path, i + 1);
    } else {
        assert(first_match_from(keys.push(k), key, by_path, i + 1) is None);
    }
}

/// Replacing the value at a position leaves the keys, and so every match, as
/// they were.
pub proof fn lemma_keys_of_update<V>(entries: Seq<(String, V)>, i: int, v: V)
    requires
        0 <= i < entries.len(),
    ensures
        keys_of(entries.update(i, (entries[i].0, v))) == keys_of(entries),
{
    assert(keys_of(entries.update(i, (entries[i].0, v))) =~= keys_of(entries));
}

/// The keys of a list with one pair appended.
pub proof fn lemma_keys_of_push<V>(entries: Seq<(String, V)>, e: (String, V))
    ensures
        keys_of(entries.push(e)) == keys_of(entries).push(e.0@),
{
    assert(keys_of(entries.push(e)) =~= keys_of(entries).push(e.0@));
}

} // verus!
