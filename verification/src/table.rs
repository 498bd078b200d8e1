//! The value of a keyed list: a sequence of `(key, value)` pairs, with the
//! lookup and insertion that the in-memory ports perform on it.

use vstd::prelude::*;
use crate::keyed::{first_match, key_matches};

verus! {

/// The keys of a table, in order.
pub open spec fn table_keys<T>(t: Seq<(Seq<char>, T)>) -> Seq<Seq<char>> {
    t.map_values(|e: (Seq<char>, T)| e.0)
}

/// The value stored under the first key that matches `key`.
pub open spec fn table_get<T>(t: Seq<(Seq<char>, T)>, key: Seq<char>, by_path: bool) -> Option<T> {
    match first_match(table_keys(t), key, by_path) {
        Some(i) => Some(t[i].1),
        None => None,
    }
}

/// `t` with `v` stored under `key`: the value of the first matching key is
/// replaced (its key is kept), or the pair is appended when no key matches.
pub open spec fn table_put<T>(t: Seq<(Seq<char>, T)>, key: Seq<char>, v: T, by_path: bool) -> Seq<
    (Seq<char>, T),
> {
    match first_match(table_keys(t), key, by_path) {
        Some(i) => t.update(i, (t[i].0, v)),
        None => t.push((key, v)),
    }
}

/// Storing under a key and reading that key back, by text or by path,
/// gives the value stored.
pub proof fn law_table_read_after_write<T>(t: Seq<(Seq<char>, T)>, key: Seq<char>, v: T, by_path: bool)
    ensures
        table_get(table_put(t, key, v, by_path), key, by_path) == Some(v),
{
    let keys = table_keys(t);
    crate::keyed::lemma_first_match_from(keys, key, by_path, 0);
    match first_match(keys, key, by_path) {
        Some(i) => {
            assert(table_keys(t.update(i, (t[i].0, v))) =~= keys);
        },
        None => {
            assert(table_keys(t.push((key, v))) =~= keys.push(key));
            crate::keyed::lemma_first_match_push(keys, key, key, by_path);
        },
    }
}

/// Storing under a text key and reading back: the key read gives the new
/// value, every other key what it gave before.
pub proof fn law_text_table_read_after_write<T>(t: Seq<(Seq<char>, T)>, key: Seq<char>, v: T, other: Seq<char>)
    ensures
        table_get(table_put(t, key, v, false), other, false) == if other == key {
            Some(v)
        } else {
            table_get(t, other, false)
        },
{
    let keys = table_keys(t);
    crate::keyed::lemma_first_match_from(keys, key, false, 0);
    crate::keyed::lemma_first_match_from(keys, other, false, 0);
    match first_match(keys, key, false) {
        Some(i) => {
            assert(table_keys(t.update(i, (t[i].0, v))) =~= keys);
        },
        None => {
            assert(table_keys(t.push((key, v))) =~= keys.push(key));
            crate::keyed::lemma_first_match_push(keys, key, other, false);
        },
    }
}

/// After storing under `key`, the table holds a key that matches `key`: the
/// key that matched before (kept, as a map keeps its first key), or `key`
/// itself. With the in-memory file system, a stored file is thus listed
/// under every folder that its kept key lies in.
pub proof fn law_table_put_keeps_a_matching_key<T>(t: Seq<(Seq<char>, T)>, key: Seq<char>, v: T, by_path: bool)
    ensures
        ({
            let after = table_put(t, key, v, by_path);
            match first_match(table_keys(t), key, by_path) {
                Some(i) => table_keys(after).contains(table_keys(t)[i]) && crate::keyed::key_matches(
                    by_path,
                    table_keys(t)[i],
                    key,
                ),
                None => table_keys(after).contains(key),
            }
        }),
{
    let keys = table_keys(t);
    crate::keyed::lemma_first_match_from(keys, key, by_path, 0);
    match first_match(keys, key, by_path) {
        Some(i) => {
            let after = t.update(i, (t[i].0, v));
            assert(table_keys(after)[i] == keys[i]);
        },
        None => {
            let after = t.push((key, v));
            assert(table_keys(after)[t.len() as int] == key);
        },
    }
}

/// Storing under `key` leaves what every key not matching `key` reads, given
/// that, by path, the key found for `key` matches the same keys as `key`.
pub proof fn lemma_table_put_keeps_others<T>(
    t: Seq<(Seq<char>, T)>,
    key: Seq<char>,
    v: T,
    by_path: bool,
    other: Seq<char>,
)
    requires
        !crate::keyed::key_matches(by_path, key, other),
        by_path ==> match first_match(table_keys(t), key, true) {
            Some(i) => crate::keyed::same_matches(table_keys(t)[i], key),
            None => true,
        },
    ensures
        table_get(table_put(t, key, v, by_path), other, by_path) == table_get(t, other, by_path),
{
    let keys = table_keys(t);
    crate::keyed::lemma_first_match_from(keys, key, by_path, 0);
    crate::keyed::lemma_first_match_from(keys, other, by_path, 0);
    match first_match(keys, key, by_path) {
        Some(i) => {
            let after = t.update(i, (t[i].0, v));
            assert(table_keys(after) =~= keys);
            match first_match(keys, other, by_path) {
                Some(j) => {
                    if j == i {
                        if by_path {
                            assert(crate::keyed::key_matches(true, keys[i], other));
                        }
                        assert(false);
                    }
                },
                None => {},
            }
        },
        None => {
            assert(table_keys(t.push((key, v))) =~= keys.push(key));
            crate::keyed::lemma_first_match_push(keys, key, other, by_path);
            match first_match(keys, other, by_path) {
                Some(j) => {
                    assert(t.push((key, v))[j] == t[j]);
                },
                None => {},
            }
        },
    }
}

} // verus!
