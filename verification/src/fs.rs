//! The file-system port: the in-memory double that tests seed, and the
//! computing half of the local file system (checksums and archives; reading
//! and writing disks is the service binary's).

use vstd::prelude::*;
use vstd::string::*;
use crate::errors::FsError;
use crate::keyed::{find_key, keys_of, key_matches};
use crate::models::{ZipEntry, ZipEntryView, entries_view, copy_bytes, copy_entries, strings_view};
use crate::paths::{path_starts_with, sort_paths, path_within, sorted_paths};
use crate::table::{table_get, table_put, table_keys, law_table_read_after_write, lemma_table_put_keeps_others};
use crate::text::{render_hex_bytes, render_hex_u64_width32, hex_bytes, hex_zero_padded};

verus! {

/// The sum of `bytes`, each taken as a number.
pub open spec fn byte_sum(bytes: Seq<u8>) -> nat
    decreases bytes.len(),
{
    if bytes.len() == 0 {
        0
    } else {
        byte_sum(bytes.drop_last()) + bytes.last() as nat
    }
}

/// The checksum the in-memory file system computes: the sum of the bytes in
/// thirty-two lowercase hexadecimal digits. Enough to tell changed contents
/// apart in tests; not a real digest.
pub open spec fn fake_md5(content: Seq<u8>) -> Seq<char> {
    hex_zero_padded(byte_sum(content), 32)
}

/// The paths among `keys` that lie under `dir`, in their order.
pub open spec fn keys_within(keys: Seq<Seq<char>>, dir: Seq<char>) -> Seq<Seq<char>>
    decreases keys.len(),
{
    if keys.len() == 0 {
        Seq::empty()
    } else if path_within(keys.last(), dir) {
        keys_within(keys.drop_last(), dir).push(keys.last())
    } else {
        keys_within(keys.drop_last(), dir)
    }
}

/// A directory listing put in path order (`sorted_paths`), each path kept
/// as often as it was listed.
pub fn sort_listing(paths: Vec<String>) -> (sorted: Vec<String>)
    ensures
        strings_view(sorted@) == sorted_paths(strings_view(paths@)),
        strings_view(sorted@).to_multiset() == strings_view(paths@).to_multiset(),
{
    sort_paths(paths)
}

/// The paths that `keys_within` keeps are exactly the keys under `dir`.
proof fn lemma_keys_within_contains(keys: Seq<Seq<char>>, dir: Seq<char>)
    ensures
        forall|k: Seq<char>| #[trigger] keys_within(keys, dir).contains(k) <==> (keys.contains(k)
            && path_within(k, dir)),
    decreases keys.len(),
{
    if keys.len() > 0 {
        lemma_keys_within_contains(keys.drop_last(), dir);
        let p = keys.drop_last();
        let x = keys.last();
        let w = keys_within(p, dir);
        assert(keys =~= p.push(x));
        assert forall|k: Seq<char>| #[trigger] keys_within(keys, dir).contains(k) <==> (keys.contains(k)
            && path_within(k, dir)) by {
            broadcast use vstd::seq_lib::group_seq_properties;
            assert(keys.contains(k) <==> (p.contains(k) || k == x));
            if path_within(x, dir) {
                assert(keys_within(keys, dir) == w.push(x));
                assert(w.push(x).contains(k) <==> (w.contains(k) || k == x));
            } else {
                assert(keys_within(keys, dir) == w);
            }
        }
    }
}

/// What the in-memory file system lists for `dir`: the stored paths under
/// it, sorted as paths.
pub open spec fn listed_files(files: Seq<(Seq<char>, Seq<u8>)>, dir: Seq<char>) -> Seq<Seq<char>> {
    sorted_paths(keys_within(table_keys(files), dir))
}

/// The error message for a file the in-memory file system does not hold.
pub open spec fn not_found_message(path: Seq<char>) -> Seq<char> {
    "file not found: "@ + path
}

/// An in-memory file system: stored files, and the archives written.
pub struct FakeFs {
    files: Vec<(String, Vec<u8>)>,
    zips: Vec<(String, Vec<ZipEntry>)>,
}

impl FakeFs {
    /// The stored files, as `(path, content)` pairs.
    pub closed spec fn files_view(&self) -> Seq<(Seq<char>, Seq<u8>)> {
        self.files@.map_values(|e: (String, Vec<u8>)| (e.0@, e.1@))
    }

    /// The archives written, as `(path, entries)` pairs.
    pub closed spec fn zips_view(&self) -> Seq<(Seq<char>, Seq<ZipEntryView>)> {
        self.zips@.map_values(|e: (String, Vec<ZipEntry>)| (e.0@, entries_view(e.1@)))
    }

    proof fn lemma_keys(&self)
        ensures
            keys_of(self.files@) == table_keys(self.files_view()),
            keys_of(self.zips@) == table_keys(self.zips_view()),
    {
        assert(keys_of(self.files@) =~= table_keys(self.files_view()));
        assert(keys_of(self.zips@) =~= table_keys(self.zips_view()));
    }

    /// An empty file system.
    pub fn new() -> (fs: Self)
        ensures
            fs.files_view() == Seq::<(Seq<char>, Seq<u8>)>::empty(),
            fs.zips_view() == Seq::<(Seq<char>, Seq<ZipEntryView>)>::empty(),
    {
        let fs = FakeFs { files: Vec::new(), zips: Vec::new() };
        assert(fs.files_view() =~= Seq::<(Seq<char>, Seq<u8>)>::empty());
        assert(fs.zips_view() =~= Seq::<(Seq<char>, Seq<ZipEntryView>)>::empty());
        fs
    }

    /// Stores `content` at `path`: `path` then reads `content`, and every
    /// path that is not the same path reads as before.
    pub fn seed_file(&mut self, path: &str, content: &[u8])
        ensures
            final(self).files_view() == table_put(old(self).files_view(), path@, content@, true),
            table_get(final(self).files_view(), path@, true) == Some(content@),
            forall|o: Seq<char>|
                !key_matches(true, path@, o) ==> #[trigger] table_get(final(self).files_view(), o, true)
                    == table_get(old(self).files_view(), o, true),
            final(self).zips_view() == old(self).zips_view(),
    {
        let bytes = crate::github::bytes_of(content);
        self.put_file(path, bytes);
    }

    /// Stores `content` at `path`.
    fn put_file(&mut self, path: &str, content: Vec<u8>)
        ensures
            final(self).files_view() == table_put(old(self).files_view(), path@, content@, true),
            table_get(final(self).files_view(), path@, true) == Some(content@),
            forall|o: Seq<char>|
                !key_matches(true, path@, o) ==> #[trigger] table_get(final(self).files_view(), o, true)
                    == table_get(old(self).files_view(), o, true),
            final(self).zips_view() == old(self).zips_view(),
    {
        proof { self.lemma_keys(); }
        let ghost before = self.files_view();
        let found = find_key(&self.files, path, true);
        proof {
            law_table_read_after_write(before, path@, content@, true);
            assert forall|o: Seq<char>| !key_matches(true, path@, o) implies #[trigger] table_get(
                table_put(before, path@, content@, true),
                o,
                true,
            ) == table_get(before, o, true) by {
                lemma_table_put_keeps_others(before, path@, content@, true, o);
            }
        }
        match found {
            Some(i) => {
                let k = self.files[i].0.clone();
                self.files.set(i, (k, content));
                assert(self.files_view() =~= before.update(i as int, (before[i as int].0, content@)));
            },
            None => {
                let k = String::from_str(path);
                self.files.push((k, content));
                assert(self.files_view() =~= before.push((path@, content@)));
            },
        }
    }

    /// The entries of the archive written at `path`, if one was.
    pub fn written_zip(&self, path: &str) -> (entries: Option<Vec<ZipEntry>>)
        ensures
            match entries {
                Some(e) => table_get(self.zips_view(), path@, true) == Some(entries_view(e@)),
                None => table_get(self.zips_view(), path@, true) is None,
            },
    {
        proof { self.lemma_keys(); }
        match find_key(&self.zips, path, true) {
            Some(i) => Some(copy_entries(&self.zips[i].1)),
            None => None,
        }
    }

    /// The stored paths under `dir`, sorted as paths: every stored path
    /// under `dir`, and nothing else.
    pub fn list_files(&self, dir: &str) -> (r: Result<Vec<String>, FsError>)
        ensures
            match r {
                Ok(paths) => {
                    &&& strings_view(paths@) == listed_files(self.files_view(), dir@)
                    &&& forall|k: Seq<char>| #[trigger] strings_view(paths@).contains(k) <==> (table_keys(
                        self.files_view(),
                    ).contains(k) && path_within(k, dir@))
                },
                Err(_) => false,
            },
    {
        let ghost keys = table_keys(self.files_view());
        let n = self.files.len();
        let mut found: Vec<String> = Vec::new();
        let mut i: usize = 0;
        while i < n
            invariant
                n == self.files@.len(),
                keys == table_keys(self.files_view()),
                i <= n,
                strings_view(found@) == keys_within(keys.subrange(0, i as int), dir@),
            decreases n - i,
        {
            assert(keys[i as int] == self.files@[i as int].0@);
            assert(keys.subrange(0, i + 1).drop_last() =~= keys.subrange(0, i as int));
            if path_starts_with(self.files[i].0.as_str(), dir) {
                found.push(self.files[i].0.clone());
                assert(strings_view(found@) =~= keys_within(keys.subrange(0, i as int), dir@).push(
                    keys[i as int],
                ));
            }
            i = i + 1;
        }
        assert(keys.subrange(0, n as int) =~= keys);
        let sorted = sort_paths(found);
        proof {
            broadcast use vstd::seq_lib::group_to_multiset_ensures;
            lemma_keys_within_contains(keys, dir@);
            assert forall|k: Seq<char>| #[trigger] strings_view(sorted@).contains(k) <==> (keys.contains(k)
                && path_within(k, dir@)) by {
                assert(strings_view(sorted@).to_multiset().count(k) == strings_view(found@).to_multiset().count(k));
            }
        }
        Ok(sorted)
    }

    /// The content stored at `path`; an error naming the path when there is
    /// none.
    pub fn read_file(&self, path: &str) -> (r: Result<Vec<u8>, FsError>)
        ensures
            match r {
                Ok(c) => table_get(self.files_view(), path@, true) == Some(c@),
                Err(e) => table_get(self.files_view(), path@, true) is None && e.0@
                    == not_found_message(path@),
            },
    {
        proof { self.lemma_keys(); }
        match find_key(&self.files, path, true) {
            Some(i) => Ok(copy_bytes(&self.files[i].1)),
            None => {
                proof { reveal_strlit("file not found: "); }
                let msg = String::from_str("file not found: ");
                Err(FsError(msg.concat(path)))
            },
        }
    }

    /// Records `entries` as the archive written at `dest`.
    pub fn write_zip(&mut self, entries: Vec<ZipEntry>, dest: &str) -> (r: Result<(), FsError>)
        ensures
            r is Ok,
            final(self).zips_view() == table_put(
                old(self).zips_view(),
                dest@,
                entries_view(entries@),
                true,
            ),
            final(self).files_view() == old(self).files_view(),
    {
        proof { self.lemma_keys(); }
        let ghost before = self.zips_view();
        let ghost ev = entries_view(entries@);
        match find_key(&self.zips, dest, true) {
            Some(i) => {
                let k = self.zips[i].0.clone();
                self.zips.set(i, (k, entries));
                assert(self.zips_view() =~= before.update(i as int, (before[i as int].0, ev)));
            },
            None => {
                let k = String::from_str(dest);
                self.zips.push((k, entries));
                assert(self.zips_view() =~= before.push((dest@, ev)));
            },
        }
        Ok(())
    }

    /// The sum of the bytes of `content` in thirty-two hexadecimal digits
    /// (see `fake_md5`).
    pub fn compute_md5(&self, content: &[u8]) -> (r: Result<String, FsError>)
        requires
            byte_sum(content@) <= u64::MAX,
        ensures
            match r {
                Ok(s) => s@ == fake_md5(content@),
                Err(_) => false,
            },
    {
        let n = content.len();
        let mut sum: u64 = 0;
        let mut i: usize = 0;
        while i < n
            invariant
                n == content@.len(),
                i <= n,
                sum == byte_sum(content@.subrange(0, i as int)),
                byte_sum(content@) <= u64::MAX,
            decreases n - i,
        {
            proof {
                assert(content@.subrange(0, i + 1).drop_last() =~= content@.subrange(0, i as int));
                lemma_byte_sum_prefix(content@, i + 1);
            }
            sum = sum + content[i] as u64;
            i = i + 1;
        }
        assert(content@.subrange(0, n as int) =~= content@);
        Ok(render_hex_u64_width32(sum))
    }

    /// Copies the content stored at `src` to `dest`.
    pub fn copy_file(&mut self, src: &str, dest: &str) -> (r: Result<(), FsError>)
        ensures
            match r {
                Ok(()) => table_get(old(self).files_view(), src@, true) is Some && final(self).files_view()
                    == table_put(
                    old(self).files_view(),
                    dest@,
                    table_get(old(self).files_view(), src@, true).unwrap(),
                    true,
                ),
                Err(e) => table_get(old(self).files_view(), src@, true) is None && e.0@
                    == not_found_message(src@) && final(self).files_view() == old(self).files_view(),
            },
            final(self).zips_view() == old(self).zips_view(),
    {
        let content = self.read_file(src)?;
        self.put_file(dest, content);
        Ok(())
    }
}

/// Whether the bytes of `content` sum to at most `u64::MAX`, so that the
/// in-memory checksum can be computed.
pub fn byte_sum_fits(content: &[u8]) -> (fits: bool)
    ensures
        fits == (byte_sum(content@) <= u64::MAX),
{
    let n = content.len();
    let mut sum: u64 = 0;
    let mut i: usize = 0;
    while i < n
        invariant
            n == content@.len(),
            i <= n,
            sum == byte_sum(content@.subrange(0, i as int)),
        decreases n - i,
    {
        proof {
            assert(content@.subrange(0, i + 1).drop_last() =~= content@.subrange(0, i as int));
            lemma_byte_sum_prefix(content@, i + 1);
        }
        match sum.checked_add(content[i] as u64) {
            Some(t) => sum = t,
            None => return false,
        }
        i = i + 1;
    }
    assert(content@.subrange(0, n as int) =~= content@);
    true
}

/// A prefix of a byte string sums to no more than the whole.
proof fn lemma_byte_sum_prefix(bytes: Seq<u8>, k: int)
    requires
        0 <= k <= bytes.len(),
    ensures
        byte_sum(bytes.subrange(0, k)) <= byte_sum(bytes),
    decreases bytes.len(),
{
    if k < bytes.len() {
        lemma_byte_sum_prefix(bytes.drop_last(), k);
        assert(bytes.drop_last().subrange(0, k) =~= bytes.subrange(0, k));
    } else {
        assert(bytes.subrange(0, k) =~= bytes);
    }
}

} // verus!
