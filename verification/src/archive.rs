//! The computing half of the local file system: MD5 checksums by the `md5`
//! crate and ZIP archives built in memory by the `zip` crate.

use vstd::prelude::*;
use vstd::string::*;
use crate::errors::FsError;
use crate::models::{ZipEntry, ZipEntryView, entries_view};
use crate::text::{hex_bytes, render_hex_bytes};

verus! {

/// The MD5 digest of `data`, as `md5::compute` gives it.
pub uninterp spec fn md5_of(data: Seq<u8>) -> Seq<u8>;

/// The 16 bytes of the MD5 digest of `data`, by `md5::compute`. Claimed:
/// they are `md5_of(data)`, a function of the data alone.
#[verifier::external_body]
fn md5_digest(data: &[u8]) -> (digest: [u8; 16])
    ensures
        digest@ == md5_of(data@),
{
    md5::compute(data).0
}

/// A ZIP archive being written into memory. The `zip::ZipWriter` is kept
/// in a private field, opaque to contracts (its type parameter is bound by
/// `std::io` traits, which contracts cannot speak of), and only the
/// functions below touch it. A call that fails consumes the writer, so a
/// writer in hand has seen only calls that succeeded.
#[verifier::external_body]
pub struct ArchiveWriter {
    writer: zip::ZipWriter<std::io::Cursor<Vec<u8>>>,
}

/// What an archive being written holds so far: each file opened in it, in
/// order, with its name and the byte strings written into it, in order.
pub uninterp spec fn archive_files(w: ArchiveWriter) -> Seq<(Seq<char>, Seq<Seq<u8>>)>;

/// The bytes `zip::ZipWriter::finish` gives for an archive written into
/// memory that holds `files`, each opened with Deflate at the default
/// options.
pub uninterp spec fn zip_bytes(files: Seq<(Seq<char>, Seq<Seq<u8>>)>) -> Seq<u8>;

/// The length of the Deflate stream (level 6, as `flate2`'s encoder in the
/// `zip` crate writes it) for a file into which the byte strings `chunks`
/// were written, in order.
pub uninterp spec fn deflated_len(chunks: Seq<Seq<u8>>) -> nat;

/// The names of `files`, in order.
pub open spec fn file_names(files: Seq<(Seq<char>, Seq<Seq<u8>>)>) -> Seq<Seq<char>> {
    files.map_values(|f: (Seq<char>, Seq<Seq<u8>>)| f.0)
}

/// How many bytes the byte strings `chunks` hold together.
pub open spec fn written_len(chunks: Seq<Seq<u8>>) -> nat
    decreases chunks.len(),
{
    if chunks.len() == 0 {
        0
    } else {
        written_len(chunks.drop_last()) + chunks.last().len()
    }
}

/// The most bytes one file of an archive may hold without the large-file
/// option (`u32::MAX`, the `zip` crate's `ZIP64_BYTES_THR`).
pub open spec fn zip_file_limit() -> nat {
    0xFFFF_FFFF
}

/// An empty archive writing into memory, by `zip::ZipWriter::new` over a
/// `std::io::Cursor`. Claimed: it holds no file.
#[verifier::external_body]
fn zip_writer() -> (w: ArchiveWriter)
    ensures
        archive_files(w) == Seq::<(Seq<char>, Seq<Seq<u8>>)>::empty(),
{
    ArchiveWriter { writer: zip::ZipWriter::new(std::io::Cursor::new(Vec::new())) }
}

/// Opens a new file named `name` in the archive, Deflate-compressed, by
/// `zip::ZipWriter::start_file`; an error is given back as its message and
/// the writer is dropped. The name's UTF-8 form must fit the 16-bit length
/// field of a local header (a longer one makes `start_file` panic on an
/// `unwrap`). Claimed: on success the archive holds one more file, named
/// `name`, with nothing written into it yet; a name already in the archive
/// fails; and it fails otherwise only when closing the previous file finds
/// its compressed size beyond `zip_file_limit` (the large-file option is
/// off).
#[verifier::external_body]
fn zip_start_file(w: ArchiveWriter, name: &str) -> (r: Result<ArchiveWriter, String>)
    requires
        vstd::utf8::encode_utf8(name@).len() <= 0xFFFF,
    ensures
        r matches Ok(w2) ==> archive_files(w2) == archive_files(w).push((name@, Seq::<Seq<u8>>::empty())),
        file_names(archive_files(w)).contains(name@) ==> r is Err,
        r is Err ==> file_names(archive_files(w)).contains(name@) || (archive_files(w).len() > 0
            && deflated_len(archive_files(w).last().1) > zip_file_limit()),
{
    let mut w = w;
    let options = zip::write::SimpleFileOptions::default().compression_method(
        zip::CompressionMethod::Deflated,
    );
    match w.writer.start_file(name, options) {
        Ok(()) => Ok(w),
        Err(e) => Err(e.to_string()),
    }
}

/// Writes `bytes` into the file last opened in the archive, by
/// `std::io::Write::write_all` on `zip::ZipWriter`; an error is given back
/// as its message and the writer is dropped. Claimed: writing nothing
/// succeeds and changes nothing (`write_all` then makes no call); writing
/// something succeeds exactly when a file is open and stays within
/// `zip_file_limit`, and adds `bytes` to what was written into the last
/// file.
#[verifier::external_body]
fn zip_write_all(w: ArchiveWriter, bytes: &[u8]) -> (r: Result<ArchiveWriter, String>)
    ensures
        r matches Ok(w2) ==> ({
            let files = archive_files(w);
            if bytes@.len() == 0 {
                archive_files(w2) == files
            } else {
                &&& files.len() > 0
                &&& archive_files(w2) == files.update(
                    files.len() - 1,
                    (files.last().0, files.last().1.push(bytes@)),
                )
            }
        }),
        bytes@.len() == 0 || (archive_files(w).len() > 0 && written_len(archive_files(w).last().1)
            + bytes@.len() <= zip_file_limit()) ==> r is Ok,
{
    let mut w = w;
    match std::io::Write::write_all(&mut w.writer, bytes) {
        Ok(()) => Ok(w),
        Err(e) => Err(e.to_string()),
    }
}

/// Closes the archive and gives back its bytes, by
/// `zip::ZipWriter::finish`; an error is given back as its message.
/// Claimed: the bytes are `zip_bytes` of the files the archive holds, a
/// function of those files alone (no clock enters: the `zip` crate's `time`
/// feature is off, so every file is dated 1980-01-01); it fails only when
/// closing the last file finds its compressed size beyond
/// `zip_file_limit`.
#[verifier::external_body]
fn zip_finish(w: ArchiveWriter) -> (r: Result<Vec<u8>, String>)
    ensures
        r matches Ok(b) ==> b@ == zip_bytes(archive_files(w)),
        r is Err ==> archive_files(w).len() > 0 && deflated_len(archive_files(w).last().1)
            > zip_file_limit(),
{
    match w.writer.finish() {
        Ok(c) => Ok(c.into_inner()),
        Err(e) => Err(e.to_string()),
    }
}

/// The byte strings written into the file of an entry with `content`:
/// none when it is empty, else the content at once.
pub open spec fn entry_chunks(content: Seq<u8>) -> Seq<Seq<u8>> {
    if content.len() == 0 {
        Seq::empty()
    } else {
        seq![content]
    }
}

/// The files of an archive holding `entries` in order.
pub open spec fn archive_files_of(entries: Seq<ZipEntryView>) -> Seq<(Seq<char>, Seq<Seq<u8>>)> {
    entries.map_values(|e: ZipEntryView| (e.path, entry_chunks(e.content)))
}

/// Two of `entries` have the same path.
pub open spec fn repeated_path(entries: Seq<ZipEntryView>) -> bool {
    exists|i: int, j: int| 0 <= i < j < entries.len() && entries[i].path == entries[j].path
}

/// Every entry stays within `zip_file_limit`, as written and as compressed.
pub open spec fn within_zip_limits(entries: Seq<ZipEntryView>) -> bool {
    forall|i: int|
        0 <= i < entries.len() ==> #[trigger] entries[i].content.len() <= zip_file_limit()
            && deflated_len(entry_chunks(entries[i].content)) <= zip_file_limit()
}

/// Every path of `entries` fits a local header's 16-bit name length.
pub open spec fn paths_fit(entries: Seq<ZipEntryView>) -> bool {
    forall|i: int| 0 <= i < entries.len() ==> vstd::utf8::encode_utf8(#[trigger] entries[i].path).len() <= 0xFFFF
}

/// The local file system, on the disk of the machine the service runs on.
#[derive(Debug, Default)]
pub struct LocalFs;

/// `prefix` followed by `cause`, as an `FsError`.
fn fs_error(prefix: &str, cause: String) -> (e: FsError)
    ensures
        e.0@ == prefix@ + cause@,
{
    let s = String::from_str(prefix);
    FsError(s.concat(cause.as_str()))
}

impl LocalFs {
    /// The MD5 digest of `content` in lowercase hexadecimal (`{:x}`).
    pub fn compute_md5(&self, content: &[u8]) -> (r: Result<String, FsError>)
        ensures
            match r {
                Ok(s) => s@ == hex_bytes(md5_of(content@)),
                Err(_) => false,
            },
    {
        let digest = md5_digest(content);
        Ok(render_hex_bytes(&digest))
    }

    /// The bytes of a ZIP archive holding `entries` in order, each under its
    /// path and Deflate-compressed: `zip_bytes` of `archive_files_of` the
    /// entries. Each path must fit a local header's name length. It fails
    /// when two entries share a path, and succeeds when no two do and every
    /// entry stays within `zip_file_limit` both as written and as
    /// compressed. A failure says which step failed: opening an entry ("zip
    /// entry error: ", a repeated path or an entry before it compressed
    /// beyond the limit), writing one ("zip write error: ", an entry beyond
    /// the limit), or closing the archive ("zip finish error: ", the last
    /// entry compressed beyond the limit).
    pub fn zip_archive(&self, entries: Vec<ZipEntry>) -> (r: Result<Vec<u8>, FsError>)
        requires
            paths_fit(entries_view(entries@)),
        ensures
            match r {
                Ok(b) => b@ == zip_bytes(archive_files_of(entries_view(entries@))),
                Err(e) => {
                    let ev = entries_view(entries@);
                    ||| crate::text::starts_with_seq(e.0@, "zip entry error: "@) && (repeated_path(ev)
                        || exists|i: int|
                        0 <= i < ev.len() && #[trigger] deflated_len(entry_chunks(ev[i].content))
                            > zip_file_limit())
                    ||| crate::text::starts_with_seq(e.0@, "zip write error: "@) && exists|i: int|
                        0 <= i < ev.len() && #[trigger] ev[i].content.len() > zip_file_limit()
                    ||| crate::text::starts_with_seq(e.0@, "zip finish error: "@) && ev.len() >= 1
                        && deflated_len(entry_chunks(ev[ev.len() - 1].content)) > zip_file_limit()
                },
            },
            repeated_path(entries_view(entries@)) ==> r is Err,
            !repeated_path(entries_view(entries@)) && within_zip_limits(entries_view(entries@))
                ==> r is Ok,
    {
        let ghost ev = entries_view(entries@);
        let mut w = zip_writer();
        let n = entries.len();
        let mut i: usize = 0;
        assert(archive_files_of(ev.subrange(0, 0)) =~= Seq::<(Seq<char>, Seq<Seq<u8>>)>::empty());
        while i < n
            invariant
                n == entries@.len(),
                ev == entries_view(entries@),
                paths_fit(ev),
                i <= n,
                archive_files(w) == archive_files_of(ev.subrange(0, i as int)),
                forall|a: int, b: int| 0 <= a < b < i ==> ev[a].path != ev[b].path,
            decreases n - i,
        {
            let ghost before = archive_files_of(ev.subrange(0, i as int));
            proof {
                assert(ev[i as int] == entries@[i as int]@);
                assert(vstd::utf8::encode_utf8(ev[i as int].path).len() <= 0xFFFF);
                assert(before.len() == i);
                assert(file_names(before) =~= ev.subrange(0, i as int).map_values(
                    |e: ZipEntryView| e.path,
                ));
            }
            let w1 = match zip_start_file(w, entries[i].path.as_str()) {
                Ok(w1) => w1,
                Err(cause) => {
                    proof {
                        if file_names(before).contains(ev[i as int].path) {
                            let k = choose|k: int| 0 <= k < file_names(before).len() && file_names(before)[k] == ev[i as int].path;
                            assert(file_names(before)[k] == ev[k].path);
                            assert(repeated_path(ev));
                        } else {
                            assert(before.last() == before[i - 1]);
                            assert(before[i - 1] == (ev[i - 1].path, entry_chunks(ev[i - 1].content)));
                            assert(deflated_len(entry_chunks(ev[i - 1].content)) > zip_file_limit());
                        }
                    }
                    let ghost c = cause@;
                    let e = fs_error("zip entry error: ", cause);
                    proof { crate::text::lemma_starts_with_concat("zip entry error: "@, c); }
                    return Err(e);
                },
            };
            proof {
                assert forall|a: int| 0 <= a < i implies ev[a].path != ev[i as int].path by {
                    assert(file_names(before)[a] == ev[a].path);
                }
            }
            let w2 = match zip_write_all(w1, entries[i].content.as_slice()) {
                Ok(w2) => w2,
                Err(cause) => {
                    proof {
                        assert(archive_files(w1).last().1 =~= Seq::<Seq<u8>>::empty());
                        assert(written_len(archive_files(w1).last().1) == 0);
                        assert(ev[i as int].content.len() > zip_file_limit());
                    }
                    let ghost c = cause@;
                    let e = fs_error("zip write error: ", cause);
                    proof { crate::text::lemma_starts_with_concat("zip write error: "@, c); }
                    return Err(e);
                },
            };
            proof {
                let item = (ev[i as int].path, entry_chunks(ev[i as int].content));
                assert(archive_files(w2) =~= before.push(item));
                assert(archive_files_of(ev.subrange(0, i + 1)) =~= before.push(item));
            }
            w = w2;
            i = i + 1;
        }
        assert(ev.subrange(0, n as int) =~= ev);
        match zip_finish(w) {
            Ok(bytes) => Ok(bytes),
            Err(cause) => {
                proof {
                    let files = archive_files_of(ev);
                    assert(files.last() == files[n - 1]);
                    assert(files[n - 1] == (ev[n - 1].path, entry_chunks(ev[n - 1].content)));
                }
                let ghost c = cause@;
                let e = fs_error("zip finish error: ", cause);
                proof { crate::text::lemma_starts_with_concat("zip finish error: "@, c); }
                Err(e)
            },
        }
    }
}

} // verus!
