//! The zip writer that the archiver fills, seen through a small set of
//! operations with stated effects on the entries it has recorded.

use std::io::Cursor;
use std::io::Write;
use vstd::prelude::*;
use zip::result::ZipError;
use zip::write::FileOptions;
use zip::CompressionMethod;
use zip::DateTime;
use zip::ZipWriter;

verus! {

/// How the bytes of an entry are kept in the archive.
#[derive(Clone, Copy, Debug, PartialEq, Eq, Structural)]
pub enum Compression {
    /// As they are, without compression.
    Stored,
}

/// The largest number of bytes that one file entry can hold.
pub const MAX_FILE_BYTES: u64 = 0xFFFF_FFFF;

/// What one archive entry holds: its name, whether it is a directory entry,
/// its Unix mode, how its bytes are kept, and its bytes.
pub struct EntryView {
    pub name: Seq<char>,
    pub is_dir: bool,
    pub mode: u32,
    pub method: Compression,
    pub data: Seq<u8>,
}

/// A zip writer over an in-memory buffer. What it has recorded is known
/// only through `zip_written`, whether it still takes entries only through
/// `zip_open`.
#[verifier::external_body]
pub struct ArchiveWriter {
    inner: ZipWriter<Cursor<Vec<u8>>>,
}

#[verifier::external_type_specification]
#[verifier::external_body]
pub struct ExZipError(ZipError);

/// An archive that could not be written, with the writer's complaint.
#[derive(Debug)]
pub struct ArchiveError {
    pub message: String,
}

/// The entries that a writer has recorded so far, oldest first.
pub uninterp spec fn zip_written(w: ArchiveWriter) -> Seq<EntryView>;

/// The writer has not been closed. A writer over a buffer in memory is
/// closed by nothing but a file entry that grows beyond `MAX_FILE_BYTES`,
/// and refuses nothing as long as it is open.
pub uninterp spec fn zip_open(w: ArchiveWriter) -> bool;

/// The bytes of the finished archive that holds `entries`, each under the
/// fixed date of 1 January 1980.
pub uninterp spec fn zip_encoding(entries: Seq<EntryView>) -> Seq<u8>;

/// The name under which a directory is recorded: the given name, closed by
/// a slash unless it already ends in a slash or a backslash.
pub open spec fn directory_name(name: Seq<char>) -> Seq<char> {
    if name.len() > 0 && (name.last() == '/' || name.last() == '\\') {
        name
    } else {
        name + seq!['/']
    }
}

/// The mode recorded for a directory: the nine permission bits of `mode`
/// and the directory type bit.
pub open spec fn directory_mode(mode: u32) -> u32 {
    (mode & 0o777) | 0o40000
}

/// The mode recorded for a file: the nine permission bits of `mode` and the
/// regular-file type bit.
pub open spec fn file_mode(mode: u32) -> u32 {
    (mode & 0o777) | 0o100000
}

/// `entries` with `data` added at the end of the last entry's bytes.
pub open spec fn with_appended(entries: Seq<EntryView>, data: Seq<u8>) -> Seq<EntryView> {
    entries.drop_last().push(
        EntryView {
            name: entries.last().name,
            is_dir: entries.last().is_dir,
            mode: entries.last().mode,
            method: entries.last().method,
            data: entries.last().data + data,
        },
    )
}

/// `ZipWriter::new` over an empty in-memory buffer: the fresh writer is
/// open and has recorded no entry.
#[verifier::external_body]
pub(crate) fn zip_new() -> (w: ArchiveWriter)
    ensures
        zip_written(w) == Seq::<EntryView>::empty(),
        zip_open(w),
{
    ArchiveWriter { inner: ZipWriter::new(Cursor::new(Vec::new())) }
}

/// `ZipWriter::add_directory` with options that carry the fixed date and
/// `mode` as Unix permissions. An open writer accepts the entry and stays
/// open. When the call succeeds, one directory entry has been added after
/// the others: its name is `name` closed by a slash, its mode the
/// permission bits of `mode` with the directory bit, it is stored, and it
/// has no bytes. Nothing is claimed of a writer that reported an error.
#[verifier::external_body]
pub(crate) fn zip_add_directory(w: &mut ArchiveWriter, name: &str, mode: u32) -> (r: Result<
    (),
    ZipError,
>)
    ensures
        zip_open(*old(w)) ==> r is Ok && zip_open(*final(w)),
        r is Ok ==> zip_written(*final(w)) == zip_written(*old(w)).push(
            EntryView {
                name: directory_name(name@),
                is_dir: true,
                mode: directory_mode(mode),
                method: Compression::Stored,
                data: Seq::empty(),
            },
        ),
{
    let options =
        FileOptions::default().last_modified_time(DateTime::default()).unix_permissions(mode);
    w.inner.add_directory(name, options)
}

/// `ZipWriter::start_file` with options that carry the fixed date, the
/// method `method` and `mode` as Unix permissions. An open writer accepts
/// the entry and stays open. When the call succeeds, one file entry has
/// been added after the others: its name is `name` as given, its mode the
/// permission bits of `mode` with the regular-file bit, its method
/// `method`, and it has no bytes yet. Nothing is claimed of a writer that
/// reported an error.
#[verifier::external_body]
pub(crate) fn zip_start_file(
    w: &mut ArchiveWriter,
    name: &str,
    mode: u32,
    method: Compression,
) -> (r: Result<(), ZipError>)
    ensures
        zip_open(*old(w)) ==> r is Ok && zip_open(*final(w)),
        r is Ok ==> zip_written(*final(w)) == zip_written(*old(w)).push(
            EntryView { name: name@, is_dir: false, mode: file_mode(mode), method, data: Seq::empty() },
        ),
{
    let method = match method {
        Compression::Stored => CompressionMethod::Stored,
    };
    let options = FileOptions::default().compression_method(method).last_modified_time(
        DateTime::default(),
    ).unix_permissions(mode);
    w.inner.start_file(name, options)
}

/// `Write::write_all` on the zip writer. With no bytes to write it
/// succeeds at once and changes nothing. With bytes, an open writer whose
/// last entry is a file takes them if that entry stays within
/// `MAX_FILE_BYTES`, and stays open; if the entry would grow beyond that,
/// the writer reports an error. When the call succeeds with bytes, they
/// follow the earlier bytes of the last entry recorded. Nothing is claimed
/// of a writer that reported an error.
#[verifier::external_body]
pub(crate) fn zip_write_all(w: &mut ArchiveWriter, data: &[u8]) -> (r: Result<(), ZipError>)
    ensures
        data@.len() == 0 ==> r is Ok && zip_open(*final(w)) == zip_open(*old(w)),
        zip_open(*old(w)) && zip_written(*old(w)).len() > 0 && !zip_written(*old(w)).last().is_dir
            && zip_written(*old(w)).last().data.len() + data@.len() <= MAX_FILE_BYTES ==> r is Ok
            && zip_open(*final(w)),
        zip_open(*old(w)) && zip_written(*old(w)).len() > 0 && !zip_written(*old(w)).last().is_dir
            && data@.len() > 0 && zip_written(*old(w)).last().data.len() + data@.len()
            > MAX_FILE_BYTES ==> r is Err,
        r is Ok ==> zip_written(*final(w)) == if data@.len() == 0 {
            zip_written(*old(w))
        } else {
            with_appended(zip_written(*old(w)), data@)
        },
{
    w.inner.write_all(data).map_err(ZipError::Io)
}

/// `ZipWriter::finish`, which closes the last entry, writes the central
/// directory and hands the buffer back. An open writer can always finish.
/// The bytes depend on nothing but the entries recorded.
#[verifier::external_body]
pub(crate) fn zip_finish(w: ArchiveWriter) -> (r: Result<Vec<u8>, ZipError>)
    ensures
        zip_open(w) ==> r is Ok,
        r is Ok ==> r->Ok_0@ == zip_encoding(zip_written(w)),
{
    let mut w = w;
    w.inner.finish().map(|buffer| buffer.into_inner())
}

/// The writer's complaint, as the `Debug` form of `ZipError` writes it.
#[verifier::external_body]
pub(crate) fn archive_error(e: ZipError) -> ArchiveError {
    ArchiveError { message: format!("{:?}", e) }
}

} // verus!
