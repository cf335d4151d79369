//! In-memory zip archives for the download command.
//!
//! The unverified shell walks the requested path and reads each file; this
//! module turns the resulting list of entries into one zip archive held in
//! memory, through the zip crate. The writer's growing contents are modelled
//! by [`zip_entries`], its usability by [`zip_writer_open`], and the
//! finished archive's bytes by [`zip_bytes_of`]: with fixed options and no
//! clock involved they are a function of the entries alone.

use std::io::Write;
use vstd::prelude::*;
use vstd::string::StrSliceExecFns;

verus! {

/// The largest file entry the archive builder promises to hold. The zip
/// format's plain size fields carry at most 0xFFFF_FFFF bytes, and the
/// check is made on the *compressed* stream, which deflate can leave a
/// little larger than incompressible input (a few bytes per block); the
/// margin of roughly 16 MiB below the field's bound dwarfs that expansion.
pub const MAX_FILE_BYTES: usize = 0xFF00_0000;

/// One entry of the archive to build: a directory, or a file with its
/// bytes. Names are paths relative to the parent of the download root.
pub struct ZipEntry {
    pub name: String,
    pub is_dir: bool,
    pub data: Vec<u8>,
}

impl View for ZipEntry {
    type V = (Seq<char>, bool, Seq<u8>);

    open spec fn view(&self) -> Self::V {
        (
            self.name@,
            self.is_dir,
            if self.is_dir {
                Seq::empty()
            } else {
                self.data@
            },
        )
    }
}

/// The models of a list of entries, in order.
pub open spec fn spec_entry_views(entries: Seq<ZipEntry>) -> Seq<(Seq<char>, bool, Seq<u8>)> {
    entries.map_values(|e: ZipEntry| e@)
}

/// A directory name the archive can carry under the model: the zip crate
/// stores every directory with one slash appended, so the name handed in
/// must not already end in a separator.
pub open spec fn spec_dir_name_ok(name: Seq<char>) -> bool {
    name.len() == 0 || (name.last() != '/' && name.last() != '\\')
}

/// Every entry can be archived: directory names carry no trailing
/// separator, and each file's bytes stay within [`MAX_FILE_BYTES`].
pub open spec fn spec_entries_ok(entries: Seq<ZipEntry>) -> bool {
    forall|i: int|
        0 <= i < entries.len() ==> {
            &&& (#[trigger] entries[i]).is_dir ==> spec_dir_name_ok(entries[i].name@)
            &&& !entries[i].is_dir ==> entries[i].data@.len() <= MAX_FILE_BYTES
        }
}

/// Every file entry already in the writer stays within [`MAX_FILE_BYTES`],
/// so closing it writes a compressed size within the format's field.
pub open spec fn spec_stored_ok(entries: Seq<(Seq<char>, bool, Seq<u8>)>) -> bool {
    forall|i: int|
        0 <= i < entries.len() ==> !(#[trigger] entries[i]).1 ==> entries[i].2.len()
            <= MAX_FILE_BYTES
}

/// Tests [`spec_dir_name_ok`] on a directory name.
fn dir_name_ok(name: &str) -> (r: bool)
    ensures
        r == spec_dir_name_ok(name@),
{
    let n = name.unicode_len();
    if n == 0 {
        true
    } else {
        let c = name.get_char(n - 1);
        c != '/' && c != '\\'
    }
}

/// A zip archive being written into memory. The writer itself is the zip
/// crate's; Verus sees it only through [`zip_entries`] and
/// [`zip_writer_open`].
#[verifier::external_body]
pub struct ArchiveWriter {
    inner: zip::ZipWriter<std::io::Cursor<Vec<u8>>>,
}

/// The entries a zip writer holds so far, each read as: the name it was
/// handed in under (for a directory, the stored name minus the one slash
/// the zip crate appends), whether it is a directory, and the bytes
/// written into it.
pub uninterp spec fn zip_entries(w: ArchiveWriter) -> Seq<(Seq<char>, bool, Seq<u8>)>;

/// Whether the writer still accepts entries and writes: its inner stream
/// has not been torn down by an earlier failure, and it is mid-file
/// exactly when its last entry is a file. Every wrapper keeps it on
/// success; a failed write leaves it unspecified.
pub uninterp spec fn zip_writer_open(w: ArchiveWriter) -> bool;

/// The bytes of the finished archive holding exactly these entries.
pub uninterp spec fn zip_bytes_of(entries: Seq<(Seq<char>, bool, Seq<u8>)>) -> Seq<u8>;

/// Relies on zip::ZipWriter::new over an in-memory cursor: a fresh writer
/// holds no entries and is open.
#[verifier::external_body]
fn zip_new() -> (w: ArchiveWriter)
    ensures
        zip_entries(w) == Seq::<(Seq<char>, bool, Seq<u8>)>::empty(),
        zip_writer_open(w),
{
    ArchiveWriter { inner: zip::ZipWriter::new(std::io::Cursor::new(Vec::new())) }
}

/// Relies on zip::ZipWriter::start_file with default options: the archive
/// gains one file entry under the given name, holding no bytes yet. The
/// call first closes the previous entry, whose compressed size must fit
/// the format's plain field: within [`spec_stored_ok`]'s bound it does,
/// and every write into the in-memory buffer is infallible.
#[verifier::external_body]
fn zip_start_file(w: &mut ArchiveWriter, name: &str) -> (ok: bool)
    ensures
        zip_writer_open(*old(w)) && spec_stored_ok(zip_entries(*old(w))) ==> ok,
        ok ==> zip_entries(*final(w)) == zip_entries(*old(w)).push(
            (name@, false, Seq::<u8>::empty()),
        ),
        ok ==> zip_writer_open(*final(w)),
{
    w.inner.start_file(name, zip::write::FileOptions::default()).is_ok()
}

/// Relies on std::io::Write::write_all on zip::ZipWriter: on success the
/// bytes are appended to the file entry started last. Over an in-memory
/// buffer the only failure is the format's size bound on the entry's raw
/// bytes, which [`spec_stored_ok`]'s margin keeps away.
#[verifier::external_body]
fn zip_write_data(w: &mut ArchiveWriter, data: &[u8]) -> (ok: bool)
    requires
        zip_entries(*old(w)).len() > 0,
        !zip_entries(*old(w)).last().1,
    ensures
        zip_writer_open(*old(w)) && zip_entries(*old(w)).last().2.len() + data@.len()
            <= MAX_FILE_BYTES ==> ok,
        ok ==> zip_entries(*final(w)) == zip_entries(*old(w)).update(
            zip_entries(*old(w)).len() - 1,
            (
                zip_entries(*old(w)).last().0,
                false,
                zip_entries(*old(w)).last().2 + data@,
            ),
        ),
        ok ==> zip_writer_open(*final(w)),
{
    w.inner.write_all(data).is_ok()
}

/// Relies on zip::ZipWriter::add_directory with default options: the
/// archive gains one directory entry stored under the given name plus one
/// appended slash, which the model strips again, so the name handed in
/// must not already end in a separator. The call closes the previous
/// entry, as in [`zip_start_file`].
#[verifier::external_body]
fn zip_add_directory(w: &mut ArchiveWriter, name: &str) -> (ok: bool)
    requires
        spec_dir_name_ok(name@),
    ensures
        zip_writer_open(*old(w)) && spec_stored_ok(zip_entries(*old(w))) ==> ok,
        ok ==> zip_entries(*final(w)) == zip_entries(*old(w)).push(
            (name@, true, Seq::<u8>::empty()),
        ),
        ok ==> zip_writer_open(*final(w)),
{
    w.inner.add_directory(name, zip::write::FileOptions::default()).is_ok()
}

/// Relies on zip::ZipWriter::finish: the central directory is written and
/// the archive's bytes are handed back. The call closes the last entry, as
/// in [`zip_start_file`]; the rest writes into the in-memory buffer and
/// cannot fail on an open writer.
#[verifier::external_body]
fn zip_finish(w: ArchiveWriter) -> (r: Option<Vec<u8>>)
    ensures
        zip_writer_open(w) && spec_stored_ok(zip_entries(w)) ==> r is Some,
        r matches Some(v) ==> v@ == zip_bytes_of(zip_entries(w)),
{
    let mut w = w;
    match w.inner.finish() {
        Ok(cursor) => Some(cursor.into_inner()),
        Err(_) => None,
    }
}

/// Builds the archive holding exactly the given entries, in order: each
/// directory as a directory entry, each file with its bytes. `None` only
/// when an entry cannot be archived — a directory name ending in a
/// separator, or a file beyond [`MAX_FILE_BYTES`]; the caller treats that
/// as the failure of the whole download.
pub fn build_zip(entries: &Vec<ZipEntry>) -> (r: Option<Vec<u8>>)
    ensures
        r matches Some(v) ==> v@ == zip_bytes_of(spec_entry_views(entries@)),
        spec_entries_ok(entries@) ==> r is Some,
{
    let mut w = zip_new();
    let mut i: usize = 0;
    while i < entries.len()
        invariant
            0 <= i <= entries@.len(),
            zip_entries(w) == spec_entry_views(entries@.take(i as int)),
            zip_writer_open(w),
            spec_stored_ok(zip_entries(w)),
        decreases entries@.len() - i,
    {
        let e = &entries[i];
        if e.is_dir {
            if !dir_name_ok(e.name.as_str()) {
                proof {
                    assert(entries@[i as int].is_dir && !spec_dir_name_ok(
                        entries@[i as int].name@,
                    ));
                }
                return None;
            }
            if !zip_add_directory(&mut w, e.name.as_str()) {
                return None;
            }
        } else {
            if e.data.len() > MAX_FILE_BYTES {
                proof {
                    assert(!entries@[i as int].is_dir && entries@[i as int].data@.len()
                        > MAX_FILE_BYTES);
                }
                return None;
            }
            if !zip_start_file(&mut w, e.name.as_str()) {
                return None;
            }
            if !zip_write_data(&mut w, e.data.as_slice()) {
                return None;
            }
        }
        proof {
            assert(Seq::<u8>::empty() + entries@[i as int]@.2 =~= entries@[i as int]@.2);
            assert(zip_entries(w) =~= spec_entry_views(entries@.take(i as int)).push(
                entries@[i as int]@,
            ));
            assert(spec_entry_views(entries@.take(i as int + 1)) =~= spec_entry_views(
                entries@.take(i as int),
            ).push(entries@[i as int]@));
        }
        i = i + 1;
    }
    proof {
        assert(entries@.take(entries@.len() as int) =~= entries@);
    }
    zip_finish(w)
}

} // verus!
