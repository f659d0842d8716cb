//! Mod archives: a container is a list of entries, each a name, the method
//! by which its bytes are packed, and its bytes. The `zip` crate reads and
//! writes them; what is stated of it here is believed, not proved.

use vstd::prelude::*;
use vstd::utf8::{decode_utf8, encode_utf8, valid_utf8};

verus! {

#[verifier::external_type_specification]
#[verifier::external_body]
#[verifier::reject_recursive_types(T)]
pub struct ExCursor<T>(std::io::Cursor<T>);

#[verifier::external_type_specification]
#[verifier::external_body]
#[verifier::reject_recursive_types(R)]
pub struct ExZipArchive<R>(zip::ZipArchive<R>);

#[verifier::external_type_specification]
#[verifier::external_body]
pub struct ExZipError(zip::result::ZipError);

#[verifier::external_type_specification]
#[verifier::external_body]
pub struct ExIoError(std::io::Error);

#[verifier::external_type_specification]
#[verifier::external_body]
pub struct ExFromUtf8Error(std::string::FromUtf8Error);

/// The entries that `zip::ZipArchive::new` finds in a container, in the
/// order of its directory; `None` where it takes the bytes for no archive.
/// Each entry is its name, the number of the method by which it is packed,
/// and its bytes as they are unpacked; the bytes are `None` for an entry
/// that the crate cannot unpack.
pub uninterp spec fn container_entries(bytes: Seq<u8>) -> Option<
    Seq<(Seq<char>, u16, Option<Seq<u8>>)>,
>;

/// The entries that an open archive holds.
pub uninterp spec fn archive_entries(a: zip::ZipArchive<std::io::Cursor<Vec<u8>>>) -> Seq<
    (Seq<char>, u16, Option<Seq<u8>>),
>;

/// A container that is being written. It holds a `zip::ZipWriter` over a
/// buffer in memory.
#[verifier::external_body]
pub struct ArchiveWriter {
    inner: zip::ZipWriter<std::io::Cursor<Vec<u8>>>,
}

/// The entries written so far: name, method and bytes of each.
pub uninterp spec fn writer_entries(w: ArchiveWriter) -> Seq<(Seq<char>, u16, Seq<u8>)>;

/// Whether every call on the writer so far has succeeded. Only of such a
/// writer is anything stated.
pub uninterp spec fn writer_sound(w: ArchiveWriter) -> bool;

/// Whether `ZipWriter::start_file` takes an entry of that name and method
/// after the entries written so far.
pub uninterp spec fn starts(written: Seq<(Seq<char>, u16, Seq<u8>)>, name: Seq<char>, method: u16) -> bool;

/// Whether the writer takes these bytes for the entry started last.
pub uninterp spec fn takes(written: Seq<(Seq<char>, u16, Seq<u8>)>, data: Seq<u8>) -> bool;

/// Whether `ZipWriter::finish` closes a container of these entries.
pub uninterp spec fn closes(written: Seq<(Seq<char>, u16, Seq<u8>)>) -> bool;

/// The number of the method that packs bytes by deflation.
pub const DEFLATED: u16 = 8;

/// The longest name, in bytes, that an entry can have.
pub const NAME_LIMIT: usize = 65535;

/// The names of the entries, in order.
pub open spec fn names(entries: Seq<(Seq<char>, u16, Option<Seq<u8>>)>) -> Seq<Seq<char>> {
    entries.map_values(|e: (Seq<char>, u16, Option<Seq<u8>>)| e.0)
}

/// The names of the entries written, in order.
pub open spec fn written_names(written: Seq<(Seq<char>, u16, Seq<u8>)>) -> Seq<Seq<char>> {
    written.map_values(|e: (Seq<char>, u16, Seq<u8>)| e.0)
}

/// Entries that were written, as they are found when they are read: every
/// one of them can be unpacked.
pub open spec fn unpacked(written: Seq<(Seq<char>, u16, Seq<u8>)>) -> Seq<
    (Seq<char>, u16, Option<Seq<u8>>),
> {
    written.map_values(|e: (Seq<char>, u16, Seq<u8>)| (e.0, e.1, Some(e.2)))
}

/// No entry of that name can be unpacked.
pub open spec fn gives_nothing(entries: Seq<(Seq<char>, u16, Option<Seq<u8>>)>, name: Seq<char>) -> bool {
    forall|i: int| 0 <= i < entries.len() && (#[trigger] entries[i]).0 == name ==> entries[i].2 is None
}

/// An entry of that name unpacks to these bytes.
pub open spec fn gives(
    entries: Seq<(Seq<char>, u16, Option<Seq<u8>>)>,
    name: Seq<char>,
    bytes: Seq<u8>,
) -> bool {
    exists|i: int|
        0 <= i < entries.len() && (#[trigger] entries[i]).0 == name && entries[i].2 == Some(bytes)
}

/// The entries after `data` was written to the entry that is open: its
/// bytes follow those that the last entry has.
pub open spec fn appended(entries: Seq<(Seq<char>, u16, Seq<u8>)>, data: Seq<u8>) -> Seq<
    (Seq<char>, u16, Seq<u8>),
> {
    if entries.len() == 0 {
        entries
    } else {
        entries.update(
            entries.len() - 1,
            (entries.last().0, entries.last().1, entries.last().2 + data),
        )
    }
}

/// `zip::ZipArchive::new` over the bytes of a container. Claimed: the archive
/// that comes back holds what `container_entries` names, an error comes
/// back exactly where that is `None`, and no two entries of an archive have
/// one name (the crate keeps the entries in a map keyed by name).
#[verifier::external_body]
pub(crate) fn open(bytes: Vec<u8>) -> (r: Result<
    zip::ZipArchive<std::io::Cursor<Vec<u8>>>,
    zip::result::ZipError,
>)
    ensures
        match r {
            Ok(a) => container_entries(bytes@) == Some(archive_entries(a)) && names(
                archive_entries(a),
            ).no_duplicates(),
            Err(_) => container_entries(bytes@) is None,
        },
{
    zip::ZipArchive::new(std::io::Cursor::new(bytes))
}

/// `ZipArchive::len`: the number of entries.
#[verifier::external_body]
pub(crate) fn entry_count(a: &zip::ZipArchive<std::io::Cursor<Vec<u8>>>) -> (n: usize)
    ensures
        n == archive_entries(*a).len(),
{
    a.len()
}

/// `ZipArchive::name_for_index`: the name of entry `i`.
#[verifier::external_body]
pub(crate) fn entry_name(a: &zip::ZipArchive<std::io::Cursor<Vec<u8>>>, i: usize) -> (name: String)
    requires
        i < archive_entries(*a).len(),
    ensures
        name@ == archive_entries(*a)[i as int].0,
{
    a.name_for_index(i).map(|name| name.to_string()).unwrap_or_default()
}

/// `ZipArchive::by_name`, then `read_to_end` on the file it gives: the
/// bytes of the entry of that name, unpacked. The outer error is that of
/// `by_name`, the inner one that of reading. Claimed: bytes come back
/// exactly where the entry of that name can be unpacked, and are its bytes;
/// a name that no entry has gives the outer error; and the archive holds
/// what it held.
#[verifier::external_body]
pub(crate) fn entry_bytes_by_name(a: &mut zip::ZipArchive<std::io::Cursor<Vec<u8>>>, name: &str) -> (r:
    Result<Result<Vec<u8>, std::io::Error>, zip::result::ZipError>)
    ensures
        archive_entries(*final(a)) == archive_entries(*old(a)),
        !names(archive_entries(*old(a))).contains(name@) ==> r is Err,
        match r {
            Ok(Ok(bytes)) => gives(archive_entries(*old(a)), name@, bytes@),
            _ => gives_nothing(archive_entries(*old(a)), name@),
        },
{
    let mut file = a.by_name(name)?;
    let mut bytes = Vec::new();
    Ok(std::io::Read::read_to_end(&mut file, &mut bytes).map(|_| bytes))
}

/// `ZipArchive::by_index`, then `ZipFile::compression` and `read_to_end` on
/// the file it gives: the method of entry `i` and its bytes, unpacked. The
/// outer error is that of `by_index`, the inner one that of reading.
/// Claimed: they come back exactly where entry `i` is there and can be
/// unpacked, and are its method and its bytes; and the archive holds what
/// it held.
#[allow(deprecated)]
#[verifier::external_body]
pub(crate) fn entry_bytes(a: &mut zip::ZipArchive<std::io::Cursor<Vec<u8>>>, i: usize) -> (r: Result<
    Result<(u16, Vec<u8>), std::io::Error>,
    zip::result::ZipError,
>)
    ensures
        archive_entries(*final(a)) == archive_entries(*old(a)),
        match r {
            Ok(Ok((method, bytes))) => i < archive_entries(*old(a)).len() && archive_entries(
                *old(a),
            )[i as int].1 == method && archive_entries(*old(a))[i as int].2 == Some(bytes@),
            _ => i >= archive_entries(*old(a)).len() || archive_entries(*old(a))[i as int].2
                is None,
        },
{
    let mut file = a.by_index(i)?;
    let method = file.compression().to_u16();
    let mut bytes = Vec::new();
    Ok(std::io::Read::read_to_end(&mut file, &mut bytes).map(|_| (method, bytes)))
}

/// `ZipWriter::new` over an empty buffer: nothing is written yet.
#[verifier::external_body]
pub(crate) fn writer_new() -> (w: ArchiveWriter)
    ensures
        writer_entries(w) == Seq::<(Seq<char>, u16, Seq<u8>)>::empty(),
        writer_sound(w),
{
    ArchiveWriter { inner: zip::ZipWriter::new(std::io::Cursor::new(Vec::new())) }
}

/// `ZipWriter::start_file` with the default options and the method given.
/// The crate panics on a name of more than 65535 bytes, so such a name is
/// left out. Claimed: it succeeds exactly where `starts` says; where it
/// does, an entry of that name and method with no bytes yet follows the
/// entries written so far; and a name that an entry written has is refused.
#[allow(deprecated)]
#[verifier::external_body]
pub(crate) fn writer_start_file(w: &mut ArchiveWriter, name: &str, method: u16) -> (r: Result<
    (),
    zip::result::ZipError,
>)
    requires
        writer_sound(*old(w)),
        encode_utf8(name@).len() <= NAME_LIMIT,
    ensures
        r is Ok <==> starts(writer_entries(*old(w)), name@, method),
        r is Ok ==> writer_sound(*final(w)) && writer_entries(*final(w)) == writer_entries(
            *old(w),
        ).push((name@, method, Seq::<u8>::empty())),
        written_names(writer_entries(*old(w))).contains(name@) ==> r is Err,
{
    let packed = zip::CompressionMethod::from_u16(method);
    w.inner.start_file(name, zip::write::SimpleFileOptions::default().compression_method(packed))
}

/// `write_all` of the writer, for an entry that has no bytes yet. Claimed:
/// it succeeds exactly where `takes` says, and where it does, the bytes are
/// those of the entry started last.
#[verifier::external_body]
pub(crate) fn writer_write_all(w: &mut ArchiveWriter, data: &[u8]) -> (r: Result<(), std::io::Error>)
    requires
        writer_sound(*old(w)),
        writer_entries(*old(w)).len() > 0 ==> writer_entries(*old(w)).last().2.len() == 0,
    ensures
        r is Ok <==> takes(writer_entries(*old(w)), data@),
        r is Ok ==> writer_sound(*final(w)) && writer_entries(*final(w)) == appended(
            writer_entries(*old(w)),
            data@,
        ),
{
    std::io::Write::write_all(&mut w.inner, data)
}

/// `ZipWriter::finish`, then the buffer. Claimed: it succeeds exactly where
/// `closes` says, and where it does, the bytes that come back are a
/// container that holds the entries written, in the order in which they
/// were written, each with its method, and each can be unpacked again.
#[verifier::external_body]
pub(crate) fn writer_finish(w: ArchiveWriter) -> (r: Result<Vec<u8>, zip::result::ZipError>)
    requires
        writer_sound(w),
    ensures
        match r {
            Ok(bytes) => closes(writer_entries(w)) && container_entries(bytes@) == Some(
                unpacked(writer_entries(w)),
            ),
            Err(_) => !closes(writer_entries(w)),
        },
{
    w.inner.finish().map(|cursor| cursor.into_inner())
}

/// `String::from_utf8` of the standard library: the text that the bytes
/// encode, an error exactly where they are not UTF-8.
#[verifier::external_body]
pub(crate) fn string_from_utf8(bytes: Vec<u8>) -> (r: Result<String, std::string::FromUtf8Error>)
    ensures
        match r {
            Ok(s) => valid_utf8(bytes@) && s@ == decode_utf8(bytes@),
            Err(_) => !valid_utf8(bytes@),
        },
{
    String::from_utf8(bytes)
}

} // verus!
