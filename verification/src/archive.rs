//! Reading parts of an OOXML package (a ZIP archive) held in memory, with the zip crate.

use vstd::prelude::*;

use std::io::Cursor;
use std::io::Read;
use zip::ZipArchive;

verus! {

#[verifier::external_type_specification]
#[verifier::external_body]
#[verifier::reject_recursive_types(R)]
pub struct ExZipArchive<R>(ZipArchive<R>);

#[verifier::external_type_specification]
#[verifier::external_body]
#[verifier::reject_recursive_types(T)]
pub struct ExCursor<T>(Cursor<T>);

/// Whether `ZipArchive::new` accepts these bytes as a ZIP archive.
pub uninterp spec fn zip_opens(data: Seq<u8>) -> bool;

/// The entry `name` of the archive `data`, read to the end with `Read::read_to_end`, if
/// `ZipArchive::by_name` finds it and reading succeeds.
pub uninterp spec fn zip_entry_bytes(data: Seq<u8>, name: Seq<char>) -> Option<Seq<u8>>;

/// The entry `name` of the archive `data`, read with `Read::read_to_string`, if
/// `ZipArchive::by_name` finds it and it reads as UTF-8 text.
pub uninterp spec fn zip_entry_text(data: Seq<u8>, name: Seq<char>) -> Option<Seq<char>>;

/// How many entries `ZipArchive::len` counts in the archive `data`.
pub uninterp spec fn zip_len(data: Seq<u8>) -> nat;

/// Entry `index` of the archive `data`: its name from `ZipArchive::by_index` and `name`, and
/// its bytes read to the end with `Read::read_to_end`, if both steps succeed.
pub uninterp spec fn zip_entry_at(data: Seq<u8>, index: nat) -> Option<(Seq<char>, Seq<u8>)>;

/// An opened archive, together with the bytes it was opened from.
pub struct OfficeArchive<'a> {
    inner: ZipArchive<Cursor<&'a [u8]>>,
    data: Ghost<Seq<u8>>,
}

impl<'a> View for OfficeArchive<'a> {
    type V = Seq<u8>;

    closed spec fn view(&self) -> Seq<u8> {
        self.data@
    }
}

/// Opens `data` as a ZIP archive with `ZipArchive::new` over a `Cursor`.
#[verifier::external_body]
pub(crate) fn open_archive<'a>(data: &'a [u8]) -> (archive: Option<OfficeArchive<'a>>)
    ensures
        archive is Some == zip_opens(data@),
        archive matches Some(a) ==> a@ == data@,
{
    match ZipArchive::new(Cursor::new(data)) {
        Ok(inner) => Some(OfficeArchive { inner, data: Ghost(data@) }),
        Err(_) => None,
    }
}

/// The bytes of entry `name`: `ZipArchive::by_name`, then `read_to_end`.
#[verifier::external_body]
pub(crate) fn archive_entry_bytes(archive: &mut OfficeArchive, name: &str) -> (bytes: Option<Vec<u8>>)
    ensures
        final(archive)@ == old(archive)@,
        match bytes {
            Some(b) => zip_entry_bytes(old(archive)@, name@) == Some(b@),
            None => zip_entry_bytes(old(archive)@, name@) is None,
        },
{
    let mut file = archive.inner.by_name(name).ok()?;
    let mut content = Vec::new();
    file.read_to_end(&mut content).ok()?;
    Some(content)
}

/// The text of entry `name`: `ZipArchive::by_name`, then `read_to_string`.
#[verifier::external_body]
pub(crate) fn archive_entry_text(archive: &mut OfficeArchive, name: &str) -> (text: Option<String>)
    ensures
        final(archive)@ == old(archive)@,
        match text {
            Some(t) => zip_entry_text(old(archive)@, name@) == Some(t@),
            None => zip_entry_text(old(archive)@, name@) is None,
        },
{
    let mut file = archive.inner.by_name(name).ok()?;
    let mut content = String::new();
    file.read_to_string(&mut content).ok()?;
    Some(content)
}

/// The number of entries: `ZipArchive::len`.
#[verifier::external_body]
pub(crate) fn archive_len(archive: &OfficeArchive) -> (n: usize)
    ensures
        n == zip_len(archive@),
{
    archive.inner.len()
}

/// Entry `index`, name and bytes: `ZipArchive::by_index`, `name`, then `read_to_end`.
#[verifier::external_body]
pub(crate) fn archive_entry_at(archive: &mut OfficeArchive, index: usize) -> (entry: Option<(String, Vec<u8>)>)
    ensures
        final(archive)@ == old(archive)@,
        match entry {
            Some((n, b)) => zip_entry_at(old(archive)@, index as nat) == Some((n@, b@)),
            None => zip_entry_at(old(archive)@, index as nat) is None,
        },
{
    let mut file = archive.inner.by_index(index).ok()?;
    let name = file.name().to_string();
    let mut content = Vec::new();
    file.read_to_end(&mut content).ok()?;
    Some((name, content))
}

} // verus!
