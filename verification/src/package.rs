//! Writing small OOXML packages (ZIP archives) in memory with the zip crate, and the
//! presentations and word-processing documents that carry one obfuscated embedded font.

use vstd::prelude::*;

use std::io::{Cursor, Write};
use zip::write::SimpleFileOptions;
use zip::ZipWriter;

use crate::archive::{zip_entry_at, zip_entry_bytes, zip_len, zip_opens};
use crate::font_data::{deobfuscate_font_data, law_deobfuscate_involution, spec_deobfuscate};
use crate::guid::{lemma_guid_key_len, parse_guid_to_bytes, spec_parse_guid};
use crate::text::slice_to_vec_range;

verus! {

/// A `ZipWriter` over an in-memory `Cursor<Vec<u8>>`, held in a struct of its own: `ZipWriter`'s
/// parameter is bounded by `Write + Seek`, which a type declaration cannot carry.
#[verifier::external_body]
pub struct PackageWriter {
    inner: ZipWriter<Cursor<Vec<u8>>>,
}

/// What the writer holds while every call on it has succeeded: each file started so far, in
/// order, with the non-empty chunks written to it, in order. `None` once a call has failed.
pub uninterp spec fn zip_writer_files(writer: PackageWriter) -> Option<Seq<(Seq<char>, Seq<Seq<u8>>)>>;

/// The bytes that `ZipWriter::finish` leaves in the `Cursor<Vec<u8>>` of a writer that holds
/// `files`.
pub uninterp spec fn zip_written(files: Seq<(Seq<char>, Seq<Seq<u8>>)>) -> Seq<u8>;

/// The number of bytes of `chunks`, together.
pub open spec fn total_len(chunks: Seq<Seq<u8>>) -> nat
    decreases chunks.len(),
{
    if chunks.len() == 0 {
        0
    } else {
        total_len(chunks.drop_last()) + chunks.last().len()
    }
}

/// The largest part, in bytes, that the writer is owed to take: 0xF000_0000 (3.75 GiB).
/// Without the large-file option, `ZipWriter` refuses a part whose plain data passes
/// `u32::MAX` bytes, or whose deflated data does. Deflate writes a block that would grow as a
/// stored block, with at most 5 bytes of header, so the deflated part stays a small fraction
/// above the plain one, far inside the 256 MiB left below `u32::MAX`.
pub open spec fn part_limit() -> nat {
    0xF000_0000
}

/// Whether one of `files` is named `name`.
pub open spec fn has_name(files: Seq<(Seq<char>, Seq<Seq<u8>>)>, name: Seq<char>) -> bool {
    exists|i: int| 0 <= i < files.len() && #[trigger] files[i].0 == name
}

/// Whether the archive `data` reads back as `files`: it opens, it has one entry per file, in
/// order, and each entry, found by index or by name, holds that file's name and the bytes of its
/// chunks, together.
pub open spec fn package_reads_back(data: Seq<u8>, files: Seq<(Seq<char>, Seq<Seq<u8>>)>) -> bool {
    &&& zip_opens(data)
    &&& zip_len(data) == files.len()
    &&& forall|i: int|
        0 <= i < files.len() ==> #[trigger] zip_entry_at(data, i as nat) == Some((files[i].0, files[i].1.flatten()))
    &&& forall|i: int|
        0 <= i < files.len() ==> #[trigger] zip_entry_bytes(data, files[i].0) == Some(files[i].1.flatten())
}

/// Whether the file started last, if any, is within the part limit.
pub open spec fn last_fits(files: Seq<(Seq<char>, Seq<Seq<u8>>)>) -> bool {
    files.len() == 0 || total_len(files.last().1) <= part_limit()
}

/// Whether no two of `files` share a name.
pub open spec fn names_distinct(files: Seq<(Seq<char>, Seq<Seq<u8>>)>) -> bool {
    forall|i: int, j: int| 0 <= i < j < files.len() ==> #[trigger] files[i].0 != #[trigger] files[j].0
}

/// Whether every one of `files` is within the part limit.
pub open spec fn parts_fit(files: Seq<(Seq<char>, Seq<Seq<u8>>)>) -> bool {
    forall|i: int| 0 <= i < files.len() ==> total_len(#[trigger] files[i].1) <= part_limit()
}

/// An empty in-memory archive: `ZipWriter::new` over `Cursor::new(Vec::new())`.
#[verifier::external_body]
pub(crate) fn zip_writer_new() -> (writer: PackageWriter)
    ensures
        zip_writer_files(writer) == Some(Seq::<(Seq<char>, Seq<Seq<u8>>)>::empty()),
{
    PackageWriter { inner: ZipWriter::new(Cursor::new(Vec::new())) }
}

/// `ZipWriter::start_file` with `SimpleFileOptions::default()`. On success the writer holds one
/// more file, named `name` and still empty. It fails on a name the writer already holds, and
/// when finishing the previous file finds it over the size limit; neither can happen for a new
/// name after a previous file within `part_limit()`, and writing to a `Vec` never fails. A name
/// over 65535 bytes of UTF-8 makes it panic.
#[verifier::external_body]
fn zip_start_file(writer: &mut PackageWriter, name: &str) -> (ok: bool)
    requires
        crate::xml::utf8_len(name@) <= 0xFFFF,
    ensures
        match zip_writer_files(*old(writer)) {
            None => zip_writer_files(*final(writer)) is None,
            Some(files) => {
                &&& ok ==> zip_writer_files(*final(writer)) == Some(files.push((name@, Seq::<Seq<u8>>::empty())))
                &&& ok ==> !has_name(files, name@)
                &&& !ok ==> zip_writer_files(*final(writer)) is None
                &&& !has_name(files, name@) && last_fits(files) ==> ok
            },
        },
{
    writer.inner.start_file(name, SimpleFileOptions::default()).is_ok()
}

/// `Write::write_all` on the writer. On success a non-empty `bytes` is one more chunk of the
/// file started last, and an empty one changes nothing. It fails when no file has been started
/// (for non-empty `bytes`) or the file passes 4 GiB; a started file that stays within
/// `part_limit()` takes the bytes.
#[verifier::external_body]
fn zip_write_all(writer: &mut PackageWriter, bytes: &[u8]) -> (ok: bool)
    ensures
        match zip_writer_files(*old(writer)) {
            None => zip_writer_files(*final(writer)) is None,
            Some(files) => {
                &&& ok && bytes@.len() == 0 ==> zip_writer_files(*final(writer)) == Some(files)
                &&& ok && bytes@.len() > 0 ==> {
                    &&& files.len() > 0
                    &&& zip_writer_files(*final(writer)) == Some(
                        files.update(files.len() - 1, (files.last().0, files.last().1.push(bytes@))),
                    )
                }
                &&& !ok ==> zip_writer_files(*final(writer)) is None
                &&& files.len() > 0 && total_len(files.last().1) + bytes@.len() <= part_limit() ==> ok
            },
        },
{
    writer.inner.write_all(bytes).is_ok()
}

/// `ZipWriter::finish`, then `Cursor::into_inner`: the archive's bytes. Finishing fails only
/// when the last file is over the size limit.
///
/// The writer is built without the zip crate's `time` feature, so every entry carries the fixed
/// default timestamp and the bytes depend on the files and chunks alone.
///
/// The archive reads back with `ZipArchive` as written: `ZipWriter` keeps its files in order,
/// never holds two of one name (`start_file` refuses a name it holds), stores each name's UTF-8
/// bytes (flagged as UTF-8 unless ASCII, which the reader decodes as written), and `finish`
/// writes the central directory that `ZipArchive::new` reads, with a zip64 record where offsets
/// pass 4 GiB.
#[verifier::external_body]
pub(crate) fn zip_finish(writer: PackageWriter) -> (bytes: Option<Vec<u8>>)
    ensures
        zip_writer_files(writer) matches Some(files) ==> {
            &&& bytes matches Some(b) ==> b@ == zip_written(files)
            &&& bytes matches Some(b) ==> package_reads_back(b@, files)
            &&& last_fits(files) ==> bytes is Some
        },
{
    match writer.inner.finish() {
        Ok(cursor) => Some(cursor.into_inner()),
        Err(_) => None,
    }
}

pub(crate) proof fn lemma_total_len_chunks(bytes: Seq<u8>)
    ensures
        total_len(chunks(bytes)) == bytes.len(),
{
    assert(total_len(Seq::<Seq<u8>>::empty()) == 0);
    if bytes.len() > 0 {
        assert(chunks(bytes).drop_last() =~= Seq::<Seq<u8>>::empty());
        assert(chunks(bytes).last() == bytes);
    }
}

/// The next file of a package that fits: a new name, after a file within the limit, with data
/// within the limit.
pub(crate) proof fn lemma_next_file_fits(files: Seq<(Seq<char>, Seq<Seq<u8>>)>, k: int)
    requires
        names_distinct(files),
        parts_fit(files),
        0 <= k < files.len(),
    ensures
        !has_name(files.take(k), files[k].0),
        last_fits(files.take(k)),
        total_len(files[k].1) <= part_limit(),
{
    if has_name(files.take(k), files[k].0) {
        let i = choose|i: int| 0 <= i < files.take(k).len() && #[trigger] files.take(k)[i].0 == files[k].0;
        assert(files[i].0 != files[k].0);
    }
    if k > 0 {
        assert(files.take(k).last() == files[k - 1]);
        assert(total_len(files[k - 1].1) <= part_limit());
    }
    assert(total_len(files[k].1) <= part_limit());
}

/// The first `k` files of a package that fits fit as well.
pub(crate) proof fn lemma_prefix_fits(files: Seq<(Seq<char>, Seq<Seq<u8>>)>, k: int)
    requires
        names_distinct(files),
        parts_fit(files),
        0 <= k <= files.len(),
    ensures
        names_distinct(files.take(k)),
        parts_fit(files.take(k)),
{
    assert forall|i: int, j: int| 0 <= i < j < files.take(k).len() implies #[trigger] files.take(k)[i].0
        != #[trigger] files.take(k)[j].0 by {
        assert(files.take(k)[i] == files[i] && files.take(k)[j] == files[j]);
    }
    assert forall|i: int| 0 <= i < files.take(k).len() implies total_len(#[trigger] files.take(k)[i].1)
        <= part_limit() by {
        assert(files.take(k)[i] == files[i]);
    }
}

/// A file of the archive: started, then `bytes` written to it. A new name after a file within
/// the limit, with `bytes` within the limit, is owed to succeed.
pub(crate) fn add_package_file(writer: &mut PackageWriter, name: &str, bytes: &[u8]) -> (ok: bool)
    requires
        crate::xml::utf8_len(name@) <= 0xFFFF,
    ensures
        match zip_writer_files(*old(writer)) {
            None => zip_writer_files(*final(writer)) is None,
            Some(files) => {
                &&& ok ==> zip_writer_files(*final(writer)) == Some(files.push((name@, chunks(bytes@))))
                &&& !ok ==> zip_writer_files(*final(writer)) is None
                &&& !has_name(files, name@) && last_fits(files) && bytes@.len() <= part_limit() ==> ok
            },
        },
{
    if !zip_start_file(writer, name) {
        return false;
    }
    let ok = zip_write_all(writer, bytes);
    proof {
        if let Some(files) = zip_writer_files(*old(writer)) {
            let started = files.push((name@, Seq::<Seq<u8>>::empty()));
            assert(started.last().1 =~= Seq::<Seq<u8>>::empty());
            assert(total_len(started.last().1) == 0);
            if ok {
                if bytes@.len() > 0 {
                    assert(started.update(started.len() - 1, (name@, seq![bytes@])) =~= files.push(
                        (name@, chunks(bytes@)),
                    ));
                } else {
                    assert(started =~= files.push((name@, chunks(bytes@))));
                }
            }
        }
    }
    ok
}

/// A file of the archive holding the UTF-8 bytes of `text`.
pub(crate) fn add_text_file(writer: &mut PackageWriter, name: &str, text: &str) -> (ok: bool)
    requires
        crate::xml::utf8_len(name@) <= 0xFFFF,
    ensures
        match zip_writer_files(*old(writer)) {
            None => zip_writer_files(*final(writer)) is None,
            Some(files) => {
                &&& ok ==> zip_writer_files(*final(writer)) == Some(files.push(text_file(name@, text@)))
                &&& !ok ==> zip_writer_files(*final(writer)) is None
                &&& !has_name(files, name@) && last_fits(files) && total_len(text_file(name@, text@).1)
                    <= part_limit() ==> ok
            },
        },
{
    proof {
        lemma_total_len_chunks(vstd::utf8::encode_utf8(text@));
    }
    add_package_file(writer, name, text.as_bytes())
}

} // verus!

verus! {

/// The chunks that writing `bytes` at once leaves in a file: none for empty `bytes`.
pub open spec fn chunks(bytes: Seq<u8>) -> Seq<Seq<u8>> {
    if bytes.len() == 0 {
        Seq::empty()
    } else {
        seq![bytes]
    }
}

/// A text file of an archive: its name and the chunks that writing its UTF-8 bytes leaves.
pub open spec fn text_file(name: Seq<char>, text: Seq<char>) -> (Seq<char>, Seq<Seq<u8>>) {
    (name, chunks(vstd::utf8::encode_utf8(text)))
}

/// `ttf` as it is stored in a package: its first 32 bytes XORed with the key of `guid`.
pub open spec fn obfuscated_font(ttf: Seq<u8>, guid: Seq<char>) -> Seq<u8> {
    spec_deobfuscate(ttf, spec_parse_guid(guid).unwrap())
}

/// The presentation part up to the typeface.
pub const PPTX_PRESENTATION_HEAD: &'static str = "<?xml version=\"1.0\" encoding=\"UTF-8\"?>\n<p:presentation xmlns:p=\"http://schemas.openxmlformats.org/presentationml/2006/main\"\n                xmlns:r=\"http://schemas.openxmlformats.org/officeDocument/2006/relationships\">\n  <p:embeddedFontLst>\n    <p:embeddedFont>\n      <p:font typeface=\"";

/// The presentation part after the typeface.
pub const PPTX_PRESENTATION_TAIL: &'static str = "\"/>\n      <p:regular r:id=\"rId5\"/>\n    </p:embeddedFont>\n  </p:embeddedFontLst>\n</p:presentation>";

/// The presentation's relationships up to the font's GUID.
pub const PPTX_RELS_HEAD: &'static str = "<?xml version=\"1.0\" encoding=\"UTF-8\"?>\n<Relationships xmlns=\"http://schemas.openxmlformats.org/package/2006/relationships\">\n  <Relationship Id=\"rId5\" Type=\"http://schemas.openxmlformats.org/officeDocument/2006/relationships/font\" Target=\"fonts/";

/// The presentation's relationships after the font's GUID.
pub const PPTX_RELS_TAIL: &'static str = ".fntdata\"/>\n</Relationships>";

/// `presentation.xml` declaring one embedded font, `typeface`, with a regular variant `rId5`.
pub open spec fn pptx_presentation_xml(typeface: Seq<char>) -> Seq<char> {
    PPTX_PRESENTATION_HEAD@ + typeface + PPTX_PRESENTATION_TAIL@
}

/// `presentation.xml.rels` pointing `rId5` at `fonts/{guid}.fntdata`.
pub open spec fn pptx_font_rels_xml(guid: Seq<char>) -> Seq<char> {
    PPTX_RELS_HEAD@ + guid + PPTX_RELS_TAIL@
}

/// The files of a presentation package carrying `ttf` as typeface `typeface`, obfuscated with
/// the key of `guid`.
pub open spec fn pptx_font_package(ttf: Seq<u8>, guid: Seq<char>, typeface: Seq<char>) -> Seq<
    (Seq<char>, Seq<Seq<u8>>),
> {
    seq![
        text_file("ppt/presentation.xml"@, pptx_presentation_xml(typeface)),
        text_file("ppt/_rels/presentation.xml.rels"@, pptx_font_rels_xml(guid)),
        ("ppt/fonts/"@ + guid + ".fntdata"@, chunks(obfuscated_font(ttf, guid))),
    ]
}

/// Adding the file after the first `k` makes the first `k + 1`.
pub(crate) proof fn lemma_take_push(files: Seq<(Seq<char>, Seq<Seq<u8>>)>, k: int)
    requires
        0 <= k < files.len(),
    ensures
        files.take(k).push(files[k]) == files.take(k + 1),
        files.take(files.len() as int) == files,
{
    assert(files.take(k).push(files[k]) =~= files.take(k + 1));
    assert(files.take(files.len() as int) =~= files);
}

/// A literal name of up to 16383 characters fits a ZIP file name.
pub(crate) proof fn lemma_short_name(name: Seq<char>)
    requires
        name.len() <= 0x3FFF,
    ensures
        crate::xml::utf8_len(name) <= 0xFFFF,
{
    crate::extract::lemma_utf8_len_bounds(name);
}

proof fn lemma_pptx_font_package_names(ttf: Seq<u8>, guid: Seq<char>, typeface: Seq<char>)
    ensures
        names_distinct(pptx_font_package(ttf, guid, typeface)),
        crate::xml::utf8_len("ppt/presentation.xml"@) <= 0xFFFF,
        crate::xml::utf8_len("ppt/_rels/presentation.xml.rels"@) <= 0xFFFF,
{
    reveal_strlit("ppt/presentation.xml");
    reveal_strlit("ppt/_rels/presentation.xml.rels");
    reveal_strlit("ppt/fonts/");
    reveal_strlit(".fntdata");
    let pkg = pptx_font_package(ttf, guid, typeface);
    assert(pkg[0].0[4] == 'p');
    assert(pkg[1].0[4] == '_');
    assert(pkg[2].0[4] == 'f');
    lemma_short_name("ppt/presentation.xml"@);
    lemma_short_name("ppt/_rels/presentation.xml.rels"@);
}

/// A minimal presentation package whose one embedded font, named `typeface`, holds `ttf_data`
/// obfuscated with the key of `guid`. It is owed whenever every part stays within the part
/// limit; `None` only when the zip writer reports an error.
pub fn build_pptx_with_named_embedded_font(ttf_data: &[u8], guid: &str, typeface: &str) -> (zip: Option<Vec<u8>>)
    requires
        spec_parse_guid(guid@) is Some,
        crate::xml::utf8_len("ppt/fonts/"@ + guid@ + ".fntdata"@) <= 0xFFFF,
    ensures
        zip matches Some(z) ==> z@ == zip_written(pptx_font_package(ttf_data@, guid@, typeface@)),
        zip matches Some(z) ==> package_reads_back(z@, pptx_font_package(ttf_data@, guid@, typeface@)),
        parts_fit(pptx_font_package(ttf_data@, guid@, typeface@)) ==> zip is Some,
{
    let ghost pkg = pptx_font_package(ttf_data@, guid@, typeface@);
    proof {
        lemma_pptx_font_package_names(ttf_data@, guid@, typeface@);
        lemma_take_push(pkg, 0);
        lemma_take_push(pkg, 1);
        lemma_take_push(pkg, 2);
        assert(pkg.take(0) =~= Seq::<(Seq<char>, Seq<Seq<u8>>)>::empty());
    }
    let mut writer = zip_writer_new();
    let mut presentation = String::from_str(PPTX_PRESENTATION_HEAD);
    presentation.append(typeface);
    presentation.append(PPTX_PRESENTATION_TAIL);
    if !add_text_file(&mut writer, "ppt/presentation.xml", presentation.as_str()) {
        proof {
            if parts_fit(pkg) {
                lemma_next_file_fits(pkg, 0);
            }
        }
        return None;
    }
    let mut rels = String::from_str(PPTX_RELS_HEAD);
    rels.append(guid);
    rels.append(PPTX_RELS_TAIL);
    if !add_text_file(&mut writer, "ppt/_rels/presentation.xml.rels", rels.as_str()) {
        proof {
            if parts_fit(pkg) {
                lemma_next_file_fits(pkg, 1);
            }
        }
        return None;
    }
    let key = match parse_guid_to_bytes(guid) {
        Some(k) => k,
        None => return None,
    };
    let mut font = slice_to_vec_range(ttf_data, 0, ttf_data.len());
    assert(font@ =~= ttf_data@);
    deobfuscate_font_data(font.as_mut_slice(), &key);
    let mut path = String::from_str("ppt/fonts/");
    path.append(guid);
    path.append(".fntdata");
    if !add_package_file(&mut writer, path.as_str(), font.as_slice()) {
        proof {
            if parts_fit(pkg) {
                lemma_next_file_fits(pkg, 2);
                lemma_total_len_chunks(font@);
            }
        }
        return None;
    }
    proof {
        if parts_fit(pkg) {
            assert(total_len(pkg[2].1) <= part_limit());
        }
    }
    zip_finish(writer)
}

/// A minimal presentation package whose one embedded font, `TestFont`, holds `ttf_data`
/// obfuscated with the key of `guid`. It is owed whenever every part stays within the part
/// limit; `None` only when the zip writer reports an error.
pub fn build_pptx_with_embedded_font(ttf_data: &[u8], guid: &str) -> (zip: Option<Vec<u8>>)
    requires
        spec_parse_guid(guid@) is Some,
        crate::xml::utf8_len("ppt/fonts/"@ + guid@ + ".fntdata"@) <= 0xFFFF,
    ensures
        zip matches Some(z) ==> z@ == zip_written(pptx_font_package(ttf_data@, guid@, "TestFont"@)),
        zip matches Some(z) ==> package_reads_back(z@, pptx_font_package(ttf_data@, guid@, "TestFont"@)),
        parts_fit(pptx_font_package(ttf_data@, guid@, "TestFont"@)) ==> zip is Some,
{
    build_pptx_with_named_embedded_font(ttf_data, guid, "TestFont")
}

/// The font table up to the font's name.
pub const DOCX_FONT_TABLE_HEAD: &'static str = "<?xml version=\"1.0\" encoding=\"UTF-8\"?>\n<w:fonts xmlns:w=\"http://schemas.openxmlformats.org/wordprocessingml/2006/main\"\n         xmlns:r=\"http://schemas.openxmlformats.org/officeDocument/2006/relationships\">\n  <w:font w:name=\"";

/// The font table between the font's name and its key.
pub const DOCX_FONT_TABLE_MIDDLE: &'static str = "\">\n    <w:embedRegular w:fontKey=\"";

/// The font table after the font's key.
pub const DOCX_FONT_TABLE_TAIL: &'static str = "\" r:id=\"rId1\"/>\n  </w:font>\n</w:fonts>";

/// The font table's relationships, pointing `rId1` at `fonts/font1.odttf`.
pub const DOCX_FONT_RELS: &'static str = "<?xml version=\"1.0\" encoding=\"UTF-8\"?>\n<Relationships xmlns=\"http://schemas.openxmlformats.org/package/2006/relationships\">\n  <Relationship Id=\"rId1\" Type=\"http://schemas.openxmlformats.org/officeDocument/2006/relationships/font\" Target=\"fonts/font1.odttf\"/>\n</Relationships>";

/// `word/fontTable.xml` declaring font `name` with a regular variant `rId1` keyed by `guid`.
pub open spec fn docx_font_table_xml(name: Seq<char>, guid: Seq<char>) -> Seq<char> {
    DOCX_FONT_TABLE_HEAD@ + name + DOCX_FONT_TABLE_MIDDLE@ + guid + DOCX_FONT_TABLE_TAIL@
}

/// The files of a word-processing package carrying `ttf` as font `name`, obfuscated with the
/// key of `guid`.
pub open spec fn docx_font_package(ttf: Seq<u8>, guid: Seq<char>, name: Seq<char>) -> Seq<
    (Seq<char>, Seq<Seq<u8>>),
> {
    seq![
        text_file("word/fontTable.xml"@, docx_font_table_xml(name, guid)),
        text_file("word/_rels/fontTable.xml.rels"@, DOCX_FONT_RELS@),
        ("word/fonts/font1.odttf"@, chunks(obfuscated_font(ttf, guid))),
    ]
}

proof fn lemma_docx_font_package_names(ttf: Seq<u8>, guid: Seq<char>, name: Seq<char>)
    ensures
        names_distinct(docx_font_package(ttf, guid, name)),
        crate::xml::utf8_len("word/fontTable.xml"@) <= 0xFFFF,
        crate::xml::utf8_len("word/_rels/fontTable.xml.rels"@) <= 0xFFFF,
        crate::xml::utf8_len("word/fonts/font1.odttf"@) <= 0xFFFF,
{
    reveal_strlit("word/fontTable.xml");
    reveal_strlit("word/_rels/fontTable.xml.rels");
    reveal_strlit("word/fonts/font1.odttf");
    let pkg = docx_font_package(ttf, guid, name);
    assert(pkg[0].0[5] == 'f' && pkg[0].0[9] == 'T');
    assert(pkg[1].0[5] == '_');
    assert(pkg[2].0[5] == 'f' && pkg[2].0[9] == 's');
    lemma_short_name("word/fontTable.xml"@);
    lemma_short_name("word/_rels/fontTable.xml.rels"@);
    lemma_short_name("word/fonts/font1.odttf"@);
}

/// A minimal word-processing package whose one embedded font, named `name`, holds `ttf_data`
/// obfuscated with the key of `guid`. It is owed whenever every part stays within the part
/// limit; `None` only when the zip writer reports an error.
pub fn build_docx_with_named_embedded_font(ttf_data: &[u8], guid: &str, name: &str) -> (zip: Option<Vec<u8>>)
    requires
        spec_parse_guid(guid@) is Some,
    ensures
        zip matches Some(z) ==> z@ == zip_written(docx_font_package(ttf_data@, guid@, name@)),
        zip matches Some(z) ==> package_reads_back(z@, docx_font_package(ttf_data@, guid@, name@)),
        parts_fit(docx_font_package(ttf_data@, guid@, name@)) ==> zip is Some,
{
    let ghost pkg = docx_font_package(ttf_data@, guid@, name@);
    proof {
        lemma_docx_font_package_names(ttf_data@, guid@, name@);
        lemma_take_push(pkg, 0);
        lemma_take_push(pkg, 1);
        lemma_take_push(pkg, 2);
        assert(pkg.take(0) =~= Seq::<(Seq<char>, Seq<Seq<u8>>)>::empty());
    }
    let mut writer = zip_writer_new();
    let mut table = String::from_str(DOCX_FONT_TABLE_HEAD);
    table.append(name);
    table.append(DOCX_FONT_TABLE_MIDDLE);
    table.append(guid);
    table.append(DOCX_FONT_TABLE_TAIL);
    if !add_text_file(&mut writer, "word/fontTable.xml", table.as_str()) {
        proof {
            if parts_fit(pkg) {
                lemma_next_file_fits(pkg, 0);
            }
        }
        return None;
    }
    if !add_text_file(&mut writer, "word/_rels/fontTable.xml.rels", DOCX_FONT_RELS) {
        proof {
            if parts_fit(pkg) {
                lemma_next_file_fits(pkg, 1);
            }
        }
        return None;
    }
    let key = match parse_guid_to_bytes(guid) {
        Some(k) => k,
        None => return None,
    };
    let mut font = slice_to_vec_range(ttf_data, 0, ttf_data.len());
    assert(font@ =~= ttf_data@);
    deobfuscate_font_data(font.as_mut_slice(), &key);
    if !add_package_file(&mut writer, "word/fonts/font1.odttf", font.as_slice()) {
        proof {
            if parts_fit(pkg) {
                lemma_next_file_fits(pkg, 2);
                lemma_total_len_chunks(font@);
            }
        }
        return None;
    }
    proof {
        if parts_fit(pkg) {
            assert(total_len(pkg[2].1) <= part_limit());
        }
    }
    zip_finish(writer)
}

/// A minimal word-processing package whose one embedded font, `TestFont`, holds `ttf_data`
/// obfuscated with the key of `guid`. It is owed whenever every part stays within the part
/// limit; `None` only when the zip writer reports an error.
pub fn build_docx_with_embedded_font(ttf_data: &[u8], guid: &str) -> (zip: Option<Vec<u8>>)
    requires
        spec_parse_guid(guid@) is Some,
    ensures
        zip matches Some(z) ==> z@ == zip_written(docx_font_package(ttf_data@, guid@, "TestFont"@)),
        zip matches Some(z) ==> package_reads_back(z@, docx_font_package(ttf_data@, guid@, "TestFont"@)),
        parts_fit(docx_font_package(ttf_data@, guid@, "TestFont"@)) ==> zip is Some,
{
    build_docx_with_named_embedded_font(ttf_data, guid, "TestFont")
}

} // verus!

verus! {

/// A font packaged by the builders comes back unchanged when its part is deobfuscated with the
/// key of the same GUID, as the extraction does.
pub proof fn law_packaged_font_recovers(ttf: Seq<u8>, guid: Seq<char>)
    requires
        spec_parse_guid(guid) is Some,
    ensures
        spec_deobfuscate(obfuscated_font(ttf, guid), spec_parse_guid(guid).unwrap()) == ttf,
{
    crate::guid::lemma_guid_key_len(guid);
    crate::font_data::law_deobfuscate_involution(ttf, spec_parse_guid(guid).unwrap());
}

} // verus!

verus! {

/// The data that a file of `chunks(bytes)` reads back as is `bytes`.
pub proof fn lemma_chunks_flatten(bytes: Seq<u8>)
    ensures
        chunks(bytes).flatten() == bytes,
{
    if bytes.len() > 0 {
        assert(chunks(bytes) =~= seq![bytes]);
        assert(seq![bytes].flatten() == bytes + Seq::<Seq<u8>>::empty().flatten()) by {
            reveal_with_fuel(Seq::flatten, 2);
        }
        assert(bytes + Seq::<u8>::empty() =~= bytes);
    } else {
        assert(chunks(bytes) =~= Seq::<Seq<u8>>::empty());
        assert(bytes =~= Seq::<u8>::empty());
    }
}

/// A written presentation that reads back holds the embedded font at
/// `ppt/fonts/{guid}.fntdata`, obfuscated with the GUID's key, and de-obfuscating that part with
/// the same key gives back the font that was embedded.
pub proof fn law_pptx_font_reads_back(data: Seq<u8>, ttf: Seq<u8>, guid: Seq<char>, typeface: Seq<char>)
    requires
        spec_parse_guid(guid) is Some,
        package_reads_back(data, pptx_font_package(ttf, guid, typeface)),
    ensures
        zip_entry_bytes(data, "ppt/fonts/"@ + guid + ".fntdata"@) == Some(obfuscated_font(ttf, guid)),
        spec_deobfuscate(obfuscated_font(ttf, guid), spec_parse_guid(guid).unwrap()) == ttf,
{
    let pkg = pptx_font_package(ttf, guid, typeface);
    assert(pkg[2].0 == "ppt/fonts/"@ + guid + ".fntdata"@);
    lemma_chunks_flatten(obfuscated_font(ttf, guid));
    assert(zip_entry_bytes(data, pkg[2].0) == Some(pkg[2].1.flatten()));
    lemma_guid_key_len(guid);
    law_deobfuscate_involution(ttf, spec_parse_guid(guid).unwrap());
}

/// A written word-processing document that reads back holds the embedded font at
/// `word/fonts/font1.odttf`, obfuscated with the GUID's key, and de-obfuscating that part with
/// the same key gives back the font that was embedded.
pub proof fn law_docx_font_reads_back(data: Seq<u8>, ttf: Seq<u8>, guid: Seq<char>, name: Seq<char>)
    requires
        spec_parse_guid(guid) is Some,
        package_reads_back(data, docx_font_package(ttf, guid, name)),
    ensures
        zip_entry_bytes(data, "word/fonts/font1.odttf"@) == Some(obfuscated_font(ttf, guid)),
        spec_deobfuscate(obfuscated_font(ttf, guid), spec_parse_guid(guid).unwrap()) == ttf,
{
    let pkg = docx_font_package(ttf, guid, name);
    lemma_chunks_flatten(obfuscated_font(ttf, guid));
    assert(zip_entry_bytes(data, pkg[2].0) == Some(pkg[2].1.flatten()));
    lemma_guid_key_len(guid);
    law_deobfuscate_involution(ttf, spec_parse_guid(guid).unwrap());
}

} // verus!
