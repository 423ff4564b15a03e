//! Edits of workbook packages: each entry is copied in order, some of them edited on the way.
//! One edit adds a picture to the first worksheet (a drawing anchored over columns C to F and
//! rows 1 to 9, showing a one-pixel PNG); one inserts markup before the end of every
//! worksheet; one replaces the first font of the style sheet.

use vstd::prelude::*;

use crate::archive::{
    archive_entry_at, archive_entry_bytes, archive_len, open_archive, zip_entry_at, zip_entry_bytes, zip_len,
    zip_opens, OfficeArchive,
};
use crate::extract::after_last;
use crate::fixtures::push_unsigned_decimal;
use crate::naming::decimal;
use crate::package::{
    add_package_file, add_text_file, chunks, lemma_next_file_fits, lemma_prefix_fits, lemma_short_name, lemma_take_push,
    lemma_total_len_chunks, names_distinct, package_reads_back, part_limit, parts_fit, text_file, total_len, zip_finish,
    zip_writer_files, zip_writer_new, zip_written, PackageWriter,
};
use crate::text::{
    char_vecs, chars_of, ends_with_text, find_chars, first_occurrence, replace_all, replace_chars, same_text,
    slice_to_vec_range, splice_chars, split_pieces, split_text, starts_with_text, string_from_chars,
    text_from_utf8,
};

verus! {

/// The first worksheet part.
pub const SHEET_PART: &'static str = "xl/worksheets/sheet1.xml";

/// The relationships part of the first worksheet.
pub const SHEET_RELS_PART: &'static str = "xl/worksheets/_rels/sheet1.xml.rels";

/// The content-types part.
pub const CONTENT_TYPES_PART: &'static str = "[Content_Types].xml";

/// What each `</worksheet>` of the first worksheet becomes: a reference to the drawing first.
pub const SHEET_DRAWING_REF: &'static str = "<drawing r:id=\"rIdDrawing1\"/></worksheet>";

/// What each `</Relationships>` of the worksheet's relationships becomes: the drawing's
/// relationship first.
pub const SHEET_RELS_DRAWING: &'static str = "<Relationship Id=\"rIdDrawing1\" Type=\"http://schemas.openxmlformats.org/officeDocument/2006/relationships/drawing\" Target=\"../drawings/drawing1.xml\"/></Relationships>";

/// What each `</Types>` of the content types becomes: PNG and the drawing part first.
pub const CONTENT_TYPES_DRAWING: &'static str = "<Default Extension=\"png\" ContentType=\"image/png\"/><Override PartName=\"/xl/drawings/drawing1.xml\" ContentType=\"application/vnd.openxmlformats-officedocument.drawing+xml\"/></Types>";

/// The worksheet's relationships when the workbook has none: only the drawing.
pub const SHEET_RELS: &'static str = "<?xml version=\"1.0\" encoding=\"UTF-8\" standalone=\"yes\"?>\n<Relationships xmlns=\"http://schemas.openxmlformats.org/package/2006/relationships\"><Relationship Id=\"rIdDrawing1\" Type=\"http://schemas.openxmlformats.org/officeDocument/2006/relationships/drawing\" Target=\"../drawings/drawing1.xml\"/></Relationships>";

/// The drawing: one picture, `rId1`, anchored from C1 to F9.
pub const DRAWING_XML: &'static str = "<?xml version=\"1.0\" encoding=\"UTF-8\" standalone=\"yes\"?>\n<xdr:wsDr xmlns:xdr=\"http://schemas.openxmlformats.org/drawingml/2006/spreadsheetDrawing\" xmlns:a=\"http://schemas.openxmlformats.org/drawingml/2006/main\" xmlns:r=\"http://schemas.openxmlformats.org/officeDocument/2006/relationships\"><xdr:twoCellAnchor><xdr:from><xdr:col>2</xdr:col><xdr:colOff>0</xdr:colOff><xdr:row>0</xdr:row><xdr:rowOff>0</xdr:rowOff></xdr:from><xdr:to><xdr:col>5</xdr:col><xdr:colOff>0</xdr:colOff><xdr:row>8</xdr:row><xdr:rowOff>0</xdr:rowOff></xdr:to><xdr:pic><xdr:nvPicPr><xdr:cNvPr id=\"2\" name=\"Picture 1\"/><xdr:cNvPicPr/></xdr:nvPicPr><xdr:blipFill><a:blip r:embed=\"rId1\"/><a:stretch><a:fillRect/></a:stretch></xdr:blipFill><xdr:spPr><a:xfrm><a:off x=\"0\" y=\"0\"/><a:ext cx=\"0\" cy=\"0\"/></a:xfrm><a:prstGeom prst=\"rect\"><a:avLst/></a:prstGeom></xdr:spPr></xdr:pic><xdr:clientData/></xdr:twoCellAnchor></xdr:wsDr>";

/// The drawing's relationships: `rId1` is `../media/image1.png`.
pub const DRAWING_RELS: &'static str = "<?xml version=\"1.0\" encoding=\"UTF-8\" standalone=\"yes\"?>\n<Relationships xmlns=\"http://schemas.openxmlformats.org/package/2006/relationships\"><Relationship Id=\"rId1\" Type=\"http://schemas.openxmlformats.org/officeDocument/2006/relationships/image\" Target=\"../media/image1.png\"/></Relationships>";

/// The picture: a 1x1 RGBA PNG.
pub open spec fn one_pixel_png() -> Seq<u8> {
    seq![
        0x89, 0x50, 0x4E, 0x47, 0x0D, 0x0A, 0x1A, 0x0A, 0x00, 0x00, 0x00, 0x0D, 0x49, 0x48, 0x44,
        0x52, 0x00, 0x00, 0x00, 0x01, 0x00, 0x00, 0x00, 0x01, 0x08, 0x06, 0x00, 0x00, 0x00, 0x1F,
        0x15, 0xC4, 0x89, 0x00, 0x00, 0x00, 0x0D, 0x49, 0x44, 0x41, 0x54, 0x78, 0x9C, 0x62, 0x00,
        0x01, 0x00, 0x00, 0x05, 0x00, 0x01, 0x0D, 0x0A, 0x2D, 0xB4, 0x00, 0x00, 0x00, 0x00, 0x49,
        0x45, 0x4E, 0x44, 0xAE, 0x42, 0x60, 0x82,
    ]
}

/// An edit applied to the entries of a workbook.
pub enum WorkbookEdit<'a> {
    /// The picture: the first worksheet, its relationships and the content types refer to the
    /// drawing.
    Picture,
    /// Markup inserted before every `</worksheet>` of every worksheet.
    Insert(&'a str),
    /// The first `<font>` of `xl/styles.xml` replaced by one of this family and size.
    Restyle(&'a str, &'a str),
    /// Every entry copied as it is.
    Unchanged,
}

/// What an edit does, over plain values.
pub enum EditModel {
    Picture,
    Insert(Seq<char>),
    Restyle(Seq<char>, Seq<char>),
    Unchanged,
}

impl<'a> View for WorkbookEdit<'a> {
    type V = EditModel;

    open spec fn view(&self) -> EditModel {
        match self {
            WorkbookEdit::Picture => EditModel::Picture,
            WorkbookEdit::Insert(s) => EditModel::Insert(s@),
            WorkbookEdit::Restyle(f, z) => EditModel::Restyle(f@, z@),
            WorkbookEdit::Unchanged => EditModel::Unchanged,
        }
    }
}

/// For the picture, the replacement that a part gets, by name: what to replace, and with what.
pub open spec fn picture_edit(name: Seq<char>) -> Option<(Seq<char>, Seq<char>)> {
    if name == SHEET_PART@ {
        Some(("</worksheet>"@, SHEET_DRAWING_REF@))
    } else if name == SHEET_RELS_PART@ {
        Some(("</Relationships>"@, SHEET_RELS_DRAWING@))
    } else if name == CONTENT_TYPES_PART@ {
        Some(("</Types>"@, CONTENT_TYPES_DRAWING@))
    } else {
        None
    }
}

/// Whether a part is a worksheet: under `xl/worksheets/` and ending in `.xml`.
pub open spec fn is_worksheet_part(name: Seq<char>) -> bool {
    "xl/worksheets/"@.is_prefix_of(name) && ".xml"@.is_suffix_of(name)
}

/// A font element of this family and size.
pub open spec fn font_element(family: Seq<char>, size: Seq<char>) -> Seq<char> {
    "<font><sz val=\""@ + size + "\"/><name val=\""@ + family + "\"/></font>"@
}

/// The style sheet `xml` with its first `<font>` .. `</font>` element replaced by `font`;
/// `None` when it has no such element.
pub open spec fn restyled(xml: Seq<char>, font: Seq<char>) -> Option<Seq<char>> {
    match first_occurrence(xml, "<font>"@) {
        None => None,
        Some(start) => match first_occurrence(xml.skip(start), "</font>"@) {
            None => None,
            Some(offset) => Some(xml.take(start) + font + xml.skip(start + offset + "</font>"@.len())),
        },
    }
}

/// The UTF-8 text of a part, changed by `change`; `None` when the part is not UTF-8 or the
/// change does not apply.
pub open spec fn edit_text(bytes: Seq<u8>, change: spec_fn(Seq<char>) -> Option<Seq<char>>) -> Option<Seq<u8>> {
    if vstd::utf8::valid_utf8(bytes) {
        match change(vstd::utf8::decode_utf8(bytes)) {
            Some(t) => Some(vstd::utf8::encode_utf8(t)),
            None => None,
        }
    } else {
        None
    }
}

/// A part after the edit; `None` when a part to edit cannot be edited.
pub open spec fn edited_part(edit: EditModel, name: Seq<char>, bytes: Seq<u8>) -> Option<Seq<u8>> {
    match edit {
        EditModel::Picture => match picture_edit(name) {
            None => Some(bytes),
            Some((from, to)) => edit_text(bytes, |t: Seq<char>| Some(replace_all(t, from, to))),
        },
        EditModel::Insert(insertion) => if is_worksheet_part(name) {
            edit_text(bytes, |t: Seq<char>| Some(replace_all(t, "</worksheet>"@, insertion + "</worksheet>"@)))
        } else {
            Some(bytes)
        },
        EditModel::Restyle(family, size) => if name == "xl/styles.xml"@ {
            edit_text(bytes, |t: Seq<char>| restyled(t, font_element(family, size)))
        } else {
            Some(bytes)
        },
        EditModel::Unchanged => Some(bytes),
    }
}

/// The first `k` entries of the archive `data`, each after the edit; `None` when one cannot be
/// read or edited, or its name is over 65535 bytes of UTF-8 (more than a ZIP entry may carry).
pub open spec fn edited_entries(data: Seq<u8>, k: nat, edit: EditModel) -> Option<Seq<(Seq<char>, Seq<Seq<u8>>)>>
    decreases k,
{
    if k == 0 {
        Some(Seq::empty())
    } else {
        match (edited_entries(data, (k - 1) as nat, edit), zip_entry_at(data, (k - 1) as nat)) {
            (Some(files), Some((name, bytes))) => if crate::xml::utf8_len(name) > 0xFFFF {
                None
            } else {
                match edited_part(edit, name, bytes) {
                    Some(b) => Some(files.push((name, chunks(b)))),
                    None => None,
                }
            },
            _ => None,
        }
    }
}

/// All entries of the archive `data`, each after the edit.
pub open spec fn edited_package(data: Seq<u8>, edit: EditModel) -> Option<Seq<(Seq<char>, Seq<Seq<u8>>)>> {
    if zip_opens(data) {
        edited_entries(data, zip_len(data), edit)
    } else {
        None
    }
}

/// Whether one of the first `k` entries of `data` is named `name`.
pub open spec fn lists_entry(data: Seq<u8>, k: nat, name: Seq<char>) -> bool
    decreases k,
{
    k > 0 && (lists_entry(data, (k - 1) as nat, name) || (zip_entry_at(data, (k - 1) as nat) matches Some(
        (n, b),
    ) && n == name))
}

/// The files of the workbook `data` with the picture added: every entry, edited, in order; the
/// worksheet's relationships if it had none; then the drawing, its relationships and the
/// image.
pub open spec fn spliced_package(data: Seq<u8>) -> Option<Seq<(Seq<char>, Seq<Seq<u8>>)>> {
    match edited_package(data, EditModel::Picture) {
        None => None,
        Some(files) => {
            let with_rels = if lists_entry(data, zip_len(data), SHEET_RELS_PART@) {
                files
            } else {
                files.push(text_file(SHEET_RELS_PART@, SHEET_RELS@))
            };
            Some(
                with_rels + seq![
                    text_file("xl/drawings/drawing1.xml"@, DRAWING_XML@),
                    text_file("xl/drawings/_rels/drawing1.xml.rels"@, DRAWING_RELS@),
                    ("xl/media/image1.png"@, chunks(one_pixel_png())),
                ],
            )
        },
    }
}

proof fn lemma_edited_entries_stay_none(data: Seq<u8>, k: nat, m: nat, edit: EditModel)
    requires
        k <= m,
        edited_entries(data, k, edit) is None,
    ensures
        edited_entries(data, m, edit) is None,
    decreases m - k,
{
    if k < m {
        lemma_edited_entries_stay_none(data, k, (m - 1) as nat, edit);
    }
}

/// The first `k` edited entries are the first `k` of the first `m`.
proof fn lemma_edited_entries_prefix(data: Seq<u8>, k: nat, m: nat, edit: EditModel)
    requires
        k <= m,
        edited_entries(data, m, edit) is Some,
    ensures
        edited_entries(data, m, edit).unwrap().len() == m,
        edited_entries(data, k, edit) == Some(edited_entries(data, m, edit).unwrap().take(k as int)),
    decreases m,
{
    let all = edited_entries(data, m, edit).unwrap();
    if m == 0 {
        assert(all.take(0) =~= all);
    } else {
        let m1 = (m - 1) as nat;
        assert(edited_entries(data, m1, edit) is Some);
        let before = edited_entries(data, m1, edit).unwrap();
        if k == m {
            lemma_edited_entries_prefix(data, m1, m1, edit);
            assert(all.take(k as int) =~= all);
        } else {
            lemma_edited_entries_prefix(data, k, m1, edit);
            assert(before.take(k as int) =~= all.take(k as int));
        }
        lemma_edited_entries_prefix(data, m1, m1, edit);
    }
}

} // verus!

verus! {

/// The UTF-8 bytes of `text`, as a fresh vector.
fn utf8_bytes(text: &String) -> (bytes: Vec<u8>)
    ensures
        bytes@ == vstd::utf8::encode_utf8(text@),
{
    let b = text.as_str().as_bytes();
    slice_to_vec_range(b, 0, b.len())
}

/// `text` with every `from` replaced by `to`.
fn replace_text(text: &String, from: &str, to: &str) -> (out: String)
    requires
        from@.len() > 0,
    ensures
        out@ == replace_all(text@, from@, to@),
{
    let chars = chars_of(text.as_str());
    let from_chars = chars_of(from);
    let to_chars = chars_of(to);
    let replaced = replace_chars(chars.as_slice(), from_chars.as_slice(), to_chars.as_slice());
    string_from_chars(replaced.as_slice())
}

/// The style sheet `text` with its first font element replaced by `font`.
fn restyle_text(text: &String, font: &str) -> (out: Option<String>)
    ensures
        match out {
            Some(o) => restyled(text@, font@) == Some(o@),
            None => restyled(text@, font@) is None,
        },
{
    let chars = chars_of(text.as_str());
    let open = chars_of("<font>");
    let close = chars_of("</font>");
    let start = match find_chars(chars.as_slice(), open.as_slice()) {
        Some(i) => i,
        None => return None,
    };
    let tail = slice_to_vec_range(chars.as_slice(), start, chars.len());
    assert(tail@ =~= text@.skip(start as int));
    let offset = match find_chars(tail.as_slice(), close.as_slice()) {
        Some(i) => i,
        None => return None,
    };
    let font_chars = chars_of(font);
    let end: usize = start + offset + close.len();
    let out = splice_chars(chars.as_slice(), start, end, font_chars.as_slice());
    Some(string_from_chars(out.as_slice()))
}

/// A part after the edit.
fn edit_part(edit: &WorkbookEdit, name: &str, bytes: Vec<u8>) -> (part: Option<Vec<u8>>)
    ensures
        match part {
            Some(p) => edited_part(edit@, name@, bytes@) == Some(p@),
            None => edited_part(edit@, name@, bytes@) is None,
        },
{
    proof {
        reveal_strlit("</worksheet>");
        reveal_strlit("</Relationships>");
        reveal_strlit("</Types>");
    }
    match edit {
        WorkbookEdit::Picture => {
            let replacement: Option<(&str, &str)> = if same_text(name, SHEET_PART) {
                Some(("</worksheet>", SHEET_DRAWING_REF))
            } else if same_text(name, SHEET_RELS_PART) {
                Some(("</Relationships>", SHEET_RELS_DRAWING))
            } else if same_text(name, CONTENT_TYPES_PART) {
                Some(("</Types>", CONTENT_TYPES_DRAWING))
            } else {
                None
            };
            match replacement {
                None => Some(bytes),
                Some((from, to)) => {
                    let ghost original = bytes@;
                    let text = match text_from_utf8(bytes) {
                        Some(t) => t,
                        None => return None,
                    };
                    let edited = replace_text(&text, from, to);
                    let out = utf8_bytes(&edited);
                    assert(edited_part(edit@, name@, original) == Some(out@));
                    Some(out)
                },
            }
        },
        WorkbookEdit::Insert(insertion) => {
            if starts_with_text(name, "xl/worksheets/") && ends_with_text(name, ".xml") {
                let ghost original = bytes@;
                let text = match text_from_utf8(bytes) {
                    Some(t) => t,
                    None => return None,
                };
                let mut to = String::from_str(insertion);
                to.append("</worksheet>");
                let edited = replace_text(&text, "</worksheet>", to.as_str());
                let out = utf8_bytes(&edited);
                assert(edited_part(edit@, name@, original) == Some(out@));
                Some(out)
            } else {
                Some(bytes)
            }
        },
        WorkbookEdit::Restyle(family, size) => {
            if same_text(name, "xl/styles.xml") {
                let ghost original = bytes@;
                let text = match text_from_utf8(bytes) {
                    Some(t) => t,
                    None => return None,
                };
                let mut font = String::from_str("<font><sz val=\"");
                font.append(size);
                font.append("\"/><name val=\"");
                font.append(family);
                font.append("\"/></font>");
                assert(font@ =~= font_element(family@, size@));
                let edited = match restyle_text(&text, font.as_str()) {
                    Some(e) => e,
                    None => return None,
                };
                let out = utf8_bytes(&edited);
                assert(edited_part(edit@, name@, original) == Some(out@));
                Some(out)
            } else {
                Some(bytes)
            }
        },
        WorkbookEdit::Unchanged => Some(bytes),
    }
}

/// Copies every entry of `archive`, edited, into `writer`, which starts empty; also tells
/// whether the worksheet's relationships were among them. It is owed to succeed when the
/// edited entries exist, have distinct names and each stays within the part limit.
fn copy_edited_entries(archive: &mut OfficeArchive, writer: &mut PackageWriter, edit: &WorkbookEdit) -> (result: (
    bool,
    bool,
))
    requires
        zip_opens(old(archive)@),
        zip_writer_files(*old(writer)) == Some(Seq::<(Seq<char>, Seq<Seq<u8>>)>::empty()),
    ensures
        final(archive)@ == old(archive)@,
        result.0 ==> edited_entries(old(archive)@, zip_len(old(archive)@), edit@) == zip_writer_files(
            *final(writer),
        ),
        result.0 ==> edited_entries(old(archive)@, zip_len(old(archive)@), edit@) is Some,
        result.0 ==> result.1 == lists_entry(old(archive)@, zip_len(old(archive)@), SHEET_RELS_PART@),
        edited_entries(old(archive)@, zip_len(old(archive)@), edit@) is None ==> !result.0,
        edited_entries(old(archive)@, zip_len(old(archive)@), edit@) matches Some(files) && names_distinct(
            files,
        ) && parts_fit(files) ==> result.0,
{
    let ghost data = archive@;
    let count = archive_len(archive);
    let mut listed = false;
    let mut i: usize = 0;
    while i < count
        invariant
            archive@ == data,
            data == old(archive)@,
            count == zip_len(data),
            i <= count,
            edited_entries(data, i as nat, edit@) is Some,
            edited_entries(data, i as nat, edit@) == zip_writer_files(*writer),
            listed == lists_entry(data, i as nat, SHEET_RELS_PART@),
        decreases count - i,
    {
        let (name, bytes) = match archive_entry_at(archive, i) {
            Some(e) => e,
            None => {
                proof {
                    lemma_edited_entries_stay_none(data, (i + 1) as nat, count as nat, edit@);
                }
                return (false, listed);
            },
        };
        if !crate::xml::utf8_len_within(name.as_str(), 0xFFFF) {
            proof {
                lemma_edited_entries_stay_none(data, (i + 1) as nat, count as nat, edit@);
            }
            return (false, listed);
        }
        let part = match edit_part(edit, name.as_str(), bytes) {
            Some(p) => p,
            None => {
                proof {
                    lemma_edited_entries_stay_none(data, (i + 1) as nat, count as nat, edit@);
                }
                return (false, listed);
            },
        };
        if same_text(name.as_str(), SHEET_RELS_PART) {
            listed = true;
        }
        if !add_package_file(writer, name.as_str(), part.as_slice()) {
            proof {
                if let Some(all) = edited_entries(data, count as nat, edit@) {
                    if names_distinct(all) && parts_fit(all) {
                        lemma_edited_entries_prefix(data, i as nat, count as nat, edit@);
                        lemma_edited_entries_prefix(data, (i + 1) as nat, count as nat, edit@);
                        lemma_next_file_fits(all, i as int);
                        lemma_take_push(all, i as int);
                        lemma_total_len_chunks(part@);
                    }
                }
            }
            return (false, listed);
        }
        i = i + 1;
    }
    (true, listed)
}

/// The workbook `data` with a picture added to its first worksheet: each entry copied in order,
/// the worksheet, its relationships and the content types edited to refer to a new drawing; the
/// worksheet's relationships created if missing; then the drawing, its relationships and a
/// one-pixel PNG. `None` when `data` is no archive, an entry cannot be read, a part to edit is
/// not UTF-8, or the zip writer reports an error.
pub fn splice_picture_drawing(data: &[u8]) -> (out: Option<Vec<u8>>)
    ensures
        out matches Some(z) ==> spliced_package(data@) matches Some(files) && z@ == zip_written(files) && package_reads_back(z@, files),
        spliced_package(data@) is None ==> out is None,
        spliced_package(data@) matches Some(files) && names_distinct(files) && parts_fit(files) ==> out is Some,
{
    let ghost fits = spliced_package(data@) matches Some(f) && names_distinct(f) && parts_fit(f);
    let ghost all = spliced_package(data@).unwrap();
    let mut archive = match open_archive(data) {
        Some(a) => a,
        None => return None,
    };
    let mut writer = zip_writer_new();
    let (ok, has_sheet_rels) = copy_edited_entries(&mut archive, &mut writer, &WorkbookEdit::Picture);
    let ghost entries = edited_entries(data@, zip_len(data@), EditModel::Picture).unwrap();
    let ghost n = entries.len() as int;
    proof {
        reveal_strlit("xl/worksheets/_rels/sheet1.xml.rels");
        reveal_strlit("xl/drawings/drawing1.xml");
        reveal_strlit("xl/drawings/_rels/drawing1.xml.rels");
        reveal_strlit("xl/media/image1.png");
        lemma_short_name(SHEET_RELS_PART@);
        lemma_short_name("xl/drawings/drawing1.xml"@);
        lemma_short_name("xl/drawings/_rels/drawing1.xml.rels"@);
        lemma_short_name("xl/media/image1.png"@);
        if edited_entries(data@, zip_len(data@), EditModel::Picture) is Some {
            assert(all.take(n) =~= entries);
            if fits {
                lemma_prefix_fits(all, n);
            }
        }
    }
    if !ok {
        return None;
    }
    let ghost rels_added = !has_sheet_rels;
    let ghost d = if rels_added { n + 1 } else { n };
    proof {
        assert(all.len() == d + 3);
        lemma_take_push(all, d);
        lemma_take_push(all, d + 1);
        lemma_take_push(all, d + 2);
    }
    if !has_sheet_rels {
        proof {
            lemma_take_push(all, n);
        }
        if !add_text_file(&mut writer, SHEET_RELS_PART, SHEET_RELS) {
            proof {
                if fits {
                    lemma_next_file_fits(all, n);
                }
            }
            return None;
        }
    }
    assert(zip_writer_files(writer) == Some(all.take(d)));
    if !add_text_file(&mut writer, "xl/drawings/drawing1.xml", DRAWING_XML) {
        proof {
            if fits {
                lemma_next_file_fits(all, d);
            }
        }
        return None;
    }
    if !add_text_file(&mut writer, "xl/drawings/_rels/drawing1.xml.rels", DRAWING_RELS) {
        proof {
            if fits {
                lemma_next_file_fits(all, d + 1);
            }
        }
        return None;
    }
    let png: [u8; 67] = [
        0x89, 0x50, 0x4E, 0x47, 0x0D, 0x0A, 0x1A, 0x0A, 0x00, 0x00, 0x00, 0x0D, 0x49, 0x48, 0x44,
        0x52, 0x00, 0x00, 0x00, 0x01, 0x00, 0x00, 0x00, 0x01, 0x08, 0x06, 0x00, 0x00, 0x00, 0x1F,
        0x15, 0xC4, 0x89, 0x00, 0x00, 0x00, 0x0D, 0x49, 0x44, 0x41, 0x54, 0x78, 0x9C, 0x62, 0x00,
        0x01, 0x00, 0x00, 0x05, 0x00, 0x01, 0x0D, 0x0A, 0x2D, 0xB4, 0x00, 0x00, 0x00, 0x00, 0x49,
        0x45, 0x4E, 0x44, 0xAE, 0x42, 0x60, 0x82,
    ];
    assert(png@ =~= one_pixel_png());
    if !add_package_file(&mut writer, "xl/media/image1.png", &png) {
        proof {
            if fits {
                lemma_next_file_fits(all, d + 2);
                lemma_total_len_chunks(png@);
            }
        }
        return None;
    }
    proof {
        if fits {
            assert(total_len(all[d + 2].1) <= part_limit());
        }
    }
    zip_finish(writer)
}

/// The workbook `xlsx` with `insertion` placed before every `</worksheet>` of every worksheet
/// part (`xl/worksheets/*.xml`); other entries are copied unchanged. `None` when `xlsx` is no
/// archive, an entry cannot be read, a worksheet is not UTF-8, or the zip writer reports an error.
pub fn inject_before_worksheet_close(xlsx: &[u8], insertion: &str) -> (out: Option<Vec<u8>>)
    ensures
        out matches Some(z) ==> edited_package(xlsx@, EditModel::Insert(insertion@)) matches Some(files) && z@
            == zip_written(files) && package_reads_back(z@, files),
        edited_package(xlsx@, EditModel::Insert(insertion@)) is None ==> out is None,
        edited_package(xlsx@, EditModel::Insert(insertion@)) matches Some(files) && names_distinct(files) && parts_fit(files)
            ==> out is Some,
{
    let mut archive = match open_archive(xlsx) {
        Some(a) => a,
        None => return None,
    };
    let mut writer = zip_writer_new();
    let edit = WorkbookEdit::Insert(insertion);
    let (ok, _) = copy_edited_entries(&mut archive, &mut writer, &edit);
    if !ok {
        return None;
    }
    proof {
        if let Some(files) = edited_package(xlsx@, EditModel::Insert(insertion@)) {
            if parts_fit(files) && files.len() > 0 {
                assert(total_len(files[files.len() - 1].1) <= part_limit());
            }
        }
    }
    zip_finish(writer)
}

/// The workbook `data` with the first `<font>` .. `</font>` element of `xl/styles.xml` replaced
/// by `<font><sz val="{size}"/><name val="{family}"/></font>`; other entries are copied
/// unchanged. `None` when `data` is no archive, an entry cannot be read, the style sheet is not
/// UTF-8 or has no font element, or the zip writer reports an error.
pub fn rewrite_first_styles_font(data: &[u8], family: &str, size: &str) -> (out: Option<Vec<u8>>)
    ensures
        out matches Some(z) ==> edited_package(data@, EditModel::Restyle(family@, size@)) matches Some(files) && z@
            == zip_written(files) && package_reads_back(z@, files),
        edited_package(data@, EditModel::Restyle(family@, size@)) is None ==> out is None,
        edited_package(data@, EditModel::Restyle(family@, size@)) matches Some(files) && names_distinct(files) && parts_fit(files)
            ==> out is Some,
{
    let mut archive = match open_archive(data) {
        Some(a) => a,
        None => return None,
    };
    let mut writer = zip_writer_new();
    let edit = WorkbookEdit::Restyle(family, size);
    let (ok, _) = copy_edited_entries(&mut archive, &mut writer, &edit);
    if !ok {
        return None;
    }
    proof {
        if let Some(files) = edited_package(data@, EditModel::Restyle(family@, size@)) {
            if parts_fit(files) && files.len() > 0 {
                assert(total_len(files[files.len() - 1].1) <= part_limit());
            }
        }
    }
    zip_finish(writer)
}

} // verus!

verus! {

/// The relationships of the worksheet the chart is put on: `rId1` is the drawing.
pub const CHART_SHEET_RELS: &'static str = "<?xml version=\"1.0\" encoding=\"UTF-8\"?>\n<Relationships xmlns=\"http://schemas.openxmlformats.org/package/2006/relationships\">\n  <Relationship Id=\"rId1\" Type=\"http://schemas.openxmlformats.org/officeDocument/2006/relationships/drawing\" Target=\"../drawings/drawing1.xml\"/>\n</Relationships>";

/// The chart's drawing up to the row it starts at.
pub const CHART_DRAWING_HEAD: &'static str = "<?xml version=\"1.0\" encoding=\"UTF-8\"?>\n<xdr:wsDr xmlns:xdr=\"http://schemas.openxmlformats.org/drawingml/2006/spreadsheetDrawing\"\n          xmlns:a=\"http://schemas.openxmlformats.org/drawingml/2006/main\"\n          xmlns:c=\"http://schemas.openxmlformats.org/drawingml/2006/chart\"\n          xmlns:r=\"http://schemas.openxmlformats.org/officeDocument/2006/relationships\">\n  <xdr:twoCellAnchor>\n    <xdr:from>\n      <xdr:col>2</xdr:col>\n      <xdr:colOff>0</xdr:colOff>\n      <xdr:row>";

/// The chart's drawing between the row it starts at and the row it ends at.
pub const CHART_DRAWING_MIDDLE: &'static str = "</xdr:row>\n      <xdr:rowOff>0</xdr:rowOff>\n    </xdr:from>\n    <xdr:to>\n      <xdr:col>8</xdr:col>\n      <xdr:colOff>0</xdr:colOff>\n      <xdr:row>";

/// The chart's drawing after the row it ends at.
pub const CHART_DRAWING_TAIL: &'static str = "</xdr:row>\n      <xdr:rowOff>0</xdr:rowOff>\n    </xdr:to>\n    <xdr:graphicFrame>\n      <xdr:nvGraphicFramePr>\n        <xdr:cNvPr id=\"1\" name=\"Chart 1\"/>\n        <xdr:cNvGraphicFramePr/>\n      </xdr:nvGraphicFramePr>\n      <xdr:xfrmPr/>\n      <a:graphic>\n        <a:graphicData uri=\"http://schemas.openxmlformats.org/drawingml/2006/chart\">\n          <c:chart r:id=\"rId1\"/>\n        </a:graphicData>\n      </a:graphic>\n    </xdr:graphicFrame>\n    <xdr:clientData/>\n  </xdr:twoCellAnchor>\n</xdr:wsDr>";

/// The drawing's relationships: `rId1` is `../charts/chart1.xml`.
pub const CHART_DRAWING_RELS: &'static str = "<?xml version=\"1.0\" encoding=\"UTF-8\"?>\n<Relationships xmlns=\"http://schemas.openxmlformats.org/package/2006/relationships\">\n  <Relationship Id=\"rId1\" Type=\"http://schemas.openxmlformats.org/officeDocument/2006/relationships/chart\" Target=\"../charts/chart1.xml\"/>\n</Relationships>";

/// A drawing that anchors chart `rId1` over columns C to H, from row `anchor_row` (counted from
/// zero) to fifteen rows further.
pub open spec fn anchored_drawing_xml(anchor_row: u32) -> Seq<char> {
    CHART_DRAWING_HEAD@ + decimal(anchor_row as nat) + CHART_DRAWING_MIDDLE@ + decimal((anchor_row + 15) as nat)
        + CHART_DRAWING_TAIL@
}

/// The text of `piece` up to its first `"`, if it has one.
pub open spec fn quoted_prefix(piece: Seq<char>) -> Option<Seq<char>> {
    match first_occurrence(piece, seq!['"']) {
        Some(e) => Some(piece.take(e)),
        None => None,
    }
}

/// Whether `target` mentions `worksheets/`.
pub open spec fn names_worksheet(target: Seq<char>) -> bool {
    first_occurrence(target, "worksheets/"@) is Some
}

/// The first of `pieces` whose quoted prefix mentions `worksheets/`: that prefix.
pub open spec fn first_sheet_target(pieces: Seq<Seq<char>>) -> Option<Seq<char>>
    decreases pieces.len(),
{
    if pieces.len() == 0 {
        None
    } else {
        match quoted_prefix(pieces[0]) {
            Some(t) => if names_worksheet(t) {
                Some(t)
            } else {
                first_sheet_target(pieces.drop_first())
            },
            None => first_sheet_target(pieces.drop_first()),
        }
    }
}

/// The worksheet the workbook relationships `rels` name first (the first `Target="..."` that
/// mentions `worksheets/`), `worksheets/sheet1.xml` when none does.
pub open spec fn sheet_target(rels: Seq<char>) -> Seq<char> {
    match first_sheet_target(split_pieces(rels, "Target=\""@, Seq::empty())) {
        Some(t) => t,
        None => "worksheets/sheet1.xml"@,
    }
}

/// The relationships part of the worksheet that `rels` names first.
pub open spec fn chart_sheet_rels_path(rels: Seq<char>) -> Seq<char> {
    "xl/worksheets/_rels/"@ + after_last(sheet_target(rels), '/') + ".rels"@
}

/// The workbook relationships of `data` as text: empty when the part cannot be read, `None`
/// when it is not UTF-8.
pub open spec fn workbook_rels_text(data: Seq<u8>) -> Option<Seq<char>> {
    match zip_entry_bytes(data, "xl/_rels/workbook.xml.rels"@) {
        None => Some(Seq::empty()),
        Some(b) => if vstd::utf8::valid_utf8(b) {
            Some(vstd::utf8::decode_utf8(b))
        } else {
            None
        },
    }
}

/// The files of the workbook `base` with a chart added to the worksheet its relationships name
/// first: every entry as it is, then that worksheet's relationships, the drawing, its
/// relationships and the chart part. `None` when `base` is no archive, its workbook
/// relationships are not UTF-8, an entry cannot be read, or a name is too long for a ZIP entry.
pub open spec fn anchored_chart_package(base: Seq<u8>, chart_xml: Seq<char>, anchor_row: u32) -> Option<
    Seq<(Seq<char>, Seq<Seq<u8>>)>,
> {
    if !zip_opens(base) {
        None
    } else {
        match workbook_rels_text(base) {
            None => None,
            Some(rels) => if crate::xml::utf8_len(chart_sheet_rels_path(rels)) > 0xFFFF {
                None
            } else {
                match edited_entries(base, zip_len(base), EditModel::Unchanged) {
                    None => None,
                    Some(entries) => Some(
                        entries + seq![
                            text_file(chart_sheet_rels_path(rels), CHART_SHEET_RELS@),
                            text_file("xl/drawings/drawing1.xml"@, anchored_drawing_xml(anchor_row)),
                            text_file("xl/drawings/_rels/drawing1.xml.rels"@, CHART_DRAWING_RELS@),
                            text_file("xl/charts/chart1.xml"@, chart_xml),
                        ],
                    ),
                }
            },
        }
    }
}

/// The quoted prefix of the first piece that mentions `worksheets/`.
fn first_sheet_target_of(pieces: &Vec<Vec<char>>) -> (target: Option<Vec<char>>)
    ensures
        match target {
            Some(t) => first_sheet_target(char_vecs(pieces@)) == Some(t@),
            None => first_sheet_target(char_vecs(pieces@)) is None,
        },
{
    let ghost all = char_vecs(pieces@);
    let mut quote: Vec<char> = Vec::new();
    quote.push('"');
    assert(quote@ =~= seq!['"']);
    let worksheets = chars_of("worksheets/");
    let mut k: usize = 0;
    assert(all.skip(0) =~= all);
    while k < pieces.len()
        invariant
            k <= pieces@.len(),
            all == char_vecs(pieces@),
            quote@ == seq!['"'],
            worksheets@ == "worksheets/"@,
            first_sheet_target(all) == first_sheet_target(all.skip(k as int)),
        decreases pieces.len() - k,
    {
        let piece = &pieces[k];
        proof {
            assert(all.skip(k as int)[0] == piece@);
            assert(all.skip(k as int).drop_first() =~= all.skip(k + 1));
        }
        match find_chars(piece.as_slice(), quote.as_slice()) {
            Some(e) => {
                let t = slice_to_vec_range(piece.as_slice(), 0, e);
                assert(t@ =~= piece@.take(e as int));
                if find_chars(t.as_slice(), worksheets.as_slice()).is_some() {
                    return Some(t);
                }
            },
            None => {},
        }
        k = k + 1;
    }
    assert(all.skip(k as int) =~= Seq::<Seq<char>>::empty());
    None
}

/// The part of `s` after its last `c`.
fn after_last_chars(s: &[char], c: char) -> (r: Vec<char>)
    ensures
        r@ == after_last(s@, c),
{
    let mut p: usize = s.len();
    while p > 0 && s[p - 1] != c
        invariant
            p <= s@.len(),
            forall|j: int| p <= j < s@.len() ==> #[trigger] s@[j] != c,
        decreases p,
    {
        p = p - 1;
    }
    proof {
        crate::extract::lemma_after_last_from(s@, c, p as int);
    }
    slice_to_vec_range(s, p, s.len())
}

/// The workbook `base` with a chart added to the worksheet its relationships name first (the
/// first `Target="..."` of `xl/_rels/workbook.xml.rels` that mentions `worksheets/`, else
/// `worksheets/sheet1.xml`): every entry copied as it is, then that worksheet's relationships
/// pointing `rId1` at a drawing, the drawing anchoring the chart over columns C to H from row
/// `anchor_row` to fifteen rows further, its relationships, and `chart_xml` as
/// `xl/charts/chart1.xml`. `None` when `base` is no archive, its workbook relationships are
/// not UTF-8, an entry cannot be read, a name is too long, or the zip writer reports an error;
/// a package with distinct names and parts within the limit is owed.
pub fn add_anchored_chart(base: &[u8], chart_xml: &str, anchor_row: u32) -> (out: Option<Vec<u8>>)
    requires
        anchor_row <= u32::MAX - 15,
    ensures
        out matches Some(z) ==> anchored_chart_package(base@, chart_xml@, anchor_row) matches Some(files) && z@
            == zip_written(files) && package_reads_back(z@, files),
        anchored_chart_package(base@, chart_xml@, anchor_row) is None ==> out is None,
        anchored_chart_package(base@, chart_xml@, anchor_row) matches Some(files) && names_distinct(files)
            && parts_fit(files) ==> out is Some,
{
    let ghost package = anchored_chart_package(base@, chart_xml@, anchor_row);
    let ghost fits = package matches Some(f) && names_distinct(f) && parts_fit(f);
    let ghost all = package.unwrap();
    let mut archive = match open_archive(base) {
        Some(a) => a,
        None => return None,
    };
    let rels: Vec<char> = match archive_entry_bytes(&mut archive, "xl/_rels/workbook.xml.rels") {
        None => Vec::new(),
        Some(b) => match text_from_utf8(b) {
            Some(t) => chars_of(t.as_str()),
            None => return None,
        },
    };
    assert(Some(rels@) == workbook_rels_text(base@));
    let marker = chars_of("Target=\"");
    proof {
        reveal_strlit("Target=\"");
    }
    let pieces = split_text(rels.as_slice(), marker.as_slice());
    let target: Vec<char> = match first_sheet_target_of(&pieces) {
        Some(t) => t,
        None => chars_of("worksheets/sheet1.xml"),
    };
    assert(target@ == sheet_target(rels@));
    let file_name = after_last_chars(target.as_slice(), '/');
    let mut path = String::from_str("xl/worksheets/_rels/");
    let file_name_text = string_from_chars(file_name.as_slice());
    path.append(file_name_text.as_str());
    path.append(".rels");
    assert(path@ =~= chart_sheet_rels_path(rels@));
    if !crate::xml::utf8_len_within(path.as_str(), 0xFFFF) {
        return None;
    }
    let mut writer = zip_writer_new();
    let (ok, _) = copy_edited_entries(&mut archive, &mut writer, &WorkbookEdit::Unchanged);
    let ghost entries = edited_entries(base@, zip_len(base@), EditModel::Unchanged).unwrap();
    let ghost n = entries.len() as int;
    proof {
        reveal_strlit("xl/drawings/drawing1.xml");
        reveal_strlit("xl/drawings/_rels/drawing1.xml.rels");
        reveal_strlit("xl/charts/chart1.xml");
        lemma_short_name("xl/drawings/drawing1.xml"@);
        lemma_short_name("xl/drawings/_rels/drawing1.xml.rels"@);
        lemma_short_name("xl/charts/chart1.xml"@);
        if edited_entries(base@, zip_len(base@), EditModel::Unchanged) is Some {
            assert(all.take(n) =~= entries);
            assert(all.len() == n + 4);
            if fits {
                lemma_prefix_fits(all, n);
            }
            lemma_take_push(all, n);
            lemma_take_push(all, n + 1);
            lemma_take_push(all, n + 2);
            lemma_take_push(all, n + 3);
        }
    }
    if !ok {
        return None;
    }
    if !add_text_file(&mut writer, path.as_str(), CHART_SHEET_RELS) {
        proof {
            if fits {
                lemma_next_file_fits(all, n);
            }
        }
        return None;
    }
    let mut drawing = String::from_str(CHART_DRAWING_HEAD);
    push_unsigned_decimal(&mut drawing, anchor_row as usize);
    drawing.append(CHART_DRAWING_MIDDLE);
    push_unsigned_decimal(&mut drawing, (anchor_row + 15) as usize);
    drawing.append(CHART_DRAWING_TAIL);
    assert(drawing@ =~= anchored_drawing_xml(anchor_row));
    if !add_text_file(&mut writer, "xl/drawings/drawing1.xml", drawing.as_str()) {
        proof {
            if fits {
                lemma_next_file_fits(all, n + 1);
            }
        }
        return None;
    }
    if !add_text_file(&mut writer, "xl/drawings/_rels/drawing1.xml.rels", CHART_DRAWING_RELS) {
        proof {
            if fits {
                lemma_next_file_fits(all, n + 2);
            }
        }
        return None;
    }
    if !add_text_file(&mut writer, "xl/charts/chart1.xml", chart_xml) {
        proof {
            if fits {
                lemma_next_file_fits(all, n + 3);
            }
        }
        return None;
    }
    proof {
        if fits {
            assert(total_len(all[n + 3].1) <= part_limit());
        }
    }
    zip_finish(writer)
}

} // verus!
