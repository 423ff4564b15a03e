//! Small complete packages (presentations and word-processing documents) for exercising the
//! parsers: fixed parts, with the caller's XML or values where a part varies; and a titled
//! bar-chart part.

use vstd::prelude::*;

use crate::fixtures::{push_signed_decimal, push_unsigned_decimal, signed_decimal};
use crate::naming::decimal;
use crate::package::{
    add_text_file, lemma_next_file_fits, lemma_short_name, lemma_take_push, names_distinct, part_limit, parts_fit,
    package_reads_back, text_file, total_len, zip_finish, zip_writer_files, zip_writer_new, zip_written,
};

verus! {

/// Content types of a word-processing package with only a main document.
pub const DOCX_CONTENT_TYPES: &'static str = "<?xml version=\"1.0\" encoding=\"UTF-8\"?>\n<Types xmlns=\"http://schemas.openxmlformats.org/package/2006/content-types\">\n  <Default Extension=\"rels\" ContentType=\"application/vnd.openxmlformats-package.relationships+xml\"/>\n  <Default Extension=\"xml\" ContentType=\"application/xml\"/>\n  <Override PartName=\"/word/document.xml\" ContentType=\"application/vnd.openxmlformats-officedocument.wordprocessingml.document.main+xml\"/>\n</Types>";

/// Package relationships pointing at `word/document.xml`.
pub const DOCX_PACKAGE_RELS: &'static str = "<?xml version=\"1.0\" encoding=\"UTF-8\"?>\n<Relationships xmlns=\"http://schemas.openxmlformats.org/package/2006/relationships\">\n  <Relationship Id=\"rId1\" Type=\"http://schemas.openxmlformats.org/officeDocument/2006/relationships/officeDocument\" Target=\"word/document.xml\"/>\n</Relationships>";

/// Document relationships with no relationship.
pub const DOCX_EMPTY_DOCUMENT_RELS: &'static str = "<?xml version=\"1.0\" encoding=\"UTF-8\"?>\n<Relationships xmlns=\"http://schemas.openxmlformats.org/package/2006/relationships\">\n</Relationships>";

/// A document body with one paragraph reading `Hello`.
pub const DOCX_HELLO_DOCUMENT: &'static str = "<?xml version=\"1.0\" encoding=\"UTF-8\" standalone=\"yes\"?>\n<w:document xmlns:w=\"http://schemas.openxmlformats.org/wordprocessingml/2006/main\">\n    <w:body>\n        <w:p><w:r><w:t>Hello</w:t></w:r></w:p>\n        <w:sectPr/>\n    </w:body>\n</w:document>";

/// Core properties up to the title.
pub const CORE_TITLE_HEAD: &'static str = "<?xml version=\"1.0\" encoding=\"UTF-8\" standalone=\"yes\"?>\n<cp:coreProperties xmlns:cp=\"http://schemas.openxmlformats.org/package/2006/metadata/core-properties\"\n    xmlns:dc=\"http://purl.org/dc/elements/1.1/\">\n  <dc:title>";

/// Core properties after the title.
pub const CORE_TITLE_TAIL: &'static str = "</dc:title>\n</cp:coreProperties>";

/// Content types of a presentation package with one slide.
pub const PPTX_CONTENT_TYPES: &'static str = "<?xml version=\"1.0\" encoding=\"UTF-8\"?><Types xmlns=\"http://schemas.openxmlformats.org/package/2006/content-types\"><Default Extension=\"rels\" ContentType=\"application/vnd.openxmlformats-package.relationships+xml\"/><Default Extension=\"xml\" ContentType=\"application/xml\"/><Override PartName=\"/ppt/slides/slide1.xml\" ContentType=\"application/vnd.openxmlformats-officedocument.presentationml.slide+xml\"/></Types>";

/// Package relationships pointing at `ppt/presentation.xml`.
pub const PPTX_PACKAGE_RELS: &'static str = "<?xml version=\"1.0\" encoding=\"UTF-8\"?><Relationships xmlns=\"http://schemas.openxmlformats.org/package/2006/relationships\"><Relationship Id=\"rId1\" Type=\"http://schemas.openxmlformats.org/officeDocument/2006/relationships/officeDocument\" Target=\"ppt/presentation.xml\"/></Relationships>";

/// A 4:3 presentation (9144000 x 6858000 EMU) listing one slide, `rId2`.
pub const PPTX_PRESENTATION: &'static str = "<?xml version=\"1.0\" encoding=\"UTF-8\"?><p:presentation xmlns:a=\"http://schemas.openxmlformats.org/drawingml/2006/main\" xmlns:r=\"http://schemas.openxmlformats.org/officeDocument/2006/relationships\" xmlns:p=\"http://schemas.openxmlformats.org/presentationml/2006/main\"><p:sldSz cx=\"9144000\" cy=\"6858000\"/><p:sldIdLst><p:sldId id=\"256\" r:id=\"rId2\"/></p:sldIdLst></p:presentation>";

/// Presentation relationships pointing `rId2` at `slides/slide1.xml`.
pub const PPTX_PRESENTATION_RELS: &'static str = "<?xml version=\"1.0\" encoding=\"UTF-8\"?><Relationships xmlns=\"http://schemas.openxmlformats.org/package/2006/relationships\"><Relationship Id=\"rId2\" Type=\"http://schemas.openxmlformats.org/officeDocument/2006/relationships/slide\" Target=\"slides/slide1.xml\"/></Relationships>";

/// A slide with one text box reading `Hello from PPTX`.
pub const PPTX_HELLO_SLIDE: &'static str = "<?xml version=\"1.0\" encoding=\"UTF-8\"?><p:sld xmlns:a=\"http://schemas.openxmlformats.org/drawingml/2006/main\" xmlns:r=\"http://schemas.openxmlformats.org/officeDocument/2006/relationships\" xmlns:p=\"http://schemas.openxmlformats.org/presentationml/2006/main\"><p:cSld><p:spTree><p:nvGrpSpPr><p:cNvPr id=\"1\" name=\"\"/><p:cNvGrpSpPr/><p:nvPr/></p:nvGrpSpPr><p:grpSpPr/><p:sp><p:nvSpPr><p:cNvPr id=\"2\" name=\"TextBox 1\"/><p:cNvSpPr txBox=\"1\"/><p:nvPr/></p:nvSpPr><p:spPr><a:xfrm><a:off x=\"457200\" y=\"274638\"/><a:ext cx=\"8229600\" cy=\"1143000\"/></a:xfrm></p:spPr><p:txBody><a:bodyPr/><a:lstStyle/><a:p><a:r><a:t>Hello from PPTX</a:t></a:r></a:p></p:txBody></p:sp></p:spTree></p:cSld></p:sld>";

/// Slide relationships with no relationship.
pub const PPTX_EMPTY_SLIDE_RELS: &'static str = "<?xml version=\"1.0\" encoding=\"UTF-8\"?><Relationships xmlns=\"http://schemas.openxmlformats.org/package/2006/relationships\"></Relationships>";

/// Content types of a word-processing package with a main document and a chart.
pub const DOCX_CHART_CONTENT_TYPES: &'static str = "<?xml version=\"1.0\" encoding=\"UTF-8\"?>\n<Types xmlns=\"http://schemas.openxmlformats.org/package/2006/content-types\">\n  <Default Extension=\"rels\" ContentType=\"application/vnd.openxmlformats-package.relationships+xml\"/>\n  <Default Extension=\"xml\" ContentType=\"application/xml\"/>\n  <Override PartName=\"/word/document.xml\" ContentType=\"application/vnd.openxmlformats-officedocument.wordprocessingml.document.main+xml\"/>\n  <Override PartName=\"/word/charts/chart1.xml\" ContentType=\"application/vnd.openxmlformats-officedocument.drawingml.chart+xml\"/>\n</Types>";

/// Document relationships pointing `rId4` at `charts/chart1.xml`.
pub const DOCX_CHART_DOCUMENT_RELS: &'static str = "<?xml version=\"1.0\" encoding=\"UTF-8\"?>\n<Relationships xmlns=\"http://schemas.openxmlformats.org/package/2006/relationships\">\n  <Relationship Id=\"rId4\" Type=\"http://schemas.openxmlformats.org/officeDocument/2006/relationships/chart\" Target=\"charts/chart1.xml\"/>\n</Relationships>";

/// Content types of a word-processing package with a main document and endnotes.
pub const DOCX_ENDNOTE_CONTENT_TYPES: &'static str = "<?xml version=\"1.0\" encoding=\"UTF-8\" standalone=\"yes\"?>\n<Types xmlns=\"http://schemas.openxmlformats.org/package/2006/content-types\">\n  <Default Extension=\"rels\" ContentType=\"application/vnd.openxmlformats-package.relationships+xml\"/>\n  <Default Extension=\"xml\" ContentType=\"application/xml\"/>\n  <Override PartName=\"/word/document.xml\" ContentType=\"application/vnd.openxmlformats-officedocument.wordprocessingml.document.main+xml\"/>\n  <Override PartName=\"/word/endnotes.xml\" ContentType=\"application/vnd.openxmlformats-officedocument.wordprocessingml.endnotes+xml\"/>\n</Types>";

/// Package relationships pointing at `word/document.xml`, declared standalone.
pub const DOCX_STANDALONE_PACKAGE_RELS: &'static str = "<?xml version=\"1.0\" encoding=\"UTF-8\" standalone=\"yes\"?>\n<Relationships xmlns=\"http://schemas.openxmlformats.org/package/2006/relationships\">\n  <Relationship Id=\"rId1\" Type=\"http://schemas.openxmlformats.org/officeDocument/2006/relationships/officeDocument\" Target=\"word/document.xml\"/>\n</Relationships>";

/// Document relationships pointing `rId1` at `endnotes.xml`.
pub const DOCX_ENDNOTE_DOCUMENT_RELS: &'static str = "<?xml version=\"1.0\" encoding=\"UTF-8\" standalone=\"yes\"?>\n<Relationships xmlns=\"http://schemas.openxmlformats.org/package/2006/relationships\">\n  <Relationship Id=\"rId1\" Type=\"http://schemas.openxmlformats.org/officeDocument/2006/relationships/endnotes\" Target=\"endnotes.xml\"/>\n</Relationships>";

/// A body with an endnote reference, up to the paragraph text.
pub const ENDNOTE_DOCUMENT_HEAD: &'static str = "<?xml version=\"1.0\" encoding=\"UTF-8\" standalone=\"yes\"?>\n<w:document xmlns:w=\"http://schemas.openxmlformats.org/wordprocessingml/2006/main\"\n            xmlns:r=\"http://schemas.openxmlformats.org/officeDocument/2006/relationships\">\n  <w:body>\n    <w:p>\n      <w:r><w:t xml:space=\"preserve\">";

/// A body with an endnote reference, between the text and the endnote id.
pub const ENDNOTE_DOCUMENT_MIDDLE: &'static str = "</w:t></w:r>\n      <w:r>\n        <w:rPr><w:rStyle w:val=\"EndnoteReference\"/></w:rPr>\n        <w:endnoteReference w:id=\"";

/// A body with an endnote reference, after the endnote id.
pub const ENDNOTE_DOCUMENT_TAIL: &'static str = "\"/>\n      </w:r>\n    </w:p>\n  </w:body>\n</w:document>";

/// Endnotes up to the endnote id.
pub const ENDNOTES_HEAD: &'static str = "<?xml version=\"1.0\" encoding=\"UTF-8\" standalone=\"yes\"?>\n<w:endnotes xmlns:w=\"http://schemas.openxmlformats.org/wordprocessingml/2006/main\">\n  <w:endnote w:id=\"";

/// Endnotes between the endnote id and its text.
pub const ENDNOTES_MIDDLE: &'static str = "\">\n    <w:p>\n      <w:r><w:t xml:space=\"preserve\">";

/// Endnotes after the endnote text.
pub const ENDNOTES_TAIL: &'static str = "</w:t></w:r>\n    </w:p>\n  </w:endnote>\n</w:endnotes>";

/// A presentation up to its slide width.
pub const SIZED_PRESENTATION_HEAD: &'static str = "<?xml version=\"1.0\" encoding=\"UTF-8\"?><p:presentation xmlns:a=\"http://schemas.openxmlformats.org/drawingml/2006/main\" xmlns:r=\"http://schemas.openxmlformats.org/officeDocument/2006/relationships\" xmlns:p=\"http://schemas.openxmlformats.org/presentationml/2006/main\"><p:sldSz cx=\"";

/// A presentation between its slide width and height.
pub const SIZED_PRESENTATION_MIDDLE: &'static str = "\" cy=\"";

/// A presentation after its slide height.
pub const SIZED_PRESENTATION_TAIL: &'static str = "\"/><p:sldIdLst><p:sldId id=\"256\" r:id=\"rId2\"/></p:sldIdLst></p:presentation>";

/// Slide relationships up to the chart relationship id.
pub const CHART_SLIDE_RELS_HEAD: &'static str = "<?xml version=\"1.0\" encoding=\"UTF-8\"?><Relationships xmlns=\"http://schemas.openxmlformats.org/package/2006/relationships\"><Relationship Id=\"";

/// Slide relationships after the chart relationship id.
pub const CHART_SLIDE_RELS_TAIL: &'static str = "\" Type=\"http://schemas.openxmlformats.org/officeDocument/2006/relationships/chart\" Target=\"../charts/chart1.xml\"/></Relationships>";

/// Slide relationships up to the SmartArt data relationship id.
pub const SMARTART_SLIDE_RELS_HEAD: &'static str = "<?xml version=\"1.0\" encoding=\"UTF-8\"?><Relationships xmlns=\"http://schemas.openxmlformats.org/package/2006/relationships\"><Relationship Id=\"";

/// Slide relationships after the SmartArt data relationship id.
pub const SMARTART_SLIDE_RELS_TAIL: &'static str = "\" Type=\"http://schemas.microsoft.com/office/2007/relationships/diagramData\" Target=\"../diagrams/data1.xml\"/></Relationships>";

} // verus!

verus! {

/// Core properties holding `title` as the document title.
pub open spec fn core_title_xml(title: Seq<char>) -> Seq<char> {
    CORE_TITLE_HEAD@ + title + CORE_TITLE_TAIL@
}

/// The files of `build_docx_with_title`.
pub open spec fn docx_with_title_package(title: Seq<char>) -> Seq<(Seq<char>, Seq<Seq<u8>>)> {
    seq![
        text_file("[Content_Types].xml"@, DOCX_CONTENT_TYPES@),
        text_file("_rels/.rels"@, DOCX_PACKAGE_RELS@),
        text_file("word/_rels/document.xml.rels"@, DOCX_EMPTY_DOCUMENT_RELS@),
        text_file("word/document.xml"@, DOCX_HELLO_DOCUMENT@),
        text_file("docProps/core.xml"@, core_title_xml(title)),
    ]
}

/// The files of `build_test_pptx`.
pub open spec fn test_pptx_package() -> Seq<(Seq<char>, Seq<Seq<u8>>)> {
    seq![
        text_file("[Content_Types].xml"@, PPTX_CONTENT_TYPES@),
        text_file("_rels/.rels"@, PPTX_PACKAGE_RELS@),
        text_file("ppt/presentation.xml"@, PPTX_PRESENTATION@),
        text_file("ppt/_rels/presentation.xml.rels"@, PPTX_PRESENTATION_RELS@),
        text_file("ppt/slides/slide1.xml"@, PPTX_HELLO_SLIDE@),
        text_file("ppt/slides/_rels/slide1.xml.rels"@, PPTX_EMPTY_SLIDE_RELS@),
    ]
}

/// The files of `build_docx_with_chart`.
pub open spec fn docx_with_chart_package(
    document_xml: Seq<char>,
    chart_xml: Seq<char>,
) -> Seq<(Seq<char>, Seq<Seq<u8>>)> {
    seq![
        text_file("[Content_Types].xml"@, DOCX_CHART_CONTENT_TYPES@),
        text_file("_rels/.rels"@, DOCX_PACKAGE_RELS@),
        text_file("word/_rels/document.xml.rels"@, DOCX_CHART_DOCUMENT_RELS@),
        text_file("word/document.xml"@, document_xml),
        text_file("word/charts/chart1.xml"@, chart_xml),
    ]
}

/// The files of `build_docx_with_metadata`.
pub open spec fn docx_with_metadata_package(core_xml: Seq<char>) -> Seq<(Seq<char>, Seq<Seq<u8>>)> {
    seq![
        text_file("[Content_Types].xml"@, DOCX_CONTENT_TYPES@),
        text_file("_rels/.rels"@, DOCX_PACKAGE_RELS@),
        text_file("word/_rels/document.xml.rels"@, DOCX_EMPTY_DOCUMENT_RELS@),
        text_file("word/document.xml"@, DOCX_HELLO_DOCUMENT@),
        text_file("docProps/core.xml"@, core_xml),
    ]
}

/// A body with one paragraph: `text`, then a reference to endnote `endnote_id`.
pub open spec fn endnote_document_xml(text: Seq<char>, endnote_id: usize) -> Seq<char> {
    ENDNOTE_DOCUMENT_HEAD@ + text + ENDNOTE_DOCUMENT_MIDDLE@
        + decimal(endnote_id as nat) + ENDNOTE_DOCUMENT_TAIL@
}

/// Endnotes holding endnote `endnote_id`, whose text is `endnote_text`.
pub open spec fn endnotes_xml(endnote_id: usize, endnote_text: Seq<char>) -> Seq<char> {
    ENDNOTES_HEAD@ + decimal(endnote_id as nat) + ENDNOTES_MIDDLE@ + endnote_text + ENDNOTES_TAIL@
}

/// The files of `build_docx_with_endnote`.
pub open spec fn docx_with_endnote_package(
    text: Seq<char>,
    endnote_id: usize,
    endnote_text: Seq<char>,
) -> Seq<(Seq<char>, Seq<Seq<u8>>)> {
    seq![
        text_file("[Content_Types].xml"@, DOCX_ENDNOTE_CONTENT_TYPES@),
        text_file("_rels/.rels"@, DOCX_STANDALONE_PACKAGE_RELS@),
        text_file("word/_rels/document.xml.rels"@, DOCX_ENDNOTE_DOCUMENT_RELS@),
        text_file("word/document.xml"@, endnote_document_xml(text, endnote_id)),
        text_file("word/endnotes.xml"@, endnotes_xml(endnote_id, endnote_text)),
    ]
}

/// A presentation of the given slide size (EMU) listing one slide, `rId2`.
pub open spec fn sized_presentation_xml(slide_cx_emu: i64, slide_cy_emu: i64) -> Seq<char> {
    SIZED_PRESENTATION_HEAD@ + signed_decimal(slide_cx_emu as int) + SIZED_PRESENTATION_MIDDLE@
        + signed_decimal(slide_cy_emu as int) + SIZED_PRESENTATION_TAIL@
}

/// Slide relationships pointing `chart_rid` at `../charts/chart1.xml`.
pub open spec fn chart_slide_rels_xml(chart_rid: Seq<char>) -> Seq<char> {
    CHART_SLIDE_RELS_HEAD@ + chart_rid + CHART_SLIDE_RELS_TAIL@
}

/// The files of `build_test_pptx_with_chart`.
pub open spec fn test_pptx_with_chart_package(
    slide_cx_emu: i64,
    slide_cy_emu: i64,
    slide_xml: Seq<char>,
    chart_rid: Seq<char>,
    chart_xml: Seq<char>,
) -> Seq<(Seq<char>, Seq<Seq<u8>>)> {
    seq![
        text_file("[Content_Types].xml"@, PPTX_CONTENT_TYPES@),
        text_file("_rels/.rels"@, PPTX_PACKAGE_RELS@),
        text_file("ppt/presentation.xml"@, sized_presentation_xml(slide_cx_emu, slide_cy_emu)),
        text_file("ppt/_rels/presentation.xml.rels"@, PPTX_PRESENTATION_RELS@),
        text_file("ppt/slides/slide1.xml"@, slide_xml),
        text_file("ppt/slides/_rels/slide1.xml.rels"@, chart_slide_rels_xml(chart_rid)),
        text_file("ppt/charts/chart1.xml"@, chart_xml),
    ]
}

/// Slide relationships pointing `data_rid` at the SmartArt data part `../diagrams/data1.xml`.
pub open spec fn smartart_slide_rels_xml(data_rid: Seq<char>) -> Seq<char> {
    SMARTART_SLIDE_RELS_HEAD@ + data_rid + SMARTART_SLIDE_RELS_TAIL@
}

/// The files of `build_test_pptx_with_smartart`.
pub open spec fn test_pptx_with_smartart_package(
    slide_cx_emu: i64,
    slide_cy_emu: i64,
    slide_xml: Seq<char>,
    data_rid: Seq<char>,
    data_xml: Seq<char>,
) -> Seq<(Seq<char>, Seq<Seq<u8>>)> {
    seq![
        text_file("[Content_Types].xml"@, PPTX_CONTENT_TYPES@),
        text_file("_rels/.rels"@, PPTX_PACKAGE_RELS@),
        text_file("ppt/presentation.xml"@, sized_presentation_xml(slide_cx_emu, slide_cy_emu)),
        text_file("ppt/_rels/presentation.xml.rels"@, PPTX_PRESENTATION_RELS@),
        text_file("ppt/slides/slide1.xml"@, slide_xml),
        text_file("ppt/slides/_rels/slide1.xml.rels"@, smartart_slide_rels_xml(data_rid)),
        text_file("ppt/diagrams/data1.xml"@, data_xml),
    ]
}

} // verus!

verus! {

proof fn lemma_docx_with_title_package_names(title: Seq<char>)
    ensures
        names_distinct(docx_with_title_package(title)),
        crate::xml::utf8_len("[Content_Types].xml"@) <= 0xFFFF,
        crate::xml::utf8_len("_rels/.rels"@) <= 0xFFFF,
        crate::xml::utf8_len("word/_rels/document.xml.rels"@) <= 0xFFFF,
        crate::xml::utf8_len("word/document.xml"@) <= 0xFFFF,
        crate::xml::utf8_len("docProps/core.xml"@) <= 0xFFFF,
{
    reveal_strlit("[Content_Types].xml");
    reveal_strlit("_rels/.rels");
    reveal_strlit("word/_rels/document.xml.rels");
    reveal_strlit("word/document.xml");
    reveal_strlit("docProps/core.xml");
    let pkg = docx_with_title_package(title);
    assert(pkg[0].0.len() != pkg[1].0.len());
    assert(pkg[0].0.len() != pkg[2].0.len());
    assert(pkg[0].0.len() != pkg[3].0.len());
    assert(pkg[0].0.len() != pkg[4].0.len());
    assert(pkg[1].0.len() != pkg[2].0.len());
    assert(pkg[1].0.len() != pkg[3].0.len());
    assert(pkg[1].0.len() != pkg[4].0.len());
    assert(pkg[2].0.len() != pkg[3].0.len());
    assert(pkg[2].0.len() != pkg[4].0.len());
    assert(pkg[3].0[0] != pkg[4].0[0]);
    lemma_short_name("[Content_Types].xml"@);
    lemma_short_name("_rels/.rels"@);
    lemma_short_name("word/_rels/document.xml.rels"@);
    lemma_short_name("word/document.xml"@);
    lemma_short_name("docProps/core.xml"@);
}

proof fn lemma_test_pptx_package_names()
    ensures
        names_distinct(test_pptx_package()),
        crate::xml::utf8_len("[Content_Types].xml"@) <= 0xFFFF,
        crate::xml::utf8_len("_rels/.rels"@) <= 0xFFFF,
        crate::xml::utf8_len("ppt/presentation.xml"@) <= 0xFFFF,
        crate::xml::utf8_len("ppt/_rels/presentation.xml.rels"@) <= 0xFFFF,
        crate::xml::utf8_len("ppt/slides/slide1.xml"@) <= 0xFFFF,
        crate::xml::utf8_len("ppt/slides/_rels/slide1.xml.rels"@) <= 0xFFFF,
{
    reveal_strlit("[Content_Types].xml");
    reveal_strlit("_rels/.rels");
    reveal_strlit("ppt/presentation.xml");
    reveal_strlit("ppt/_rels/presentation.xml.rels");
    reveal_strlit("ppt/slides/slide1.xml");
    reveal_strlit("ppt/slides/_rels/slide1.xml.rels");
    let pkg = test_pptx_package();
    assert(pkg[0].0.len() != pkg[1].0.len());
    assert(pkg[0].0.len() != pkg[2].0.len());
    assert(pkg[0].0.len() != pkg[3].0.len());
    assert(pkg[0].0.len() != pkg[4].0.len());
    assert(pkg[0].0.len() != pkg[5].0.len());
    assert(pkg[1].0.len() != pkg[2].0.len());
    assert(pkg[1].0.len() != pkg[3].0.len());
    assert(pkg[1].0.len() != pkg[4].0.len());
    assert(pkg[1].0.len() != pkg[5].0.len());
    assert(pkg[2].0.len() != pkg[3].0.len());
    assert(pkg[2].0.len() != pkg[4].0.len());
    assert(pkg[2].0.len() != pkg[5].0.len());
    assert(pkg[3].0.len() != pkg[4].0.len());
    assert(pkg[3].0.len() != pkg[5].0.len());
    assert(pkg[4].0.len() != pkg[5].0.len());
    lemma_short_name("[Content_Types].xml"@);
    lemma_short_name("_rels/.rels"@);
    lemma_short_name("ppt/presentation.xml"@);
    lemma_short_name("ppt/_rels/presentation.xml.rels"@);
    lemma_short_name("ppt/slides/slide1.xml"@);
    lemma_short_name("ppt/slides/_rels/slide1.xml.rels"@);
}

proof fn lemma_docx_with_chart_package_names(document_xml: Seq<char>, chart_xml: Seq<char>)
    ensures
        names_distinct(docx_with_chart_package(document_xml, chart_xml)),
        crate::xml::utf8_len("[Content_Types].xml"@) <= 0xFFFF,
        crate::xml::utf8_len("_rels/.rels"@) <= 0xFFFF,
        crate::xml::utf8_len("word/_rels/document.xml.rels"@) <= 0xFFFF,
        crate::xml::utf8_len("word/document.xml"@) <= 0xFFFF,
        crate::xml::utf8_len("word/charts/chart1.xml"@) <= 0xFFFF,
{
    reveal_strlit("[Content_Types].xml");
    reveal_strlit("_rels/.rels");
    reveal_strlit("word/_rels/document.xml.rels");
    reveal_strlit("word/document.xml");
    reveal_strlit("word/charts/chart1.xml");
    let pkg = docx_with_chart_package(document_xml, chart_xml);
    assert(pkg[0].0.len() != pkg[1].0.len());
    assert(pkg[0].0.len() != pkg[2].0.len());
    assert(pkg[0].0.len() != pkg[3].0.len());
    assert(pkg[0].0.len() != pkg[4].0.len());
    assert(pkg[1].0.len() != pkg[2].0.len());
    assert(pkg[1].0.len() != pkg[3].0.len());
    assert(pkg[1].0.len() != pkg[4].0.len());
    assert(pkg[2].0.len() != pkg[3].0.len());
    assert(pkg[2].0.len() != pkg[4].0.len());
    assert(pkg[3].0.len() != pkg[4].0.len());
    lemma_short_name("[Content_Types].xml"@);
    lemma_short_name("_rels/.rels"@);
    lemma_short_name("word/_rels/document.xml.rels"@);
    lemma_short_name("word/document.xml"@);
    lemma_short_name("word/charts/chart1.xml"@);
}

proof fn lemma_docx_with_metadata_package_names(core_xml: Seq<char>)
    ensures
        names_distinct(docx_with_metadata_package(core_xml)),
        crate::xml::utf8_len("[Content_Types].xml"@) <= 0xFFFF,
        crate::xml::utf8_len("_rels/.rels"@) <= 0xFFFF,
        crate::xml::utf8_len("word/_rels/document.xml.rels"@) <= 0xFFFF,
        crate::xml::utf8_len("word/document.xml"@) <= 0xFFFF,
        crate::xml::utf8_len("docProps/core.xml"@) <= 0xFFFF,
{
    reveal_strlit("[Content_Types].xml");
    reveal_strlit("_rels/.rels");
    reveal_strlit("word/_rels/document.xml.rels");
    reveal_strlit("word/document.xml");
    reveal_strlit("docProps/core.xml");
    let pkg = docx_with_metadata_package(core_xml);
    assert(pkg[0].0.len() != pkg[1].0.len());
    assert(pkg[0].0.len() != pkg[2].0.len());
    assert(pkg[0].0.len() != pkg[3].0.len());
    assert(pkg[0].0.len() != pkg[4].0.len());
    assert(pkg[1].0.len() != pkg[2].0.len());
    assert(pkg[1].0.len() != pkg[3].0.len());
    assert(pkg[1].0.len() != pkg[4].0.len());
    assert(pkg[2].0.len() != pkg[3].0.len());
    assert(pkg[2].0.len() != pkg[4].0.len());
    assert(pkg[3].0[0] != pkg[4].0[0]);
    lemma_short_name("[Content_Types].xml"@);
    lemma_short_name("_rels/.rels"@);
    lemma_short_name("word/_rels/document.xml.rels"@);
    lemma_short_name("word/document.xml"@);
    lemma_short_name("docProps/core.xml"@);
}

proof fn lemma_docx_with_endnote_package_names(text: Seq<char>, endnote_id: usize, endnote_text: Seq<char>)
    ensures
        names_distinct(docx_with_endnote_package(text, endnote_id, endnote_text)),
        crate::xml::utf8_len("[Content_Types].xml"@) <= 0xFFFF,
        crate::xml::utf8_len("_rels/.rels"@) <= 0xFFFF,
        crate::xml::utf8_len("word/_rels/document.xml.rels"@) <= 0xFFFF,
        crate::xml::utf8_len("word/document.xml"@) <= 0xFFFF,
        crate::xml::utf8_len("word/endnotes.xml"@) <= 0xFFFF,
{
    reveal_strlit("[Content_Types].xml");
    reveal_strlit("_rels/.rels");
    reveal_strlit("word/_rels/document.xml.rels");
    reveal_strlit("word/document.xml");
    reveal_strlit("word/endnotes.xml");
    let pkg = docx_with_endnote_package(text, endnote_id, endnote_text);
    assert(pkg[0].0.len() != pkg[1].0.len());
    assert(pkg[0].0.len() != pkg[2].0.len());
    assert(pkg[0].0.len() != pkg[3].0.len());
    assert(pkg[0].0.len() != pkg[4].0.len());
    assert(pkg[1].0.len() != pkg[2].0.len());
    assert(pkg[1].0.len() != pkg[3].0.len());
    assert(pkg[1].0.len() != pkg[4].0.len());
    assert(pkg[2].0.len() != pkg[3].0.len());
    assert(pkg[2].0.len() != pkg[4].0.len());
    assert(pkg[3].0[5] != pkg[4].0[5]);
    lemma_short_name("[Content_Types].xml"@);
    lemma_short_name("_rels/.rels"@);
    lemma_short_name("word/_rels/document.xml.rels"@);
    lemma_short_name("word/document.xml"@);
    lemma_short_name("word/endnotes.xml"@);
}

proof fn lemma_test_pptx_with_chart_package_names(slide_cx_emu: i64, slide_cy_emu: i64, slide_xml: Seq<char>, chart_rid: Seq<char>, chart_xml: Seq<char>)
    ensures
        names_distinct(test_pptx_with_chart_package(slide_cx_emu, slide_cy_emu, slide_xml, chart_rid, chart_xml)),
        crate::xml::utf8_len("[Content_Types].xml"@) <= 0xFFFF,
        crate::xml::utf8_len("_rels/.rels"@) <= 0xFFFF,
        crate::xml::utf8_len("ppt/presentation.xml"@) <= 0xFFFF,
        crate::xml::utf8_len("ppt/_rels/presentation.xml.rels"@) <= 0xFFFF,
        crate::xml::utf8_len("ppt/slides/slide1.xml"@) <= 0xFFFF,
        crate::xml::utf8_len("ppt/slides/_rels/slide1.xml.rels"@) <= 0xFFFF,
        crate::xml::utf8_len("ppt/charts/chart1.xml"@) <= 0xFFFF,
{
    reveal_strlit("[Content_Types].xml");
    reveal_strlit("_rels/.rels");
    reveal_strlit("ppt/presentation.xml");
    reveal_strlit("ppt/_rels/presentation.xml.rels");
    reveal_strlit("ppt/slides/slide1.xml");
    reveal_strlit("ppt/slides/_rels/slide1.xml.rels");
    reveal_strlit("ppt/charts/chart1.xml");
    let pkg = test_pptx_with_chart_package(slide_cx_emu, slide_cy_emu, slide_xml, chart_rid, chart_xml);
    assert(pkg[0].0.len() != pkg[1].0.len());
    assert(pkg[0].0.len() != pkg[2].0.len());
    assert(pkg[0].0.len() != pkg[3].0.len());
    assert(pkg[0].0.len() != pkg[4].0.len());
    assert(pkg[0].0.len() != pkg[5].0.len());
    assert(pkg[0].0.len() != pkg[6].0.len());
    assert(pkg[1].0.len() != pkg[2].0.len());
    assert(pkg[1].0.len() != pkg[3].0.len());
    assert(pkg[1].0.len() != pkg[4].0.len());
    assert(pkg[1].0.len() != pkg[5].0.len());
    assert(pkg[1].0.len() != pkg[6].0.len());
    assert(pkg[2].0.len() != pkg[3].0.len());
    assert(pkg[2].0.len() != pkg[4].0.len());
    assert(pkg[2].0.len() != pkg[5].0.len());
    assert(pkg[2].0.len() != pkg[6].0.len());
    assert(pkg[3].0.len() != pkg[4].0.len());
    assert(pkg[3].0.len() != pkg[5].0.len());
    assert(pkg[3].0.len() != pkg[6].0.len());
    assert(pkg[4].0.len() != pkg[5].0.len());
    assert(pkg[4].0[4] != pkg[6].0[4]);
    assert(pkg[5].0.len() != pkg[6].0.len());
    lemma_short_name("[Content_Types].xml"@);
    lemma_short_name("_rels/.rels"@);
    lemma_short_name("ppt/presentation.xml"@);
    lemma_short_name("ppt/_rels/presentation.xml.rels"@);
    lemma_short_name("ppt/slides/slide1.xml"@);
    lemma_short_name("ppt/slides/_rels/slide1.xml.rels"@);
    lemma_short_name("ppt/charts/chart1.xml"@);
}

proof fn lemma_test_pptx_with_smartart_package_names(slide_cx_emu: i64, slide_cy_emu: i64, slide_xml: Seq<char>, data_rid: Seq<char>, data_xml: Seq<char>)
    ensures
        names_distinct(test_pptx_with_smartart_package(slide_cx_emu, slide_cy_emu, slide_xml, data_rid, data_xml)),
        crate::xml::utf8_len("[Content_Types].xml"@) <= 0xFFFF,
        crate::xml::utf8_len("_rels/.rels"@) <= 0xFFFF,
        crate::xml::utf8_len("ppt/presentation.xml"@) <= 0xFFFF,
        crate::xml::utf8_len("ppt/_rels/presentation.xml.rels"@) <= 0xFFFF,
        crate::xml::utf8_len("ppt/slides/slide1.xml"@) <= 0xFFFF,
        crate::xml::utf8_len("ppt/slides/_rels/slide1.xml.rels"@) <= 0xFFFF,
        crate::xml::utf8_len("ppt/diagrams/data1.xml"@) <= 0xFFFF,
{
    reveal_strlit("[Content_Types].xml");
    reveal_strlit("_rels/.rels");
    reveal_strlit("ppt/presentation.xml");
    reveal_strlit("ppt/_rels/presentation.xml.rels");
    reveal_strlit("ppt/slides/slide1.xml");
    reveal_strlit("ppt/slides/_rels/slide1.xml.rels");
    reveal_strlit("ppt/diagrams/data1.xml");
    let pkg = test_pptx_with_smartart_package(slide_cx_emu, slide_cy_emu, slide_xml, data_rid, data_xml);
    assert(pkg[0].0.len() != pkg[1].0.len());
    assert(pkg[0].0.len() != pkg[2].0.len());
    assert(pkg[0].0.len() != pkg[3].0.len());
    assert(pkg[0].0.len() != pkg[4].0.len());
    assert(pkg[0].0.len() != pkg[5].0.len());
    assert(pkg[0].0.len() != pkg[6].0.len());
    assert(pkg[1].0.len() != pkg[2].0.len());
    assert(pkg[1].0.len() != pkg[3].0.len());
    assert(pkg[1].0.len() != pkg[4].0.len());
    assert(pkg[1].0.len() != pkg[5].0.len());
    assert(pkg[1].0.len() != pkg[6].0.len());
    assert(pkg[2].0.len() != pkg[3].0.len());
    assert(pkg[2].0.len() != pkg[4].0.len());
    assert(pkg[2].0.len() != pkg[5].0.len());
    assert(pkg[2].0.len() != pkg[6].0.len());
    assert(pkg[3].0.len() != pkg[4].0.len());
    assert(pkg[3].0.len() != pkg[5].0.len());
    assert(pkg[3].0.len() != pkg[6].0.len());
    assert(pkg[4].0.len() != pkg[5].0.len());
    assert(pkg[4].0.len() != pkg[6].0.len());
    assert(pkg[5].0.len() != pkg[6].0.len());
    lemma_short_name("[Content_Types].xml"@);
    lemma_short_name("_rels/.rels"@);
    lemma_short_name("ppt/presentation.xml"@);
    lemma_short_name("ppt/_rels/presentation.xml.rels"@);
    lemma_short_name("ppt/slides/slide1.xml"@);
    lemma_short_name("ppt/slides/_rels/slide1.xml.rels"@);
    lemma_short_name("ppt/diagrams/data1.xml"@);
}

/// A minimal word-processing package whose one paragraph reads `Hello` and whose core properties
/// carry `title`.
/// It is owed whenever every part stays within the part limit; `None` only when the zip writer
/// reports an error.
pub fn build_docx_with_title(title: &str) -> (zip: Option<Vec<u8>>)
    ensures
        zip matches Some(z) ==> z@ == zip_written(docx_with_title_package(title@)),
        zip matches Some(z) ==> package_reads_back(z@, docx_with_title_package(title@)),
        parts_fit(docx_with_title_package(title@)) ==> zip is Some,
{
    let ghost pkg = docx_with_title_package(title@);
    proof {
        lemma_docx_with_title_package_names(title@);
        lemma_take_push(pkg, 0);
        lemma_take_push(pkg, 1);
        lemma_take_push(pkg, 2);
        lemma_take_push(pkg, 3);
        lemma_take_push(pkg, 4);
        assert(pkg.take(0) =~= Seq::<(Seq<char>, Seq<Seq<u8>>)>::empty());
    }
    let mut writer = zip_writer_new();
    if !add_text_file(&mut writer, "[Content_Types].xml", DOCX_CONTENT_TYPES) {
        proof {
            if parts_fit(pkg) {
                lemma_next_file_fits(pkg, 0);
            }
        }
        return None;
    }
    if !add_text_file(&mut writer, "_rels/.rels", DOCX_PACKAGE_RELS) {
        proof {
            if parts_fit(pkg) {
                lemma_next_file_fits(pkg, 1);
            }
        }
        return None;
    }
    if !add_text_file(&mut writer, "word/_rels/document.xml.rels", DOCX_EMPTY_DOCUMENT_RELS) {
        proof {
            if parts_fit(pkg) {
                lemma_next_file_fits(pkg, 2);
            }
        }
        return None;
    }
    if !add_text_file(&mut writer, "word/document.xml", DOCX_HELLO_DOCUMENT) {
        proof {
            if parts_fit(pkg) {
                lemma_next_file_fits(pkg, 3);
            }
        }
        return None;
    }
    let mut core_title = String::new();
    core_title.append(CORE_TITLE_HEAD);
    core_title.append(title);
    core_title.append(CORE_TITLE_TAIL);
    assert(core_title@ =~= core_title_xml(title@));
    if !add_text_file(&mut writer, "docProps/core.xml", core_title.as_str()) {
        proof {
            if parts_fit(pkg) {
                lemma_next_file_fits(pkg, 4);
            }
        }
        return None;
    }
    proof {
        if parts_fit(pkg) {
            assert(total_len(pkg[4].1) <= part_limit());
        }
    }
    zip_finish(writer)
}

/// A minimal presentation package: one slide with a text box reading `Hello from PPTX`.
/// It is owed whenever every part stays within the part limit; `None` only when the zip writer
/// reports an error.
pub fn build_test_pptx() -> (zip: Option<Vec<u8>>)
    ensures
        zip matches Some(z) ==> z@ == zip_written(test_pptx_package()),
        zip matches Some(z) ==> package_reads_back(z@, test_pptx_package()),
        parts_fit(test_pptx_package()) ==> zip is Some,
{
    let ghost pkg = test_pptx_package();
    proof {
        lemma_test_pptx_package_names();
        lemma_take_push(pkg, 0);
        lemma_take_push(pkg, 1);
        lemma_take_push(pkg, 2);
        lemma_take_push(pkg, 3);
        lemma_take_push(pkg, 4);
        lemma_take_push(pkg, 5);
        assert(pkg.take(0) =~= Seq::<(Seq<char>, Seq<Seq<u8>>)>::empty());
    }
    let mut writer = zip_writer_new();
    if !add_text_file(&mut writer, "[Content_Types].xml", PPTX_CONTENT_TYPES) {
        proof {
            if parts_fit(pkg) {
                lemma_next_file_fits(pkg, 0);
            }
        }
        return None;
    }
    if !add_text_file(&mut writer, "_rels/.rels", PPTX_PACKAGE_RELS) {
        proof {
            if parts_fit(pkg) {
                lemma_next_file_fits(pkg, 1);
            }
        }
        return None;
    }
    if !add_text_file(&mut writer, "ppt/presentation.xml", PPTX_PRESENTATION) {
        proof {
            if parts_fit(pkg) {
                lemma_next_file_fits(pkg, 2);
            }
        }
        return None;
    }
    if !add_text_file(&mut writer, "ppt/_rels/presentation.xml.rels", PPTX_PRESENTATION_RELS) {
        proof {
            if parts_fit(pkg) {
                lemma_next_file_fits(pkg, 3);
            }
        }
        return None;
    }
    if !add_text_file(&mut writer, "ppt/slides/slide1.xml", PPTX_HELLO_SLIDE) {
        proof {
            if parts_fit(pkg) {
                lemma_next_file_fits(pkg, 4);
            }
        }
        return None;
    }
    if !add_text_file(&mut writer, "ppt/slides/_rels/slide1.xml.rels", PPTX_EMPTY_SLIDE_RELS) {
        proof {
            if parts_fit(pkg) {
                lemma_next_file_fits(pkg, 5);
            }
        }
        return None;
    }
    proof {
        if parts_fit(pkg) {
            assert(total_len(pkg[5].1) <= part_limit());
        }
    }
    zip_finish(writer)
}

/// A word-processing package with `document_xml` as its body and `chart_xml` as chart part `rId4`.
/// It is owed whenever every part stays within the part limit; `None` only when the zip writer
/// reports an error.
pub fn build_docx_with_chart(document_xml: &str, chart_xml: &str) -> (zip: Option<Vec<u8>>)
    ensures
        zip matches Some(z) ==> z@ == zip_written(docx_with_chart_package(document_xml@, chart_xml@)),
        zip matches Some(z) ==> package_reads_back(z@, docx_with_chart_package(document_xml@, chart_xml@)),
        parts_fit(docx_with_chart_package(document_xml@, chart_xml@)) ==> zip is Some,
{
    let ghost pkg = docx_with_chart_package(document_xml@, chart_xml@);
    proof {
        lemma_docx_with_chart_package_names(document_xml@, chart_xml@);
        lemma_take_push(pkg, 0);
        lemma_take_push(pkg, 1);
        lemma_take_push(pkg, 2);
        lemma_take_push(pkg, 3);
        lemma_take_push(pkg, 4);
        assert(pkg.take(0) =~= Seq::<(Seq<char>, Seq<Seq<u8>>)>::empty());
    }
    let mut writer = zip_writer_new();
    if !add_text_file(&mut writer, "[Content_Types].xml", DOCX_CHART_CONTENT_TYPES) {
        proof {
            if parts_fit(pkg) {
                lemma_next_file_fits(pkg, 0);
            }
        }
        return None;
    }
    if !add_text_file(&mut writer, "_rels/.rels", DOCX_PACKAGE_RELS) {
        proof {
            if parts_fit(pkg) {
                lemma_next_file_fits(pkg, 1);
            }
        }
        return None;
    }
    if !add_text_file(&mut writer, "word/_rels/document.xml.rels", DOCX_CHART_DOCUMENT_RELS) {
        proof {
            if parts_fit(pkg) {
                lemma_next_file_fits(pkg, 2);
            }
        }
        return None;
    }
    if !add_text_file(&mut writer, "word/document.xml", document_xml) {
        proof {
            if parts_fit(pkg) {
                lemma_next_file_fits(pkg, 3);
            }
        }
        return None;
    }
    if !add_text_file(&mut writer, "word/charts/chart1.xml", chart_xml) {
        proof {
            if parts_fit(pkg) {
                lemma_next_file_fits(pkg, 4);
            }
        }
        return None;
    }
    proof {
        if parts_fit(pkg) {
            assert(total_len(pkg[4].1) <= part_limit());
        }
    }
    zip_finish(writer)
}

/// A minimal word-processing package whose one paragraph reads `Hello`, with `core_xml` as its core
/// properties.
/// It is owed whenever every part stays within the part limit; `None` only when the zip writer
/// reports an error.
pub fn build_docx_with_metadata(core_xml: &str) -> (zip: Option<Vec<u8>>)
    ensures
        zip matches Some(z) ==> z@ == zip_written(docx_with_metadata_package(core_xml@)),
        zip matches Some(z) ==> package_reads_back(z@, docx_with_metadata_package(core_xml@)),
        parts_fit(docx_with_metadata_package(core_xml@)) ==> zip is Some,
{
    let ghost pkg = docx_with_metadata_package(core_xml@);
    proof {
        lemma_docx_with_metadata_package_names(core_xml@);
        lemma_take_push(pkg, 0);
        lemma_take_push(pkg, 1);
        lemma_take_push(pkg, 2);
        lemma_take_push(pkg, 3);
        lemma_take_push(pkg, 4);
        assert(pkg.take(0) =~= Seq::<(Seq<char>, Seq<Seq<u8>>)>::empty());
    }
    let mut writer = zip_writer_new();
    if !add_text_file(&mut writer, "[Content_Types].xml", DOCX_CONTENT_TYPES) {
        proof {
            if parts_fit(pkg) {
                lemma_next_file_fits(pkg, 0);
            }
        }
        return None;
    }
    if !add_text_file(&mut writer, "_rels/.rels", DOCX_PACKAGE_RELS) {
        proof {
            if parts_fit(pkg) {
                lemma_next_file_fits(pkg, 1);
            }
        }
        return None;
    }
    if !add_text_file(&mut writer, "word/_rels/document.xml.rels", DOCX_EMPTY_DOCUMENT_RELS) {
        proof {
            if parts_fit(pkg) {
                lemma_next_file_fits(pkg, 2);
            }
        }
        return None;
    }
    if !add_text_file(&mut writer, "word/document.xml", DOCX_HELLO_DOCUMENT) {
        proof {
            if parts_fit(pkg) {
                lemma_next_file_fits(pkg, 3);
            }
        }
        return None;
    }
    if !add_text_file(&mut writer, "docProps/core.xml", core_xml) {
        proof {
            if parts_fit(pkg) {
                lemma_next_file_fits(pkg, 4);
            }
        }
        return None;
    }
    proof {
        if parts_fit(pkg) {
            assert(total_len(pkg[4].1) <= part_limit());
        }
    }
    zip_finish(writer)
}

/// A word-processing package with one paragraph, `text` followed by a reference to endnote
/// `endnote_id`, whose text is `endnote_text`.
/// It is owed whenever every part stays within the part limit; `None` only when the zip writer
/// reports an error.
pub fn build_docx_with_endnote(
    text: &str,
    endnote_id: usize,
    endnote_text: &str,
) -> (zip: Option<Vec<u8>>)
    ensures
        zip matches Some(z) ==> z@ == zip_written(
            docx_with_endnote_package(text@, endnote_id, endnote_text@),
        ),
        zip matches Some(z) ==> package_reads_back(z@, docx_with_endnote_package(text@, endnote_id, endnote_text@)),
        parts_fit(docx_with_endnote_package(text@, endnote_id, endnote_text@)) ==> zip is Some,
{
    let ghost pkg = docx_with_endnote_package(text@, endnote_id, endnote_text@);
    proof {
        lemma_docx_with_endnote_package_names(text@, endnote_id, endnote_text@);
        lemma_take_push(pkg, 0);
        lemma_take_push(pkg, 1);
        lemma_take_push(pkg, 2);
        lemma_take_push(pkg, 3);
        lemma_take_push(pkg, 4);
        assert(pkg.take(0) =~= Seq::<(Seq<char>, Seq<Seq<u8>>)>::empty());
    }
    let mut writer = zip_writer_new();
    if !add_text_file(&mut writer, "[Content_Types].xml", DOCX_ENDNOTE_CONTENT_TYPES) {
        proof {
            if parts_fit(pkg) {
                lemma_next_file_fits(pkg, 0);
            }
        }
        return None;
    }
    if !add_text_file(&mut writer, "_rels/.rels", DOCX_STANDALONE_PACKAGE_RELS) {
        proof {
            if parts_fit(pkg) {
                lemma_next_file_fits(pkg, 1);
            }
        }
        return None;
    }
    if !add_text_file(&mut writer, "word/_rels/document.xml.rels", DOCX_ENDNOTE_DOCUMENT_RELS) {
        proof {
            if parts_fit(pkg) {
                lemma_next_file_fits(pkg, 2);
            }
        }
        return None;
    }
    let mut endnote_document = String::new();
    endnote_document.append(ENDNOTE_DOCUMENT_HEAD);
    endnote_document.append(text);
    endnote_document.append(ENDNOTE_DOCUMENT_MIDDLE);
    push_unsigned_decimal(&mut endnote_document, endnote_id);
    endnote_document.append(ENDNOTE_DOCUMENT_TAIL);
    assert(endnote_document@ =~= endnote_document_xml(text@, endnote_id));
    if !add_text_file(&mut writer, "word/document.xml", endnote_document.as_str()) {
        proof {
            if parts_fit(pkg) {
                lemma_next_file_fits(pkg, 3);
            }
        }
        return None;
    }
    let mut endnotes = String::new();
    endnotes.append(ENDNOTES_HEAD);
    push_unsigned_decimal(&mut endnotes, endnote_id);
    endnotes.append(ENDNOTES_MIDDLE);
    endnotes.append(endnote_text);
    endnotes.append(ENDNOTES_TAIL);
    assert(endnotes@ =~= endnotes_xml(endnote_id, endnote_text@));
    if !add_text_file(&mut writer, "word/endnotes.xml", endnotes.as_str()) {
        proof {
            if parts_fit(pkg) {
                lemma_next_file_fits(pkg, 4);
            }
        }
        return None;
    }
    proof {
        if parts_fit(pkg) {
            assert(total_len(pkg[4].1) <= part_limit());
        }
    }
    zip_finish(writer)
}

/// A presentation package of one slide, `slide_xml`, on a slide of the given size (EMU), whose
/// relationship `chart_rid` points at chart part `chart_xml`.
/// It is owed whenever every part stays within the part limit; `None` only when the zip writer
/// reports an error.
pub fn build_test_pptx_with_chart(
    slide_cx_emu: i64,
    slide_cy_emu: i64,
    slide_xml: &str,
    chart_rid: &str,
    chart_xml: &str,
) -> (zip: Option<Vec<u8>>)
    ensures
        zip matches Some(z) ==> z@ == zip_written(
            test_pptx_with_chart_package(slide_cx_emu, slide_cy_emu, slide_xml@, chart_rid@, chart_xml@),
        ),
        zip matches Some(z) ==> package_reads_back(z@, test_pptx_with_chart_package(slide_cx_emu, slide_cy_emu, slide_xml@, chart_rid@, chart_xml@)),
        parts_fit(test_pptx_with_chart_package(slide_cx_emu, slide_cy_emu, slide_xml@, chart_rid@, chart_xml@)) ==> zip is Some,
{
    let ghost pkg = test_pptx_with_chart_package(slide_cx_emu, slide_cy_emu, slide_xml@, chart_rid@, chart_xml@);
    proof {
        lemma_test_pptx_with_chart_package_names(slide_cx_emu, slide_cy_emu, slide_xml@, chart_rid@, chart_xml@);
        lemma_take_push(pkg, 0);
        lemma_take_push(pkg, 1);
        lemma_take_push(pkg, 2);
        lemma_take_push(pkg, 3);
        lemma_take_push(pkg, 4);
        lemma_take_push(pkg, 5);
        lemma_take_push(pkg, 6);
        assert(pkg.take(0) =~= Seq::<(Seq<char>, Seq<Seq<u8>>)>::empty());
    }
    let mut writer = zip_writer_new();
    if !add_text_file(&mut writer, "[Content_Types].xml", PPTX_CONTENT_TYPES) {
        proof {
            if parts_fit(pkg) {
                lemma_next_file_fits(pkg, 0);
            }
        }
        return None;
    }
    if !add_text_file(&mut writer, "_rels/.rels", PPTX_PACKAGE_RELS) {
        proof {
            if parts_fit(pkg) {
                lemma_next_file_fits(pkg, 1);
            }
        }
        return None;
    }
    let mut sized_presentation = String::new();
    sized_presentation.append(SIZED_PRESENTATION_HEAD);
    push_signed_decimal(&mut sized_presentation, slide_cx_emu);
    sized_presentation.append(SIZED_PRESENTATION_MIDDLE);
    push_signed_decimal(&mut sized_presentation, slide_cy_emu);
    sized_presentation.append(SIZED_PRESENTATION_TAIL);
    assert(sized_presentation@ =~= sized_presentation_xml(slide_cx_emu, slide_cy_emu));
    if !add_text_file(&mut writer, "ppt/presentation.xml", sized_presentation.as_str()) {
        proof {
            if parts_fit(pkg) {
                lemma_next_file_fits(pkg, 2);
            }
        }
        return None;
    }
    if !add_text_file(&mut writer, "ppt/_rels/presentation.xml.rels", PPTX_PRESENTATION_RELS) {
        proof {
            if parts_fit(pkg) {
                lemma_next_file_fits(pkg, 3);
            }
        }
        return None;
    }
    if !add_text_file(&mut writer, "ppt/slides/slide1.xml", slide_xml) {
        proof {
            if parts_fit(pkg) {
                lemma_next_file_fits(pkg, 4);
            }
        }
        return None;
    }
    let mut chart_slide_rels = String::new();
    chart_slide_rels.append(CHART_SLIDE_RELS_HEAD);
    chart_slide_rels.append(chart_rid);
    chart_slide_rels.append(CHART_SLIDE_RELS_TAIL);
    assert(chart_slide_rels@ =~= chart_slide_rels_xml(chart_rid@));
    if !add_text_file(&mut writer, "ppt/slides/_rels/slide1.xml.rels", chart_slide_rels.as_str()) {
        proof {
            if parts_fit(pkg) {
                lemma_next_file_fits(pkg, 5);
            }
        }
        return None;
    }
    if !add_text_file(&mut writer, "ppt/charts/chart1.xml", chart_xml) {
        proof {
            if parts_fit(pkg) {
                lemma_next_file_fits(pkg, 6);
            }
        }
        return None;
    }
    proof {
        if parts_fit(pkg) {
            assert(total_len(pkg[6].1) <= part_limit());
        }
    }
    zip_finish(writer)
}

/// A presentation package of one slide, `slide_xml`, on a slide of the given size (EMU), whose
/// relationship `data_rid` points at SmartArt data part `data_xml`.
/// It is owed whenever every part stays within the part limit; `None` only when the zip writer
/// reports an error.
pub fn build_test_pptx_with_smartart(
    slide_cx_emu: i64,
    slide_cy_emu: i64,
    slide_xml: &str,
    data_rid: &str,
    data_xml: &str,
) -> (zip: Option<Vec<u8>>)
    ensures
        zip matches Some(z) ==> z@ == zip_written(
            test_pptx_with_smartart_package(slide_cx_emu, slide_cy_emu, slide_xml@, data_rid@, data_xml@),
        ),
        zip matches Some(z) ==> package_reads_back(z@, test_pptx_with_smartart_package(slide_cx_emu, slide_cy_emu, slide_xml@, data_rid@, data_xml@)),
        parts_fit(test_pptx_with_smartart_package(slide_cx_emu, slide_cy_emu, slide_xml@, data_rid@, data_xml@)) ==> zip is Some,
{
    let ghost pkg = test_pptx_with_smartart_package(slide_cx_emu, slide_cy_emu, slide_xml@, data_rid@, data_xml@);
    proof {
        lemma_test_pptx_with_smartart_package_names(slide_cx_emu, slide_cy_emu, slide_xml@, data_rid@, data_xml@);
        lemma_take_push(pkg, 0);
        lemma_take_push(pkg, 1);
        lemma_take_push(pkg, 2);
        lemma_take_push(pkg, 3);
        lemma_take_push(pkg, 4);
        lemma_take_push(pkg, 5);
        lemma_take_push(pkg, 6);
        assert(pkg.take(0) =~= Seq::<(Seq<char>, Seq<Seq<u8>>)>::empty());
    }
    let mut writer = zip_writer_new();
    if !add_text_file(&mut writer, "[Content_Types].xml", PPTX_CONTENT_TYPES) {
        proof {
            if parts_fit(pkg) {
                lemma_next_file_fits(pkg, 0);
            }
        }
        return None;
    }
    if !add_text_file(&mut writer, "_rels/.rels", PPTX_PACKAGE_RELS) {
        proof {
            if parts_fit(pkg) {
                lemma_next_file_fits(pkg, 1);
            }
        }
        return None;
    }
    let mut sized_presentation = String::new();
    sized_presentation.append(SIZED_PRESENTATION_HEAD);
    push_signed_decimal(&mut sized_presentation, slide_cx_emu);
    sized_presentation.append(SIZED_PRESENTATION_MIDDLE);
    push_signed_decimal(&mut sized_presentation, slide_cy_emu);
    sized_presentation.append(SIZED_PRESENTATION_TAIL);
    assert(sized_presentation@ =~= sized_presentation_xml(slide_cx_emu, slide_cy_emu));
    if !add_text_file(&mut writer, "ppt/presentation.xml", sized_presentation.as_str()) {
        proof {
            if parts_fit(pkg) {
                lemma_next_file_fits(pkg, 2);
            }
        }
        return None;
    }
    if !add_text_file(&mut writer, "ppt/_rels/presentation.xml.rels", PPTX_PRESENTATION_RELS) {
        proof {
            if parts_fit(pkg) {
                lemma_next_file_fits(pkg, 3);
            }
        }
        return None;
    }
    if !add_text_file(&mut writer, "ppt/slides/slide1.xml", slide_xml) {
        proof {
            if parts_fit(pkg) {
                lemma_next_file_fits(pkg, 4);
            }
        }
        return None;
    }
    let mut smartart_slide_rels = String::new();
    smartart_slide_rels.append(SMARTART_SLIDE_RELS_HEAD);
    smartart_slide_rels.append(data_rid);
    smartart_slide_rels.append(SMARTART_SLIDE_RELS_TAIL);
    assert(smartart_slide_rels@ =~= smartart_slide_rels_xml(data_rid@));
    if !add_text_file(&mut writer, "ppt/slides/_rels/slide1.xml.rels", smartart_slide_rels.as_str()) {
        proof {
            if parts_fit(pkg) {
                lemma_next_file_fits(pkg, 5);
            }
        }
        return None;
    }
    if !add_text_file(&mut writer, "ppt/diagrams/data1.xml", data_xml) {
        proof {
            if parts_fit(pkg) {
                lemma_next_file_fits(pkg, 6);
            }
        }
        return None;
    }
    proof {
        if parts_fit(pkg) {
            assert(total_len(pkg[6].1) <= part_limit());
        }
    }
    zip_finish(writer)
}

} // verus!

verus! {

/// A chart part up to its title.
pub const TITLED_CHART_HEAD: &'static str = "<?xml version=\"1.0\" encoding=\"UTF-8\"?><c:chartSpace xmlns:c=\"http://schemas.openxmlformats.org/drawingml/2006/chart\" xmlns:a=\"http://schemas.openxmlformats.org/drawingml/2006/main\"><c:chart><c:title><c:tx><c:rich><a:bodyPr/><a:lstStyle/><a:p><a:r><a:t>";

/// A chart part between its title and its category points.
pub const TITLED_CHART_CATEGORIES: &'static str = "</a:t></a:r></a:p></c:rich></c:tx></c:title><c:plotArea><c:barChart><c:ser><c:tx><c:strRef><c:strCache><c:pt idx=\"0\"><c:v>Series 1</c:v></c:pt></c:strCache></c:strRef></c:tx><c:cat><c:strRef><c:strCache>";

/// A chart part between its category points and its value points.
pub const TITLED_CHART_VALUES: &'static str = "</c:strCache></c:strRef></c:cat><c:val><c:numRef><c:numCache>";

/// A chart part after its value points.
pub const TITLED_CHART_TAIL: &'static str = "</c:numCache></c:numRef></c:val></c:ser></c:barChart></c:plotArea></c:chart></c:chartSpace>";

/// `<c:pt idx="{index}"><c:v>{text}</c:v></c:pt>` for each entry of `texts`, indexed from zero.
pub open spec fn chart_points_xml(texts: Seq<&str>) -> Seq<char>
    decreases texts.len(),
{
    if texts.len() == 0 {
        Seq::empty()
    } else {
        chart_points_xml(texts.drop_last()) + "<c:pt idx=\""@ + decimal((texts.len() - 1) as nat)
            + "\"><c:v>"@ + texts.last()@ + "</c:v></c:pt>"@
    }
}

/// Appends the points for `texts`.
fn push_chart_points(out: &mut String, texts: &[&str])
    ensures
        final(out)@ == old(out)@ + chart_points_xml(texts@),
{
    let ghost start = out@;
    let mut i: usize = 0;
    while i < texts.len()
        invariant
            i <= texts@.len(),
            out@ == start + chart_points_xml(texts@.take(i as int)),
        decreases texts.len() - i,
    {
        out.append("<c:pt idx=\"");
        push_unsigned_decimal(out, i);
        out.append("\"><c:v>");
        out.append(texts[i]);
        out.append("</c:v></c:pt>");
        assert(texts@.take(i as int + 1).drop_last() =~= texts@.take(i as int));
        assert(out@ =~= start + chart_points_xml(texts@.take(i as int + 1)));
        i = i + 1;
    }
    assert(texts@.take(texts@.len() as int) =~= texts@);
}

/// A bar-chart part titled `title`: one series, `Series 1`, with a category point per entry of
/// `categories` and a value point per entry of `values`, each value already written as text.
pub fn make_bar_chart_xml(title: &str, categories: &[&str], values: &[&str]) -> (xml: String)
    ensures
        xml@ == TITLED_CHART_HEAD@ + title@ + TITLED_CHART_CATEGORIES@ + chart_points_xml(categories@)
            + TITLED_CHART_VALUES@ + chart_points_xml(values@) + TITLED_CHART_TAIL@,
{
    let mut xml = String::from_str(TITLED_CHART_HEAD);
    xml.append(title);
    xml.append(TITLED_CHART_CATEGORIES);
    push_chart_points(&mut xml, categories);
    xml.append(TITLED_CHART_VALUES);
    push_chart_points(&mut xml, values);
    xml.append(TITLED_CHART_TAIL);
    xml
}

} // verus!
