use office2pdf::samples::{
    build_docx_with_chart, build_docx_with_endnote, build_docx_with_metadata, build_docx_with_title, build_test_pptx,
    build_test_pptx_with_chart, build_test_pptx_with_smartart,
};

use std::io::{Cursor, Read};
use zip::ZipArchive;

/// Every part of the archive, in order: name and text (binary parts lossily).
fn parts(data: &[u8]) -> Vec<(String, String)> {
    let mut archive = ZipArchive::new(Cursor::new(data)).unwrap();
    let mut out = Vec::new();
    for i in 0..archive.len() {
        let mut entry = archive.by_index(i).unwrap();
        let name = entry.name().to_string();
        let mut bytes = Vec::new();
        entry.read_to_end(&mut bytes).unwrap();
        out.push((name, String::from_utf8_lossy(&bytes).into_owned()));
    }
    out
}

fn names(parts: &[(String, String)]) -> Vec<&str> {
    parts.iter().map(|(n, _)| n.as_str()).collect()
}

const DOCX_HELLO: &str = r#"<?xml version="1.0" encoding="UTF-8" standalone="yes"?>
<w:document xmlns:w="http://schemas.openxmlformats.org/wordprocessingml/2006/main">
    <w:body>
        <w:p><w:r><w:t>Hello</w:t></w:r></w:p>
        <w:sectPr/>
    </w:body>
</w:document>"#;

#[test]
fn docx_with_title_carries_the_title() {
    let p = parts(&build_docx_with_title("Quarterly & Co").unwrap());
    assert_eq!(
        names(&p),
        vec!["[Content_Types].xml", "_rels/.rels", "word/_rels/document.xml.rels", "word/document.xml", "docProps/core.xml"]
    );
    assert_eq!(p[3].1, DOCX_HELLO);
    let title = "Quarterly & Co";
    assert_eq!(
        p[4].1,
        format!(
            r#"<?xml version="1.0" encoding="UTF-8" standalone="yes"?>
<cp:coreProperties xmlns:cp="http://schemas.openxmlformats.org/package/2006/metadata/core-properties"
    xmlns:dc="http://purl.org/dc/elements/1.1/">
  <dc:title>{title}</dc:title>
</cp:coreProperties>"#
        )
    );
    assert!(p[1].1.contains(r#"Target="word/document.xml""#));
}

#[test]
fn docx_with_metadata_keeps_the_core_properties_verbatim() {
    let core = "<cp:coreProperties/>";
    let p = parts(&build_docx_with_metadata(core).unwrap());
    assert_eq!(p.len(), 5);
    assert_eq!(p[3].1, DOCX_HELLO);
    assert_eq!(p[4], ("docProps/core.xml".to_string(), core.to_string()));
    let empty = parts(&build_docx_with_metadata("").unwrap());
    assert_eq!(empty[4], ("docProps/core.xml".to_string(), String::new()));
}

#[test]
fn docx_with_chart_links_the_chart_part() {
    let p = parts(&build_docx_with_chart("<w:document/>", "<c:chartSpace/>").unwrap());
    assert_eq!(
        names(&p),
        vec!["[Content_Types].xml", "_rels/.rels", "word/_rels/document.xml.rels", "word/document.xml", "word/charts/chart1.xml"]
    );
    assert!(p[0].1.contains(r#"<Override PartName="/word/charts/chart1.xml""#));
    assert!(p[2].1.contains(r#"Id="rId4""#) && p[2].1.contains(r#"Target="charts/chart1.xml""#));
    assert_eq!(p[3].1, "<w:document/>");
    assert_eq!(p[4].1, "<c:chartSpace/>");
}

#[test]
fn docx_with_endnote_numbers_reference_and_note_alike() {
    let (text, endnote_id, endnote_text) = ("Body text", 42usize, "This is an endnote.");
    let p = parts(&build_docx_with_endnote(text, endnote_id, endnote_text).unwrap());
    assert_eq!(names(&p)[4], "word/endnotes.xml");
    assert_eq!(
        p[3].1,
        format!(
            r#"<?xml version="1.0" encoding="UTF-8" standalone="yes"?>
<w:document xmlns:w="http://schemas.openxmlformats.org/wordprocessingml/2006/main"
            xmlns:r="http://schemas.openxmlformats.org/officeDocument/2006/relationships">
  <w:body>
    <w:p>
      <w:r><w:t xml:space="preserve">{text}</w:t></w:r>
      <w:r>
        <w:rPr><w:rStyle w:val="EndnoteReference"/></w:rPr>
        <w:endnoteReference w:id="{endnote_id}"/>
      </w:r>
    </w:p>
  </w:body>
</w:document>"#
        )
    );
    assert_eq!(
        p[4].1,
        format!(
            r#"<?xml version="1.0" encoding="UTF-8" standalone="yes"?>
<w:endnotes xmlns:w="http://schemas.openxmlformats.org/wordprocessingml/2006/main">
  <w:endnote w:id="{endnote_id}">
    <w:p>
      <w:r><w:t xml:space="preserve">{endnote_text}</w:t></w:r>
    </w:p>
  </w:endnote>
</w:endnotes>"#
        )
    );
    let zero = parts(&build_docx_with_endnote("", 0, "").unwrap());
    assert!(zero[3].1.contains(r#"<w:endnoteReference w:id="0"/>"#));
}

#[test]
fn test_pptx_has_one_hello_slide() {
    let p = parts(&build_test_pptx().unwrap());
    assert_eq!(
        names(&p),
        vec![
            "[Content_Types].xml",
            "_rels/.rels",
            "ppt/presentation.xml",
            "ppt/_rels/presentation.xml.rels",
            "ppt/slides/slide1.xml",
            "ppt/slides/_rels/slide1.xml.rels"
        ]
    );
    assert!(p[2].1.contains(r#"<p:sldSz cx="9144000" cy="6858000"/>"#));
    assert!(p[4].1.contains("<a:t>Hello from PPTX</a:t>"));
    assert_eq!(
        p[5].1,
        r#"<?xml version="1.0" encoding="UTF-8"?><Relationships xmlns="http://schemas.openxmlformats.org/package/2006/relationships"></Relationships>"#
    );
}

#[test]
fn pptx_with_chart_sizes_the_slide_and_links_the_chart() {
    let (slide_cx_emu, slide_cy_emu) = (12_192_000i64, -6_858_000i64);
    let p = parts(&build_test_pptx_with_chart(slide_cx_emu, slide_cy_emu, "<p:sld/>", "rId7", "<c:chartSpace/>").unwrap());
    assert_eq!(names(&p)[6], "ppt/charts/chart1.xml");
    assert_eq!(
        p[2].1,
        format!(
            r#"<?xml version="1.0" encoding="UTF-8"?><p:presentation xmlns:a="http://schemas.openxmlformats.org/drawingml/2006/main" xmlns:r="http://schemas.openxmlformats.org/officeDocument/2006/relationships" xmlns:p="http://schemas.openxmlformats.org/presentationml/2006/main"><p:sldSz cx="{slide_cx_emu}" cy="{slide_cy_emu}"/><p:sldIdLst><p:sldId id="256" r:id="rId2"/></p:sldIdLst></p:presentation>"#
        )
    );
    assert_eq!(p[4].1, "<p:sld/>");
    let chart_rid = "rId7";
    assert_eq!(
        p[5].1,
        format!(
            r#"<?xml version="1.0" encoding="UTF-8"?><Relationships xmlns="http://schemas.openxmlformats.org/package/2006/relationships"><Relationship Id="{chart_rid}" Type="http://schemas.openxmlformats.org/officeDocument/2006/relationships/chart" Target="../charts/chart1.xml"/></Relationships>"#
        )
    );
    assert_eq!(p[6].1, "<c:chartSpace/>");
}

#[test]
fn pptx_with_smartart_links_the_data_model() {
    let p = parts(&build_test_pptx_with_smartart(9_144_000, 6_858_000, "<p:sld/>", "rId5", "<dgm:dataModel/>").unwrap());
    assert_eq!(names(&p)[6], "ppt/diagrams/data1.xml");
    assert!(p[2].1.contains(r#"<p:sldSz cx="9144000" cy="6858000"/>"#));
    let data_rid = "rId5";
    assert_eq!(
        p[5].1,
        format!(
            r#"<?xml version="1.0" encoding="UTF-8"?><Relationships xmlns="http://schemas.openxmlformats.org/package/2006/relationships"><Relationship Id="{data_rid}" Type="http://schemas.microsoft.com/office/2007/relationships/diagramData" Target="../diagrams/data1.xml"/></Relationships>"#
        )
    );
    assert_eq!(p[6].1, "<dgm:dataModel/>");
}

use office2pdf::splice::splice_picture_drawing;
use std::io::Write;
use zip::write::SimpleFileOptions;
use zip::ZipWriter;

fn workbook(parts: &[(&str, &[u8])]) -> Vec<u8> {
    let mut zip = ZipWriter::new(Cursor::new(Vec::new()));
    for (name, bytes) in parts {
        zip.start_file(*name, SimpleFileOptions::default()).unwrap();
        zip.write_all(bytes).unwrap();
    }
    zip.finish().unwrap().into_inner()
}

fn bytes_of(data: &[u8], name: &str) -> Vec<u8> {
    let mut archive = ZipArchive::new(Cursor::new(data)).unwrap();
    let mut entry = archive.by_name(name).unwrap();
    let mut out = Vec::new();
    entry.read_to_end(&mut out).unwrap();
    out
}

#[test]
fn splice_adds_a_drawing_to_the_first_sheet() {
    let sheet = r#"<worksheet><sheetData/></worksheet>"#;
    let content_types = r#"<Types><Default Extension="xml" ContentType="application/xml"/></Types>"#;
    let data = workbook(&[
        ("[Content_Types].xml", content_types.as_bytes()),
        ("xl/workbook.xml", b"<workbook/>"),
        ("xl/worksheets/sheet1.xml", sheet.as_bytes()),
    ]);
    let out = splice_picture_drawing(&data).unwrap();
    let p = parts(&out);
    assert_eq!(
        names(&p),
        vec![
            "[Content_Types].xml",
            "xl/workbook.xml",
            "xl/worksheets/sheet1.xml",
            "xl/worksheets/_rels/sheet1.xml.rels",
            "xl/drawings/drawing1.xml",
            "xl/drawings/_rels/drawing1.xml.rels",
            "xl/media/image1.png"
        ]
    );
    assert_eq!(
        p[0].1,
        content_types.replace(
            "</Types>",
            r#"<Default Extension="png" ContentType="image/png"/><Override PartName="/xl/drawings/drawing1.xml" ContentType="application/vnd.openxmlformats-officedocument.drawing+xml"/></Types>"#
        )
    );
    assert_eq!(p[1].1, "<workbook/>");
    assert_eq!(p[2].1, r#"<worksheet><sheetData/><drawing r:id="rIdDrawing1"/></worksheet>"#);
    assert_eq!(
        p[3].1,
        r#"<?xml version="1.0" encoding="UTF-8" standalone="yes"?>
<Relationships xmlns="http://schemas.openxmlformats.org/package/2006/relationships"><Relationship Id="rIdDrawing1" Type="http://schemas.openxmlformats.org/officeDocument/2006/relationships/drawing" Target="../drawings/drawing1.xml"/></Relationships>"#
    );
    assert!(p[4].1.contains("<a:blip r:embed=\"rId1\"/>"));
    assert!(p[5].1.contains(r#"Target="../media/image1.png""#));
    let png = bytes_of(&out, "xl/media/image1.png");
    assert_eq!(png.len(), 67);
    assert_eq!(&png[..8], &[0x89, 0x50, 0x4E, 0x47, 0x0D, 0x0A, 0x1A, 0x0A]);
    assert_eq!(&png[63..], &[0xAE, 0x42, 0x60, 0x82]);
}

#[test]
fn splice_extends_existing_sheet_relationships_and_replaces_every_occurrence() {
    let rels = r#"<Relationships><Relationship Id="rId1" Target="../printerSettings1.bin"/></Relationships>"#;
    let data = workbook(&[
        ("xl/worksheets/_rels/sheet1.xml.rels", rels.as_bytes()),
        ("xl/worksheets/sheet1.xml", "<worksheet>é</worksheet></worksheet>".as_bytes()),
        ("xl/worksheets/sheet2.xml", b"<worksheet></worksheet>"),
    ]);
    let out = splice_picture_drawing(&data).unwrap();
    let p = parts(&out);
    assert_eq!(
        names(&p),
        vec![
            "xl/worksheets/_rels/sheet1.xml.rels",
            "xl/worksheets/sheet1.xml",
            "xl/worksheets/sheet2.xml",
            "xl/drawings/drawing1.xml",
            "xl/drawings/_rels/drawing1.xml.rels",
            "xl/media/image1.png"
        ]
    );
    assert_eq!(
        p[0].1,
        r#"<Relationships><Relationship Id="rId1" Target="../printerSettings1.bin"/><Relationship Id="rIdDrawing1" Type="http://schemas.openxmlformats.org/officeDocument/2006/relationships/drawing" Target="../drawings/drawing1.xml"/></Relationships>"#
    );
    assert_eq!(
        p[1].1,
        r#"<worksheet>é<drawing r:id="rIdDrawing1"/></worksheet><drawing r:id="rIdDrawing1"/></worksheet>"#
    );
    assert_eq!(p[2].1, "<worksheet></worksheet>");
}

#[test]
fn splice_refuses_what_it_cannot_read() {
    assert!(splice_picture_drawing(b"not a zip").is_none());
    let data = workbook(&[("xl/worksheets/sheet1.xml", &[0xFF, 0xFE, 0x00])]);
    assert!(splice_picture_drawing(&data).is_none());
    // Bytes that are not UTF-8 are copied as they are when the part needs no edit.
    let data = workbook(&[("xl/media/other.bin", &[0xFF, 0xFE, 0x00])]);
    let out = splice_picture_drawing(&data).unwrap();
    assert_eq!(bytes_of(&out, "xl/media/other.bin"), vec![0xFF, 0xFE, 0x00]);
}

#[test]
fn spliced_entries_read_back_by_name_and_index_even_with_non_ascii_names() {
    let data = workbook(&[
        ("xl/worksheets/sheet1.xml", b"<worksheet></worksheet>"),
        ("xl/m\u{e9}dia/\u{fc}n\u{ef}.bin", &[0x00, 0x01, 0x02]),
        ("xl/empty.bin", b""),
    ]);
    let out = splice_picture_drawing(&data).unwrap();
    let p = parts(&out);
    assert_eq!(p.len(), 7);
    assert_eq!(p[1].0, "xl/m\u{e9}dia/\u{fc}n\u{ef}.bin");
    assert_eq!(bytes_of(&out, "xl/m\u{e9}dia/\u{fc}n\u{ef}.bin"), vec![0x00, 0x01, 0x02]);
    assert_eq!(bytes_of(&out, "xl/empty.bin"), Vec::<u8>::new());
}

use office2pdf::splice::{inject_before_worksheet_close, rewrite_first_styles_font};

#[test]
fn injection_lands_before_every_worksheet_end() {
    let data = workbook(&[
        ("xl/workbook.xml", b"<workbook></worksheet>"),
        ("xl/worksheets/sheet1.xml", b"<worksheet><sheetData/></worksheet>"),
        ("xl/worksheets/sheet2.xml", b"<worksheet/></worksheet>x</worksheet>"),
        ("xl/worksheets/_rels/sheet1.xml.rels", b"</worksheet>"),
        ("xl/worksheets/notes.txt", b"</worksheet>"),
    ]);
    let insertion = r#"<printOptions gridLines="1"/>"#;
    let out = inject_before_worksheet_close(&data, insertion).unwrap();
    let p = parts(&out);
    assert_eq!(p.len(), 5);
    assert_eq!(p[0].1, "<workbook></worksheet>");
    assert_eq!(p[1].1, r#"<worksheet><sheetData/><printOptions gridLines="1"/></worksheet>"#);
    assert_eq!(
        p[2].1,
        "<worksheet/></worksheet>x</worksheet>".replace("</worksheet>", &format!("{insertion}</worksheet>"))
    );
    assert_eq!(p[3].1, "</worksheet>");
    assert_eq!(p[4].1, "</worksheet>");
    assert!(inject_before_worksheet_close(b"", insertion).is_none());
    let bad = workbook(&[("xl/worksheets/sheet1.xml", &[0xC3])]);
    assert!(inject_before_worksheet_close(&bad, insertion).is_none());
}

#[test]
fn first_style_font_is_replaced_and_the_rest_kept() {
    let styles = r#"<styleSheet><fonts count="2"><font><sz val="11"/><name val="Calibri"/></font><font><b/></font></fonts></styleSheet>"#;
    let data = workbook(&[("xl/styles.xml", styles.as_bytes()), ("xl/workbook.xml", b"<workbook/>")]);
    let size_pt = 10.5f64;
    let out = rewrite_first_styles_font(&data, "Carlito", &format!("{size_pt}")).unwrap();
    let p = parts(&out);
    assert_eq!(
        p[0].1,
        r#"<styleSheet><fonts count="2"><font><sz val="10.5"/><name val="Carlito"/></font><font><b/></font></fonts></styleSheet>"#
    );
    assert_eq!(p[1].1, "<workbook/>");
    let no_font = workbook(&[("xl/styles.xml", b"<styleSheet/>")]);
    assert!(rewrite_first_styles_font(&no_font, "Carlito", "11").is_none());
    let unclosed = workbook(&[("xl/styles.xml", b"<font><sz/>")]);
    assert!(rewrite_first_styles_font(&unclosed, "Carlito", "11").is_none());
    let without_styles = workbook(&[("xl/workbook.xml", b"<workbook/>")]);
    assert_eq!(parts(&rewrite_first_styles_font(&without_styles, "A", "1").unwrap())[0].1, "<workbook/>");
}

fn bar_chart_with_float_values(title: &str, categories: &[&str], values: &[f64]) -> String {
    let mut category_xml = String::new();
    for (index, category) in categories.iter().enumerate() {
        category_xml.push_str(&format!(r#"<c:pt idx="{index}"><c:v>{category}</c:v></c:pt>"#));
    }
    let mut value_xml = String::new();
    for (index, value) in values.iter().enumerate() {
        value_xml.push_str(&format!(r#"<c:pt idx="{index}"><c:v>{value}</c:v></c:pt>"#));
    }
    format!(
        r#"<?xml version="1.0" encoding="UTF-8"?><c:chartSpace xmlns:c="http://schemas.openxmlformats.org/drawingml/2006/chart" xmlns:a="http://schemas.openxmlformats.org/drawingml/2006/main"><c:chart><c:title><c:tx><c:rich><a:bodyPr/><a:lstStyle/><a:p><a:r><a:t>{title}</a:t></a:r></a:p></c:rich></c:tx></c:title><c:plotArea><c:barChart><c:ser><c:tx><c:strRef><c:strCache><c:pt idx="0"><c:v>Series 1</c:v></c:pt></c:strCache></c:strRef></c:tx><c:cat><c:strRef><c:strCache>{category_xml}</c:strCache></c:strRef></c:cat><c:val><c:numRef><c:numCache>{value_xml}</c:numCache></c:numRef></c:val></c:ser></c:barChart></c:plotArea></c:chart></c:chartSpace>"#
    )
}

#[test]
fn titled_bar_chart_indexes_categories_and_values() {
    let values = [100.0f64, 250.5, -3.0];
    let texts: Vec<String> = values.iter().map(|v| v.to_string()).collect();
    let refs: Vec<&str> = texts.iter().map(|s| s.as_str()).collect();
    let categories = ["Q1", "Q2", "Q3"];
    assert_eq!(
        office2pdf::samples::make_bar_chart_xml("Revenue", &categories, &refs),
        bar_chart_with_float_values("Revenue", &categories, &values)
    );
    let empty = office2pdf::samples::make_bar_chart_xml("", &[], &[]);
    assert!(empty.contains("<c:strCache></c:strCache></c:strRef></c:cat>"));
    assert!(empty.contains("<c:numCache></c:numCache>"));
}

use office2pdf::splice::add_anchored_chart;

fn anchored_drawing(anchor_row: u32) -> String {
    format!(
        r#"<?xml version="1.0" encoding="UTF-8"?>
<xdr:wsDr xmlns:xdr="http://schemas.openxmlformats.org/drawingml/2006/spreadsheetDrawing"
          xmlns:a="http://schemas.openxmlformats.org/drawingml/2006/main"
          xmlns:c="http://schemas.openxmlformats.org/drawingml/2006/chart"
          xmlns:r="http://schemas.openxmlformats.org/officeDocument/2006/relationships">
  <xdr:twoCellAnchor>
    <xdr:from>
      <xdr:col>2</xdr:col>
      <xdr:colOff>0</xdr:colOff>
      <xdr:row>{anchor_row}</xdr:row>
      <xdr:rowOff>0</xdr:rowOff>
    </xdr:from>
    <xdr:to>
      <xdr:col>8</xdr:col>
      <xdr:colOff>0</xdr:colOff>
      <xdr:row>{}</xdr:row>
      <xdr:rowOff>0</xdr:rowOff>
    </xdr:to>
    <xdr:graphicFrame>
      <xdr:nvGraphicFramePr>
        <xdr:cNvPr id="1" name="Chart 1"/>
        <xdr:cNvGraphicFramePr/>
      </xdr:nvGraphicFramePr>
      <xdr:xfrmPr/>
      <a:graphic>
        <a:graphicData uri="http://schemas.openxmlformats.org/drawingml/2006/chart">
          <c:chart r:id="rId1"/>
        </a:graphicData>
      </a:graphic>
    </xdr:graphicFrame>
    <xdr:clientData/>
  </xdr:twoCellAnchor>
</xdr:wsDr>"#,
        anchor_row + 15
    )
}

#[test]
fn anchored_chart_goes_to_the_first_named_worksheet() {
    let rels = r#"<Relationships><Relationship Id="rId3" Target="styles.xml"/><Relationship Id="rId1" Target="worksheets/data.xml"/><Relationship Id="rId2" Target="worksheets/sheet1.xml"/></Relationships>"#;
    let base = workbook(&[
        ("xl/_rels/workbook.xml.rels", rels.as_bytes()),
        ("xl/worksheets/data.xml", b"<worksheet/>"),
    ]);
    let out = add_anchored_chart(&base, "<c:chartSpace/>", 4).unwrap();
    let p = parts(&out);
    assert_eq!(
        names(&p),
        vec![
            "xl/_rels/workbook.xml.rels",
            "xl/worksheets/data.xml",
            "xl/worksheets/_rels/data.xml.rels",
            "xl/drawings/drawing1.xml",
            "xl/drawings/_rels/drawing1.xml.rels",
            "xl/charts/chart1.xml"
        ]
    );
    assert_eq!(p[0].1, rels);
    assert_eq!(p[1].1, "<worksheet/>");
    assert!(p[2].1.contains(r#"Target="../drawings/drawing1.xml""#));
    assert_eq!(p[3].1, anchored_drawing(4));
    assert!(p[4].1.contains(r#"Target="../charts/chart1.xml""#));
    assert_eq!(p[5].1, "<c:chartSpace/>");
}

#[test]
fn anchored_chart_falls_back_to_the_first_sheet() {
    let base = workbook(&[("xl/workbook.xml", b"<workbook/>")]);
    let out = add_anchored_chart(&base, "", 0).unwrap();
    let p = parts(&out);
    assert_eq!(names(&p)[1], "xl/worksheets/_rels/sheet1.xml.rels");
    assert_eq!(p[2].1, anchored_drawing(0));
    // A relationships part that is already there cannot be written twice.
    let taken = workbook(&[("xl/worksheets/_rels/sheet1.xml.rels", b"<Relationships/>")]);
    assert!(add_anchored_chart(&taken, "", 0).is_none());
    let bad = workbook(&[("xl/_rels/workbook.xml.rels", &[0xFF])]);
    assert!(add_anchored_chart(&bad, "", 0).is_none());
    assert!(add_anchored_chart(b"", "", 0).is_none());
}
