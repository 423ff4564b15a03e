use office2pdf::extract::{extract_docx_fonts, extract_embedded_fonts, extract_guid_from_font_path, extract_pptx_fonts, Format};
use office2pdf::fixtures::{
    make_bar_chart_xml, make_chart_graphic_frame, make_fake_ttf, make_smartart_data_xml, make_smartart_graphic_frame,
    make_table_graphic_frame, make_table_row, make_test_png, make_test_svg,
};
use office2pdf::font_data::{deobfuscate_font_data, detect_font_format, FontFileFormat};
use office2pdf::font_tables::{parse_docx_embedded_font_entries, parse_pptx_embedded_font_list, parse_rels_id_target};
use office2pdf::guid::parse_guid_to_bytes;
use office2pdf::naming::{sanitize_font_component, unique_font_filename, UsedFontNames};
use office2pdf::package::{
    build_docx_with_embedded_font, build_docx_with_named_embedded_font, build_pptx_with_embedded_font,
    build_pptx_with_named_embedded_font,
};

use std::io::{Cursor, Write};
use zip::write::SimpleFileOptions;
use zip::ZipWriter;

const GUID: &str = "{7B19B49C-2336-4F82-AAD2-5D2BAE389560}";
const KEY: [u8; 16] = [
    0x9C, 0xB4, 0x19, 0x7B, 0x36, 0x23, 0x82, 0x4F, 0xAA, 0xD2, 0x5D, 0x2B, 0xAE, 0x38, 0x95, 0x60,
];

fn zip_of(files: &[(&str, &[u8])]) -> Vec<u8> {
    let mut zip = ZipWriter::new(Cursor::new(Vec::new()));
    for (name, bytes) in files {
        zip.start_file(*name, SimpleFileOptions::default()).unwrap();
        zip.write_all(bytes).unwrap();
    }
    zip.finish().unwrap().into_inner()
}

fn obfuscated(font: &[u8], guid: &str) -> Vec<u8> {
    let mut bytes = font.to_vec();
    deobfuscate_font_data(&mut bytes, &parse_guid_to_bytes(guid).unwrap());
    bytes
}

fn png_crc32(chunk_type: &[u8], data: &[u8]) -> u32 {
    let mut crc: u32 = 0xFFFF_FFFF;
    for &byte in chunk_type.iter().chain(data.iter()) {
        crc ^= byte as u32;
        for _ in 0..8 {
            if crc & 1 != 0 {
                crc = (crc >> 1) ^ 0xEDB8_8320;
            } else {
                crc >>= 1;
            }
        }
    }
    crc ^ 0xFFFF_FFFF
}

// ---------------------------------------------------------------------------
// Fixtures
// ---------------------------------------------------------------------------

#[test]
fn fake_ttf_starts_with_the_signature_and_counts_offsets() {
    assert_eq!(make_fake_ttf(8), vec![0x00, 0x01, 0x00, 0x00, 4, 5, 6, 7]);
    let big = make_fake_ttf(300);
    assert_eq!(big.len(), 300);
    assert_eq!(big[255], 255);
    assert_eq!(big[256], 0);
    assert_eq!(big[260], 4);
    assert_eq!(detect_font_format(&big), Some(FontFileFormat::Ttf));
}

#[test]
fn test_svg_is_a_one_pixel_red_rectangle() {
    assert_eq!(
        make_test_svg(),
        br##"<svg xmlns="http://www.w3.org/2000/svg" width="1" height="1" viewBox="0 0 1 1"><rect width="1" height="1" fill="#ff0000"/></svg>"##.to_vec()
    );
}

#[test]
fn table_row_holds_one_cell_per_entry() {
    assert_eq!(make_table_row(&[]), r#"<a:tr h="370840"></a:tr>"#);
    let mut expected = String::from(r#"<a:tr h="370840">"#);
    for text in ["A", "B c"] {
        expected.push_str(&format!(
            r#"<a:tc><a:txBody><a:bodyPr/><a:p><a:r><a:rPr lang="en-US"/><a:t>{text}</a:t></a:r></a:p></a:txBody><a:tcPr/></a:tc>"#
        ));
    }
    expected.push_str("</a:tr>");
    assert_eq!(make_table_row(&["A", "B c"]), expected);
}

#[test]
fn table_graphic_frame_writes_geometry_and_grid() {
    let rows = make_table_row(&["x"]);
    let (x, y, cx, cy) = (-914400i64, 0i64, 9_223_372_036_854_775_807i64, i64::MIN);
    let widths = [1_828_800i64, -5, 0];
    let mut grid = String::new();
    for width in widths {
        grid.push_str(&format!(r#"<a:gridCol w="{width}"/>"#));
    }
    let expected = format!(
        r#"<p:graphicFrame><p:nvGraphicFramePr><p:cNvPr id="4" name="Table"/><p:cNvGraphicFramePr><a:graphicFrameLocks noGrp="1"/></p:cNvGraphicFramePr><p:nvPr/></p:nvGraphicFramePr><p:xfrm><a:off x="{x}" y="{y}"/><a:ext cx="{cx}" cy="{cy}"/></p:xfrm><a:graphic><a:graphicData uri="http://schemas.openxmlformats.org/drawingml/2006/table"><a:tbl><a:tblPr/><a:tblGrid>{grid}</a:tblGrid>{rows}</a:tbl></a:graphicData></a:graphic></p:graphicFrame>"#
    );
    assert_eq!(make_table_graphic_frame(x, y, cx, cy, &widths, &rows), expected);
    assert!(expected.contains(r#"<a:off x="-914400" y="0"/>"#));
    assert!(expected.contains(r#"cy="-9223372036854775808""#));
}

#[test]
fn chart_graphic_frame_references_the_chart() {
    let (x, y, cx, cy) = (100i64, 200i64, 3000i64, 4000i64);
    let chart_rid = "rId7";
    let expected = format!(
        r#"<p:graphicFrame><p:nvGraphicFramePr><p:cNvPr id="5" name="Chart"/><p:cNvGraphicFramePr><a:graphicFrameLocks noGrp="1"/></p:cNvGraphicFramePr><p:nvPr/></p:nvGraphicFramePr><p:xfrm><a:off x="{x}" y="{y}"/><a:ext cx="{cx}" cy="{cy}"/></p:xfrm><a:graphic><a:graphicData uri="http://schemas.openxmlformats.org/drawingml/2006/chart"><c:chart xmlns:c="http://schemas.openxmlformats.org/drawingml/2006/chart" r:id="{chart_rid}"/></a:graphicData></a:graphic></p:graphicFrame>"#
    );
    assert_eq!(make_chart_graphic_frame(x, y, cx, cy, chart_rid), expected);
}

#[test]
fn smartart_graphic_frame_references_the_data_model() {
    let (x, y, cx, cy) = (0i64, -1i64, 10i64, 20i64);
    let dm_rid = "rId3";
    let expected = format!(
        r#"<p:graphicFrame><p:nvGraphicFramePr><p:cNvPr id="4" name="SmartArt"/><p:cNvGraphicFramePr><a:graphicFrameLocks noGrp="1"/></p:cNvGraphicFramePr><p:nvPr/></p:nvGraphicFramePr><p:xfrm><a:off x="{x}" y="{y}"/><a:ext cx="{cx}" cy="{cy}"/></p:xfrm><a:graphic><a:graphicData uri="http://schemas.openxmlformats.org/drawingml/2006/diagram"><dgm:relIds xmlns:dgm="http://schemas.openxmlformats.org/drawingml/2006/diagram" r:dm="{dm_rid}" r:lo="rId99" r:qs="rId98" r:cs="rId97"/></a:graphicData></a:graphic></p:graphicFrame>"#
    );
    assert_eq!(make_smartart_graphic_frame(x, y, cx, cy, dm_rid), expected);
}

#[test]
fn smartart_data_model_numbers_nodes_and_connections() {
    let items = ["Plan", "Build", "Ship"];
    let mut expected = String::from(
        r#"<?xml version="1.0" encoding="UTF-8"?><dgm:dataModel xmlns:dgm="http://schemas.openxmlformats.org/drawingml/2006/diagram" xmlns:a="http://schemas.openxmlformats.org/drawingml/2006/main"><dgm:ptLst>"#,
    );
    expected.push_str(
        r#"<dgm:pt modelId="0" type="doc"><dgm:prSet/><dgm:spPr/><dgm:t><a:bodyPr/><a:p><a:r><a:t>Root</a:t></a:r></a:p></dgm:t></dgm:pt>"#,
    );
    for (index, item) in items.iter().enumerate() {
        expected.push_str(&format!(
            r#"<dgm:pt modelId="{}" type="node"><dgm:prSet/><dgm:spPr/><dgm:t><a:bodyPr/><a:p><a:r><a:t>{item}</a:t></a:r></a:p></dgm:t></dgm:pt>"#,
            index + 1
        ));
    }
    expected.push_str("</dgm:ptLst><dgm:cxnLst>");
    for index in 0..items.len() {
        expected.push_str(&format!(
            r#"<dgm:cxn modelId="{}" type="parOf" srcId="0" destId="{}"/>"#,
            100 + index,
            index + 1
        ));
    }
    expected.push_str("</dgm:cxnLst></dgm:dataModel>");
    assert_eq!(make_smartart_data_xml(&items), expected);
    assert!(make_smartart_data_xml(&[]).contains("<dgm:cxnLst></dgm:cxnLst>"));
}

#[test]
fn test_png_chunks_carry_their_crcs() {
    let png = make_test_png();
    assert_eq!(&png[..8], &[0x89, 0x50, 0x4E, 0x47, 0x0D, 0x0A, 0x1A, 0x0A]);
    assert_eq!(png.len(), 8 + (12 + 13) + (12 + 15) + 12);
    let ihdr_data = &png[16..29];
    assert_eq!(&png[8..16], &[0, 0, 0, 13, b'I', b'H', b'D', b'R']);
    assert_eq!(&png[29..33], &png_crc32(b"IHDR", ihdr_data).to_be_bytes());
    let idat_data = &png[41..56];
    assert_eq!(&png[33..41], &[0, 0, 0, 15, b'I', b'D', b'A', b'T']);
    assert_eq!(&png[56..60], &png_crc32(b"IDAT", idat_data).to_be_bytes());
    assert_eq!(&png[60..], &[0, 0, 0, 0, b'I', b'E', b'N', b'D', 0xAE, 0x42, 0x60, 0x82]);
}

#[test]
fn bar_chart_part_holds_one_revenue_series() {
    let xml = make_bar_chart_xml();
    assert!(xml.starts_with(r#"<?xml version="1.0" encoding="UTF-8"?>"#));
    assert!(xml.contains("<a:t>Sales</a:t>"));
    assert!(xml.contains("<c:v>Revenue</c:v>"));
    assert!(xml.contains(r#"<c:pt idx="1"><c:v>200</c:v></c:pt>"#));
    assert!(xml.ends_with("</c:chartSpace>"));
}

// ---------------------------------------------------------------------------
// GUIDs, deobfuscation and format detection
// ---------------------------------------------------------------------------

#[test]
fn deobfuscating_twice_gives_back_the_font() {
    let original = make_fake_ttf(100);
    let mut bytes = original.clone();
    deobfuscate_font_data(&mut bytes, &KEY);
    assert_ne!(bytes, original);
    assert_eq!(&bytes[32..], &original[32..]);
    deobfuscate_font_data(&mut bytes, &KEY);
    assert_eq!(bytes, original);
}

#[test]
fn deobfuscation_xors_both_halves_of_the_prefix_with_the_key() {
    let mut bytes = vec![0u8; 40];
    deobfuscate_font_data(&mut bytes, &KEY);
    assert_eq!(&bytes[..16], &KEY);
    assert_eq!(&bytes[16..32], &KEY);
    assert_eq!(&bytes[32..], &[0u8; 8]);
    let mut empty: Vec<u8> = Vec::new();
    deobfuscate_font_data(&mut empty, &KEY);
    assert!(empty.is_empty());
}

#[test]
fn guid_parsing_ignores_case_and_braces() {
    let key = parse_guid_to_bytes(GUID);
    assert_eq!(key, Some(KEY));
    assert_eq!(parse_guid_to_bytes("7b19b49c-2336-4f82-aad2-5d2bae389560"), key);
    assert_eq!(parse_guid_to_bytes("{{7B19B49C-2336-4F82-AAD2-5D2BAE389560}}"), key);
    assert_eq!(parse_guid_to_bytes("7B19B49C-2336-4F82-AAD2-5D2BAE389560}"), key);
}

#[test]
fn guid_groups_follow_from_str_radix() {
    // A leading `+` is accepted by `from_str_radix`; the last group still needs 12 characters.
    assert_eq!(parse_guid_to_bytes("+7B19B49C-2336-4F82-AAD2-5D2BAE389560"), Some(KEY));
    assert_eq!(
        parse_guid_to_bytes("7B19B49C-2336-4F82-AAD2-+D2BAE389560"),
        Some([0x9C, 0xB4, 0x19, 0x7B, 0x36, 0x23, 0x82, 0x4F, 0xAA, 0xD2, 0x0D, 0x2B, 0xAE, 0x38, 0x95, 0x60])
    );
    assert_eq!(
        parse_guid_to_bytes("1-2-3-4-000000000005"),
        Some([1, 0, 0, 0, 2, 0, 3, 0, 0, 4, 0, 0, 0, 0, 0, 5])
    );
    // Too wide for its group, too short, empty or signed groups.
    assert_eq!(parse_guid_to_bytes("1FFFFFFFF-2336-4F82-AAD2-5D2BAE389560"), None);
    assert_eq!(parse_guid_to_bytes("7B19B49C-12336-4F82-AAD2-5D2BAE389560"), None);
    assert_eq!(parse_guid_to_bytes("7B19B49C-2336-4F82-AAD2-5D2BAE38956"), None);
    assert_eq!(parse_guid_to_bytes("7B19B49C-2336-4F82-AAD2-5D2BAE3895600"), None);
    assert_eq!(parse_guid_to_bytes("7B19B49C--4F82-AAD2-5D2BAE389560"), None);
    assert_eq!(parse_guid_to_bytes("-7B19B49C-2336-4F82-AAD2-5D2BAE389560"), None);
    assert_eq!(parse_guid_to_bytes("7B19B49C-2336-4F82-AAD2-5D2BAE389560-0"), None);
}

#[test]
fn font_format_extensions() {
    assert_eq!(FontFileFormat::Ttf.extension(), "ttf");
    assert_eq!(FontFileFormat::Otf.extension(), "otf");
    assert_eq!(FontFileFormat::Ttc.extension(), "ttc");
    assert_eq!(detect_font_format(b"OTT"), None);
    assert_eq!(detect_font_format(b"ttcfxx"), Some(FontFileFormat::Ttc));
    assert_eq!(detect_font_format(&[0x00, 0x01, 0x00, 0x01]), None);
}

#[test]
fn font_path_guid_needs_braces_and_the_fntdata_suffix() {
    assert_eq!(
        extract_guid_from_font_path(&format!("ppt/fonts/{GUID}.fntdata")),
        Some(GUID.to_string())
    );
    assert_eq!(extract_guid_from_font_path(&format!("{GUID}.fntdata")), Some(GUID.to_string()));
    assert_eq!(extract_guid_from_font_path("ppt/fonts/7B19B49C-2336-4F82-AAD2-5D2BAE389560.fntdata"), None);
    assert_eq!(extract_guid_from_font_path(&format!("ppt/fonts/{GUID}.odttf")), None);
    assert_eq!(extract_guid_from_font_path("ppt/fonts/{short}.fntdata"), None);
    assert_eq!(extract_guid_from_font_path(&format!("ppt/{GUID}/font.fntdata")), None);
}

// ---------------------------------------------------------------------------
// File names
// ---------------------------------------------------------------------------

#[test]
fn sanitising_twice_changes_nothing() {
    for raw in ["Times New Roman", "../../etc/passwd", "CON", "  a\0b  ", "", "héllo.ttf", "LPT1"] {
        let once = sanitize_font_component(raw);
        assert_eq!(sanitize_font_component(&once), once, "{raw:?}");
    }
    assert_eq!(sanitize_font_component("CON"), "_CON");
    assert_eq!(sanitize_font_component("_CON"), "_CON");
}

#[test]
fn sanitising_cuts_before_trimming_and_checks_device_names_after() {
    let mut raw = " ".repeat(63);
    raw.push_str("AB");
    assert_eq!(sanitize_font_component(&raw), "A");
    assert_eq!(sanitize_font_component("  com9  "), "_com9");
    assert_eq!(sanitize_font_component("a:b"), "b");
    assert_eq!(sanitize_font_component("trailing/"), "font");
}

#[test]
fn unique_names_without_a_dot_get_a_ttf_extension() {
    let mut used = UsedFontNames::new();
    assert_eq!(unique_font_filename(&mut used, "Arial"), "Arial");
    assert_eq!(unique_font_filename(&mut used, "Arial"), "Arial-2.ttf");
    assert_eq!(unique_font_filename(&mut used, "Arial-2.ttf"), "Arial-2-2.ttf");
    assert_eq!(unique_font_filename(&mut used, "a.b.otf"), "a.b.otf");
    assert_eq!(unique_font_filename(&mut used, "a.b.otf"), "a.b-2.otf");
}

#[test]
fn unique_names_skip_numbers_already_taken() {
    let mut used = UsedFontNames::new();
    assert_eq!(unique_font_filename(&mut used, "F-regular-2.ttf"), "F-regular-2.ttf");
    assert_eq!(unique_font_filename(&mut used, "F-regular.ttf"), "F-regular.ttf");
    assert_eq!(unique_font_filename(&mut used, "F-regular.ttf"), "F-regular-3.ttf");
}

// ---------------------------------------------------------------------------
// Parts of the package
// ---------------------------------------------------------------------------

#[test]
fn later_relationship_with_the_same_id_wins() {
    let rels = parse_rels_id_target(
        r#"<Relationships><Relationship Id="rId1" Target="a.xml"/><Relationship Id="rId2" Target="b.xml"></Relationship><Relationship Id="rId1" Target="c.xml"/><Relationship Target="d.xml"/></Relationships>"#,
    );
    assert_eq!(rels.get(&"rId1".to_string()), Some(&"c.xml".to_string()));
    assert_eq!(rels.get(&"rId2".to_string()), Some(&"b.xml".to_string()));
    assert_eq!(rels.get(&"rId3".to_string()), None);
}

#[test]
fn docx_font_table_falls_back_to_unprefixed_attributes() {
    let entries = parse_docx_embedded_font_entries(
        r#"<w:fonts><w:font name="Plain"><w:embedBold fontKey="{AAAAAAAA-BBBB-CCCC-DDDD-EEEEEEEEEEEE}" r:id="rId9"/><w:embedItalic r:id="rId8"/></w:font></w:fonts>"#,
    );
    assert_eq!(entries.len(), 1);
    assert_eq!(entries[0].font_name, "Plain");
    assert_eq!(entries[0].variants.len(), 1);
    assert_eq!(entries[0].variants[0].style, "bold");
    assert_eq!(entries[0].variants[0].r_id, "rId9");
    assert_eq!(entries[0].variants[0].font_key, "{AAAAAAAA-BBBB-CCCC-DDDD-EEEEEEEEEEEE}");
}

#[test]
fn pptx_font_without_typeface_or_variants_is_dropped() {
    let entries = parse_pptx_embedded_font_list(
        r#"<p:embeddedFontLst><p:embeddedFont><p:regular r:id="rId1"/></p:embeddedFont><p:embeddedFont><p:font typeface="Empty"/></p:embeddedFont><p:embeddedFont><p:font typeface="A&amp;B"/><p:italic r:id="rId2"/><p:other r:id="rId3"/></p:embeddedFont></p:embeddedFontLst>"#,
    );
    assert_eq!(entries.len(), 1);
    assert_eq!(entries[0].typeface, "A&B");
    assert_eq!(entries[0].variants.len(), 1);
    assert_eq!(entries[0].variants[0].style, "italic");
    assert_eq!(entries[0].variants[0].r_id, "rId2");
}

// ---------------------------------------------------------------------------
// Extraction
// ---------------------------------------------------------------------------

#[test]
fn repeated_typefaces_get_distinct_file_names() {
    let guid2 = "{AAAAAAAA-BBBB-CCCC-DDDD-EEEEEEEEEEEE}";
    let font_a = make_fake_ttf(64);
    let mut font_b = make_fake_ttf(48);
    font_b[..4].copy_from_slice(b"OTTO");
    let presentation = r#"<p:presentation><p:embeddedFontLst><p:embeddedFont><p:font typeface="Dup"/><p:regular r:id="rId1"/></p:embeddedFont><p:embeddedFont><p:font typeface="Dup"/><p:regular r:id="rId2"/><p:bold r:id="rMissing"/></p:embeddedFont></p:embeddedFontLst></p:presentation>"#;
    let rels = format!(
        r#"<Relationships><Relationship Id="rId1" Target="fonts/{GUID}.fntdata"/><Relationship Id="rId2" Target="/ppt/fonts/{guid2}.fntdata"/></Relationships>"#
    );
    let data = zip_of(&[
        ("ppt/presentation.xml", presentation.as_bytes()),
        ("ppt/_rels/presentation.xml.rels", rels.as_bytes()),
        (&format!("ppt/fonts/{GUID}.fntdata"), &obfuscated(&font_a, GUID)),
        (&format!("ppt/fonts/{guid2}.fntdata"), &obfuscated(&font_b, guid2)),
    ]);
    let files = extract_pptx_fonts(&data).unwrap();
    assert_eq!(files.len(), 2);
    assert_eq!(files[0].file_name, "Dup-regular.ttf");
    assert_eq!(files[0].data, font_a);
    assert_eq!(files[1].file_name, "Dup-regular.otf");
    assert_eq!(files[1].data, font_b);

    let same = zip_of(&[
        ("ppt/presentation.xml", presentation.as_bytes()),
        ("ppt/_rels/presentation.xml.rels", format!(r#"<Relationships><Relationship Id="rId1" Target="fonts/{GUID}.fntdata"/><Relationship Id="rId2" Target="fonts/{GUID}.fntdata"/></Relationships>"#).as_bytes()),
        (&format!("ppt/fonts/{GUID}.fntdata"), &obfuscated(&font_a, GUID)),
    ]);
    let files = extract_embedded_fonts(&same, Format::Pptx).unwrap();
    assert_eq!(files.len(), 2);
    assert_eq!(files[0].file_name, "Dup-regular.ttf");
    assert_eq!(files[1].file_name, "Dup-regular-2.ttf");
    assert_eq!(files[1].data, font_a);
}

#[test]
fn built_packages_give_their_font_back() {
    let font = make_fake_ttf(40);
    let pptx = build_pptx_with_named_embedded_font(&font, GUID, "Noto Sans").unwrap();
    let files = extract_embedded_fonts(&pptx, Format::Pptx).unwrap();
    assert_eq!(files.len(), 1);
    assert_eq!(files[0].file_name, "Noto Sans-regular.ttf");
    assert_eq!(files[0].data, font);

    let docx = build_docx_with_named_embedded_font(&font, GUID, "CON").unwrap();
    let files = extract_docx_fonts(&docx).unwrap();
    assert_eq!(files.len(), 1);
    assert_eq!(files[0].file_name, "_CON-regular.ttf");
    assert_eq!(files[0].data, font);

    // The packaged font part is obfuscated: its first bytes are not the TTF signature.
    let default_pptx = build_pptx_with_embedded_font(&font, GUID).unwrap();
    assert_ne!(default_pptx, pptx);
    let default_docx = build_docx_with_embedded_font(&font, GUID).unwrap();
    let files = extract_embedded_fonts(&default_docx, Format::Docx).unwrap();
    assert_eq!(files[0].file_name, "TestFont-regular.ttf");
    assert_ne!(obfuscated(&font, GUID), font);
}

#[test]
fn built_packages_are_deterministic() {
    let font = make_fake_ttf(64);
    assert_eq!(
        build_pptx_with_embedded_font(&font, GUID).unwrap(),
        build_pptx_with_embedded_font(&font, GUID).unwrap()
    );
    assert_eq!(
        build_docx_with_embedded_font(&font, GUID).unwrap(),
        build_docx_with_embedded_font(&font, GUID).unwrap()
    );
}

#[test]
fn extraction_gives_nothing_without_a_readable_package() {
    assert!(extract_embedded_fonts(b"not a zip", Format::Pptx).is_none());
    assert!(extract_embedded_fonts(b"not a zip", Format::Docx).is_none());
    assert!(extract_embedded_fonts(&[], Format::Xlsx).is_none());
    let pptx = build_pptx_with_embedded_font(&make_fake_ttf(64), GUID).unwrap();
    assert!(extract_embedded_fonts(&pptx, Format::Docx).is_none());
    assert!(extract_embedded_fonts(&pptx, Format::Xlsx).is_none());
}

#[test]
fn extraction_gives_nothing_when_no_font_part_is_recovered() {
    let presentation = r#"<p:presentation><p:embeddedFontLst><p:embeddedFont><p:font typeface="X"/><p:regular r:id="rId1"/></p:embeddedFont></p:embeddedFontLst></p:presentation>"#;
    // No relationships part.
    let data = zip_of(&[("ppt/presentation.xml", presentation.as_bytes())]);
    assert!(extract_pptx_fonts(&data).is_none());
    // The relationship points at a part that is missing.
    let rels = format!(r#"<Relationships><Relationship Id="rId1" Target="fonts/{GUID}.fntdata"/></Relationships>"#);
    let data = zip_of(&[
        ("ppt/presentation.xml", presentation.as_bytes()),
        ("ppt/_rels/presentation.xml.rels", rels.as_bytes()),
    ]);
    assert!(extract_pptx_fonts(&data).is_none());
    // The target is not named after a GUID.
    let rels = r#"<Relationships><Relationship Id="rId1" Target="fonts/font1.fntdata"/></Relationships>"#;
    let data = zip_of(&[
        ("ppt/presentation.xml", presentation.as_bytes()),
        ("ppt/_rels/presentation.xml.rels", rels.as_bytes()),
        ("ppt/fonts/font1.fntdata", &make_fake_ttf(64)),
    ]);
    assert!(extract_pptx_fonts(&data).is_none());
}

#[test]
fn docx_font_with_a_bad_key_is_skipped() {
    let table = r#"<w:fonts><w:font w:name="Bad"><w:embedRegular w:fontKey="not-a-guid" r:id="rId1"/></w:font><w:font w:name="Good"><w:embedBold w:fontKey="{7B19B49C-2336-4F82-AAD2-5D2BAE389560}" r:id="rId2"/></w:font></w:fonts>"#;
    let rels = r#"<Relationships><Relationship Id="rId1" Target="fonts/font1.odttf"/><Relationship Id="rId2" Target="/word/fonts/font2.odttf"/></Relationships>"#;
    let font = make_fake_ttf(80);
    let data = zip_of(&[
        ("word/fontTable.xml", table.as_bytes()),
        ("word/_rels/fontTable.xml.rels", rels.as_bytes()),
        ("word/fonts/font1.odttf", &font),
        ("word/fonts/font2.odttf", &obfuscated(&font, GUID)),
    ]);
    let files = extract_docx_fonts(&data).unwrap();
    assert_eq!(files.len(), 1);
    assert_eq!(files[0].file_name, "Good-bold.ttf");
    assert_eq!(files[0].data, font);
}

#[test]
fn sanitising_ignores_everything_before_the_last_separator() {
    for prefix in ["", "a", "../..", "C:", "/abs/dir", r"..\x"] {
        for sep in ["/", "\\", ":"] {
            for name in ["Arial", "  Noto Sans ", "con", "", "x.y"] {
                assert_eq!(
                    sanitize_font_component(&format!("{prefix}{sep}{name}")),
                    sanitize_font_component(name),
                    "{prefix:?} {sep:?} {name:?}"
                );
            }
        }
    }
}
