use office2pdf::extract::{extract_embedded_fonts, extract_guid_from_font_path, Format};
use office2pdf::font_data::{deobfuscate_font_data, detect_font_format, FontFileFormat};
use office2pdf::font_tables::{parse_docx_embedded_font_entries, parse_pptx_embedded_font_list};
use office2pdf::guid::parse_guid_to_bytes;
use office2pdf::fixtures::make_fake_ttf;
use office2pdf::naming::{sanitize_font_component, unique_font_filename, UsedFontNames};
use office2pdf::package;
use office2pdf::package::{build_docx_with_embedded_font, build_pptx_with_embedded_font};

use std::io::{Cursor, Write};
use zip::write::SimpleFileOptions;
use zip::ZipWriter;

const KEY: [u8; 16] = [
    0x9C, 0xB4, 0x19, 0x7B, 0x36, 0x23, 0x82, 0x4F, 0xAA, 0xD2, 0x5D, 0x2B, 0xAE, 0x38, 0x95, 0x60,
];

#[test]
fn parse_guid_to_bytes_valid_braces() {
    let key = parse_guid_to_bytes("{7B19B49C-2336-4F82-AAD2-5D2BAE389560}").unwrap();
    assert_eq!(key, KEY);
}

#[test]
fn parse_guid_to_bytes_no_braces() {
    let key = parse_guid_to_bytes("7B19B49C-2336-4F82-AAD2-5D2BAE389560").unwrap();
    assert_eq!(key, KEY);
}

#[test]
fn parse_guid_to_bytes_lowercase() {
    let key = parse_guid_to_bytes("{7b19b49c-2336-4f82-aad2-5d2bae389560}").unwrap();
    assert_eq!(key, KEY);
}

#[test]
fn parse_guid_to_bytes_invalid_returns_none() {
    assert!(parse_guid_to_bytes("not-a-guid").is_none());
    assert!(parse_guid_to_bytes("").is_none());
    assert!(parse_guid_to_bytes("{ZZZZZZZZ-0000-0000-0000-000000000000}").is_none());
    assert!(parse_guid_to_bytes("{7B19B49C-2336-4F82-AAD2}").is_none());
}

#[test]
fn deobfuscate_font_data_roundtrip() {
    let original: Vec<u8> = {
        let mut v = vec![0x00, 0x01, 0x00, 0x00];
        v.extend(vec![0xAB; 28]);
        v.extend(vec![0xCD; 32]);
        v
    };
    let key: [u8; 16] = KEY;
    let mut obfuscated = original.clone();
    for i in 0..32 {
        obfuscated[i] ^= key[i % 16];
    }
    assert_ne!(&obfuscated[..32], &original[..32]);
    assert_eq!(&obfuscated[32..], &original[32..]);
    deobfuscate_font_data(&mut obfuscated, &key);
    assert_eq!(obfuscated, original);
}

#[test]
fn deobfuscate_font_data_short_data() {
    let key: [u8; 16] = [0x01; 16];
    let mut data = vec![0x00; 10];
    deobfuscate_font_data(&mut data, &key);
    assert_eq!(data, vec![0x01; 10]);
}

#[test]
fn detect_font_format_ttf() {
    let data = [0x00, 0x01, 0x00, 0x00, 0xFF, 0xFF];
    assert_eq!(detect_font_format(&data), Some(FontFileFormat::Ttf));
}

#[test]
fn detect_font_format_otf() {
    let data = b"OTTO\x00\x01";
    assert_eq!(detect_font_format(data), Some(FontFileFormat::Otf));
}

#[test]
fn detect_font_format_ttc() {
    let data = b"ttcf\x00\x02\x00\x00";
    assert_eq!(detect_font_format(data), Some(FontFileFormat::Ttc));
}

#[test]
fn detect_font_format_unknown() {
    assert_eq!(detect_font_format(b"XXXX"), None);
    assert_eq!(detect_font_format(b""), None);
    assert_eq!(detect_font_format(b"OT"), None);
}

#[test]
fn parse_pptx_embedded_font_list_single_font() {
    let xml = r#"<?xml version="1.0" encoding="UTF-8"?>
<p:presentation xmlns:p="http://schemas.openxmlformats.org/presentationml/2006/main"
                xmlns:r="http://schemas.openxmlformats.org/officeDocument/2006/relationships">
  <p:embeddedFontLst>
    <p:embeddedFont>
      <p:font typeface="Pretendard" pitchFamily="34" charset="2"/>
      <p:regular r:id="rId5"/>
    </p:embeddedFont>
  </p:embeddedFontLst>
</p:presentation>"#;

    let entries = parse_pptx_embedded_font_list(xml);
    assert_eq!(entries.len(), 1);
    assert_eq!(entries[0].typeface, "Pretendard");
    assert_eq!(entries[0].variants.len(), 1);
    assert_eq!(entries[0].variants[0].style, "regular");
    assert_eq!(entries[0].variants[0].r_id, "rId5");
}

#[test]
fn parse_pptx_embedded_font_list_multiple_variants() {
    let xml = r#"<?xml version="1.0" encoding="UTF-8"?>
<p:presentation xmlns:p="http://schemas.openxmlformats.org/presentationml/2006/main"
                xmlns:r="http://schemas.openxmlformats.org/officeDocument/2006/relationships">
  <p:embeddedFontLst>
    <p:embeddedFont>
      <p:font typeface="TestFont"/>
      <p:regular r:id="rId10"/>
      <p:bold r:id="rId11"/>
      <p:italic r:id="rId12"/>
      <p:boldItalic r:id="rId13"/>
    </p:embeddedFont>
  </p:embeddedFontLst>
</p:presentation>"#;

    let entries = parse_pptx_embedded_font_list(xml);
    assert_eq!(entries.len(), 1);
    assert_eq!(entries[0].typeface, "TestFont");
    assert_eq!(entries[0].variants.len(), 4);

    let styles: Vec<&str> = entries[0].variants.iter().map(|v| v.style.as_str()).collect();
    assert!(styles.contains(&"regular"));
    assert!(styles.contains(&"bold"));
    assert!(styles.contains(&"italic"));
    assert!(styles.contains(&"boldItalic"));
}

#[test]
fn parse_pptx_embedded_font_list_empty() {
    let xml = r#"<?xml version="1.0" encoding="UTF-8"?>
<p:presentation xmlns:p="http://schemas.openxmlformats.org/presentationml/2006/main">
</p:presentation>"#;

    let entries = parse_pptx_embedded_font_list(xml);
    assert!(entries.is_empty());
}

#[test]
fn parse_pptx_embedded_font_list_multiple_fonts() {
    let xml = r#"<?xml version="1.0" encoding="UTF-8"?>
<p:presentation xmlns:p="http://schemas.openxmlformats.org/presentationml/2006/main"
                xmlns:r="http://schemas.openxmlformats.org/officeDocument/2006/relationships">
  <p:embeddedFontLst>
    <p:embeddedFont>
      <p:font typeface="FontA"/>
      <p:regular r:id="rId1"/>
    </p:embeddedFont>
    <p:embeddedFont>
      <p:font typeface="FontB"/>
      <p:regular r:id="rId2"/>
      <p:bold r:id="rId3"/>
    </p:embeddedFont>
  </p:embeddedFontLst>
</p:presentation>"#;

    let entries = parse_pptx_embedded_font_list(xml);
    assert_eq!(entries.len(), 2);
    assert_eq!(entries[0].typeface, "FontA");
    assert_eq!(entries[1].typeface, "FontB");
    assert_eq!(entries[1].variants.len(), 2);
}

#[test]
fn extract_guid_from_font_path_valid() {
    let guid =
        extract_guid_from_font_path("ppt/fonts/{7B19B49C-2336-4F82-AAD2-5D2BAE389560}.fntdata");
    assert_eq!(
        guid.as_deref(),
        Some("{7B19B49C-2336-4F82-AAD2-5D2BAE389560}")
    );
}

#[test]
fn extract_guid_from_font_path_non_guid() {
    assert!(extract_guid_from_font_path("ppt/fonts/somefile.fntdata").is_none());
    assert!(extract_guid_from_font_path("ppt/slides/slide1.xml").is_none());
}

#[test]
fn parse_docx_embedded_font_entries_regular() {
    let xml = r#"<?xml version="1.0" encoding="UTF-8"?>
<w:fonts xmlns:w="http://schemas.openxmlformats.org/wordprocessingml/2006/main"
         xmlns:r="http://schemas.openxmlformats.org/officeDocument/2006/relationships">
  <w:font w:name="Pretendard">
    <w:embedRegular w:fontKey="{7B19B49C-2336-4F82-AAD2-5D2BAE389560}" r:id="rId1"/>
  </w:font>
</w:fonts>"#;

    let entries = parse_docx_embedded_font_entries(xml);
    assert_eq!(entries.len(), 1);
    assert_eq!(entries[0].font_name, "Pretendard");
    assert_eq!(entries[0].variants.len(), 1);
    assert_eq!(entries[0].variants[0].style, "regular");
    assert_eq!(entries[0].variants[0].r_id, "rId1");
    assert_eq!(
        entries[0].variants[0].font_key,
        "{7B19B49C-2336-4F82-AAD2-5D2BAE389560}"
    );
}

#[test]
fn parse_docx_embedded_font_entries_multiple_variants() {
    let xml = r#"<?xml version="1.0" encoding="UTF-8"?>
<w:fonts xmlns:w="http://schemas.openxmlformats.org/wordprocessingml/2006/main"
         xmlns:r="http://schemas.openxmlformats.org/officeDocument/2006/relationships">
  <w:font w:name="TestFont">
    <w:embedRegular w:fontKey="{AAAAAAAA-BBBB-CCCC-DDDD-EEEEEEEEEEEE}" r:id="rId1"/>
    <w:embedBold w:fontKey="{11111111-2222-3333-4444-555555555555}" r:id="rId2"/>
    <w:embedItalic w:fontKey="{66666666-7777-8888-9999-AAAAAAAAAAAA}" r:id="rId3"/>
    <w:embedBoldItalic w:fontKey="{BBBBBBBB-CCCC-DDDD-EEEE-FFFFFFFFFFFF}" r:id="rId4"/>
  </w:font>
</w:fonts>"#;

    let entries = parse_docx_embedded_font_entries(xml);
    assert_eq!(entries.len(), 1);
    assert_eq!(entries[0].variants.len(), 4);
}

#[test]
fn parse_docx_embedded_font_entries_no_embedded() {
    let xml = r#"<?xml version="1.0" encoding="UTF-8"?>
<w:fonts xmlns:w="http://schemas.openxmlformats.org/wordprocessingml/2006/main">
  <w:font w:name="Arial"/>
  <w:font w:name="Times New Roman"/>
</w:fonts>"#;

    let entries = parse_docx_embedded_font_entries(xml);
    assert!(entries.is_empty());
}

#[test]
fn keeps_ordinary_font_names_readable() {
    assert_eq!(sanitize_font_component("Times New Roman"), "Times New Roman");
    assert_eq!(sanitize_font_component("Noto_Sans-Bold"), "Noto_Sans-Bold");
}

#[test]
fn reduces_any_path_to_its_last_segment() {
    assert_eq!(sanitize_font_component("../../../etc/passwd"), "passwd");
    assert_eq!(sanitize_font_component("/tmp/PWNED"), "PWNED");
    assert_eq!(sanitize_font_component(r"..\..\Windows\System32"), "System32");
    assert_eq!(sanitize_font_component(r"C:\Windows\evil"), "evil");
}

#[test]
fn dot_segments_are_unrepresentable() {
    assert_eq!(sanitize_font_component(".."), "__");
    assert_eq!(sanitize_font_component("."), "_");
    assert_eq!(sanitize_font_component("evil.ttf"), "evil_ttf");
}

#[test]
fn replaces_control_characters_and_non_ascii() {
    assert_eq!(sanitize_font_component("a\0b"), "a_b");
    assert_eq!(sanitize_font_component("a\nb"), "a_b");
    assert_eq!(sanitize_font_component("héllo"), "h_llo");
    assert_eq!(sanitize_font_component("a*b?c|d\"e<f>g"), "a_b_c_d_e_f_g");
}

#[test]
fn empty_and_whitespace_only_names_get_a_fallback() {
    assert_eq!(sanitize_font_component(""), "font");
    assert_eq!(sanitize_font_component("   "), "font");
    assert_eq!(sanitize_font_component("/"), "font");
    assert_eq!(sanitize_font_component("\0"), "_");
}

#[test]
fn trims_surrounding_whitespace() {
    assert_eq!(sanitize_font_component("  Arial  "), "Arial");
}

#[test]
fn escapes_windows_device_names() {
    assert_eq!(sanitize_font_component("CON"), "_CON");
    assert_eq!(sanitize_font_component("nul"), "_nul");
    assert_eq!(sanitize_font_component("LPT9"), "_LPT9");
    assert_eq!(sanitize_font_component("CONSOLE"), "CONSOLE");
}

#[test]
fn bounds_the_component_length() {
    let long = "A".repeat(4096);
    assert_eq!(sanitize_font_component(&long).len(), 64);
}

#[test]
fn unique_font_filename_disambiguates_collisions() {
    let mut used = UsedFontNames::new();
    assert_eq!(unique_font_filename(&mut used, "Arial-regular.ttf"), "Arial-regular.ttf");
    assert_eq!(unique_font_filename(&mut used, "Arial-regular.ttf"), "Arial-regular-2.ttf");
    assert_eq!(unique_font_filename(&mut used, "Arial-regular.ttf"), "Arial-regular-3.ttf");
}

fn build_pptx_with_named_embedded_font(ttf_data: &[u8], guid: &str, typeface: &str) -> Vec<u8> {
    package::build_pptx_with_named_embedded_font(ttf_data, guid, typeface).unwrap()
}

fn build_docx_with_named_embedded_font(ttf_data: &[u8], guid: &str, name: &str) -> Vec<u8> {
    package::build_docx_with_named_embedded_font(ttf_data, guid, name).unwrap()
}

#[test]
fn extract_pptx_embedded_fonts_roundtrip() {
    let guid = "{7B19B49C-2336-4F82-AAD2-5D2BAE389560}";
    let original_ttf = make_fake_ttf(128);
    let zip_data = build_pptx_with_embedded_font(&original_ttf, guid).unwrap();

    let result = extract_embedded_fonts(&zip_data, Format::Pptx);
    assert!(result.is_some(), "should extract fonts from PPTX");
    let files = result.unwrap();
    assert_eq!(files.len(), 1, "should have extracted one font file");
    assert_eq!(files[0].file_name, "TestFont-regular.ttf");
    assert_eq!(&files[0].data[..4], &[0x00, 0x01, 0x00, 0x00]);
    assert_eq!(files[0].data, original_ttf);
}

#[test]
fn extract_docx_embedded_fonts_roundtrip() {
    let guid = "{AAAAAAAA-BBBB-CCCC-DDDD-EEEEEEEEEEEE}";
    let original_ttf = make_fake_ttf(64);
    let zip_data = build_docx_with_embedded_font(&original_ttf, guid).unwrap();

    let result = extract_embedded_fonts(&zip_data, Format::Docx);
    assert!(result.is_some(), "should extract fonts from DOCX");
    let files = result.unwrap();
    assert_eq!(files.len(), 1);
    assert_eq!(files[0].data, original_ttf);
}

#[test]
fn extract_embedded_fonts_no_fonts_returns_none() {
    let mut zip = ZipWriter::new(Cursor::new(Vec::new()));
    let options = SimpleFileOptions::default();
    let pres_xml = r#"<?xml version="1.0" encoding="UTF-8"?>
<p:presentation xmlns:p="http://schemas.openxmlformats.org/presentationml/2006/main">
</p:presentation>"#;
    zip.start_file("ppt/presentation.xml", options).unwrap();
    zip.write_all(pres_xml.as_bytes()).unwrap();
    let zip_data = zip.finish().unwrap().into_inner();

    let result = extract_embedded_fonts(&zip_data, Format::Pptx);
    assert!(result.is_none());
}

#[test]
fn extract_embedded_fonts_xlsx_returns_none() {
    let mut zip = ZipWriter::new(Cursor::new(Vec::new()));
    let options = SimpleFileOptions::default();
    zip.start_file("xl/workbook.xml", options).unwrap();
    zip.write_all(b"<workbook/>").unwrap();
    let zip_data = zip.finish().unwrap().into_inner();

    let result = extract_embedded_fonts(&zip_data, Format::Xlsx);
    assert!(result.is_none());
}

#[test]
fn docx_font_name_cannot_traverse_out_of_the_temp_dir() {
    let guid = "{AAAAAAAA-BBBB-CCCC-DDDD-EEEEEEEEEEEE}";
    let zip_data = build_docx_with_named_embedded_font(
        &make_fake_ttf(64),
        guid,
        "../../../../../../tmp/office2pdf-escape-relative",
    );
    let files = extract_embedded_fonts(&zip_data, Format::Docx)
        .expect("extraction still succeeds with a hostile font name");
    assert_eq!(files.len(), 1, "the font stays inside the temp dir");
    let name = &files[0].file_name;
    assert!(
        !name.contains('/') && !name.contains('\\') && !name.contains(".."),
        "sanitised filename keeps no traversal syntax: {name}"
    );
    assert_eq!(name, "office2pdf-escape-relative-regular.ttf");
}

#[test]
fn pptx_typeface_cannot_traverse_out_of_the_temp_dir() {
    let guid = "{7B19B49C-2336-4F82-AAD2-5D2BAE389560}";
    let zip_data =
        build_pptx_with_named_embedded_font(&make_fake_ttf(128), guid, "/tmp/office2pdf-escape-pptx-absolute");
    let files = extract_embedded_fonts(&zip_data, Format::Pptx)
        .expect("extraction still succeeds with a hostile typeface");
    assert_eq!(files.len(), 1);
    assert_eq!(files[0].file_name, "office2pdf-escape-pptx-absolute-regular.ttf");
}
