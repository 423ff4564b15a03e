# office2pdf: embedded fonts

Recovers the fonts that PowerPoint and Word packages (PPTX, DOCX) carry in obfuscated form,
so that a renderer can use them. The library is written in Verus. Every function in `src/`
is verified against its contract, except the small wrappers that call quick-xml, zip and two
`String` functions, whose contracts are trusted (each marked `external_body` and documented).

- `src/guid.rs`: a font's GUID to its 16-byte key (mixed-endian, braces optional).
- `src/font_data.rs`: deobfuscation (XOR of the first 32 bytes) and format sniffing.
- `src/text.rs`: character-sequence helpers (trimming, splitting, find and replace).
- `src/xml.rs`: quick-xml events seen through plain values.
- `src/font_tables.rs`: the embedded-font declarations of `presentation.xml` and
  `word/fontTable.xml`, and relationship targets.
- `src/naming.rs`: document-supplied names reduced to safe, distinct file names.
- `src/archive.rs`: reading parts of a package with the zip crate.
- `src/extract.rs`: the whole recovery, from package bytes to named font files.
- `src/package.rs`: small font-bearing packages, written with the zip crate.
- `src/fixtures.rs`: fonts, images and DrawingML fragments for exercising the parsers.
- `src/samples.rs`: small complete presentation and word-processing packages, and chart parts.
- `src/splice.rs`: edits of workbook packages (a picture drawing, an anchored chart, markup
  before each worksheet's end, the first style-sheet font).
- `app/lib.rs`: writes the recovered fonts into a temporary directory that is removed on drop;
  formats floats for the fixtures that take them.
