//! Small OOXML fixtures: font bytes, images and DrawingML fragments used to exercise the
//! parsers.

use vstd::prelude::*;
use vstd::string::StringSliceAdditionalSpecFns;
use vstd::string::StrSliceExecFns;

use crate::naming::decimal;

verus! {

/// A fake TrueType font of `size` bytes: the TTF signature `00 01 00 00`, then each byte
/// holding the low eight bits of its own offset.
pub open spec fn fake_ttf(size: nat) -> Seq<u8> {
    Seq::new(
        size,
        |i: int|
            if i == 1 {
                1u8
            } else if i < 4 {
                0u8
            } else {
                (i % 256) as u8
            },
    )
}

/// A fake TrueType font of `size` bytes (at least the four signature bytes).
pub fn make_fake_ttf(size: usize) -> (data: Vec<u8>)
    requires
        size >= 4,
    ensures
        data@ == fake_ttf(size as nat),
{
    let mut data: Vec<u8> = Vec::new();
    let mut i: usize = 0;
    while i < size
        invariant
            i <= size,
            data@ == fake_ttf(size as nat).take(i as int),
        decreases size - i,
    {
        let byte: u8 = if i == 1 {
            1
        } else if i < 4 {
            0
        } else {
            (i % 256) as u8
        };
        data.push(byte);
        assert(data@ =~= fake_ttf(size as nat).take(i as int + 1));
        i = i + 1;
    }
    assert(fake_ttf(size as nat).take(size as int) =~= fake_ttf(size as nat));
    data
}

/// A minimal 1x1 red-rect SVG image.
pub fn make_test_svg() -> (svg: Vec<u8>)
    ensures
        svg@ == "<svg xmlns=\"http://www.w3.org/2000/svg\" width=\"1\" height=\"1\" viewBox=\"0 0 1 1\"><rect width=\"1\" height=\"1\" fill=\"#ff0000\"/></svg>".spec_bytes(),
{
    "<svg xmlns=\"http://www.w3.org/2000/svg\" width=\"1\" height=\"1\" viewBox=\"0 0 1 1\"><rect width=\"1\" height=\"1\" fill=\"#ff0000\"/></svg>".as_bytes_vec()
}

/// The decimal representation of `n`, with a leading `-` when negative.
pub open spec fn signed_decimal(n: int) -> Seq<char> {
    if n < 0 {
        seq!['-'] + decimal((-n) as nat)
    } else {
        decimal(n as nat)
    }
}

/// Appends the decimal representation of `n` (`u64`).
fn push_decimal_u64(out: &mut String, n: u64)
    ensures
        final(out)@ == old(out)@ + decimal(n as nat),
    decreases n,
{
    if n >= 10 {
        push_decimal_u64(out, n / 10);
    }
    let code: u8 = (48 + n % 10) as u8;
    crate::text::push_char(out, code as char);
    assert(out@ =~= old(out)@ + decimal(n as nat));
}

/// Appends the decimal representation of `n`, as `format!("{n}")` writes it.
pub fn push_signed_decimal(out: &mut String, n: i64)
    ensures
        final(out)@ == old(out)@ + signed_decimal(n as int),
{
    if n < 0 {
        crate::text::push_char(out, '-');
        let magnitude: u64 = (-(n as i128)) as u64;
        push_decimal_u64(out, magnitude);
        assert(out@ =~= old(out)@ + signed_decimal(n as int));
    } else {
        push_decimal_u64(out, n as u64);
    }
}

/// Appends the decimal representation of `n`.
pub fn push_unsigned_decimal(out: &mut String, n: usize)
    ensures
        final(out)@ == old(out)@ + decimal(n as nat),
{
    push_decimal_u64(out, n as u64);
}

} // verus!

verus! {

/// One `<a:tc>` table cell holding `text`.
pub open spec fn table_cell_xml(text: Seq<char>) -> Seq<char> {
    "<a:tc><a:txBody><a:bodyPr/><a:p><a:r><a:rPr lang=\"en-US\"/><a:t>"@ + text
        + "</a:t></a:r></a:p></a:txBody><a:tcPr/></a:tc>"@
}

/// The cells for `cells`, one after another.
pub open spec fn table_cells_xml(cells: Seq<&str>) -> Seq<char>
    decreases cells.len(),
{
    if cells.len() == 0 {
        Seq::empty()
    } else {
        table_cells_xml(cells.drop_last()) + table_cell_xml(cells.last()@)
    }
}

/// One `<a:tr>` PPTX table row with a plain text cell per entry.
pub fn make_table_row(cells: &[&str]) -> (xml: String)
    ensures
        xml@ == "<a:tr h=\"370840\">"@ + table_cells_xml(cells@) + "</a:tr>"@,
{
    let mut xml = String::from_str("<a:tr h=\"370840\">");
    let mut i: usize = 0;
    while i < cells.len()
        invariant
            i <= cells@.len(),
            xml@ == "<a:tr h=\"370840\">"@ + table_cells_xml(cells@.take(i as int)),
        decreases cells.len() - i,
    {
        xml.append("<a:tc><a:txBody><a:bodyPr/><a:p><a:r><a:rPr lang=\"en-US\"/><a:t>");
        xml.append(cells[i]);
        xml.append("</a:t></a:r></a:p></a:txBody><a:tcPr/></a:tc>");
        assert(cells@.take(i as int + 1).drop_last() =~= cells@.take(i as int));
        assert(xml@ =~= "<a:tr h=\"370840\">"@ + table_cells_xml(cells@.take(i as int + 1)));
        i = i + 1;
    }
    assert(cells@.take(cells@.len() as int) =~= cells@);
    xml.append("</a:tr>");
    xml
}

/// `<a:gridCol w=".."/>` for each column width.
pub open spec fn grid_columns_xml(widths: Seq<i64>) -> Seq<char>
    decreases widths.len(),
{
    if widths.len() == 0 {
        Seq::empty()
    } else {
        grid_columns_xml(widths.drop_last()) + "<a:gridCol w=\""@ + signed_decimal(widths.last() as int)
            + "\"/>"@
    }
}

/// `<p:xfrm>` placing a frame at (`x`, `y`) with extent (`cx`, `cy`).
pub open spec fn xfrm_xml(x: i64, y: i64, cx: i64, cy: i64) -> Seq<char> {
    "<p:xfrm><a:off x=\""@ + signed_decimal(x as int) + "\" y=\""@ + signed_decimal(y as int)
        + "\"/><a:ext cx=\""@ + signed_decimal(cx as int) + "\" cy=\""@ + signed_decimal(cy as int)
        + "\"/></p:xfrm>"@
}

/// Appends `<p:xfrm>` for the given geometry.
fn push_xfrm(out: &mut String, x: i64, y: i64, cx: i64, cy: i64)
    ensures
        final(out)@ == old(out)@ + xfrm_xml(x, y, cx, cy),
{
    out.append("<p:xfrm><a:off x=\"");
    push_signed_decimal(out, x);
    out.append("\" y=\"");
    push_signed_decimal(out, y);
    out.append("\"/><a:ext cx=\"");
    push_signed_decimal(out, cx);
    out.append("\" cy=\"");
    push_signed_decimal(out, cy);
    out.append("\"/></p:xfrm>");
    assert(out@ =~= old(out)@ + xfrm_xml(x, y, cx, cy));
}

/// A `<p:graphicFrame>` wrapping a PPTX table with the given geometry (EMU).
pub fn make_table_graphic_frame(
    x: i64,
    y: i64,
    cx: i64,
    cy: i64,
    col_widths_emu: &[i64],
    rows_xml: &str,
) -> (xml: String)
    ensures
        xml@ == "<p:graphicFrame><p:nvGraphicFramePr><p:cNvPr id=\"4\" name=\"Table\"/><p:cNvGraphicFramePr><a:graphicFrameLocks noGrp=\"1\"/></p:cNvGraphicFramePr><p:nvPr/></p:nvGraphicFramePr>"@
            + xfrm_xml(x, y, cx, cy)
            + "<a:graphic><a:graphicData uri=\"http://schemas.openxmlformats.org/drawingml/2006/table\"><a:tbl><a:tblPr/><a:tblGrid>"@
            + grid_columns_xml(col_widths_emu@) + "</a:tblGrid>"@ + rows_xml@
            + "</a:tbl></a:graphicData></a:graphic></p:graphicFrame>"@,
{
    let mut grid = String::new();
    let mut i: usize = 0;
    while i < col_widths_emu.len()
        invariant
            i <= col_widths_emu@.len(),
            grid@ == grid_columns_xml(col_widths_emu@.take(i as int)),
        decreases col_widths_emu.len() - i,
    {
        grid.append("<a:gridCol w=\"");
        push_signed_decimal(&mut grid, col_widths_emu[i]);
        grid.append("\"/>");
        assert(col_widths_emu@.take(i as int + 1).drop_last() =~= col_widths_emu@.take(i as int));
        assert(grid@ =~= grid_columns_xml(col_widths_emu@.take(i as int + 1)));
        i = i + 1;
    }
    assert(col_widths_emu@.take(col_widths_emu@.len() as int) =~= col_widths_emu@);
    let mut xml = String::from_str("<p:graphicFrame><p:nvGraphicFramePr><p:cNvPr id=\"4\" name=\"Table\"/><p:cNvGraphicFramePr><a:graphicFrameLocks noGrp=\"1\"/></p:cNvGraphicFramePr><p:nvPr/></p:nvGraphicFramePr>");
    push_xfrm(&mut xml, x, y, cx, cy);
    xml.append("<a:graphic><a:graphicData uri=\"http://schemas.openxmlformats.org/drawingml/2006/table\"><a:tbl><a:tblPr/><a:tblGrid>");
    xml.append(grid.as_str());
    xml.append("</a:tblGrid>");
    xml.append(rows_xml);
    xml.append("</a:tbl></a:graphicData></a:graphic></p:graphicFrame>");
    xml
}

/// A `<p:graphicFrame>` holding a chart reference, at the given geometry (EMU).
pub fn make_chart_graphic_frame(x: i64, y: i64, cx: i64, cy: i64, chart_rid: &str) -> (xml: String)
    ensures
        xml@ == "<p:graphicFrame><p:nvGraphicFramePr><p:cNvPr id=\"5\" name=\"Chart\"/><p:cNvGraphicFramePr><a:graphicFrameLocks noGrp=\"1\"/></p:cNvGraphicFramePr><p:nvPr/></p:nvGraphicFramePr>"@
            + xfrm_xml(x, y, cx, cy)
            + "<a:graphic><a:graphicData uri=\"http://schemas.openxmlformats.org/drawingml/2006/chart\"><c:chart xmlns:c=\"http://schemas.openxmlformats.org/drawingml/2006/chart\" r:id=\""@
            + chart_rid@ + "\"/></a:graphicData></a:graphic></p:graphicFrame>"@,
{
    let mut xml = String::from_str("<p:graphicFrame><p:nvGraphicFramePr><p:cNvPr id=\"5\" name=\"Chart\"/><p:cNvGraphicFramePr><a:graphicFrameLocks noGrp=\"1\"/></p:cNvGraphicFramePr><p:nvPr/></p:nvGraphicFramePr>");
    push_xfrm(&mut xml, x, y, cx, cy);
    xml.append("<a:graphic><a:graphicData uri=\"http://schemas.openxmlformats.org/drawingml/2006/chart\"><c:chart xmlns:c=\"http://schemas.openxmlformats.org/drawingml/2006/chart\" r:id=\"");
    xml.append(chart_rid);
    xml.append("\"/></a:graphicData></a:graphic></p:graphicFrame>");
    xml
}

/// A `<p:graphicFrame>` holding a SmartArt diagram reference, at the given geometry (EMU).
pub fn make_smartart_graphic_frame(x: i64, y: i64, cx: i64, cy: i64, dm_rid: &str) -> (xml: String)
    ensures
        xml@ == "<p:graphicFrame><p:nvGraphicFramePr><p:cNvPr id=\"4\" name=\"SmartArt\"/><p:cNvGraphicFramePr><a:graphicFrameLocks noGrp=\"1\"/></p:cNvGraphicFramePr><p:nvPr/></p:nvGraphicFramePr>"@
            + xfrm_xml(x, y, cx, cy)
            + "<a:graphic><a:graphicData uri=\"http://schemas.openxmlformats.org/drawingml/2006/diagram\"><dgm:relIds xmlns:dgm=\"http://schemas.openxmlformats.org/drawingml/2006/diagram\" r:dm=\""@
            + dm_rid@ + "\" r:lo=\"rId99\" r:qs=\"rId98\" r:cs=\"rId97\"/></a:graphicData></a:graphic></p:graphicFrame>"@,
{
    let mut xml = String::from_str("<p:graphicFrame><p:nvGraphicFramePr><p:cNvPr id=\"4\" name=\"SmartArt\"/><p:cNvGraphicFramePr><a:graphicFrameLocks noGrp=\"1\"/></p:cNvGraphicFramePr><p:nvPr/></p:nvGraphicFramePr>");
    push_xfrm(&mut xml, x, y, cx, cy);
    xml.append("<a:graphic><a:graphicData uri=\"http://schemas.openxmlformats.org/drawingml/2006/diagram\"><dgm:relIds xmlns:dgm=\"http://schemas.openxmlformats.org/drawingml/2006/diagram\" r:dm=\"");
    xml.append(dm_rid);
    xml.append("\" r:lo=\"rId99\" r:qs=\"rId98\" r:cs=\"rId97\"/></a:graphicData></a:graphic></p:graphicFrame>");
    xml
}

} // verus!

verus! {

/// The `<dgm:pt>` node for item `index` (model id `index + 1`).
pub open spec fn smartart_point_xml(index: nat, item: Seq<char>) -> Seq<char> {
    "<dgm:pt modelId=\""@ + decimal(index + 1)
        + "\" type=\"node\"><dgm:prSet/><dgm:spPr/><dgm:t><a:bodyPr/><a:p><a:r><a:t>"@ + item
        + "</a:t></a:r></a:p></dgm:t></dgm:pt>"@
}

/// The nodes for the first `items.len()` items.
pub open spec fn smartart_points_xml(items: Seq<&str>) -> Seq<char>
    decreases items.len(),
{
    if items.len() == 0 {
        Seq::empty()
    } else {
        smartart_points_xml(items.drop_last()) + smartart_point_xml(
            (items.len() - 1) as nat,
            items.last()@,
        )
    }
}

/// The parent-of connection from the root to node `index + 1` (model id `100 + index`).
pub open spec fn smartart_connection_xml(index: nat) -> Seq<char> {
    "<dgm:cxn modelId=\""@ + decimal(100 + index) + "\" type=\"parOf\" srcId=\"0\" destId=\""@
        + decimal(index + 1) + "\"/>"@
}

/// The connections for the first `n` items.
pub open spec fn smartart_connections_xml(n: nat) -> Seq<char>
    decreases n,
{
    if n == 0 {
        Seq::empty()
    } else {
        smartart_connections_xml((n - 1) as nat) + smartart_connection_xml((n - 1) as nat)
    }
}

/// A SmartArt data model: a root point, one node per item, and a connection from the root to
/// each node.
pub fn make_smartart_data_xml(items: &[&str]) -> (xml: String)
    requires
        items@.len() + 100 <= usize::MAX,
    ensures
        xml@ == "<?xml version=\"1.0\" encoding=\"UTF-8\"?><dgm:dataModel xmlns:dgm=\"http://schemas.openxmlformats.org/drawingml/2006/diagram\" xmlns:a=\"http://schemas.openxmlformats.org/drawingml/2006/main\"><dgm:ptLst>"@
            + "<dgm:pt modelId=\"0\" type=\"doc\"><dgm:prSet/><dgm:spPr/><dgm:t><a:bodyPr/><a:p><a:r><a:t>Root</a:t></a:r></a:p></dgm:t></dgm:pt>"@
            + smartart_points_xml(items@) + "</dgm:ptLst>"@ + "<dgm:cxnLst>"@
            + smartart_connections_xml(items@.len()) + "</dgm:cxnLst>"@ + "</dgm:dataModel>"@,
{
    let mut xml = String::from_str("<?xml version=\"1.0\" encoding=\"UTF-8\"?><dgm:dataModel xmlns:dgm=\"http://schemas.openxmlformats.org/drawingml/2006/diagram\" xmlns:a=\"http://schemas.openxmlformats.org/drawingml/2006/main\"><dgm:ptLst>");
    xml.append("<dgm:pt modelId=\"0\" type=\"doc\"><dgm:prSet/><dgm:spPr/><dgm:t><a:bodyPr/><a:p><a:r><a:t>Root</a:t></a:r></a:p></dgm:t></dgm:pt>");
    let ghost head = xml@;
    let mut i: usize = 0;
    while i < items.len()
        invariant
            i <= items@.len(),
            items@.len() + 100 <= usize::MAX,
            xml@ == head + smartart_points_xml(items@.take(i as int)),
        decreases items.len() - i,
    {
        xml.append("<dgm:pt modelId=\"");
        push_unsigned_decimal(&mut xml, i + 1);
        xml.append("\" type=\"node\"><dgm:prSet/><dgm:spPr/><dgm:t><a:bodyPr/><a:p><a:r><a:t>");
        xml.append(items[i]);
        xml.append("</a:t></a:r></a:p></dgm:t></dgm:pt>");
        assert(items@.take(i as int + 1).drop_last() =~= items@.take(i as int));
        assert(xml@ =~= head + smartart_points_xml(items@.take(i as int + 1)));
        i = i + 1;
    }
    assert(items@.take(items@.len() as int) =~= items@);
    xml.append("</dgm:ptLst>");
    xml.append("<dgm:cxnLst>");
    let ghost middle = xml@;
    let mut k: usize = 0;
    while k < items.len()
        invariant
            k <= items@.len(),
            items@.len() + 100 <= usize::MAX,
            xml@ == middle + smartart_connections_xml(k as nat),
        decreases items.len() - k,
    {
        xml.append("<dgm:cxn modelId=\"");
        push_unsigned_decimal(&mut xml, 100 + k);
        xml.append("\" type=\"parOf\" srcId=\"0\" destId=\"");
        push_unsigned_decimal(&mut xml, k + 1);
        xml.append("\"/>");
        assert(xml@ =~= middle + smartart_connections_xml(k as nat + 1));
        k = k + 1;
    }
    xml.append("</dgm:cxnLst>");
    xml.append("</dgm:dataModel>");
    xml
}

} // verus!

verus! {

/// One step of the bitwise CRC-32 (reflected polynomial `0xEDB88320`).
pub open spec fn crc_shift(c: u32) -> u32 {
    if c & 1 != 0 {
        (c >> 1u32) ^ 0xEDB8_8320u32
    } else {
        c >> 1u32
    }
}

/// `n` CRC-32 steps from `c`.
pub open spec fn crc_shifts(c: u32, n: nat) -> u32
    decreases n,
{
    if n == 0 {
        c
    } else {
        crc_shift(crc_shifts(c, (n - 1) as nat))
    }
}

/// The CRC-32 register after feeding `bytes` into it, starting from `crc`.
pub open spec fn crc_update(crc: u32, bytes: Seq<u8>) -> u32
    decreases bytes.len(),
{
    if bytes.len() == 0 {
        crc
    } else {
        crc_shifts(crc_update(crc, bytes.drop_last()) ^ (bytes.last() as u32), 8)
    }
}

/// The CRC-32 of a PNG chunk: over its type and its data.
pub open spec fn png_crc(chunk_type: Seq<u8>, data: Seq<u8>) -> u32 {
    crc_update(0xFFFF_FFFFu32, chunk_type + data) ^ 0xFFFF_FFFFu32
}

/// The four bytes of `v`, most significant first.
pub open spec fn be32(v: u32) -> Seq<u8> {
    seq![(v >> 24u32) as u8, (v >> 16u32) as u8, (v >> 8u32) as u8, v as u8]
}

/// A PNG chunk: data length, type, data, CRC.
pub open spec fn png_chunk(chunk_type: Seq<u8>, data: Seq<u8>) -> Seq<u8> {
    be32(data.len() as u32) + chunk_type + data + be32(png_crc(chunk_type, data))
}

/// The PNG file signature.
pub open spec fn png_signature() -> Seq<u8> {
    seq![0x89u8, 0x50, 0x4E, 0x47, 0x0D, 0x0A, 0x1A, 0x0A]
}

/// The header of a 1x1, 8-bit RGB image.
pub open spec fn test_png_header() -> Seq<u8> {
    seq![0x00u8, 0x00, 0x00, 0x01, 0x00, 0x00, 0x00, 0x01, 0x08, 0x02, 0x00, 0x00, 0x00]
}

/// The compressed pixel data of that image.
pub open spec fn test_png_pixels() -> Seq<u8> {
    seq![0x78u8, 0x01, 0x01, 0x04, 0x00, 0xFB, 0xFF, 0x00, 0xFF, 0x00, 0x00, 0x03, 0x01, 0x01, 0x00]
}

/// `IHDR`, `IDAT` and `IEND`.
pub open spec fn ihdr() -> Seq<u8> {
    seq![0x49u8, 0x48, 0x44, 0x52]
}

pub open spec fn idat() -> Seq<u8> {
    seq![0x49u8, 0x44, 0x41, 0x54]
}

pub open spec fn iend() -> Seq<u8> {
    seq![0x49u8, 0x45, 0x4E, 0x44]
}

/// A 1x1 PNG image: signature, `IHDR`, `IDAT` and an empty `IEND`.
pub open spec fn test_png() -> Seq<u8> {
    png_signature() + png_chunk(ihdr(), test_png_header()) + png_chunk(idat(), test_png_pixels())
        + png_chunk(iend(), Seq::empty())
}

/// Feeds `bytes` into the CRC-32 register `crc`.
fn crc_feed(crc: u32, bytes: &[u8]) -> (out: u32)
    ensures
        out == crc_update(crc, bytes@),
{
    let mut c: u32 = crc;
    let mut i: usize = 0;
    while i < bytes.len()
        invariant
            i <= bytes@.len(),
            c == crc_update(crc, bytes@.take(i as int)),
        decreases bytes.len() - i,
    {
        assert(bytes@.take(i as int + 1).drop_last() =~= bytes@.take(i as int));
        let start = c ^ (bytes[i] as u32);
        c = start;
        let mut j: u32 = 0;
        while j < 8
            invariant
                j <= 8,
                c == crc_shifts(start, j as nat),
            decreases 8 - j,
        {
            if c & 1 != 0 {
                c = (c >> 1u32) ^ 0xEDB8_8320u32;
            } else {
                c = c >> 1u32;
            }
            j = j + 1;
        }
        i = i + 1;
    }
    assert(bytes@.take(bytes@.len() as int) =~= bytes@);
    c
}

proof fn lemma_crc_update_append(crc: u32, a: Seq<u8>, b: Seq<u8>)
    ensures
        crc_update(crc, a + b) == crc_update(crc_update(crc, a), b),
    decreases b.len(),
{
    if b.len() == 0 {
        assert(a + b =~= a);
    } else {
        assert((a + b).drop_last() =~= a + b.drop_last());
        lemma_crc_update_append(crc, a, b.drop_last());
    }
}

/// The CRC-32 of a PNG chunk with this type and data.
fn png_crc32(chunk_type: &[u8], data: &[u8]) -> (crc: u32)
    ensures
        crc == png_crc(chunk_type@, data@),
{
    let c: u32 = crc_feed(0xFFFF_FFFFu32, chunk_type);
    let c: u32 = crc_feed(c, data);
    proof {
        lemma_crc_update_append(0xFFFF_FFFFu32, chunk_type@, data@);
    }
    c ^ 0xFFFF_FFFFu32
}

/// Appends the four bytes of `v`, most significant first.
fn push_be32(out: &mut Vec<u8>, v: u32)
    ensures
        final(out)@ == old(out)@ + be32(v),
{
    out.push((v >> 24u32) as u8);
    out.push((v >> 16u32) as u8);
    out.push((v >> 8u32) as u8);
    out.push(v as u8);
    assert(out@ =~= old(out)@ + be32(v));
}

/// Appends `bytes`.
fn push_all(out: &mut Vec<u8>, bytes: &[u8])
    ensures
        final(out)@ == old(out)@ + bytes@,
{
    let mut i: usize = 0;
    while i < bytes.len()
        invariant
            i <= bytes@.len(),
            out@ == old(out)@ + bytes@.take(i as int),
        decreases bytes.len() - i,
    {
        out.push(bytes[i]);
        assert(out@ =~= old(out)@ + bytes@.take(i as int + 1));
        i = i + 1;
    }
    assert(bytes@.take(bytes@.len() as int) =~= bytes@);
}

/// Appends a PNG chunk.
fn push_png_chunk(out: &mut Vec<u8>, chunk_type: &[u8], data: &[u8])
    requires
        data@.len() <= u32::MAX,
    ensures
        final(out)@ == old(out)@ + png_chunk(chunk_type@, data@),
{
    push_be32(out, data.len() as u32);
    push_all(out, chunk_type);
    push_all(out, data);
    let crc: u32 = png_crc32(chunk_type, data);
    push_be32(out, crc);
    assert(out@ =~= old(out)@ + png_chunk(chunk_type@, data@));
}

/// A valid 1x1 PNG image.
pub fn make_test_png() -> (png: Vec<u8>)
    ensures
        png@ == test_png(),
{
    let signature: [u8; 8] = [0x89, 0x50, 0x4E, 0x47, 0x0D, 0x0A, 0x1A, 0x0A];
    let ihdr_data: [u8; 13] = [0x00, 0x00, 0x00, 0x01, 0x00, 0x00, 0x00, 0x01, 0x08, 0x02, 0x00, 0x00, 0x00];
    let idat_data: [u8; 15] = [0x78, 0x01, 0x01, 0x04, 0x00, 0xFB, 0xFF, 0x00, 0xFF, 0x00, 0x00, 0x03, 0x01, 0x01, 0x00];
    let ihdr_type: [u8; 4] = [0x49, 0x48, 0x44, 0x52];
    let idat_type: [u8; 4] = [0x49, 0x44, 0x41, 0x54];
    let iend_type: [u8; 4] = [0x49, 0x45, 0x4E, 0x44];
    let empty: [u8; 0] = [];
    assert(signature@ =~= png_signature());
    assert(ihdr_data@ =~= test_png_header());
    assert(idat_data@ =~= test_png_pixels());
    assert(ihdr_type@ =~= ihdr());
    assert(idat_type@ =~= idat());
    assert(iend_type@ =~= iend());
    assert(empty@ =~= Seq::<u8>::empty());
    let mut png: Vec<u8> = Vec::new();
    push_all(&mut png, &signature);
    push_png_chunk(&mut png, &ihdr_type, &ihdr_data);
    push_png_chunk(&mut png, &idat_type, &idat_data);
    push_png_chunk(&mut png, &iend_type, &empty);
    assert(png@ =~= test_png());
    png
}

} // verus!

verus! {

/// A chart part holding a clustered column chart titled `Sales`, with one series, `Revenue`,
/// worth 100 in `Q1` and 200 in `Q2`.
pub const BAR_CHART_XML: &'static str = "<?xml version=\"1.0\" encoding=\"UTF-8\"?>\n        <c:chartSpace xmlns:c=\"http://schemas.openxmlformats.org/drawingml/2006/chart\"\n                      xmlns:a=\"http://schemas.openxmlformats.org/drawingml/2006/main\">\n            <c:chart>\n                <c:title><c:tx><c:rich><a:p><a:r><a:t>Sales</a:t></a:r></a:p></c:rich></c:tx></c:title>\n                <c:plotArea>\n                    <c:barChart>\n                        <c:barDir val=\"col\"/>\n                        <c:grouping val=\"clustered\"/>\n                        <c:ser>\n                            <c:idx val=\"0\"/>\n                            <c:tx><c:strRef><c:strCache><c:pt idx=\"0\"><c:v>Revenue</c:v></c:pt></c:strCache></c:strRef></c:tx>\n                            <c:cat>\n                                <c:strRef><c:strCache>\n                                    <c:pt idx=\"0\"><c:v>Q1</c:v></c:pt>\n                                    <c:pt idx=\"1\"><c:v>Q2</c:v></c:pt>\n                                </c:strCache></c:strRef>\n                            </c:cat>\n                            <c:val>\n                                <c:numRef><c:numCache>\n                                    <c:pt idx=\"0\"><c:v>100</c:v></c:pt>\n                                    <c:pt idx=\"1\"><c:v>200</c:v></c:pt>\n                                </c:numCache></c:numRef>\n                            </c:val>\n                        </c:ser>\n                    </c:barChart>\n                </c:plotArea>\n            </c:chart>\n        </c:chartSpace>";

/// The chart part of `BAR_CHART_XML`, as an owned string.
pub fn make_bar_chart_xml() -> (xml: String)
    ensures
        xml@ == BAR_CHART_XML@,
{
    String::from_str(BAR_CHART_XML)
}

} // verus!
