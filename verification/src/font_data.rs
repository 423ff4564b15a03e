//! Deobfuscation and format sniffing for embedded font parts.

use vstd::prelude::*;

verus! {

/// Font file format detected by magic bytes.
#[derive(Debug, Clone, Copy, PartialEq, Eq, Structural)]
pub enum FontFileFormat {
    Ttf,
    Otf,
    Ttc,
}

/// The file extension (without the dot) of each format.
pub open spec fn format_extension(format: FontFileFormat) -> Seq<char> {
    match format {
        FontFileFormat::Ttf => "ttf"@,
        FontFileFormat::Otf => "otf"@,
        FontFileFormat::Ttc => "ttc"@,
    }
}

impl FontFileFormat {
    /// The file extension used when the font is written out.
    pub fn extension(self) -> (ext: &'static str)
        ensures
            ext@ == format_extension(self),
    {
        match self {
            FontFileFormat::Ttf => "ttf",
            FontFileFormat::Otf => "otf",
            FontFileFormat::Ttc => "ttc",
        }
    }
}

/// The format named by the first four bytes of `data`, if they are a known signature.
pub open spec fn spec_detect_font_format(data: Seq<u8>) -> Option<FontFileFormat> {
    if data.len() < 4 {
        None
    } else if data[0] == 0x00 && data[1] == 0x01 && data[2] == 0x00 && data[3] == 0x00 {
        Some(FontFileFormat::Ttf)
    } else if data[0] == 0x4f && data[1] == 0x54 && data[2] == 0x54 && data[3] == 0x4f {
        // "OTTO"
        Some(FontFileFormat::Otf)
    } else if data[0] == 0x74 && data[1] == 0x74 && data[2] == 0x63 && data[3] == 0x66 {
        // "ttcf"
        Some(FontFileFormat::Ttc)
    } else {
        None
    }
}

/// Detect font format from magic bytes at the start of the data.
pub fn detect_font_format(data: &[u8]) -> (format: Option<FontFileFormat>)
    ensures
        format == spec_detect_font_format(data@),
{
    if data.len() < 4 {
        return None;
    }
    if data[0] == 0x00 && data[1] == 0x01 && data[2] == 0x00 && data[3] == 0x00 {
        Some(FontFileFormat::Ttf)
    } else if data[0] == 0x4f && data[1] == 0x54 && data[2] == 0x54 && data[3] == 0x4f {
        Some(FontFileFormat::Otf)
    } else if data[0] == 0x74 && data[1] == 0x74 && data[2] == 0x63 && data[3] == 0x66 {
        Some(FontFileFormat::Ttc)
    } else {
        None
    }
}

/// Number of leading bytes that the obfuscation scheme covers.
pub const OBFUSCATED_PREFIX_LEN: usize = 32;

/// The bytes of `data` after XOR-ing its first 32 bytes with `key` repeated twice.
pub open spec fn spec_deobfuscate(data: Seq<u8>, key: Seq<u8>) -> Seq<u8> {
    Seq::new(
        data.len(),
        |i: int|
            if i < 32 {
                data[i] ^ key[i % 16]
            } else {
                data[i]
            },
    )
}

/// XOR the first 32 bytes of font data with the 16-byte key (repeated twice).
pub fn deobfuscate_font_data(data: &mut [u8], key: &[u8; 16])
    ensures
        final(data)@ == spec_deobfuscate(old(data)@, key@),
{
    let len: usize = if data.len() < OBFUSCATED_PREFIX_LEN { data.len() } else { OBFUSCATED_PREFIX_LEN };
    let mut i: usize = 0;
    while i < len
        invariant
            len <= 32,
            len == if old(data)@.len() < 32 { old(data)@.len() } else { 32 },
            i <= len,
            key@.len() == 16,
            data@.len() == old(data)@.len(),
            forall|j: int| 0 <= j < i ==> data@[j] == old(data)@[j] ^ key@[j % 16],
            forall|j: int| i <= j < data@.len() ==> data@[j] == old(data)@[j],
        decreases len - i,
    {
        let b = data[i] ^ key[i % 16];
        data[i] = b;
        i = i + 1;
    }
    assert(data@ =~= spec_deobfuscate(old(data)@, key@));
}

} // verus!

verus! {

/// Deobfuscating twice with the same key gives back the original bytes: the scheme is its own
/// inverse, so obfuscating a font and deobfuscating it recovers the font.
pub proof fn law_deobfuscate_involution(data: Seq<u8>, key: Seq<u8>)
    requires
        key.len() == 16,
    ensures
        spec_deobfuscate(spec_deobfuscate(data, key), key) == data,
{
    let once = spec_deobfuscate(data, key);
    let twice = spec_deobfuscate(once, key);
    assert forall|i: int| 0 <= i < data.len() implies twice[i] == data[i] by {
        if i < 32 {
            let x = data[i];
            let k = key[i % 16];
            assert((x ^ k) ^ k == x) by (bit_vector);
        }
    }
    assert(twice =~= data);
}

/// Only the first 32 bytes change; the length never does.
pub proof fn law_deobfuscate_touches_only_prefix(data: Seq<u8>, key: Seq<u8>)
    ensures
        spec_deobfuscate(data, key).len() == data.len(),
        forall|i: int| 32 <= i < data.len() ==> #[trigger] spec_deobfuscate(data, key)[i] == data[i],
{
}

} // verus!

verus! {

/// Deobfuscation XORs byte `i` with key byte `i % 16` for every `i` below 32 and below the
/// length, and keeps every other byte, for data of any length: the covered prefix is
/// `min(32, len)` and depends on nothing else.
pub proof fn law_deobfuscate_xors_the_first_32_bytes(data: Seq<u8>, key: Seq<u8>)
    requires
        key.len() == 16,
    ensures
        spec_deobfuscate(data, key).len() == data.len(),
        forall|i: int|
            0 <= i < data.len() && i < 32 ==> #[trigger] spec_deobfuscate(data, key)[i] ^ data[i] == key[i % 16],
        forall|i: int| 32 <= i < data.len() ==> #[trigger] spec_deobfuscate(data, key)[i] == data[i],
{
    assert forall|i: int| 0 <= i < data.len() && i < 32 implies #[trigger] spec_deobfuscate(data, key)[i]
        ^ data[i] == key[i % 16] by {
        let x = data[i];
        let k = key[i % 16];
        assert((x ^ k) ^ x == k) by (bit_vector);
    }
}

/// The detected format depends on the first four bytes alone, whatever the length:
/// `00 01 00 00` is TrueType, `OTTO` is OpenType, `ttcf` is a TrueType collection, and data
/// shorter than four bytes, or with another signature, has no format.
pub proof fn law_detect_reads_only_the_signature(data: Seq<u8>)
    ensures
        data.len() >= 4 ==> spec_detect_font_format(data) == spec_detect_font_format(data.take(4)),
        data.len() < 4 ==> spec_detect_font_format(data) is None,
        data.len() >= 4 && data.take(4) == seq![0x00u8, 0x01u8, 0x00u8, 0x00u8] ==> spec_detect_font_format(data)
            == Some(FontFileFormat::Ttf),
        data.len() >= 4 && data.take(4) == seq![0x4fu8, 0x54u8, 0x54u8, 0x4fu8] ==> spec_detect_font_format(data)
            == Some(FontFileFormat::Otf),
        data.len() >= 4 && data.take(4) == seq![0x74u8, 0x74u8, 0x63u8, 0x66u8] ==> spec_detect_font_format(data)
            == Some(FontFileFormat::Ttc),
        data.len() >= 4 && data.take(4) != seq![0x00u8, 0x01u8, 0x00u8, 0x00u8] && data.take(4) != seq![
            0x4fu8,
            0x54u8,
            0x54u8,
            0x4fu8,
        ] && data.take(4) != seq![0x74u8, 0x74u8, 0x63u8, 0x66u8] ==> spec_detect_font_format(data) is None,
{
    if data.len() >= 4 {
        let h = data.take(4);
        assert(h[0] == data[0] && h[1] == data[1] && h[2] == data[2] && h[3] == data[3]);
        assert(h =~= seq![data[0], data[1], data[2], data[3]]);
    }
}

} // verus!
