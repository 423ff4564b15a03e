//! Parsing of OOXML font-obfuscation GUIDs into 16-byte keys.

use vstd::prelude::*;

use crate::text::{chars_of, split_at_char, split_char, trim_end_char, trim_end_matching, trim_start_char, trim_start_matching};

verus! {

/// The value of one hexadecimal digit, either case.
pub open spec fn hex_digit_value(c: char) -> Option<nat> {
    if '0' <= c && c <= '9' {
        Some((c as nat - '0' as nat) as nat)
    } else if 'a' <= c && c <= 'f' {
        Some((c as nat - 'a' as nat + 10) as nat)
    } else if 'A' <= c && c <= 'F' {
        Some((c as nat - 'A' as nat + 10) as nat)
    } else {
        None
    }
}

/// The number written by the hexadecimal digits `s` (zero for no digits), if all are digits.
pub open spec fn hex_value(s: Seq<char>) -> Option<nat>
    decreases s.len(),
{
    if s.len() == 0 {
        Some(0)
    } else {
        match (hex_value(s.drop_last()), hex_digit_value(s.last())) {
            (Some(v), Some(d)) => Some(v * 16 + d),
            _ => None,
        }
    }
}

/// What `from_str_radix(s, 16)` gives for an unsigned type whose values are below `bound`:
/// an optional `+`, then at least one hexadecimal digit, and a value that fits.
pub open spec fn spec_parse_hex(s: Seq<char>, bound: nat) -> Option<nat> {
    let digits = if s.len() > 0 && s[0] == '+' {
        s.drop_first()
    } else {
        s
    };
    if digits.len() == 0 {
        None
    } else {
        match hex_value(digits) {
            Some(v) => if v < bound {
                Some(v)
            } else {
                None
            },
            None => None,
        }
    }
}

/// `256` raised to `k`.
pub open spec fn pow256(k: nat) -> nat
    decreases k,
{
    if k == 0 {
        1
    } else {
        256 * pow256((k - 1) as nat)
    }
}

/// Byte `k` of `v`, counting from the least significant byte.
pub open spec fn byte_of(v: nat, k: nat) -> u8 {
    ((v / pow256(k)) % 256) as u8
}

/// The `n` low bytes of `v`, least significant first.
pub open spec fn le_bytes(v: nat, n: nat) -> Seq<u8> {
    Seq::new(n, |i: int| byte_of(v, i as nat))
}

/// The `n` low bytes of `v`, most significant first.
pub open spec fn be_bytes(v: nat, n: nat) -> Seq<u8> {
    Seq::new(n, |i: int| byte_of(v, (n - 1 - i) as nat))
}

/// The key of a GUID: groups one to three little-endian, groups four and five big-endian.
pub open spec fn guid_key(g1: nat, g2: nat, g3: nat, g4: nat, g5: nat) -> Seq<u8> {
    le_bytes(g1, 4) + le_bytes(g2, 2) + le_bytes(g3, 2) + be_bytes(g4, 2) + be_bytes(g5, 6)
}

/// The key for `guid`: braces stripped, exactly five dash-separated hexadecimal groups fitting
/// 32, 16, 16, 16 and 64 bits, the last one written with exactly twelve characters.
pub open spec fn spec_parse_guid(guid: Seq<char>) -> Option<Seq<u8>> {
    let parts = split_char(trim_end_char(trim_start_char(guid, '{'), '}'), '-');
    if parts.len() != 5 {
        None
    } else {
        match (
            spec_parse_hex(parts[0], 0x1_0000_0000),
            spec_parse_hex(parts[1], 0x1_0000),
            spec_parse_hex(parts[2], 0x1_0000),
            spec_parse_hex(parts[3], 0x1_0000),
            spec_parse_hex(parts[4], 0x1_0000_0000_0000_0000),
        ) {
            (Some(g1), Some(g2), Some(g3), Some(g4), Some(g5)) => if parts[4].len() == 12 {
                Some(guid_key(g1, g2, g3, g4, g5))
            } else {
                None
            },
            _ => None,
        }
    }
}

proof fn lemma_hex_value_prefix(s: Seq<char>, i: int)
    requires
        0 <= i <= s.len(),
        hex_value(s) is Some,
    ensures
        hex_value(s.take(i)) is Some,
        hex_value(s.take(i)).unwrap() <= hex_value(s).unwrap(),
    decreases s.len(),
{
    if i < s.len() {
        assert(s.drop_last().take(i) =~= s.take(i));
        lemma_hex_value_prefix(s.drop_last(), i);
    } else {
        assert(s.take(i) =~= s);
    }
}

/// `from_str_radix(s, 16)` for an unsigned type whose largest value is `max`.
fn parse_hex(s: &[char], max: u64) -> (r: Option<u64>)
    ensures
        match r {
            Some(v) => spec_parse_hex(s@, max as nat + 1) == Some(v as nat),
            None => spec_parse_hex(s@, max as nat + 1) is None,
        },
{
    let start: usize = if s.len() > 0 && s[0] == '+' { 1 } else { 0 };
    let ghost digits = if s@.len() > 0 && s@[0] == '+' { s@.drop_first() } else { s@ };
    assert(digits =~= s@.subrange(start as int, s@.len() as int));
    if start == s.len() {
        return None;
    }
    let mut v: u64 = 0;
    let mut i: usize = start;
    while i < s.len()
        invariant
            start <= i <= s@.len(),
            digits == (if s@.len() > 0 && s@[0] == '+' { s@.drop_first() } else { s@ }),
            digits.len() > 0,
            digits =~= s@.subrange(start as int, s@.len() as int),
            hex_value(digits.take(i - start)) == Some(v as nat),
            v <= max,
        decreases s.len() - i,
    {
        let c = s[i];
        proof {
            assert(digits.take(i - start + 1).drop_last() =~= digits.take(i - start));
            assert(digits.take(i - start + 1).last() == c);
        }
        let d: u64 = if '0' <= c && c <= '9' {
            (c as u64) - ('0' as u64)
        } else if 'a' <= c && c <= 'f' {
            (c as u64) - ('a' as u64) + 10
        } else if 'A' <= c && c <= 'F' {
            (c as u64) - ('A' as u64) + 10
        } else {
            proof {
                if hex_value(digits) is Some {
                    lemma_hex_value_prefix(digits, i - start + 1);
                    assert(digits.take(i - start + 1).drop_last() =~= digits.take(i - start));
                }
            }
            return None;
        };
        let next: u128 = (v as u128) * 16 + (d as u128);
        if next > max as u128 {
            proof {
                if hex_value(digits) is Some {
                    lemma_hex_value_prefix(digits, i - start + 1);
                }
            }
            return None;
        }
        v = next as u64;
        i = i + 1;
    }
    assert(digits.take(s@.len() - start) =~= digits);
    Some(v)
}

proof fn lemma_byte_of_shift(v: u64)
    ensures
        (v & 0xff) as u8 == byte_of(v as nat, 0),
        ((v >> 8u64) & 0xff) as u8 == byte_of(v as nat, 1),
        ((v >> 16u64) & 0xff) as u8 == byte_of(v as nat, 2),
        ((v >> 24u64) & 0xff) as u8 == byte_of(v as nat, 3),
        ((v >> 32u64) & 0xff) as u8 == byte_of(v as nat, 4),
        ((v >> 40u64) & 0xff) as u8 == byte_of(v as nat, 5),
{
    reveal_with_fuel(pow256, 7);
    assert((v & 0xff) == v % 256) by (bit_vector);
    assert(pow256(0) == 1);
    assert(v as nat / 1 == v as nat) by (nonlinear_arith);
    assert(((v >> 8u64) & 0xff) == (v / 0x100) % 256) by (bit_vector);
    assert(((v >> 16u64) & 0xff) == (v / 0x1_0000) % 256) by (bit_vector);
    assert(((v >> 24u64) & 0xff) == (v / 0x100_0000) % 256) by (bit_vector);
    assert(((v >> 32u64) & 0xff) == (v / 0x1_0000_0000) % 256) by (bit_vector);
    assert(((v >> 40u64) & 0xff) == (v / 0x100_0000_0000) % 256) by (bit_vector);
}

/// Byte `k` (little-endian) of `v`.
fn byte_at(v: u64, k: u64) -> (b: u8)
    requires
        k < 6,
    ensures
        b == byte_of(v as nat, k as nat),
{
    proof {
        lemma_byte_of_shift(v);
    }
    if k == 0 {
        (v & 0xff) as u8
    } else if k == 1 {
        ((v >> 8u64) & 0xff) as u8
    } else if k == 2 {
        ((v >> 16u64) & 0xff) as u8
    } else if k == 3 {
        ((v >> 24u64) & 0xff) as u8
    } else if k == 4 {
        ((v >> 32u64) & 0xff) as u8
    } else {
        ((v >> 40u64) & 0xff) as u8
    }
}

/// Parse a GUID string into 16 bytes using OOXML mixed-endian encoding.
///
/// Input formats: `{XXXXXXXX-XXXX-XXXX-XXXX-XXXXXXXXXXXX}` or without braces.
/// Encoding: first 4 bytes LE, next 2 LE, next 2 LE, remaining 8 BE.
pub fn parse_guid_to_bytes(guid: &str) -> (key: Option<[u8; 16]>)
    ensures
        match key {
            Some(k) => spec_parse_guid(guid@) == Some(k@),
            None => spec_parse_guid(guid@) is None,
        },
{
    let chars = chars_of(guid);
    let opened = trim_start_matching(chars.as_slice(), '{');
    let inner = trim_end_matching(opened.as_slice(), '}');
    let parts = split_at_char(inner.as_slice(), '-');
    if parts.len() != 5 {
        return None;
    }
    let g1 = match parse_hex(parts[0].as_slice(), 0xffff_ffff) {
        Some(v) => v,
        None => return None,
    };
    let g2 = match parse_hex(parts[1].as_slice(), 0xffff) {
        Some(v) => v,
        None => return None,
    };
    let g3 = match parse_hex(parts[2].as_slice(), 0xffff) {
        Some(v) => v,
        None => return None,
    };
    let g4 = match parse_hex(parts[3].as_slice(), 0xffff) {
        Some(v) => v,
        None => return None,
    };
    let g5 = match parse_hex(parts[4].as_slice(), 0xffff_ffff_ffff_ffff) {
        Some(v) => v,
        None => return None,
    };
    if parts[4].len() != 12 {
        return None;
    }
    proof {
        // Twelve characters, at most one of them a sign: the value has at most 48 bits.
        let p = parts@[4]@;
        let digits = if p.len() > 0 && p[0] == '+' { p.drop_first() } else { p };
        lemma_hex_value_bound(digits);
        lemma_pow16_12();
    }
    let key: [u8; 16] = [
        byte_at(g1, 0),
        byte_at(g1, 1),
        byte_at(g1, 2),
        byte_at(g1, 3),
        byte_at(g2, 0),
        byte_at(g2, 1),
        byte_at(g3, 0),
        byte_at(g3, 1),
        byte_at(g4, 1),
        byte_at(g4, 0),
        byte_at(g5, 5),
        byte_at(g5, 4),
        byte_at(g5, 3),
        byte_at(g5, 2),
        byte_at(g5, 1),
        byte_at(g5, 0),
    ];
    assert(key@ =~= guid_key(g1 as nat, g2 as nat, g3 as nat, g4 as nat, g5 as nat));
    Some(key)
}

/// `16` raised to `k`.
pub open spec fn pow16(k: nat) -> nat
    decreases k,
{
    if k == 0 {
        1
    } else {
        16 * pow16((k - 1) as nat)
    }
}

proof fn lemma_hex_value_bound(s: Seq<char>)
    requires
        hex_value(s) is Some,
    ensures
        hex_value(s).unwrap() < pow16(s.len()),
    decreases s.len(),
{
    if s.len() > 0 {
        lemma_hex_value_bound(s.drop_last());
    }
}

proof fn lemma_pow16_12()
    ensures
        pow16(12) == 0x1_0000_0000_0000,
        pow16(11) == 0x1000_0000_0000,
{
    reveal_with_fuel(pow16, 13);
}

} // verus!

verus! {

/// `c` with ASCII upper-case letters mapped to lower case.
pub open spec fn ascii_lower_char(c: char) -> char {
    if 'A' <= c && c <= 'Z' {
        ((c as u32) + 32) as char
    } else {
        c
    }
}

/// `s` with ASCII upper-case letters mapped to lower case.
pub open spec fn ascii_lower(s: Seq<char>) -> Seq<char> {
    s.map_values(|c: char| ascii_lower_char(c))
}

proof fn lemma_lower_fixes(c: char, d: char)
    requires
        d == '{' || d == '}' || d == '-' || d == '+',
    ensures
        ascii_lower_char(c) == d <==> c == d,
{
}

proof fn lemma_trim_start_lower(s: Seq<char>, c: char)
    requires
        c == '{' || c == '}',
    ensures
        trim_start_char(ascii_lower(s), c) == ascii_lower(trim_start_char(s, c)),
    decreases s.len(),
{
    if s.len() > 0 {
        lemma_lower_fixes(s[0], c);
        assert(ascii_lower(s).drop_first() =~= ascii_lower(s.drop_first()));
        lemma_trim_start_lower(s.drop_first(), c);
    }
}

proof fn lemma_trim_end_lower(s: Seq<char>, c: char)
    requires
        c == '{' || c == '}',
    ensures
        trim_end_char(ascii_lower(s), c) == ascii_lower(trim_end_char(s, c)),
    decreases s.len(),
{
    if s.len() > 0 {
        lemma_lower_fixes(s.last(), c);
        assert(ascii_lower(s).drop_last() =~= ascii_lower(s.drop_last()));
        lemma_trim_end_lower(s.drop_last(), c);
    }
}

proof fn lemma_split_lower(s: Seq<char>)
    ensures
        split_char(ascii_lower(s), '-').len() == split_char(s, '-').len(),
        forall|k: int|
            0 <= k < split_char(s, '-').len() ==> #[trigger] split_char(ascii_lower(s), '-')[k]
                == ascii_lower(split_char(s, '-')[k]),
    decreases s.len(),
{
    crate::text::lemma_split_char_nonempty(s, '-');
    if s.len() > 0 {
        assert(ascii_lower(s).drop_last() =~= ascii_lower(s.drop_last()));
        lemma_split_lower(s.drop_last());
        crate::text::lemma_split_char_nonempty(s.drop_last(), '-');
        lemma_lower_fixes(s.last(), '-');
        let before = split_char(s.drop_last(), '-');
        assert(ascii_lower(before.last().push(s.last())) =~= ascii_lower(before.last()).push(
            ascii_lower_char(s.last()),
        ));
        assert(ascii_lower(Seq::<char>::empty()) =~= Seq::<char>::empty());
    } else {
        assert(ascii_lower(s) =~= s);
    }
}

proof fn lemma_hex_digit_lower(c: char)
    ensures
        hex_digit_value(ascii_lower_char(c)) == hex_digit_value(c),
{
    if 'A' <= c && c <= 'Z' {
        let l = ascii_lower_char(c);
        assert(l as u32 == c as u32 + 32);
    }
}

proof fn lemma_hex_value_lower(s: Seq<char>)
    ensures
        hex_value(ascii_lower(s)) == hex_value(s),
    decreases s.len(),
{
    if s.len() > 0 {
        assert(ascii_lower(s).drop_last() =~= ascii_lower(s.drop_last()));
        lemma_hex_value_lower(s.drop_last());
        lemma_hex_digit_lower(s.last());
    }
}

proof fn lemma_parse_hex_lower(s: Seq<char>, bound: nat)
    ensures
        spec_parse_hex(ascii_lower(s), bound) == spec_parse_hex(s, bound),
{
    if s.len() > 0 {
        lemma_lower_fixes(s[0], '+');
        assert(ascii_lower(s).drop_first() =~= ascii_lower(s.drop_first()));
        lemma_hex_value_lower(s.drop_first());
    }
    lemma_hex_value_lower(s);
}

/// The key of a GUID does not depend on the case of its hexadecimal digits.
pub proof fn law_guid_case_insensitive(guid: Seq<char>)
    ensures
        spec_parse_guid(ascii_lower(guid)) == spec_parse_guid(guid),
{
    let opened = trim_start_char(guid, '{');
    let inner = trim_end_char(opened, '}');
    lemma_trim_start_lower(guid, '{');
    lemma_trim_end_lower(opened, '}');
    lemma_split_lower(inner);
    let parts = split_char(inner, '-');
    let lower_parts = split_char(ascii_lower(inner), '-');
    if parts.len() == 5 {
        lemma_parse_hex_lower(parts[0], 0x1_0000_0000);
        lemma_parse_hex_lower(parts[1], 0x1_0000);
        lemma_parse_hex_lower(parts[2], 0x1_0000);
        lemma_parse_hex_lower(parts[3], 0x1_0000);
        lemma_parse_hex_lower(parts[4], 0x1_0000_0000_0000_0000);
        assert(lower_parts[4].len() == parts[4].len());
    }
}

proof fn lemma_trim_start_append(s: Seq<char>, t: Seq<char>, c: char)
    requires
        exists|i: int| 0 <= i < s.len() && s[i] != c,
    ensures
        trim_start_char(s + t, c) == trim_start_char(s, c) + t,
    decreases s.len(),
{
    if s[0] == c {
        let i = choose|i: int| 0 <= i < s.len() && s[i] != c;
        assert(s.drop_first()[i - 1] != c);
        assert((s + t).drop_first() =~= s.drop_first() + t);
        lemma_trim_start_append(s.drop_first(), t, c);
    }
}

proof fn lemma_trim_start_all(s: Seq<char>, t: Seq<char>, c: char)
    requires
        forall|i: int| 0 <= i < s.len() ==> s[i] == c,
    ensures
        trim_start_char(s + t, c) == trim_start_char(t, c),
        trim_start_char(s, c) == Seq::<char>::empty(),
    decreases s.len(),
{
    if s.len() > 0 {
        assert((s + t).drop_first() =~= s.drop_first() + t);
        lemma_trim_start_all(s.drop_first(), t, c);
    } else {
        assert(s + t =~= t);
    }
}

proof fn lemma_trim_end_push(s: Seq<char>, c: char)
    ensures
        trim_end_char(s.push(c), c) == trim_end_char(s, c),
{
    assert(s.push(c).drop_last() =~= s);
}

/// Braces around a GUID do not change its key.
pub proof fn law_guid_braces_optional(guid: Seq<char>)
    ensures
        spec_parse_guid(seq!['{'] + guid + seq!['}']) == spec_parse_guid(guid),
{
    let braced = seq!['{'] + guid + seq!['}'];
    let tail = guid + seq!['}'];
    assert(braced =~= seq!['{'] + tail);
    lemma_trim_start_all(seq!['{'], tail, '{');
    if exists|i: int| 0 <= i < guid.len() && guid[i] != '{' {
        lemma_trim_start_append(guid, seq!['}'], '{');
        assert(trim_start_char(guid, '{') + seq!['}'] =~= trim_start_char(guid, '{').push('}'));
        lemma_trim_end_push(trim_start_char(guid, '{'), '}');
    } else {
        lemma_trim_start_all(guid, seq!['}'], '{');
        assert(trim_start_char(seq!['}'], '{') =~= seq!['}']);
        assert(seq!['}'] =~= Seq::<char>::empty().push('}'));
        lemma_trim_end_push(Seq::<char>::empty(), '}');
        assert(trim_end_char(Seq::<char>::empty(), '}') =~= Seq::<char>::empty());
    }
}

/// A parsed key has sixteen bytes.
pub proof fn lemma_guid_key_len(guid: Seq<char>)
    ensures
        spec_parse_guid(guid) matches Some(k) ==> k.len() == 16,
{
}

} // verus!

verus! {

/// Every key that a GUID parses to holds its five groups byte by byte, whatever their values:
/// the first three groups least significant byte first (bytes 0..4, 4..6, 6..8), the last two
/// most significant byte first (bytes 8..10 and 10..16).
pub proof fn law_guid_key_byte_order(guid: Seq<char>)
    ensures
        spec_parse_guid(guid) matches Some(k) ==> {
            let parts = split_char(trim_end_char(trim_start_char(guid, '{'), '}'), '-');
            let g1 = spec_parse_hex(parts[0], 0x1_0000_0000).unwrap();
            let g2 = spec_parse_hex(parts[1], 0x1_0000).unwrap();
            let g3 = spec_parse_hex(parts[2], 0x1_0000).unwrap();
            let g4 = spec_parse_hex(parts[3], 0x1_0000).unwrap();
            let g5 = spec_parse_hex(parts[4], 0x1_0000_0000_0000_0000).unwrap();
            &&& k.len() == 16
            &&& k[0] == g1 % 0x100
            &&& k[1] == (g1 / 0x100) % 0x100
            &&& k[2] == (g1 / 0x1_0000) % 0x100
            &&& k[3] == (g1 / 0x100_0000) % 0x100
            &&& k[4] == g2 % 0x100
            &&& k[5] == (g2 / 0x100) % 0x100
            &&& k[6] == g3 % 0x100
            &&& k[7] == (g3 / 0x100) % 0x100
            &&& k[8] == (g4 / 0x100) % 0x100
            &&& k[9] == g4 % 0x100
            &&& k[10] == (g5 / 0x100_0000_0000) % 0x100
            &&& k[11] == (g5 / 0x1_0000_0000) % 0x100
            &&& k[12] == (g5 / 0x100_0000) % 0x100
            &&& k[13] == (g5 / 0x1_0000) % 0x100
            &&& k[14] == (g5 / 0x100) % 0x100
            &&& k[15] == g5 % 0x100
        },
{
    if let Some(k) = spec_parse_guid(guid) {
        let parts = split_char(trim_end_char(trim_start_char(guid, '{'), '}'), '-');
        let g1 = spec_parse_hex(parts[0], 0x1_0000_0000).unwrap();
        let g2 = spec_parse_hex(parts[1], 0x1_0000).unwrap();
        let g3 = spec_parse_hex(parts[2], 0x1_0000).unwrap();
        let g4 = spec_parse_hex(parts[3], 0x1_0000).unwrap();
        let g5 = spec_parse_hex(parts[4], 0x1_0000_0000_0000_0000).unwrap();
        assert(k == guid_key(g1, g2, g3, g4, g5));
        reveal_with_fuel(pow256, 6);
        assert(pow256(0) == 1);
        assert(pow256(1) == 0x100);
        assert(pow256(2) == 0x1_0000);
        assert(pow256(3) == 0x100_0000);
        assert(pow256(4) == 0x1_0000_0000);
        assert(pow256(5) == 0x100_0000_0000);
        let a = le_bytes(g1, 4);
        let b = le_bytes(g2, 2);
        let c = le_bytes(g3, 2);
        let d = be_bytes(g4, 2);
        let e = be_bytes(g5, 6);
        assert(k == a + b + c + d + e);
        assert(k[0] == a[0] && k[1] == a[1] && k[2] == a[2] && k[3] == a[3]);
        assert(k[4] == b[0] && k[5] == b[1]);
        assert(k[6] == c[0] && k[7] == c[1]);
        assert(k[8] == d[0] && k[9] == d[1]);
        assert(k[10] == e[0] && k[11] == e[1] && k[12] == e[2] && k[13] == e[3] && k[14] == e[4] && k[15] == e[5]);
    }
}

} // verus!
