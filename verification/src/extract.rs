//! Recovering the embedded fonts of a presentation or word-processing package.
//!
//! The library decides which parts hold fonts, deobfuscates them and names them; writing the
//! files out is left to the caller.

use vstd::prelude::*;

use crate::archive::{archive_entry_bytes, archive_entry_text, open_archive, zip_entry_bytes, zip_entry_text, zip_opens, OfficeArchive};
use crate::font_data::{deobfuscate_font_data, detect_font_format, format_extension, spec_deobfuscate, spec_detect_font_format};
use crate::font_tables::{
    docx_entries_model, parse_docx_embedded_font_entries, parse_pptx_embedded_font_list,
    parse_rels_id_target, pptx_entries_model, relationship_target, spec_docx_embedded_font_entries,
    spec_parse_rels, spec_pptx_embedded_font_list, DocxEmbeddedFontEntry, DocxFontModel,
    PptxEmbeddedFontEntry, PptxFontModel, Relationships,
};
use crate::guid::{parse_guid_to_bytes, spec_parse_guid};
use crate::naming::{
    decimal, digit_char, is_allowed_name_char, is_first_free_numbered, is_plain_component,
    lemma_last_dot_from, lemma_sanitize_plain, lemma_unique_name_is_free, last_dot, numbered_name,
    sanitize_font_component, spec_sanitize_font_component, spec_unique_name, stem_and_extension,
    unique_font_filename, UsedFontNames,
};
use crate::text::{chars_of, slice_to_vec_range, string_from_chars, trim_start_char, trim_start_matching};
use crate::xml::utf8_len;

verus! {

/// The part of `s` after its last `c` (all of `s` when it has none), as `rsplit(c).next()`.
pub open spec fn after_last(s: Seq<char>, c: char) -> Seq<char>
    decreases s.len(),
{
    if s.len() == 0 {
        s
    } else if s.last() == c {
        Seq::<char>::empty()
    } else {
        after_last(s.drop_last(), c).push(s.last())
    }
}

/// `s` without the suffix `suffix`, when it ends with it.
pub open spec fn strip_suffix(s: Seq<char>, suffix: Seq<char>) -> Option<Seq<char>> {
    if s.len() >= suffix.len() && s.skip(s.len() - suffix.len()) == suffix {
        Some(s.take(s.len() - suffix.len()))
    } else {
        None
    }
}

/// The extension of obfuscated font parts in a presentation.
pub open spec fn fntdata_suffix() -> Seq<char> {
    seq!['.', 'f', 'n', 't', 'd', 'a', 't', 'a']
}

/// The GUID that names a presentation font part `…/{GUID}.fntdata`: the file name without its
/// `.fntdata` suffix, when that starts with `{`, ends with `}` and is 38 bytes long.
pub open spec fn spec_extract_guid_from_font_path(path: Seq<char>) -> Option<Seq<char>> {
    match strip_suffix(after_last(path, '/'), fntdata_suffix()) {
        Some(stem) => if stem.len() > 0 && stem[0] == '{' && stem.last() == '}' && utf8_len(stem)
            == 38 {
            Some(stem)
        } else {
            None
        },
        None => None,
    }
}

pub(crate) proof fn lemma_after_last_from(s: Seq<char>, c: char, p: int)
    requires
        0 <= p <= s.len(),
        p == 0 || s[p - 1] == c,
        forall|j: int| p <= j < s.len() ==> #[trigger] s[j] != c,
    ensures
        after_last(s, c) == s.subrange(p, s.len() as int),
    decreases s.len(),
{
    if s.len() == 0 {
        assert(s.subrange(p, 0) =~= s);
    } else if p == s.len() {
        assert(s.subrange(p, p) =~= Seq::<char>::empty());
    } else {
        assert(s.drop_last().subrange(p, s.len() - 1).push(s.last()) =~= s.subrange(p, s.len() as int));
        lemma_after_last_from(s.drop_last(), c, p);
    }
}

/// Extract GUID from a PPTX font file path like `ppt/fonts/{GUID}.fntdata`.
pub fn extract_guid_from_font_path(path: &str) -> (guid: Option<String>)
    ensures
        (match guid {
            Some(g) => Some(g@),
            None => None,
        }) == spec_extract_guid_from_font_path(path@),
{
    let chars = chars_of(path);
    let mut p: usize = chars.len();
    while p > 0 && chars[p - 1] != '/'
        invariant
            p <= chars@.len(),
            forall|j: int| p <= j < chars@.len() ==> #[trigger] chars@[j] != '/',
        decreases p,
    {
        p = p - 1;
    }
    proof {
        lemma_after_last_from(chars@, '/', p as int);
    }
    let file_name = slice_to_vec_range(chars.as_slice(), p, chars.len());
    let suffix: [char; 8] = ['.', 'f', 'n', 't', 'd', 'a', 't', 'a'];
    assert(suffix@ =~= fntdata_suffix());
    if file_name.len() < 8 {
        return None;
    }
    let cut: usize = file_name.len() - 8;
    let mut k: usize = 0;
    while k < 8
        invariant
            k <= 8,
            cut + 8 == file_name@.len(),
            cut + 8 == file_name.len(),
            file_name@ == after_last(path@, '/'),
            suffix@ == fntdata_suffix(),
            forall|j: int| 0 <= j < k ==> file_name@[cut + j] == suffix@[j],
        decreases 8 - k,
    {
        if file_name[cut + k] != suffix[k] {
            proof {
                assert(file_name@.skip(cut as int)[k as int] != fntdata_suffix()[k as int]);
            }
            return None;
        }
        k = k + 1;
    }
    assert(file_name@.skip(cut as int) =~= fntdata_suffix());
    let stem = slice_to_vec_range(file_name.as_slice(), 0, cut);
    assert(stem@ =~= file_name@.take(cut as int));
    if stem.len() == 0 || stem[0] != '{' || stem[stem.len() - 1] != '}' {
        return None;
    }
    proof {
        lemma_utf8_len_bounds(stem@);
    }
    if stem.len() > 38 {
        return None;
    }
    let text = string_from_chars(stem.as_slice());
    let byte_len: usize = text.as_str().len();
    assert(byte_len == utf8_len(stem@));
    if byte_len != 38 {
        return None;
    }
    assert(strip_suffix(after_last(path@, '/'), fntdata_suffix()) == Some(stem@));
    Some(text)
}

/// A character takes one to four bytes in UTF-8.
pub(crate) proof fn lemma_utf8_len_bounds(s: Seq<char>)
    ensures
        s.len() <= utf8_len(s) <= 4 * s.len(),
    decreases s.len(),
{
    if s.len() > 0 {
        lemma_utf8_len_bounds(s.drop_first());
        let e = vstd::utf8::encode_scalar(s[0] as u32);
        assert(1 <= e.len() <= 4);
    }
}

/// Where a relationship target points inside the package: an absolute target (leading `/`)
/// without its leading slashes, otherwise the target under `base`.
pub open spec fn font_part_path(base: Seq<char>, target: Seq<char>) -> Seq<char> {
    if target.len() > 0 && target[0] == '/' {
        trim_start_char(target, '/')
    } else {
        base + target
    }
}

/// The package path of a relationship target of a part in `base`.
fn resolve_font_part_path(base: &str, target: &String) -> (path: String)
    ensures
        path@ == font_part_path(base@, target@),
{
    let chars = chars_of(target.as_str());
    if chars.len() > 0 && chars[0] == '/' {
        let trimmed = trim_start_matching(chars.as_slice(), '/');
        string_from_chars(trimmed.as_slice())
    } else {
        let mut path = String::from_str(base);
        path.append(target.as_str());
        path
    }
}

} // verus!

verus! {

/// The document formats that office2pdf converts.
#[derive(Debug, Clone, Copy, PartialEq, Eq, Structural)]
pub enum Format {
    Docx,
    Pptx,
    Xlsx,
}

/// A recovered font: the file name to write it under and its deobfuscated bytes.
pub struct EmbeddedFontFile {
    pub file_name: String,
    pub data: Vec<u8>,
}

impl View for EmbeddedFontFile {
    type V = (Seq<char>, Seq<u8>);

    open spec fn view(&self) -> (Seq<char>, Seq<u8>) {
        (self.file_name@, self.data@)
    }
}

/// The models of a list of recovered fonts.
pub open spec fn files_model(files: Seq<EmbeddedFontFile>) -> Seq<(Seq<char>, Seq<u8>)> {
    files.map_values(|f: EmbeddedFontFile| f@)
}

/// The model of an optional list of recovered fonts.
pub open spec fn opt_files_model(files: Option<Vec<EmbeddedFontFile>>) -> Option<Seq<(Seq<char>, Seq<u8>)>> {
    match files {
        Some(v) => Some(files_model(v@)),
        None => None,
    }
}

/// One declared font variant to recover.
pub struct FontJob {
    pub family: Seq<char>,
    pub style: Seq<char>,
    pub r_id: Seq<char>,
    pub font_key: Seq<char>,
}

/// The variants of the fonts a presentation declares, font by font.
pub open spec fn pptx_jobs(entries: Seq<PptxFontModel>) -> Seq<FontJob>
    decreases entries.len(),
{
    if entries.len() == 0 {
        Seq::empty()
    } else {
        pptx_jobs(entries.drop_last()) + pptx_entry_jobs(entries.last())
    }
}

/// The variants of one presentation font.
pub open spec fn pptx_entry_jobs(entry: PptxFontModel) -> Seq<FontJob> {
    entry.variants.map_values(
        |v: crate::font_tables::VariantModel|
            FontJob { family: entry.typeface, style: v.style, r_id: v.r_id, font_key: Seq::empty() },
    )
}

/// The variants of the fonts a word-processing document declares, font by font.
pub open spec fn docx_jobs(entries: Seq<DocxFontModel>) -> Seq<FontJob>
    decreases entries.len(),
{
    if entries.len() == 0 {
        Seq::empty()
    } else {
        docx_jobs(entries.drop_last()) + docx_entry_jobs(entries.last())
    }
}

/// The variants of one word-processing font.
pub open spec fn docx_entry_jobs(entry: DocxFontModel) -> Seq<FontJob> {
    entry.variants.map_values(
        |v: crate::font_tables::DocxVariantModel|
            FontJob { family: entry.font_name, style: v.style, r_id: v.r_id, font_key: v.font_key },
    )
}

/// The extension a recovered font is written with: by its signature, `ttf` when unknown.
pub open spec fn font_extension(font: Seq<u8>) -> Seq<char> {
    match spec_detect_font_format(font) {
        Some(f) => format_extension(f),
        None => seq!['t', 't', 'f'],
    }
}

/// `{family}-{style}.{ext}`, both names sanitised.
pub open spec fn font_file_name(family: Seq<char>, style: Seq<char>, font: Seq<u8>) -> Seq<char> {
    spec_sanitize_font_component(family) + seq!['-'] + spec_sanitize_font_component(style) + seq!['.']
        + font_extension(font)
}

/// The candidate name and bytes of a deobfuscated font.
pub open spec fn named_font(job: FontJob, bytes: Seq<u8>, key: Seq<u8>) -> (Seq<char>, Seq<u8>) {
    let font = spec_deobfuscate(bytes, key);
    (font_file_name(job.family, job.style, font), font)
}

/// A presentation variant: its relationship's target under `ppt/` names a `{GUID}.fntdata`
/// part; the GUID gives the key. `None` when any step fails.
pub open spec fn pptx_job_font(data: Seq<u8>, rels: Seq<(Seq<char>, Seq<char>)>, job: FontJob) -> Option<(Seq<char>, Seq<u8>)> {
    match relationship_target(rels, job.r_id) {
        None => None,
        Some(target) => {
            let path = font_part_path("ppt/"@, target);
            match spec_extract_guid_from_font_path(path) {
                None => None,
                Some(guid) => match spec_parse_guid(guid) {
                    None => None,
                    Some(key) => match zip_entry_bytes(data, path) {
                        None => None,
                        Some(bytes) => Some(named_font(job, bytes, key)),
                    },
                },
            }
        },
    }
}

/// A word-processing variant: its relationship's target under `word/` is the font part; its
/// `fontKey` GUID gives the key. `None` when any step fails.
pub open spec fn docx_job_font(data: Seq<u8>, rels: Seq<(Seq<char>, Seq<char>)>, job: FontJob) -> Option<(Seq<char>, Seq<u8>)> {
    match relationship_target(rels, job.r_id) {
        None => None,
        Some(target) => {
            let path = font_part_path("word/"@, target);
            match spec_parse_guid(job.font_key) {
                None => None,
                Some(key) => match zip_entry_bytes(data, path) {
                    None => None,
                    Some(bytes) => Some(named_font(job, bytes, key)),
                },
            }
        },
    }
}

/// What each presentation variant gives.
pub open spec fn pptx_job_fonts(data: Seq<u8>, rels: Seq<(Seq<char>, Seq<char>)>, jobs: Seq<FontJob>) -> Seq<Option<(Seq<char>, Seq<u8>)>> {
    jobs.map_values(|j: FontJob| pptx_job_font(data, rels, j))
}

/// What each word-processing variant gives.
pub open spec fn docx_job_fonts(data: Seq<u8>, rels: Seq<(Seq<char>, Seq<char>)>, jobs: Seq<FontJob>) -> Seq<Option<(Seq<char>, Seq<u8>)>> {
    jobs.map_values(|j: FontJob| docx_job_font(data, rels, j))
}

/// The recovered fonts, each under a name not used before (see `unique_font_filename`), and
/// the set of names used.
pub open spec fn name_fonts(fonts: Seq<Option<(Seq<char>, Seq<u8>)>>) -> (Seq<(Seq<char>, Seq<u8>)>, Set<Seq<char>>)
    decreases fonts.len(),
{
    if fonts.len() == 0 {
        (Seq::empty(), Set::empty())
    } else {
        let (files, used) = name_fonts(fonts.drop_last());
        match fonts.last() {
            None => (files, used),
            Some((candidate, font)) => {
                let name = spec_unique_name(used, candidate);
                (files.push((name, font)), used.insert(name))
            },
        }
    }
}

/// Fewer variants than distinct numbered names exist (the collision suffix is a `u32`).
pub open spec fn within_name_limit(jobs: Seq<FontJob>) -> bool {
    jobs.len() < u32::MAX - 1
}

/// The fonts recovered from a presentation: `None` when the package does not open, lacks
/// `ppt/presentation.xml` or its relationships, declares no embedded font (or more variants
/// than can be named), or when no variant could be recovered.
pub open spec fn spec_extract_pptx_fonts(data: Seq<u8>) -> Option<Seq<(Seq<char>, Seq<u8>)>> {
    if !zip_opens(data) {
        None
    } else {
        match zip_entry_text(data, "ppt/presentation.xml"@) {
            None => None,
            Some(pres) => {
                let entries = spec_pptx_embedded_font_list(pres);
                if entries.len() == 0 {
                    None
                } else {
                    match zip_entry_text(data, "ppt/_rels/presentation.xml.rels"@) {
                        None => None,
                        Some(rels_xml) => {
                            let jobs = pptx_jobs(entries);
                            let rels = spec_parse_rels(rels_xml);
                            let files = name_fonts(pptx_job_fonts(data, rels, jobs)).0;
                            if !within_name_limit(jobs) || files.len() == 0 {
                                None
                            } else {
                                Some(files)
                            }
                        },
                    }
                }
            },
        }
    }
}

/// The fonts recovered from a word-processing document: `None` when the package does not
/// open, lacks `word/fontTable.xml` or its relationships, declares no embedded font (or more
/// variants than can be named), or when no variant could be recovered.
pub open spec fn spec_extract_docx_fonts(data: Seq<u8>) -> Option<Seq<(Seq<char>, Seq<u8>)>> {
    if !zip_opens(data) {
        None
    } else {
        match zip_entry_text(data, "word/fontTable.xml"@) {
            None => None,
            Some(table) => {
                let entries = spec_docx_embedded_font_entries(table);
                if entries.len() == 0 {
                    None
                } else {
                    match zip_entry_text(data, "word/_rels/fontTable.xml.rels"@) {
                        None => None,
                        Some(rels_xml) => {
                            let jobs = docx_jobs(entries);
                            let rels = spec_parse_rels(rels_xml);
                            let files = name_fonts(docx_job_fonts(data, rels, jobs)).0;
                            if !within_name_limit(jobs) || files.len() == 0 {
                                None
                            } else {
                                Some(files)
                            }
                        },
                    }
                }
            },
        }
    }
}

/// The fonts embedded in a document of `format`; spreadsheets never carry any.
pub open spec fn spec_extract_embedded_fonts(data: Seq<u8>, format: Format) -> Option<Seq<(Seq<char>, Seq<u8>)>> {
    match format {
        Format::Pptx => spec_extract_pptx_fonts(data),
        Format::Docx => spec_extract_docx_fonts(data),
        Format::Xlsx => None,
    }
}

} // verus!

verus! {

/// Reads the font part at `path`, deobfuscates it with `key` and names it after `family` and
/// `style`.
fn recover_font(
    archive: &mut OfficeArchive,
    path: &String,
    key: &[u8; 16],
    family: &String,
    style: &String,
) -> (font: Option<(String, Vec<u8>)>)
    ensures
        final(archive)@ == old(archive)@,
        (match font {
            Some((n, b)) => Some((n@, b@)),
            None => None,
        }) == (match zip_entry_bytes(old(archive)@, path@) {
            None => None,
            Some(bytes) => Some(
                named_font(
                    FontJob { family: family@, style: style@, r_id: Seq::empty(), font_key: Seq::empty() },
                    bytes,
                    key@,
                ),
            ),
        }),
{
    let mut bytes = match archive_entry_bytes(archive, path.as_str()) {
        Some(b) => b,
        None => return None,
    };
    deobfuscate_font_data(bytes.as_mut_slice(), key);
    let extension: &str = match detect_font_format(bytes.as_slice()) {
        Some(format) => format.extension(),
        None => "ttf",
    };
    proof {
        reveal_strlit("ttf");
        reveal_strlit("-");
        reveal_strlit(".");
        assert("ttf"@ =~= seq!['t', 't', 'f']);
    }
    assert(extension@ == font_extension(bytes@));
    let mut name = sanitize_font_component(family.as_str());
    name.append("-");
    let style_part = sanitize_font_component(style.as_str());
    name.append(style_part.as_str());
    name.append(".");
    name.append(extension);
    assert(name@ =~= font_file_name(family@, style@, bytes@));
    Some((name, bytes))
}

/// What one presentation variant gives.
fn pptx_variant_font(
    archive: &mut OfficeArchive,
    rels: &Relationships,
    family: &String,
    variant: &crate::font_tables::FontVariantRef,
) -> (font: Option<(String, Vec<u8>)>)
    ensures
        final(archive)@ == old(archive)@,
        (match font {
            Some((n, b)) => Some((n@, b@)),
            None => None,
        }) == pptx_job_font(
            old(archive)@,
            rels@,
            FontJob { family: family@, style: variant.style@, r_id: variant.r_id@, font_key: Seq::empty() },
        ),
{
    let target = match rels.get(&variant.r_id) {
        Some(t) => t,
        None => return None,
    };
    let path = resolve_font_part_path("ppt/", target);
    let guid = match extract_guid_from_font_path(path.as_str()) {
        Some(g) => g,
        None => return None,
    };
    let key = match parse_guid_to_bytes(guid.as_str()) {
        Some(k) => k,
        None => return None,
    };
    recover_font(archive, &path, &key, family, &variant.style)
}

/// What one word-processing variant gives.
fn docx_variant_font(
    archive: &mut OfficeArchive,
    rels: &Relationships,
    family: &String,
    variant: &crate::font_tables::DocxFontVariantRef,
) -> (font: Option<(String, Vec<u8>)>)
    ensures
        final(archive)@ == old(archive)@,
        (match font {
            Some((n, b)) => Some((n@, b@)),
            None => None,
        }) == docx_job_font(
            old(archive)@,
            rels@,
            FontJob { family: family@, style: variant.style@, r_id: variant.r_id@, font_key: variant.font_key@ },
        ),
{
    let target = match rels.get(&variant.r_id) {
        Some(t) => t,
        None => return None,
    };
    let path = resolve_font_part_path("word/", target);
    let key = match parse_guid_to_bytes(variant.font_key.as_str()) {
        Some(k) => k,
        None => return None,
    };
    recover_font(archive, &path, &key, family, &variant.style)
}

} // verus!

verus! {

proof fn lemma_name_fonts_used(fonts: Seq<Option<(Seq<char>, Seq<u8>)>>)
    ensures
        name_fonts(fonts).1.finite(),
        name_fonts(fonts).1.len() <= fonts.len(),
    decreases fonts.len(),
{
    if fonts.len() > 0 {
        lemma_name_fonts_used(fonts.drop_last());
    }
}

proof fn lemma_name_fonts_push(fonts: Seq<Option<(Seq<char>, Seq<u8>)>>, f: Option<(Seq<char>, Seq<u8>)>)
    ensures
        name_fonts(fonts.push(f)) == (match f {
            None => name_fonts(fonts),
            Some((candidate, font)) => {
                let (files, used) = name_fonts(fonts);
                let name = spec_unique_name(used, candidate);
                (files.push((name, font)), used.insert(name))
            },
        }),
{
    assert(fonts.push(f).drop_last() =~= fonts);
}

proof fn lemma_pptx_jobs_take(entries: Seq<PptxFontModel>, i: int)
    requires
        0 <= i < entries.len(),
    ensures
        pptx_jobs(entries.take(i + 1)) == pptx_jobs(entries.take(i)) + pptx_entry_jobs(entries[i]),
{
    assert(entries.take(i + 1).drop_last() =~= entries.take(i));
}

proof fn lemma_pptx_jobs_len_mono(entries: Seq<PptxFontModel>, i: int)
    requires
        0 <= i <= entries.len(),
    ensures
        pptx_jobs(entries.take(i)).len() <= pptx_jobs(entries).len(),
    decreases entries.len() - i,
{
    if i < entries.len() {
        lemma_pptx_jobs_take(entries, i);
        lemma_pptx_jobs_len_mono(entries, i + 1);
    } else {
        assert(entries.take(i) =~= entries);
    }
}

proof fn lemma_docx_jobs_take(entries: Seq<DocxFontModel>, i: int)
    requires
        0 <= i < entries.len(),
    ensures
        docx_jobs(entries.take(i + 1)) == docx_jobs(entries.take(i)) + docx_entry_jobs(entries[i]),
{
    assert(entries.take(i + 1).drop_last() =~= entries.take(i));
}

proof fn lemma_docx_jobs_len_mono(entries: Seq<DocxFontModel>, i: int)
    requires
        0 <= i <= entries.len(),
    ensures
        docx_jobs(entries.take(i)).len() <= docx_jobs(entries).len(),
    decreases entries.len() - i,
{
    if i < entries.len() {
        lemma_docx_jobs_take(entries, i);
        lemma_docx_jobs_len_mono(entries, i + 1);
    } else {
        assert(entries.take(i) =~= entries);
    }
}

/// Whether the presentation declares fewer variants than can be named.
fn pptx_within_name_limit(entries: &Vec<PptxEmbeddedFontEntry>) -> (ok: bool)
    ensures
        ok == within_name_limit(pptx_jobs(pptx_entries_model(entries@))),
{
    let ghost model = pptx_entries_model(entries@);
    let mut total: u64 = 0;
    let mut i: usize = 0;
    while i < entries.len()
        invariant
            i <= entries@.len(),
            model == pptx_entries_model(entries@),
            total as nat == pptx_jobs(model.take(i as int)).len(),
            total < u32::MAX - 1,
        decreases entries.len() - i,
    {
        proof {
            lemma_pptx_jobs_take(model, i as int);
        }
        let n: u64 = entries[i].variants.len() as u64;
        if n >= (u32::MAX as u64 - 1) - total {
            proof {
                lemma_pptx_jobs_len_mono(model, i + 1);
            }
            return false;
        }
        total = total + n;
        i = i + 1;
    }
    assert(model.take(entries@.len() as int) =~= model);
    true
}

/// Whether the document declares fewer variants than can be named.
fn docx_within_name_limit(entries: &Vec<DocxEmbeddedFontEntry>) -> (ok: bool)
    ensures
        ok == within_name_limit(docx_jobs(docx_entries_model(entries@))),
{
    let ghost model = docx_entries_model(entries@);
    let mut total: u64 = 0;
    let mut i: usize = 0;
    while i < entries.len()
        invariant
            i <= entries@.len(),
            model == docx_entries_model(entries@),
            total as nat == docx_jobs(model.take(i as int)).len(),
            total < u32::MAX - 1,
        decreases entries.len() - i,
    {
        proof {
            lemma_docx_jobs_take(model, i as int);
        }
        let n: u64 = entries[i].variants.len() as u64;
        if n >= (u32::MAX as u64 - 1) - total {
            proof {
                lemma_docx_jobs_len_mono(model, i + 1);
            }
            return false;
        }
        total = total + n;
        i = i + 1;
    }
    assert(model.take(entries@.len() as int) =~= model);
    true
}

} // verus!

verus! {

/// Recovers every declared presentation variant, naming the fonts uniquely.
fn recover_pptx_fonts(
    archive: &mut OfficeArchive,
    rels: &Relationships,
    entries: &Vec<PptxEmbeddedFontEntry>,
) -> (files: Vec<EmbeddedFontFile>)
    requires
        within_name_limit(pptx_jobs(pptx_entries_model(entries@))),
    ensures
        final(archive)@ == old(archive)@,
        files_model(files@) == name_fonts(
            pptx_job_fonts(old(archive)@, rels@, pptx_jobs(pptx_entries_model(entries@))),
        ).0,
{
    let ghost data = archive@;
    let ghost model = pptx_entries_model(entries@);
    let mut used = UsedFontNames::new();
    let mut files: Vec<EmbeddedFontFile> = Vec::new();
    let mut i: usize = 0;
    assert(files_model(files@) =~= Seq::<(Seq<char>, Seq<u8>)>::empty());
    assert(pptx_job_fonts(data, rels@, pptx_jobs(model.take(0))) =~= Seq::<Option<(Seq<char>, Seq<u8>)>>::empty());
    while i < entries.len()
        invariant
            i <= entries@.len(),
            archive@ == data,
            model == pptx_entries_model(entries@),
            within_name_limit(pptx_jobs(model)),
            (files_model(files@), used@) == name_fonts(pptx_job_fonts(data, rels@, pptx_jobs(model.take(i as int)))),
        decreases entries.len() - i,
    {
        let entry = &entries[i];
        let ghost done = pptx_jobs(model.take(i as int));
        let ghost these = pptx_entry_jobs(model[i as int]);
        proof {
            lemma_pptx_jobs_take(model, i as int);
            lemma_pptx_jobs_len_mono(model, i + 1);
        }
        let mut j: usize = 0;
        assert(these.take(0) =~= Seq::<FontJob>::empty());
        assert(done + these.take(0) =~= done);
        while j < entry.variants.len()
            invariant
                i < entries@.len(),
                j <= entry.variants@.len(),
                *entry == entries@[i as int],
                archive@ == data,
                model == pptx_entries_model(entries@),
                these == pptx_entry_jobs(model[i as int]),
                these.len() == entry.variants@.len(),
                (done + these).len() < u32::MAX - 1,
                (files_model(files@), used@) == name_fonts(pptx_job_fonts(data, rels@, done + these.take(j as int))),
            decreases entry.variants.len() - j,
        {
            let ghost job = these[j as int];
            let font = pptx_variant_font(archive, rels, &entry.typeface, &entry.variants[j]);
            proof {
                assert(pptx_job_fonts(data, rels@, done + these.take(j + 1)) =~= pptx_job_fonts(data, rels@, done + these.take(j as int)).push(pptx_job_font(data, rels@, job)));
                lemma_name_fonts_push(pptx_job_fonts(data, rels@, done + these.take(j as int)), pptx_job_font(data, rels@, job));
                lemma_name_fonts_used(pptx_job_fonts(data, rels@, done + these.take(j as int)));
            }
            match font {
                Some((candidate, bytes)) => {
                    let name = unique_font_filename(&mut used, candidate.as_str());
                    let ghost before = files@;
                    files.push(EmbeddedFontFile { file_name: name, data: bytes });
                    assert(files_model(files@) =~= files_model(before).push(files@.last()@));
                },
                None => {},
            }
            j = j + 1;
        }
        assert(these.take(entry.variants@.len() as int) =~= these);
        i = i + 1;
    }
    assert(model.take(entries@.len() as int) =~= model);
    files
}

/// Recovers every declared word-processing variant, naming the fonts uniquely.
fn recover_docx_fonts(
    archive: &mut OfficeArchive,
    rels: &Relationships,
    entries: &Vec<DocxEmbeddedFontEntry>,
) -> (files: Vec<EmbeddedFontFile>)
    requires
        within_name_limit(docx_jobs(docx_entries_model(entries@))),
    ensures
        final(archive)@ == old(archive)@,
        files_model(files@) == name_fonts(
            docx_job_fonts(old(archive)@, rels@, docx_jobs(docx_entries_model(entries@))),
        ).0,
{
    let ghost data = archive@;
    let ghost model = docx_entries_model(entries@);
    let mut used = UsedFontNames::new();
    let mut files: Vec<EmbeddedFontFile> = Vec::new();
    let mut i: usize = 0;
    assert(files_model(files@) =~= Seq::<(Seq<char>, Seq<u8>)>::empty());
    assert(docx_job_fonts(data, rels@, docx_jobs(model.take(0))) =~= Seq::<Option<(Seq<char>, Seq<u8>)>>::empty());
    while i < entries.len()
        invariant
            i <= entries@.len(),
            archive@ == data,
            model == docx_entries_model(entries@),
            within_name_limit(docx_jobs(model)),
            (files_model(files@), used@) == name_fonts(docx_job_fonts(data, rels@, docx_jobs(model.take(i as int)))),
        decreases entries.len() - i,
    {
        let entry = &entries[i];
        let ghost done = docx_jobs(model.take(i as int));
        let ghost these = docx_entry_jobs(model[i as int]);
        proof {
            lemma_docx_jobs_take(model, i as int);
            lemma_docx_jobs_len_mono(model, i + 1);
        }
        let mut j: usize = 0;
        assert(these.take(0) =~= Seq::<FontJob>::empty());
        assert(done + these.take(0) =~= done);
        while j < entry.variants.len()
            invariant
                i < entries@.len(),
                j <= entry.variants@.len(),
                *entry == entries@[i as int],
                archive@ == data,
                model == docx_entries_model(entries@),
                these == docx_entry_jobs(model[i as int]),
                these.len() == entry.variants@.len(),
                (done + these).len() < u32::MAX - 1,
                (files_model(files@), used@) == name_fonts(docx_job_fonts(data, rels@, done + these.take(j as int))),
            decreases entry.variants.len() - j,
        {
            let ghost job = these[j as int];
            let font = docx_variant_font(archive, rels, &entry.font_name, &entry.variants[j]);
            proof {
                assert(docx_job_fonts(data, rels@, done + these.take(j + 1)) =~= docx_job_fonts(data, rels@, done + these.take(j as int)).push(docx_job_font(data, rels@, job)));
                lemma_name_fonts_push(docx_job_fonts(data, rels@, done + these.take(j as int)), docx_job_font(data, rels@, job));
                lemma_name_fonts_used(docx_job_fonts(data, rels@, done + these.take(j as int)));
            }
            match font {
                Some((candidate, bytes)) => {
                    let name = unique_font_filename(&mut used, candidate.as_str());
                    let ghost before = files@;
                    files.push(EmbeddedFontFile { file_name: name, data: bytes });
                    assert(files_model(files@) =~= files_model(before).push(files@.last()@));
                },
                None => {},
            }
            j = j + 1;
        }
        assert(these.take(entry.variants@.len() as int) =~= these);
        i = i + 1;
    }
    assert(model.take(entries@.len() as int) =~= model);
    files
}

} // verus!

verus! {

/// Recovers the embedded fonts of a presentation package.
pub fn extract_pptx_fonts(data: &[u8]) -> (files: Option<Vec<EmbeddedFontFile>>)
    ensures
        opt_files_model(files) == spec_extract_pptx_fonts(data@),
{
    let mut archive = match open_archive(data) {
        Some(a) => a,
        None => return None,
    };
    let pres_xml = match archive_entry_text(&mut archive, "ppt/presentation.xml") {
        Some(t) => t,
        None => return None,
    };
    let entries = parse_pptx_embedded_font_list(pres_xml.as_str());
    if entries.len() == 0 {
        return None;
    }
    let rels_xml = match archive_entry_text(&mut archive, "ppt/_rels/presentation.xml.rels") {
        Some(t) => t,
        None => return None,
    };
    let rels = parse_rels_id_target(rels_xml.as_str());
    if !pptx_within_name_limit(&entries) {
        return None;
    }
    let files = recover_pptx_fonts(&mut archive, &rels, &entries);
    if files.len() == 0 {
        return None;
    }
    Some(files)
}

/// Recovers the embedded fonts of a word-processing package.
pub fn extract_docx_fonts(data: &[u8]) -> (files: Option<Vec<EmbeddedFontFile>>)
    ensures
        opt_files_model(files) == spec_extract_docx_fonts(data@),
{
    let mut archive = match open_archive(data) {
        Some(a) => a,
        None => return None,
    };
    let table_xml = match archive_entry_text(&mut archive, "word/fontTable.xml") {
        Some(t) => t,
        None => return None,
    };
    let entries = parse_docx_embedded_font_entries(table_xml.as_str());
    if entries.len() == 0 {
        return None;
    }
    let rels_xml = match archive_entry_text(&mut archive, "word/_rels/fontTable.xml.rels") {
        Some(t) => t,
        None => return None,
    };
    let rels = parse_rels_id_target(rels_xml.as_str());
    if !docx_within_name_limit(&entries) {
        return None;
    }
    let files = recover_docx_fonts(&mut archive, &rels, &entries);
    if files.len() == 0 {
        return None;
    }
    Some(files)
}

/// Extract embedded fonts from an OOXML archive.
///
/// Returns `None` if:
/// - The format doesn't support embedded fonts (XLSX)
/// - No embedded fonts are declared in the document
/// - The ZIP cannot be opened
/// - No declared font could be recovered (best-effort)
///
/// Otherwise each recovered font comes with the file name it is to be written under; writing
/// the files is up to the caller.
pub fn extract_embedded_fonts(data: &[u8], format: Format) -> (files: Option<Vec<EmbeddedFontFile>>)
    ensures
        opt_files_model(files) == spec_extract_embedded_fonts(data@, format),
{
    match format {
        Format::Pptx => extract_pptx_fonts(data),
        Format::Docx => extract_docx_fonts(data),
        Format::Xlsx => None,
    }
}

} // verus!

verus! {

/// A file name that cannot leave the directory it is joined to: non-empty, made of ASCII
/// letters, digits, `-`, `_`, space and `.`, neither starting nor ending with `.`, and never
/// holding `..`. In particular it has no `/`, `\` or `:`.
pub open spec fn is_safe_file_name(n: Seq<char>) -> bool {
    &&& n.len() > 0
    &&& forall|i: int| 0 <= i < n.len() ==> is_allowed_name_char(#[trigger] n[i]) || n[i] == '.'
    &&& n[0] != '.'
    &&& n.last() != '.'
    &&& forall|i: int| #![trigger n[i]] 0 <= i < n.len() - 1 ==> !(n[i] == '.' && n[i + 1] == '.')
}

/// Every character of `s` is an allowed name character.
pub open spec fn all_name_chars(s: Seq<char>) -> bool {
    forall|i: int| 0 <= i < s.len() ==> is_allowed_name_char(#[trigger] s[i])
}

proof fn lemma_safe_dotted(x: Seq<char>, e: Seq<char>)
    requires
        x.len() > 0,
        e.len() > 0,
        all_name_chars(x),
        all_name_chars(e),
    ensures
        is_safe_file_name(x + seq!['.'] + e),
        last_dot(x + seq!['.'] + e) == Some(x.len() as int),
        (x + seq!['.'] + e).take(x.len() as int) == x,
        (x + seq!['.'] + e).skip(x.len() as int + 1) == e,
{
    let n = x + seq!['.'] + e;
    assert forall|i: int| 0 <= i < n.len() implies is_allowed_name_char(#[trigger] n[i]) || n[i] == '.' by {
        if i < x.len() {
            assert(n[i] == x[i]);
        } else if i > x.len() {
            assert(n[i] == e[i - x.len() - 1]);
        }
    }
    assert forall|i: int| #![trigger n[i]] 0 <= i < n.len() - 1 implies !(n[i] == '.' && n[i + 1] == '.') by {
        if i < x.len() {
            assert(n[i] == x[i]);
            assert(is_allowed_name_char(x[i]));
        } else {
            assert(n[i + 1] == e[i - x.len()]);
            assert(is_allowed_name_char(e[i - x.len()]));
        }
    }
    assert(n[0] == x[0]);
    assert(is_allowed_name_char(x[0]));
    assert(n.last() == e.last());
    assert(is_allowed_name_char(e[e.len() - 1]));
    assert forall|j: int| x.len() + 1 <= j < n.len() implies #[trigger] n[j] != '.' by {
        assert(n[j] == e[j - x.len() - 1]);
        assert(is_allowed_name_char(e[j - x.len() - 1]));
    }
    lemma_last_dot_from(n, x.len() as int + 1);
    assert(n.take(x.len() as int + 1).last() == '.');
    assert(n.take(x.len() as int) =~= x);
    assert(n.skip(x.len() as int + 1) =~= e);
}

proof fn lemma_decimal_name_chars(k: nat)
    ensures
        all_name_chars(decimal(k)),
        decimal(k).len() > 0,
    decreases k,
{
    let d = digit_char(k % 10);
    assert(d as nat == '0' as nat + k % 10);
    assert('0' <= d && d <= '9');
    if k >= 10 {
        lemma_decimal_name_chars(k / 10);
        assert(digit_char(k % 10) == d);
        let s = decimal(k);
        assert forall|i: int| 0 <= i < s.len() implies is_allowed_name_char(#[trigger] s[i]) by {
            if i < s.len() - 1 {
                assert(s[i] == decimal(k / 10)[i]);
            }
        }
    } else {
        assert(decimal(k)[0] == d);
    }
}

proof fn lemma_extension_chars(font: Seq<u8>)
    ensures
        all_name_chars(font_extension(font)),
        font_extension(font).len() > 0,
{
    reveal_strlit("ttf");
    reveal_strlit("otf");
    reveal_strlit("ttc");
    let e = font_extension(font);
    assert(e.len() == 3);
    assert forall|i: int| 0 <= i < e.len() implies is_allowed_name_char(#[trigger] e[i]) by {
        if i == 0 {
        } else if i == 1 {
        } else {
        }
    }
}

proof fn lemma_plain_name_chars(s: Seq<char>)
    requires
        is_plain_component(s),
    ensures
        all_name_chars(s),
        s.len() > 0,
{
}

/// A candidate name `{x}.{e}`: both parts non-empty name characters, the dot the last one.
pub open spec fn is_dotted_name(c: Seq<char>) -> bool {
    match last_dot(c) {
        Some(p) => {
            &&& 0 < p < c.len() - 1
            &&& all_name_chars(c.take(p))
            &&& all_name_chars(c.skip(p + 1))
            &&& c == c.take(p) + seq!['.'] + c.skip(p + 1)
        },
        None => false,
    }
}

/// The candidate name of a recovered font is dotted.
proof fn lemma_font_file_name_dotted(family: Seq<char>, style: Seq<char>, font: Seq<u8>)
    ensures
        is_dotted_name(font_file_name(family, style, font)),
{
    let a = spec_sanitize_font_component(family);
    let b = spec_sanitize_font_component(style);
    lemma_sanitize_plain(family);
    lemma_sanitize_plain(style);
    lemma_plain_name_chars(a);
    lemma_plain_name_chars(b);
    let x = a + seq!['-'] + b;
    assert(all_name_chars(x)) by {
        assert forall|i: int| 0 <= i < x.len() implies is_allowed_name_char(#[trigger] x[i]) by {
            if i < a.len() {
                assert(x[i] == a[i]);
            } else if i > a.len() {
                assert(x[i] == b[i - a.len() - 1]);
            }
        }
    }
    let e = font_extension(font);
    lemma_extension_chars(font);
    let c = font_file_name(family, style, font);
    assert(c =~= x + seq!['.'] + e);
    lemma_safe_dotted(x, e);
}

/// The name given to a dotted candidate, numbered or not, is safe.
proof fn lemma_unique_name_safe(used: Set<Seq<char>>, c: Seq<char>)
    requires
        used.finite(),
        used.len() < u32::MAX - 1,
        is_dotted_name(c),
    ensures
        is_safe_file_name(spec_unique_name(used, c)),
{
    let p = last_dot(c).unwrap();
    let x = c.take(p);
    let e = c.skip(p + 1);
    lemma_safe_dotted(x, e);
    lemma_unique_name_is_free(used, c);
    if used.contains(c) {
        let name = spec_unique_name(used, c);
        assert(stem_and_extension(c) == (x, e));
        let k = choose|k: nat|
            2 <= k <= u32::MAX && name == #[trigger] numbered_name(x, e, k) && !used.contains(name)
                && forall|j: nat| 2 <= j < k ==> used.contains(#[trigger] numbered_name(x, e, j));
        lemma_decimal_name_chars(k);
        let y = x + seq!['-'] + decimal(k);
        assert(all_name_chars(y)) by {
            assert forall|i: int| 0 <= i < y.len() implies is_allowed_name_char(#[trigger] y[i]) by {
                if i < x.len() {
                    assert(y[i] == x[i]);
                } else if i > x.len() {
                    assert(y[i] == decimal(k)[i - x.len() - 1]);
                }
            }
        }
        assert(name =~= y + seq!['.'] + e);
        lemma_safe_dotted(y, e);
    }
}

/// Every candidate in `fonts` is dotted.
pub open spec fn all_dotted(fonts: Seq<Option<(Seq<char>, Seq<u8>)>>) -> bool {
    forall|i: int| 0 <= i < fonts.len() ==> (#[trigger] fonts[i] matches Some((c, f)) ==> is_dotted_name(c))
}

/// Naming keeps the names distinct, safe and recorded as used.
proof fn lemma_name_fonts_laws(fonts: Seq<Option<(Seq<char>, Seq<u8>)>>)
    requires
        fonts.len() < u32::MAX - 1,
        all_dotted(fonts),
    ensures
        ({
            let (files, used) = name_fonts(fonts);
            &&& used.finite()
            &&& used.len() <= fonts.len()
            &&& forall|i: int| 0 <= i < files.len() ==> used.contains(#[trigger] files[i].0)
            &&& forall|i: int| 0 <= i < files.len() ==> is_safe_file_name(#[trigger] files[i].0)
            &&& forall|i: int, j: int| 0 <= i < j < files.len() ==> #[trigger] files[i].0 != #[trigger] files[j].0
        }),
    decreases fonts.len(),
{
    if fonts.len() > 0 {
        let rest = fonts.drop_last();
        assert(all_dotted(rest)) by {
            assert forall|i: int| 0 <= i < rest.len() implies (#[trigger] rest[i] matches Some((c, f)) ==> is_dotted_name(c)) by {
                assert(rest[i] == fonts[i]);
            }
        }
        lemma_name_fonts_laws(rest);
        lemma_name_fonts_used(rest);
        let (files, used) = name_fonts(rest);
        match fonts.last() {
            None => {},
            Some((candidate, font)) => {
                assert(fonts[fonts.len() - 1] == fonts.last());
                let name = spec_unique_name(used, candidate);
                lemma_unique_name_is_free(used, candidate);
                lemma_unique_name_safe(used, candidate);
                let out = files.push((name, font));
                assert forall|i: int, j: int| 0 <= i < j < out.len() implies #[trigger] out[i].0 != #[trigger] out[j].0 by {
                    if j == out.len() - 1 {
                        assert(used.contains(files[i].0));
                    } else {
                        assert(out[i] == files[i] && out[j] == files[j]);
                    }
                }
            },
        }
    }
}

/// The recovered fonts of a presentation all have dotted candidate names.
proof fn lemma_pptx_fonts_dotted(data: Seq<u8>, rels: Seq<(Seq<char>, Seq<char>)>, jobs: Seq<FontJob>)
    ensures
        all_dotted(pptx_job_fonts(data, rels, jobs)),
{
    let fonts = pptx_job_fonts(data, rels, jobs);
    assert forall|i: int| 0 <= i < fonts.len() implies (#[trigger] fonts[i] matches Some((c, f)) ==> is_dotted_name(c)) by {
        let job = jobs[i];
        if let Some((c, f)) = fonts[i] {
            lemma_font_file_name_dotted(job.family, job.style, f);
        }
    }
}

/// The recovered fonts of a word-processing document all have dotted candidate names.
proof fn lemma_docx_fonts_dotted(data: Seq<u8>, rels: Seq<(Seq<char>, Seq<char>)>, jobs: Seq<FontJob>)
    ensures
        all_dotted(docx_job_fonts(data, rels, jobs)),
{
    let fonts = docx_job_fonts(data, rels, jobs);
    assert forall|i: int| 0 <= i < fonts.len() implies (#[trigger] fonts[i] matches Some((c, f)) ==> is_dotted_name(c)) by {
        let job = jobs[i];
        if let Some((c, f)) = fonts[i] {
            lemma_font_file_name_dotted(job.family, job.style, f);
        }
    }
}

/// No two recovered fonts share a file name, and every file name is a plain file name that
/// stays inside the directory it is written to (no separator, no `..`, no leading dot).
pub proof fn law_extracted_names_distinct_and_safe(data: Seq<u8>, format: Format)
    ensures
        spec_extract_embedded_fonts(data, format) matches Some(files) ==> {
            &&& forall|i: int| 0 <= i < files.len() ==> is_safe_file_name(#[trigger] files[i].0)
            &&& forall|i: int, j: int| 0 <= i < j < files.len() ==> #[trigger] files[i].0 != #[trigger] files[j].0
        },
{
    match format {
        Format::Pptx => {
            if let Some(pres) = zip_entry_text(data, "ppt/presentation.xml"@) {
                if let Some(rels_xml) = zip_entry_text(data, "ppt/_rels/presentation.xml.rels"@) {
                    let jobs = pptx_jobs(spec_pptx_embedded_font_list(pres));
                    let rels = spec_parse_rels(rels_xml);
                    if within_name_limit(jobs) {
                        lemma_pptx_fonts_dotted(data, rels, jobs);
                        lemma_name_fonts_laws(pptx_job_fonts(data, rels, jobs));
                    }
                }
            }
        },
        Format::Docx => {
            if let Some(table) = zip_entry_text(data, "word/fontTable.xml"@) {
                if let Some(rels_xml) = zip_entry_text(data, "word/_rels/fontTable.xml.rels"@) {
                    let jobs = docx_jobs(spec_docx_embedded_font_entries(table));
                    let rels = spec_parse_rels(rels_xml);
                    if within_name_limit(jobs) {
                        lemma_docx_fonts_dotted(data, rels, jobs);
                        lemma_name_fonts_laws(docx_job_fonts(data, rels, jobs));
                    }
                }
            }
        },
        Format::Xlsx => {},
    }
}

/// A presentation font part that holds a font obfuscated with the key its GUID names gives
/// back exactly that font, under the name built from the variant's typeface and style.
pub proof fn law_pptx_recovers_original_font(
    data: Seq<u8>,
    rels: Seq<(Seq<char>, Seq<char>)>,
    job: FontJob,
    original: Seq<u8>,
)
    requires
        relationship_target(rels, job.r_id) is Some,
        spec_extract_guid_from_font_path(font_part_path("ppt/"@, relationship_target(rels, job.r_id).unwrap())) is Some,
        spec_parse_guid(spec_extract_guid_from_font_path(font_part_path("ppt/"@, relationship_target(rels, job.r_id).unwrap())).unwrap()) is Some,
        zip_entry_bytes(data, font_part_path("ppt/"@, relationship_target(rels, job.r_id).unwrap()))
            == Some(spec_deobfuscate(original, spec_parse_guid(spec_extract_guid_from_font_path(font_part_path("ppt/"@, relationship_target(rels, job.r_id).unwrap())).unwrap()).unwrap())),
    ensures
        pptx_job_font(data, rels, job) == Some((font_file_name(job.family, job.style, original), original)),
{
    let path = font_part_path("ppt/"@, relationship_target(rels, job.r_id).unwrap());
    let key = spec_parse_guid(spec_extract_guid_from_font_path(path).unwrap()).unwrap();
    crate::guid::lemma_guid_key_len(spec_extract_guid_from_font_path(path).unwrap());
    crate::font_data::law_deobfuscate_involution(original, key);
}

/// A word-processing font part that holds a font obfuscated with the key of the variant's
/// `fontKey` gives back exactly that font, under the name built from the font name and style.
pub proof fn law_docx_recovers_original_font(
    data: Seq<u8>,
    rels: Seq<(Seq<char>, Seq<char>)>,
    job: FontJob,
    original: Seq<u8>,
)
    requires
        relationship_target(rels, job.r_id) is Some,
        spec_parse_guid(job.font_key) is Some,
        zip_entry_bytes(data, font_part_path("word/"@, relationship_target(rels, job.r_id).unwrap()))
            == Some(spec_deobfuscate(original, spec_parse_guid(job.font_key).unwrap())),
    ensures
        docx_job_font(data, rels, job) == Some((font_file_name(job.family, job.style, original), original)),
{
    let key = spec_parse_guid(job.font_key).unwrap();
    crate::guid::lemma_guid_key_len(job.font_key);
    crate::font_data::law_deobfuscate_involution(original, key);
}

} // verus!
