//! The embedded-font declarations of a presentation (`presentation.xml`) and of a word
//! processing document (`word/fontTable.xml`), and relationship targets (`*.rels`).

use vstd::prelude::*;
use vstd::string::StringSliceAdditionalSpecFns;

use crate::xml::{
    bytes_are, local_name, local_name_of, read_xml_event, tag_attribute, tag_local_name,
    tag_local_name_of, xml_attribute, xml_event_at, xml_reader_from_str, utf8_len, XmlEvent,
    XmlToken,
};

verus! {

// =============================================================================
// PPTX: <p:embeddedFontLst>
// =============================================================================

/// A reference to a single font variant (regular, bold, italic, boldItalic).
pub struct FontVariantRef {
    pub style: String,
    pub r_id: String,
}

/// A PPTX embedded font entry parsed from `presentation.xml`.
pub struct PptxEmbeddedFontEntry {
    pub typeface: String,
    pub variants: Vec<FontVariantRef>,
}

/// A font variant: its style label and relationship id.
pub struct VariantModel {
    pub style: Seq<char>,
    pub r_id: Seq<char>,
}

/// A declared embedded font: its typeface and variants.
pub struct PptxFontModel {
    pub typeface: Seq<char>,
    pub variants: Seq<VariantModel>,
}

impl View for FontVariantRef {
    type V = VariantModel;

    open spec fn view(&self) -> VariantModel {
        VariantModel { style: self.style@, r_id: self.r_id@ }
    }
}

impl View for PptxEmbeddedFontEntry {
    type V = PptxFontModel;

    open spec fn view(&self) -> PptxFontModel {
        PptxFontModel {
            typeface: self.typeface@,
            variants: self.variants@.map_values(|v: FontVariantRef| v@),
        }
    }
}

/// The models of a list of entries.
pub open spec fn pptx_entries_model(entries: Seq<PptxEmbeddedFontEntry>) -> Seq<PptxFontModel> {
    entries.map_values(|e: PptxEmbeddedFontEntry| e@)
}

/// Where the scan of `presentation.xml` stands.
pub struct PptxScan {
    pub in_embedded_font: bool,
    pub typeface: Option<Seq<char>>,
    pub variants: Seq<VariantModel>,
    pub entries: Seq<PptxFontModel>,
}

/// Before the first event.
pub open spec fn pptx_scan_start() -> PptxScan {
    PptxScan {
        in_embedded_font: false,
        typeface: None,
        variants: Seq::empty(),
        entries: Seq::empty(),
    }
}

/// The style label of a variant element, by its local name.
pub open spec fn pptx_style(local: Seq<u8>) -> Option<Seq<char>> {
    if local == "regular".spec_bytes() {
        Some("regular"@)
    } else if local == "bold".spec_bytes() {
        Some("bold"@)
    } else if local == "italic".spec_bytes() {
        Some("italic"@)
    } else if local == "boldItalic".spec_bytes() {
        Some("boldItalic"@)
    } else {
        None
    }
}

/// One event of `presentation.xml`: `<embeddedFont>` opens an entry, `<font typeface=..>` names
/// it, `<regular|bold|italic|boldItalic r:id=..>` adds a variant, and `</embeddedFont>` keeps
/// the entry when it has a typeface and at least one variant.
pub open spec fn pptx_step(s: PptxScan, t: XmlToken) -> PptxScan {
    match t {
        XmlToken::Start(c, n) => if tag_local_name((c, n)) == "embeddedFont".spec_bytes() {
            PptxScan {
                in_embedded_font: true,
                typeface: None,
                variants: Seq::empty(),
                entries: s.entries,
            }
        } else {
            s
        },
        XmlToken::Empty(c, n) => if !s.in_embedded_font {
            s
        } else if tag_local_name((c, n)) == "font".spec_bytes() {
            PptxScan {
                in_embedded_font: s.in_embedded_font,
                typeface: xml_attribute((c, n), "typeface"@),
                variants: s.variants,
                entries: s.entries,
            }
        } else {
            match (pptx_style(tag_local_name((c, n))), xml_attribute((c, n), "r:id"@)) {
                (Some(style), Some(r_id)) => PptxScan {
                    in_embedded_font: s.in_embedded_font,
                    typeface: s.typeface,
                    variants: s.variants.push(VariantModel { style, r_id }),
                    entries: s.entries,
                },
                _ => s,
            }
        },
        XmlToken::End(q) => if local_name(q) == "embeddedFont".spec_bytes() && s.in_embedded_font {
            match s.typeface {
                Some(typeface) => if s.variants.len() > 0 {
                    PptxScan {
                        in_embedded_font: false,
                        typeface: None,
                        variants: Seq::empty(),
                        entries: s.entries.push(PptxFontModel { typeface, variants: s.variants }),
                    }
                } else {
                    PptxScan {
                        in_embedded_font: false,
                        typeface: None,
                        variants: s.variants,
                        entries: s.entries,
                    }
                },
                None => PptxScan {
                    in_embedded_font: false,
                    typeface: None,
                    variants: s.variants,
                    entries: s.entries,
                },
            }
        } else {
            s
        },
        _ => s,
    }
}

/// The scan of `source` after its first `k` events.
pub open spec fn pptx_scan(source: Seq<char>, k: nat) -> PptxScan
    decreases k,
{
    if k == 0 {
        pptx_scan_start()
    } else {
        pptx_step(pptx_scan(source, (k - 1) as nat), xml_event_at(source, (k - 1) as nat))
    }
}

/// Event `n` of `source` is the first at which reading stops (end of input or an error).
pub open spec fn is_first_final(source: Seq<char>, n: nat) -> bool {
    &&& xml_event_at(source, n).is_final()
    &&& forall|j: nat| j < n ==> !(#[trigger] xml_event_at(source, j)).is_final()
}

/// The index of the event at which reading `source` stops.
pub open spec fn final_index(source: Seq<char>) -> nat {
    choose|n: nat| is_first_final(source, n)
}

proof fn lemma_first_final_unique(source: Seq<char>, n: nat)
    requires
        is_first_final(source, n),
    ensures
        final_index(source) == n,
{
    let m = final_index(source);
    assert(is_first_final(source, m));
    if m < n {
        assert(!xml_event_at(source, m).is_final());
    } else if n < m {
        assert(!xml_event_at(source, n).is_final());
    }
}

/// The embedded fonts that `presentation.xml` declares, in document order.
pub open spec fn spec_pptx_embedded_font_list(source: Seq<char>) -> Seq<PptxFontModel> {
    pptx_scan(source, final_index(source)).entries
}

/// The state of a scan of `presentation.xml`.
pub struct PptxFontListScanner {
    in_embedded_font: bool,
    typeface: Option<String>,
    variants: Vec<FontVariantRef>,
    entries: Vec<PptxEmbeddedFontEntry>,
}

impl View for PptxFontListScanner {
    type V = PptxScan;

    closed spec fn view(&self) -> PptxScan {
        PptxScan {
            in_embedded_font: self.in_embedded_font,
            typeface: match self.typeface {
                Some(t) => Some(t@),
                None => None,
            },
            variants: self.variants@.map_values(|v: FontVariantRef| v@),
            entries: pptx_entries_model(self.entries@),
        }
    }
}

impl PptxFontListScanner {
    /// A scan before any event.
    pub fn new() -> (s: Self)
        ensures
            s@ == pptx_scan_start(),
    {
        let s = PptxFontListScanner {
            in_embedded_font: false,
            typeface: None,
            variants: Vec::new(),
            entries: Vec::new(),
        };
        assert(s@.variants =~= Seq::<VariantModel>::empty());
        assert(s@.entries =~= Seq::<PptxFontModel>::empty());
        s
    }

    /// Takes one event into account.
    pub fn step(&mut self, event: &XmlEvent)
        requires
            event@.name_fits(),
        ensures
            final(self)@ == pptx_step(old(self)@, event@),
    {
        match event {
            XmlEvent::Start(tag) => {
                let local = tag_local_name_of(tag);
                if bytes_are(local.as_slice(), "embeddedFont") {
                    self.in_embedded_font = true;
                    self.typeface = None;
                    self.variants = Vec::new();
                    assert(self@.variants =~= Seq::<VariantModel>::empty());
                }
            },
            XmlEvent::Empty(tag) => {
                if self.in_embedded_font {
                    let local = tag_local_name_of(tag);
                    if bytes_are(local.as_slice(), "font") {
                        self.typeface = tag_attribute(tag, "typeface");
                    } else {
                        let style = if bytes_are(local.as_slice(), "regular") {
                            Some(String::from_str("regular"))
                        } else if bytes_are(local.as_slice(), "bold") {
                            Some(String::from_str("bold"))
                        } else if bytes_are(local.as_slice(), "italic") {
                            Some(String::from_str("italic"))
                        } else if bytes_are(local.as_slice(), "boldItalic") {
                            Some(String::from_str("boldItalic"))
                        } else {
                            None
                        };
                        if let Some(style) = style {
                            if let Some(r_id) = tag_attribute(tag, "r:id") {
                                let ghost before = self.variants@;
                                self.variants.push(FontVariantRef { style, r_id });
                                assert(self.variants@.map_values(|v: FontVariantRef| v@) =~= before.map_values(|v: FontVariantRef| v@).push(self.variants@.last()@));
                            }
                        }
                    }
                }
            },
            XmlEvent::End(name) => {
                let local = local_name_of(name.as_slice());
                if bytes_are(local.as_slice(), "embeddedFont") && self.in_embedded_font {
                    self.in_embedded_font = false;
                    let typeface = self.typeface.take();
                    if let Some(typeface) = typeface {
                        if self.variants.len() > 0 {
                            let mut variants: Vec<FontVariantRef> = Vec::new();
                            std::mem::swap(&mut variants, &mut self.variants);
                            let ghost before = self.entries@;
                            self.entries.push(PptxEmbeddedFontEntry { typeface, variants });
                            assert(pptx_entries_model(self.entries@) =~= pptx_entries_model(before).push(self.entries@.last()@));
                            assert(self@.variants =~= Seq::<VariantModel>::empty());
                        }
                    }
                }
            },
            _ => {},
        }
    }

    /// The entries kept so far.
    pub fn into_entries(self) -> (entries: Vec<PptxEmbeddedFontEntry>)
        ensures
            pptx_entries_model(entries@) == self@.entries,
    {
        self.entries
    }
}

/// Parse `<p:embeddedFontLst>` from `presentation.xml`.
pub fn parse_pptx_embedded_font_list(xml: &str) -> (entries: Vec<PptxEmbeddedFontEntry>)
    ensures
        pptx_entries_model(entries@) == spec_pptx_embedded_font_list(xml@),
{
    let mut reader = xml_reader_from_str(xml);
    let mut scanner = PptxFontListScanner::new();
    loop
        invariant
            reader@.0 == xml@,
            reader@.1 <= utf8_len(xml@),
            forall|j: nat| j < reader@.1 ==> !(#[trigger] xml_event_at(xml@, j)).is_final(),
            scanner@ == pptx_scan(xml@, reader@.1),
        decreases utf8_len(xml@) - reader@.1,
    {
        let ghost k = reader@.1;
        let event = read_xml_event(&mut reader);
        match event {
            XmlEvent::Eof | XmlEvent::Failed => {
                proof {
                    assert(is_first_final(xml@, k));
                    lemma_first_final_unique(xml@, k);
                }
                return scanner.into_entries();
            },
            _ => {},
        }
        scanner.step(&event);
    }
}

} // verus!

verus! {

// =============================================================================
// DOCX: <w:font> entries of word/fontTable.xml
// =============================================================================

/// A DOCX font variant reference including the fontKey for deobfuscation.
pub struct DocxFontVariantRef {
    pub style: String,
    pub r_id: String,
    pub font_key: String,
}

/// A DOCX embedded font entry parsed from `word/fontTable.xml`.
pub struct DocxEmbeddedFontEntry {
    pub font_name: String,
    pub variants: Vec<DocxFontVariantRef>,
}

/// A DOCX font variant: style label, relationship id and obfuscation key GUID.
pub struct DocxVariantModel {
    pub style: Seq<char>,
    pub r_id: Seq<char>,
    pub font_key: Seq<char>,
}

/// A DOCX font with embedded variants.
pub struct DocxFontModel {
    pub font_name: Seq<char>,
    pub variants: Seq<DocxVariantModel>,
}

impl View for DocxFontVariantRef {
    type V = DocxVariantModel;

    open spec fn view(&self) -> DocxVariantModel {
        DocxVariantModel { style: self.style@, r_id: self.r_id@, font_key: self.font_key@ }
    }
}

impl View for DocxEmbeddedFontEntry {
    type V = DocxFontModel;

    open spec fn view(&self) -> DocxFontModel {
        DocxFontModel {
            font_name: self.font_name@,
            variants: self.variants@.map_values(|v: DocxFontVariantRef| v@),
        }
    }
}

/// The models of a list of entries.
pub open spec fn docx_entries_model(entries: Seq<DocxEmbeddedFontEntry>) -> Seq<DocxFontModel> {
    entries.map_values(|e: DocxEmbeddedFontEntry| e@)
}

/// Where the scan of `word/fontTable.xml` stands.
pub struct DocxScan {
    pub in_font: bool,
    pub name: Option<Seq<char>>,
    pub variants: Seq<DocxVariantModel>,
    pub entries: Seq<DocxFontModel>,
}

/// Before the first event.
pub open spec fn docx_scan_start() -> DocxScan {
    DocxScan { in_font: false, name: None, variants: Seq::empty(), entries: Seq::empty() }
}

/// The style label of an embedding element, by its local name.
pub open spec fn docx_style(local: Seq<u8>) -> Option<Seq<char>> {
    if local == "embedRegular".spec_bytes() {
        Some("regular"@)
    } else if local == "embedBold".spec_bytes() {
        Some("bold"@)
    } else if local == "embedItalic".spec_bytes() {
        Some("italic"@)
    } else if local == "embedBoldItalic".spec_bytes() {
        Some("boldItalic"@)
    } else {
        None
    }
}

/// The first of two optional values that is present.
pub open spec fn or_else(a: Option<Seq<char>>, b: Option<Seq<char>>) -> Option<Seq<char>> {
    match a {
        Some(v) => Some(v),
        None => b,
    }
}

/// One event of `word/fontTable.xml`: `<font>` (start tag) opens an entry named by `w:name` or
/// `name`, `<embedRegular|embedBold|embedItalic|embedBoldItalic>` with `r:id` and `w:fontKey`
/// (or `fontKey`) adds a variant, and `</font>` keeps the entry when it has a name and at least
/// one variant.
pub open spec fn docx_step(s: DocxScan, t: XmlToken) -> DocxScan {
    match t {
        XmlToken::Start(c, n) => if tag_local_name((c, n)) == "font".spec_bytes() {
            DocxScan {
                in_font: true,
                name: or_else(xml_attribute((c, n), "w:name"@), xml_attribute((c, n), "name"@)),
                variants: Seq::empty(),
                entries: s.entries,
            }
        } else {
            s
        },
        XmlToken::Empty(c, n) => if !s.in_font {
            s
        } else {
            match (
                docx_style(tag_local_name((c, n))),
                xml_attribute((c, n), "r:id"@),
                or_else(xml_attribute((c, n), "w:fontKey"@), xml_attribute((c, n), "fontKey"@)),
            ) {
                (Some(style), Some(r_id), Some(font_key)) => DocxScan {
                    in_font: s.in_font,
                    name: s.name,
                    variants: s.variants.push(DocxVariantModel { style, r_id, font_key }),
                    entries: s.entries,
                },
                _ => s,
            }
        },
        XmlToken::End(q) => if local_name(q) == "font".spec_bytes() && s.in_font {
            match s.name {
                Some(name) => if s.variants.len() > 0 {
                    DocxScan {
                        in_font: false,
                        name: None,
                        variants: Seq::empty(),
                        entries: s.entries.push(DocxFontModel { font_name: name, variants: s.variants }),
                    }
                } else {
                    DocxScan { in_font: false, name: None, variants: s.variants, entries: s.entries }
                },
                None => DocxScan { in_font: false, name: None, variants: s.variants, entries: s.entries },
            }
        } else {
            s
        },
        _ => s,
    }
}

/// The scan of `source` after its first `k` events.
pub open spec fn docx_scan(source: Seq<char>, k: nat) -> DocxScan
    decreases k,
{
    if k == 0 {
        docx_scan_start()
    } else {
        docx_step(docx_scan(source, (k - 1) as nat), xml_event_at(source, (k - 1) as nat))
    }
}

/// The fonts with embedded variants that `word/fontTable.xml` declares, in document order.
pub open spec fn spec_docx_embedded_font_entries(source: Seq<char>) -> Seq<DocxFontModel> {
    docx_scan(source, final_index(source)).entries
}

/// The state of a scan of `word/fontTable.xml`.
pub struct DocxFontTableScanner {
    in_font: bool,
    name: Option<String>,
    variants: Vec<DocxFontVariantRef>,
    entries: Vec<DocxEmbeddedFontEntry>,
}

impl View for DocxFontTableScanner {
    type V = DocxScan;

    closed spec fn view(&self) -> DocxScan {
        DocxScan {
            in_font: self.in_font,
            name: match self.name {
                Some(t) => Some(t@),
                None => None,
            },
            variants: self.variants@.map_values(|v: DocxFontVariantRef| v@),
            entries: docx_entries_model(self.entries@),
        }
    }
}

/// The first attribute of `tag` among `first` and `second` that is present.
fn first_attribute(tag: &crate::xml::XmlTag, first: &str, second: &str) -> (value: Option<String>)
    requires
        tag.name_len <= tag.content@.len(),
    ensures
        (match value {
            Some(v) => Some(v@),
            None => None,
        }) == or_else(xml_attribute(tag@, first@), xml_attribute(tag@, second@)),
{
    match tag_attribute(tag, first) {
        Some(v) => Some(v),
        None => tag_attribute(tag, second),
    }
}

impl DocxFontTableScanner {
    /// A scan before any event.
    pub fn new() -> (s: Self)
        ensures
            s@ == docx_scan_start(),
    {
        let s = DocxFontTableScanner {
            in_font: false,
            name: None,
            variants: Vec::new(),
            entries: Vec::new(),
        };
        assert(s@.variants =~= Seq::<DocxVariantModel>::empty());
        assert(s@.entries =~= Seq::<DocxFontModel>::empty());
        s
    }

    /// Takes one event into account.
    pub fn step(&mut self, event: &XmlEvent)
        requires
            event@.name_fits(),
        ensures
            final(self)@ == docx_step(old(self)@, event@),
    {
        match event {
            XmlEvent::Start(tag) => {
                let local = tag_local_name_of(tag);
                if bytes_are(local.as_slice(), "font") {
                    self.in_font = true;
                    self.name = first_attribute(tag, "w:name", "name");
                    self.variants = Vec::new();
                    assert(self@.variants =~= Seq::<DocxVariantModel>::empty());
                }
            },
            XmlEvent::Empty(tag) => {
                if self.in_font {
                    let local = tag_local_name_of(tag);
                    let style = if bytes_are(local.as_slice(), "embedRegular") {
                        Some(String::from_str("regular"))
                    } else if bytes_are(local.as_slice(), "embedBold") {
                        Some(String::from_str("bold"))
                    } else if bytes_are(local.as_slice(), "embedItalic") {
                        Some(String::from_str("italic"))
                    } else if bytes_are(local.as_slice(), "embedBoldItalic") {
                        Some(String::from_str("boldItalic"))
                    } else {
                        None
                    };
                    if let Some(style) = style {
                        let r_id = tag_attribute(tag, "r:id");
                        let font_key = first_attribute(tag, "w:fontKey", "fontKey");
                        if let (Some(r_id), Some(font_key)) = (r_id, font_key) {
                            let ghost before = self.variants@;
                            self.variants.push(DocxFontVariantRef { style, r_id, font_key });
                            assert(self.variants@.map_values(|v: DocxFontVariantRef| v@) =~= before.map_values(|v: DocxFontVariantRef| v@).push(self.variants@.last()@));
                        }
                    }
                }
            },
            XmlEvent::End(name) => {
                let local = local_name_of(name.as_slice());
                if bytes_are(local.as_slice(), "font") && self.in_font {
                    self.in_font = false;
                    let font_name = self.name.take();
                    if let Some(font_name) = font_name {
                        if self.variants.len() > 0 {
                            let mut variants: Vec<DocxFontVariantRef> = Vec::new();
                            std::mem::swap(&mut variants, &mut self.variants);
                            let ghost before = self.entries@;
                            self.entries.push(DocxEmbeddedFontEntry { font_name, variants });
                            assert(docx_entries_model(self.entries@) =~= docx_entries_model(before).push(self.entries@.last()@));
                            assert(self@.variants =~= Seq::<DocxVariantModel>::empty());
                        }
                    }
                }
            },
            _ => {},
        }
    }

    /// The entries kept so far.
    pub fn into_entries(self) -> (entries: Vec<DocxEmbeddedFontEntry>)
        ensures
            docx_entries_model(entries@) == self@.entries,
    {
        self.entries
    }
}

/// Parse `<w:font>` elements with embedded font references from `word/fontTable.xml`.
pub fn parse_docx_embedded_font_entries(xml: &str) -> (entries: Vec<DocxEmbeddedFontEntry>)
    ensures
        docx_entries_model(entries@) == spec_docx_embedded_font_entries(xml@),
{
    let mut reader = xml_reader_from_str(xml);
    let mut scanner = DocxFontTableScanner::new();
    loop
        invariant
            reader@.0 == xml@,
            reader@.1 <= utf8_len(xml@),
            forall|j: nat| j < reader@.1 ==> !(#[trigger] xml_event_at(xml@, j)).is_final(),
            scanner@ == docx_scan(xml@, reader@.1),
        decreases utf8_len(xml@) - reader@.1,
    {
        let ghost k = reader@.1;
        let event = read_xml_event(&mut reader);
        match event {
            XmlEvent::Eof | XmlEvent::Failed => {
                proof {
                    assert(is_first_final(xml@, k));
                    lemma_first_final_unique(xml@, k);
                }
                return scanner.into_entries();
            },
            _ => {},
        }
        scanner.step(&event);
    }
}

} // verus!

verus! {

// =============================================================================
// Relationships: Id -> Target of a `*.rels` part
// =============================================================================

/// The `Id` and `Target` of each `<Relationship>` of a relationships part, in document order.
pub struct Relationships {
    pairs: Vec<(String, String)>,
}

impl View for Relationships {
    type V = Seq<(Seq<char>, Seq<char>)>;

    closed spec fn view(&self) -> Seq<(Seq<char>, Seq<char>)> {
        self.pairs@.map_values(|p: (String, String)| (p.0@, p.1@))
    }
}

/// The target recorded last for `id`: a later relationship with the same id replaces an
/// earlier one.
pub open spec fn relationship_target(pairs: Seq<(Seq<char>, Seq<char>)>, id: Seq<char>) -> Option<Seq<char>>
    decreases pairs.len(),
{
    if pairs.len() == 0 {
        None
    } else if pairs.last().0 == id {
        Some(pairs.last().1)
    } else {
        relationship_target(pairs.drop_last(), id)
    }
}

/// One event of a relationships part: a `<Relationship>` tag (start or self-closing) with both
/// an `Id` and a `Target` attribute records the pair.
pub open spec fn rels_step(pairs: Seq<(Seq<char>, Seq<char>)>, t: XmlToken) -> Seq<(Seq<char>, Seq<char>)> {
    match t {
        XmlToken::Start(c, n) => rels_tag(pairs, (c, n)),
        XmlToken::Empty(c, n) => rels_tag(pairs, (c, n)),
        _ => pairs,
    }
}

/// The pairs after a start or self-closing tag.
pub open spec fn rels_tag(pairs: Seq<(Seq<char>, Seq<char>)>, tag: (Seq<u8>, nat)) -> Seq<(Seq<char>, Seq<char>)> {
    if tag_local_name(tag) == "Relationship".spec_bytes() {
        match (xml_attribute(tag, "Id"@), xml_attribute(tag, "Target"@)) {
            (Some(id), Some(target)) => pairs.push((id, target)),
            _ => pairs,
        }
    } else {
        pairs
    }
}

/// The pairs recorded from the first `k` events of `source`.
pub open spec fn rels_scan(source: Seq<char>, k: nat) -> Seq<(Seq<char>, Seq<char>)>
    decreases k,
{
    if k == 0 {
        Seq::empty()
    } else {
        rels_step(rels_scan(source, (k - 1) as nat), xml_event_at(source, (k - 1) as nat))
    }
}

/// The relationships that a relationships part declares.
pub open spec fn spec_parse_rels(source: Seq<char>) -> Seq<(Seq<char>, Seq<char>)> {
    rels_scan(source, final_index(source))
}

impl Relationships {
    /// The target of relationship `id`, if there is one.
    pub fn get(&self, id: &String) -> (target: Option<&String>)
        ensures
            (match target {
                Some(t) => Some(t@),
                None => None,
            }) == relationship_target(self@, id@),
    {
        let mut i: usize = self.pairs.len();
        assert(self@.take(i as int) =~= self@);
        while i > 0
            invariant
                i <= self.pairs@.len(),
                relationship_target(self@, id@) == relationship_target(self@.take(i as int), id@),
            decreases i,
        {
            proof {
                assert(self@.take(i as int).drop_last() =~= self@.take(i - 1));
            }
            if self.pairs[i - 1].0 == *id {
                return Some(&self.pairs[i - 1].1);
            }
            i = i - 1;
        }
        None
    }

    /// Records the relationships that `event` declares.
    fn record(&mut self, event: &XmlEvent)
        requires
            event@.name_fits(),
        ensures
            final(self)@ == rels_step(old(self)@, event@),
    {
        match event {
            XmlEvent::Start(tag) => self.record_tag(tag),
            XmlEvent::Empty(tag) => self.record_tag(tag),
            _ => {},
        }
    }

    fn record_tag(&mut self, tag: &crate::xml::XmlTag)
        requires
            tag.name_len <= tag.content@.len(),
        ensures
            final(self)@ == rels_tag(old(self)@, tag@),
    {
        let local = tag_local_name_of(tag);
        if bytes_are(local.as_slice(), "Relationship") {
            let id = tag_attribute(tag, "Id");
            let target = tag_attribute(tag, "Target");
            if let (Some(id), Some(target)) = (id, target) {
                let ghost before = self.pairs@;
                self.pairs.push((id, target));
                assert(self@ =~= before.map_values(|p: (String, String)| (p.0@, p.1@)).push((self.pairs@.last().0@, self.pairs@.last().1@)));
            }
        }
    }
}

/// Parse the `Id` -> `Target` relationships of a `*.rels` part.
pub fn parse_rels_id_target(xml: &str) -> (rels: Relationships)
    ensures
        rels@ == spec_parse_rels(xml@),
{
    let mut reader = xml_reader_from_str(xml);
    let mut rels = Relationships { pairs: Vec::new() };
    assert(rels@ =~= Seq::<(Seq<char>, Seq<char>)>::empty());
    loop
        invariant
            reader@.0 == xml@,
            reader@.1 <= utf8_len(xml@),
            forall|j: nat| j < reader@.1 ==> !(#[trigger] xml_event_at(xml@, j)).is_final(),
            rels@ == rels_scan(xml@, reader@.1),
        decreases utf8_len(xml@) - reader@.1,
    {
        let ghost k = reader@.1;
        let event = read_xml_event(&mut reader);
        match event {
            XmlEvent::Eof | XmlEvent::Failed => {
                proof {
                    assert(is_first_final(xml@, k));
                    lemma_first_final_unique(xml@, k);
                }
                return rels;
            },
            _ => {},
        }
        rels.record(&event);
    }
}

} // verus!

verus! {

proof fn lemma_pptx_scan_nonempty(source: Seq<char>, k: nat)
    ensures
        forall|i: int| 0 <= i < pptx_scan(source, k).entries.len() ==> (#[trigger] pptx_scan(source, k).entries[i]).variants.len() > 0,
    decreases k,
{
    if k > 0 {
        lemma_pptx_scan_nonempty(source, (k - 1) as nat);
    }
}

/// Every declared presentation font that the parser keeps has a typeface and at least one
/// variant; declarations without variants are dropped.
pub proof fn law_pptx_entries_have_variants(source: Seq<char>)
    ensures
        forall|i: int| 0 <= i < spec_pptx_embedded_font_list(source).len() ==> (#[trigger] spec_pptx_embedded_font_list(source)[i]).variants.len() > 0,
{
    lemma_pptx_scan_nonempty(source, final_index(source));
}

proof fn lemma_docx_scan_nonempty(source: Seq<char>, k: nat)
    ensures
        forall|i: int| 0 <= i < docx_scan(source, k).entries.len() ==> (#[trigger] docx_scan(source, k).entries[i]).variants.len() > 0,
    decreases k,
{
    if k > 0 {
        lemma_docx_scan_nonempty(source, (k - 1) as nat);
    }
}

/// Every font that the font-table parser keeps has at least one embedded variant; fonts
/// declared without embedding are dropped.
pub proof fn law_docx_entries_have_variants(source: Seq<char>)
    ensures
        forall|i: int| 0 <= i < spec_docx_embedded_font_entries(source).len() ==> (#[trigger] spec_docx_embedded_font_entries(source)[i]).variants.len() > 0,
{
    lemma_docx_scan_nonempty(source, final_index(source));
}

} // verus!

verus! {

/// Different texts have different UTF-8 bytes.
proof fn lemma_utf8_differs(a: Seq<char>, b: Seq<char>)
    requires
        a != b,
    ensures
        vstd::utf8::encode_utf8(a) != vstd::utf8::encode_utf8(b),
{
    if vstd::utf8::encode_utf8(a) == vstd::utf8::encode_utf8(b) {
        vstd::utf8::encode_utf8_decode_utf8(a);
        vstd::utf8::encode_utf8_decode_utf8(b);
    }
}

/// A variant that a presentation element adds is labelled with the element's own local name:
/// the label's UTF-8 bytes are exactly that name, and its relationship id is the element's
/// `r:id`.
pub proof fn law_pptx_variant_style_is_element_name(s: PptxScan, content: Seq<u8>, name_len: nat)
    ensures
        ({
            let next = pptx_step(s, XmlToken::Empty(content, name_len));
            next.variants.len() == s.variants.len() + 1 ==> {
                &&& vstd::utf8::encode_utf8(next.variants.last().style) == tag_local_name((content, name_len))
                &&& xml_attribute((content, name_len), "r:id"@) == Some(next.variants.last().r_id)
            }
        }),
{
}

/// Inside `<embeddedFont>`, an element `<regular|bold|italic|boldItalic r:id=..>` adds one
/// variant labelled `regular`, `bold`, `italic` or `boldItalic` respectively, with that `r:id`,
/// and changes nothing else.
pub proof fn law_pptx_variant_elements(s: PptxScan, content: Seq<u8>, name_len: nat, r_id: Seq<char>)
    requires
        s.in_embedded_font,
        xml_attribute((content, name_len), "r:id"@) == Some(r_id),
    ensures
        tag_local_name((content, name_len)) == "regular".spec_bytes() ==> pptx_step(s, XmlToken::Empty(content, name_len))
            == (PptxScan { variants: s.variants.push(VariantModel { style: "regular"@, r_id }), ..s }),
        tag_local_name((content, name_len)) == "bold".spec_bytes() ==> pptx_step(s, XmlToken::Empty(content, name_len))
            == (PptxScan { variants: s.variants.push(VariantModel { style: "bold"@, r_id }), ..s }),
        tag_local_name((content, name_len)) == "italic".spec_bytes() ==> pptx_step(s, XmlToken::Empty(content, name_len))
            == (PptxScan { variants: s.variants.push(VariantModel { style: "italic"@, r_id }), ..s }),
        tag_local_name((content, name_len)) == "boldItalic".spec_bytes() ==> pptx_step(s, XmlToken::Empty(content, name_len))
            == (PptxScan { variants: s.variants.push(VariantModel { style: "boldItalic"@, r_id }), ..s }),
{
    reveal_strlit("regular");
    reveal_strlit("bold");
    reveal_strlit("italic");
    reveal_strlit("boldItalic");
    reveal_strlit("font");
    assert("bold"@[0] != "font"@[0]);
    lemma_utf8_differs("regular"@, "font"@);
    lemma_utf8_differs("bold"@, "font"@);
    lemma_utf8_differs("italic"@, "font"@);
    lemma_utf8_differs("boldItalic"@, "font"@);
    lemma_utf8_differs("regular"@, "bold"@);
    lemma_utf8_differs("regular"@, "italic"@);
    lemma_utf8_differs("regular"@, "boldItalic"@);
    lemma_utf8_differs("bold"@, "italic"@);
    lemma_utf8_differs("bold"@, "boldItalic"@);
    lemma_utf8_differs("italic"@, "boldItalic"@);
}

/// Inside `<font>`, an element `<embedRegular|embedBold|embedItalic|embedBoldItalic>` with an
/// `r:id` and a font key adds one variant labelled `regular`, `bold`, `italic` or `boldItalic`
/// respectively, with that id and key, and changes nothing else.
pub proof fn law_docx_variant_elements(
    s: DocxScan,
    content: Seq<u8>,
    name_len: nat,
    r_id: Seq<char>,
    font_key: Seq<char>,
)
    requires
        s.in_font,
        xml_attribute((content, name_len), "r:id"@) == Some(r_id),
        or_else(xml_attribute((content, name_len), "w:fontKey"@), xml_attribute((content, name_len), "fontKey"@))
            == Some(font_key),
    ensures
        tag_local_name((content, name_len)) == "embedRegular".spec_bytes() ==> docx_step(s, XmlToken::Empty(content, name_len))
            == (DocxScan { variants: s.variants.push(DocxVariantModel { style: "regular"@, r_id, font_key }), ..s }),
        tag_local_name((content, name_len)) == "embedBold".spec_bytes() ==> docx_step(s, XmlToken::Empty(content, name_len))
            == (DocxScan { variants: s.variants.push(DocxVariantModel { style: "bold"@, r_id, font_key }), ..s }),
        tag_local_name((content, name_len)) == "embedItalic".spec_bytes() ==> docx_step(s, XmlToken::Empty(content, name_len))
            == (DocxScan { variants: s.variants.push(DocxVariantModel { style: "italic"@, r_id, font_key }), ..s }),
        tag_local_name((content, name_len)) == "embedBoldItalic".spec_bytes() ==> docx_step(
            s,
            XmlToken::Empty(content, name_len),
        ) == (DocxScan { variants: s.variants.push(DocxVariantModel { style: "boldItalic"@, r_id, font_key }), ..s }),
{
    reveal_strlit("embedRegular");
    reveal_strlit("embedBold");
    reveal_strlit("embedItalic");
    reveal_strlit("embedBoldItalic");
    lemma_utf8_differs("embedRegular"@, "embedBold"@);
    lemma_utf8_differs("embedRegular"@, "embedItalic"@);
    lemma_utf8_differs("embedRegular"@, "embedBoldItalic"@);
    lemma_utf8_differs("embedBold"@, "embedItalic"@);
    lemma_utf8_differs("embedBold"@, "embedBoldItalic"@);
    lemma_utf8_differs("embedItalic"@, "embedBoldItalic"@);
}

} // verus!
