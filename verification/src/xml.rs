//! Pull-parsing XML with quick-xml, seen through plain values.
//!
//! The tokenizer is quick-xml's. What its events carry, and what an attribute lookup gives,
//! are named spec functions of the input; the font-table parsers are verified against them.

use vstd::prelude::*;

use quick_xml::events::{BytesStart, Event};
use quick_xml::Reader;
use vstd::string::StringSliceAdditionalSpecFns;

verus! {

#[verifier::external_type_specification]
#[verifier::external_body]
#[verifier::reject_recursive_types(R)]
pub struct ExXmlReader<R>(Reader<R>);

/// One XML event, as the library sees it.
pub enum XmlToken {
    /// Start tag: the raw tag content (name and attributes) and the length of the name in bytes.
    Start(Seq<u8>, nat),
    /// Self-closing tag, as for `Start`.
    Empty(Seq<u8>, nat),
    /// End tag, with its qualified name.
    End(Seq<u8>),
    /// End of input.
    Eof,
    /// The tokenizer reported an error.
    Failed,
    /// Text, comments, declarations and the like.
    Other,
}

impl XmlToken {
    /// Whether the parsers stop at this event.
    pub open spec fn is_final(self) -> bool {
        self is Eof || self is Failed
    }

    /// Whether a tag's name length lies within its content, as it does in every tag the reader
    /// hands out.
    pub open spec fn name_fits(self) -> bool {
        match self {
            XmlToken::Start(c, n) => n <= c.len(),
            XmlToken::Empty(c, n) => n <= c.len(),
            _ => true,
        }
    }
}

/// A start or self-closing tag: its raw content (qualified name, then attributes) and how many
/// of its leading bytes are the name.
pub struct XmlTag {
    pub content: Vec<u8>,
    pub name_len: usize,
}

impl View for XmlTag {
    type V = (Seq<u8>, nat);

    open spec fn view(&self) -> (Seq<u8>, nat) {
        (self.content@, self.name_len as nat)
    }
}

/// One event of the input, holding plain values only.
pub enum XmlEvent {
    Start(XmlTag),
    Empty(XmlTag),
    End(Vec<u8>),
    Eof,
    Failed,
    Other,
}

impl View for XmlEvent {
    type V = XmlToken;

    open spec fn view(&self) -> XmlToken {
        match self {
            XmlEvent::Start(t) => XmlToken::Start(t.content@, t.name_len as nat),
            XmlEvent::Empty(t) => XmlToken::Empty(t.content@, t.name_len as nat),
            XmlEvent::End(n) => XmlToken::End(n@),
            XmlEvent::Eof => XmlToken::Eof,
            XmlEvent::Failed => XmlToken::Failed,
            XmlEvent::Other => XmlToken::Other,
        }
    }
}

/// The event that `quick_xml::Reader::read_event` returns the `index`-th time it is called on a
/// reader made by `Reader::from_str(source)`, with the default configuration.
pub uninterp spec fn xml_event_at(source: Seq<char>, index: nat) -> XmlToken;

/// The value that quick-xml gives for attribute `key` of a tag with this content and name
/// length (`BytesStart::try_get_attribute`, then `Attribute::unescape_value`), if any.
pub uninterp spec fn xml_attribute(tag: (Seq<u8>, nat), key: Seq<char>) -> Option<Seq<char>>;

/// The length of `s` in UTF-8 bytes.
pub open spec fn utf8_len(s: Seq<char>) -> nat {
    vstd::utf8::encode_utf8(s).len()
}

/// A quick-xml reader over a string, together with the string and the number of events read.
pub struct XmlReader<'a> {
    inner: Reader<&'a [u8]>,
    source: Ghost<Seq<char>>,
    consumed: Ghost<nat>,
}

impl<'a> View for XmlReader<'a> {
    type V = (Seq<char>, nat);

    closed spec fn view(&self) -> (Seq<char>, nat) {
        (self.source@, self.consumed@)
    }
}

/// A reader over `xml` with `Reader::from_str`, before any event is read.
#[verifier::external_body]
pub(crate) fn xml_reader_from_str<'a>(xml: &'a str) -> (reader: XmlReader<'a>)
    ensures
        reader@ == (xml@, 0nat),
{
    XmlReader { inner: Reader::from_str(xml), source: Ghost(xml@), consumed: Ghost(0) }
}

/// The next event, from `Reader::read_event`, with each kind of event that the parsers look at
/// kept as plain bytes.
///
/// Claimed of quick-xml besides the name: every event other than `Eof` and an error consumes at
/// least one byte of input, so the event at an index at or beyond the input's byte length is
/// `Eof` or an error; and a tag's name is a prefix of its content.
#[verifier::external_body]
pub(crate) fn read_xml_event(reader: &mut XmlReader) -> (event: XmlEvent)
    ensures
        event@ == xml_event_at(old(reader)@.0, old(reader)@.1),
        final(reader)@ == (old(reader)@.0, old(reader)@.1 + 1),
        !event@.is_final() ==> old(reader)@.1 < utf8_len(old(reader)@.0),
        event@.name_fits(),
{
    reader.consumed = Ghost(reader.consumed@ + 1);
    match reader.inner.read_event() {
        Ok(Event::Start(e)) => XmlEvent::Start(XmlTag { name_len: e.name().as_ref().len(), content: e.to_vec() }),
        Ok(Event::Empty(e)) => XmlEvent::Empty(XmlTag { name_len: e.name().as_ref().len(), content: e.to_vec() }),
        Ok(Event::End(e)) => XmlEvent::End(e.to_vec()),
        Ok(Event::Eof) => XmlEvent::Eof,
        Ok(_) => XmlEvent::Other,
        Err(_) => XmlEvent::Failed,
    }
}

/// The value of attribute `key` of `tag`: `BytesStart::try_get_attribute`, then
/// `Attribute::unescape_value`; `None` when the attribute is absent or either step fails.
#[verifier::external_body]
pub(crate) fn tag_attribute(tag: &XmlTag, key: &str) -> (value: Option<String>)
    requires
        tag.name_len <= tag.content@.len(),
    ensures
        match value {
            Some(v) => xml_attribute(tag@, key@) == Some(v@),
            None => xml_attribute(tag@, key@) is None,
        },
{
    let content = std::str::from_utf8(&tag.content).ok()?;
    match BytesStart::from_content(content, tag.name_len).try_get_attribute(key) {
        Ok(Some(attribute)) => attribute.unescape_value().ok().map(|v| v.into_owned()),
        _ => None,
    }
}

} // verus!

verus! {

/// The index of the first `:` in `q`, if any.
pub open spec fn first_colon(q: Seq<u8>) -> Option<int>
    decreases q.len(),
{
    if q.len() == 0 {
        None
    } else if q[0] == 0x3a {
        Some(0)
    } else {
        match first_colon(q.drop_first()) {
            Some(i) => Some(i + 1),
            None => None,
        }
    }
}

/// The part of a qualified name after its first `:` (the whole name when it has none), as
/// `QName::local_name` gives it.
pub open spec fn local_name(q: Seq<u8>) -> Seq<u8> {
    match first_colon(q) {
        Some(i) => q.skip(i + 1),
        None => q,
    }
}

/// The qualified name of a tag: the first `name_len` bytes of its content.
pub open spec fn tag_name(tag: (Seq<u8>, nat)) -> Seq<u8> {
    if tag.1 <= tag.0.len() {
        tag.0.take(tag.1 as int)
    } else {
        tag.0
    }
}

/// The local name of a tag.
pub open spec fn tag_local_name(tag: (Seq<u8>, nat)) -> Seq<u8> {
    local_name(tag_name(tag))
}

proof fn lemma_first_colon_from(q: Seq<u8>, i: int)
    requires
        0 <= i <= q.len(),
        forall|j: int| 0 <= j < i ==> q[j] != 0x3a,
        i == q.len() || q[i] == 0x3a,
    ensures
        first_colon(q) == (if i == q.len() {
            None::<int>
        } else {
            Some(i)
        }),
    decreases i,
{
    if i > 0 {
        lemma_first_colon_from(q.drop_first(), i - 1);
    }
}

/// The local part of the qualified name `q`.
pub fn local_name_of(q: &[u8]) -> (l: Vec<u8>)
    ensures
        l@ == local_name(q@),
{
    let mut i: usize = 0;
    while i < q.len() && q[i] != 0x3a
        invariant
            i <= q@.len(),
            forall|j: int| 0 <= j < i ==> q@[j] != 0x3a,
        decreases q.len() - i,
    {
        i = i + 1;
    }
    proof {
        lemma_first_colon_from(q@, i as int);
    }
    if i == q.len() {
        let l = crate::text::slice_to_vec_range(q, 0, q.len());
        assert(l@ =~= q@);
        l
    } else {
        let l = crate::text::slice_to_vec_range(q, i + 1, q.len());
        assert(l@ =~= q@.skip(i + 1));
        l
    }
}

/// The local name of `tag`.
pub fn tag_local_name_of(tag: &XmlTag) -> (l: Vec<u8>)
    ensures
        l@ == tag_local_name(tag@),
{
    if tag.name_len <= tag.content.len() {
        let name = crate::text::slice_to_vec_range(tag.content.as_slice(), 0, tag.name_len);
        local_name_of(name.as_slice())
    } else {
        local_name_of(tag.content.as_slice())
    }
}

/// Whether `a` and `b` hold the same bytes.
pub fn bytes_equal(a: &[u8], b: &[u8]) -> (eq: bool)
    ensures
        eq == (a@ == b@),
{
    if a.len() != b.len() {
        return false;
    }
    let mut i: usize = 0;
    while i < a.len()
        invariant
            a@.len() == b@.len(),
            i <= a@.len(),
            forall|j: int| 0 <= j < i ==> a@[j] == b@[j],
        decreases a.len() - i,
    {
        if a[i] != b[i] {
            return false;
        }
        i = i + 1;
    }
    assert(a@ =~= b@);
    true
}

/// Whether the bytes `a` spell the string `s` in UTF-8.
pub fn bytes_are(a: &[u8], s: &str) -> (eq: bool)
    ensures
        eq == (a@ == s.spec_bytes()),
{
    bytes_equal(a, s.as_bytes())
}

} // verus!

verus! {

proof fn lemma_utf8_len_step(s: Seq<char>, i: int)
    requires
        0 <= i < s.len(),
    ensures
        utf8_len(s.skip(i)) == vstd::utf8::encode_scalar(s[i] as u32).len() + utf8_len(s.skip(i + 1)),
        utf8_len(s.skip(i)) >= utf8_len(s.skip(i + 1)),
{
    assert(s.skip(i).drop_first() =~= s.skip(i + 1));
    assert(s.skip(i)[0] == s[i]);
}

proof fn lemma_utf8_len_suffix(s: Seq<char>, i: int)
    requires
        0 <= i <= s.len(),
    ensures
        utf8_len(s) >= utf8_len(s.skip(i)),
    decreases i,
{
    if i == 0 {
        assert(s.skip(0) =~= s);
    } else {
        lemma_utf8_len_step(s, i - 1);
        lemma_utf8_len_suffix(s, i - 1);
    }
}

/// The number of bytes `c` takes in UTF-8.
fn utf8_width(c: char) -> (w: u64)
    ensures
        w == vstd::utf8::encode_scalar(c as u32).len(),
{
    let v = c as u32;
    if v <= 0x7F {
        1
    } else if v <= 0x7FF {
        2
    } else if v <= 0xFFFF {
        assert(!(0xD800 <= v <= 0xDFFF));
        3
    } else {
        4
    }
}

/// Whether `s` takes at most `limit` bytes in UTF-8.
pub fn utf8_len_within(s: &str, limit: u32) -> (b: bool)
    ensures
        b == (utf8_len(s@) <= limit),
{
    let chars = crate::text::chars_of(s);
    let mut i: usize = chars.len();
    let mut total: u64 = 0;
    assert(chars@.skip(chars@.len() as int) =~= Seq::<char>::empty());
    while i > 0
        invariant
            i <= chars@.len(),
            chars@ == s@,
            total == utf8_len(chars@.skip(i as int)),
            total <= limit,
        decreases i,
    {
        proof {
            lemma_utf8_len_step(chars@, i - 1);
        }
        let w = utf8_width(chars[i - 1]);
        total = total + w;
        i = i - 1;
        if total > limit as u64 {
            proof {
                lemma_utf8_len_suffix(chars@, i as int);
            }
            return false;
        }
    }
    assert(chars@.skip(0) =~= chars@);
    true
}

} // verus!
