//! Turning document-supplied font names into safe, distinct file names.

use vstd::prelude::*;

use crate::guid::ascii_lower;
use crate::guid::ascii_lower_char;
use crate::text::{chars_of, push_char, trim_end_char, trim_end_matching, trim_start_char, trim_start_matching};

verus! {

/// Longest sanitised filename component, in bytes.
///
/// Font names are display strings, not identifiers; 64 bytes is far more than
/// any real typeface needs and keeps `{name}-{style}.{ext}` well inside the
/// 255-byte component limit every supported filesystem enforces.
pub const MAX_FONT_NAME_COMPONENT: usize = 64;

/// A character that some supported platform treats as a path separator (`:` for drive letters).
pub open spec fn is_path_separator(c: char) -> bool {
    c == '/' || c == '\\' || c == ':'
}

/// The part of `s` after its last path separator (all of `s` when it has none).
pub open spec fn last_segment(s: Seq<char>) -> Seq<char>
    decreases s.len(),
{
    if s.len() == 0 {
        s
    } else if is_path_separator(s.last()) {
        Seq::<char>::empty()
    } else {
        last_segment(s.drop_last()).push(s.last())
    }
}

/// Characters kept verbatim in a font file name: ASCII letters and digits, `-`, `_` and space.
pub open spec fn is_allowed_name_char(c: char) -> bool {
    ('a' <= c && c <= 'z') || ('A' <= c && c <= 'Z') || ('0' <= c && c <= '9') || c == '-'
        || c == '_' || c == ' '
}

/// `c` if it is allowed in a font file name, `_` otherwise.
pub open spec fn name_char(c: char) -> char {
    if is_allowed_name_char(c) {
        c
    } else {
        '_'
    }
}

/// A Windows device name (`CON`, `PRN`, `AUX`, `NUL`, `COM1`-`COM9`, `LPT1`-`LPT9`), any case.
pub open spec fn is_reserved_device_name(t: Seq<char>) -> bool {
    let l = ascii_lower(t);
    ||| l == seq!['c', 'o', 'n']
    ||| l == seq!['p', 'r', 'n']
    ||| l == seq!['a', 'u', 'x']
    ||| l == seq!['n', 'u', 'l']
    ||| (l.len() == 4 && (l.take(3) == seq!['c', 'o', 'm'] || l.take(3) == seq!['l', 'p', 't'])
        && '1' <= l[3] && l[3] <= '9')
}

/// The first 64 characters of the last path segment of `raw`, each disallowed one replaced.
pub open spec fn kept_name_chars(raw: Seq<char>) -> Seq<char> {
    let last = last_segment(raw);
    let n = if last.len() < 64 {
        last.len()
    } else {
        64
    };
    last.take(n as int).map_values(|c: char| name_char(c))
}

/// The file-name component that a document-supplied name reduces to.
pub open spec fn spec_sanitize_font_component(raw: Seq<char>) -> Seq<char> {
    let t = trim_end_char(trim_start_char(kept_name_chars(raw), ' '), ' ');
    if t.len() == 0 {
        seq!['f', 'o', 'n', 't']
    } else if is_reserved_device_name(t) {
        seq!['_'] + t
    } else {
        t
    }
}

/// A single plain file-name component: non-empty, at most 64 characters, each an ASCII letter,
/// digit, `-`, `_` or space, and neither starting nor ending with a space.
pub open spec fn is_plain_component(s: Seq<char>) -> bool {
    &&& 0 < s.len() <= 64
    &&& forall|i: int| 0 <= i < s.len() ==> #[trigger] is_allowed_name_char(s[i])
    &&& s[0] != ' '
    &&& s.last() != ' '
}

proof fn lemma_last_segment_from(s: Seq<char>, p: int)
    requires
        0 <= p <= s.len(),
        p == 0 || is_path_separator(s[p - 1]),
        forall|j: int| p <= j < s.len() ==> !is_path_separator(#[trigger] s[j]),
    ensures
        last_segment(s) == s.subrange(p, s.len() as int),
    decreases s.len(),
{
    if s.len() == 0 {
        assert(s.subrange(p, 0) =~= s);
    } else if p == s.len() {
        assert(s.subrange(p, p) =~= Seq::<char>::empty());
    } else {
        assert(s.drop_last().subrange(p, s.len() - 1).push(s.last()) =~= s.subrange(p, s.len() as int));
        lemma_last_segment_from(s.drop_last(), p);
    }
}

/// Whether the lower-cased characters `l` spell a Windows device name.
fn is_reserved_lowered(l: &[char]) -> (b: bool)
    ensures
        b == ({
            let l = l@;
            ||| l == seq!['c', 'o', 'n']
            ||| l == seq!['p', 'r', 'n']
            ||| l == seq!['a', 'u', 'x']
            ||| l == seq!['n', 'u', 'l']
            ||| (l.len() == 4 && (l.take(3) == seq!['c', 'o', 'm'] || l.take(3) == seq!['l', 'p', 't'])
                && '1' <= l[3] && l[3] <= '9')
        }),
{
    if l.len() == 3 {
        let b = (l[0] == 'c' && l[1] == 'o' && l[2] == 'n') || (l[0] == 'p' && l[1] == 'r' && l[2]
            == 'n') || (l[0] == 'a' && l[1] == 'u' && l[2] == 'x') || (l[0] == 'n' && l[1] == 'u'
            && l[2] == 'l');
        proof {
            if b {
                if l[0] == 'c' {
                    assert(l@ =~= seq!['c', 'o', 'n']);
                } else if l[0] == 'p' {
                    assert(l@ =~= seq!['p', 'r', 'n']);
                } else if l[0] == 'a' {
                    assert(l@ =~= seq!['a', 'u', 'x']);
                } else {
                    assert(l@ =~= seq!['n', 'u', 'l']);
                }
            }
        }
        b
    } else if l.len() == 4 {
        let b = ((l[0] == 'c' && l[1] == 'o' && l[2] == 'm') || (l[0] == 'l' && l[1] == 'p' && l[2]
            == 't')) && '1' <= l[3] && l[3] <= '9';
        proof {
            if l[0] == 'c' && l[1] == 'o' && l[2] == 'm' {
                assert(l@.take(3) =~= seq!['c', 'o', 'm']);
            }
            if l[0] == 'l' && l[1] == 'p' && l[2] == 't' {
                assert(l@.take(3) =~= seq!['l', 'p', 't']);
            }
        }
        b
    } else {
        false
    }
}

/// `c` with an ASCII upper-case letter mapped to lower case.
fn lower_char(c: char) -> (l: char)
    ensures
        l == ascii_lower_char(c),
{
    if 'A' <= c && c <= 'Z' {
        let code: u8 = ((c as u32) + 32) as u8;
        code as char
    } else {
        c
    }
}

} // verus!

verus! {

/// Whether `c` is kept verbatim in a font file name.
fn allowed_name_char(c: char) -> (b: bool)
    ensures
        b == is_allowed_name_char(c),
{
    ('a' <= c && c <= 'z') || ('A' <= c && c <= 'Z') || ('0' <= c && c <= '9') || c == '-' || c
        == '_' || c == ' '
}

/// The characters of `t`, lower-cased.
fn lower_chars(t: &[char]) -> (l: Vec<char>)
    ensures
        l@ == ascii_lower(t@),
{
    let mut l: Vec<char> = Vec::new();
    let mut i: usize = 0;
    while i < t.len()
        invariant
            i <= t@.len(),
            l@ == ascii_lower(t@.take(i as int)),
        decreases t.len() - i,
    {
        l.push(lower_char(t[i]));
        assert(ascii_lower(t@.take(i as int + 1)) =~= ascii_lower(t@.take(i as int)).push(
            ascii_lower_char(t@[i as int]),
        ));
        i = i + 1;
    }
    assert(t@.take(t@.len() as int) =~= t@);
    l
}

/// Reduce a document-supplied string to one plain, portable filename component.
///
/// Only the part after the last `/`, `\` or `:` is kept; of it at most 64 characters, each
/// ASCII letter, digit, `-`, `_` or space kept and every other character (`.` included) turned
/// into `_`. Surrounding spaces are trimmed; an empty result becomes `font`, and a Windows
/// device name gets a leading `_`.
pub fn sanitize_font_component(raw: &str) -> (name: String)
    ensures
        name@ == spec_sanitize_font_component(raw@),
        is_plain_component(name@),
{
    let chars = chars_of(raw);
    // Start of the last segment: just past the last separator.
    let mut p: usize = chars.len();
    while p > 0 && !(chars[p - 1] == '/' || chars[p - 1] == '\\' || chars[p - 1] == ':')
        invariant
            p <= chars@.len(),
            forall|j: int| p <= j < chars@.len() ==> !is_path_separator(#[trigger] chars@[j]),
        decreases p,
    {
        p = p - 1;
    }
    proof {
        lemma_last_segment_from(chars@, p as int);
    }
    let ghost last = last_segment(raw@);
    let mut kept: Vec<char> = Vec::new();
    let mut i: usize = p;
    while i < chars.len()
        invariant
            p <= i <= chars@.len(),
            last == chars@.subrange(p as int, chars@.len() as int),
            kept@.len() == i - p,
            kept@.len() <= 64,
            kept@ == last.take(kept@.len() as int).map_values(|c: char| name_char(c)),
        ensures
            kept@.len() == (if last.len() < 64 { last.len() } else { 64 }),
            kept@ == last.take(kept@.len() as int).map_values(|c: char| name_char(c)),
        decreases chars.len() - i,
    {
        if kept.len() >= MAX_FONT_NAME_COMPONENT {
            break;
        }
        let c = chars[i];
        if allowed_name_char(c) {
            kept.push(c);
        } else {
            kept.push('_');
        }
        assert(kept@ =~= last.take(kept@.len() as int).map_values(|c: char| name_char(c)));
        i = i + 1;
    }
    assert(kept@ =~= kept_name_chars(raw@));
    let front = trim_start_matching(kept.as_slice(), ' ');
    let trimmed = trim_end_matching(front.as_slice(), ' ');
    proof {
        lemma_kept_allowed(raw@);
        lemma_trim_spaces_plain(kept@);
    }
    if trimmed.len() == 0 {
        let mut out = String::new();
        push_char(&mut out, 'f');
        push_char(&mut out, 'o');
        push_char(&mut out, 'n');
        push_char(&mut out, 't');
        assert(out@ =~= seq!['f', 'o', 'n', 't']);
        return out;
    }
    let lowered = lower_chars(trimmed.as_slice());
    let mut out = String::new();
    if is_reserved_lowered(lowered.as_slice()) {
        push_char(&mut out, '_');
    }
    let mut k: usize = 0;
    let ghost prefix = out@;
    while k < trimmed.len()
        invariant
            k <= trimmed@.len(),
            out@ == prefix + trimmed@.take(k as int),
        decreases trimmed.len() - k,
    {
        push_char(&mut out, trimmed[k]);
        assert(out@ =~= prefix + trimmed@.take(k as int + 1));
        k = k + 1;
    }
    assert(trimmed@.take(trimmed@.len() as int) =~= trimmed@);
    proof {
        if is_reserved_device_name(trimmed@) {
            assert(out@ =~= seq!['_'] + trimmed@);
            lemma_reserved_is_short(trimmed@);
        } else {
            assert(out@ =~= trimmed@);
        }
    }
    out
}

proof fn lemma_kept_allowed(raw: Seq<char>)
    ensures
        forall|i: int|
            0 <= i < kept_name_chars(raw).len() ==> #[trigger] is_allowed_name_char(
                kept_name_chars(raw)[i],
            ),
        kept_name_chars(raw).len() <= 64,
{
}

proof fn lemma_trim_start_from(s: Seq<char>, i: int)
    requires
        0 <= i <= s.len(),
        forall|j: int| 0 <= j < i ==> s[j] == ' ',
        i == s.len() || s[i] != ' ',
    ensures
        trim_start_char(s, ' ') == s.subrange(i, s.len() as int),
    decreases i,
{
    if i > 0 {
        assert(s.drop_first().subrange(i - 1, s.len() - 1) =~= s.subrange(i, s.len() as int));
        lemma_trim_start_from(s.drop_first(), i - 1);
    } else {
        assert(s.subrange(0, s.len() as int) =~= s);
    }
}

proof fn lemma_trim_end_from(s: Seq<char>, j: int)
    requires
        0 <= j <= s.len(),
        forall|k: int| j <= k < s.len() ==> s[k] == ' ',
        j == 0 || s[j - 1] != ' ',
    ensures
        trim_end_char(s, ' ') == s.subrange(0, j),
    decreases s.len() - j,
{
    if j < s.len() {
        assert(s.drop_last().subrange(0, j) =~= s.subrange(0, j));
        lemma_trim_end_from(s.drop_last(), j);
    } else {
        assert(s.subrange(0, j) =~= s);
    }
}

/// Trimming spaces leaves a contiguous part of `s` that neither starts nor ends with a space.
proof fn lemma_trim_spaces_plain(s: Seq<char>)
    ensures
        ({
            let t = trim_end_char(trim_start_char(s, ' '), ' ');
            &&& t.len() <= s.len()
            &&& t.len() > 0 ==> t[0] != ' ' && t.last() != ' '
            &&& exists|a: int|
                0 <= a && a + t.len() <= s.len() && #[trigger] s.subrange(a, a + t.len()) == t
        }),
{
    let i = choose_first_non_space(s);
    lemma_trim_start_from(s, i);
    let f = s.subrange(i, s.len() as int);
    let j = choose_last_non_space(f);
    lemma_trim_end_from(f, j);
    let t = f.subrange(0, j);
    assert(s.subrange(i, i + t.len()) =~= t);
    if t.len() > 0 {
        assert(t[0] == f[0]);
    }
}

spec fn first_non_space_from(s: Seq<char>, i: nat) -> nat
    decreases s.len() - i,
{
    if i >= s.len() || s[i as int] != ' ' {
        i
    } else {
        first_non_space_from(s, i + 1)
    }
}

proof fn lemma_first_non_space_from(s: Seq<char>, i: nat)
    requires
        i <= s.len(),
        forall|j: int| 0 <= j < i ==> s[j] == ' ',
    ensures
        ({
            let k = first_non_space_from(s, i);
            &&& i <= k <= s.len()
            &&& forall|j: int| 0 <= j < k ==> s[j] == ' '
            &&& k == s.len() || s[k as int] != ' '
        }),
    decreases s.len() - i,
{
    if i < s.len() && s[i as int] == ' ' {
        lemma_first_non_space_from(s, i + 1);
    }
}

proof fn choose_first_non_space(s: Seq<char>) -> (i: int)
    ensures
        0 <= i <= s.len(),
        forall|j: int| 0 <= j < i ==> s[j] == ' ',
        i == s.len() || s[i] != ' ',
{
    lemma_first_non_space_from(s, 0);
    first_non_space_from(s, 0) as int
}

spec fn last_non_space_before(s: Seq<char>, j: nat) -> nat
    decreases j,
{
    if j == 0 || s[j - 1] != ' ' {
        j
    } else {
        last_non_space_before(s, (j - 1) as nat)
    }
}

proof fn lemma_last_non_space_before(s: Seq<char>, j: nat)
    requires
        j <= s.len(),
        forall|k: int| j <= k < s.len() ==> s[k] == ' ',
    ensures
        ({
            let m = last_non_space_before(s, j);
            &&& m <= j
            &&& forall|k: int| m <= k < s.len() ==> s[k] == ' '
            &&& m == 0 || s[m - 1] != ' '
        }),
    decreases j,
{
    if j > 0 && s[j - 1] == ' ' {
        lemma_last_non_space_before(s, (j - 1) as nat);
    }
}

proof fn choose_last_non_space(s: Seq<char>) -> (j: int)
    ensures
        0 <= j <= s.len(),
        forall|k: int| j <= k < s.len() ==> s[k] == ' ',
        j == 0 || s[j - 1] != ' ',
{
    lemma_last_non_space_before(s, s.len());
    last_non_space_before(s, s.len()) as int
}

proof fn lemma_reserved_is_short(t: Seq<char>)
    requires
        is_reserved_device_name(t),
    ensures
        t.len() <= 4,
{
    assert(ascii_lower(t).len() == t.len());
}

} // verus!

verus! {

/// Every sanitised name is a single plain component.
pub proof fn lemma_sanitize_plain(raw: Seq<char>)
    ensures
        is_plain_component(spec_sanitize_font_component(raw)),
        !is_reserved_device_name(spec_sanitize_font_component(raw)),
{
    lemma_kept_allowed(raw);
    let kept = kept_name_chars(raw);
    lemma_trim_spaces_plain(kept);
    let t = trim_end_char(trim_start_char(kept, ' '), ' ');
    let r = spec_sanitize_font_component(raw);
    if t.len() == 0 {
        assert(ascii_lower(r) =~= seq!['f', 'o', 'n', 't']);
    } else {
        let a = choose|a: int| 0 <= a && a + t.len() <= kept.len() && #[trigger] kept.subrange(a, a + t.len()) == t;
        assert forall|i: int| 0 <= i < t.len() implies #[trigger] is_allowed_name_char(t[i]) by {
            assert(t[i] == kept[a + i]);
        }
        if is_reserved_device_name(t) {
            lemma_reserved_is_short(t);
            assert(r =~= seq!['_'] + t);
            assert(r[0] == '_');
            assert(ascii_lower(r)[0] == '_');
            assert(r.last() == t.last());
        }
    }
}

/// Sanitising a name that is already sanitised changes nothing.
pub proof fn law_sanitize_idempotent(raw: Seq<char>)
    ensures
        spec_sanitize_font_component(spec_sanitize_font_component(raw))
            == spec_sanitize_font_component(raw),
{
    let r = spec_sanitize_font_component(raw);
    lemma_sanitize_plain(raw);
    assert forall|j: int| 0 <= j < r.len() implies !is_path_separator(#[trigger] r[j]) by {
        assert(is_allowed_name_char(r[j]));
    }
    lemma_last_segment_from(r, 0);
    assert(r.subrange(0, r.len() as int) =~= r);
    assert(r.take(r.len() as int).map_values(|c: char| name_char(c)) =~= r) by {
        assert forall|j: int| 0 <= j < r.len() implies #[trigger] name_char(r[j]) == r[j] by {
            assert(is_allowed_name_char(r[j]));
        }
    }
    assert(kept_name_chars(r) == r);
    lemma_trim_start_from(r, 0);
    assert(r.subrange(0, r.len() as int) =~= r);
    lemma_trim_end_from(r, r.len() as int);
}

} // verus!

verus! {

/// The decimal digit for `d` (below ten).
pub open spec fn digit_char(d: nat) -> char {
    ('0' as nat + d) as char
}

/// The decimal representation of `n`, without leading zeros.
pub open spec fn decimal(n: nat) -> Seq<char>
    decreases n,
{
    if n < 10 {
        seq![digit_char(n)]
    } else {
        decimal(n / 10).push(digit_char(n % 10))
    }
}

proof fn lemma_decimal_len(n: nat)
    ensures
        decimal(n).len() >= 1,
        decimal(n).len() == 1 <==> n < 10,
    decreases n,
{
    if n >= 10 {
        lemma_decimal_len(n / 10);
    }
}

proof fn lemma_digit_char_injective(a: nat, b: nat)
    requires
        a < 10,
        b < 10,
        digit_char(a) == digit_char(b),
    ensures
        a == b,
{
    assert(digit_char(a) as nat == '0' as nat + a);
    assert(digit_char(b) as nat == '0' as nat + b);
}

/// Different numbers have different decimal representations.
pub proof fn lemma_decimal_injective(a: nat, b: nat)
    requires
        decimal(a) == decimal(b),
    ensures
        a == b,
    decreases a,
{
    lemma_decimal_len(a);
    lemma_decimal_len(b);
    if a < 10 {
        assert(decimal(a)[0] == digit_char(a));
        assert(decimal(b)[0] == digit_char(b));
        lemma_digit_char_injective(a, b);
    } else {
        assert(decimal(a).last() == digit_char(a % 10));
        assert(decimal(b).last() == digit_char(b % 10));
        lemma_digit_char_injective(a % 10, b % 10);
        assert(decimal(a).drop_last() =~= decimal(a / 10));
        assert(decimal(b).drop_last() =~= decimal(b / 10));
        lemma_decimal_injective(a / 10, b / 10);
    }
}

/// The decimal digit for `d`.
fn digit(d: u32) -> (c: char)
    requires
        d < 10,
    ensures
        c == digit_char(d as nat),
{
    let code: u8 = (48 + d) as u8;
    code as char
}

/// Appends the decimal representation of `n`.
fn push_decimal(out: &mut Vec<char>, n: u32)
    ensures
        final(out)@ == old(out)@ + decimal(n as nat),
    decreases n,
{
    if n >= 10 {
        push_decimal(out, n / 10);
    }
    out.push(digit(n % 10));
    assert(out@ =~= old(out)@ + decimal(n as nat));
}

} // verus!

verus! {

/// The file names already handed out while extracting one document's fonts.
pub struct UsedFontNames {
    names: Vec<String>,
}

impl View for UsedFontNames {
    type V = Set<Seq<char>>;

    closed spec fn view(&self) -> Set<Seq<char>> {
        self.names@.map_values(|s: String| s@).to_set()
    }
}

impl UsedFontNames {
    /// No name used yet.
    pub fn new() -> (used: Self)
        ensures
            used@ == Set::<Seq<char>>::empty(),
    {
        let used = UsedFontNames { names: Vec::new() };
        assert(used@ =~= Set::<Seq<char>>::empty());
        used
    }

    /// The set of used names is finite.
    pub proof fn lemma_finite(&self)
        ensures
            self@.finite(),
    {
        broadcast use vstd::seq_lib::seq_to_set_is_finite;
    }

    /// Whether `name` has been used.
    pub fn contains(&self, name: &Vec<char>) -> (b: bool)
        ensures
            b == self@.contains(name@),
    {
        let mut i: usize = 0;
        while i < self.names.len()
            invariant
                i <= self.names@.len(),
                forall|j: int| 0 <= j < i ==> self.names@[j]@ != name@,
            decreases self.names.len() - i,
        {
            if chars_equal(&self.names[i], name) {
                assert(self.names@.map_values(|s: String| s@)[i as int] == name@);
                return true;
            }
            i = i + 1;
        }
        assert(!self.names@.map_values(|s: String| s@).contains(name@));
        false
    }

    /// Records `name` as used.
    pub fn insert(&mut self, name: String)
        ensures
            final(self)@ == old(self)@.insert(name@),
    {
        let ghost before = self.names@;
        self.names.push(name);
        assert(self.names@.map_values(|s: String| s@) =~= before.map_values(|s: String| s@).push(
            name@,
        ));
        proof {
            before.map_values(|s: String| s@).lemma_push_to_set_commute(name@);
        }
    }
}

/// Whether the string `s` holds exactly the characters `v`.
fn chars_equal(s: &String, v: &Vec<char>) -> (b: bool)
    ensures
        b == (s@ == v@),
{
    let cs = chars_of(s.as_str());
    if cs.len() != v.len() {
        return false;
    }
    let mut i: usize = 0;
    while i < cs.len()
        invariant
            cs@ == s@,
            cs@.len() == v@.len(),
            i <= cs@.len(),
            forall|j: int| 0 <= j < i ==> cs@[j] == v@[j],
        decreases cs.len() - i,
    {
        if cs[i] != v[i] {
            return false;
        }
        i = i + 1;
    }
    assert(cs@ =~= v@);
    true
}

/// The index of the last `.` in `s`, if any.
pub open spec fn last_dot(s: Seq<char>) -> Option<int>
    decreases s.len(),
{
    if s.len() == 0 {
        None
    } else if s.last() == '.' {
        Some(s.len() - 1)
    } else {
        last_dot(s.drop_last())
    }
}

/// `candidate` split at its last `.` into stem and extension; `ttf` when it has no dot.
pub open spec fn stem_and_extension(candidate: Seq<char>) -> (Seq<char>, Seq<char>) {
    match last_dot(candidate) {
        Some(d) => (candidate.take(d), candidate.skip(d + 1)),
        None => (candidate, seq!['t', 't', 'f']),
    }
}

/// `{stem}-{suffix}.{extension}`.
pub open spec fn numbered_name(stem: Seq<char>, extension: Seq<char>, suffix: nat) -> Seq<char> {
    stem + seq!['-'] + decimal(suffix) + seq!['.'] + extension
}

/// The name `unique_font_filename` picks for `candidate` when `used` already holds it: the
/// numbered variant with the least suffix from 2 up that is not used.
pub open spec fn is_first_free_numbered(
    used: Set<Seq<char>>,
    candidate: Seq<char>,
    name: Seq<char>,
) -> bool {
    let (stem, extension) = stem_and_extension(candidate);
    exists|k: nat|
        2 <= k <= u32::MAX && name == #[trigger] numbered_name(stem, extension, k) && !used.contains(name)
            && forall|j: nat| 2 <= j < k ==> used.contains(#[trigger] numbered_name(stem, extension, j))
}

/// The name `unique_font_filename` gives `candidate` when the names in `used` are taken.
pub open spec fn spec_unique_name(used: Set<Seq<char>>, candidate: Seq<char>) -> Seq<char> {
    if !used.contains(candidate) {
        candidate
    } else {
        choose|name: Seq<char>| is_first_free_numbered(used, candidate, name)
    }
}

/// At most one name is the first free numbered variant.
proof fn lemma_first_free_unique(used: Set<Seq<char>>, candidate: Seq<char>, a: Seq<char>, b: Seq<char>)
    requires
        is_first_free_numbered(used, candidate, a),
        is_first_free_numbered(used, candidate, b),
    ensures
        a == b,
{
    let (stem, extension) = stem_and_extension(candidate);
    let ka = choose|k: nat|
        2 <= k <= u32::MAX && a == #[trigger] numbered_name(stem, extension, k) && !used.contains(a)
            && forall|j: nat| 2 <= j < k ==> used.contains(#[trigger] numbered_name(stem, extension, j));
    let kb = choose|k: nat|
        2 <= k <= u32::MAX && b == #[trigger] numbered_name(stem, extension, k) && !used.contains(b)
            && forall|j: nat| 2 <= j < k ==> used.contains(#[trigger] numbered_name(stem, extension, j));
    if ka < kb {
        assert(used.contains(numbered_name(stem, extension, ka)));
    } else if kb < ka {
        assert(used.contains(numbered_name(stem, extension, kb)));
    }
}

proof fn lemma_numbered_name_injective(stem: Seq<char>, extension: Seq<char>, a: nat, b: nat)
    requires
        numbered_name(stem, extension, a) == numbered_name(stem, extension, b),
    ensures
        a == b,
{
    let na = numbered_name(stem, extension, a);
    let nb = numbered_name(stem, extension, b);
    let p: int = stem.len() as int + 1;
    assert(decimal(a).len() == decimal(b).len()) by {
        assert(na.len() == p + decimal(a).len() + 1 + extension.len());
        assert(nb.len() == p + decimal(b).len() + 1 + extension.len());
    }
    assert(na.subrange(p, p + decimal(a).len() as int) =~= decimal(a));
    assert(nb.subrange(p, p + decimal(b).len() as int) =~= decimal(b));
    lemma_decimal_injective(a, b);
}

pub(crate) proof fn lemma_last_dot_from(s: Seq<char>, e: int)
    requires
        0 <= e <= s.len(),
        forall|j: int| e <= j < s.len() ==> s[j] != '.',
    ensures
        last_dot(s) == last_dot(s.take(e)),
    decreases s.len() - e,
{
    if e < s.len() {
        assert(s.drop_last().take(e) =~= s.take(e));
        lemma_last_dot_from(s.drop_last(), e);
    } else {
        assert(s.take(e) =~= s);
    }
}

/// Make `candidate` unique within `used`, recording the result.
///
/// Sanitisation maps several distinct inputs onto the same component (`A/x` and
/// `A\x` both become `x`), and a document may legitimately repeat a typeface.
/// Without this, the later font silently overwrites the earlier one.
pub fn unique_font_filename(used: &mut UsedFontNames, candidate: &str) -> (name: String)
    requires
        old(used)@.len() < u32::MAX - 1,
    ensures
        !old(used)@.contains(candidate@) ==> name@ == candidate@,
        old(used)@.contains(candidate@) ==> is_first_free_numbered(old(used)@, candidate@, name@),
        !old(used)@.contains(name@),
        name@ == spec_unique_name(old(used)@, candidate@),
        final(used)@ == old(used)@.insert(name@),
{
    let cs = chars_of(candidate);
    if !used.contains(&cs) {
        let name = String::from_str(candidate);
        used.insert(String::from_str(candidate));
        return name;
    }
    // Split at the last `.`.
    let mut e: usize = cs.len();
    while e > 0 && cs[e - 1] != '.'
        invariant
            e <= cs@.len(),
            forall|j: int| e <= j < cs@.len() ==> cs@[j] != '.',
        decreases e,
    {
        e = e - 1;
    }
    proof {
        lemma_last_dot_from(cs@, e as int);
        if e > 0 {
            assert(cs@.take(e as int).last() == '.');
        } else {
            assert(cs@.take(0) =~= Seq::<char>::empty());
        }
    }
    let mut stem: Vec<char> = Vec::new();
    let mut extension: Vec<char> = Vec::new();
    if e > 0 {
        stem = crate::text::slice_to_vec_range(cs.as_slice(), 0, e - 1);
        extension = crate::text::slice_to_vec_range(cs.as_slice(), e, cs.len());
        assert(stem@ =~= cs@.take(e - 1));
        assert(extension@ =~= cs@.skip(e as int));
    } else {
        stem = cs.clone();
        extension.push('t');
        extension.push('t');
        extension.push('f');
        assert(extension@ =~= seq!['t', 't', 'f']);
    }
    assert((stem@, extension@) == stem_and_extension(candidate@));
    let ghost old_used = used@;
    let ghost mut tried: Set<Seq<char>> = Set::empty();
    proof {
        used.lemma_finite();
    }
    let mut suffix: u32 = 2;
    loop
        invariant
            2 <= suffix <= u32::MAX,
            used@ == old_used,
            old(used)@ == old_used,
            old_used.contains(candidate@),
            old_used.finite(),
            old_used.len() < u32::MAX - 1,
            (stem@, extension@) == stem_and_extension(candidate@),
            tried.finite(),
            tried.len() == suffix - 2,
            tried.subset_of(old_used),
            forall|j: nat| 2 <= j < suffix ==> old_used.contains(#[trigger] numbered_name(stem@, extension@, j)),
            forall|x: Seq<char>| #[trigger] tried.contains(x) ==> exists|j: nat| 2 <= j < suffix && x == numbered_name(stem@, extension@, j),
        decreases u32::MAX - suffix,
    {
        let mut alternative: Vec<char> = stem.clone();
        alternative.push('-');
        push_decimal(&mut alternative, suffix);
        alternative.push('.');
        let mut k: usize = 0;
        let ghost before_ext = alternative@;
        while k < extension.len()
            invariant
                k <= extension@.len(),
                alternative@ == before_ext + extension@.take(k as int),
            decreases extension.len() - k,
        {
            alternative.push(extension[k]);
            assert(alternative@ =~= before_ext + extension@.take(k as int + 1));
            k = k + 1;
        }
        assert(alternative@ =~= numbered_name(stem@, extension@, suffix as nat));
        if !used.contains(&alternative) {
            let name = crate::text::string_from_chars(alternative.as_slice());
            let recorded = crate::text::string_from_chars(alternative.as_slice());
            used.insert(recorded);
            proof {
                let k = suffix as nat;
                assert(name@ == numbered_name(stem@, extension@, k));
                assert(!old_used.contains(name@));
                assert(forall|j: nat| 2 <= j < k ==> old_used.contains(#[trigger] numbered_name(stem@, extension@, j)));
                let (st, ex) = stem_and_extension(candidate@);
                assert(st == stem@ && ex == extension@);
                assert(2 <= k <= u32::MAX && name@ == numbered_name(st, ex, k) && !old_used.contains(name@) && forall|j: nat| 2 <= j < k ==> old_used.contains(#[trigger] numbered_name(st, ex, j)));
                assert(is_first_free_numbered(old_used, candidate@, name@));
                let chosen = choose|n: Seq<char>| is_first_free_numbered(old_used, candidate@, n);
                lemma_first_free_unique(old_used, candidate@, chosen, name@);
            }
            return name;
        }
        proof {
            let n = numbered_name(stem@, extension@, suffix as nat);
            if tried.contains(n) {
                let j = choose|j: nat| 2 <= j < suffix && n == numbered_name(stem@, extension@, j);
                lemma_numbered_name_injective(stem@, extension@, j, suffix as nat);
            }
            tried = tried.insert(n);
            vstd::set_lib::lemma_len_subset(tried, old_used);
            assert forall|x: Seq<char>| #[trigger] tried.contains(x) implies exists|j: nat| 2 <= j < suffix + 1 && x == numbered_name(stem@, extension@, j) by {
                if x != n {
                    let j = choose|j: nat| 2 <= j < suffix && x == numbered_name(stem@, extension@, j);
                    assert(2 <= j < suffix + 1);
                } else {
                    assert(2 <= suffix < suffix + 1);
                }
            }
        }
        suffix = suffix + 1;
    }
}

} // verus!

verus! {

/// The numbered names `2..k` of `candidate`.
spec fn numbered_names_below(stem: Seq<char>, extension: Seq<char>, k: nat) -> Set<Seq<char>>
    decreases k,
{
    if k <= 2 {
        Set::empty()
    } else {
        numbered_names_below(stem, extension, (k - 1) as nat).insert(
            numbered_name(stem, extension, (k - 1) as nat),
        )
    }
}

proof fn lemma_numbered_names_below(stem: Seq<char>, extension: Seq<char>, k: nat)
    ensures
        numbered_names_below(stem, extension, k).finite(),
        numbered_names_below(stem, extension, k).len() == if k <= 2 { 0 } else { k - 2 },
        forall|x: Seq<char>|
            #[trigger] numbered_names_below(stem, extension, k).contains(x) ==> exists|j: nat|
                2 <= j < k && x == numbered_name(stem, extension, j),
        forall|j: nat| 2 <= j < k ==> numbered_names_below(stem, extension, k).contains(#[trigger] numbered_name(stem, extension, j)),
    decreases k,
{
    if k > 2 {
        lemma_numbered_names_below(stem, extension, (k - 1) as nat);
        let n = numbered_name(stem, extension, (k - 1) as nat);
        if numbered_names_below(stem, extension, (k - 1) as nat).contains(n) {
            let j = choose|j: nat| 2 <= j < k - 1 && n == numbered_name(stem, extension, j);
            lemma_numbered_name_injective(stem, extension, j, (k - 1) as nat);
        }
    }
}

/// Searching upwards from `k`, some numbered name is free by `bound`: the least free one is
/// the first free numbered name.
proof fn lemma_least_free(used: Set<Seq<char>>, candidate: Seq<char>, k: nat, bound: nat)
    requires
        2 <= k <= bound <= u32::MAX,
        forall|j: nat| 2 <= j < k ==> used.contains(#[trigger] numbered_name(stem_and_extension(candidate).0, stem_and_extension(candidate).1, j)),
        !used.contains(numbered_name(stem_and_extension(candidate).0, stem_and_extension(candidate).1, bound)),
    ensures
        exists|name: Seq<char>| is_first_free_numbered(used, candidate, name),
    decreases bound - k,
{
    let (stem, extension) = stem_and_extension(candidate);
    let n = numbered_name(stem, extension, k);
    if !used.contains(n) {
        assert(is_first_free_numbered(used, candidate, n));
    } else {
        lemma_least_free(used, candidate, k + 1, bound);
    }
}

/// While fewer names are used than there are numbered names, the name given to a candidate is
/// free.
pub proof fn lemma_unique_name_is_free(used: Set<Seq<char>>, candidate: Seq<char>)
    requires
        used.finite(),
        used.len() < u32::MAX - 1,
    ensures
        !used.contains(spec_unique_name(used, candidate)),
        used.contains(candidate) ==> is_first_free_numbered(used, candidate, spec_unique_name(used, candidate)),
{
    if used.contains(candidate) {
        let (stem, extension) = stem_and_extension(candidate);
        let m = used.len();
        let k = m + 3;
        lemma_numbered_names_below(stem, extension, k);
        let below = numbered_names_below(stem, extension, k);
        if forall|j: nat| 2 <= j < k ==> used.contains(#[trigger] numbered_name(stem, extension, j)) {
            assert(below.subset_of(used)) by {
                assert forall|x: Seq<char>| below.contains(x) implies used.contains(x) by {
                    let j = choose|j: nat| 2 <= j < k && x == numbered_name(stem, extension, j);
                }
            }
            vstd::set_lib::lemma_len_subset(below, used);
            assert(false);
        }
        let free = choose|j: nat| 2 <= j < k && !used.contains(#[trigger] numbered_name(stem, extension, j));
        lemma_least_free_from_two(used, candidate, free);
        let chosen = choose|name: Seq<char>| is_first_free_numbered(used, candidate, name);
        assert(is_first_free_numbered(used, candidate, chosen));
    }
}

proof fn lemma_least_free_from_two(used: Set<Seq<char>>, candidate: Seq<char>, free: nat)
    requires
        2 <= free <= u32::MAX,
        !used.contains(numbered_name(stem_and_extension(candidate).0, stem_and_extension(candidate).1, free)),
    ensures
        exists|name: Seq<char>| is_first_free_numbered(used, candidate, name),
{
    lemma_least_free(used, candidate, 2, free);
}

} // verus!

verus! {

proof fn lemma_last_segment_after_separator(p: Seq<char>, sep: char, x: Seq<char>)
    requires
        is_path_separator(sep),
    ensures
        last_segment(p + seq![sep] + x) == last_segment(x),
    decreases x.len(),
{
    let s = p + seq![sep] + x;
    if x.len() == 0 {
        assert(s.last() == sep);
    } else {
        assert(s.last() == x.last());
        assert(s.drop_last() =~= p + seq![sep] + x.drop_last());
        lemma_last_segment_after_separator(p, sep, x.drop_last());
    }
}

/// Only the last path segment of a name counts: whatever stands before a `/`, `\` or `:`
/// (a directory, a drive, `..`) leaves the sanitised name unchanged.
pub proof fn law_sanitize_ignores_leading_path(p: Seq<char>, sep: char, x: Seq<char>)
    requires
        is_path_separator(sep),
    ensures
        spec_sanitize_font_component(p + seq![sep] + x) == spec_sanitize_font_component(x),
{
    lemma_last_segment_after_separator(p, sep, x);
}

} // verus!
