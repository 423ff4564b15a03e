//! Character-sequence helpers shared by the name and path logic.

use vstd::prelude::*;

verus! {

/// The characters of `s`, in order.
pub fn chars_of(s: &str) -> (v: Vec<char>)
    ensures
        v@ == s@,
{
    let mut v: Vec<char> = Vec::new();
    for c in it: s.chars()
        invariant
            it.seq() == s@,
            v@ == it.seq().take(it.index() as int),
    {
        v.push(c);
        assert(v@ =~= it.seq().take(it.index() as int + 1));
    }
    assert(v@ =~= s@);
    v
}

} // verus!

verus! {

/// `s` without any leading occurrences of `c`.
pub open spec fn trim_start_char(s: Seq<char>, c: char) -> Seq<char>
    decreases s.len(),
{
    if s.len() > 0 && s[0] == c {
        trim_start_char(s.drop_first(), c)
    } else {
        s
    }
}

/// `s` without any trailing occurrences of `c`.
pub open spec fn trim_end_char(s: Seq<char>, c: char) -> Seq<char>
    decreases s.len(),
{
    if s.len() > 0 && s.last() == c {
        trim_end_char(s.drop_last(), c)
    } else {
        s
    }
}

/// The pieces of `s` between occurrences of `sep`; always at least one piece.
pub open spec fn split_char(s: Seq<char>, sep: char) -> Seq<Seq<char>>
    decreases s.len(),
{
    if s.len() == 0 {
        seq![Seq::<char>::empty()]
    } else {
        let before = split_char(s.drop_last(), sep);
        if s.last() == sep {
            before.push(Seq::<char>::empty())
        } else {
            before.update(before.len() - 1, before.last().push(s.last()))
        }
    }
}

/// Splitting always gives at least one piece.
pub proof fn lemma_split_char_nonempty(s: Seq<char>, sep: char)
    ensures
        split_char(s, sep).len() >= 1,
    decreases s.len(),
{
    if s.len() > 0 {
        lemma_split_char_nonempty(s.drop_last(), sep);
    }
}

proof fn lemma_trim_start_step(s: Seq<char>, c: char, i: int)
    requires
        0 <= i < s.len(),
        s[i] == c,
    ensures
        trim_start_char(s.subrange(i, s.len() as int), c) == trim_start_char(
            s.subrange(i + 1, s.len() as int),
            c,
        ),
{
    assert(s.subrange(i, s.len() as int).drop_first() =~= s.subrange(i + 1, s.len() as int));
}

proof fn lemma_trim_end_step(s: Seq<char>, c: char, j: int)
    requires
        0 < j <= s.len(),
        s[j - 1] == c,
    ensures
        trim_end_char(s.subrange(0, j), c) == trim_end_char(s.subrange(0, j - 1), c),
{
    assert(s.subrange(0, j).drop_last() =~= s.subrange(0, j - 1));
}

/// `s` with every leading `c` removed.
pub fn trim_start_matching(s: &[char], c: char) -> (r: Vec<char>)
    ensures
        r@ == trim_start_char(s@, c),
{
    let mut i: usize = 0;
    assert(s@.subrange(0, s@.len() as int) =~= s@);
    while i < s.len() && s[i] == c
        invariant
            i <= s@.len(),
            trim_start_char(s@, c) == trim_start_char(s@.subrange(i as int, s@.len() as int), c),
        decreases s.len() - i,
    {
        proof {
            lemma_trim_start_step(s@, c, i as int);
        }
        i = i + 1;
    }
    let r = slice_to_vec_range(s, i, s.len());
    r
}

/// `s` with every trailing `c` removed.
pub fn trim_end_matching(s: &[char], c: char) -> (r: Vec<char>)
    ensures
        r@ == trim_end_char(s@, c),
{
    let mut j: usize = s.len();
    assert(s@.subrange(0, j as int) =~= s@);
    while j > 0 && s[j - 1] == c
        invariant
            j <= s@.len(),
            trim_end_char(s@, c) == trim_end_char(s@.subrange(0, j as int), c),
        decreases j,
    {
        proof {
            lemma_trim_end_step(s@, c, j as int);
        }
        j = j - 1;
    }
    let r = slice_to_vec_range(s, 0, j);
    proof {
        let t = s@.subrange(0, j as int);
        if t.len() > 0 {
            assert(t.last() == s@[j - 1]);
        }
    }
    r
}

/// A fresh vector holding `s[from..to]`.
pub fn slice_to_vec_range<T: Copy>(s: &[T], from: usize, to: usize) -> (r: Vec<T>)
    requires
        from <= to <= s@.len(),
    ensures
        r@ == s@.subrange(from as int, to as int),
{
    let mut r: Vec<T> = Vec::new();
    let mut i: usize = from;
    while i < to
        invariant
            from <= i <= to <= s@.len(),
            r@ == s@.subrange(from as int, i as int),
        decreases to - i,
    {
        r.push(s[i]);
        assert(r@ =~= s@.subrange(from as int, i as int + 1));
        i = i + 1;
    }
    r
}

/// The pieces of `s` between occurrences of `sep`, as `str::split` yields them.
pub fn split_at_char(s: &[char], sep: char) -> (parts: Vec<Vec<char>>)
    ensures
        parts@.len() == split_char(s@, sep).len(),
        forall|k: int| 0 <= k < parts@.len() ==> #[trigger] parts@[k]@ == split_char(s@, sep)[k],
{
    let mut parts: Vec<Vec<char>> = Vec::new();
    let mut current: Vec<char> = Vec::new();
    let mut i: usize = 0;
    while i < s.len()
        invariant
            i <= s@.len(),
            parts@.len() + 1 == split_char(s@.take(i as int), sep).len(),
            forall|k: int|
                0 <= k < parts@.len() ==> #[trigger] parts@[k]@ == split_char(
                    s@.take(i as int),
                    sep,
                )[k],
            current@ == split_char(s@.take(i as int), sep).last(),
        decreases s.len() - i,
    {
        proof {
            lemma_split_char_nonempty(s@.take(i as int), sep);
            assert(s@.take(i as int + 1).drop_last() =~= s@.take(i as int));
        }
        if s[i] == sep {
            let done = current;
            parts.push(done);
            current = Vec::new();
        } else {
            current.push(s[i]);
        }
        i = i + 1;
    }
    parts.push(current);
    assert(s@.take(s@.len() as int) =~= s@);
    proof {
        lemma_split_char_nonempty(s@, sep);
    }
    parts
}

/// Appends one character to a string with `String::push`.
#[verifier::external_body]
pub(crate) fn push_char(s: &mut String, c: char)
    ensures
        final(s)@ == old(s)@.push(c),
{
    s.push(c);
}

/// The text that `bytes` encode, with `String::from_utf8`: `None` exactly when they are not
/// valid UTF-8.
#[verifier::external_body]
pub(crate) fn text_from_utf8(bytes: Vec<u8>) -> (text: Option<String>)
    ensures
        match text {
            Some(t) => vstd::utf8::valid_utf8(bytes@) && t@ == vstd::utf8::decode_utf8(bytes@),
            None => !vstd::utf8::valid_utf8(bytes@),
        },
{
    String::from_utf8(bytes).ok()
}

/// A string holding exactly the characters of `v`.
pub fn string_from_chars(v: &[char]) -> (s: String)
    ensures
        s@ == v@,
{
    let mut s = String::new();
    let mut i: usize = 0;
    while i < v.len()
        invariant
            i <= v@.len(),
            s@ == v@.take(i as int),
        decreases v.len() - i,
    {
        push_char(&mut s, v[i]);
        assert(s@ =~= v@.take(i as int + 1));
        i = i + 1;
    }
    assert(v@.take(v@.len() as int) =~= v@);
    s
}

/// Whether `a` and `b` hold the same characters.
pub fn same_text(a: &str, b: &str) -> (eq: bool)
    ensures
        eq == (a@ == b@),
{
    let x = chars_of(a);
    let y = chars_of(b);
    if x.len() != y.len() {
        return false;
    }
    let mut i: usize = 0;
    while i < x.len()
        invariant
            i <= x@.len(),
            x@ == a@,
            y@ == b@,
            x@.len() == y@.len(),
            forall|j: int| 0 <= j < i ==> x@[j] == y@[j],
        decreases x.len() - i,
    {
        if x[i] != y[i] {
            assert(a@[i as int] != b@[i as int]);
            return false;
        }
        i = i + 1;
    }
    assert(x@ =~= y@);
    true
}

/// `s` with every occurrence of `from` replaced by `to`, occurrences found left to right without
/// overlapping, as `str::replace` does for a non-empty pattern.
pub open spec fn replace_all(s: Seq<char>, from: Seq<char>, to: Seq<char>) -> Seq<char>
    decreases s.len(),
{
    if from.len() == 0 || s.len() < from.len() {
        s
    } else if s.take(from.len() as int) == from {
        to + replace_all(s.skip(from.len() as int), from, to)
    } else {
        seq![s[0]] + replace_all(s.skip(1), from, to)
    }
}

/// Whether `from` occurs in `s` at position `i`.
fn occurs_at(s: &[char], i: usize, from: &[char]) -> (b: bool)
    requires
        i <= s@.len(),
    ensures
        b == (i + from@.len() <= s@.len() && s@.subrange(i as int, i + from@.len()) == from@),
{
    if from.len() > s.len() - i {
        return false;
    }
    let mut k: usize = 0;
    while k < from.len()
        invariant
            k <= from@.len(),
            i + from@.len() <= s@.len(),
            s@.len() == s.len(),
            forall|j: int| 0 <= j < k ==> s@[i + j] == from@[j],
        decreases from.len() - k,
    {
        if s[i + k] != from[k] {
            assert(s@.subrange(i as int, i + from@.len())[k as int] != from@[k as int]);
            return false;
        }
        k = k + 1;
    }
    assert(s@.subrange(i as int, i + from@.len()) =~= from@);
    true
}

/// `s` with every occurrence of the non-empty `from` replaced by `to`.
pub fn replace_chars(s: &[char], from: &[char], to: &[char]) -> (r: Vec<char>)
    requires
        from@.len() > 0,
    ensures
        r@ == replace_all(s@, from@, to@),
{
    let mut r: Vec<char> = Vec::new();
    let mut i: usize = 0;
    assert(s@.skip(0) =~= s@);
    while i < s.len()
        invariant
            i <= s@.len(),
            from@.len() > 0,
            replace_all(s@, from@, to@) == r@ + replace_all(s@.skip(i as int), from@, to@),
        decreases s.len() - i,
    {
        let rest = Ghost(s@.skip(i as int));
        if occurs_at(s, i, from) {
            assert(rest@.take(from@.len() as int) =~= s@.subrange(i as int, i + from@.len()));
            assert(rest@.skip(from@.len() as int) =~= s@.skip(i + from@.len()));
            let mut k: usize = 0;
            let ghost before = r@;
            while k < to.len()
                invariant
                    k <= to@.len(),
                    r@ == before + to@.take(k as int),
                decreases to.len() - k,
            {
                r.push(to[k]);
                assert(r@ =~= before + to@.take(k as int + 1));
                k = k + 1;
            }
            assert(to@.take(to@.len() as int) =~= to@);
            assert(before + (to@ + replace_all(s@.skip(i + from@.len()), from@, to@)) =~= r@
                + replace_all(s@.skip(i + from@.len()), from@, to@));
            i = i + from.len();
        } else {
            proof {
                assert(rest@.skip(1) =~= s@.skip(i + 1));
                if rest@.len() >= from@.len() {
                    assert(rest@.take(from@.len() as int) =~= s@.subrange(i as int, i + from@.len()));
                } else {
                    assert(replace_all(s@.skip(i + 1), from@, to@) == s@.skip(i + 1));
                    assert(rest@ =~= seq![s@[i as int]] + s@.skip(i + 1));
                }
            }
            let ghost before = r@;
            r.push(s[i]);
            assert(before + (seq![s@[i as int]] + replace_all(s@.skip(i + 1), from@, to@)) =~= r@
                + replace_all(s@.skip(i + 1), from@, to@));
            i = i + 1;
        }
    }
    assert(s@.skip(s@.len() as int) =~= Seq::<char>::empty());
    assert(r@ + Seq::<char>::empty() =~= r@);
    r
}

/// Whether `s` begins with `p`, as `str::starts_with`.
pub fn starts_with_text(s: &str, p: &str) -> (b: bool)
    ensures
        b == p@.is_prefix_of(s@),
{
    let x = chars_of(s);
    let y = chars_of(p);
    let b = occurs_at(x.as_slice(), 0, y.as_slice());
    assert(b == (y@.len() <= x@.len() && x@.subrange(0, y@.len() as int) == y@));
    b
}

/// Whether `s` ends with `p`, as `str::ends_with`.
pub fn ends_with_text(s: &str, p: &str) -> (b: bool)
    ensures
        b == p@.is_suffix_of(s@),
{
    let x = chars_of(s);
    let y = chars_of(p);
    if y.len() > x.len() {
        return false;
    }
    let b = occurs_at(x.as_slice(), x.len() - y.len(), y.as_slice());
    b
}

/// Where `p` first occurs in `s`, if it does.
#[verifier::opaque]
pub open spec fn first_occurrence(s: Seq<char>, p: Seq<char>) -> Option<int> {
    if exists|i: int| 0 <= i && i + p.len() <= s.len() && #[trigger] s.subrange(i, i + p.len()) == p {
        Some(
            choose|i: int|
                0 <= i && i + p.len() <= s.len() && #[trigger] s.subrange(i, i + p.len()) == p && forall|
                    j: int,
                | 0 <= j < i ==> #[trigger] s.subrange(j, j + p.len()) != p,
        )
    } else {
        None
    }
}

/// Where `p` first occurs in `s`, as `str::find` (in characters rather than bytes).
pub fn find_chars(s: &[char], p: &[char]) -> (found: Option<usize>)
    ensures
        match found {
            Some(i) => {
                &&& first_occurrence(s@, p@) == Some(i as int)
                &&& i + p@.len() <= s@.len()
                &&& s@.subrange(i as int, i + p@.len()) == p@
            },
            None => first_occurrence(s@, p@) is None,
        },
{
    proof {
        reveal(first_occurrence);
    }
    if p.len() > s.len() {
        return None;
    }
    let last: usize = s.len() - p.len();
    let mut i: usize = 0;
    while i <= last
        invariant
            last + p@.len() == s@.len(),
            i <= last + 1,
            forall|j: int| 0 <= j < i ==> #[trigger] s@.subrange(j, j + p@.len()) != p@,
        decreases last + 1 - i,
    {
        if occurs_at(s, i, p) {
            proof {
                reveal(first_occurrence);
                let q = i as int;
                assert(0 <= q && q + p@.len() <= s@.len() && s@.subrange(q, q + p@.len()) == p@ && forall|
                    j: int,
                | 0 <= j < q ==> #[trigger] s@.subrange(j, j + p@.len()) != p@);
                let c = choose|c: int|
                    0 <= c && c + p@.len() <= s@.len() && #[trigger] s@.subrange(c, c + p@.len()) == p@
                        && forall|j: int| 0 <= j < c ==> #[trigger] s@.subrange(j, j + p@.len()) != p@;
                if c > q {
                    assert(s@.subrange(q, q + p@.len()) != p@);
                }
            }
            return Some(i);
        }
        if i == last {
            proof {
                reveal(first_occurrence);
                assert forall|j: int| 0 <= j && j + p@.len() <= s@.len() implies #[trigger] s@.subrange(
                    j,
                    j + p@.len(),
                ) != p@ by {
                    if j == last {
                        assert(s@.subrange(i as int, i + p@.len()) != p@);
                    }
                }
            }
            return None;
        }
        i = i + 1;
    }
    None
}

/// `s[..start]`, then `middle`, then `s[end..]`.
pub fn splice_chars(s: &[char], start: usize, end: usize, middle: &[char]) -> (r: Vec<char>)
    requires
        start <= end <= s@.len(),
    ensures
        r@ == s@.take(start as int) + middle@ + s@.skip(end as int),
{
    let mut r = slice_to_vec_range(s, 0, start);
    let mut k: usize = 0;
    let ghost head = r@;
    while k < middle.len()
        invariant
            k <= middle@.len(),
            r@ == head + middle@.take(k as int),
        decreases middle.len() - k,
    {
        r.push(middle[k]);
        assert(r@ =~= head + middle@.take(k as int + 1));
        k = k + 1;
    }
    assert(middle@.take(middle@.len() as int) =~= middle@);
    let ghost body = r@;
    let mut m: usize = end;
    while m < s.len()
        invariant
            end <= m <= s@.len(),
            r@ == body + s@.subrange(end as int, m as int),
        decreases s.len() - m,
    {
        r.push(s[m]);
        assert(r@ =~= body + s@.subrange(end as int, m as int + 1));
        m = m + 1;
    }
    assert(s@.subrange(end as int, s@.len() as int) =~= s@.skip(end as int));
    assert(s@.subrange(0, start as int) =~= s@.take(start as int));
    r
}

} // verus!

verus! {

/// The pieces of `s` between the occurrences of the non-empty `p`, found left to right without
/// overlapping, with `current` put in front of the first piece; as `str::split` with a string
/// pattern.
pub open spec fn split_pieces(s: Seq<char>, p: Seq<char>, current: Seq<char>) -> Seq<Seq<char>>
    decreases s.len(),
{
    if p.len() == 0 || s.len() < p.len() {
        seq![current + s]
    } else if s.take(p.len() as int) == p {
        seq![current] + split_pieces(s.skip(p.len() as int), p, Seq::empty())
    } else {
        split_pieces(s.skip(1), p, current.push(s[0]))
    }
}

/// The characters of each vector.
pub open spec fn char_vecs(v: Seq<Vec<char>>) -> Seq<Seq<char>> {
    v.map_values(|x: Vec<char>| x@)
}

/// The pieces of `s` between the occurrences of the non-empty `p`, as `str::split`.
pub fn split_text(s: &[char], p: &[char]) -> (pieces: Vec<Vec<char>>)
    requires
        p@.len() > 0,
    ensures
        char_vecs(pieces@) == split_pieces(s@, p@, Seq::empty()),
{
    let mut pieces: Vec<Vec<char>> = Vec::new();
    let mut current: Vec<char> = Vec::new();
    let mut i: usize = 0;
    assert(s@.skip(0) =~= s@);
    assert(char_vecs(pieces@) =~= Seq::<Seq<char>>::empty());
    while i < s.len()
        invariant
            i <= s@.len(),
            p@.len() > 0,
            split_pieces(s@, p@, Seq::empty()) == char_vecs(pieces@) + split_pieces(
                s@.skip(i as int),
                p@,
                current@,
            ),
        decreases s.len() - i,
    {
        let rest = Ghost(s@.skip(i as int));
        if occurs_at(s, i, p) {
            proof {
                assert(rest@.take(p@.len() as int) =~= s@.subrange(i as int, i + p@.len()));
                assert(rest@.skip(p@.len() as int) =~= s@.skip(i + p@.len()));
            }
            let ghost before = char_vecs(pieces@);
            let done = current;
            pieces.push(done);
            current = Vec::new();
            proof {
                assert(char_vecs(pieces@) =~= before.push(done@));
                assert(before + (seq![done@] + split_pieces(s@.skip(i + p@.len()), p@, Seq::empty()))
                    =~= char_vecs(pieces@) + split_pieces(s@.skip(i + p@.len()), p@, current@));
            }
            i = i + p.len();
        } else {
            proof {
                assert(rest@.skip(1) =~= s@.skip(i + 1));
                if rest@.len() >= p@.len() {
                    assert(rest@.take(p@.len() as int) =~= s@.subrange(i as int, i + p@.len()));
                } else {
                    assert(split_pieces(s@.skip(i + 1), p@, current@.push(s@[i as int])) == seq![
                        current@.push(s@[i as int]) + s@.skip(i + 1),
                    ]);
                    assert(current@.push(s@[i as int]) + s@.skip(i + 1) =~= current@ + rest@);
                }
            }
            current.push(s[i]);
            i = i + 1;
        }
    }
    proof {
        assert(s@.skip(s@.len() as int) =~= Seq::<char>::empty());
        assert(current@ + Seq::<char>::empty() =~= current@);
    }
    let ghost before = char_vecs(pieces@);
    let last = current;
    pieces.push(last);
    assert(char_vecs(pieces@) =~= before.push(last@));
    assert(before + seq![last@] =~= char_vecs(pieces@));
    pieces
}

} // verus!
