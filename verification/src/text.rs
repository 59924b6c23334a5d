//! Text building blocks with exact meanings over sequences of characters.
use vstd::prelude::*;

verus! {

/// Appends one character (`String::push`, whose documentation promises exactly that).
#[verifier::external_body]
pub fn push_char(s: &mut String, c: char)
    ensures
        final(s)@ == old(s)@.push(c),
{
    s.push(c);
}

/// Appends a string slice.
pub fn push_str(s: &mut String, t: &str)
    ensures
        final(s)@ == old(s)@ + t@,
{
    s.append(t);
}

/// The characters of `s`.
pub fn chars_of(s: &str) -> (v: Vec<char>)
    ensures
        v@ == s@,
{
    let mut v: Vec<char> = Vec::new();
    for c in it: s.chars()
        invariant
            v@ == it.seq().take(it.index() as int),
    {
        v.push(c);
    }
    v
}

/// A string holding exactly the given characters.
pub fn string_of(chars: &[char]) -> (s: String)
    ensures
        s@ == chars@,
{
    let mut s = String::new();
    let mut i: usize = 0;
    while i < chars.len()
        invariant
            i <= chars@.len(),
            s@ == chars@.take(i as int),
        decreases chars@.len() - i,
    {
        push_char(&mut s, chars[i]);
        proof {
            assert(chars@.take(i + 1) == chars@.take(i as int).push(chars@[i as int]));
        }
        i = i + 1;
    }
    proof {
        assert(chars@.take(chars@.len() as int) == chars@);
    }
    s
}

/// The decimal digit for `d < 10`.
pub open spec fn digit_char(d: nat) -> char {
    (48 + d) as char
}

/// The decimal representation of `n`, without leading zeros.
pub open spec fn decimal(n: nat) -> Seq<char>
    decreases n,
{
    if n < 10 {
        seq![digit_char(n)]
    } else {
        decimal(n / 10).push(digit_char(n % 10))
    }
}

/// Appends the decimal representation of `n`.
pub fn push_decimal(out: &mut String, n: u64)
    ensures
        final(out)@ == old(out)@ + decimal(n as nat),
    decreases n,
{
    if n >= 10 {
        push_decimal(out, n / 10);
    }
    let d = (n % 10) as u8;
    let c = (48u8 + d) as char;
    push_char(out, c);
    proof {
        assert(c == digit_char((n % 10) as nat));
    }
}

/// The parts with `sep` between each pair.
pub open spec fn join(parts: Seq<Seq<char>>, sep: Seq<char>) -> Seq<char>
    decreases parts.len(),
{
    if parts.len() == 0 {
        Seq::empty()
    } else if parts.len() == 1 {
        parts[0]
    } else {
        join(parts.drop_last(), sep) + sep + parts.last()
    }
}

/// The parts with `sep` between each pair.
pub fn join_strings(parts: &Vec<String>, sep: &str) -> (r: String)
    ensures
        r@ == join(parts.deep_view(), sep@),
{
    let mut r = String::new();
    let mut i: usize = 0;
    while i < parts.len()
        invariant
            i <= parts@.len(),
            r@ == join(parts.deep_view().take(i as int), sep@),
        decreases parts@.len() - i,
    {
        proof {
            let dv = parts.deep_view();
            assert(dv.take(i + 1).drop_last() == dv.take(i as int));
            assert(dv.take(i + 1).last() == parts@[i as int]@);
        }
        if i > 0 {
            r.append(sep);
        }
        r.append(parts[i].as_str());
        i = i + 1;
    }
    proof {
        assert(parts.deep_view().take(parts@.len() as int) == parts.deep_view());
    }
    r
}

/// Whether two character sequences are equal.
pub fn chars_equal(a: &[char], b: &[char]) -> (r: bool)
    ensures
        r == (a@ == b@),
{
    if a.len() != b.len() {
        return false;
    }
    let mut i: usize = 0;
    while i < a.len()
        invariant
            i <= a@.len(),
            a@.len() == b@.len(),
            forall|j: int| 0 <= j < i ==> a@[j] == b@[j],
        decreases a@.len() - i,
    {
        if a[i] != b[i] {
            return false;
        }
        i = i + 1;
    }
    proof {
        assert(a@ =~= b@);
    }
    true
}

/// Whether two strings hold the same characters.
pub fn str_equal(a: &str, b: &str) -> (r: bool)
    ensures
        r == (a@ == b@),
{
    let x = chars_of(a);
    let y = chars_of(b);
    chars_equal(x.as_slice(), y.as_slice())
}

/// Unicode `White_Space`, the characters `char::is_whitespace` accepts.
pub open spec fn is_white(c: char) -> bool {
    ||| ('\u{9}' <= c && c <= '\u{D}')
    ||| c == ' '
    ||| c == '\u{85}'
    ||| c == '\u{A0}'
    ||| c == '\u{1680}'
    ||| ('\u{2000}' <= c && c <= '\u{200A}')
    ||| c == '\u{2028}'
    ||| c == '\u{2029}'
    ||| c == '\u{202F}'
    ||| c == '\u{205F}'
    ||| c == '\u{3000}'
}

/// Whether `c` is Unicode white space.
pub fn is_whitespace(c: char) -> (r: bool)
    ensures
        r == is_white(c),
{
    ('\u{9}' <= c && c <= '\u{D}') || c == ' ' || c == '\u{85}' || c == '\u{A0}' || c == '\u{1680}'
        || ('\u{2000}' <= c && c <= '\u{200A}') || c == '\u{2028}' || c == '\u{2029}' || c == '\u{202F}'
        || c == '\u{205F}' || c == '\u{3000}'
}

/// `s` without its leading white space.
pub open spec fn trim_start(s: Seq<char>) -> Seq<char>
    decreases s.len(),
{
    if s.len() > 0 && is_white(s[0]) {
        trim_start(s.drop_first())
    } else {
        s
    }
}

/// `s` without its trailing white space.
pub open spec fn trim_end(s: Seq<char>) -> Seq<char>
    decreases s.len(),
{
    if s.len() > 0 && is_white(s.last()) {
        trim_end(s.drop_last())
    } else {
        s
    }
}

/// `s` without leading and trailing white space.
pub open spec fn trim(s: Seq<char>) -> Seq<char> {
    trim_end(trim_start(s))
}

proof fn lemma_trim_start_skip(s: Seq<char>, i: int)
    requires
        0 <= i <= s.len(),
        forall|j: int| 0 <= j < i ==> is_white(#[trigger] s[j]),
    ensures
        trim_start(s) == trim_start(s.skip(i)),
    decreases i,
{
    if i > 0 {
        assert(s.skip(1) == s.drop_first());
        lemma_trim_start_skip(s.drop_first(), i - 1);
        assert(s.drop_first().skip(i - 1) =~= s.skip(i));
    } else {
        assert(s.skip(0) =~= s);
    }
}

proof fn lemma_trim_end_take(s: Seq<char>, k: int)
    requires
        0 <= k <= s.len(),
        forall|j: int| k <= j < s.len() ==> is_white(#[trigger] s[j]),
    ensures
        trim_end(s) == trim_end(s.take(k)),
    decreases s.len() - k,
{
    if k < s.len() {
        lemma_trim_end_take(s.drop_last(), k);
        assert(s.drop_last().take(k) =~= s.take(k));
    } else {
        assert(s.take(k) =~= s);
    }
}

/// `s` without leading and trailing white space.
pub fn trim_chars(s: &[char]) -> (r: Vec<char>)
    ensures
        r@ == trim(s@),
{
    let n = s.len();
    let mut start: usize = 0;
    while start < n && is_whitespace(s[start])
        invariant
            start <= n,
            n == s@.len(),
            forall|j: int| 0 <= j < start ==> is_white(#[trigger] s@[j]),
        decreases n - start,
    {
        start = start + 1;
    }
    proof {
        lemma_trim_start_skip(s@, start as int);
        if start < n {
            assert(s@.skip(start as int)[0] == s@[start as int]);
        }
    }
    let mut end: usize = n;
    while end > start && is_whitespace(s[end - 1])
        invariant
            start <= end <= n,
            n == s@.len(),
            forall|j: int| end <= j < n ==> is_white(#[trigger] s@[j]),
        decreases end - start,
    {
        end = end - 1;
    }
    let mut r: Vec<char> = Vec::new();
    let mut i: usize = start;
    while i < end
        invariant
            start <= i <= end <= n,
            n == s@.len(),
            r@ == s@.subrange(start as int, i as int),
        decreases end - i,
    {
        r.push(s[i]);
        proof {
            assert(s@.subrange(start as int, i + 1) =~= s@.subrange(start as int, i as int).push(s@[i as int]));
        }
        i = i + 1;
    }
    proof {
        let t = s@.skip(start as int);
        assert(trim_start(s@) == t);
        let k = end - start;
        assert forall|j: int| k <= j < t.len() implies is_white(#[trigger] t[j]) by {
            assert(t[j] == s@[start + j]);
        }
        lemma_trim_end_take(t, k as int);
        assert(t.take(k as int) =~= s@.subrange(start as int, end as int));
        if k > 0 {
            assert(t.take(k as int).last() == s@[end - 1]);
        }
    }
    r
}

/// ASCII lower case of one character; other characters are unchanged.
pub open spec fn lower(c: char) -> char {
    if 'A' <= c && c <= 'Z' {
        ((c as u32) + 32) as char
    } else {
        c
    }
}

/// ASCII lower case of a sequence.
pub open spec fn lowercase(s: Seq<char>) -> Seq<char> {
    s.map_values(|c: char| lower(c))
}

/// ASCII lower case of a sequence (`to_ascii_lowercase`).
pub fn to_lowercase(s: &[char]) -> (r: Vec<char>)
    ensures
        r@ == lowercase(s@),
{
    let mut r: Vec<char> = Vec::new();
    let mut i: usize = 0;
    while i < s.len()
        invariant
            i <= s@.len(),
            r@ == lowercase(s@.take(i as int)),
        decreases s@.len() - i,
    {
        let c = s[i];
        let l = if 'A' <= c && c <= 'Z' { ((c as u8) + 32) as char } else { c };
        r.push(l);
        proof {
            assert(lowercase(s@.take(i + 1)) =~= lowercase(s@.take(i as int)).push(lower(c)));
        }
        i = i + 1;
    }
    proof {
        assert(s@.take(s@.len() as int) =~= s@);
    }
    r
}

/// `needle` occurs in `hay` starting at `i`.
pub open spec fn occurs_at(hay: Seq<char>, needle: Seq<char>, i: int) -> bool {
    0 <= i && i + needle.len() <= hay.len() && hay.subrange(i, i + needle.len()) == needle
}

/// `needle` occurs somewhere in `hay`.
pub open spec fn contains(hay: Seq<char>, needle: Seq<char>) -> bool {
    exists|i: int| occurs_at(hay, needle, i)
}

/// The first position at or after `from` where `needle` occurs in `hay`.
pub open spec fn find_from(hay: Seq<char>, needle: Seq<char>, from: int) -> Option<int>
    decreases hay.len() + 1 - from,
{
    if from < 0 || from + needle.len() > hay.len() {
        None
    } else if occurs_at(hay, needle, from) {
        Some(from)
    } else {
        find_from(hay, needle, from + 1)
    }
}

/// Whether `needle` occurs in `hay` at `i`.
pub fn matches_at(hay: &[char], needle: &[char], i: usize) -> (r: bool)
    ensures
        r == occurs_at(hay@, needle@, i as int),
{
    if i > hay.len() || needle.len() > hay.len() - i {
        return false;
    }
    let mut k: usize = 0;
    while k < needle.len()
        invariant
            k <= needle@.len(),
            i + needle@.len() <= hay@.len(),
            hay@.len() == hay.len(),
            forall|j: int| 0 <= j < k ==> hay@[i + j] == needle@[j],
        decreases needle@.len() - k,
    {
        if hay[i + k] != needle[k] {
            proof {
                assert(hay@.subrange(i as int, i + needle@.len())[k as int] != needle@[k as int]);
            }
            return false;
        }
        k = k + 1;
    }
    proof {
        assert(hay@.subrange(i as int, i + needle@.len()) =~= needle@);
    }
    true
}

proof fn lemma_find_from_none(hay: Seq<char>, needle: Seq<char>, from: int)
    requires
        from >= 0,
        find_from(hay, needle, from) is None,
    ensures
        forall|i: int| from <= i ==> !occurs_at(hay, needle, i),
    decreases hay.len() + 1 - from,
{
    if from + needle.len() <= hay.len() {
        lemma_find_from_none(hay, needle, from + 1);
    }
}

proof fn lemma_find_from_some(hay: Seq<char>, needle: Seq<char>, from: int)
    requires
        from >= 0,
        find_from(hay, needle, from) is Some,
    ensures
        occurs_at(hay, needle, find_from(hay, needle, from)->0),
        from <= find_from(hay, needle, from)->0,
        forall|i: int| from <= i < find_from(hay, needle, from)->0 ==> !occurs_at(hay, needle, i),
    decreases hay.len() + 1 - from,
{
    if !occurs_at(hay, needle, from) {
        lemma_find_from_some(hay, needle, from + 1);
    }
}

/// The first position at or after `from` where `needle` occurs.
pub fn find(hay: &[char], needle: &[char], from: usize) -> (r: Option<usize>)
    ensures
        match r {
            Some(i) => find_from(hay@, needle@, from as int) == Some(i as int),
            None => find_from(hay@, needle@, from as int) is None,
        },
{
    let mut i = from;
    while i <= hay.len() && needle.len() <= hay.len() - i
        invariant
            from <= i,
            find_from(hay@, needle@, from as int) == find_from(hay@, needle@, i as int),
        decreases hay@.len() + 1 - i,
    {
        if matches_at(hay, needle, i) {
            return Some(i);
        }
        if i == hay.len() {
            proof {
                assert(find_from(hay@, needle@, i + 1) is None);
            }
            return None;
        }
        i = i + 1;
    }
    None
}

/// Whether `needle` occurs in `hay`.
pub fn contains_chars(hay: &[char], needle: &[char]) -> (r: bool)
    ensures
        r == contains(hay@, needle@),
{
    let r = find(hay, needle, 0);
    proof {
        match r {
            Some(i) => {
                lemma_find_from_some(hay@, needle@, 0);
            },
            None => {
                lemma_find_from_none(hay@, needle@, 0);
            },
        }
    }
    r.is_some()
}

/// `s` begins with `p`.
pub open spec fn starts_with(s: Seq<char>, p: Seq<char>) -> bool {
    p.len() <= s.len() && s.take(p.len() as int) == p
}

/// `s` ends with `p`.
pub open spec fn ends_with(s: Seq<char>, p: Seq<char>) -> bool {
    p.len() <= s.len() && s.skip(s.len() - p.len()) == p
}

/// Whether `s` begins with `p`.
pub fn has_prefix(s: &[char], p: &[char]) -> (r: bool)
    ensures
        r == starts_with(s@, p@),
{
    let r = matches_at(s, p, 0);
    proof {
        if r {
            assert(s@.subrange(0, p@.len() as int) =~= s@.take(p@.len() as int));
        } else if p@.len() <= s@.len() {
            assert(s@.subrange(0, p@.len() as int) =~= s@.take(p@.len() as int));
        }
    }
    r
}

/// Whether `s` ends with `p`.
pub fn has_suffix(s: &[char], p: &[char]) -> (r: bool)
    ensures
        r == ends_with(s@, p@),
{
    if p.len() > s.len() {
        return false;
    }
    let r = matches_at(s, p, s.len() - p.len());
    proof {
        assert(s@.subrange(s@.len() - p@.len(), s@.len() as int) =~= s@.skip(s@.len() - p@.len()));
    }
    r
}

/// The characters `s[from..to]`.
pub fn slice_chars(s: &[char], from: usize, to: usize) -> (r: Vec<char>)
    requires
        from <= to <= s@.len(),
    ensures
        r@ == s@.subrange(from as int, to as int),
{
    let mut r: Vec<char> = Vec::new();
    let mut i = from;
    while i < to
        invariant
            from <= i <= to <= s@.len(),
            r@ == s@.subrange(from as int, i as int),
        decreases to - i,
    {
        r.push(s[i]);
        proof {
            assert(s@.subrange(from as int, i + 1) =~= s@.subrange(from as int, i as int).push(s@[i as int]));
        }
        i = i + 1;
    }
    r
}

/// `s` cut after every newline: each piece but possibly the last ends with `\n`.
pub open spec fn pieces(s: Seq<char>) -> Seq<Seq<char>>
    decreases s.len(),
{
    if s.len() == 0 {
        Seq::empty()
    } else {
        let p = pieces(s.drop_last());
        let c = s.last();
        if p.len() == 0 || p.last().last() == '\n' {
            p.push(seq![c])
        } else {
            p.update(p.len() - 1, p.last().push(c))
        }
    }
}

/// A piece without its line ending (`\n` or `\r\n`).
pub open spec fn strip_line_end(l: Seq<char>) -> Seq<char> {
    if l.len() > 0 && l.last() == '\n' {
        let m = l.drop_last();
        if m.len() > 0 && m.last() == '\r' {
            m.drop_last()
        } else {
            m
        }
    } else {
        l
    }
}

/// The lines of `s` as `str::lines` yields them: split at `\n` or `\r\n`,
/// with no empty line after a final line ending.
pub open spec fn lines(s: Seq<char>) -> Seq<Seq<char>> {
    pieces(s).map_values(|l: Seq<char>| strip_line_end(l))
}

/// `s` holds no newline character.
pub open spec fn no_newline(s: Seq<char>) -> bool {
    forall|j: int| 0 <= j < s.len() ==> s[j] != '\n'
}

/// Every piece is non-empty, and a newline can only be its last character.
pub(crate) proof fn lemma_pieces_shape(s: Seq<char>)
    ensures
        s.len() == 0 <==> pieces(s).len() == 0,
        s.len() > 0 ==> pieces(s).last().last() == s.last(),
        forall|k: int| 0 <= k < pieces(s).len() ==> {
            &&& (#[trigger] pieces(s)[k]).len() > 0
            &&& no_newline(pieces(s)[k].drop_last())
        },
    decreases s.len(),
{
    if s.len() > 0 {
        let t = s.drop_last();
        lemma_pieces_shape(t);
        let p = pieces(t);
        let c = s.last();
        if p.len() == 0 || p.last().last() == '\n' {
            assert forall|k: int| 0 <= k < pieces(s).len() implies {
                &&& (#[trigger] pieces(s)[k]).len() > 0
                &&& no_newline(pieces(s)[k].drop_last())
            } by {
                if k < p.len() {
                    assert(pieces(s)[k] == p[k]);
                } else {
                    assert(pieces(s)[k] == seq![c]);
                }
            }
        } else {
            let l = p.last();
            assert forall|k: int| 0 <= k < pieces(s).len() implies {
                &&& (#[trigger] pieces(s)[k]).len() > 0
                &&& no_newline(pieces(s)[k].drop_last())
            } by {
                if k < p.len() - 1 {
                    assert(pieces(s)[k] == p[k]);
                } else {
                    assert(pieces(s)[k] == l.push(c));
                    assert(l.push(c).drop_last() =~= l);
                    assert(p[p.len() - 1] == l);
                    assert forall|j: int| 0 <= j < l.len() implies l[j] != '\n' by {
                        if j < l.len() - 1 {
                            assert(l.drop_last()[j] == l[j]);
                        }
                    }
                }
            }
        }
    }
}

/// Cutting text that ends with a newline (or is empty) and then more text
/// gives the pieces of the first followed by the pieces of the second.
pub(crate) proof fn lemma_pieces_append(a: Seq<char>, b: Seq<char>)
    requires
        a.len() == 0 || a.last() == '\n',
    ensures
        pieces(a + b) == pieces(a) + pieces(b),
    decreases b.len(),
{
    if b.len() == 0 {
        assert(a + b =~= a);
        assert(pieces(a) + pieces(b) =~= pieces(a));
    } else {
        let b0 = b.drop_last();
        let c = b.last();
        assert((a + b).drop_last() =~= a + b0);
        assert((a + b).last() == c);
        lemma_pieces_append(a, b0);
        lemma_pieces_shape(a);
        lemma_pieces_shape(b0);
        let pa = pieces(a);
        let q = pieces(b0);
        let p = pieces(a + b0);
        assert(p == pa + q);
        if q.len() == 0 {
            assert(p =~= pa);
            assert(pieces(a + b) =~= pa + pieces(b));
        } else {
            assert(p.last() == q.last());
            if q.last().last() == '\n' {
                assert(pieces(a + b) =~= pa + pieces(b));
            } else {
                assert(pieces(a + b) =~= pa + pieces(b));
            }
        }
    }
}

/// Text without newlines is one piece.
pub(crate) proof fn lemma_pieces_one_line(e: Seq<char>)
    requires
        e.len() > 0,
        no_newline(e),
    ensures
        pieces(e) == seq![e],
    decreases e.len(),
{
    let t = e.drop_last();
    if t.len() == 0 {
        assert(pieces(t) =~= Seq::<Seq<char>>::empty());
        assert(e =~= seq![e.last()]);
        assert(pieces(e) =~= seq![e]);
    } else {
        assert(no_newline(t)) by {
            assert forall|j: int| 0 <= j < t.len() implies t[j] != '\n' by {
                assert(t[j] == e[j]);
            }
        }
        lemma_pieces_one_line(t);
        assert(t.last() == e[t.len() - 1]);
        assert(t.push(e.last()) =~= e);
        assert(pieces(e) =~= seq![e]);
    }
}

/// Adding a newline after text whose last piece has none keeps the number of pieces.
pub(crate) proof fn lemma_pieces_line_end(j: Seq<char>)
    requires
        j.len() > 0,
        j.last() != '\n',
    ensures
        pieces(j.push('\n')).len() == pieces(j).len(),
{
    lemma_pieces_shape(j);
    assert(j.push('\n').drop_last() =~= j);
}

/// The lines of text that joins newline-free, non-empty parts with `\n`
/// are as many as the parts.
pub(crate) proof fn lemma_join_line_count(m: Seq<Seq<char>>)
    requires
        forall|i: int| 0 <= i < m.len() ==> (#[trigger] m[i]).len() > 0 && no_newline(m[i]),
    ensures
        lines(join(m, "\n"@)).len() == m.len(),
        m.len() > 0 ==> join(m, "\n"@).len() > 0 && join(m, "\n"@).last() == m.last().last(),
    decreases m.len(),
{
    reveal_strlit("\n");
    if m.len() == 0 {
        assert(pieces(Seq::<char>::empty()) =~= Seq::<Seq<char>>::empty());
    } else if m.len() == 1 {
        assert(m[0].len() > 0 && no_newline(m[0]));
        lemma_pieces_one_line(m[0]);
    } else {
        let m0 = m.drop_last();
        let e = m.last();
        assert(e == m[m.len() - 1]);
        assert(e.len() > 0 && no_newline(e));
        assert forall|i: int| 0 <= i < m0.len() implies (#[trigger] m0[i]).len() > 0 && no_newline(m0[i]) by {
            assert(m0[i] == m[i]);
        }
        lemma_join_line_count(m0);
        let jn = join(m0, "\n"@);
        assert(m0.last() == m[m.len() - 2]);
        assert(m[m.len() - 2].len() > 0 && no_newline(m[m.len() - 2]));
        assert(jn.last() != '\n');
        let a = jn + "\n"@;
        assert(a =~= jn.push('\n'));
        assert(join(m, "\n"@) == a + e);
        lemma_pieces_append(a, e);
        lemma_pieces_one_line(e);
        lemma_pieces_line_end(jn);
        assert((a + e).last() == e.last());
    }
}

/// No line of `s` holds a newline.
pub(crate) proof fn lemma_lines_no_newline(s: Seq<char>)
    ensures
        forall|k: int| 0 <= k < lines(s).len() ==> no_newline(#[trigger] lines(s)[k]),
{
    lemma_pieces_shape(s);
    assert forall|k: int| 0 <= k < lines(s).len() implies no_newline(#[trigger] lines(s)[k]) by {
        let p = pieces(s)[k];
        assert(lines(s)[k] == strip_line_end(p));
        assert(no_newline(p.drop_last()));
        let l = strip_line_end(p);
        assert forall|j: int| 0 <= j < l.len() implies l[j] != '\n' by {
            if p.len() > 0 && p.last() == '\n' {
                assert(l[j] == p.drop_last()[j]);
            } else {
                if j < p.len() - 1 {
                    assert(p.drop_last()[j] == p[j]);
                } else {
                    assert(p[j] == p.last());
                }
            }
        }
    }
}

fn stripped(piece: &Vec<char>) -> (r: Vec<char>)
    ensures
        r@ == strip_line_end(piece@),
{
    let n = piece.len();
    let mut end = n;
    if end > 0 && piece[end - 1] == '\n' {
        end = end - 1;
        if end > 0 && piece[end - 1] == '\r' {
            end = end - 1;
        }
    }
    let r = slice_chars(piece.as_slice(), 0, end);
    proof {
        if n > 0 && piece@.last() == '\n' {
            let m = piece@.drop_last();
            if m.len() > 0 && m.last() == '\r' {
                assert(m.drop_last() =~= piece@.subrange(0, end as int));
            } else {
                assert(m =~= piece@.subrange(0, end as int));
            }
        } else {
            assert(piece@ =~= piece@.subrange(0, end as int));
        }
    }
    r
}

/// The lines of `s`.
pub fn split_lines(s: &[char]) -> (r: Vec<Vec<char>>)
    ensures
        r.deep_view() == lines(s@),
{
    let mut done: Vec<Vec<char>> = Vec::new();
    let mut cur: Vec<char> = Vec::new();
    let mut i: usize = 0;
    while i < s.len()
        invariant
            i <= s@.len(),
            ({
                let p = pieces(s@.take(i as int));
                &&& forall|k: int| 0 <= k < done@.len() ==> #[trigger] done@[k]@ == strip_line_end(p[k])
                &&& cur@.len() == 0 ==> p.len() == done@.len() && (p.len() == 0 || p.last().last() == '\n')
                &&& cur@.len() > 0 ==> p.len() == done@.len() + 1 && p.last() == cur@ && cur@.last() != '\n'
            }),
        decreases s@.len() - i,
    {
        let c = s[i];
        let ghost p = pieces(s@.take(i as int));
        proof {
            assert(s@.take(i + 1).drop_last() =~= s@.take(i as int));
            assert(s@.take(i + 1).last() == c);
        }
        let ghost q = pieces(s@.take(i + 1));
        let ghost cur_before = cur@;
        cur.push(c);
        proof {
            if cur_before.len() == 0 {
                assert(q == p.push(seq![c]));
                assert(cur@ =~= seq![c]);
            } else {
                assert(q == p.update(p.len() - 1, p.last().push(c)));
            }
            assert(q.last() == cur@);
            assert(q.len() == done@.len() + 1);
            assert forall|k: int| 0 <= k < done@.len() implies #[trigger] done@[k]@ == strip_line_end(q[k]) by {
                assert(q[k] == p[k]);
            }
        }
        if c == '\n' {
            let line = stripped(&cur);
            done.push(line);
            cur = Vec::new();
        }
        i = i + 1;
    }
    proof {
        assert(s@.take(s@.len() as int) =~= s@);
    }
    if cur.len() > 0 {
        let line = stripped(&cur);
        done.push(line);
    }
    proof {
        let p = pieces(s@);
        assert(done.deep_view() =~= lines(s@)) by {
            assert(done.deep_view().len() == p.len());
            assert forall|k: int| 0 <= k < p.len() implies done.deep_view()[k] == lines(s@)[k] by {
                assert(done.deep_view()[k] == done@[k]@);
            }
        }
    }
    done
}


/// `s` padded with spaces on the left to at least `width` characters.
pub open spec fn pad_left(s: Seq<char>, width: nat) -> Seq<char> {
    if s.len() < width {
        Seq::new((width - s.len()) as nat, |i: int| ' ') + s
    } else {
        s
    }
}

/// Appends `s` padded with spaces on the left to at least `width` characters.
pub fn push_padded(out: &mut String, s: &str, width: usize)
    ensures
        final(out)@ == old(out)@ + pad_left(s@, width as nat),
{
    let n = s.unicode_len();
    let ghost start = out@;
    if n < width {
        let mut k: usize = 0;
        while k < width - n
            invariant
                k <= width - n,
                n < width,
                out@ == start + Seq::new(k as nat, |i: int| ' '),
            decreases width - n - k,
        {
            push_char(out, ' ');
            proof {
                assert(Seq::new(k as nat, |i: int| ' ').push(' ') =~= Seq::new((k + 1) as nat, |i: int| ' '));
            }
            k = k + 1;
        }
    }
    out.append(s);
    proof {
        if n < width {
            assert(start + Seq::new((width - n) as nat, |i: int| ' ') + s@ =~= start + pad_left(s@, width as nat));
        }
    }
}

/// `s` with every non-overlapping occurrence of `p`, from the left, replaced by `r`.
pub open spec fn replace_all(s: Seq<char>, p: Seq<char>, r: Seq<char>) -> Seq<char>
    decreases s.len(),
{
    if s.len() == 0 || p.len() == 0 {
        s
    } else if starts_with(s, p) {
        r + replace_all(s.skip(p.len() as int), p, r)
    } else {
        seq![s[0]] + replace_all(s.skip(1), p, r)
    }
}

/// `s` with every non-overlapping occurrence of `p`, from the left, replaced by `r`.
pub fn replace_chars(s: &[char], p: &[char], r: &[char]) -> (out: Vec<char>)
    requires
        p@.len() > 0,
    ensures
        out@ == replace_all(s@, p@, r@),
{
    let mut out: Vec<char> = Vec::new();
    let mut i: usize = 0;
    proof {
        assert(s@.skip(0) =~= s@);
    }
    while i < s.len()
        invariant
            i <= s@.len(),
            p@.len() > 0,
            out@ + replace_all(s@.skip(i as int), p@, r@) == replace_all(s@, p@, r@),
        decreases s@.len() - i,
    {
        let ghost rest = s@.skip(i as int);
        if matches_at(s, p, i) {
            proof {
                assert(s@.subrange(i as int, i + p@.len()) =~= rest.take(p@.len() as int));
                assert(rest.skip(p@.len() as int) =~= s@.skip(i + p@.len()));
            }
            let mut k: usize = 0;
            let ghost before = out@;
            while k < r.len()
                invariant
                    k <= r@.len(),
                    out@ == before + r@.take(k as int),
                decreases r@.len() - k,
            {
                out.push(r[k]);
                proof {
                    assert(r@.take(k + 1) =~= r@.take(k as int).push(r@[k as int]));
                }
                k = k + 1;
            }
            proof {
                assert(r@.take(r@.len() as int) =~= r@);
                assert(out@ + replace_all(s@.skip(i + p@.len()), p@, r@) =~= before + replace_all(rest, p@, r@));
            }
            i = i + p.len();
        } else {
            proof {
                if p@.len() <= rest.len() {
                    assert(s@.subrange(i as int, i + p@.len()) =~= rest.take(p@.len() as int));
                }
                assert(rest.skip(1) =~= s@.skip(i + 1));
                assert(rest[0] == s@[i as int]);
            }
            let ghost before = out@;
            out.push(s[i]);
            proof {
                assert(out@ + replace_all(s@.skip(i + 1), p@, r@) =~= before + replace_all(rest, p@, r@));
            }
            i = i + 1;
        }
    }
    proof {
        assert(s@.skip(i as int).len() == 0);
        assert(out@ + replace_all(s@.skip(i as int), p@, r@) =~= out@);
    }
    out
}

/// The last position of `c` in `s`.
pub open spec fn rfind_char(s: Seq<char>, c: char) -> Option<int>
    decreases s.len(),
{
    if s.len() == 0 {
        None
    } else if s.last() == c {
        Some(s.len() - 1)
    } else {
        rfind_char(s.drop_last(), c)
    }
}

/// The last position of `c` in `s`.
pub fn rfind(s: &[char], c: char) -> (r: Option<usize>)
    ensures
        match r {
            Some(i) => rfind_char(s@, c) == Some(i as int),
            None => rfind_char(s@, c) is None,
        },
{
    let mut k = s.len();
    proof {
        assert(s@.take(k as int) =~= s@);
    }
    while k > 0
        invariant
            k <= s@.len(),
            rfind_char(s@, c) == rfind_char(s@.take(k as int), c),
        decreases k,
    {
        proof {
            assert(s@.take(k as int).drop_last() =~= s@.take(k - 1));
        }
        if s[k - 1] == c {
            return Some(k - 1);
        }
        k = k - 1;
    }
    None
}

/// `s` cut at every non-overlapping occurrence of `sep`, from the left, as
/// `str::split` does (empty pieces included).
pub open spec fn split_on(s: Seq<char>, sep: Seq<char>) -> Seq<Seq<char>>
    decreases s.len(),
{
    if sep.len() == 0 {
        seq![s]
    } else {
        match find_from(s, sep, 0) {
            None => seq![s],
            Some(i) => if 0 <= i && i + sep.len() <= s.len() {
                seq![s.take(i)] + split_on(s.skip(i + sep.len()), sep)
            } else {
                seq![s]
            },
        }
    }
}

proof fn lemma_find_bounds(hay: Seq<char>, needle: Seq<char>, from: int)
    requires
        from >= 0,
        find_from(hay, needle, from) is Some,
    ensures
        from <= find_from(hay, needle, from)->0,
        find_from(hay, needle, from)->0 + needle.len() <= hay.len(),
    decreases hay.len() + 1 - from,
{
    if !occurs_at(hay, needle, from) {
        lemma_find_bounds(hay, needle, from + 1);
    }
}

proof fn lemma_find_shift(hay: Seq<char>, needle: Seq<char>, base: int, from: int)
    requires
        0 <= base <= hay.len(),
        from >= 0,
    ensures
        find_from(hay.skip(base), needle, from) == match find_from(hay, needle, base + from) {
            Some(i) => Some(i - base),
            None => None::<int>,
        },
    decreases hay.len() + 1 - base - from,
{
    let t = hay.skip(base);
    if from + needle.len() <= t.len() {
        if occurs_at(t, needle, from) {
            assert(t.subrange(from, from + needle.len()) =~= hay.subrange(base + from, base + from + needle.len()));
        } else {
            if occurs_at(hay, needle, base + from) {
                assert(t.subrange(from, from + needle.len()) =~= hay.subrange(base + from, base + from + needle.len()));
            }
            lemma_find_shift(hay, needle, base, from + 1);
        }
    }
}

/// `s` cut at every occurrence of `sep`.
pub fn split_chars(s: &[char], sep: &[char]) -> (r: Vec<Vec<char>>)
    requires
        sep@.len() > 0,
    ensures
        r.deep_view() == split_on(s@, sep@),
{
    let mut r: Vec<Vec<char>> = Vec::new();
    let mut start: usize = 0;
    proof {
        assert(s@.skip(0) =~= s@);
    }
    loop
        invariant
            start <= s@.len(),
            sep@.len() > 0,
            r.deep_view() + split_on(s@.skip(start as int), sep@) == split_on(s@, sep@),
        decreases s@.len() - start,
    {
        let ghost rest = s@.skip(start as int);
        let found = find(s, sep, start);
        proof {
            lemma_find_shift(s@, sep@, start as int, 0);
        }
        match found {
            None => {
                let piece = slice_chars(s, start, s.len());
                proof {
                    assert(piece@ =~= rest);
                }
                let ghost before = r.deep_view();
                r.push(piece);
                proof {
                    assert(r.deep_view() =~~= before + split_on(rest, sep@));
                }
                return r;
            },
            Some(i) => {
                proof {
                    lemma_find_bounds(s@, sep@, start as int);
                    assert(i + sep@.len() <= s@.len());
                    assert(s@.len() == s.len());
                    assert(sep@.len() == sep.len());
                }
                let piece = slice_chars(s, start, i);
                proof {
                    assert(piece@ =~= rest.take(i - start));
                    assert(rest.skip(i - start + sep@.len()) =~= s@.skip(i + sep@.len()));
                }
                let ghost before = r.deep_view();
                r.push(piece);
                proof {
                    assert(r.deep_view() + split_on(s@.skip(i + sep@.len()), sep@) =~~= before + split_on(rest, sep@));
                }
                start = i + sep.len();
            },
        }
    }
}

/// The words of `s`: its maximal runs of characters that are not white
/// space, as `str::split_whitespace` yields them.
pub open spec fn words(s: Seq<char>) -> Seq<Seq<char>>
    decreases s.len(),
{
    if s.len() == 0 {
        Seq::empty()
    } else {
        let w = words(s.drop_last());
        let c = s.last();
        if is_white(c) {
            w
        } else if s.len() >= 2 && !is_white(s[s.len() - 2]) && w.len() > 0 {
            w.update(w.len() - 1, w.last().push(c))
        } else {
            w.push(seq![c])
        }
    }
}

/// The words of `s`.
pub fn split_whitespace(s: &[char]) -> (r: Vec<Vec<char>>)
    ensures
        r.deep_view() == words(s@),
{
    let mut done: Vec<Vec<char>> = Vec::new();
    let mut cur: Vec<char> = Vec::new();
    let mut i: usize = 0;
    while i < s.len()
        invariant
            i <= s@.len(),
            ({
                let w = words(s@.take(i as int));
                &&& cur@.len() == 0 ==> done.deep_view() == w && (i == 0 || is_white(s@[i - 1]))
                &&& cur@.len() > 0 ==> done.deep_view().push(cur@) == w && i > 0 && !is_white(s@[i - 1])
            }),
        decreases s@.len() - i,
    {
        let c = s[i];
        proof {
            assert(s@.take(i + 1).drop_last() =~= s@.take(i as int));
            assert(s@.take(i + 1).last() == c);
            if i > 0 {
                assert(s@.take(i + 1)[i - 1] == s@[i - 1]);
            }
        }
        let ghost w = words(s@.take(i as int));
        if is_whitespace(c) {
            if cur.len() > 0 {
                let ghost before = done.deep_view();
                let finished = cur;
                done.push(finished);
                cur = Vec::new();
                proof {
                    assert(done.deep_view() =~~= before.push(finished@));
                }
            }
        } else {
            let ghost before = cur@;
            cur.push(c);
            proof {
                if before.len() > 0 {
                    assert(w.len() > 0);
                    assert(done.deep_view().push(cur@) =~= w.update(w.len() - 1, w.last().push(c)));
                } else {
                    assert(cur@ =~= seq![c]);
                    assert(done.deep_view().push(cur@) =~= w.push(seq![c]));
                }
            }
        }
        i = i + 1;
    }
    proof {
        assert(s@.take(s@.len() as int) =~= s@);
    }
    if cur.len() > 0 {
        let ghost before = done.deep_view();
        let finished = cur;
        done.push(finished);
        proof {
            assert(done.deep_view() =~~= before.push(finished@));
        }
    }
    done
}

} // verus!
