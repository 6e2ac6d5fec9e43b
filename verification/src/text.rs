//! Text as sequences of characters: the searches, cuts and renderings that the
//! rest of the crate is written in, each with an exact contract.

use vstd::prelude::*;

verus! {

/// `String::push` of std: appends one character.
pub assume_specification[ String::push ](s: &mut String, c: char)
    ensures
        final(s)@ == old(s)@.push(c),
;

// ---- Characters ---------------------------------------------------------------

/// An ASCII decimal digit.
pub open spec fn is_digit(c: char) -> bool {
    '0' <= c <= '9'
}

/// An ASCII letter or digit.
pub open spec fn is_alnum(c: char) -> bool {
    is_digit(c) || 'a' <= c <= 'z' || 'A' <= c <= 'Z'
}

/// An ASCII hexadecimal digit, of either case.
pub open spec fn is_hex(c: char) -> bool {
    is_digit(c) || 'a' <= c <= 'f' || 'A' <= c <= 'F'
}

/// Unicode's `White_Space` property.
pub open spec fn is_space(c: char) -> bool {
    ||| '\u{9}' <= c <= '\u{d}'
    ||| c == ' '
    ||| c == '\u{85}'
    ||| c == '\u{a0}'
    ||| c == '\u{1680}'
    ||| '\u{2000}' <= c <= '\u{200a}'
    ||| c == '\u{2028}'
    ||| c == '\u{2029}'
    ||| c == '\u{202f}'
    ||| c == '\u{205f}'
    ||| c == '\u{3000}'
}

/// Unicode's general category `Cc`: the control characters.
pub open spec fn is_control(c: char) -> bool {
    c <= '\u{1f}' || '\u{7f}' <= c <= '\u{9f}'
}

/// The ASCII lower-case form of a character.
pub open spec fn lower_char(c: char) -> char {
    if 'A' <= c <= 'Z' {
        (c as u32 + 32) as char
    } else {
        c
    }
}

pub fn digit(c: char) -> (r: bool)
    ensures
        r == is_digit(c),
{
    '0' <= c && c <= '9'
}

pub fn alnum(c: char) -> (r: bool)
    ensures
        r == is_alnum(c),
{
    digit(c) || ('a' <= c && c <= 'z') || ('A' <= c && c <= 'Z')
}

pub fn hex(c: char) -> (r: bool)
    ensures
        r == is_hex(c),
{
    digit(c) || ('a' <= c && c <= 'f') || ('A' <= c && c <= 'F')
}

pub fn space(c: char) -> (r: bool)
    ensures
        r == is_space(c),
{
    ('\u{9}' <= c && c <= '\u{d}') || c == ' ' || c == '\u{85}' || c == '\u{a0}' || c == '\u{1680}'
        || ('\u{2000}' <= c && c <= '\u{200a}') || c == '\u{2028}' || c == '\u{2029}' || c
        == '\u{202f}' || c == '\u{205f}' || c == '\u{3000}'
}

pub fn control(c: char) -> (r: bool)
    ensures
        r == is_control(c),
{
    c <= '\u{1f}' || ('\u{7f}' <= c && c <= '\u{9f}')
}

// ---- Whole texts --------------------------------------------------------------

/// The characters of `s`, in order.
pub fn chars_of(s: &str) -> (r: Vec<char>)
    ensures
        r@ == s@,
{
    let mut out: Vec<char> = Vec::new();
    for c in it: s.chars()
        invariant
            it.seq() == s@,
            out@ == s@.take(it.index() as int),
    {
        out.push(c);
        assert(out@ =~= s@.take(it.index() as int + 1));
    }
    assert(out@ =~= s@);
    out
}

/// Do two texts hold the same characters?
pub fn same(a: &str, b: &str) -> (r: bool)
    ensures
        r == (a@ == b@),
{
    let x = chars_of(a);
    let y = chars_of(b);
    if x.len() != y.len() {
        return false;
    }
    let mut i: usize = 0;
    while i < x.len()
        invariant
            x.len() == y.len(),
            i <= x.len(),
            x@.take(i as int) == y@.take(i as int),
            x@ == a@,
            y@ == b@,
        decreases x.len() - i,
    {
        if x[i] != y[i] {
            assert(a@[i as int] != b@[i as int]);
            return false;
        }
        assert(x@.take(i + 1) =~= x@.take(i as int).push(x@[i as int]));
        assert(y@.take(i + 1) =~= y@.take(i as int).push(y@[i as int]));
        i += 1;
    }
    assert(x@.take(i as int) =~= x@);
    assert(y@.take(i as int) =~= y@);
    true
}

/// Does `s` begin with `p`?
pub open spec fn begins(s: Seq<char>, p: Seq<char>) -> bool {
    p.len() <= s.len() && s.take(p.len() as int) == p
}

/// Does `s` end with `p`?
pub open spec fn ends(s: Seq<char>, p: Seq<char>) -> bool {
    p.len() <= s.len() && s.skip(s.len() - p.len()) == p
}

/// Does `p` stand in `s` at position `i`?
pub open spec fn occurs_at(s: Seq<char>, p: Seq<char>, i: int) -> bool {
    0 <= i && i + p.len() <= s.len() && s.subrange(i, i + p.len()) == p
}

/// Does `p` stand anywhere in `s`?
pub open spec fn occurs(s: Seq<char>, p: Seq<char>) -> bool {
    exists|i: int| occurs_at(s, p, i)
}

/// What stands in a text stands before a character that it does not hold, or behind it.
pub proof fn lemma_occurs_apart(a: Seq<char>, c: char, b: Seq<char>, p: Seq<char>)
    requires
        !p.contains(c),
        occurs(a.push(c) + b, p),
    ensures
        occurs(a, p) || occurs(b, p),
{
    let s = a.push(c) + b;
    let i = choose|i: int| occurs_at(s, p, i);
    let n = a.len() as int;
    if i + p.len() <= n {
        assert(a.subrange(i, i + p.len()) =~= s.subrange(i, i + p.len()));
        assert(occurs_at(a, p, i));
    } else if i > n {
        let k = i - n - 1;
        assert(b.subrange(k, k + p.len()) =~= s.subrange(i, i + p.len()));
        assert(occurs_at(b, p, k));
    } else {
        assert(s.subrange(i, i + p.len())[n - i] == s[n]);
        assert(p[n - i] == c);
    }
}

/// The rest of `s` behind the prefix `p`, if it has that prefix.
pub open spec fn behind(s: Seq<char>, p: Seq<char>) -> Option<Seq<char>> {
    if begins(s, p) {
        Some(s.skip(p.len() as int))
    } else {
        None
    }
}

/// `s` in front of the suffix `p`, if it has that suffix.
pub open spec fn before(s: Seq<char>, p: Seq<char>) -> Option<Seq<char>> {
    if ends(s, p) {
        Some(s.take(s.len() - p.len()))
    } else {
        None
    }
}

/// The text of an optional slice.
pub open spec fn opt_view(o: Option<&str>) -> Option<Seq<char>> {
    match o {
        Some(s) => Some(s@),
        None => None,
    }
}

/// Does `s` hold `p` at `i`? The characters are compared one by one.
pub fn at(s: &Vec<char>, p: &Vec<char>, i: usize) -> (r: bool)
    ensures
        r == occurs_at(s@, p@, i as int),
{
    if i > s.len() || p.len() > s.len() - i {
        return false;
    }
    let mut k: usize = 0;
    while k < p.len()
        invariant
            i + p.len() <= s.len(),
            k <= p.len(),
            forall|j: int| 0 <= j < k ==> s@[i + j] == #[trigger] p@[j],
        decreases p.len() - k,
    {
        if s[i + k] != p[k] {
            assert(s@.subrange(i as int, i + p@.len())[k as int] != p@[k as int]);
            return false;
        }
        k += 1;
    }
    assert(s@.subrange(i as int, i + p@.len()) =~= p@);
    true
}

pub fn starts_with(s: &str, p: &str) -> (r: bool)
    ensures
        r == begins(s@, p@),
{
    let r = at(&chars_of(s), &chars_of(p), 0);
    assert(p@.len() <= s@.len() ==> s@.subrange(0, 0int + p@.len()) =~= s@.take(p@.len() as int));
    r
}

pub fn ends_with(s: &str, p: &str) -> (r: bool)
    ensures
        r == ends(s@, p@),
{
    let x = chars_of(s);
    let y = chars_of(p);
    if y.len() > x.len() {
        return false;
    }
    let r = at(&x, &y, x.len() - y.len());
    assert(s@.subrange(s@.len() - p@.len(), s@.len() - p@.len() + p@.len()) =~= s@.skip(
        s@.len() - p@.len(),
    ));
    r
}

pub fn strip_prefix<'a>(s: &'a str, p: &str) -> (r: Option<&'a str>)
    ensures
        opt_view(r) == behind(s@, p@),
{
    if starts_with(s, p) {
        let r = s.substring_char(p.unicode_len(), s.unicode_len());
        assert(r@ =~= s@.skip(p@.len() as int));
        Some(r)
    } else {
        None
    }
}

pub fn strip_suffix<'a>(s: &'a str, p: &str) -> (r: Option<&'a str>)
    ensures
        opt_view(r) == before(s@, p@),
{
    if ends_with(s, p) {
        let r = s.substring_char(0, s.unicode_len() - p.unicode_len());
        assert(r@ =~= s@.take(s@.len() - p@.len()));
        Some(r)
    } else {
        None
    }
}

/// Where `p` first stands in `s`.
pub fn find(s: &str, p: &str) -> (r: Option<usize>)
    ensures
        match r {
            Some(i) => occurs_at(s@, p@, i as int) && forall|j: int|
                0 <= j < i ==> !occurs_at(s@, p@, j),
            None => !occurs(s@, p@),
        },
{
    let x = chars_of(s);
    let y = chars_of(p);
    if y.len() > x.len() {
        return None;
    }
    let last: usize = x.len() - y.len();
    let mut i: usize = 0;
    while i < last
        invariant
            x@ == s@,
            y@ == p@,
            i <= last,
            forall|j: int| 0 <= j < i ==> !occurs_at(s@, p@, j),
        decreases last - i,
    {
        if at(&x, &y, i) {
            return Some(i);
        }
        i += 1;
    }
    if at(&x, &y, last) {
        Some(last)
    } else {
        None
    }
}

pub fn contains(s: &str, p: &str) -> (r: bool)
    ensures
        r == occurs(s@, p@),
{
    match find(s, p) {
        Some(_) => true,
        None => false,
    }
}

/// Where `c` first stands in `s`.
pub open spec fn first_index(s: Seq<char>, c: char) -> Option<int>
    decreases s.len(),
{
    if s.len() == 0 {
        None
    } else if s[0] == c {
        Some(0)
    } else {
        match first_index(s.drop_first(), c) {
            Some(i) => Some(i + 1),
            None => None,
        }
    }
}

proof fn lemma_first_index(s: Seq<char>, c: char, n: int)
    requires
        0 <= n <= s.len(),
        forall|j: int| 0 <= j < n ==> s[j] != c,
        n < s.len() ==> s[n] == c,
    ensures
        first_index(s, c) == (if n < s.len() {
            Some(n)
        } else {
            None
        }),
    decreases s.len(),
{
    if n > 0 {
        lemma_first_index(s.drop_first(), c, n - 1);
    }
}

/// What [`first_index`] says of the characters around it.
pub proof fn lemma_first_index_means(s: Seq<char>, c: char)
    ensures
        match first_index(s, c) {
            Some(i) => 0 <= i < s.len() && s[i] == c && forall|j: int| 0 <= j < i ==> s[j] != c,
            None => forall|j: int| 0 <= j < s.len() ==> s[j] != c,
        },
    decreases s.len(),
{
    if s.len() > 0 && s[0] != c {
        lemma_first_index_means(s.drop_first(), c);
        assert(forall|j: int| 1 <= j < s.len() ==> s[j] == s.drop_first()[j - 1]);
    }
}

/// Where `c` first stands in `s`.
pub fn find_char(s: &Vec<char>, c: char) -> (r: Option<usize>)
    ensures
        match r {
            Some(i) => first_index(s@, c) == Some(i as int) && i < s.len(),
            None => first_index(s@, c) is None,
        },
{
    let mut i: usize = 0;
    while i < s.len()
        invariant
            i <= s.len(),
            forall|j: int| 0 <= j < i ==> s@[j] != c,
        decreases s.len() - i,
    {
        if s[i] == c {
            proof {
                lemma_first_index(s@, c, i as int);
            }
            return Some(i);
        }
        i += 1;
    }
    proof {
        lemma_first_index(s@, c, i as int);
    }
    None
}

/// Is `c` one of the characters of `s`?
pub fn has_char(s: &str, c: char) -> (r: bool)
    ensures
        r == s@.contains(c),
{
    proof {
        lemma_first_index_means(s@, c);
    }
    match find_char(&chars_of(s), c) {
        Some(i) => {
            assert(s@[i as int] == c);
            true
        },
        None => false,
    }
}

/// `s` cut at the first `c`, which belongs to neither part.
pub open spec fn cut(s: Seq<char>, c: char) -> Option<(Seq<char>, Seq<char>)> {
    match first_index(s, c) {
        Some(i) => Some((s.take(i), s.skip(i + 1))),
        None => None,
    }
}

pub fn split_once<'a>(s: &'a str, c: char) -> (r: Option<(&'a str, &'a str)>)
    ensures
        match r {
            Some((a, b)) => cut(s@, c) == Some((a@, b@)),
            None => cut(s@, c) is None,
        },
{
    match find_char(&chars_of(s), c) {
        Some(i) => {
            let a = s.substring_char(0, i);
            let b = s.substring_char(i + 1, s.unicode_len());
            assert(a@ =~= s@.take(i as int));
            assert(b@ =~= s@.skip(i as int + 1));
            Some((a, b))
        },
        None => None,
    }
}

// ---- Splitting and joining ----------------------------------------------------

/// `s` cut at every `c`: one more part than there are cuts.
pub open spec fn pieces(s: Seq<char>, c: char) -> Seq<Seq<char>>
    decreases s.len(),
{
    if s.len() == 0 {
        seq![Seq::empty()]
    } else {
        let init = pieces(s.drop_last(), c);
        if s.last() == c {
            init.push(Seq::empty())
        } else {
            init.update(init.len() - 1, init.last().push(s.last()))
        }
    }
}

pub proof fn lemma_pieces_nonempty(s: Seq<char>, c: char)
    ensures
        pieces(s, c).len() > 0,
    decreases s.len(),
{
    if s.len() > 0 {
        lemma_pieces_nonempty(s.drop_last(), c);
    }
}

/// `s` cut at every `c`.
pub fn split(s: &str, c: char) -> (r: Vec<String>)
    ensures
        r.deep_view() == pieces(s@, c),
        r.len() > 0,
{
    let x = chars_of(s);
    let mut out: Vec<String> = Vec::new();
    let mut part: String = String::new();
    let mut i: usize = 0;
    assert(out.deep_view().push(part@) =~= pieces(s@.take(0), c));
    while i < x.len()
        invariant
            x@ == s@,
            i <= x.len(),
            out.deep_view().push(part@) == pieces(s@.take(i as int), c),
        decreases x.len() - i,
    {
        let ghost init = pieces(s@.take(i as int), c);
        let ghost before = out.deep_view();
        assert(s@.take(i + 1).drop_last() =~= s@.take(i as int));
        assert(init.drop_last() =~= before);
        if x[i] == c {
            out.push(part);
            part = String::new();
            assert(out.deep_view() =~= init);
        } else {
            part.push(x[i]);
            assert(init.update(init.len() - 1, init.last().push(x@[i as int])) =~= before.push(
                part@,
            ));
        }
        i += 1;
    }
    assert(s@.take(i as int) =~= s@);
    out.push(part);
    assert(out.deep_view() =~= pieces(s@, c));
    out
}

/// The parts of a text joined by a separator.
pub open spec fn joined(parts: Seq<Seq<char>>, sep: Seq<char>) -> Seq<char>
    decreases parts.len(),
{
    if parts.len() == 0 {
        Seq::empty()
    } else if parts.len() == 1 {
        parts[0]
    } else {
        joined(parts.drop_last(), sep) + sep + parts.last()
    }
}

pub fn join(parts: &Vec<String>, sep: &str) -> (r: String)
    ensures
        r@ == joined(parts.deep_view(), sep@),
{
    let mut out: String = String::new();
    let mut i: usize = 0;
    while i < parts.len()
        invariant
            i <= parts.len(),
            out@ == joined(parts.deep_view().take(i as int), sep@),
        decreases parts.len() - i,
    {
        let ghost prev = parts.deep_view().take(i as int);
        assert(parts.deep_view().take(i + 1).drop_last() =~= prev);
        if i > 0 {
            out.append(sep);
        }
        out.append(parts[i].as_str());
        if i == 0 {
            assert(out@ =~= parts.deep_view()[0]);
        }
        i += 1;
    }
    assert(parts.deep_view().take(i as int) =~= parts.deep_view());
    out
}

/// A line without the carriage return that may end it.
pub open spec fn without_cr(s: Seq<char>) -> Seq<char> {
    if s.len() > 0 && s.last() == '\r' {
        s.drop_last()
    } else {
        s
    }
}

/// The pieces that count as lines: all, but for an empty last one.
pub open spec fn line_pieces(s: Seq<char>) -> Seq<Seq<char>> {
    let all = pieces(s, '\n');
    if all.last().len() == 0 {
        all.drop_last()
    } else {
        all
    }
}

/// The lines of a text: it is cut at every `\n`, an empty last part is no line,
/// and a `\r` in front of a cut `\n` belongs to it.
pub open spec fn text_lines(s: Seq<char>) -> Seq<Seq<char>> {
    let all = pieces(s, '\n');
    let kept = line_pieces(s);
    Seq::new(
        kept.len(),
        |i: int|
            if i + 1 < all.len() {
                without_cr(kept[i])
            } else {
                kept[i]
            },
    )
}

/// Behind a text that is empty or ends with a line end, the pieces of another come unchanged.
proof fn lemma_pieces_behind(a: Seq<char>, b: Seq<char>)
    requires
        a.len() == 0 || a.last() == '\n',
    ensures
        pieces(a, '\n').len() > 0,
        pieces(b, '\n').len() > 0,
        pieces(a, '\n').last().len() == 0,
        pieces(a + b, '\n') == pieces(a, '\n').drop_last() + pieces(b, '\n'),
    decreases b.len(),
{
    lemma_pieces_nonempty(a, '\n');
    lemma_pieces_nonempty(b, '\n');
    let pa = pieces(a, '\n');
    if b.len() == 0 {
        assert(a + b =~= a);
        assert(pa.last() =~= Seq::<char>::empty());
        assert(pieces(b, '\n')[0] =~= Seq::<char>::empty());
        assert(pa =~= pa.drop_last() + pieces(b, '\n'));
    } else {
        let init = b.drop_last();
        lemma_pieces_behind(a, init);
        lemma_pieces_nonempty(init, '\n');
        assert((a + b).drop_last() =~= a + init);
        assert((a + b).last() == b.last());
        let pi = pieces(init, '\n');
        assert(pieces(a + init, '\n') == pa.drop_last() + pi);
        assert(pieces(a + b, '\n') =~= pa.drop_last() + pieces(b, '\n'));
    }
}

/// Behind a text that is empty or ends with a line end, the lines of another come unchanged.
pub proof fn law_lines_behind_lines(a: Seq<char>, b: Seq<char>)
    requires
        a.len() == 0 || a.last() == '\n',
    ensures
        text_lines(a + b) == text_lines(a) + text_lines(b),
{
    lemma_pieces_behind(a, b);
    let pa = pieces(a, '\n');
    let pb = pieces(b, '\n');
    let all = pieces(a + b, '\n');
    assert(all.last() == pb.last());
    assert(line_pieces(a + b) =~= line_pieces(a) + line_pieces(b));
    let n = line_pieces(a).len() as int;
    assert forall|i: int| 0 <= i < text_lines(a + b).len() implies text_lines(a + b)[i] == (
    text_lines(a) + text_lines(b))[i] by {
        if i < n {
            assert(line_pieces(a + b)[i] == line_pieces(a)[i]);
        } else {
            assert(line_pieces(a + b)[i] == line_pieces(b)[i - n]);
        }
    }
    assert(text_lines(a + b) =~= text_lines(a) + text_lines(b));
}

pub fn lines(s: &str) -> (r: Vec<String>)
    ensures
        r.deep_view() == text_lines(s@),
{
    let parts = split(s, '\n');
    let n: usize = if parts[parts.len() - 1].as_str().is_empty() {
        parts.len() - 1
    } else {
        parts.len()
    };
    let mut out: Vec<String> = Vec::new();
    let mut i: usize = 0;
    assert(parts.deep_view().last() == parts@[parts.len() - 1]@);
    while i < n
        invariant
            parts.deep_view() == pieces(s@, '\n'),
            n <= parts.len(),
            n == line_pieces(s@).len(),
            i <= n,
            out.deep_view() =~= text_lines(s@).take(i as int),
        decreases n - i,
    {
        let part: &str = parts[i].as_str();
        let ghost kept = line_pieces(s@);
        assert(kept[i as int] == parts.deep_view()[i as int]);
        let len = part.unicode_len();
        let line: &str = if i + 1 < parts.len() && len > 0 && part.get_char(len - 1) == '\r' {
            part.substring_char(0, len - 1)
        } else {
            part
        };
        assert(part@.len() > 0 ==> part@.subrange(0, part@.len() - 1) =~= part@.drop_last());
        assert(line@ == text_lines(s@)[i as int]);
        let ghost prev = out.deep_view();
        out.push(line.to_owned());
        assert(out.deep_view() =~= prev.push(line@));
        assert(text_lines(s@).take(i + 1) =~= text_lines(s@).take(i as int).push(
            text_lines(s@)[i as int],
        ));
        i += 1;
    }
    assert(text_lines(s@).take(n as int) =~= text_lines(s@));
    out
}

// ---- Trimming -----------------------------------------------------------------

/// `s` without the white space in front.
pub open spec fn trim_front(s: Seq<char>) -> Seq<char>
    decreases s.len(),
{
    if s.len() > 0 && is_space(s[0]) {
        trim_front(s.drop_first())
    } else {
        s
    }
}

/// `s` without the white space behind.
pub open spec fn trim_back(s: Seq<char>) -> Seq<char>
    decreases s.len(),
{
    if s.len() > 0 && is_space(s.last()) {
        trim_back(s.drop_last())
    } else {
        s
    }
}

/// `s` without white space at either end.
pub open spec fn trimmed(s: Seq<char>) -> Seq<char> {
    trim_back(trim_front(s))
}

/// Trimming takes the white space at both ends, and no more.
pub proof fn law_trimming_takes_white_space(s: Seq<char>, a: int, b: int)
    requires
        0 <= a < b <= s.len(),
        forall|j: int| 0 <= j < a || b <= j < s.len() ==> is_space(#[trigger] s[j]),
        !is_space(s[a]),
        !is_space(s[b - 1]),
    ensures
        trimmed(s) == s.subrange(a, b),
{
    lemma_trim_front(s, a);
    let t = s.skip(a);
    assert forall|j: int| b - a <= j < t.len() implies is_space(t[j]) by {
        assert(t[j] == s[j + a]);
    }
    lemma_trim_back(t, b - a);
    assert(t.take(b - a) =~= s.subrange(a, b));
}

proof fn lemma_trim_front(s: Seq<char>, n: int)
    requires
        0 <= n <= s.len(),
        forall|j: int| 0 <= j < n ==> is_space(s[j]),
        n < s.len() ==> !is_space(s[n]),
    ensures
        trim_front(s) == s.skip(n),
    decreases n,
{
    if n > 0 {
        lemma_trim_front(s.drop_first(), n - 1);
        assert(s.drop_first().skip(n - 1) =~= s.skip(n));
    } else {
        assert(s.skip(0) =~= s);
    }
}

proof fn lemma_trim_back(s: Seq<char>, n: int)
    requires
        0 <= n <= s.len(),
        forall|j: int| n <= j < s.len() ==> is_space(s[j]),
        n > 0 ==> !is_space(s[n - 1]),
    ensures
        trim_back(s) == s.take(n),
    decreases s.len() - n,
{
    if n < s.len() {
        lemma_trim_back(s.drop_last(), n);
        assert(s.drop_last().take(n) =~= s.take(n));
    } else {
        assert(s.take(n) =~= s);
    }
}

pub fn trim_end<'a>(s: &'a str) -> (r: &'a str)
    ensures
        r@ == trim_back(s@),
{
    let x = chars_of(s);
    let mut n: usize = x.len();
    while n > 0 && space(x[n - 1])
        invariant
            x@ == s@,
            n <= x.len(),
            forall|j: int| n <= j < x.len() ==> is_space(x@[j]),
        decreases n,
    {
        n -= 1;
    }
    proof {
        lemma_trim_back(s@, n as int);
    }
    let r = s.substring_char(0, n);
    assert(r@ =~= s@.take(n as int));
    r
}

pub fn trim<'a>(s: &'a str) -> (r: &'a str)
    ensures
        r@ == trimmed(s@),
{
    let x = chars_of(s);
    let mut n: usize = 0;
    while n < x.len() && space(x[n])
        invariant
            x@ == s@,
            n <= x.len(),
            forall|j: int| 0 <= j < n ==> is_space(x@[j]),
        decreases x.len() - n,
    {
        n += 1;
    }
    proof {
        lemma_trim_front(s@, n as int);
    }
    let front = s.substring_char(n, x.len());
    assert(front@ =~= s@.skip(n as int));
    trim_end(front)
}

/// `s` without any `c` behind.
pub open spec fn drop_back(s: Seq<char>, c: char) -> Seq<char>
    decreases s.len(),
{
    if s.len() > 0 && s.last() == c {
        drop_back(s.drop_last(), c)
    } else {
        s
    }
}

proof fn lemma_drop_back(s: Seq<char>, c: char, n: int)
    requires
        0 <= n <= s.len(),
        forall|j: int| n <= j < s.len() ==> s[j] == c,
        n > 0 ==> s[n - 1] != c,
    ensures
        drop_back(s, c) == s.take(n),
    decreases s.len() - n,
{
    if n < s.len() {
        lemma_drop_back(s.drop_last(), c, n);
        assert(s.drop_last().take(n) =~= s.take(n));
    } else {
        assert(s.take(n) =~= s);
    }
}

pub fn trim_end_matches<'a>(s: &'a str, c: char) -> (r: &'a str)
    ensures
        r@ == drop_back(s@, c),
{
    let x = chars_of(s);
    let mut n: usize = x.len();
    while n > 0 && x[n - 1] == c
        invariant
            x@ == s@,
            n <= x.len(),
            forall|j: int| n <= j < x.len() ==> x@[j] == c,
        decreases n,
    {
        n -= 1;
    }
    proof {
        lemma_drop_back(s@, c, n as int);
    }
    let r = s.substring_char(0, n);
    assert(r@ =~= s@.take(n as int));
    r
}

// ---- Rendering ----------------------------------------------------------------

/// Every character replaced by its ASCII lower-case form.
pub open spec fn lowered(s: Seq<char>) -> Seq<char> {
    s.map_values(|c: char| lower_char(c))
}

/// The 26 letters, each beside its lower-case form.
pub fn lower_of(c: char) -> (r: char)
    ensures
        r == lower_char(c),
{
    if 'A' <= c && c <= 'Z' {
        let b: u8 = c as u8;
        (b + 32) as char
    } else {
        c
    }
}

pub fn to_ascii_lowercase(s: &str) -> (r: String)
    ensures
        r@ == lowered(s@),
{
    let x = chars_of(s);
    let mut out: String = String::new();
    let mut i: usize = 0;
    while i < x.len()
        invariant
            x@ == s@,
            i <= x.len(),
            out@ =~= lowered(s@).take(i as int),
        decreases x.len() - i,
    {
        out.push(lower_of(x[i]));
        i += 1;
    }
    assert(lowered(s@).take(i as int) =~= lowered(s@));
    out
}

/// The character of a decimal digit.
pub open spec fn digit_char(d: nat) -> char {
    ('0' as u32 + d) as char
}

/// A number in decimal notation, without leading zeros.
pub open spec fn decimal(n: nat) -> Seq<char>
    decreases n,
{
    if n < 10 {
        seq![digit_char(n)]
    } else {
        decimal(n / 10).push(digit_char(n % 10))
    }
}

pub fn push_decimal(out: &mut String, n: u64)
    ensures
        final(out)@ == old(out)@ + decimal(n as nat),
    decreases n,
{
    if n >= 10 {
        push_decimal(out, n / 10);
    }
    let d: u8 = (n % 10) as u8;
    out.push((48 + d) as char);
    assert(out@ =~= old(out)@ + decimal(n as nat));
}

/// `n` in decimal notation.
pub fn decimal_of(n: u64) -> (r: String)
    ensures
        r@ == decimal(n as nat),
{
    let mut out: String = String::new();
    push_decimal(&mut out, n);
    assert(out@ =~= decimal(n as nat));
    out
}

/// An integer in decimal notation, with a minus sign in front of one below zero.
pub open spec fn signed_decimal(n: int) -> Seq<char> {
    if n < 0 {
        "-"@ + decimal((-n) as nat)
    } else {
        decimal(n as nat)
    }
}

/// `n` in decimal notation.
pub fn signed_decimal_of(n: i32) -> (r: String)
    ensures
        r@ == signed_decimal(n as int),
{
    if n < 0 {
        let magnitude = decimal_of((-(n as i64)) as u64);
        cat2("-", magnitude.as_str())
    } else {
        decimal_of(n as u64)
    }
}

/// What was written in decimal notation is read back as the same number.
pub proof fn law_decimal_reads_back(n: nat)
    ensures
        all_digits(decimal(n)),
        digits_value(decimal(n)) == n,
    decreases n,
{
    reveal_with_fuel(digits_value, 2);
    if n >= 10 {
        law_decimal_reads_back(n / 10);
        assert(decimal(n).drop_last() =~= decimal(n / 10));
    } else {
        assert(decimal(n).drop_last() =~= Seq::<char>::empty());
    }
}

/// How often `c` stands in `s`.
pub open spec fn count(s: Seq<char>, c: char) -> nat
    decreases s.len(),
{
    if s.len() == 0 {
        0
    } else {
        count(s.drop_last(), c) + if s.last() == c {
            1nat
        } else {
            0nat
        }
    }
}

pub proof fn lemma_count_add(a: Seq<char>, b: Seq<char>, c: char)
    ensures
        count(a + b, c) == count(a, c) + count(b, c),
    decreases b.len(),
{
    if b.len() == 0 {
        assert(a + b =~= a);
    } else {
        lemma_count_add(a, b.drop_last(), c);
        assert((a + b).drop_last() =~= a + b.drop_last());
    }
}

pub proof fn lemma_count_absent(s: Seq<char>, c: char)
    requires
        !s.contains(c),
    ensures
        count(s, c) == 0,
    decreases s.len(),
{
    if s.len() > 0 {
        assert(s.contains(s.last()));
        assert forall|x: char| s.drop_last().contains(x) implies s.contains(x) by {
            let i = choose|i: int| 0 <= i < s.drop_last().len() && s.drop_last()[i] == x;
            assert(s[i] == x);
        }
        lemma_count_absent(s.drop_last(), c);
    }
}

/// `n` spaces.
pub open spec fn blanks(n: int) -> Seq<char> {
    Seq::new(
        if n > 0 {
            n as nat
        } else {
            0
        },
        |i: int| ' ',
    )
}

/// `s` filled up with spaces behind to `width` characters.
pub open spec fn padded(s: Seq<char>, width: int) -> Seq<char> {
    s + blanks(width - s.len())
}

/// `n` spaces in front of `s`, up to `width` characters.
pub open spec fn padded_left(s: Seq<char>, width: int) -> Seq<char> {
    blanks(width - s.len()) + s
}

pub fn push_blanks(out: &mut String, n: usize)
    ensures
        final(out)@ == old(out)@ + blanks(n as int),
{
    let ghost start = out@;
    let mut i: usize = 0;
    while i < n
        invariant
            i <= n,
            out@ =~= start + blanks(i as int),
        decreases n - i,
    {
        out.push(' ');
        i += 1;
    }
}

pub fn pad_right(s: &str, width: usize) -> (r: String)
    ensures
        r@ == padded(s@, width as int),
{
    let mut out: String = s.to_owned();
    let len = s.unicode_len();
    if len < width {
        push_blanks(&mut out, width - len);
    }
    assert(out@ =~= padded(s@, width as int));
    out
}

pub fn pad_left(s: &str, width: usize) -> (r: String)
    ensures
        r@ == padded_left(s@, width as int),
{
    let mut out: String = String::new();
    let len = s.unicode_len();
    if len < width {
        push_blanks(&mut out, width - len);
    }
    out.append(s);
    assert(out@ =~= padded_left(s@, width as int));
    out
}

/// `n` times the character `c`.
pub fn repeat(c: char, n: usize) -> (r: String)
    ensures
        r@ == Seq::new(n as nat, |i: int| c),
{
    let mut out: String = String::new();
    let mut i: usize = 0;
    while i < n
        invariant
            i <= n,
            out@ =~= Seq::new(i as nat, |i: int| c),
        decreases n - i,
    {
        out.push(c);
        i += 1;
    }
    out
}

/// Several texts, one behind the other.
pub fn cat2(a: &str, b: &str) -> (r: String)
    ensures
        r@ == a@ + b@,
{
    let mut out: String = a.to_owned();
    out.append(b);
    out
}

pub fn cat3(a: &str, b: &str, c: &str) -> (r: String)
    ensures
        r@ == a@ + b@ + c@,
{
    let mut out: String = a.to_owned();
    out.append(b);
    out.append(c);
    out
}

pub fn cat4(a: &str, b: &str, c: &str, d: &str) -> (r: String)
    ensures
        r@ == a@ + b@ + c@ + d@,
{
    let mut out: String = a.to_owned();
    out.append(b);
    out.append(c);
    out.append(d);
    out
}

pub fn cat5(a: &str, b: &str, c: &str, d: &str, e: &str) -> (r: String)
    ensures
        r@ == a@ + b@ + c@ + d@ + e@,
{
    let mut out: String = a.to_owned();
    out.append(b);
    out.append(c);
    out.append(d);
    out.append(e);
    out
}

pub fn cat6(a: &str, b: &str, c: &str, d: &str, e: &str, f: &str) -> (r: String)
    ensures
        r@ == a@ + b@ + c@ + d@ + e@ + f@,
{
    let mut out: String = a.to_owned();
    out.append(b);
    out.append(c);
    out.append(d);
    out.append(e);
    out.append(f);
    out
}

pub fn cat7(a: &str, b: &str, c: &str, d: &str, e: &str, f: &str, g: &str) -> (r: String)
    ensures
        r@ == a@ + b@ + c@ + d@ + e@ + f@ + g@,
{
    let mut out: String = a.to_owned();
    out.append(b);
    out.append(c);
    out.append(d);
    out.append(e);
    out.append(f);
    out.append(g);
    out
}

pub fn cat8(a: &str, b: &str, c: &str, d: &str, e: &str, f: &str, g: &str, h: &str) -> (r: String)
    ensures
        r@ == a@ + b@ + c@ + d@ + e@ + f@ + g@ + h@,
{
    let mut out: String = a.to_owned();
    out.append(b);
    out.append(c);
    out.append(d);
    out.append(e);
    out.append(f);
    out.append(g);
    out.append(h);
    out
}

/// The number of bytes that a text takes.
pub open spec fn byte_len(s: Seq<char>) -> usize {
    vstd::utf8::encode_utf8(s).len() as usize
}

/// The number of bytes that a text takes.
pub fn bytes_of(s: &str) -> (r: usize)
    ensures
        r == byte_len(s@),
{
    s.len()
}

/// The text as `Debug` of `str` quotes and escapes it.
pub uninterp spec fn debug_text(s: Seq<char>) -> Seq<char>;

/// The character as `Debug` of `char` quotes and escapes it.
pub uninterp spec fn debug_char(c: char) -> Seq<char>;

/// The text with Unicode's full lower-case mapping applied.
pub uninterp spec fn lowercase(s: Seq<char>) -> Seq<char>;

/// `Debug` of std's `str`: the text in quotes, with escapes. What it returns is a
/// function of the text.
#[verifier::external_body]
pub(crate) fn quoted(s: &str) -> (r: String)
    ensures
        r@ == debug_text(s@),
{
    format!("{s:?}")
}

/// `Debug` of std's `char`: the character in quotes, with escapes. What it returns
/// is a function of the character.
#[verifier::external_body]
pub(crate) fn quoted_char(c: char) -> (r: String)
    ensures
        r@ == debug_char(c),
{
    format!("{c:?}")
}

/// `str::to_lowercase` of std. What it returns is a function of the text.
#[verifier::external_body]
pub(crate) fn to_lowercase(s: &str) -> (r: String)
    ensures
        r@ == lowercase(s@),
{
    s.to_lowercase()
}

/// The number that a row of decimal digits stands for.
pub open spec fn digits_value(s: Seq<char>) -> nat
    decreases s.len(),
{
    if s.len() == 0 {
        0
    } else {
        digits_value(s.drop_last()) * 10 + (s.last() as u32 - '0' as u32) as nat
    }
}

/// Is `s` a row of one or more decimal digits?
pub open spec fn all_digits(s: Seq<char>) -> bool {
    s.len() > 0 && forall|i: int| 0 <= i < s.len() ==> is_digit(#[trigger] s[i])
}

proof fn lemma_digits_value_grows(s: Seq<char>, n: int)
    requires
        0 <= n <= s.len(),
    ensures
        digits_value(s.take(n)) <= digits_value(s),
    decreases s.len() - n,
{
    if n < s.len() {
        lemma_digits_value_grows(s, n + 1);
        assert(s.take(n + 1).drop_last() =~= s.take(n));
    } else {
        assert(s.take(n) =~= s);
    }
}

/// The number that a row of decimal digits stands for, if it is one and the number
/// is not above `max`.
pub fn parse_digits(s: &Vec<char>, max: u64) -> (r: Option<u64>)
    ensures
        match r {
            Some(n) => all_digits(s@) && digits_value(s@) == n && n <= max,
            None => !all_digits(s@) || digits_value(s@) > max,
        },
{
    if s.len() == 0 {
        return None;
    }
    let mut value: u64 = 0;
    let mut i: usize = 0;
    while i < s.len()
        invariant
            i <= s.len(),
            value == digits_value(s@.take(i as int)),
            value <= max,
            forall|j: int| 0 <= j < i ==> is_digit(#[trigger] s@[j]),
        decreases s.len() - i,
    {
        if !digit(s[i]) {
            assert(!is_digit(s@[i as int]));
            return None;
        }
        let d: u64 = (s[i] as u8 - 48u8) as u64;
        let wide: u128 = value as u128 * 10 + d as u128;
        assert(s@.take(i + 1).drop_last() =~= s@.take(i as int));
        assert(digits_value(s@.take(i + 1)) == wide);
        if wide > max as u128 {
            proof {
                lemma_digits_value_grows(s@, i + 1);
            }
            return None;
        }
        value = wide as u64;
        i += 1;
    }
    assert(s@.take(i as int) =~= s@);
    Some(value)
}

/// A number as std's integer parser reads it: digits, with a plus sign in front or
/// not.
pub open spec fn unsigned_text(s: Seq<char>) -> Seq<char> {
    if s.len() > 0 && s[0] == '+' {
        s.drop_first()
    } else {
        s
    }
}

/// The number that a text spells, if it spells one that is not above `max`.
pub fn parse_unsigned(s: &str, max: u64) -> (r: Option<u64>)
    ensures
        match r {
            Some(n) => all_digits(unsigned_text(s@)) && digits_value(unsigned_text(s@)) == n && n
                <= max,
            None => !all_digits(unsigned_text(s@)) || digits_value(unsigned_text(s@)) > max,
        },
{
    if s.unicode_len() > 0 && s.get_char(0) == '+' {
        let rest = s.substring_char(1, s.unicode_len());
        assert(rest@ =~= s@.drop_first());
        parse_digits(&chars_of(rest), max)
    } else {
        parse_digits(&chars_of(s), max)
    }
}

// ---- Order --------------------------------------------------------------------

/// Is `a` in front of `b` in the order of their characters, the first difference
/// deciding and a prefix coming first?
pub open spec fn precedes(a: Seq<char>, b: Seq<char>) -> bool
    decreases a.len(),
{
    if b.len() == 0 {
        false
    } else if a.len() == 0 {
        true
    } else if a[0] == b[0] {
        precedes(a.drop_first(), b.drop_first())
    } else {
        a[0] < b[0]
    }
}

proof fn lemma_precedes_skip(a: Seq<char>, b: Seq<char>, n: int)
    requires
        0 <= n <= a.len(),
        n <= b.len(),
        forall|j: int| 0 <= j < n ==> a[j] == b[j],
    ensures
        precedes(a, b) == precedes(a.skip(n), b.skip(n)),
    decreases n,
{
    if n > 0 {
        lemma_precedes_skip(a.drop_first(), b.drop_first(), n - 1);
        assert(a.drop_first().skip(n - 1) =~= a.skip(n));
        assert(b.drop_first().skip(n - 1) =~= b.skip(n));
    } else {
        assert(a.skip(0) =~= a);
        assert(b.skip(0) =~= b);
    }
}

pub proof fn lemma_precedes_total(a: Seq<char>, b: Seq<char>)
    ensures
        precedes(a, b) ==> !precedes(b, a) && a != b,
        !precedes(a, b) && !precedes(b, a) ==> a == b,
        a == b ==> !precedes(a, b),
    decreases a.len(),
{
    if a.len() > 0 && b.len() > 0 && a[0] == b[0] {
        lemma_precedes_total(a.drop_first(), b.drop_first());
        if a.drop_first() == b.drop_first() {
            assert(a =~= seq![a[0]] + a.drop_first());
            assert(b =~= seq![b[0]] + b.drop_first());
        }
    } else if a.len() == 0 && b.len() == 0 {
        assert(a =~= b);
    }
}

pub proof fn lemma_precedes_trans(a: Seq<char>, b: Seq<char>, c: Seq<char>)
    requires
        precedes(a, b),
        precedes(b, c),
    ensures
        precedes(a, c),
    decreases a.len(),
{
    if a.len() > 0 && a[0] == b[0] && b[0] == c[0] {
        lemma_precedes_trans(a.drop_first(), b.drop_first(), c.drop_first());
    }
}

/// Is `a` in front of `b` in the order of their characters?
pub fn less(a: &str, b: &str) -> (r: bool)
    ensures
        r == precedes(a@, b@),
{
    let x = chars_of(a);
    let y = chars_of(b);
    let mut i: usize = 0;
    while i < x.len() && i < y.len() && x[i] == y[i]
        invariant
            x@ == a@,
            y@ == b@,
            i <= x.len(),
            i <= y.len(),
            forall|j: int| 0 <= j < i ==> x@[j] == y@[j],
        decreases x.len() - i,
    {
        i += 1;
    }
    proof {
        lemma_precedes_skip(a@, b@, i as int);
    }
    if i >= y.len() {
        false
    } else if i >= x.len() {
        true
    } else {
        x[i] < y[i]
    }
}

// ---- What stands in a text ----------------------------------------------------

/// What stands in a text stands in every longer one.
pub proof fn lemma_occurs_within(a: Seq<char>, b: Seq<char>, c: Seq<char>, p: Seq<char>)
    requires
        occurs(b, p),
    ensures
        occurs(a + b + c, p),
        occurs(a + b, p),
        occurs(b + c, p),
{
    let i = choose|i: int| occurs_at(b, p, i);
    assert((a + b + c).subrange(i + a.len(), i + a.len() + p.len()) =~= p) by {
        assert(b.subrange(i, i + p.len()) == p);
        assert((a + b + c).subrange(i + a.len(), i + a.len() + p.len()) =~= b.subrange(
            i,
            i + p.len(),
        ));
    }
    assert(occurs_at(a + b + c, p, i + a.len()));
    assert((a + b).subrange(i + a.len(), i + a.len() + p.len()) =~= b.subrange(i, i + p.len()));
    assert(occurs_at(a + b, p, i + a.len()));
    assert((b + c).subrange(i, i + p.len()) =~= b.subrange(i, i + p.len()));
    assert(occurs_at(b + c, p, i));
}

/// A text stands between any two others.
pub proof fn lemma_occurs_between(a: Seq<char>, b: Seq<char>, c: Seq<char>)
    ensures
        occurs(a + b + c, b),
        occurs(a + b, b),
        occurs(b + c, b),
        occurs(b, b),
{
    assert(b.subrange(0, b.len() as int) =~= b);
    assert(occurs_at(b, b, 0));
    lemma_occurs_within(a, b, c, b);
}

/// Each part stands in what is joined of all of them.
pub proof fn law_joined_parts_occur(parts: Seq<Seq<char>>, sep: Seq<char>, i: int)
    requires
        0 <= i < parts.len(),
    ensures
        occurs(joined(parts, sep), parts[i]),
    decreases parts.len(),
{
    if parts.len() == 1 {
        lemma_occurs_between(Seq::empty(), parts[0], Seq::empty());
    } else if i == parts.len() - 1 {
        lemma_occurs_between(joined(parts.drop_last(), sep) + sep, parts[i], Seq::empty());
    } else {
        law_joined_parts_occur(parts.drop_last(), sep, i);
        assert(parts.drop_last()[i] == parts[i]);
        let front = joined(parts.drop_last(), sep);
        lemma_occurs_within(Seq::empty(), front, sep + parts.last(), parts[i]);
        assert(front + (sep + parts.last()) =~= front + sep + parts.last());
    }
}

/// What stands behind the last of a separating character, and what stands in front of it,
/// can be told apart.
pub proof fn lemma_last_apart(
    a: Seq<char>,
    x: Seq<char>,
    b: Seq<char>,
    y: Seq<char>,
    c: char,
)
    requires
        !x.contains(c),
        !y.contains(c),
        a.push(c) + x == b.push(c) + y,
    ensures
        a == b,
        x == y,
{
    let s = a.push(c) + x;
    let t = b.push(c) + y;
    assert(s.len() == a.len() + 1 + x.len() && t.len() == b.len() + 1 + y.len());
    assert(s[a.len() as int] == c);
    assert(t[b.len() as int] == c);
    if a.len() > b.len() {
        assert(t[a.len() as int] == y[a.len() - b.len() - 1]);
    } else if b.len() > a.len() {
        assert(s[b.len() as int] == x[b.len() - a.len() - 1]);
    }
    assert(a =~= s.take(a.len() as int));
    assert(b =~= t.take(b.len() as int));
    assert(x =~= s.skip(a.len() as int + 1));
    assert(y =~= t.skip(b.len() as int + 1));
}

/// Different numbers are written differently, with digits alone.
pub proof fn law_decimals_tell_numbers_apart(n: nat, m: nat)
    ensures
        decimal(n) == decimal(m) ==> n == m,
        decimal(n).len() > 0,
        !decimal(n).contains(' '),
{
    law_decimal_reads_back(n);
    law_decimal_reads_back(m);
    if decimal(n).contains(' ') {
        let i = choose|i: int| 0 <= i < decimal(n).len() && decimal(n)[i] == ' ';
        assert(is_digit(decimal(n)[i]));
    }
}

/// What stands in the front part of a text stands in it.
pub broadcast proof fn lemma_occurs_in_front(a: Seq<char>, b: Seq<char>, p: Seq<char>)
    ensures
        occurs(a, p) ==> #[trigger] occurs(a + b, p),
{
    if occurs(a, p) {
        lemma_occurs_within(Seq::empty(), a, b, p);
    }
}

/// What stands in the back part of a text stands in it.
pub broadcast proof fn lemma_occurs_in_back(a: Seq<char>, b: Seq<char>, p: Seq<char>)
    ensures
        occurs(b, p) ==> #[trigger] occurs(a + b, p),
{
    if occurs(b, p) {
        lemma_occurs_within(a, b, Seq::empty(), p);
    }
}

/// A text stands in itself.
pub broadcast proof fn lemma_occurs_itself(s: Seq<char>)
    ensures
        #[trigger] occurs(s, s),
{
    lemma_occurs_between(Seq::empty(), s, Seq::empty());
}

pub broadcast group group_occurs {
    lemma_occurs_in_front,
    lemma_occurs_in_back,
    lemma_occurs_itself,
}

/// A text is cut at the first `c`: what stands in front of it, and what stands behind. One
/// without `c` is not cut.
pub proof fn law_a_text_is_cut_at_the_first(a: Seq<char>, c: char, b: Seq<char>)
    requires
        !a.contains(c),
    ensures
        cut(a.push(c) + b, c) == Some((a, b)),
        cut(a, c) is None,
{
    let s = a.push(c) + b;
    lemma_first_index_means(s, c);
    lemma_first_index_means(a, c);
    assert(s[a.len() as int] == c);
    let k = first_index(s, c)->0;
    if k < a.len() {
        assert(s[k] == a[k]);
        assert(a.contains(c));
    }
    assert(s.take(k) =~= a);
    assert(s.skip(k + 1) =~= b);
    if first_index(a, c) is Some {
        assert(a.contains(a[first_index(a, c)->0]));
    }
}

/// A text that is padded keeps its characters, on the side that it is told, and reaches the
/// width; one that is wider stays as it is.
pub proof fn law_padding_reaches_the_width(s: Seq<char>, width: int)
    ensures
        begins(padded(s, width), s),
        ends(padded_left(s, width), s),
        s.len() <= width ==> padded(s, width).len() == width && padded_left(s, width).len()
            == width,
        s.len() >= width ==> padded(s, width) == s && padded_left(s, width) == s,
{
    let p = padded(s, width);
    assert(p.take(s.len() as int) =~= s);
    let q = padded_left(s, width);
    assert(q.skip(q.len() - s.len()) =~= s);
    if s.len() >= width {
        assert(p =~= s);
        assert(q =~= s);
    }
}

/// What is dropped from the end of a text is every `c` that ends it, and nothing else.
pub proof fn law_dropping_takes_every_last(s: Seq<char>, c: char)
    ensures
        drop_back(s.push(c), c) == drop_back(s, c),
        s.len() > 0 && s.last() != c ==> drop_back(s, c) == s,
        begins(s, drop_back(s, c)),
        drop_back(s, c).len() > 0 ==> drop_back(s, c).last() != c,
    decreases s.len(),
{
    assert(s.push(c).drop_last() =~= s);
    if s.len() > 0 && s.last() == c {
        let init = s.drop_last();
        law_dropping_takes_every_last(init, c);
        let r = drop_back(init, c);
        assert(s.take(r.len() as int) =~= init.take(r.len() as int));
    } else {
        assert(s.take(s.len() as int) =~= s);
    }
}

/// A capital letter is lowered to the letter that it is the capital of; any other character
/// stays as it is, and each keeps its place.
pub proof fn law_letters_are_lowered(s: Seq<char>, i: int)
    requires
        0 <= i < s.len(),
    ensures
        lowered(s).len() == s.len(),
        !('A' <= s[i] <= 'Z') ==> lowered(s)[i] == s[i],
        'A' <= s[i] <= 'Z' ==> lowered(s)[i] as int == s[i] as int + 32 && 'a' <= lowered(s)[i]
            <= 'z',
{
}

/// What stands behind a front, and in front of an end, is what was put there.
pub proof fn law_fronts_and_ends_are_taken_off(a: Seq<char>, b: Seq<char>, s: Seq<char>)
    ensures
        behind(a + b, a) == Some(b),
        before(a + b, b) == Some(a),
        !begins(s, a) ==> behind(s, a) is None,
        !ends(s, b) ==> before(s, b) is None,
        begins(a + b, a) && ends(a + b, b),
{
    let x = a + b;
    assert(x.take(a.len() as int) =~= a);
    assert(x.skip(a.len() as int) =~= b);
    assert(x.skip(x.len() - b.len()) =~= b);
    assert(x.take(x.len() - b.len()) =~= a);
}

/// Digits and letters are those of ASCII.
pub proof fn law_digits_and_letters_are_those_of_ascii(c: char)
    ensures
        is_digit(c) <==> 48 <= c as int <= 57,
        is_alnum(c) <==> is_digit(c) || 97 <= c as int <= 122 || 65 <= c as int <= 90,
        is_hex(c) <==> is_digit(c) || 97 <= c as int <= 102 || 65 <= c as int <= 70,
        is_control(c) <==> c as int <= 31 || 127 <= c as int <= 159,
        is_space(' ') && is_space('\n') && is_space('\t') && is_space('\r'),
        is_alnum(c) ==> !is_space(c) && !is_control(c),
{
}

} // verus!
