//! Character-level string operations with exact contracts.
//!
//! Every function here works on the characters of a string (its view, a
//! `Seq<char>`), so that callers can state what they compute over sequences.

use vstd::prelude::*;
use vstd::std_specs::iter::IteratorSpec;
use vstd::string::StringExecFns;

verus! {

/// `String::push` appends one character to the end of the string.
pub assume_specification[ String::push ](s: &mut String, c: char)
    ensures
        final(s)@ == old(s)@.push(c),
;

/// The characters of `s`, in order.
pub fn chars_of(s: &str) -> (v: Vec<char>)
    ensures
        v@ == s@,
{
    broadcast use vstd::string::group_string_axioms;

    let mut v: Vec<char> = Vec::new();
    for c in it: s.chars()
        invariant
            it.seq() == s@,
            v@ == it.seq().take(it.index() as int),
    {
        v.push(c);
    }
    assert(v@ =~= s@);
    v
}

/// The string made of the characters `v[from..to]`.
pub fn string_of(v: &Vec<char>, from: usize, to: usize) -> (s: String)
    requires
        from <= to <= v.len(),
    ensures
        s@ == v@.subrange(from as int, to as int),
{
    let mut s = String::new();
    let mut i: usize = from;
    while i < to
        invariant
            from <= i <= to <= v.len(),
            s@ == v@.subrange(from as int, i as int),
        decreases to - i,
    {
        s.push(v[i]);
        i += 1;
        assert(s@ =~= v@.subrange(from as int, i as int));
    }
    s
}

/// The string made of all the characters of `v`.
pub fn string_from_chars(v: &Vec<char>) -> (s: String)
    ensures
        s@ == v@,
{
    let s = string_of(v, 0, v.len());
    assert(v@.subrange(0, v.len() as int) =~= v@);
    s
}

/// Whether two strings hold the same characters.
pub fn str_eq(a: &str, b: &str) -> (r: bool)
    ensures
        r == (a@ == b@),
{
    let va = chars_of(a);
    let vb = chars_of(b);
    chars_eq(&va, &vb)
}

/// Whether two character vectors are equal.
pub fn chars_eq(a: &Vec<char>, b: &Vec<char>) -> (r: bool)
    ensures
        r == (a@ == b@),
{
    if a.len() != b.len() {
        return false;
    }
    let mut i: usize = 0;
    while i < a.len()
        invariant
            i <= a.len(),
            a.len() == b.len(),
            a@.subrange(0, i as int) == b@.subrange(0, i as int),
        decreases a.len() - i,
    {
        if a[i] != b[i] {
            assert(a@[i as int] != b@[i as int]);
            return false;
        }
        i += 1;
        assert(a@.subrange(0, i as int) =~= a@.subrange(0, i - 1).push(a@[i - 1]));
        assert(b@.subrange(0, i as int) =~= b@.subrange(0, i - 1).push(b@[i - 1]));
    }
    assert(a@ =~= a@.subrange(0, i as int));
    assert(b@ =~= b@.subrange(0, i as int));
    true
}

/// White space as Unicode defines it (the property `White_Space`).
pub open spec fn is_space(c: char) -> bool {
    let n = c as u32;
    ||| 0x09 <= n <= 0x0D
    ||| n == 0x20
    ||| n == 0x85
    ||| n == 0xA0
    ||| n == 0x1680
    ||| 0x2000 <= n <= 0x200A
    ||| n == 0x2028
    ||| n == 0x2029
    ||| n == 0x202F
    ||| n == 0x205F
    ||| n == 0x3000
}

/// Whether `c` is white space.
pub fn is_space_char(c: char) -> (r: bool)
    ensures
        r == is_space(c),
{
    let n: u32 = c as u32;
    (0x09 <= n && n <= 0x0D) || n == 0x20 || n == 0x85 || n == 0xA0 || n == 0x1680 || (0x2000 <= n
        && n <= 0x200A) || n == 0x2028 || n == 0x2029 || n == 0x202F || n == 0x205F || n == 0x3000
}

/// `s` without its leading white space.
pub open spec fn skip_spaces(s: Seq<char>) -> Seq<char>
    decreases s.len(),
{
    if s.len() > 0 && is_space(s[0]) {
        skip_spaces(s.drop_first())
    } else {
        s
    }
}

/// `s` without its trailing white space.
pub open spec fn drop_trailing_spaces(s: Seq<char>) -> Seq<char>
    decreases s.len(),
{
    if s.len() > 0 && is_space(s.last()) {
        drop_trailing_spaces(s.drop_last())
    } else {
        s
    }
}

/// `s` without leading and trailing white space.
pub open spec fn trimmed(s: Seq<char>) -> Seq<char> {
    drop_trailing_spaces(skip_spaces(s))
}

/// The bounds `(a, b)` of the trimmed part of `v`.
pub fn trim_bounds(v: &Vec<char>) -> (r: (usize, usize))
    ensures
        r.0 <= r.1 <= v.len(),
        v@.subrange(r.0 as int, r.1 as int) == trimmed(v@),
{
    let n: usize = v.len();
    let mut a: usize = 0;
    assert(v@.subrange(0, n as int) =~= v@);
    while a < n && is_space_char(v[a])
        invariant
            a <= n,
            n == v.len(),
            skip_spaces(v@) == skip_spaces(v@.subrange(a as int, n as int)),
        decreases n - a,
    {
        assert(v@.subrange(a as int, n as int).drop_first() =~= v@.subrange(a + 1, n as int));
        a += 1;
    }
    assert(skip_spaces(v@) == v@.subrange(a as int, n as int));
    let mut b: usize = n;
    while b > a && is_space_char(v[b - 1])
        invariant
            a <= b <= n,
            n == v.len(),
            trimmed(v@) == drop_trailing_spaces(v@.subrange(a as int, b as int)),
        decreases b - a,
    {
        assert(v@.subrange(a as int, b as int).drop_last() =~= v@.subrange(a as int, b - 1));
        b -= 1;
    }
    (a, b)
}

/// `s` without leading and trailing white space.
pub fn trim(s: &str) -> (r: String)
    ensures
        r@ == trimmed(s@),
{
    let v = chars_of(s);
    let (a, b) = trim_bounds(&v);
    string_of(&v, a, b)
}

/// Whether `s` holds nothing but white space.
pub fn is_blank(s: &str) -> (r: bool)
    ensures
        r == (trimmed(s@).len() == 0),
{
    let v = chars_of(s);
    let (a, b) = trim_bounds(&v);
    a == b
}

/// Whether `needle` stands in `hay` at position `i`.
pub open spec fn occurs_at(hay: Seq<char>, needle: Seq<char>, i: int) -> bool {
    0 <= i && i + needle.len() <= hay.len() && hay.subrange(i, i + needle.len()) == needle
}

/// Whether `needle` stands somewhere in `hay`.
pub open spec fn contains_seq(hay: Seq<char>, needle: Seq<char>) -> bool {
    exists|i: int| occurs_at(hay, needle, i)
}

/// Whether `needle` stands in `hay` at position `i`.
pub fn matches_at(hay: &Vec<char>, needle: &Vec<char>, i: usize) -> (r: bool)
    requires
        i + needle.len() <= hay.len(),
    ensures
        r == occurs_at(hay@, needle@, i as int),
{
    let m: usize = needle.len();
    let mut j: usize = 0;
    while j < m
        invariant
            j <= m,
            m == needle.len(),
            i + m <= hay.len(),
            hay@.subrange(i as int, i + j) == needle@.subrange(0, j as int),
        decreases m - j,
    {
        if hay[i + j] != needle[j] {
            assert(hay@.subrange(i as int, i + m)[j as int] != needle@[j as int]);
            return false;
        }
        j += 1;
        assert(hay@.subrange(i as int, i + j) =~= hay@.subrange(i as int, i + j - 1).push(
            hay@[i + j - 1],
        ));
        assert(needle@.subrange(0, j as int) =~= needle@.subrange(0, j - 1).push(needle@[j - 1]));
    }
    assert(needle@.subrange(0, m as int) =~= needle@);
    true
}

/// The first position at or after `from` where `needle` stands in `hay`.
pub fn find_from(hay: &Vec<char>, needle: &Vec<char>, from: usize) -> (r: Option<usize>)
    ensures
        match r {
            Some(i) => from <= i && occurs_at(hay@, needle@, i as int) && forall|k: int|
                from <= k < i ==> !occurs_at(hay@, needle@, k),
            None => forall|k: int| from <= k ==> !occurs_at(hay@, needle@, k),
        },
{
    if needle.len() > hay.len() || from > hay.len() - needle.len() {
        return None;
    }
    let last: usize = hay.len() - needle.len();
    let mut i: usize = from;
    loop
        invariant
            from <= i <= last,
            last == hay.len() - needle.len(),
            needle.len() <= hay.len(),
            forall|k: int| from <= k < i ==> !occurs_at(hay@, needle@, k),
        decreases last - i,
    {
        if matches_at(hay, needle, i) {
            return Some(i);
        }
        if i == last {
            return None;
        }
        i += 1;
    }
}

/// Whether `needle` stands somewhere in `hay`.
pub fn contains(hay: &str, needle: &str) -> (r: bool)
    ensures
        r == contains_seq(hay@, needle@),
{
    let h = chars_of(hay);
    let n = chars_of(needle);
    match find_from(&h, &n, 0) {
        Some(i) => {
            assert(occurs_at(hay@, needle@, i as int));
            true
        },
        None => false,
    }
}

/// `s` with each occurrence of `from` replaced by `to`, taking occurrences from
/// the left without overlap. An empty `from` occurs before each character and
/// at the end.
pub open spec fn replaced(s: Seq<char>, from: Seq<char>, to: Seq<char>) -> Seq<char>
    decreases s.len(),
{
    if from.len() == 0 {
        if s.len() == 0 {
            to
        } else {
            to + seq![s[0]] + replaced(s.drop_first(), from, to)
        }
    } else if s.len() < from.len() {
        s
    } else if s.subrange(0, from.len() as int) == from {
        to + replaced(s.subrange(from.len() as int, s.len() as int), from, to)
    } else {
        seq![s[0]] + replaced(s.drop_first(), from, to)
    }
}

/// Appends the characters of `src` to `out`.
pub fn push_all(out: &mut Vec<char>, src: &Vec<char>)
    ensures
        final(out)@ == old(out)@ + src@,
{
    let mut i: usize = 0;
    while i < src.len()
        invariant
            i <= src.len(),
            out@ == old(out)@ + src@.subrange(0, i as int),
        decreases src.len() - i,
    {
        out.push(src[i]);
        i += 1;
        assert(out@ =~= old(out)@ + src@.subrange(0, i as int));
    }
    assert(src@.subrange(0, src.len() as int) =~= src@);
}

/// `s` with each occurrence of `from` replaced by `to`.
pub fn replace_chars(s: &Vec<char>, from: &Vec<char>, to: &Vec<char>) -> (out: Vec<char>)
    ensures
        out@ == replaced(s@, from@, to@),
{
    let n: usize = s.len();
    let m: usize = from.len();
    let mut out: Vec<char> = Vec::new();
    let mut pos: usize = 0;
    assert(s@.subrange(0, n as int) =~= s@);
    while pos < n && (m == 0 || n - pos >= m)
        invariant
            pos <= n,
            n == s.len(),
            m == from.len(),
            replaced(s@, from@, to@) == out@ + replaced(
                s@.subrange(pos as int, n as int),
                from@,
                to@,
            ),
        decreases n - pos,
    {
        let ghost rest = s@.subrange(pos as int, n as int);
        let ghost before = out@;
        if m == 0 {
            push_all(&mut out, to);
            out.push(s[pos]);
            assert(rest.drop_first() =~= s@.subrange(pos + 1, n as int));
            assert(out@ + replaced(rest.drop_first(), from@, to@) =~= before + (to@ + seq![rest[0]]
                + replaced(rest.drop_first(), from@, to@)));
            pos += 1;
        } else if matches_at(s, from, pos) {
            push_all(&mut out, to);
            assert(rest.subrange(0, m as int) =~= s@.subrange(pos as int, pos + m));
            assert(rest.subrange(m as int, rest.len() as int) =~= s@.subrange(pos + m, n as int));
            assert(out@ + replaced(rest.subrange(m as int, rest.len() as int), from@, to@)
                =~= before + (to@ + replaced(
                rest.subrange(m as int, rest.len() as int),
                from@,
                to@,
            )));
            pos += m;
        } else {
            out.push(s[pos]);
            assert(rest.subrange(0, m as int) =~= s@.subrange(pos as int, pos + m));
            assert(rest.drop_first() =~= s@.subrange(pos + 1, n as int));
            assert(out@ + replaced(rest.drop_first(), from@, to@) =~= before + (seq![rest[0]]
                + replaced(rest.drop_first(), from@, to@)));
            pos += 1;
        }
    }
    let ghost rest = s@.subrange(pos as int, n as int);
    if m == 0 {
        assert(rest.len() == 0);
        push_all(&mut out, to);
    } else {
        let ghost before = out@;
        assert(rest.len() < m);
        let mut i: usize = pos;
        while i < n
            invariant
                pos <= i <= n,
                n == s.len(),
                out@ == before + s@.subrange(pos as int, i as int),
            decreases n - i,
        {
            out.push(s[i]);
            i += 1;
            assert(out@ =~= before + s@.subrange(pos as int, i as int));
        }
    }
    out
}

/// `s` with each occurrence of `from` replaced by `to`.
pub fn replace(s: &str, from: &str, to: &str) -> (r: String)
    ensures
        r@ == replaced(s@, from@, to@),
{
    let out = replace_chars(&chars_of(s), &chars_of(from), &chars_of(to));
    string_from_chars(&out)
}

/// `a` followed by `b`.
pub fn concat_str(a: &str, b: &str) -> (r: String)
    ensures
        r@ == a@ + b@,
{
    let mut r = String::from_str(a);
    r.append(b);
    r
}

/// The views of the strings in `v`.
pub open spec fn texts(v: Seq<String>) -> Seq<Seq<char>> {
    v.map_values(|s: String| s@)
}

/// Pushing a string onto a vector pushes its view onto the vector's texts.
pub proof fn lemma_texts_push(v: Seq<String>, s: String)
    ensures
        texts(v.push(s)) == texts(v).push(s@),
{
    assert(texts(v.push(s)) =~= texts(v).push(s@));
}

/// The position of the first line feed in `s`, or the length of `s` when it has none.
pub open spec fn line_end(s: Seq<char>) -> int
    decreases s.len(),
{
    if s.len() == 0 || s[0] == '\n' {
        0
    } else {
        1 + line_end(s.drop_first())
    }
}

/// `s` without one carriage return at its end.
pub open spec fn without_cr(s: Seq<char>) -> Seq<char> {
    if s.len() > 0 && s.last() == '\r' {
        s.drop_last()
    } else {
        s
    }
}

/// The lines of `s`. A line ends at a line feed, or at a carriage return that
/// a line feed follows; the line ending is not part of the line. Text after the
/// last line feed is a line of its own unless it is empty.
pub open spec fn lines_of(s: Seq<char>) -> Seq<Seq<char>>
    decreases s.len(),
{
    if s.len() == 0 {
        Seq::empty()
    } else {
        let n = line_end(s);
        if n < 0 || n >= s.len() {
            seq![s]
        } else {
            seq![without_cr(s.subrange(0, n))] + lines_of(s.subrange(n + 1, s.len() as int))
        }
    }
}

/// A position that holds the first line feed at or after the start is `line_end`.
pub proof fn lemma_line_end_is(s: Seq<char>, n: int)
    requires
        0 <= n <= s.len(),
        forall|k: int| 0 <= k < n ==> s[k] != '\n',
        n < s.len() ==> s[n] == '\n',
    ensures
        line_end(s) == n,
    decreases s.len(),
{
    if s.len() == 0 || s[0] == '\n' {
    } else {
        assert forall|k: int| 0 <= k < n - 1 implies s.drop_first()[k] != '\n' by {
            assert(s.drop_first()[k] == s[k + 1]);
        }
        lemma_line_end_is(s.drop_first(), n - 1);
    }
}

/// The lines of `v`, as `str::lines` gives them.
pub fn split_lines(v: &Vec<char>) -> (out: Vec<String>)
    ensures
        texts(out@) == lines_of(v@),
{
    let n: usize = v.len();
    let mut out: Vec<String> = Vec::new();
    let mut pos: usize = 0;
    assert(v@.subrange(0, n as int) =~= v@);
    assert(texts(out@) =~= Seq::<Seq<char>>::empty());
    while pos < n
        invariant
            pos <= n,
            n == v.len(),
            lines_of(v@) == texts(out@) + lines_of(v@.subrange(pos as int, n as int)),
        decreases n - pos,
    {
        let ghost rest = v@.subrange(pos as int, n as int);
        let ghost before = out@;
        let mut end: usize = pos;
        while end < n && v[end] != '\n'
            invariant
                pos <= end <= n,
                n == v.len(),
                forall|k: int| pos <= k < end ==> v@[k] != '\n',
            decreases n - end,
        {
            end += 1;
        }
        proof {
            assert forall|k: int| 0 <= k < end - pos implies rest[k] != '\n' by {
                assert(rest[k] == v@[pos + k]);
            }
            lemma_line_end_is(rest, end - pos);
        }
        if end == n {
            let line = string_of(v, pos, n);
            out.push(line);
            proof {
                lemma_texts_push(before, line);
                assert(lines_of(rest) =~= seq![rest]);
                assert(v@.subrange(n as int, n as int) =~= Seq::<char>::empty());
                assert(texts(out@) + lines_of(v@.subrange(n as int, n as int)) =~= texts(before)
                    + lines_of(rest));
            }
            pos = n;
        } else {
            let stop: usize = if end > pos && v[end - 1] == '\r' {
                end - 1
            } else {
                end
            };
            let line = string_of(v, pos, stop);
            out.push(line);
            proof {
                lemma_texts_push(before, line);
                let raw = rest.subrange(0, end - pos);
                assert(raw =~= v@.subrange(pos as int, end as int));
                assert(without_cr(raw) =~= v@.subrange(pos as int, stop as int));
                assert(rest.subrange(end - pos + 1, rest.len() as int) =~= v@.subrange(
                    end + 1,
                    n as int,
                ));
                assert(texts(out@) + lines_of(v@.subrange(end + 1, n as int)) =~= texts(before)
                    + lines_of(rest));
            }
            pos = end + 1;
        }
    }
    assert(v@.subrange(n as int, n as int) =~= Seq::<char>::empty());
    assert(texts(out@) + lines_of(Seq::<char>::empty()) =~= texts(out@));
    out
}

/// The character of a decimal digit.
pub open spec fn digit(d: nat) -> char {
    if d == 0 {
        '0'
    } else if d == 1 {
        '1'
    } else if d == 2 {
        '2'
    } else if d == 3 {
        '3'
    } else if d == 4 {
        '4'
    } else if d == 5 {
        '5'
    } else if d == 6 {
        '6'
    } else if d == 7 {
        '7'
    } else if d == 8 {
        '8'
    } else {
        '9'
    }
}

/// `n` in decimal, without leading zeros.
pub open spec fn decimal(n: nat) -> Seq<char>
    decreases n,
{
    if n < 10 {
        seq![digit(n)]
    } else {
        decimal(n / 10).push(digit(n % 10))
    }
}

/// The character of the decimal digit `d`.
pub fn digit_char(d: u64) -> (c: char)
    requires
        d < 10,
    ensures
        c == digit(d as nat),
{
    if d == 0 {
        '0'
    } else if d == 1 {
        '1'
    } else if d == 2 {
        '2'
    } else if d == 3 {
        '3'
    } else if d == 4 {
        '4'
    } else if d == 5 {
        '5'
    } else if d == 6 {
        '6'
    } else if d == 7 {
        '7'
    } else if d == 8 {
        '8'
    } else {
        '9'
    }
}

/// Appends `n` in decimal to `out`.
pub fn push_decimal(out: &mut Vec<char>, n: u64)
    ensures
        final(out)@ == old(out)@ + decimal(n as nat),
    decreases n,
{
    if n >= 10 {
        push_decimal(out, n / 10);
    }
    out.push(digit_char(n % 10));
    assert(out@ =~= old(out)@ + decimal(n as nat));
}

/// `n` in decimal.
pub fn decimal_string(n: u64) -> (s: String)
    ensures
        s@ == decimal(n as nat),
{
    let mut v: Vec<char> = Vec::new();
    push_decimal(&mut v, n);
    assert(v@ =~= decimal(n as nat));
    string_from_chars(&v)
}


/// The text that `{:?}` shows for a string: the string between double quotes,
/// with the characters escaped that `Debug` escapes.
pub uninterp spec fn debug_text(text: Seq<char>) -> Seq<char>;

/// The text that `{:?}` shows for a list of strings.
pub uninterp spec fn debug_list(items: Seq<Seq<char>>) -> Seq<char>;

/// `Debug` for `str`, through `format!`.
#[verifier::external_body]
pub(crate) fn debug_of_text(text: &str) -> (shown: String)
    ensures
        shown@ == debug_text(text@),
{
    format!("{:?}", text)
}

/// `Debug` for a vector of strings, through `format!`.
#[verifier::external_body]
pub(crate) fn debug_of_list(items: &Vec<String>) -> (shown: String)
    ensures
        shown@ == debug_list(texts(items@)),
{
    format!("{:?}", items)
}


/// How often `c` stands in `s`.
pub open spec fn count_of(s: Seq<char>, c: char) -> nat
    decreases s.len(),
{
    if s.len() == 0 {
        0
    } else {
        count_of(s.drop_last(), c) + if s.last() == c {
            1nat
        } else {
            0nat
        }
    }
}

/// How often `c` stands in `s`.
pub fn count_char(s: &str, c: char) -> (n: usize)
    ensures
        n == count_of(s@, c),
{
    let v = chars_of(s);
    let mut n: usize = 0;
    let mut i: usize = 0;
    while i < v.len()
        invariant
            i <= v.len(),
            n == count_of(v@.take(i as int), c),
            n <= i,
        decreases v.len() - i,
    {
        proof {
            assert(v@.take(i + 1).drop_last() =~= v@.take(i as int));
        }
        if v[i] == c {
            n += 1;
        }
        i += 1;
    }
    assert(v@.take(v.len() as int) =~= v@);
    n
}

/// How often `c` stands in `v[from..to]`.
pub fn count_in(v: &Vec<char>, from: usize, to: usize, c: char) -> (n: usize)
    requires
        from <= to <= v.len(),
    ensures
        n == count_of(v@.subrange(from as int, to as int), c),
{
    let mut n: usize = 0;
    let mut i: usize = from;
    while i < to
        invariant
            from <= i <= to <= v.len(),
            n == count_of(v@.subrange(from as int, i as int), c),
            n <= i - from,
        decreases to - i,
    {
        proof {
            assert(v@.subrange(from as int, i + 1).drop_last() =~= v@.subrange(
                from as int,
                i as int,
            ));
        }
        if v[i] == c {
            n += 1;
        }
        i += 1;
    }
    n
}

/// The position of the first `c` in `s`, or the length of `s` where it has
/// none.
pub open spec fn index_of(s: Seq<char>, c: char) -> int
    decreases s.len(),
{
    if s.len() == 0 || s[0] == c {
        0
    } else {
        1 + index_of(s.drop_first(), c)
    }
}

/// A position that holds the first `c` is `index_of`.
pub proof fn lemma_index_of_is(s: Seq<char>, c: char, n: int)
    requires
        0 <= n <= s.len(),
        forall|k: int| 0 <= k < n ==> s[k] != c,
        n < s.len() ==> s[n] == c,
    ensures
        index_of(s, c) == n,
    decreases s.len(),
{
    if s.len() == 0 || s[0] == c {
    } else {
        assert forall|k: int| 0 <= k < n - 1 implies s.drop_first()[k] != c by {
            assert(s.drop_first()[k] == s[k + 1]);
        }
        lemma_index_of_is(s.drop_first(), c, n - 1);
    }
}

/// The position of the first `c` in `v[from..to]`, counted from `from`.
pub fn find_char(v: &Vec<char>, from: usize, to: usize, c: char) -> (p: usize)
    requires
        from <= to <= v.len(),
    ensures
        p == index_of(v@.subrange(from as int, to as int), c),
        p <= to - from,
{
    let mut i: usize = from;
    while i < to && v[i] != c
        invariant
            from <= i <= to <= v.len(),
            forall|k: int| from <= k < i ==> v@[k] != c,
        decreases to - i,
    {
        i += 1;
    }
    proof {
        let s = v@.subrange(from as int, to as int);
        assert forall|k: int| 0 <= k < i - from implies s[k] != c by {
            assert(s[k] == v@[from + k]);
        }
        lemma_index_of_is(s, c, i - from);
    }
    i - from
}

/// Whether a character is an ASCII digit.
pub open spec fn is_digit(c: char) -> bool {
    48 <= c as u32 <= 57
}

/// The value of an ASCII digit.
pub open spec fn digit_value(c: char) -> int {
    c as u32 - 48
}

/// Whether every character is an ASCII digit.
pub open spec fn all_digits(s: Seq<char>) -> bool {
    forall|i: int| 0 <= i < s.len() ==> is_digit(#[trigger] s[i])
}

/// The number that digits write in decimal.
pub open spec fn digits_value(s: Seq<char>) -> int
    decreases s.len(),
{
    if s.len() == 0 {
        0
    } else {
        digits_value(s.drop_last()) * 10 + digit_value(s.last())
    }
}

/// The digits of a text behind its sign, if it has one.
pub open spec fn unsigned_part(s: Seq<char>) -> Seq<char> {
    if s.len() > 0 && (s[0] == '-' || s[0] == '+') {
        s.drop_first()
    } else {
        s
    }
}

/// The whole number that a text writes, as `i64` reads it: a plus or minus
/// sign that may be missing, then one digit or more, the value within the
/// range of `i64`. Any other text writes no number.
pub open spec fn parsed_integer(s: Seq<char>) -> Option<int> {
    let body = unsigned_part(s);
    if body.len() == 0 || !all_digits(body) {
        None
    } else {
        let value = if s[0] == '-' {
            -digits_value(body)
        } else {
            digits_value(body)
        };
        if i64::MIN <= value <= i64::MAX {
            Some(value)
        } else {
            None
        }
    }
}

/// The number that digits write is no smaller than the number that the
/// first of them write.
pub proof fn lemma_digits_value_grows(s: Seq<char>, k: int)
    requires
        all_digits(s),
        0 <= k <= s.len(),
    ensures
        0 <= digits_value(s.take(k)) <= digits_value(s),
    decreases s.len() - k,
{
    if k == s.len() {
        assert(s.take(k) =~= s);
        lemma_digits_value_nonnegative(s);
    } else {
        lemma_digits_value_grows(s, k + 1);
        assert(s.take(k + 1).drop_last() =~= s.take(k));
        lemma_digits_value_nonnegative(s.take(k));
        assert(is_digit(s[k]));
        assert(s.take(k + 1).last() == s[k]);
    }
}

/// Digits write no negative number.
pub proof fn lemma_digits_value_nonnegative(s: Seq<char>)
    requires
        forall|i: int| 0 <= i < s.len() ==> is_digit(#[trigger] s[i]),
    ensures
        digits_value(s) >= 0,
    decreases s.len(),
{
    if s.len() > 0 {
        assert forall|i: int| 0 <= i < s.drop_last().len() implies is_digit(
            #[trigger] s.drop_last()[i],
        ) by {
            assert(s.drop_last()[i] == s[i]);
        }
        lemma_digits_value_nonnegative(s.drop_last());
        assert(is_digit(s.last()));
    }
}

/// The whole number that `v[from..to]` writes.
pub fn parse_integer(v: &Vec<char>, from: usize, to: usize) -> (r: Option<i64>)
    requires
        from <= to <= v.len(),
    ensures
        match r {
            Some(n) => parsed_integer(v@.subrange(from as int, to as int)) == Some(n as int),
            None => parsed_integer(v@.subrange(from as int, to as int)) is None,
        },
{
    let ghost s = v@.subrange(from as int, to as int);
    if from == to {
        return None;
    }
    assert(s[0] == v@[from as int]);
    let negative = v[from] == '-';
    let start: usize = if v[from] == '-' || v[from] == '+' {
        from + 1
    } else {
        from
    };
    let ghost body = unsigned_part(s);
    assert(body =~= v@.subrange(start as int, to as int));
    if start == to {
        return None;
    }
    let mut acc: i128 = 0;
    let mut i: usize = start;
    assert(body.take(0) =~= Seq::<char>::empty());
    while i < to
        invariant
            start <= i <= to <= v.len(),
            from <= start < to,
            s == v@.subrange(from as int, to as int),
            body == unsigned_part(s),
            body == v@.subrange(start as int, to as int),
            negative == (s[0] == '-'),
            acc == digits_value(body.take(i - start)),
            0 <= acc <= 9223372036854775808,
            forall|k: int| 0 <= k < i - start ==> is_digit(#[trigger] body[k]),
        decreases to - i,
    {
        let n: u32 = v[i] as u32;
        assert(body[i - start] == v@[i as int]);
        if n < 48 || n > 57 {
            assert(!is_digit(body[i - start]));
            return None;
        }
        proof {
            assert(body.take(i - start + 1).drop_last() =~= body.take(i - start));
            assert(body.take(i - start + 1).last() == body[i - start]);
        }
        let next: i128 = acc * 10 + ((n - 48) as i128);
        if next > 9223372036854775808 {
            proof {
                if all_digits(body) {
                    lemma_digits_value_grows(body, i - start + 1);
                }
            }
            return None;
        }
        acc = next;
        i += 1;
    }
    assert(body.take(to - start) =~= body);
    let value: i128 = if negative {
        -acc
    } else {
        acc
    };
    if value > 9223372036854775807 {
        None
    } else {
        Some(value as i64)
    }
}

/// Whether `s` begins with `prefix`.
pub open spec fn has_prefix(s: Seq<char>, prefix: Seq<char>) -> bool {
    occurs_at(s, prefix, 0)
}

/// Whether `s` ends with `suffix`.
pub open spec fn has_suffix(s: Seq<char>, suffix: Seq<char>) -> bool {
    suffix.len() <= s.len() && occurs_at(s, suffix, s.len() - suffix.len())
}

/// Whether `s` begins with `prefix`.
pub fn starts_with(s: &str, prefix: &str) -> (r: bool)
    ensures
        r == has_prefix(s@, prefix@),
{
    let v = chars_of(s);
    let p = chars_of(prefix);
    if p.len() > v.len() {
        return false;
    }
    matches_at(&v, &p, 0)
}

/// Whether `s` ends with `suffix`.
pub fn ends_with(s: &str, suffix: &str) -> (r: bool)
    ensures
        r == has_suffix(s@, suffix@),
{
    let v = chars_of(s);
    let p = chars_of(suffix);
    if p.len() > v.len() {
        return false;
    }
    matches_at(&v, &p, v.len() - p.len())
}

/// The parts of `s` between the occurrences of `c`; a text without `c` is one
/// part, and so is the empty text.
pub open spec fn fields_of(s: Seq<char>, c: char) -> Seq<Seq<char>>
    decreases s.len(),
{
    let n = index_of(s, c);
    if n < 0 || n >= s.len() {
        seq![s]
    } else {
        seq![s.take(n)] + fields_of(s.skip(n + 1), c)
    }
}

/// The parts of `v` between the occurrences of `c`.
pub fn split_fields(v: &Vec<char>, c: char) -> (fields: Vec<String>)
    ensures
        texts(fields@) == fields_of(v@, c),
{
    let n: usize = v.len();
    let mut fields: Vec<String> = Vec::new();
    let mut pos: usize = 0;
    let mut done = false;
    assert(v@.skip(0) =~= v@);
    assert(texts(fields@) =~= Seq::<Seq<char>>::empty());
    while !done
        invariant
            pos <= n,
            n == v.len(),
            !done ==> fields_of(v@, c) == texts(fields@) + fields_of(v@.skip(pos as int), c),
            done ==> fields_of(v@, c) == texts(fields@),
        decreases n - pos + (if done { 0int } else { 1int }),
    {
        let ghost rest = v@.skip(pos as int);
        let ghost before = fields@;
        assert(rest =~= v@.subrange(pos as int, n as int));
        let width = find_char(v, pos, n, c);
        let end: usize = pos + width;
        let field = string_of(v, pos, end);
        proof {
            lemma_texts_push(before, field);
            assert(rest.take(width as int) =~= v@.subrange(pos as int, end as int));
        }
        fields.push(field);
        if end == n {
            proof {
                assert(rest.take(width as int) =~= rest);
                assert(texts(fields@) =~= texts(before) + fields_of(rest, c));
            }
            done = true;
            pos = n;
        } else {
            proof {
                assert(rest.skip(width + 1) =~= v@.skip(end + 1));
                assert(texts(fields@) + fields_of(v@.skip(end + 1), c) =~= texts(before)
                    + fields_of(rest, c));
            }
            pos = end + 1;
        }
    }
    fields
}

/// `s` without the characters `c` at its start.
pub open spec fn skip_char(s: Seq<char>, c: char) -> Seq<char>
    decreases s.len(),
{
    if s.len() > 0 && s[0] == c {
        skip_char(s.drop_first(), c)
    } else {
        s
    }
}

/// `s` without the characters `c` at its end.
pub open spec fn drop_trailing_char(s: Seq<char>, c: char) -> Seq<char>
    decreases s.len(),
{
    if s.len() > 0 && s.last() == c {
        drop_trailing_char(s.drop_last(), c)
    } else {
        s
    }
}

/// `s` without the characters `c` at its start and at its end.
pub open spec fn stripped(s: Seq<char>, c: char) -> Seq<char> {
    drop_trailing_char(skip_char(s, c), c)
}

/// `s` without the characters `c` at its start and at its end.
pub fn strip_char(s: &str, c: char) -> (r: String)
    ensures
        r@ == stripped(s@, c),
{
    let v = chars_of(s);
    let n: usize = v.len();
    let mut a: usize = 0;
    assert(v@.subrange(0, n as int) =~= v@);
    while a < n && v[a] == c
        invariant
            a <= n,
            n == v.len(),
            skip_char(v@, c) == skip_char(v@.subrange(a as int, n as int), c),
        decreases n - a,
    {
        assert(v@.subrange(a as int, n as int).drop_first() =~= v@.subrange(a + 1, n as int));
        a += 1;
    }
    assert(skip_char(v@, c) == v@.subrange(a as int, n as int));
    let mut b: usize = n;
    while b > a && v[b - 1] == c
        invariant
            a <= b <= n,
            n == v.len(),
            stripped(v@, c) == drop_trailing_char(v@.subrange(a as int, b as int), c),
        decreases b - a,
    {
        assert(v@.subrange(a as int, b as int).drop_last() =~= v@.subrange(a as int, b - 1));
        b -= 1;
    }
    string_of(&v, a, b)
}

/// The position of the last `c` in `s`, or -1 where it has none.
pub open spec fn last_index_of(s: Seq<char>, c: char) -> int
    decreases s.len(),
{
    if s.len() == 0 {
        -1
    } else if s.last() == c {
        s.len() - 1
    } else {
        last_index_of(s.drop_last(), c)
    }
}

/// The position of the last `c` in `v`.
pub fn find_last_char(v: &Vec<char>, c: char) -> (p: Option<usize>)
    ensures
        match p {
            Some(i) => i < v.len() && last_index_of(v@, c) == i,
            None => last_index_of(v@, c) == -1,
        },
{
    let mut i: usize = v.len();
    assert(v@.take(i as int) =~= v@);
    while i > 0
        invariant
            i <= v.len(),
            last_index_of(v@, c) == last_index_of(v@.take(i as int), c),
        decreases i,
    {
        assert(v@.take(i as int).last() == v@[i - 1]);
        if v[i - 1] == c {
            return Some(i - 1);
        }
        assert(v@.take(i as int).drop_last() =~= v@.take(i - 1));
        i -= 1;
    }
    None
}

/// `String::from_utf8`: the text that the bytes encode in UTF-8, or nothing
/// where they encode none.
#[verifier::external_body]
pub(crate) fn text_of_bytes(bytes: Vec<u8>) -> (text: Option<String>)
    ensures
        match text {
            Some(s) => vstd::utf8::valid_utf8(bytes@) && s@ == vstd::utf8::decode_utf8(bytes@),
            None => !vstd::utf8::valid_utf8(bytes@),
        },
{
    String::from_utf8(bytes).ok()
}


} // verus!
