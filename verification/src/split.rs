//! Trimming, searching and splitting of strings.

use crate::text::{chars_of, string_from};
use vstd::prelude::*;
use vstd::string::*;

verus! {

/// The contents of a list of strings.
pub open spec fn texts(v: Seq<String>) -> Seq<Seq<char>> {
    Seq::new(v.len(), |i: int| v[i]@)
}

/// Appending a string appends its content.
pub proof fn lemma_texts_push(v: Seq<String>, s: String)
    ensures
        texts(v.push(s)) == texts(v).push(s@),
{
    assert(texts(v.push(s)) =~= texts(v).push(s@));
}

/// The characters with the Unicode property White_Space.
pub open spec fn is_space(c: char) -> bool {
    let u = c as u32;
    ||| 0x9 <= u <= 0xd
    ||| u == 0x20 || u == 0x85 || u == 0xa0 || u == 0x1680
    ||| 0x2000 <= u <= 0x200a
    ||| u == 0x2028 || u == 0x2029 || u == 0x202f || u == 0x205f || u == 0x3000
}

/// Whether a character is white space.
pub fn is_white(c: char) -> (b: bool)
    ensures
        b == is_space(c),
{
    let u = c as u32;
    (0x9 <= u && u <= 0xd) || u == 0x20 || u == 0x85 || u == 0xa0 || u == 0x1680 || (0x2000 <= u && u
        <= 0x200a) || u == 0x2028 || u == 0x2029 || u == 0x202f || u == 0x205f || u == 0x3000
}

/// `s` without its leading white space.
pub open spec fn trim_start(s: Seq<char>) -> Seq<char>
    decreases s.len(),
{
    if s.len() > 0 && is_space(s[0]) {
        trim_start(s.drop_first())
    } else {
        s
    }
}

/// `s` without its trailing white space.
pub open spec fn trim_end(s: Seq<char>) -> Seq<char>
    decreases s.len(),
{
    if s.len() > 0 && is_space(s.last()) {
        trim_end(s.drop_last())
    } else {
        s
    }
}

/// `s` without white space at either end.
pub open spec fn trimmed(s: Seq<char>) -> Seq<char> {
    trim_end(trim_start(s))
}

/// Where the text behind the leading white space of `v` begins.
fn start_of(v: &Vec<char>) -> (a: usize)
    ensures
        a <= v@.len(),
        v@.skip(a as int) == trim_start(v@),
{
    let mut a: usize = 0;
    assert(v@.skip(0) =~= v@);
    while a < v.len() && is_white(v[a])
        invariant
            a <= v@.len(),
            trim_start(v@.skip(a as int)) == trim_start(v@),
        decreases v@.len() - a,
    {
        assert(v@.skip(a as int).drop_first() =~= v@.skip(a + 1));
        a += 1;
    }
    a
}

/// Where the text before the trailing white space of `v[a..]` ends.
fn end_of(v: &Vec<char>, a: usize) -> (b: usize)
    requires
        a <= v@.len(),
    ensures
        a <= b <= v@.len(),
        v@.subrange(a as int, b as int) == trim_end(v@.skip(a as int)),
{
    let mut b: usize = v.len();
    assert(v@.subrange(a as int, b as int) =~= v@.skip(a as int));
    while b > a && is_white(v[b - 1])
        invariant
            a <= b <= v@.len(),
            trim_end(v@.subrange(a as int, b as int)) == trim_end(v@.skip(a as int)),
        decreases b,
    {
        assert(v@.subrange(a as int, b as int).drop_last() =~= v@.subrange(a as int, b - 1));
        b -= 1;
    }
    b
}

/// The string without white space at either end.
pub fn trim(s: &str) -> (r: String)
    ensures
        r@ == trimmed(s@),
{
    let v = chars_of(s);
    let a: usize = start_of(&v);
    let b: usize = end_of(&v, a);
    string_from(&v, a, b)
}

/// The string without trailing white space.
pub fn trim_right(s: &str) -> (r: String)
    ensures
        r@ == trim_end(s@),
{
    let v = chars_of(s);
    let b: usize = end_of(&v, 0);
    assert(v@.skip(0) =~= v@);
    string_from(&v, 0, b)
}

/// The index of the first `c` in `s` at or after `from`, or the length.
pub open spec fn find_from(s: Seq<char>, c: char, from: int) -> int
    decreases s.len() - from,
{
    if from < 0 || from >= s.len() {
        s.len() as int
    } else if s[from] == c {
        from
    } else {
        find_from(s, c, from + 1)
    }
}

/// What `find_from` finds is the first occurrence.
pub proof fn lemma_find_from(s: Seq<char>, c: char, from: int)
    requires
        0 <= from <= s.len(),
    ensures
        from <= find_from(s, c, from) <= s.len(),
        find_from(s, c, from) < s.len() ==> s[find_from(s, c, from)] == c,
        forall|k: int| from <= k < find_from(s, c, from) ==> s[k] != c,
    decreases s.len() - from,
{
    if from < s.len() && s[from] != c {
        lemma_find_from(s, c, from + 1);
    }
}

/// The first `c` of a suffix, counted from the suffix's start.
pub proof fn lemma_find_skip(s: Seq<char>, c: char, at: int, from: int)
    requires
        0 <= at <= from <= s.len(),
    ensures
        find_from(s.skip(at), c, from - at) == find_from(s, c, from) - at,
    decreases s.len() - from,
{
    if from < s.len() && s[from] != c {
        lemma_find_skip(s, c, at, from + 1);
    }
}

/// Finds a character at or after an index.
pub fn find_char(v: &Vec<char>, c: char, from: usize) -> (i: usize)
    requires
        from <= v@.len(),
    ensures
        i == find_from(v@, c, from as int),
        from <= i <= v@.len(),
{
    let mut i: usize = from;
    while i < v.len() && v[i] != c
        invariant
            from <= i <= v@.len(),
            find_from(v@, c, from as int) == find_from(v@, c, i as int),
        decreases v@.len() - i,
    {
        i += 1;
    }
    i
}

/// `s` without one trailing carriage return.
pub open spec fn strip_cr(s: Seq<char>) -> Seq<char> {
    if s.len() > 0 && s.last() == '\r' {
        s.drop_last()
    } else {
        s
    }
}

/// The lines of a text, without their line ends: a line ends with `\n` or
/// `\r\n`, and the end of the last line is optional.
pub open spec fn lines(s: Seq<char>) -> Seq<Seq<char>>
    decreases s.len(),
    via lines_decreases
{
    if s.len() == 0 {
        Seq::empty()
    } else {
        let i = find_from(s, '\n', 0);
        if i >= s.len() {
            seq![s]
        } else {
            seq![strip_cr(s.take(i))] + lines(s.skip(i + 1))
        }
    }
}

#[via_fn]
proof fn lines_decreases(s: Seq<char>) {
    lemma_find_from(s, '\n', 0);
}

/// The lines of a text.
pub fn lines_of(s: &str) -> (r: Vec<String>)
    ensures
        texts(r@) == lines(s@),
{
    let v = chars_of(s);
    let mut r: Vec<String> = Vec::new();
    let mut at: usize = 0;
    assert(v@.skip(0) =~= v@);
    assert(texts(r@) + lines(v@.skip(0)) =~= lines(s@));
    while at < v.len()
        invariant
            at <= v@.len(),
            v@ == s@,
            texts(r@) + lines(v@.skip(at as int)) == lines(s@),
        decreases v@.len() - at,
    {
        let i: usize = find_char(&v, '\n', at);
        let ghost rest = v@.skip(at as int);
        let ghost before = texts(r@);
        proof {
            lemma_find_skip(v@, '\n', at as int, at as int);
            assert(find_from(rest, '\n', 0) == i - at);
        }
        if i == v.len() {
            let line = string_from(&v, at, i);
            proof {
                lemma_texts_push(r@, line);
                assert(line@ =~= rest);
                assert(v@.skip(i as int).len() == 0);
            }
            r.push(line);
            at = i;
            assert(texts(r@) + lines(v@.skip(at as int)) =~= before + lines(rest));
        } else {
            let end: usize = if i > at && v[i - 1] == '\r' {
                i - 1
            } else {
                i
            };
            let line = string_from(&v, at, end);
            proof {
                lemma_texts_push(r@, line);
                assert(line@ =~= strip_cr(rest.take(i - at)));
                assert(rest.skip(i - at + 1) =~= v@.skip(i + 1));
            }
            r.push(line);
            at = i + 1;
            assert(texts(r@) + lines(v@.skip(at as int)) =~= before + lines(rest));
        }
    }
    assert(v@.skip(at as int).len() == 0);
    assert(texts(r@) =~= lines(s@));
    r
}

/// The pieces of a text between the occurrences of a separator.
pub open spec fn pieces(s: Seq<char>, sep: char) -> Seq<Seq<char>>
    decreases s.len(),
    via pieces_decreases
{
    let i = find_from(s, sep, 0);
    if i >= s.len() {
        seq![s]
    } else {
        seq![s.take(i)] + pieces(s.skip(i + 1), sep)
    }
}

#[via_fn]
proof fn pieces_decreases(s: Seq<char>, sep: char) {
    lemma_find_from(s, sep, 0);
}

/// The pieces of a text between the occurrences of a separator.
pub fn split_char(s: &str, sep: char) -> (r: Vec<String>)
    ensures
        texts(r@) == pieces(s@, sep),
        r@.len() >= 1,
{
    let v = chars_of(s);
    let mut r: Vec<String> = Vec::new();
    let mut at: usize = 0;
    assert(v@.skip(0) =~= v@);
    assert(texts(r@) + pieces(v@.skip(0), sep) =~= pieces(s@, sep));
    loop
        invariant
            at <= v@.len(),
            v@ == s@,
            texts(r@) + pieces(v@.skip(at as int), sep) == pieces(s@, sep),
        decreases v@.len() - at,
    {
        let i: usize = find_char(&v, sep, at);
        let ghost rest = v@.skip(at as int);
        let ghost before = texts(r@);
        proof {
            lemma_find_skip(v@, sep, at as int, at as int);
            assert(find_from(rest, sep, 0) == i - at);
        }
        let piece = string_from(&v, at, i);
        proof {
            lemma_texts_push(r@, piece);
            assert(piece@ =~= rest.take(i - at));
        }
        r.push(piece);
        if i == v.len() {
            assert(piece@ =~= rest);
            assert(texts(r@) =~= before + pieces(rest, sep));
            return r;
        }
        assert(rest.skip(i - at + 1) =~= v@.skip(i + 1));
        at = i + 1;
        assert(texts(r@) + pieces(v@.skip(at as int), sep) =~= before + pieces(rest, sep));
    }
}

/// Trimming cuts white space off the ends and nothing else, until no white
/// space is left there.
pub proof fn law_trimming_cuts_white_space(s: Seq<char>)
    ensures
        trim_end(s).is_prefix_of(s),
        forall|i: int| trim_end(s).len() <= i < s.len() ==> is_space(#[trigger] s[i]),
        trim_end(s).len() > 0 ==> !is_space(trim_end(s).last()),
        trim_start(s).len() <= s.len(),
        trim_start(s) == s.skip(s.len() - trim_start(s).len()),
        forall|i: int| 0 <= i < s.len() - trim_start(s).len() ==> is_space(#[trigger] s[i]),
        trim_start(s).len() > 0 ==> !is_space(trim_start(s)[0]),
        trimmed(s).is_prefix_of(trim_start(s)),
        trimmed(s).len() > 0 ==> !is_space(trimmed(s)[0]) && !is_space(trimmed(s).last()),
        forall|i: int| 0 <= i < s.len() ==> (is_space(#[trigger] s[i]) || trimmed(s).len() > 0),
{
    lemma_trim_start(s);
    lemma_trim_end(s);
    lemma_trim_end(trim_start(s));
    let t = trim_start(s);
    let n = s.len() - t.len();
    if trimmed(s).len() > 0 {
        assert(trimmed(s)[0] == t[0]);
    }
    assert forall|i: int| 0 <= i < s.len() implies (is_space(#[trigger] s[i]) || trimmed(s).len()
        > 0) by {
        if i >= n {
            assert(t[i - n] == s[i]);
        }
    }
}

proof fn lemma_trim_start(s: Seq<char>)
    ensures
        trim_start(s).len() <= s.len(),
        trim_start(s) == s.skip(s.len() - trim_start(s).len()),
        forall|i: int| 0 <= i < s.len() - trim_start(s).len() ==> is_space(#[trigger] s[i]),
        trim_start(s).len() > 0 ==> !is_space(trim_start(s)[0]),
    decreases s.len(),
{
    if s.len() > 0 && is_space(s[0]) {
        let d = s.drop_first();
        lemma_trim_start(d);
        assert(d.skip(d.len() - trim_start(d).len()) =~= s.skip(s.len() - trim_start(s).len()));
        assert forall|i: int| 0 <= i < s.len() - trim_start(s).len() implies is_space(
            #[trigger] s[i],
        ) by {
            if i > 0 {
                assert(d[i - 1] == s[i]);
            }
        }
    } else {
        assert(s.skip(0) =~= s);
    }
}

proof fn lemma_trim_end(s: Seq<char>)
    ensures
        trim_end(s).is_prefix_of(s),
        forall|i: int| trim_end(s).len() <= i < s.len() ==> is_space(#[trigger] s[i]),
        trim_end(s).len() > 0 ==> !is_space(trim_end(s).last()),
    decreases s.len(),
{
    if s.len() > 0 && is_space(s.last()) {
        let d = s.drop_last();
        lemma_trim_end(d);
        assert forall|i: int| trim_end(s).len() <= i < s.len() implies is_space(
            #[trigger] s[i],
        ) by {
            if i < d.len() {
                assert(d[i] == s[i]);
            }
        }
    }
}

/// Space, tabulator and line ends are white space, printed ASCII characters are not.
pub proof fn law_white_space(c: char)
    ensures
        c == ' ' || c == '\t' || c == '\n' || c == '\r' ==> is_space(c),
        0x21 <= c as u32 <= 0x7e ==> !is_space(c),
{
}

proof fn lemma_find_first(a: Seq<char>, c: char, b: Seq<char>, k: int)
    requires
        0 <= k <= a.len(),
        forall|i: int| 0 <= i < a.len() ==> #[trigger] a[i] != c,
    ensures
        find_from(a + seq![c] + b, c, k) == a.len(),
        find_from(a, c, k) == a.len(),
    decreases a.len() - k,
{
    let s = a + seq![c] + b;
    if k < a.len() {
        assert(s[k] == a[k]);
        lemma_find_first(a, c, b, k + 1);
    } else {
        assert(s[k] == c);
    }
}

/// The pieces of a text are what stands before the first separator, then the
/// pieces of what stands behind it. A text without a separator is one piece.
pub proof fn law_pieces_stand_between_separators(a: Seq<char>, b: Seq<char>, sep: char)
    requires
        forall|i: int| 0 <= i < a.len() ==> #[trigger] a[i] != sep,
    ensures
        pieces(a, sep) == seq![a],
        pieces(a + seq![sep] + b, sep) == seq![a] + pieces(b, sep),
{
    let s = a + seq![sep] + b;
    lemma_find_first(a, sep, b, 0);
    assert(s.take(a.len() as int) =~= a);
    assert(s.skip(a.len() as int + 1) =~= b);
}

/// The lines of a text are what stands before the first line end, without a
/// carriage return behind it, then the lines of what stands behind it. What
/// stands behind the last line end is a line where it is not empty.
pub proof fn law_lines_stand_between_line_ends(a: Seq<char>, b: Seq<char>)
    requires
        forall|i: int| 0 <= i < a.len() ==> #[trigger] a[i] != '\n',
    ensures
        lines(Seq::<char>::empty()) == Seq::<Seq<char>>::empty(),
        a.len() > 0 ==> lines(a) == seq![a],
        a.len() == 0 || a.last() != '\r' ==> lines(a + seq!['\n'] + b) == seq![a] + lines(b),
        lines(a + seq!['\r'] + seq!['\n'] + b) == seq![a] + lines(b),
{
    let s = a + seq!['\n'] + b;
    lemma_find_first(a, '\n', b, 0);
    assert(s.take(a.len() as int) =~= a);
    assert(s.skip(a.len() as int + 1) =~= b);
    let r = a + seq!['\r'];
    let t = r + seq!['\n'] + b;
    assert forall|i: int| 0 <= i < r.len() implies #[trigger] r[i] != '\n' by {
        if i < a.len() {
            assert(r[i] == a[i]);
        }
    }
    lemma_find_first(r, '\n', b, 0);
    assert(t.take(r.len() as int) =~= r);
    assert(t.skip(r.len() as int + 1) =~= b);
    assert(r.drop_last() =~= a);
}

/// The pieces of two texts with a separator between them are those of the one,
/// then those of the other.
pub proof fn law_pieces_of_both_sides(a: Seq<char>, b: Seq<char>, sep: char)
    ensures
        pieces(a + seq![sep] + b, sep) == pieces(a, sep) + pieces(b, sep),
    decreases a.len(),
{
    let i = find_from(a, sep, 0);
    lemma_find_from(a, sep, 0);
    if i >= a.len() {
        law_pieces_stand_between_separators(a, b, sep);
    } else {
        let head = a.take(i);
        let rest = a.skip(i + 1);
        assert(a =~= head + seq![sep] + rest);
        law_pieces_of_both_sides(rest, b, sep);
        assert forall|k: int| 0 <= k < head.len() implies #[trigger] head[k] != sep by {
            assert(head[k] == a[k]);
        }
        law_pieces_stand_between_separators(head, rest, sep);
        law_pieces_stand_between_separators(head, rest + seq![sep] + b, sep);
        assert(a + seq![sep] + b =~= head + seq![sep] + (rest + seq![sep] + b));
        assert(pieces(a + seq![sep] + b, sep) =~= pieces(a, sep) + pieces(b, sep));
    }
}

/// The contents of a list of strings are those of each.
pub proof fn law_texts_are_those_of_the_strings(v: Seq<String>, i: int)
    ensures
        texts(v).len() == v.len(),
        0 <= i < v.len() ==> texts(v)[i] == v[i]@,
{
}

} // verus!
