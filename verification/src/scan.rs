//! Occurrences of one text in another, words, sections and ordering of texts.

use crate::split::{is_space, is_white, lemma_texts_push, texts};
use crate::text::{chars_of, string_from};
use vstd::prelude::*;
use vstd::string::*;
use vstd::utf8::char_u32_cast;

verus! {

/// `part` stands in `s` at index `i`.
pub open spec fn occurs_at(s: Seq<char>, part: Seq<char>, i: int) -> bool {
    &&& 0 <= i
    &&& i + part.len() <= s.len()
    &&& s.subrange(i, i + part.len()) == part
}

/// `part` stands somewhere in `s`.
pub open spec fn contains_text(s: Seq<char>, part: Seq<char>) -> bool {
    exists|i: int| occurs_at(s, part, i)
}

/// The first place at or after `from` where `part` stands in `s`.
pub open spec fn find_text(s: Seq<char>, part: Seq<char>, from: int) -> Option<int>
    decreases s.len() + 1 - from,
{
    if from < 0 || from + part.len() > s.len() {
        None
    } else if occurs_at(s, part, from) {
        Some(from)
    } else {
        find_text(s, part, from + 1)
    }
}

/// What `find_text` finds is the first occurrence.
pub proof fn lemma_find_text(s: Seq<char>, part: Seq<char>, from: int)
    requires
        0 <= from,
    ensures
        find_text(s, part, from) is Some ==> {
            &&& from <= find_text(s, part, from)->Some_0
            &&& occurs_at(s, part, find_text(s, part, from)->Some_0)
            &&& forall|k: int|
                from <= k < find_text(s, part, from)->Some_0 ==> !occurs_at(s, part, k)
        },
        find_text(s, part, from) is None ==> forall|k: int| from <= k ==> !occurs_at(s, part, k),
    decreases s.len() + 1 - from,
{
    if from + part.len() > s.len() {
    } else if occurs_at(s, part, from) {
    } else {
        lemma_find_text(s, part, from + 1);
    }
}

/// An occurrence in a suffix, counted from the suffix's start.
pub proof fn lemma_find_text_skip(s: Seq<char>, part: Seq<char>, at: int, from: int)
    requires
        0 <= at <= from,
        at <= s.len(),
    ensures
        find_text(s.skip(at), part, from - at) == (match find_text(s, part, from) {
            Some(i) => Some(i - at),
            None => None,
        }),
    decreases s.len() + 1 - from,
{
    if from + part.len() <= s.len() {
        assert(s.skip(at).subrange(from - at, from - at + part.len()) =~= s.subrange(
            from,
            from + part.len(),
        ));
        if !occurs_at(s, part, from) {
            lemma_find_text_skip(s, part, at, from + 1);
        }
    }
}

/// Whether `part` stands in `v` at index `i`.
pub fn stands_at(v: &Vec<char>, part: &Vec<char>, i: usize) -> (b: bool)
    requires
        i + part@.len() <= v@.len(),
    ensures
        b == occurs_at(v@, part@, i as int),
{
    let mut k: usize = 0;
    let n: usize = v.len();
    while k < part.len()
        invariant
            k <= part@.len(),
            n == v@.len(),
            i + part@.len() <= v@.len(),
            forall|j: int| 0 <= j < k ==> v@[i + j] == part@[j],
        decreases part@.len() - k,
    {
        if v[i + k] != part[k] {
            assert(v@.subrange(i as int, i + part@.len())[k as int] != part@[k as int]);
            return false;
        }
        k += 1;
    }
    assert(v@.subrange(i as int, i + part@.len()) =~= part@);
    true
}

/// Finds the first occurrence at or after `from`.
pub fn find_part(v: &Vec<char>, part: &Vec<char>, from: usize) -> (r: Option<usize>)
    requires
        from <= v@.len(),
    ensures
        (match find_text(v@, part@, from as int) {
            Some(i) => r is Some && r->Some_0 == i && from <= i && i + part@.len() <= v@.len(),
            None => r is None,
        }),
{
    let mut i: usize = from;
    while part.len() <= v.len() && i <= v.len() - part.len()
        invariant
            from <= i <= v@.len() + 1,
            find_text(v@, part@, i as int) == find_text(v@, part@, from as int),
        decreases v@.len() + 1 - i,
    {
        if stands_at(v, part, i) {
            return Some(i);
        }
        if i == v.len() {
            assert(find_text(v@, part@, i + 1) is None);
            return None;
        }
        i += 1;
    }
    None
}

/// Whether `part` stands somewhere in `s`.
pub fn has_part(s: &str, part: &str) -> (b: bool)
    ensures
        b == contains_text(s@, part@),
{
    let v = chars_of(s);
    let p = chars_of(part);
    proof {
        lemma_find_text(s@, part@, 0);
    }
    match find_part(&v, &p, 0) {
        Some(i) => {
            assert(occurs_at(s@, part@, i as int));
            true
        },
        None => {
            assert forall|k: int| !occurs_at(s@, part@, k) by {
                if k >= 0 {
                }
            }
            false
        },
    }
}

/// The parts of a text between the occurrences of a separator, found from the left.
pub open spec fn sections(s: Seq<char>, sep: Seq<char>) -> Seq<Seq<char>>
    decreases s.len(),
    via sections_decreases
{
    match find_text(s, sep, 0) {
        Some(i) => if sep.len() > 0 {
            seq![s.take(i)] + sections(s.skip(i + sep.len()), sep)
        } else {
            seq![s]
        },
        None => seq![s],
    }
}

#[via_fn]
proof fn sections_decreases(s: Seq<char>, sep: Seq<char>) {
    lemma_find_text(s, sep, 0);
}

/// The parts of a text between the occurrences of a separator.
pub fn split_text(s: &str, sep: &str) -> (r: Vec<String>)
    requires
        sep@.len() > 0,
    ensures
        texts(r@) == sections(s@, sep@),
{
    let v = chars_of(s);
    let p = chars_of(sep);
    let mut r: Vec<String> = Vec::new();
    let mut at: usize = 0;
    assert(v@.skip(0) =~= v@);
    assert(texts(r@) + sections(v@.skip(0), p@) =~= sections(s@, sep@));
    loop
        invariant
            at <= v@.len(),
            v@ == s@,
            p@ == sep@,
            sep@.len() > 0,
            texts(r@) + sections(v@.skip(at as int), p@) == sections(s@, sep@),
        decreases v@.len() - at,
    {
        let ghost rest = v@.skip(at as int);
        let ghost before = texts(r@);
        proof {
            lemma_find_text_skip(v@, p@, at as int, at as int);
        }
        let n: usize = v.len();
        match find_part(&v, &p, at) {
            Some(i) => {
                let part = string_from(&v, at, i);
                proof {
                    lemma_texts_push(r@, part);
                    assert(part@ =~= rest.take(i - at));
                    assert(rest.skip(i - at + p@.len()) =~= v@.skip(i + p@.len()));
                }
                r.push(part);
                at = i + p.len();
                assert(texts(r@) + sections(v@.skip(at as int), p@) =~= before + sections(
                    rest,
                    p@,
                ));
            },
            None => {
                let part = string_from(&v, at, v.len());
                proof {
                    lemma_texts_push(r@, part);
                    assert(part@ =~= rest);
                }
                r.push(part);
                assert(texts(r@) =~= before + sections(rest, p@));
                return r;
            },
        }
    }
}

/// Where the run of characters from `i` on that are white, or are not, ends.
pub open spec fn run_end(s: Seq<char>, i: int, white: bool) -> int
    decreases s.len() - i,
{
    if i < 0 || i >= s.len() || is_space(s[i]) != white {
        i
    } else {
        run_end(s, i + 1, white)
    }
}

proof fn lemma_run_end(s: Seq<char>, i: int, white: bool)
    requires
        0 <= i <= s.len(),
    ensures
        i <= run_end(s, i, white) <= s.len(),
        run_end(s, i, white) < s.len() ==> is_space(s[run_end(s, i, white)]) != white,
    decreases s.len() - i,
{
    if i < s.len() && is_space(s[i]) == white {
        lemma_run_end(s, i + 1, white);
    }
}

/// The words of a text from `i` on: its runs of characters that are not white space.
pub open spec fn words_from(s: Seq<char>, i: int) -> Seq<Seq<char>>
    decreases s.len() - i,
    via words_decreases
{
    if i < 0 || i >= s.len() {
        Seq::empty()
    } else {
        let a = run_end(s, i, true);
        let b = run_end(s, a, false);
        if a >= s.len() {
            Seq::empty()
        } else {
            seq![s.subrange(a, b)] + words_from(s, b)
        }
    }
}

#[via_fn]
proof fn words_decreases(s: Seq<char>, i: int) {
    if 0 <= i < s.len() {
        lemma_run_end(s, i, true);
        let a = run_end(s, i, true);
        lemma_run_end(s, a, false);
        if a < s.len() {
            lemma_run_end(s, a + 1, false);
        }
    }
}

/// The words of a text.
pub open spec fn words(s: Seq<char>) -> Seq<Seq<char>> {
    words_from(s, 0)
}

fn end_of_run(v: &Vec<char>, i: usize, white: bool) -> (e: usize)
    requires
        i <= v@.len(),
    ensures
        e == run_end(v@, i as int, white),
        i <= e <= v@.len(),
{
    let mut e: usize = i;
    while e < v.len() && is_white(v[e]) == white
        invariant
            i <= e <= v@.len(),
            run_end(v@, e as int, white) == run_end(v@, i as int, white),
        decreases v@.len() - e,
    {
        e += 1;
    }
    e
}

/// The words of a text.
pub fn words_of(s: &str) -> (r: Vec<String>)
    ensures
        texts(r@) == words(s@),
{
    let v = chars_of(s);
    let mut r: Vec<String> = Vec::new();
    let mut at: usize = 0;
    assert(texts(r@) + words_from(v@, 0) =~= words(s@));
    while at < v.len()
        invariant
            at <= v@.len(),
            v@ == s@,
            texts(r@) + words_from(v@, at as int) == words(s@),
        decreases v@.len() - at,
    {
        let a: usize = end_of_run(&v, at, true);
        let b: usize = end_of_run(&v, a, false);
        let ghost before = texts(r@);
        if a == v.len() {
            assert(texts(r@) =~= words(s@));
            return r;
        }
        proof {
            lemma_run_end(v@, at as int, true);
            lemma_run_end(v@, a + 1, false);
            assert(run_end(v@, a as int, false) == run_end(v@, a + 1, false));
        }
        let word = string_from(&v, a, b);
        proof {
            lemma_texts_push(r@, word);
        }
        r.push(word);
        assert(texts(r@) + words_from(v@, b as int) =~= before + words_from(v@, at as int));
        at = b;
    }
    assert(texts(r@) =~= words(s@));
    r
}

/// `s` without the occurrences of `part` at its end.
pub open spec fn without_suffixes(s: Seq<char>, part: Seq<char>) -> Seq<char>
    decreases s.len(),
{
    if part.len() > 0 && occurs_at(s, part, s.len() - part.len()) {
        without_suffixes(s.take(s.len() - part.len()), part)
    } else {
        s
    }
}

/// Removes the occurrences of `part` at the end of a text.
pub fn trim_suffixes(s: &str, part: &str) -> (r: String)
    ensures
        r@ == without_suffixes(s@, part@),
{
    let v = chars_of(s);
    let p = chars_of(part);
    let mut end: usize = v.len();
    assert(v@.take(end as int) =~= v@);
    loop
        invariant
            end <= v@.len(),
            v@ == s@,
            p@ == part@,
            without_suffixes(v@.take(end as int), p@) == without_suffixes(s@, part@),
        decreases end,
    {
        if p.len() == 0 || end < p.len() {
            assert(v@.take(end as int) =~= v@.subrange(0, end as int));
            return string_from(&v, 0, end);
        }
        let start: usize = end - p.len();
        let ghost t = v@.take(end as int);
        assert(t.subrange(start as int, start + p@.len()) =~= v@.subrange(
            start as int,
            start + p@.len(),
        ));
        if !stands_at(&v, &p, start) {
            assert(t =~= v@.subrange(0, end as int));
            return string_from(&v, 0, end);
        }
        assert(t.take(start as int) =~= v@.take(start as int));
        end = start;
    }
}

/// The order of texts by their characters' code points.
pub open spec fn text_less(a: Seq<char>, b: Seq<char>) -> bool
    decreases a.len(),
{
    if b.len() == 0 {
        false
    } else if a.len() == 0 {
        true
    } else if a[0] == b[0] {
        text_less(a.drop_first(), b.drop_first())
    } else {
        (a[0] as u32) < (b[0] as u32)
    }
}

/// Texts are in a strict order.
pub proof fn lemma_text_order(a: Seq<char>, b: Seq<char>, c: Seq<char>)
    ensures
        !text_less(b, a) && !text_less(c, b) ==> !text_less(c, a),
        text_less(a, b) ==> !text_less(b, a),
    decreases a.len(),
{
    if a.len() > 0 && b.len() > 0 && c.len() > 0 {
        char_u32_cast(a[0], a[0] as u32);
        char_u32_cast(b[0], b[0] as u32);
        char_u32_cast(c[0], c[0] as u32);
        lemma_text_order(a.drop_first(), b.drop_first(), c.drop_first());
    } else if a.len() > 0 && b.len() > 0 {
        lemma_text_order(a.drop_first(), b.drop_first(), Seq::empty());
    }
}

/// What stands behind texts of the same length does not change their order.
pub proof fn lemma_less_continued(a: Seq<char>, b: Seq<char>, c: Seq<char>, d: Seq<char>)
    requires
        a.len() == b.len(),
        text_less(a, b),
    ensures
        text_less(a + c, b + d),
    decreases a.len(),
{
    if a.len() > 0 && a[0] == b[0] {
        lemma_less_continued(a.drop_first(), b.drop_first(), c, d);
        assert((a + c).drop_first() =~= a.drop_first() + c);
        assert((b + d).drop_first() =~= b.drop_first() + d);
    }
}

/// What stands before two texts does not change their order.
pub proof fn lemma_less_behind(a: Seq<char>, c: Seq<char>, d: Seq<char>)
    requires
        text_less(c, d),
    ensures
        text_less(a + c, a + d),
    decreases a.len(),
{
    if a.len() > 0 {
        lemma_less_behind(a.drop_first(), c, d);
        assert((a + c).drop_first() =~= a.drop_first() + c);
        assert((a + d).drop_first() =~= a.drop_first() + d);
    } else {
        assert(a + c =~= c);
        assert(a + d =~= d);
    }
}

/// Whether one text comes before another.
pub fn comes_before(a: &str, b: &str) -> (r: bool)
    ensures
        r == text_less(a@, b@),
{
    let x = chars_of(a);
    let y = chars_of(b);
    let mut i: usize = 0;
    assert(x@.skip(0) =~= x@ && y@.skip(0) =~= y@);
    while i < x.len() && i < y.len() && x[i] == y[i]
        invariant
            i <= x@.len(),
            i <= y@.len(),
            text_less(x@.skip(i as int), y@.skip(i as int)) == text_less(x@, y@),
        decreases x@.len() - i,
    {
        assert(x@.skip(i as int).drop_first() =~= x@.skip(i + 1));
        assert(y@.skip(i as int).drop_first() =~= y@.skip(i + 1));
        i += 1;
    }
    if i == y.len() {
        false
    } else if i == x.len() {
        true
    } else {
        (x[i] as u32) < (y[i] as u32)
    }
}

/// Joins texts with a separator between them.
pub open spec fn joined_with(parts: Seq<Seq<char>>, sep: Seq<char>) -> Seq<char>
    decreases parts.len(),
{
    if parts.len() == 0 {
        Seq::empty()
    } else if parts.len() == 1 {
        parts[0]
    } else {
        joined_with(parts.drop_last(), sep) + sep + parts.last()
    }
}

/// Joins texts with a separator between them.
pub fn join_with(parts: &Vec<String>, sep: &str) -> (r: String)
    ensures
        r@ == joined_with(texts(parts@), sep@),
{
    let mut r = String::new();
    let mut i: usize = 0;
    let ghost t = texts(parts@);
    while i < parts.len()
        invariant
            i <= parts@.len(),
            t == texts(parts@),
            r@ == joined_with(t.take(i as int), sep@),
        decreases parts@.len() - i,
    {
        assert(t.take(i + 1).drop_last() =~= t.take(i as int));
        if i > 0 {
            r.append(sep);
            r.append(parts[i].as_str());
        } else {
            r = parts[i].clone();
            assert(t.take(1)[0] == parts@[0]@);
        }
        i += 1;
    }
    assert(t.take(parts@.len() as int) =~= t);
    r
}

/// A text stands in every text that has it between a beginning and an end, and
/// where it stands in one, the one is made so.
pub proof fn law_parts_are_found(a: Seq<char>, part: Seq<char>, b: Seq<char>, s: Seq<char>)
    ensures
        contains_text(a + part + b, part),
        contains_text(s, part) ==> exists|x: Seq<char>, y: Seq<char>| s == #[trigger] (x + part + y),
{
    let t = a + part + b;
    assert(t.subrange(a.len() as int, a.len() as int + part.len()) =~= part);
    assert(occurs_at(t, part, a.len() as int));
    if contains_text(s, part) {
        let i = choose|i: int| occurs_at(s, part, i);
        let x = s.take(i);
        let y = s.skip(i + part.len());
        assert(s =~= x + part + y);
    }
}

/// The sections of a text are what stands before the first separator, then the
/// sections of what stands behind it. A text without a separator is one section.
pub proof fn law_sections_stand_between_separators(a: Seq<char>, b: Seq<char>, sep: Seq<char>)
    requires
        sep.len() > 0,
        forall|i: int| 0 <= i < a.len() ==> !occurs_at(a + sep + b, sep, i),
    ensures
        sections(a + sep + b, sep) == seq![a] + sections(b, sep),
        !contains_text(b, sep) ==> sections(b, sep) == seq![b],
{
    let s = a + sep + b;
    let n = a.len() as int;
    assert(s.subrange(n, n + sep.len()) =~= sep);
    assert(occurs_at(s, sep, n));
    lemma_find_text(s, sep, 0);
    assert(find_text(s, sep, 0) == Some(n));
    assert(s.take(n) =~= a);
    assert(s.skip(n + sep.len()) =~= b);
    lemma_find_text(b, sep, 0);
}

/// Texts are joined with the separator between each two of them.
pub proof fn law_joined_texts(parts: Seq<Seq<char>>, x: Seq<char>, sep: Seq<char>)
    ensures
        joined_with(Seq::empty(), sep) == Seq::<char>::empty(),
        joined_with(seq![x], sep) == x,
        parts.len() > 0 ==> joined_with(parts.push(x), sep) == joined_with(parts, sep) + sep + x,
{
    assert(seq![x].drop_last() =~= Seq::empty());
    assert(parts.push(x).drop_last() =~= parts);
    assert(joined_with(seq![x], sep) =~= x);
}

/// Each of the texts that are joined stands in the result.
pub proof fn law_joined_texts_are_found(parts: Seq<Seq<char>>, sep: Seq<char>, i: int)
    requires
        0 <= i < parts.len(),
    ensures
        contains_text(joined_with(parts, sep), parts[i]),
    decreases parts.len(),
{
    let d = parts.drop_last();
    let x = parts.last();
    let all = joined_with(parts, sep);
    assert(d.push(x) =~= parts);
    law_joined_texts(d, x, sep);
    if d.len() == 0 {
        assert(parts =~= seq![x]);
        law_parts_are_found(Seq::empty(), x, Seq::empty(), all);
        assert(Seq::<char>::empty() + x + Seq::<char>::empty() =~= x);
    } else if i == parts.len() - 1 {
        law_parts_are_found(joined_with(d, sep) + sep, x, Seq::empty(), all);
        assert(joined_with(d, sep) + sep + x + Seq::<char>::empty() =~= all);
    } else {
        law_joined_texts_are_found(d, sep, i);
        assert(d[i] == parts[i]);
        law_parts_are_found(Seq::empty(), parts[i], Seq::empty(), joined_with(d, sep));
        let (a, b) = choose|a: Seq<char>, b: Seq<char>|
            joined_with(d, sep) == #[trigger] (a + parts[i] + b);
        law_parts_are_found(a, parts[i], b + sep + x, all);
        assert(a + parts[i] + (b + sep + x) =~= all);
    }
}

/// A part at the end of a text goes as often as it stands there; a text that
/// does not end in it stays.
pub proof fn law_suffixes_are_cut(s: Seq<char>, part: Seq<char>)
    requires
        part.len() > 0,
    ensures
        without_suffixes(s + part, part) == without_suffixes(s, part),
        !occurs_at(s, part, s.len() - part.len()) ==> without_suffixes(s, part) == s,
{
    let t = s + part;
    assert(t.subrange(s.len() as int, s.len() as int + part.len()) =~= part);
    assert(t.take(s.len() as int) =~= s);
}

proof fn lemma_run_in_skip(s: Seq<char>, at: int, i: int, white: bool)
    requires
        0 <= at <= i <= s.len(),
    ensures
        run_end(s.skip(at), i - at, white) == run_end(s, i, white) - at,
    decreases s.len() - i,
{
    if i < s.len() && is_space(s[i]) == white {
        lemma_run_in_skip(s, at, i + 1, white);
    }
}

proof fn lemma_words_in_skip(s: Seq<char>, at: int, i: int)
    requires
        0 <= at <= i <= s.len(),
    ensures
        words_from(s.skip(at), i - at) == words_from(s, i),
    decreases s.len() - i,
{
    if i < s.len() {
        lemma_run_end(s, i, true);
        let a = run_end(s, i, true);
        lemma_run_in_skip(s, at, i, true);
        if a < s.len() {
            lemma_run_end(s, a, false);
            lemma_run_end(s, a + 1, false);
            let b = run_end(s, a, false);
            lemma_run_in_skip(s, at, a, false);
            lemma_words_in_skip(s, at, b);
            assert(s.skip(at).subrange(a - at, b - at) =~= s.subrange(a, b));
        }
    }
}

proof fn lemma_run_all(s: Seq<char>, i: int, n: int, white: bool)
    requires
        0 <= i <= n <= s.len(),
        forall|k: int| i <= k < n ==> is_space(#[trigger] s[k]) == white,
        n < s.len() ==> is_space(s[n]) != white,
    ensures
        run_end(s, i, white) == n,
    decreases n - i,
{
    if i < n {
        lemma_run_all(s, i + 1, n, white);
    }
}

/// The words of a text are its runs of characters that are no white space:
/// white space before the text makes no difference, and what stands before the
/// first white space behind a word is the first word.
pub proof fn law_words_stand_between_white_space(w: Seq<char>, c: char, rest: Seq<char>)
    requires
        is_space(c),
        forall|i: int| 0 <= i < w.len() ==> !is_space(#[trigger] w[i]),
    ensures
        words(Seq::<char>::empty()) == Seq::<Seq<char>>::empty(),
        words(seq![c] + rest) == words(rest),
        w.len() > 0 ==> words(w) == seq![w],
        w.len() > 0 ==> words(w + seq![c] + rest) == seq![w] + words(rest),
{
    let s = seq![c] + rest;
    assert(s[0] == c);
    assert(s.skip(1) =~= rest);
    lemma_words_in_skip(s, 1, 1);
    lemma_words_after_white(s);
    if w.len() > 0 {
        let n = w.len() as int;
        lemma_run_all(w, 0, 0, true);
        lemma_run_all(w, 0, n, false);
        assert(w.subrange(0, n) =~= w);
        assert(words_from(w, n) =~= Seq::<Seq<char>>::empty());
        assert(words_from(w, 0) =~= seq![w.subrange(0, n)] + words_from(w, n));
        let t = w + seq![c] + rest;
        assert forall|k: int| 0 <= k < n implies is_space(#[trigger] t[k]) == false by {
            assert(t[k] == w[k]);
        }
        assert(t[n] == c);
        lemma_run_all(t, 0, 0, true);
        lemma_run_all(t, 0, n, false);
        assert(t.subrange(0, n) =~= w);
        lemma_words_in_skip(t, n, n);
        assert(t.skip(n) =~= s);
        assert(words(t) =~= seq![w] + words(rest));
    }
}

proof fn lemma_words_after_white(s: Seq<char>)
    requires
        s.len() > 0,
        is_space(s[0]),
    ensures
        words_from(s, 0) == words_from(s, 1),
{
    lemma_run_end(s, 0, true);
    lemma_run_end(s, 1, true);
    assert(run_end(s, 0, true) == run_end(s, 1, true));
}

/// What stands in a part of a text stands in the text.
pub proof fn law_parts_of_parts_are_found(s: Seq<char>, part: Seq<char>, inner: Seq<char>)
    requires
        contains_text(s, part),
        contains_text(part, inner),
    ensures
        contains_text(s, inner),
{
    law_parts_are_found(Seq::empty(), part, Seq::empty(), s);
    law_parts_are_found(Seq::empty(), inner, Seq::empty(), part);
    let (a, b) = choose|a: Seq<char>, b: Seq<char>| s == #[trigger] (a + part + b);
    let (c, d) = choose|c: Seq<char>, d: Seq<char>| part == #[trigger] (c + inner + d);
    assert(s =~= (a + c) + inner + (d + b));
    law_parts_are_found(a + c, inner, d + b, s);
}

/// Texts are ordered by the first character in which they differ; a text comes
/// before its continuations.
pub proof fn law_texts_are_ordered_by_their_characters(
    a: Seq<char>,
    x: char,
    y: char,
    b: Seq<char>,
    c: Seq<char>,
)
    ensures
        (x as u32) < (y as u32) ==> text_less(a + seq![x] + b, a + seq![y] + c),
        (x as u32) < (y as u32) ==> !text_less(a + seq![y] + c, a + seq![x] + b),
        text_less(a, a + seq![x] + b),
        !text_less(a + seq![x] + b, a),
        !text_less(a, a),
    decreases a.len(),
{
    let p = a + seq![x] + b;
    let q = a + seq![y] + c;
    if a.len() > 0 {
        let d = a.drop_first();
        law_texts_are_ordered_by_their_characters(d, x, y, b, c);
        assert(p.drop_first() =~= d + seq![x] + b);
        assert(q.drop_first() =~= d + seq![y] + c);
        assert(p[0] == a[0] && q[0] == a[0]);
    } else {
        assert(p[0] == x && q[0] == y);
    }
}

} // verus!
