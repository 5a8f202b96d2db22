//! String building blocks: comparison, concatenation, decimal numbers and
//! conversion between strings and character vectors.

use vstd::prelude::*;
use vstd::string::*;
use vstd::utf8::*;

verus! {

/// `String::push` appends one character to the end of the string.
pub assume_specification[ String::push ](s: &mut String, c: char)
    ensures
        final(s)@ == old(s)@.push(c),
;

/// Two strings have the same characters exactly when they have the same bytes.
pub proof fn lemma_utf8_injective(a: Seq<char>, b: Seq<char>)
    ensures
        encode_utf8(a) == encode_utf8(b) <==> a == b,
{
    broadcast use encode_utf8_decode_utf8;

    assert(decode_utf8(encode_utf8(a)) == a);
    assert(decode_utf8(encode_utf8(b)) == b);
}

/// Whether two strings hold the same characters.
pub fn str_eq(a: &str, b: &str) -> (r: bool)
    ensures
        r == (a@ == b@),
{
    proof {
        lemma_utf8_injective(a@, b@);
    }
    let x = a.as_bytes();
    let y = b.as_bytes();
    if x.len() != y.len() {
        return false;
    }
    let mut i: usize = 0;
    while i < x.len()
        invariant
            i <= x@.len(),
            x@.len() == y@.len(),
            x@ == a.spec_bytes(),
            y@ == b.spec_bytes(),
            forall|j: int| 0 <= j < i ==> x@[j] == y@[j],
            encode_utf8(a@) == encode_utf8(b@) <==> a@ == b@,
        decreases x@.len() - i,
    {
        if x[i] != y[i] {
            return false;
        }
        i += 1;
    }
    assert(x@ =~= y@);
    true
}

/// The characters of a string, as a vector.
pub fn chars_of(s: &str) -> (v: Vec<char>)
    ensures
        v@ == s@,
{
    let mut v: Vec<char> = Vec::new();
    for c in it: s.chars()
        invariant
            v@ =~= s@.take(it.index()),
            it.seq() == s@,
    {
        v.push(c);
    }
    assert(s@.take(s@.len() as int) =~= s@);
    v
}

/// The string made of the characters `v[from..to]`.
pub fn string_from(v: &Vec<char>, from: usize, to: usize) -> (s: String)
    requires
        from <= to <= v@.len(),
    ensures
        s@ == v@.subrange(from as int, to as int),
{
    let mut s = String::new();
    let mut i: usize = from;
    while i < to
        invariant
            from <= i <= to <= v@.len(),
            s@ =~= v@.subrange(from as int, i as int),
        decreases to - i,
    {
        s.push(v[i]);
        i += 1;
    }
    s
}

/// The decimal digit `d` as a character.
pub open spec fn digit(d: nat) -> char {
    (48 + d) as u8 as char
}

/// The decimal notation of a number, without leading zeros.
pub open spec fn dec(n: nat) -> Seq<char>
    decreases n,
{
    if n < 10 {
        seq![digit(n)]
    } else {
        dec(n / 10).push(digit(n % 10))
    }
}

/// The decimal notation of a number.
pub fn decimal(n: u64) -> (s: String)
    ensures
        s@ == dec(n as nat),
    decreases n,
{
    let d: u8 = 48 + (n % 10) as u8;
    if n < 10 {
        let mut s = String::new();
        s.push(d as char);
        assert(s@ =~= dec(n as nat));
        s
    } else {
        let mut s = decimal(n / 10);
        s.push(d as char);
        s
    }
}

/// `s` with `fill` put in front of it until it is `width` characters long.
pub open spec fn padded(s: Seq<char>, width: nat, fill: char) -> Seq<char> {
    if s.len() >= width {
        s
    } else {
        Seq::new((width - s.len()) as nat, |i: int| fill) + s
    }
}

/// Pads a string on the left.
pub fn pad_left(s: &str, width: usize, fill: char) -> (r: String)
    ensures
        r@ == padded(s@, width as nat, fill),
{
    let n: usize = s.unicode_len();
    let mut r = String::new();
    if n < width {
        let mut i: usize = 0;
        let gap: usize = width - n;
        while i < gap
            invariant
                i <= gap,
                r@ =~= Seq::new(i as nat, |k: int| fill),
            decreases gap - i,
        {
            r.push(fill);
            i += 1;
        }
    }
    r.append(s);
    assert(r@ =~= padded(s@, width as nat, fill));
    r
}

/// Whether a character is a decimal digit.
pub open spec fn is_digit(c: char) -> bool {
    48 <= c as u32 <= 57
}

/// The number that a row of decimal digits denotes.
pub open spec fn digits_value(s: Seq<char>) -> nat
    decreases s.len(),
{
    if s.len() == 0 {
        0
    } else {
        10 * digits_value(s.drop_last()) + (s.last() as u32 - 48) as nat
    }
}

/// Whether a text is a row of at least one decimal digit.
pub open spec fn all_digits(s: Seq<char>) -> bool {
    s.len() > 0 && forall|i: int| 0 <= i < s.len() ==> is_digit(#[trigger] s[i])
}

/// The number below `2^32` that a text denotes: digits behind an optional plus sign.
pub open spec fn parsed_u32(s: Seq<char>) -> Option<u32> {
    let d = if s.len() > 0 && s[0] == '+' {
        s.skip(1)
    } else {
        s
    };
    if all_digits(d) && digits_value(d) <= u32::MAX {
        Some(digits_value(d) as u32)
    } else {
        None
    }
}

proof fn lemma_digits_prefix(s: Seq<char>, n: int)
    requires
        0 <= n <= s.len(),
    ensures
        digits_value(s.take(n)) <= digits_value(s),
    decreases s.len(),
{
    if n < s.len() {
        lemma_digits_prefix(s.drop_last(), n);
        assert(s.drop_last().take(n) =~= s.take(n));
    } else {
        assert(s.take(n) =~= s);
    }
}

/// Reads a number below `2^32`.
pub fn read_u32(s: &str) -> (r: Option<u32>)
    ensures
        r == parsed_u32(s@),
{
    let v = chars_of(s);
    let start: usize = if v.len() > 0 && v[0] == '+' {
        1
    } else {
        0
    };
    let ghost d = v@.skip(start as int);
    assert(v@.skip(0) =~= v@);
    if v.len() == start {
        return None;
    }
    let mut value: u32 = 0;
    let mut i: usize = start;
    while i < v.len()
        invariant
            start <= i <= v@.len(),
            d == v@.skip(start as int),
            d.len() > 0,
            parsed_u32(s@) == if all_digits(d) && digits_value(d) <= u32::MAX {
                Some(digits_value(d) as u32)
            } else {
                None
            },
            forall|k: int| 0 <= k < i - start ==> is_digit(#[trigger] d[k]),
            value == digits_value(d.take(i - start)),
        decreases v@.len() - i,
    {
        let u = v[i] as u32;
        assert(d[i - start] == v@[i as int]);
        if u < 48 || u > 57 {
            return None;
        }
        let next: u64 = value as u64 * 10 + (u - 48) as u64;
        proof {
            let t = d.take(i - start + 1);
            assert(t.drop_last() =~= d.take(i - start));
            assert(next == digits_value(t));
            lemma_digits_prefix(d, i - start + 1);
        }
        if next > u32::MAX as u64 {
            return None;
        }
        value = next as u32;
        i += 1;
    }
    assert(d.take(d.len() as int) =~= d);
    Some(value)
}

/// Reading the decimal notation of a number gives the number back.
pub proof fn lemma_dec_round_trip(n: nat)
    ensures
        all_digits(dec(n)),
        digits_value(dec(n)) == n,
    decreases n,
{
    if n < 10 {
        let s = dec(n);
        assert(s.drop_last() =~= Seq::<char>::empty());
        assert(s.last() == digit(n));
        assert(digits_value(s.drop_last()) == 0);
    } else {
        lemma_dec_round_trip(n / 10);
        let s = dec(n);
        assert(s.drop_last() =~= dec(n / 10));
        assert forall|i: int| 0 <= i < s.len() implies is_digit(#[trigger] s[i]) by {
            if i < s.len() - 1 {
                assert(s[i] == dec(n / 10)[i]);
            }
        }
    }
}

/// The longest beginning of `s` whose UTF-8 encoding fits into `max` bytes.
pub open spec fn byte_prefix(s: Seq<char>, max: nat) -> Seq<char>
    decreases s.len(),
{
    if encode_utf8(s).len() <= max || s.len() == 0 {
        s
    } else {
        byte_prefix(s.drop_last(), max)
    }
}

/// The encoding of a text with one more character at its end.
pub proof fn lemma_encode_push(s: Seq<char>, c: char)
    ensures
        encode_utf8(s.push(c)) == encode_utf8(s) + encode_scalar(c as u32),
    decreases s.len(),
{
    let t = s.push(c);
    if s.len() == 0 {
        assert(t.drop_first() =~= Seq::empty());
        assert(encode_utf8(t.drop_first()) =~= Seq::empty());
        assert(encode_utf8(t) =~= encode_utf8(s) + encode_scalar(c as u32));
    } else {
        assert(t.drop_first() =~= s.drop_first().push(c));
        lemma_encode_push(s.drop_first(), c);
        assert(encode_utf8(t) =~= encode_utf8(s) + encode_scalar(c as u32));
    }
}

proof fn lemma_encode_grows(s: Seq<char>, i: int, j: int)
    requires
        0 <= i <= j <= s.len(),
    ensures
        encode_utf8(s.take(i)).len() <= encode_utf8(s.take(j)).len(),
    decreases j - i,
{
    if i < j {
        lemma_encode_grows(s, i, j - 1);
        assert(s.take(j) =~= s.take(j - 1).push(s[j - 1]));
        lemma_encode_push(s.take(j - 1), s[j - 1]);
    }
}

proof fn lemma_byte_prefix(s: Seq<char>, n: int, max: nat)
    requires
        0 <= n <= s.len(),
        encode_utf8(s.take(n)).len() <= max,
        n < s.len() ==> encode_utf8(s.take(n + 1)).len() > max,
    ensures
        byte_prefix(s, max) == s.take(n),
    decreases s.len(),
{
    if n == s.len() {
        assert(s.take(n) =~= s);
    } else {
        lemma_encode_grows(s, n + 1, s.len() as int);
        assert(s.take(s.len() as int) =~= s);
        let d = s.drop_last();
        assert(d.take(n) =~= s.take(n));
        if n < d.len() {
            assert(d.take(n + 1) =~= s.take(n + 1));
        }
        lemma_byte_prefix(d, n, max);
    }
}

/// The number of bytes of a character's UTF-8 encoding.
fn utf8_width(c: char) -> (w: usize)
    ensures
        w == encode_scalar(c as u32).len(),
        1 <= w <= 4,
{
    proof {
        char_is_scalar(c);
    }
    let u = c as u32;
    if u < 0x80 {
        1
    } else if u < 0x800 {
        2
    } else if u < 0x10000 {
        3
    } else {
        4
    }
}

/// The longest beginning of a text that fits into `max` bytes.
pub fn truncate_str(s: &str, max_bytes: usize) -> (r: &str)
    ensures
        r@ == byte_prefix(s@, max_bytes as nat),
{
    let mut used: usize = 0;
    let mut n: usize = 0;
    let v = chars_of(s);
    assert(s@.take(0) =~= Seq::empty());
    while n < v.len()
        invariant
            n <= v@.len(),
            v@ == s@,
            used <= max_bytes,
            used == encode_utf8(s@.take(n as int)).len(),
        decreases v@.len() - n,
    {
        let w: usize = utf8_width(v[n]);
        proof {
            assert(s@.take(n + 1) =~= s@.take(n as int).push(s@[n as int]));
            lemma_encode_push(s@.take(n as int), s@[n as int]);
        }
        if w > max_bytes - used {
            proof {
                lemma_byte_prefix(s@, n as int, max_bytes as nat);
            }
            assert(s@.subrange(0, n as int) =~= s@.take(n as int));
            return s.substring_char(0, n);
        }
        used += w;
        n += 1;
    }
    proof {
        lemma_byte_prefix(s@, n as int, max_bytes as nat);
        assert(s@.take(n as int) =~= s@);
    }
    s
}

/// A truncated text is a beginning of the text and keeps to its limit.
pub proof fn law_truncation_fits(s: Seq<char>, max: nat)
    ensures
        byte_prefix(s, max).is_prefix_of(s),
        encode_utf8(byte_prefix(s, max)).len() <= max,
        encode_utf8(s).len() <= max ==> byte_prefix(s, max) == s,
    decreases s.len(),
{
    if encode_utf8(s).len() > max && s.len() > 0 {
        law_truncation_fits(s.drop_last(), max);
    }
}

/// A text that is cut is cut no earlier than it has to be: with one character
/// more it would not fit.
pub proof fn law_truncation_cuts_as_little_as_it_can(s: Seq<char>, max: nat)
    ensures
        byte_prefix(s, max).len() < s.len() ==> encode_utf8(
            s.take(byte_prefix(s, max).len() as int + 1),
        ).len() > max,
    decreases s.len(),
{
    if encode_utf8(s).len() > max && s.len() > 0 {
        let d = s.drop_last();
        law_truncation_cuts_as_little_as_it_can(d, max);
        law_truncation_fits(d, max);
        let n = byte_prefix(s, max).len() as int;
        if n < d.len() {
            assert(d.take(n + 1) =~= s.take(n + 1));
        } else {
            assert(s.take(n + 1) =~= s);
        }
    }
}

/// A padded text has at least the width, ends in the text, and has nothing but
/// the fill character before it.
pub proof fn law_padding_fills_the_width(s: Seq<char>, width: nat, fill: char)
    ensures
        padded(s, width, fill).len() == (if s.len() >= width {
            s.len()
        } else {
            width
        }),
        padded(s, width, fill).skip(padded(s, width, fill).len() - s.len()) == s,
        forall|i: int|
            0 <= i < padded(s, width, fill).len() - s.len() ==> #[trigger] padded(
                s,
                width,
                fill,
            )[i] == fill,
{
    let p = padded(s, width, fill);
    assert(p.skip(p.len() - s.len()) =~= s);
}

/// Different numbers have different notations, and only zero begins with a zero.
pub proof fn law_decimal_notation(a: nat, b: nat)
    ensures
        dec(a) == dec(b) ==> a == b,
        a > 0 ==> dec(a)[0] != '0',
        dec(a).len() > 0,
    decreases a,
{
    lemma_dec_round_trip(a);
    lemma_dec_round_trip(b);
    if a >= 10 {
        law_decimal_notation(a / 10, 0);
        assert(dec(a)[0] == dec(a / 10)[0]);
    }
}

/// A number is read from its digits, with or without a plus sign before them;
/// what is longer by a digit is ten times as much and the digit.
pub proof fn law_numbers_are_read_from_their_digits(s: Seq<char>, c: char, n: nat)
    ensures
        n <= u32::MAX ==> parsed_u32(dec(n)) == Some(n as u32),
        n <= u32::MAX ==> parsed_u32(seq!['+'] + dec(n)) == Some(n as u32),
        n > u32::MAX ==> parsed_u32(dec(n)) is None,
        parsed_u32(Seq::empty()) is None,
        is_digit(c) ==> digits_value(s.push(c)) == 10 * digits_value(s) + (c as u32 - '0' as u32),
        !is_digit(c) && c != '+' ==> parsed_u32(s.push(c)) is None,
{
    lemma_dec_round_trip(n);
    let d = dec(n);
    assert(is_digit(d[0]));
    assert((seq!['+'] + d).skip(1) =~= d);
    let t = s.push(c);
    assert(t.drop_last() =~= s);
    assert(t.last() == c);
    if !is_digit(c) && c != '+' {
        let r = if t[0] == '+' {
            t.skip(1)
        } else {
            t
        };
        if all_digits(r) {
            assert(r[r.len() - 1] == c);
        }
    }
}

} // verus!
