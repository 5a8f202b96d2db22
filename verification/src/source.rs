//! The agent's view of its own source code: reading, editing by line ranges,
//! and searching.

use crate::gitignore::{
    ignore_lines, only_comments, rules_error, rules_of, without_dot, IgnoreRules, Rules,
};
use crate::paths::{join, joined};
use crate::scan::{
    comes_before, contains_text, has_part, join_with, joined_with, law_parts_are_found,
    lemma_text_order, text_less,
};
use crate::split::{
    find_char, find_from, law_pieces_of_both_sides, law_pieces_stand_between_separators, lemma_find_from, lemma_find_skip,
    lemma_texts_push, lines, lines_of, pieces, split_char, texts, trim, trim_end, trim_right,
    trimmed,
};
use crate::text::{byte_prefix, chars_of, dec, decimal, pad_left, padded, str_eq, string_from, truncate_str};
use crate::version::{is_preserved, opt_text, preserves};
use vstd::prelude::*;
use vstd::string::*;
use vstd::utf8::encode_utf8;

verus! {

/// The bytes of a diff that are shown.
pub const MAX_DIFF_LENGTH: usize = 8000;

/// The bytes of a line that a search shows.
pub const MAX_SEARCH_LINE_LENGTH: usize = 300;

/// The unified diff between two texts, with three lines of context and the
/// names `original` and `updated`.
pub uninterp spec fn unified_diff(original: Seq<char>, updated: Seq<char>) -> Seq<char>;

/// `similar::TextDiff::from_lines` and its unified diff.
#[verifier::external_body]
fn diff_lines(original: &str, updated: &str) -> (d: String)
    ensures
        d@ == unified_diff(original@, updated@),
{
    similar::TextDiff::from_lines(original, updated)
        .unified_diff()
        .context_radius(3)
        .header("original", "updated")
        .to_string()
}

/// A text, cut at a limit with a note where it is longer.
pub open spec fn ellipsized(s: Seq<char>, max: nat) -> Seq<char> {
    if encode_utf8(s).len() <= max {
        s
    } else {
        byte_prefix(s, max) + "...(diff truncated)"@
    }
}

/// Cuts a text at a limit.
pub fn truncate_with_ellipsis(s: &str, max_bytes: usize) -> (r: String)
    ensures
        r@ == ellipsized(s@, max_bytes as nat),
{
    let cut = truncate_str(s, max_bytes);
    proof {
        crate::text::law_truncation_fits(s@, max_bytes as nat);
    }
    if str_eq(cut, s) {
        return s.to_owned();
    }
    let mut r = cut.to_owned();
    r.append("...(diff truncated)");
    r
}

/// What is shown of the difference between two texts.
pub fn summarize_diff(original: &str, updated: &str) -> (r: String)
    ensures
        r@ == ellipsized(trimmed(unified_diff(original@, updated@)), MAX_DIFF_LENGTH as nat),
{
    show_diff(diff_lines(original, updated).as_str())
}

/// What is shown of a diff.
pub fn show_diff(diff: &str) -> (r: String)
    ensures
        r@ == ellipsized(trimmed(diff@), MAX_DIFF_LENGTH as nat),
{
    truncate_with_ellipsis(trim(diff).as_str(), MAX_DIFF_LENGTH)
}

/// What a write has changed.
#[derive(Debug, Clone)]
pub struct WriteReport {
    pub path: String,
    pub range: Option<(usize, usize)>,
    pub diff: String,
}

impl WriteReport {
    pub fn summary(&self) -> (s: String)
        ensures
            s@ == (match self.range {
                Some(r) => "Updated "@ + self.path@ + " (lines "@ + dec(r.0 as nat) + "-"@ + dec(
                    r.1 as nat,
                ) + ").\n"@,
                None => "Updated "@ + self.path@ + ".\n"@,
            }) + self.diff@,
    {
        let mut s = "Updated ".to_owned();
        s.append(self.path.as_str());
        match self.range {
            Some((start, end)) => {
                s.append(" (lines ");
                s.append(decimal(start as u64).as_str());
                s.append("-");
                s.append(decimal(end as u64).as_str());
                s.append(").\n");
            },
            None => {
                s.append(".\n");
            },
        }
        s.append(self.diff.as_str());
        s
    }
}

/// The lines of a text with their line ends.
pub open spec fn full_lines(s: Seq<char>) -> Seq<Seq<char>>
    decreases s.len(),
    via full_lines_decreases
{
    if s.len() == 0 {
        Seq::empty()
    } else {
        let i = find_from(s, '\n', 0);
        if i >= s.len() {
            seq![s]
        } else {
            seq![s.take(i + 1)] + full_lines(s.skip(i + 1))
        }
    }
}

#[via_fn]
proof fn full_lines_decreases(s: Seq<char>) {
    lemma_find_from(s, '\n', 0);
}

/// Texts one behind the other.
pub open spec fn concat(parts: Seq<Seq<char>>) -> Seq<char>
    decreases parts.len(),
{
    if parts.len() == 0 {
        Seq::empty()
    } else {
        concat(parts.drop_last()) + parts.last()
    }
}

/// The lines of a text with their line ends.
pub fn line_spans(s: &str) -> (r: Vec<String>)
    ensures
        texts(r@) == full_lines(s@),
{
    let v = chars_of(s);
    let mut r: Vec<String> = Vec::new();
    let mut at: usize = 0;
    assert(v@.skip(0) =~= v@);
    assert(texts(r@) + full_lines(v@.skip(0)) =~= full_lines(s@));
    while at < v.len()
        invariant
            at <= v@.len(),
            v@ == s@,
            texts(r@) + full_lines(v@.skip(at as int)) == full_lines(s@),
        decreases v@.len() - at,
    {
        let i: usize = find_char(&v, '\n', at);
        let end: usize = if i < v.len() {
            i + 1
        } else {
            i
        };
        let ghost rest = v@.skip(at as int);
        let ghost before = texts(r@);
        let line = string_from(&v, at, end);
        proof {
            lemma_find_skip(v@, '\n', at as int, at as int);
            assert(find_from(rest, '\n', 0) == i - at);
            lemma_texts_push(r@, line);
            if i < v@.len() {
                assert(line@ =~= rest.take(i - at + 1));
                assert(rest.skip(i - at + 1) =~= v@.skip(end as int));
            } else {
                assert(line@ =~= rest);
                assert(v@.skip(end as int).len() == 0);
            }
        }
        r.push(line);
        at = end;
        assert(texts(r@) + full_lines(v@.skip(at as int)) =~= before + full_lines(rest));
    }
    assert(v@.skip(at as int).len() == 0);
    assert(texts(r@) =~= full_lines(s@));
    r
}

/// Why a line range cannot be edited, if it cannot. One line past the end
/// stands for appending.
pub open spec fn edit_error(count: nat, start: nat, end: nat) -> Option<Seq<char>> {
    if start == 0 || end == 0 {
        Some("Line numbers must start at 1."@)
    } else if end < start {
        Some(
            "Invalid range: end_line ("@ + dec(end) + ") must be >= start_line ("@ + dec(start)
                + ")."@,
        )
    } else if start > count + 1 {
        Some(
            "Cannot edit lines "@ + dec(start) + "-"@ + dec(end) + ": file has "@ + dec(count)
                + " lines. Use start_line=end_line="@ + dec(count + 1) + " to append."@,
        )
    } else if start == count + 1 && end != start {
        Some(
            "When appending at end, set start_line=end_line="@ + dec(count + 1) + " (file has "@
                + dec(count) + ")."@,
        )
    } else if start <= count && end > count {
        Some(
            "end_line "@ + dec(end) + " exceeds file length "@ + dec(count) + ". Use "@ + dec(
                count + 1,
            ) + " to append at end."@,
        )
    } else {
        None
    }
}

/// The text with the lines from `start` to `end` replaced, or with the
/// replacement appended.
pub open spec fn edited(
    original: Seq<char>,
    replacement: Seq<char>,
    start: int,
    end: int,
) -> Seq<char> {
    let all = full_lines(original);
    if start == all.len() + 1 {
        original + replacement
    } else {
        concat(all.take(start - 1)) + replacement + concat(all.skip(end))
    }
}

fn say3(a: &str, n: usize, b: &str, m: usize, c: &str) -> (s: String)
    ensures
        s@ == a@ + dec(n as nat) + b@ + dec(m as nat) + c@,
{
    let mut s = a.to_owned();
    s.append(decimal(n as u64).as_str());
    s.append(b);
    s.append(decimal(m as u64).as_str());
    s.append(c);
    s
}

fn concat_range(all: &Vec<String>, from: usize, to: usize) -> (r: String)
    requires
        from <= to <= all@.len(),
    ensures
        r@ == concat(texts(all@).subrange(from as int, to as int)),
{
    let ghost t = texts(all@);
    let mut r = String::new();
    let mut i: usize = from;
    assert(t.subrange(from as int, from as int).len() == 0);
    while i < to
        invariant
            from <= i <= to <= all@.len(),
            t == texts(all@),
            r@ == concat(t.subrange(from as int, i as int)),
        decreases to - i,
    {
        assert(t.subrange(from as int, i + 1).drop_last() =~= t.subrange(from as int, i as int));
        r.append(all[i].as_str());
        i += 1;
    }
    r
}

/// Replaces a range of lines, counted from 1 and with its end, or appends.
pub fn apply_line_range_edit(
    original: &str,
    replacement: &str,
    start_line: usize,
    end_line: usize,
) -> (r: Result<String, String>)
    ensures
        (match edit_error(full_lines(original@).len(), start_line as nat, end_line as nat) {
            Some(e) => r is Err && r->Err_0@ == e,
            None => r is Ok && r->Ok_0@ == edited(
                original@,
                replacement@,
                start_line as int,
                end_line as int,
            ),
        }),
{
    if start_line == 0 || end_line == 0 {
        return Err("Line numbers must start at 1.".to_owned());
    }
    if end_line < start_line {
        return Err(
            say3(
                "Invalid range: end_line (",
                end_line,
                ") must be >= start_line (",
                start_line,
                ").",
            ),
        );
    }
    let all = line_spans(original);
    let count: usize = all.len();
    assert(texts(all@).len() == count);
    let append = start_line - 1 == count;
    if start_line - 1 > count {
        let mut m = say3("Cannot edit lines ", start_line, "-", end_line, ": file has ");
        m.append(decimal(count as u64).as_str());
        m.append(" lines. Use start_line=end_line=");
        m.append(decimal(count as u64 + 1).as_str());
        m.append(" to append.");
        return Err(m);
    }
    if append && end_line != start_line {
        return Err(
            say3(
                "When appending at end, set start_line=end_line=",
                start_line,
                " (file has ",
                count,
                ").",
            ),
        );
    }
    if !append && end_line > count {
        let mut m = say3("end_line ", end_line, " exceeds file length ", count, ". Use ");
        m.append(decimal(count as u64 + 1).as_str());
        m.append(" to append at end.");
        return Err(m);
    }
    if append {
        let mut r = original.to_owned();
        r.append(replacement);
        return Ok(r);
    }
    let ghost t = texts(all@);
    let mut r = concat_range(&all, 0, start_line - 1);
    r.append(replacement);
    r.append(concat_range(&all, end_line, count).as_str());
    assert(t.subrange(0, start_line - 1) =~= t.take(start_line - 1));
    assert(t.subrange(end_line as int, count as int) =~= t.skip(end_line as int));
    Ok(r)
}

/// Where a name goes in a sorted list: behind every name that does not come after it.
pub open spec fn text_position(sorted: Seq<Seq<char>>, name: Seq<char>) -> int
    decreases sorted.len(),
{
    if sorted.len() == 0 || !text_less(name, sorted.last()) {
        sorted.len() as int
    } else {
        text_position(sorted.drop_last(), name)
    }
}

/// The names in their order.
pub open spec fn sorted_texts(names: Seq<Seq<char>>) -> Seq<Seq<char>>
    decreases names.len(),
{
    if names.len() == 0 {
        Seq::empty()
    } else {
        let before = sorted_texts(names.drop_last());
        before.insert(text_position(before, names.last()), names.last())
    }
}

proof fn lemma_text_position_prefix(sorted: Seq<Seq<char>>, name: Seq<char>, n: int)
    requires
        0 <= n <= sorted.len(),
        forall|i: int| n <= i < sorted.len() ==> text_less(name, #[trigger] sorted[i]),
    ensures
        text_position(sorted, name) == text_position(sorted.take(n), name),
    decreases sorted.len(),
{
    if n < sorted.len() {
        let d = sorted.drop_last();
        assert(text_less(name, sorted[sorted.len() - 1]));
        assert forall|i: int| n <= i < d.len() implies text_less(name, #[trigger] d[i]) by {
            assert(d[i] == sorted[i]);
        }
        lemma_text_position_prefix(d, name, n);
        assert(d.take(n) =~= sorted.take(n));
    } else {
        assert(sorted.take(n) =~= sorted);
    }
}

/// Sorts names.
pub fn sort_texts(names: &Vec<String>) -> (r: Vec<String>)
    ensures
        texts(r@) == sorted_texts(texts(names@)),
{
    let ghost all = texts(names@);
    let mut r: Vec<String> = Vec::new();
    let mut i: usize = 0;
    assert(texts(r@) =~= sorted_texts(all.take(0)));
    while i < names.len()
        invariant
            i <= names@.len(),
            all == texts(names@),
            texts(r@) == sorted_texts(all.take(i as int)),
        decreases names@.len() - i,
    {
        assert(all.take(i + 1).drop_last() =~= all.take(i as int));
        assert(all.take(i + 1).last() == names@[i as int]@);
        let name = names[i].as_str();
        let ghost t = texts(r@);
        let mut at: usize = r.len();
        while at > 0
            invariant_except_break
                at <= r@.len(),
                t == texts(r@),
                forall|k: int| at <= k < t.len() ==> text_less(name@, #[trigger] t[k]),
            ensures
                at <= r@.len(),
                t == texts(r@),
                forall|k: int| at <= k < t.len() ==> text_less(name@, #[trigger] t[k]),
                at == 0 || !text_less(name@, t[at - 1]),
            decreases at,
        {
            assert(t[at - 1] == r@[at - 1]@);
            if !comes_before(name, r[at - 1].as_str()) {
                break;
            }
            at -= 1;
        }
        proof {
            lemma_text_position_prefix(t, name@, at as int);
            if at > 0 {
                assert(t.take(at as int).last() == t[at - 1]);
            }
        }
        r.insert(at, name.to_owned());
        assert(texts(r@) =~= t.insert(at as int, name@));
        i += 1;
    }
    assert(all.take(names@.len() as int) =~= all);
    r
}

/// What is found under a path.
pub enum Found {
    Missing,
    /// A directory, with every file below it by its path from the root.
    Directory(Vec<String>),
    File(String),
    /// A file that cannot be read, and why.
    Unreadable(String),
}

/// The names that a path is made of.
pub open spec fn components(path: Seq<char>) -> Seq<Seq<char>> {
    pieces(path, '/').filter(|c: Seq<char>| c.len() > 0 && c != "."@)
}

/// Whether a path is absolute.
pub open spec fn absolute(path: Seq<char>) -> bool {
    path.len() > 0 && path[0] == '/'
}

/// Where names lead, one after the other: `..` takes back the name before it.
/// Above the root of all directories there is nothing; above the start of a
/// relative path `..` stands.
pub open spec fn walked_to(from_root: bool, names: Seq<Seq<char>>) -> Seq<Seq<char>>
    decreases names.len(),
{
    if names.len() == 0 {
        Seq::empty()
    } else {
        let before = walked_to(from_root, names.drop_last());
        if names.last() != ".."@ {
            before.push(names.last())
        } else if before.len() > 0 && before.last() != ".."@ {
            before.drop_last()
        } else if from_root {
            before
        } else {
            before.push(".."@)
        }
    }
}

/// The names of a path that stand behind the root: all of a relative one, and
/// those of an absolute one that follow the root's.
pub open spec fn names_behind(root: Seq<char>, path: Seq<char>) -> Seq<Seq<char>> {
    if absolute(path) {
        components(path).skip(components(root).len() as int)
    } else {
        components(path)
    }
}

/// Where a path, taken from a root, leads by its names.
pub open spec fn leads_to(root: Seq<char>, path: Seq<char>) -> Seq<Seq<char>> {
    walked_to(absolute(root), components(root) + names_behind(root, path))
}

/// Whether a path, taken from a root, leads below the root by its names. An
/// absolute one has to begin with the root. One that climbs out by `..` has to
/// come back in.
pub open spec fn stays_below(root: Seq<char>, path: Seq<char>) -> bool {
    &&& absolute(path) ==> absolute(root) && components(root).is_prefix_of(components(path))
    &&& walked_to(absolute(root), components(root)).is_prefix_of(leads_to(root, path))
}

fn is_absolute(path: &str) -> (b: bool)
    ensures
        b == absolute(path@),
{
    path.unicode_len() > 0 && path.get_char(0) == '/'
}

fn components_of(path: &str) -> (r: Vec<String>)
    ensures
        texts(r@) == components(path@),
{
    let all = split_char(path, '/');
    let ghost a = texts(all@);
    let mut r: Vec<String> = Vec::new();
    let mut i: usize = 0;
    proof {
        reveal(Seq::filter);
        assert(texts(r@) =~= a.take(0).filter(|c: Seq<char>| c.len() > 0 && c != "."@));
    }
    while i < all.len()
        invariant
            i <= all@.len(),
            a == texts(all@),
            texts(r@) == a.take(i as int).filter(|c: Seq<char>| c.len() > 0 && c != "."@),
        decreases all@.len() - i,
    {
        proof {
            reveal(Seq::filter);
            assert(a.take(i + 1).drop_last() =~= a.take(i as int));
            assert(a.take(i + 1).last() == all@[i as int]@);
        }
        if all[i].as_str().unicode_len() > 0 && !str_eq(all[i].as_str(), ".") {
            let c = all[i].clone();
            proof {
                lemma_texts_push(r@, c);
            }
            r.push(c);
        }
        i += 1;
    }
    assert(a.take(all@.len() as int) =~= a);
    r
}

/// Where names lead.
fn walk(from_root: bool, names: &Vec<String>) -> (r: Vec<String>)
    ensures
        texts(r@) == walked_to(from_root, texts(names@)),
{
    let ghost t = texts(names@);
    let mut r: Vec<String> = Vec::new();
    let mut i: usize = 0;
    assert(texts(r@) =~= walked_to(from_root, t.take(0)));
    while i < names.len()
        invariant
            i <= names@.len(),
            t == texts(names@),
            texts(r@) == walked_to(from_root, t.take(i as int)),
        decreases names@.len() - i,
    {
        let ghost before = texts(r@);
        proof {
            assert(t.take(i + 1).drop_last() =~= t.take(i as int));
            assert(t.take(i + 1).last() == names@[i as int]@);
            assert(before.len() == r@.len());
            if r@.len() > 0 {
                assert(before.last() == r@[r@.len() - 1]@);
            }
        }
        let up = str_eq(names[i].as_str(), "..");
        if up && r.len() > 0 && !str_eq(r[r.len() - 1].as_str(), "..") {
            let _ = r.pop();
            assert(texts(r@) =~= before.drop_last());
        } else if !up || !from_root {
            let name = names[i].clone();
            proof {
                lemma_texts_push(r@, name);
            }
            r.push(name);
        }
        i += 1;
    }
    assert(t.take(names@.len() as int) =~= t);
    r
}

/// Whether a list of names begins with another one.
fn begins_with(all: &Vec<String>, start: &Vec<String>) -> (b: bool)
    ensures
        b == texts(start@).is_prefix_of(texts(all@)),
{
    let ghost ta = texts(start@);
    let ghost tb = texts(all@);
    if start.len() > all.len() {
        assert(ta.len() > tb.len());
        return false;
    }
    let mut i: usize = 0;
    while i < start.len()
        invariant
            i <= start@.len() <= all@.len(),
            ta == texts(start@),
            tb == texts(all@),
            forall|k: int| 0 <= k < i ==> #[trigger] ta[k] == tb[k],
        decreases start@.len() - i,
    {
        assert(ta[i as int] == start@[i as int]@ && tb[i as int] == all@[i as int]@);
        if !str_eq(start[i].as_str(), all[i].as_str()) {
            assert(tb.subrange(0, ta.len() as int)[i as int] == tb[i as int]);
            return false;
        }
        i += 1;
    }
    assert(ta =~= tb.subrange(0, ta.len() as int));
    true
}

/// The names of a root with those of a path, from the `from`-th on, behind them.
fn names_with(root: &Vec<String>, path: &Vec<String>, from: usize) -> (r: Vec<String>)
    requires
        from <= path@.len(),
    ensures
        texts(r@) == texts(root@) + texts(path@).skip(from as int),
{
    let ghost a = texts(root@);
    let ghost b = texts(path@).skip(from as int);
    let mut r: Vec<String> = Vec::new();
    let mut i: usize = 0;
    assert(texts(r@) =~= a.take(0));
    while i < root.len()
        invariant
            i <= root@.len(),
            a == texts(root@),
            texts(r@) == a.take(i as int),
        decreases root@.len() - i,
    {
        let name = root[i].clone();
        proof {
            lemma_texts_push(r@, name);
            assert(a.take(i + 1) =~= a.take(i as int).push(name@));
        }
        r.push(name);
        i += 1;
    }
    let mut k: usize = from;
    assert(texts(r@) =~= a + b.take(0));
    while k < path.len()
        invariant
            from <= k <= path@.len(),
            b == texts(path@).skip(from as int),
            texts(r@) == a + b.take(k - from),
        decreases path@.len() - k,
    {
        let name = path[k].clone();
        proof {
            lemma_texts_push(r@, name);
            assert(a + b.take(k - from + 1) =~= (a + b.take(k - from)).push(name@));
        }
        r.push(name);
        k += 1;
    }
    assert(b.take(path@.len() - from) =~= b);
    r
}

fn leads_below(root: &str, path: &str) -> (b: bool)
    ensures
        b == stays_below(root@, path@),
{
    let a = components_of(root);
    let b = components_of(path);
    let from_root = is_absolute(root);
    assert(texts(a@).len() == a@.len() && texts(b@).len() == b@.len());
    let from: usize = if is_absolute(path) {
        if !from_root || !begins_with(&b, &a) {
            return false;
        }
        a.len()
    } else {
        0
    };
    let all = names_with(&a, &b, from);
    assert(texts(b@).skip(0) =~= texts(b@));
    begins_with(&walk(from_root, &all), &walk(from_root, &a))
}

/// Whether a file is listed of a directory, given how many names lead to the
/// directory: none of the names behind these is left alone.
pub open spec fn is_listed(leading: nat, file: Seq<char>) -> bool {
    forall|i: int|
        leading <= i < components(file).len() ==> !is_preserved(#[trigger] components(file)[i])
}

/// The files that are listed, each once.
pub open spec fn listed(leading: nat, files: Seq<Seq<char>>) -> Seq<Seq<char>>
    decreases files.len(),
{
    if files.len() == 0 {
        Seq::empty()
    } else {
        let before = listed(leading, files.drop_last());
        if is_listed(leading, files.last()) && !before.contains(files.last()) {
            before.push(files.last())
        } else {
            before
        }
    }
}

/// The listing of a directory, given the files found below it by their paths
/// from the root: in their order, each once, without those that are in a
/// directory that is left alone.
pub open spec fn listing_of(root: Seq<char>, path: Seq<char>, files: Seq<Seq<char>>) -> Seq<
    Seq<char>,
> {
    sorted_texts(listed(names_behind(root, path).len(), files))
}

fn lists(leading: usize, file: &str) -> (b: bool)
    ensures
        b == is_listed(leading as nat, file@),
{
    let names = components_of(file);
    let ghost t = texts(names@);
    let mut i: usize = leading;
    while i < names.len()
        invariant
            leading <= i,
            t == texts(names@),
            t == components(file@),
            forall|k: int| leading <= k < i && k < t.len() ==> !is_preserved(#[trigger] t[k]),
        decreases names@.len() - i,
    {
        assert(t[i as int] == names@[i as int]@);
        if preserves(names[i].as_str()) {
            return false;
        }
        i += 1;
    }
    true
}

fn holds(all: &Vec<String>, name: &str) -> (b: bool)
    ensures
        b == texts(all@).contains(name@),
{
    let ghost t = texts(all@);
    let mut i: usize = 0;
    while i < all.len()
        invariant
            i <= all@.len(),
            t == texts(all@),
            forall|k: int| 0 <= k < i ==> #[trigger] t[k] != name@,
        decreases all@.len() - i,
    {
        assert(t[i as int] == all@[i as int]@);
        if str_eq(all[i].as_str(), name) {
            return true;
        }
        i += 1;
    }
    false
}

fn count_behind(root: &str, path: &str) -> (n: usize)
    requires
        stays_below(root@, path@),
    ensures
        n == names_behind(root@, path@).len(),
{
    let b = components_of(path);
    assert(texts(b@).len() == b@.len());
    if is_absolute(path) {
        let a = components_of(root);
        assert(texts(a@).len() == a@.len());
        b.len() - a.len()
    } else {
        b.len()
    }
}

/// Lists a directory.
fn list_directory(root: &str, path: &str, files: &Vec<String>) -> (r: Vec<String>)
    requires
        stays_below(root@, path@),
    ensures
        texts(r@) == listing_of(root@, path@, texts(files@)),
{
    let leading = count_behind(root, path);
    let ghost all = texts(files@);
    let mut r: Vec<String> = Vec::new();
    let mut i: usize = 0;
    assert(texts(r@) =~= listed(leading as nat, all.take(0)));
    while i < files.len()
        invariant
            i <= files@.len(),
            all == texts(files@),
            texts(r@) == listed(leading as nat, all.take(i as int)),
        decreases files@.len() - i,
    {
        proof {
            assert(all.take(i + 1).drop_last() =~= all.take(i as int));
            assert(all.take(i + 1).last() == files@[i as int]@);
        }
        if lists(leading, files[i].as_str()) && !holds(&r, files[i].as_str()) {
            let f = files[i].clone();
            proof {
                lemma_texts_push(r@, f);
            }
            r.push(f);
        }
        i += 1;
    }
    assert(all.take(files@.len() as int) =~= all);
    sort_texts(&r)
}

/// The names of files, each on an indented line of its own.
pub open spec fn indented(files: Seq<Seq<char>>) -> Seq<char>
    decreases files.len(),
{
    if files.len() == 0 {
        Seq::empty()
    } else {
        indented(files.drop_last()) + "  "@ + files.last() + "\n"@
    }
}

/// What is said of a path that is a directory.
pub open spec fn hint(root: Seq<char>, path: Seq<char>, files: Seq<Seq<char>>) -> Seq<char> {
    let head = "Path '"@ + path + "' is a directory, not a file (resolved to "@ + joined(root, path)
        + "). All paths are relative to the peripheral crate root: "@ + root
        + ". You must specify a file path, e.g. 'src/main.rs'."@;
    let shown = listing_of(root, path, files);
    if shown.len() > 0 {
        head + "\nFiles in this directory:\n"@ + indented(shown)
    } else {
        head
    }
}

/// The refusal of a path that leads elsewhere.
pub open spec fn traversal() -> Seq<char> {
    "Path traversal not allowed"@
}

/// What a file says, or why it does not.
pub open spec fn file_content(root: Seq<char>, path: Seq<char>, found: Found) -> Result<
    Seq<char>,
    Seq<char>,
> {
    if !stays_below(root, path) {
        Err(traversal())
    } else {
        match found {
            Found::Missing => Err(
                "File not found: '"@ + path + "' (resolved to "@ + joined(root, path) + ")"@,
            ),
            Found::Directory(files) => Err(hint(root, path, texts(files@))),
            Found::Unreadable(e) => Err(
                "Read error: "@ + e@ + " (resolved to "@ + joined(root, path) + ")"@,
            ),
            Found::File(c) => Ok(c@),
        }
    }
}

/// Lines with their numbers in front, from the `from`-th to before the `to`-th.
pub open spec fn numbered(all: Seq<Seq<char>>, from: int, to: int, width: nat) -> Seq<char>
    decreases to - from,
{
    if to <= from {
        Seq::empty()
    } else {
        numbered(all, from, to - 1, width) + padded(dec(to as nat), width, ' ') + ": "@ + all[to
            - 1] + "\n"@
    }
}

/// A range of a file's lines, or why it cannot be shown.
pub open spec fn shown_range(
    path: Seq<char>,
    content: Seq<char>,
    start: nat,
    end: nat,
) -> Result<Seq<char>, Seq<char>> {
    let all = lines(content);
    let total = all.len();
    let last = if end < total {
        end
    } else {
        total
    };
    if start == 0 || end == 0 {
        Err("Line numbers must start at 1."@)
    } else if end < start {
        Err(
            "Invalid range: end_line ("@ + dec(end) + ") must be >= start_line ("@ + dec(start)
                + ")."@,
        )
    } else if total == 0 {
        Ok("File '"@ + path + "' is empty; no lines to show."@)
    } else if start > total {
        Err(
            "Requested lines "@ + dec(start) + "-"@ + dec(end) + " but file only has "@ + dec(
                total,
            ) + " lines."@,
        )
    } else {
        Ok(
            "Showing lines "@ + dec(start) + "-"@ + dec(last) + " of "@ + dec(total) + " ("@ + path
                + "):\n"@ + numbered(all, start - 1, last as int, dec(total).len()),
        )
    }
}

/// Shows a range of a file's lines.
pub fn show_range(path: &str, content: &str, start: usize, end: usize) -> (r: Result<
    String,
    String,
>)
    ensures
        (match shown_range(path@, content@, start as nat, end as nat) {
            Ok(t) => r is Ok && r->Ok_0@ == t,
            Err(e) => r is Err && r->Err_0@ == e,
        }),
{
    if start == 0 || end == 0 {
        return Err("Line numbers must start at 1.".to_owned());
    }
    if end < start {
        return Err(
            say3("Invalid range: end_line (", end, ") must be >= start_line (", start, ")."),
        );
    }
    let all = lines_of(content);
    let ghost t = texts(all@);
    let total: usize = all.len();
    assert(t.len() == total);
    if total == 0 {
        let mut m = "File '".to_owned();
        m.append(path);
        m.append("' is empty; no lines to show.");
        return Ok(m);
    }
    if start > total {
        let mut m = say3("Requested lines ", start, "-", end, " but file only has ");
        m.append(decimal(total as u64).as_str());
        m.append(" lines.");
        return Err(m);
    }
    let last: usize = if end < total {
        end
    } else {
        total
    };
    let width: usize = decimal(total as u64).as_str().unicode_len();
    let mut out = say3("Showing lines ", start, "-", last, " of ");
    out.append(decimal(total as u64).as_str());
    out.append(" (");
    out.append(path);
    out.append("):\n");
    let ghost head = out@;
    let mut i: usize = start - 1;
    assert(out@ =~= head + numbered(t, start - 1, start - 1, width as nat));
    while i < last
        invariant
            1 <= start,
            start - 1 <= i <= last <= all@.len(),
            t == texts(all@),
            out@ == head + numbered(t, start - 1, i as int, width as nat),
        decreases last - i,
    {
        let ghost before = out@;
        out.append(pad_left(decimal(i as u64 + 1).as_str(), width, ' ').as_str());
        out.append(": ");
        out.append(all[i].as_str());
        out.append("\n");
        assert(out@ =~= head + numbered(t, start - 1, i + 1, width as nat));
        i += 1;
    }
    Ok(out)
}

/// What a write makes of a file, or why it is refused.
pub open spec fn written(
    root: Seq<char>,
    path: Seq<char>,
    content: Seq<char>,
    range: Option<(usize, usize)>,
    found: Found,
) -> Result<Seq<char>, Seq<char>> {
    if !stays_below(root, path) {
        Err(traversal())
    } else {
        match found {
            Found::Directory(files) => Err(hint(root, path, texts(files@))),
            Found::Unreadable(e) => Err(
                "Read error: "@ + e@ + " (resolved to "@ + joined(root, path) + ")"@,
            ),
            Found::Missing => match range {
                Some(_) => Err(
                    "Cannot apply line-range edit because the file does not exist (resolved to "@
                        + joined(root, path)
                        + "). Create the file first or omit start_line/end_line to write a new file."@,
                ),
                None => Ok(content),
            },
            Found::File(original) => match range {
                Some((start, end)) => match edit_error(
                    full_lines(original@).len(),
                    start as nat,
                    end as nat,
                ) {
                    Some(e) => Err(e),
                    None => Ok(edited(original@, content, start as int, end as int)),
                },
                None => Ok(content),
            },
        }
    }
}

/// What a file said before it was written.
pub open spec fn original_of(found: Found) -> Seq<char> {
    match found {
        Found::File(c) => c@,
        _ => Seq::empty(),
    }
}

/// A file that is to be written, with what is to be said of it once it is.
pub struct PreparedWrite {
    pub content: String,
    pub report: WriteReport,
}

/// The lines of a file that hold a text, each with the file's name and the
/// line's number, as far as there is room for results.
pub open spec fn matches(
    found: Seq<Seq<char>>,
    file: Seq<char>,
    all: Seq<Seq<char>>,
    query: Seq<char>,
    max: nat,
) -> Seq<Seq<char>>
    decreases all.len(),
{
    if all.len() == 0 {
        found
    } else {
        let before = matches(found, file, all.drop_last(), query, max);
        if before.len() < max && contains_text(all.last(), query) {
            before.push(
                file + ":"@ + dec(all.len()) + ": "@ + ellipsized(
                    trim_end(all.last()),
                    MAX_SEARCH_LINE_LENGTH as nat,
                ),
            )
        } else {
            before
        }
    }
}

/// A search as far as it has come.
pub struct SourceSearch {
    query: String,
    max_results: usize,
    results: Vec<String>,
}

/// The mathematical state of a `SourceSearch`.
pub ghost struct Search {
    pub query: Seq<char>,
    pub max: nat,
    pub results: Seq<Seq<char>>,
}

impl View for SourceSearch {
    type V = Search;

    closed spec fn view(&self) -> Search {
        Search {
            query: self.query@,
            max: self.max_results as nat,
            results: texts(self.results@),
        }
    }
}

impl Search {
    /// The search after a file was searched.
    pub open spec fn after_file(self, file: Seq<char>, content: Seq<char>) -> Search {
        Search {
            results: matches(self.results, file, lines(content), self.query, self.max),
            ..self
        }
    }

    /// What the search has found.
    pub open spec fn report(self) -> Seq<char> {
        if self.results.len() == 0 {
            "No matches found."@
        } else {
            joined_with(self.results, "\n"@)
        }
    }
}

/// What a search does with something that it comes across.
#[derive(Debug, Clone, Copy, PartialEq, Eq, Structural)]
pub enum Visit {
    /// Leaves it out.
    Skip,
    /// Ends there.
    Stop,
    /// Reads it.
    Read,
    /// Cannot say: it is a file to which the rules do not apply.
    Elsewhere,
}

/// What a search does with a directory or a file that it comes across: it
/// leaves out directories and what the rules leave out, and ends at the first
/// other file once it has enough results.
pub open spec fn visit_to(s: Search, rules: Rules, path: Seq<char>, is_dir: bool) -> Visit {
    if is_dir {
        Visit::Skip
    } else if !rules.apply_to(path) {
        Visit::Elsewhere
    } else if rules.leave_out(path) {
        Visit::Skip
    } else if s.results.len() >= s.max {
        Visit::Stop
    } else {
        Visit::Read
    }
}

impl SourceSearch {
    pub fn new(query: &str, max_results: usize) -> (s: SourceSearch)
        ensures
            s@ == (Search { query: query@, max: max_results as nat, results: Seq::empty() }),
    {
        let s = SourceSearch { query: query.to_owned(), max_results, results: Vec::new() };
        assert(s@.results =~= Seq::empty());
        s
    }

    /// Whether there is no room for further results.
    pub fn is_full(&self) -> (b: bool)
        ensures
            b == (self@.results.len() >= self@.max),
    {
        self.results.len() >= self.max_results
    }

    /// What to do with a directory or a file that the search comes across.
    /// Without a rule no file is left out.
    pub fn visit(&self, rules: &IgnoreRules, path: &str, is_dir: bool) -> (v: Visit)
        ensures
            v == visit_to(self@, rules@, path@, is_dir),
            rules@.lines.len() == 0 && !is_dir ==> v is Read || v is Stop,
    {
        if is_dir {
            return Visit::Skip;
        }
        match rules.leave_out(path) {
            None => Visit::Elsewhere,
            Some(true) => Visit::Skip,
            Some(false) => if self.is_full() {
                Visit::Stop
            } else {
                Visit::Read
            },
        }
    }

    /// Searches one file.
    pub fn search_file(&mut self, file: &str, content: &str)
        ensures
            final(self)@ == old(self)@.after_file(file@, content@),
    {
        let ghost start = self@;
        let all = lines_of(content);
        let ghost t = texts(all@);
        let mut i: usize = 0;
        assert(t.take(0).len() == 0);
        while i < all.len()
            invariant
                i <= all@.len(),
                t == texts(all@),
                self@ == (Search {
                    results: matches(start.results, file@, t.take(i as int), start.query, start.max),
                    ..start
                }),
            decreases all@.len() - i,
        {
            assert(t.take(i + 1).drop_last() =~= t.take(i as int));
            assert(t.take(i + 1).last() == all@[i as int]@);
            let line = all[i].as_str();
            if self.results.len() < self.max_results && has_part(line, self.query.as_str()) {
                let shown = truncate_with_ellipsis(
                    trim_right(line).as_str(),
                    MAX_SEARCH_LINE_LENGTH,
                );
                let mut m = file.to_owned();
                m.append(":");
                m.append(decimal(i as u64 + 1).as_str());
                m.append(": ");
                m.append(shown.as_str());
                proof {
                    lemma_texts_push(self.results@, m);
                }
                self.results.push(m);
            }
            i += 1;
        }
        assert(t.take(all@.len() as int) =~= t);
    }

    /// What a search of a single file has found, given what was done with it.
    pub fn finish_file(&self, visit: Visit) -> (r: String)
        ensures
            r@ == (if visit is Skip {
                "Search root is ignored by .gitignore."@
            } else {
                self@.report()
            }),
    {
        match visit {
            Visit::Skip => "Search root is ignored by .gitignore.".to_owned(),
            _ => self.finish(),
        }
    }

    /// What the search has found.
    pub fn finish(&self) -> (r: String)
        ensures
            r@ == self@.report(),
    {
        if self.results.len() == 0 {
            "No matches found.".to_owned()
        } else {
            join_with(&self.results, "\n")
        }
    }
}

/// Knows where the agent's source code is.
pub struct SourceManager {
    workspace_root: String,
    peripheral_root: String,
}

/// The mathematical state of a `SourceManager`.
pub ghost struct Roots {
    pub workspace: Seq<char>,
    pub peripheral: Seq<char>,
}

impl View for SourceManager {
    type V = Roots;

    closed spec fn view(&self) -> Roots {
        Roots { workspace: self.workspace_root@, peripheral: self.peripheral_root@ }
    }
}

impl SourceManager {
    pub fn new(workspace_root: String) -> (m: SourceManager)
        ensures
            m@ == (Roots {
                workspace: workspace_root@,
                peripheral: joined(joined(workspace_root@, "crates"@), "peripheral"@),
            }),
    {
        let peripheral_root = join(
            join(workspace_root.as_str(), "crates").as_str(),
            "peripheral",
        );
        SourceManager { workspace_root, peripheral_root }
    }

    pub fn workspace_root(&self) -> (p: &str)
        ensures
            p@ == self@.workspace,
    {
        self.workspace_root.as_str()
    }

    pub fn peripheral_root(&self) -> (p: &str)
        ensures
            p@ == self@.peripheral,
    {
        self.peripheral_root.as_str()
    }

    /// Where a path leads, or that it leads elsewhere.
    pub fn resolve(&self, relative_path: &str) -> (r: Result<String, String>)
        ensures
            r is Ok <==> stays_below(self@.peripheral, relative_path@),
            r is Ok ==> r->Ok_0@ == joined(self@.peripheral, relative_path@),
            r is Err ==> r->Err_0@ == traversal(),
    {
        if leads_below(self.peripheral_root.as_str(), relative_path) {
            Ok(join(self.peripheral_root.as_str(), relative_path))
        } else {
            Err("Path traversal not allowed".to_owned())
        }
    }

    /// What is said of a path that is a directory.
    pub fn directory_hint(&self, relative_path: &str, files: &Vec<String>) -> (m: String)
        requires
            stays_below(self@.peripheral, relative_path@),
        ensures
            m@ == hint(self@.peripheral, relative_path@, texts(files@)),
    {
        let dir = join(self.peripheral_root.as_str(), relative_path);
        let mut m = "Path '".to_owned();
        m.append(relative_path);
        m.append("' is a directory, not a file (resolved to ");
        m.append(dir.as_str());
        m.append("). All paths are relative to the peripheral crate root: ");
        m.append(self.peripheral_root.as_str());
        m.append(". You must specify a file path, e.g. 'src/main.rs'.");
        let sorted = list_directory(self.peripheral_root.as_str(), relative_path, files);
        let ghost t = texts(sorted@);
        assert(t.len() == sorted@.len());
        if sorted.len() > 0 {
            m.append("\nFiles in this directory:\n");
            let ghost head = m@;
            let mut i: usize = 0;
            assert(m@ =~= head + indented(t.take(0)));
            while i < sorted.len()
                invariant
                    i <= sorted@.len(),
                    t == texts(sorted@),
                    m@ == head + indented(t.take(i as int)),
                decreases sorted@.len() - i,
            {
                assert(t.take(i + 1).drop_last() =~= t.take(i as int));
                m.append("  ");
                m.append(sorted[i].as_str());
                m.append("\n");
                assert(m@ =~= head + indented(t.take(i + 1)));
                i += 1;
            }
            assert(t.take(sorted@.len() as int) =~= t);
        }
        m
    }

    /// A failure on a path, with the place that it leads to.
    fn resolved(&self, start: &str, middle: &str, relative_path: &str, end: &str) -> (m: String)
        ensures
            m@ == start@ + middle@ + " (resolved to "@ + joined(
                self@.peripheral,
                relative_path@,
            ) + end@,
    {
        let mut m = start.to_owned();
        m.append(middle);
        m.append(" (resolved to ");
        m.append(join(self.peripheral_root.as_str(), relative_path).as_str());
        m.append(end);
        m
    }

    /// What a file says, given what was found under its path.
    pub fn read_file(&self, relative_path: &str, found: &Found) -> (r: Result<String, String>)
        ensures
            (match file_content(self@.peripheral, relative_path@, *found) {
                Ok(t) => r is Ok && r->Ok_0@ == t,
                Err(e) => r is Err && r->Err_0@ == e,
            }),
    {
        match self.resolve(relative_path) {
            Ok(_) => {},
            Err(e) => {
                return Err(e);
            },
        }
        match found {
            Found::Missing => {
                let mut m = "File not found: '".to_owned();
                m.append(relative_path);
                m.append("' (resolved to ");
                m.append(join(self.peripheral_root.as_str(), relative_path).as_str());
                m.append(")");
                Err(m)
            },
            Found::Directory(files) => Err(self.directory_hint(relative_path, files)),
            Found::Unreadable(e) => Err(
                self.resolved("Read error: ", e.as_str(), relative_path, ")"),
            ),
            Found::File(c) => Ok(c.clone()),
        }
    }

    /// What a file says in a range of lines, counted from 1 and with its end.
    pub fn read_file_range(
        &self,
        relative_path: &str,
        range: Option<(usize, usize)>,
        found: &Found,
    ) -> (r: Result<String, String>)
        ensures
            (match (file_content(self@.peripheral, relative_path@, *found), range) {
                (Err(e), _) => r is Err && r->Err_0@ == e,
                (Ok(t), None) => r is Ok && r->Ok_0@ == t,
                (Ok(t), Some((start, end))) => match shown_range(
                    relative_path@,
                    t,
                    start as nat,
                    end as nat,
                ) {
                    Ok(s) => r is Ok && r->Ok_0@ == s,
                    Err(e) => r is Err && r->Err_0@ == e,
                },
            }),
    {
        let content = match self.read_file(relative_path, found) {
            Ok(c) => c,
            Err(e) => {
                return Err(e);
            },
        };
        match range {
            Some((start, end)) => show_range(relative_path, content.as_str(), start, end),
            None => Ok(content),
        }
    }

    /// The files below a directory by their paths from the root, given what was
    /// found there: nothing, every file below it, or a failure to find them.
    pub fn list_files(
        &self,
        relative_path: &str,
        listing: Option<Result<Vec<String>, String>>,
    ) -> (r: Result<Vec<String>, String>)
        ensures
            !stays_below(self@.peripheral, relative_path@) ==> r is Err && r->Err_0@
                == traversal(),
            stays_below(self@.peripheral, relative_path@) && listing is None ==> r is Err
                && r->Err_0@ == "Directory not found: '"@ + relative_path@ + "' (resolved to "@
                + joined(self@.peripheral, relative_path@) + ")"@,
            stays_below(self@.peripheral, relative_path@) && listing is Some
                && listing->Some_0 is Err ==> r is Err && r->Err_0@ == "List error: "@
                + listing->Some_0->Err_0@,
            stays_below(self@.peripheral, relative_path@) && listing is Some
                && listing->Some_0 is Ok ==> r is Ok && texts(r->Ok_0@) == listing_of(
                self@.peripheral,
                relative_path@,
                texts(listing->Some_0->Ok_0@),
            ) && texts(r->Ok_0@).no_duplicates(),
    {
        match self.resolve(relative_path) {
            Ok(_) => {},
            Err(e) => {
                return Err(e);
            },
        }
        match listing {
            None => {
                let mut m = "Directory not found: '".to_owned();
                m.append(relative_path);
                m.append("' (resolved to ");
                m.append(join(self.peripheral_root.as_str(), relative_path).as_str());
                m.append(")");
                Err(m)
            },
            Some(Err(e)) => {
                let mut m = "List error: ".to_owned();
                m.append(e.as_str());
                Err(m)
            },
            Some(Ok(files)) => {
                proof {
                    law_listing_holds_each_file_once(
                        self@.peripheral,
                        relative_path@,
                        texts(files@),
                    );
                }
                Ok(list_directory(self.peripheral_root.as_str(), relative_path, &files))
            },
        }
    }

    /// What a write makes of a file, given what was found under its path, with
    /// the report on it.
    pub fn write_file_range(
        &self,
        relative_path: &str,
        content: &str,
        range: Option<(usize, usize)>,
        found: &Found,
    ) -> (r: Result<PreparedWrite, String>)
        ensures
            (match written(self@.peripheral, relative_path@, content@, range, *found) {
                Err(e) => r is Err && r->Err_0@ == e,
                Ok(t) => {
                    &&& r is Ok
                    &&& r->Ok_0.content@ == t
                    &&& r->Ok_0.report.path@ == relative_path@
                    &&& r->Ok_0.report.range == range
                    &&& r->Ok_0.report.diff@ == ellipsized(
                        trimmed(unified_diff(original_of(*found), t)),
                        MAX_DIFF_LENGTH as nat,
                    )
                },
            }),
    {
        match self.resolve(relative_path) {
            Ok(_) => {},
            Err(e) => {
                return Err(e);
            },
        }
        let original = match found {
            Found::Directory(files) => {
                return Err(self.directory_hint(relative_path, files));
            },
            Found::Unreadable(e) => {
                return Err(self.resolved("Read error: ", e.as_str(), relative_path, ")"));
            },
            Found::Missing => {
                if range.is_some() {
                    return Err(self.no_file(relative_path));
                }
                String::new()
            },
            Found::File(c) => c.clone(),
        };
        let new_content = match range {
            Some((start, end)) => match apply_line_range_edit(
                original.as_str(),
                content,
                start,
                end,
            ) {
                Ok(t) => t,
                Err(e) => {
                    return Err(e);
                },
            },
            None => content.to_owned(),
        };
        let diff = summarize_diff(original.as_str(), new_content.as_str());
        Ok(
            PreparedWrite {
                content: new_content,
                report: WriteReport { path: relative_path.to_owned(), range, diff },
            },
        )
    }

    fn no_file(&self, relative_path: &str) -> (m: String)
        ensures
            m@
                == "Cannot apply line-range edit because the file does not exist (resolved to "@
                + joined(self@.peripheral, relative_path@)
                + "). Create the file first or omit start_line/end_line to write a new file."@,
    {
        let mut m =
            "Cannot apply line-range edit because the file does not exist (resolved to ".to_owned();
        m.append(join(self.peripheral_root.as_str(), relative_path).as_str());
        m.append("). Create the file first or omit start_line/end_line to write a new file.");
        m
    }

    /// What a write of a whole file makes of it.
    pub fn write_file(&self, relative_path: &str, content: &str, found: &Found) -> (r: Result<
        String,
        String,
    >)
        ensures
            (match written(self@.peripheral, relative_path@, content@, None, *found) {
                Err(e) => r is Err && r->Err_0@ == e,
                Ok(t) => r is Ok && r->Ok_0@ == t,
            }),
    {
        match self.write_file_range(relative_path, content, None, found) {
            Ok(w) => Ok(w.content),
            Err(e) => Err(e),
        }
    }

    /// The rules by which a search leaves files out, given what the peripheral's
    /// `.gitignore` file says.
    pub fn ignore_rules(&self, content: &Option<String>) -> (r: Result<IgnoreRules, String>)
        ensures
            ({
                let rules = rules_of(ignore_lines(opt_text(*content)));
                if rules.len() > 0 && rules_error(rules) is Some {
                    r is Err && r->Err_0@ == "Failed to parse .gitignore: "@ + rules_error(
                        rules,
                    )->Some_0
                } else {
                    r is Ok && r->Ok_0@ == (Rules {
                        root: without_dot(self@.peripheral),
                        lines: rules,
                    })
                }
            }),
            only_comments(ignore_lines(opt_text(*content))) ==> r is Ok && r->Ok_0@.lines.len()
                == 0,
    {
        IgnoreRules::read(self.peripheral_root.as_str(), content)
    }

    /// Begins a search below a path, given whether there is anything there.
    pub fn search(
        &self,
        query: &str,
        relative_path: &str,
        max_results: usize,
        exists: bool,
    ) -> (r: Result<SourceSearch, String>)
        ensures
            r is Ok <==> trimmed(query@).len() > 0 && stays_below(
                self@.peripheral,
                relative_path@,
            ) && exists,
            r is Ok ==> r->Ok_0@ == (Search {
                query: query@,
                max: max_results as nat,
                results: Seq::empty(),
            }),
            r is Err ==> r->Err_0@ == (if trimmed(query@).len() == 0 {
                "Search query must not be empty."@
            } else if !stays_below(self@.peripheral, relative_path@) {
                traversal()
            } else {
                "Search root not found: '"@ + relative_path@ + "' (resolved to "@ + joined(
                    self@.peripheral,
                    relative_path@,
                ) + ")"@
            }),
    {
        if trim(query).as_str().unicode_len() == 0 {
            return Err("Search query must not be empty.".to_owned());
        }
        match self.resolve(relative_path) {
            Ok(_) => {},
            Err(e) => {
                return Err(e);
            },
        }
        if !exists {
            let mut m = "Search root not found: '".to_owned();
            m.append(relative_path);
            m.append("' (resolved to ");
            m.append(join(self.peripheral_root.as_str(), relative_path).as_str());
            m.append(")");
            return Err(m);
        }
        Ok(SourceSearch::new(query, max_results))
    }
}

proof fn lemma_concat_front(first: Seq<char>, rest: Seq<Seq<char>>)
    ensures
        concat(seq![first] + rest) == first + concat(rest),
    decreases rest.len(),
{
    let all = seq![first] + rest;
    if rest.len() == 0 {
        assert(all =~= seq![first]);
        assert(all.drop_last() =~= Seq::empty());
        assert(concat(all.drop_last()) =~= Seq::<char>::empty());
        assert(concat(all) =~= first + concat(rest));
    } else {
        assert(all.drop_last() =~= seq![first] + rest.drop_last());
        lemma_concat_front(first, rest.drop_last());
        assert(all.last() == rest.last());
        assert(concat(all) =~= first + concat(rest));
    }
}

proof fn lemma_concat_split(parts: Seq<Seq<char>>, n: int)
    requires
        0 <= n <= parts.len(),
    ensures
        concat(parts.take(n)) + concat(parts.skip(n)) == concat(parts),
    decreases parts.len(),
{
    if n == parts.len() {
        assert(parts.take(n) =~= parts);
        assert(parts.skip(n) =~= Seq::empty());
        assert(concat(parts.take(n)) + concat(parts.skip(n)) =~= concat(parts));
    } else {
        let d = parts.drop_last();
        lemma_concat_split(d, n);
        assert(d.take(n) =~= parts.take(n));
        assert(parts.skip(n).drop_last() =~= d.skip(n));
        assert(parts.skip(n).last() == parts.last());
        assert(concat(parts.take(n)) + concat(parts.skip(n)) =~= concat(parts));
    }
}

/// The lines of a text with their ends, put together again, are the text.
pub proof fn law_lines_make_the_text(s: Seq<char>)
    ensures
        concat(full_lines(s)) == s,
    decreases s.len(),
{
    if s.len() > 0 {
        let i = find_from(s, '\n', 0);
        lemma_find_from(s, '\n', 0);
        if i >= s.len() {
            assert(full_lines(s) =~= seq![s] + Seq::empty());
            lemma_concat_front(s, Seq::empty());
            assert(concat(full_lines(s)) =~= s);
        } else {
            law_lines_make_the_text(s.skip(i + 1));
            lemma_concat_front(s.take(i + 1), full_lines(s.skip(i + 1)));
            assert(s =~= s.take(i + 1) + s.skip(i + 1));
        }
    }
}

/// Replacing a range of lines by what it says changes nothing.
pub proof fn law_editing_by_the_same_text(s: Seq<char>, start: int, end: int)
    requires
        1 <= start <= end <= full_lines(s).len(),
    ensures
        edited(s, concat(full_lines(s).subrange(start - 1, end)), start, end) == s,
{
    let all = full_lines(s);
    law_lines_make_the_text(s);
    lemma_concat_split(all, end);
    lemma_concat_split(all.take(end), start - 1);
    assert(all.take(end).take(start - 1) =~= all.take(start - 1));
    assert(all.take(end).skip(start - 1) =~= all.subrange(start - 1, end));
}

/// An edit leaves what stands before and behind the range as it was.
pub proof fn law_edit_is_local(
    s: Seq<char>,
    replacement: Seq<char>,
    start: int,
    end: int,
)
    requires
        1 <= start <= end <= full_lines(s).len(),
    ensures
        concat(full_lines(s).take(start - 1)).is_prefix_of(edited(s, replacement, start, end)),
        edited(s, replacement, start, end).skip(
            edited(s, replacement, start, end).len() - concat(full_lines(s).skip(end)).len(),
        ) == concat(full_lines(s).skip(end)),
        concat(full_lines(s).take(start - 1)).is_prefix_of(s),
{
    let all = full_lines(s);
    let e = edited(s, replacement, start, end);
    let head = concat(all.take(start - 1));
    let tail = concat(all.skip(end));
    assert(e == head + replacement + tail);
    assert(head =~= e.subrange(0, head.len() as int));
    assert(e.skip(e.len() - tail.len()) =~= tail);
    law_lines_make_the_text(s);
    lemma_concat_split(all, start - 1);
    assert(head =~= s.subrange(0, head.len() as int));
}

/// A search never shows more than it was asked for.
pub proof fn law_search_keeps_its_limit(
    found: Seq<Seq<char>>,
    file: Seq<char>,
    all: Seq<Seq<char>>,
    query: Seq<char>,
    max: nat,
)
    requires
        found.len() <= max,
    ensures
        matches(found, file, all, query, max).len() <= max,
        found.is_prefix_of(matches(found, file, all, query, max)),
    decreases all.len(),
{
    if all.len() > 0 {
        law_search_keeps_its_limit(found, file, all.drop_last(), query, max);
    }
}

proof fn lemma_text_position(sorted: Seq<Seq<char>>, name: Seq<char>)
    ensures
        0 <= text_position(sorted, name) <= sorted.len(),
        forall|i: int|
            text_position(sorted, name) <= i < sorted.len() ==> text_less(
                name,
                #[trigger] sorted[i],
            ),
        text_position(sorted, name) > 0 ==> !text_less(
            name,
            sorted[text_position(sorted, name) - 1],
        ),
    decreases sorted.len(),
{
    if sorted.len() > 0 && text_less(name, sorted.last()) {
        let d = sorted.drop_last();
        lemma_text_position(d, name);
        assert forall|i: int| text_position(sorted, name) <= i < sorted.len() implies text_less(
            name,
            #[trigger] sorted[i],
        ) by {
            if i < d.len() {
                assert(d[i] == sorted[i]);
            }
        }
    }
}

/// Sorting keeps exactly the given names and puts none behind a later one.
pub proof fn law_names_are_sorted(names: Seq<Seq<char>>)
    ensures
        sorted_texts(names).len() == names.len(),
        sorted_texts(names).to_multiset() == names.to_multiset(),
        forall|i: int, j: int|
            0 <= i < j < names.len() ==> !text_less(
                #[trigger] sorted_texts(names)[j],
                #[trigger] sorted_texts(names)[i],
            ),
    decreases names.len(),
{
    if names.len() > 0 {
        let d = names.drop_last();
        let x = names.last();
        law_names_are_sorted(d);
        let before = sorted_texts(d);
        let p = text_position(before, x);
        lemma_text_position(before, x);
        let all = sorted_texts(names);
        assert(names =~= d.push(x));
        assert(all == before.insert(p, x));
        vstd::seq_lib::to_multiset_insert(before, p, x);
        vstd::seq_lib::to_multiset_build(d, x);
        assert(all.to_multiset() == names.to_multiset());
        assert forall|i: int, j: int| 0 <= i < j < all.len() implies !text_less(
            #[trigger] all[j],
            #[trigger] all[i],
        ) by {
            let a = if i < p {
                before[i]
            } else if i == p {
                x
            } else {
                before[i - 1]
            };
            let b = if j < p {
                before[j]
            } else if j == p {
                x
            } else {
                before[j - 1]
            };
            assert(a == all[i] && b == all[j]);
            if i < p && j == p {
                if i < p - 1 {
                    assert(!text_less(before[p - 1], before[i]));
                } else {
                    lemma_text_order(before[i], before[i], before[i]);
                }
                lemma_text_order(before[i], before[p - 1], x);
            } else if i == p {
                assert(text_less(x, before[j - 1]));
                lemma_text_order(x, before[j - 1], x);
            }
        }
    } else {
        assert(sorted_texts(names) =~= names);
    }
}

proof fn lemma_listed(leading: nat, files: Seq<Seq<char>>)
    ensures
        listed(leading, files).no_duplicates(),
        forall|f: Seq<char>| #[trigger]
            listed(leading, files).contains(f) <==> files.contains(f) && is_listed(leading, f),
    decreases files.len(),
{
    let all = listed(leading, files);
    if files.len() > 0 {
        let d = files.drop_last();
        let x = files.last();
        let before = listed(leading, d);
        lemma_listed(leading, d);
        assert(files =~= d.push(x));
        assert forall|f: Seq<char>| #[trigger] all.contains(f) <==> files.contains(f) && is_listed(
            leading,
            f,
        ) by {
            if all.contains(f) && f != x {
                let i = choose|i: int| 0 <= i < all.len() && all[i] == f;
                assert(before[i] == f);
                assert(before.contains(f));
            }
            if d.contains(f) {
                let i = choose|i: int| 0 <= i < d.len() && d[i] == f;
                assert(files[i] == f);
            }
            if files.contains(f) && f != x {
                let i = choose|i: int| 0 <= i < files.len() && files[i] == f;
                assert(d[i] == f);
                assert(d.contains(f));
            }
            if before.contains(f) {
                let i = choose|i: int| 0 <= i < before.len() && before[i] == f;
                assert(all[i] == f);
            }
            if f == x {
                assert(files[files.len() - 1] == x);
                if is_listed(leading, x) && !before.contains(x) {
                    assert(all[all.len() - 1] == x);
                }
            }
        }
    }
}

/// A listing is in order, names no file twice, and holds exactly the files found
/// whose path behind the directory crosses nothing that is left alone.
pub proof fn law_listing_holds_each_file_once(
    root: Seq<char>,
    path: Seq<char>,
    files: Seq<Seq<char>>,
)
    ensures
        listing_of(root, path, files).no_duplicates(),
        forall|f: Seq<char>| #[trigger]
            listing_of(root, path, files).contains(f) <==> files.contains(f) && is_listed(
                names_behind(root, path).len(),
                f,
            ),
        forall|i: int, j: int|
            0 <= i < j < listing_of(root, path, files).len() ==> !text_less(
                #[trigger] listing_of(root, path, files)[j],
                #[trigger] listing_of(root, path, files)[i],
            ),
{
    let kept = listed(names_behind(root, path).len(), files);
    let all = listing_of(root, path, files);
    lemma_listed(names_behind(root, path).len(), files);
    law_names_are_sorted(kept);
    kept.lemma_multiset_has_no_duplicates();
    all.lemma_multiset_has_no_duplicates_conv();
    assert forall|f: Seq<char>| #[trigger] all.contains(f) <==> kept.contains(f) by {
        kept.to_multiset_ensures();
        all.to_multiset_ensures();
        assert(all.to_multiset().count(f) == kept.to_multiset().count(f));
    }
}

/// A path that leads elsewhere by its names is neither read nor written.
pub proof fn law_paths_that_lead_elsewhere_are_refused(
    root: Seq<char>,
    path: Seq<char>,
    content: Seq<char>,
    range: Option<(usize, usize)>,
    found: Found,
)
    requires
        !walked_to(absolute(root), components(root)).is_prefix_of(leads_to(root, path)),
    ensures
        file_content(root, path, found) == Err::<Seq<char>, Seq<char>>(traversal()),
        written(root, path, content, range, found) == Err::<Seq<char>, Seq<char>>(traversal()),
{
}

proof fn lemma_walk_down(from_root: bool, start: Seq<Seq<char>>, names: Seq<Seq<char>>)
    requires
        forall|i: int| 0 <= i < names.len() ==> #[trigger] names[i] != ".."@,
    ensures
        walked_to(from_root, start + names) == walked_to(from_root, start) + names,
    decreases names.len(),
{
    let all = start + names;
    if names.len() == 0 {
        assert(all =~= start);
        assert(walked_to(from_root, start) + names =~= walked_to(from_root, start));
    } else {
        let d = names.drop_last();
        assert forall|i: int| 0 <= i < d.len() implies #[trigger] d[i] != ".."@ by {
            assert(d[i] == names[i]);
        }
        lemma_walk_down(from_root, start, d);
        assert(all.drop_last() =~= start + d);
        assert(all.last() == names[names.len() - 1]);
        assert(walked_to(from_root, all) =~= walked_to(from_root, start) + names);
    }
}

/// A relative path without `..` always leads below the root.
pub proof fn law_plain_paths_stay_below(root: Seq<char>, path: Seq<char>)
    requires
        !absolute(path),
        forall|i: int| 0 <= i < components(path).len() ==> #[trigger] components(path)[i] != ".."@,
    ensures
        stays_below(root, path),
        leads_to(root, path) == walked_to(absolute(root), components(root)) + components(path),
{
    lemma_walk_down(absolute(root), components(root), components(path));
    let start = walked_to(absolute(root), components(root));
    assert(start =~= leads_to(root, path).subrange(0, start.len() as int));
}

/// Something that a search comes across: where it is, what it is called in the
/// results, and what it says where it is a file with text.
pub ghost struct Entry {
    pub path: Seq<char>,
    pub name: Seq<char>,
    pub is_dir: bool,
    pub content: Option<Seq<char>>,
}

/// A search after it came across the entries in their order.
pub open spec fn walked(s: Search, rules: Rules, entries: Seq<Entry>) -> Search
    decreases entries.len(),
{
    if entries.len() == 0 {
        s
    } else {
        let e = entries[0];
        match visit_to(s, rules, e.path, e.is_dir) {
            Visit::Skip => walked(s, rules, entries.skip(1)),
            Visit::Read => walked(
                match e.content {
                    Some(t) => s.after_file(e.name, t),
                    None => s,
                },
                rules,
                entries.skip(1),
            ),
            _ => s,
        }
    }
}

/// A file that the rules leave out makes no difference to a search.
pub proof fn law_ignored_files_are_not_searched(
    s: Search,
    rules: Rules,
    entries: Seq<Entry>,
    i: int,
)
    requires
        0 <= i < entries.len(),
        rules.apply_to(entries[i].path),
        rules.leave_out(entries[i].path),
    ensures
        walked(s, rules, entries) == walked(s, rules, entries.remove(i)),
    decreases entries.len(),
{
    let rest = entries.skip(1);
    if i == 0 {
        assert(entries.remove(0) =~= rest);
    } else {
        let fewer = entries.remove(i);
        assert(fewer[0] == entries[0]);
        assert(fewer.skip(1) =~= rest.remove(i - 1));
        let e = entries[0];
        let next = match e.content {
            Some(t) => s.after_file(e.name, t),
            None => s,
        };
        assert(rest[i - 1] == entries[i]);
        law_ignored_files_are_not_searched(s, rules, rest, i - 1);
        law_ignored_files_are_not_searched(next, rules, rest, i - 1);
    }
}

/// Whether the results of a search of a file are the earlier ones and, for the
/// lines at the given places and in their order, the file's name, the line's
/// number from 1 on and the line's text; all of these lines hold the query, and
/// one that holds it is missing only where the results are full before it.
pub open spec fn shows(
    r: Seq<Seq<char>>,
    found: Seq<Seq<char>>,
    file: Seq<char>,
    all: Seq<Seq<char>>,
    query: Seq<char>,
    max: nat,
    at: Seq<int>,
) -> bool {
    &&& found.is_prefix_of(r)
    &&& r.len() == found.len() + at.len()
    &&& forall|j: int, k: int| 0 <= j < k < at.len() ==> #[trigger] at[j] < #[trigger] at[k]
    &&& forall|j: int|
        0 <= j < at.len() ==> 0 <= #[trigger] at[j] < all.len() && contains_text(all[at[j]], query)
            && r[found.len() + j] == file + ":"@ + dec((at[j] + 1) as nat) + ": "@ + ellipsized(
            trim_end(all[at[j]]),
            300,
        )
    &&& forall|i: int|
        #![trigger all[i]]
        0 <= i < all.len() && contains_text(all[i], query) ==> at.contains(i) || (r.len() >= max
            && (at.len() > 0 ==> at.last() < i))
}

proof fn lemma_matches(
    found: Seq<Seq<char>>,
    file: Seq<char>,
    all: Seq<Seq<char>>,
    query: Seq<char>,
    max: nat,
) -> (at: Seq<int>)
    ensures
        shows(matches(found, file, all, query, max), found, file, all, query, max, at),
    decreases all.len(),
{
    let r = matches(found, file, all, query, max);
    if all.len() == 0 {
        let at = Seq::<int>::empty();
        assert(found =~= found.subrange(0, found.len() as int));
        at
    } else {
        let d = all.drop_last();
        let before = matches(found, file, d, query, max);
        let earlier = lemma_matches(found, file, d, query, max);
        let n = d.len() as int;
        assert(forall|i: int| 0 <= i < n ==> #[trigger] all[i] == d[i]);
        let at = if before.len() < max && contains_text(all.last(), query) {
            earlier.push(n)
        } else {
            earlier
        };
        if before.len() < max && contains_text(all.last(), query) {
            assert(r =~= before.push(r.last()));
            assert(found =~= r.subrange(0, found.len() as int));
            assert(at[at.len() - 1] == n);
            assert forall|i: int|
                #![trigger all[i]]
                0 <= i < all.len() && contains_text(all[i], query) implies at.contains(i) || (
            r.len() >= max && (at.len() > 0 ==> at.last() < i)) by {
                if i < n {
                    assert(d[i] == all[i]);
                    assert(earlier.contains(i));
                    let j = earlier.index_of(i);
                    assert(at[j] == i);
                }
            }
            assert forall|j: int| 0 <= j < at.len() implies 0 <= #[trigger] at[j] < all.len()
                && contains_text(all[at[j]], query) && r[found.len() + j] == file + ":"@ + dec(
                (at[j] + 1) as nat,
            ) + ": "@ + ellipsized(trim_end(all[at[j]]), 300) by {
                if j < earlier.len() {
                    assert(at[j] == earlier[j]);
                    assert(r[found.len() + j] == before[found.len() + j]);
                }
            }
        } else {
            assert forall|i: int|
                #![trigger all[i]]
                0 <= i < all.len() && contains_text(all[i], query) implies at.contains(i) || (
            r.len() >= max && (at.len() > 0 ==> at.last() < i)) by {
                if i < n {
                    assert(d[i] == all[i]);
                } else {
                    assert(before.len() >= max);
                    if at.len() > 0 {
                        assert(0 <= at[at.len() - 1] < d.len());
                    }
                }
            }
        }
        at
    }
}

/// A search of a file finds the lines that hold the query, in their order, and
/// passes none over that there is room for.
pub proof fn law_search_finds_the_lines(
    found: Seq<Seq<char>>,
    file: Seq<char>,
    all: Seq<Seq<char>>,
    query: Seq<char>,
    max: nat,
)
    ensures
        exists|at: Seq<int>| #[trigger]
            shows(matches(found, file, all, query, max), found, file, all, query, max, at),
{
    let _ = lemma_matches(found, file, all, query, max);
}

/// As long as there is room, each line that holds the query is among the
/// results, and there are exactly as many new results as such lines.
pub proof fn law_search_with_room_finds_every_line(
    found: Seq<Seq<char>>,
    file: Seq<char>,
    all: Seq<Seq<char>>,
    query: Seq<char>,
    max: nat,
)
    requires
        matches(found, file, all, query, max).len() < max,
    ensures
        forall|i: int|
            #![trigger all[i]]
            0 <= i < all.len() && contains_text(all[i], query) ==> matches(
                found,
                file,
                all,
                query,
                max,
            ).contains(
                file + ":"@ + dec((i + 1) as nat) + ": "@ + ellipsized(trim_end(all[i]), 300),
            ),
        matches(found, file, all, query, max).len() == found.len() + all.filter(
            |l: Seq<char>| contains_text(l, query),
        ).len(),
    decreases all.len(),
{
    reveal(Seq::filter);
    let r = matches(found, file, all, query, max);
    let at = lemma_matches(found, file, all, query, max);
    assert forall|i: int|
        #![trigger all[i]]
        0 <= i < all.len() && contains_text(all[i], query) implies r.contains(
        file + ":"@ + dec((i + 1) as nat) + ": "@ + ellipsized(trim_end(all[i]), 300),
    ) by {
        let j = at.index_of(i);
        assert(at[j] == i);
        assert(r[found.len() + j] == file + ":"@ + dec((i + 1) as nat) + ": "@ + ellipsized(
            trim_end(all[i]),
            300,
        ));
    }
    if all.len() > 0 {
        law_search_with_room_finds_every_line(found, file, all.drop_last(), query, max);
    }
}

/// Searching a file looks for the query of the search in the lines of the file
/// and changes nothing but the results.
pub proof fn law_searching_a_file(s: Search, file: Seq<char>, content: Seq<char>)
    ensures
        s.after_file(file, content).query == s.query,
        s.after_file(file, content).max == s.max,
        exists|at: Seq<int>| #[trigger]
            shows(
                s.after_file(file, content).results,
                s.results,
                file,
                lines(content),
                s.query,
                s.max,
                at,
            ),
{
    let at = lemma_matches(s.results, file, lines(content), s.query, s.max);
    let r = s.after_file(file, content).results;
    assert(r == matches(s.results, file, lines(content), s.query, s.max));
    assert(shows(r, s.results, file, lines(content), s.query, s.max, at));
}

/// A search reads a file exactly where the rules apply to it and do not leave
/// it out and there is room; no file that it may read is passed over.
pub proof fn law_files_are_read_while_there_is_room(s: Search, rules: Rules, path: Seq<char>)
    ensures
        visit_to(s, rules, path, true) is Skip,
        visit_to(s, rules, path, false) is Read <==> rules.apply_to(path) && !rules.leave_out(path)
            && s.results.len() < s.max,
        visit_to(s, rules, path, false) is Stop <==> rules.apply_to(path) && !rules.leave_out(path)
            && s.results.len() >= s.max,
        visit_to(s, rules, path, false) is Elsewhere <==> !rules.apply_to(path),
{
}

/// A report holds every result.
pub proof fn law_reports_hold_every_result(s: Search, i: int)
    requires
        0 <= i < s.results.len(),
    ensures
        contains_text(s.report(), s.results[i]),
{
    crate::scan::law_joined_texts_are_found(s.results, "\n"@, i);
}

/// A text within the limit stays as it is. Of a longer one as much is kept as
/// fits, with a note behind it.
pub proof fn law_long_texts_are_cut(s: Seq<char>, max: nat)
    ensures
        encode_utf8(s).len() <= max ==> ellipsized(s, max) == s,
        encode_utf8(s).len() > max ==> exists|n: int|
            0 <= n < s.len() && ellipsized(s, max) == #[trigger] s.take(n) + "...(diff truncated)"@
                && (n == 0 || encode_utf8(s.take(n)).len() <= max) && encode_utf8(
                s.take(n + 1),
            ).len() > max,
{
    crate::text::law_truncation_fits(s, max);
    crate::text::law_truncation_cuts_as_little_as_it_can(s, max);
    if encode_utf8(s).len() > max {
        let n = byte_prefix(s, max).len() as int;
        assert(byte_prefix(s, max) =~= s.take(n));
        if n == s.len() {
            assert(s.take(n) =~= s);
        }
        assert(0 <= n < s.len());
    }
}

proof fn lemma_numbered_joins(all: Seq<Seq<char>>, a: int, b: int, c: int, width: nat)
    requires
        a <= b <= c,
    ensures
        numbered(all, a, c, width) == numbered(all, a, b, width) + numbered(all, b, c, width),
    decreases c - b,
{
    if b < c {
        lemma_numbered_joins(all, a, b, c - 1, width);
    }
    assert(numbered(all, a, c, width) =~= numbered(all, a, b, width) + numbered(all, b, c, width));
}

/// The lines that are shown stand one behind the other, each with its number
/// from 1 on in front.
pub proof fn law_shown_lines_are_numbered(
    all: Seq<Seq<char>>,
    a: int,
    b: int,
    c: int,
    width: nat,
)
    requires
        0 <= a <= b <= c < all.len(),
    ensures
        numbered(all, a, a, width) == Seq::<char>::empty(),
        numbered(all, a, c, width) == numbered(all, a, b, width) + numbered(all, b, c, width),
        numbered(all, a, a + 1, width) == padded(dec((a + 1) as nat), width, ' ') + ": "@ + all[a]
            + "\n"@,
{
    lemma_numbered_joins(all, a, b, c, width);
    assert(numbered(all, a, a, width) =~= Seq::<char>::empty());
    assert(numbered(all, a, a + 1, width) =~= padded(dec((a + 1) as nat), width, ' ') + ": "@
        + all[a] + "\n"@);
}

/// A range of lines is shown exactly where it is one and begins in the file,
/// and then with every line of the file in it.
pub proof fn law_ranges_within_the_file_are_shown(
    path: Seq<char>,
    content: Seq<char>,
    start: nat,
    end: nat,
    i: int,
)
    ensures
        shown_range(path, content, start, end) is Ok <==> 1 <= start <= end && (lines(content).len()
            == 0 || start <= lines(content).len()),
        1 <= start <= i <= end && i <= lines(content).len() ==> contains_text(
            shown_range(path, content, start, end)->Ok_0,
            padded(dec(i as nat), dec(lines(content).len()).len(), ' ') + ": "@ + lines(content)[i
                - 1] + "\n"@,
        ),
        1 <= start <= end ==> contains_text(
            match shown_range(path, content, start, end) {
                Ok(t) => t,
                Err(_) => path,
            },
            path,
        ),
{
    let all = lines(content);
    let total = all.len();
    let w = dec(total).len();
    let last = if end < total {
        end as int
    } else {
        total as int
    };
    if shown_range(path, content, start, end) is Ok {
        let r = shown_range(path, content, start, end)->Ok_0;
        if total == 0 {
            law_parts_are_found("File '"@, path, "' is empty; no lines to show."@, r);
        } else {
            let head = "Showing lines "@ + dec(start) + "-"@ + dec(last as nat) + " of "@ + dec(
                total,
            ) + " ("@;
            let tail = "):\n"@ + numbered(all, start - 1, last, w);
            assert(r =~= head + path + tail);
            law_parts_are_found(head, path, tail, r);
        }
    } else {
        law_parts_are_found(Seq::empty(), path, Seq::empty(), path);
        assert(Seq::<char>::empty() + path + Seq::<char>::empty() =~= path);
    }
    if 1 <= start <= i <= end && i <= total {
        let r = shown_range(path, content, start, end)->Ok_0;
        let line = padded(dec(i as nat), w, ' ') + ": "@ + all[i - 1] + "\n"@;
        let first = start - 1;
        lemma_numbered_joins(all, first, i - 1, last, w);
        lemma_numbered_joins(all, i - 1, i, last, w);
        assert(numbered(all, i - 1, i - 1, w) =~= Seq::<char>::empty());
        assert(numbered(all, i - 1, i, w) =~= line);
        let head = "Showing lines "@ + dec(start) + "-"@ + dec(last as nat) + " of "@ + dec(total)
            + " ("@ + path + "):\n"@;
        assert(r =~= (head + numbered(all, first, i - 1, w)) + line + numbered(all, i, last, w));
        law_parts_are_found(
            head + numbered(all, first, i - 1, w),
            line,
            numbered(all, i, last, w),
            r,
        );
    }
}

/// A line with its end reaches to the first line end in the text; what is left
/// is cut in the same way, and what has no line end is one line.
pub proof fn law_lines_keep_their_ends(a: Seq<char>, b: Seq<char>)
    requires
        forall|i: int| 0 <= i < a.len() ==> #[trigger] a[i] != '\n',
    ensures
        full_lines(a + seq!['\n'] + b) == seq![a + seq!['\n']] + full_lines(b),
        a.len() > 0 ==> full_lines(a) == seq![a],
        full_lines(Seq::empty()) == Seq::<Seq<char>>::empty(),
{
    let s = a + seq!['\n'] + b;
    let n = a.len() as int;
    lemma_find_from(s, '\n', 0);
    lemma_find_from(a, '\n', 0);
    assert(s[n] == '\n');
    let i = find_from(s, '\n', 0);
    if i < n {
        assert(s[i] == a[i]);
    }
    assert(i == n);
    assert(s.take(n + 1) =~= a + seq!['\n']);
    assert(s.skip(n + 1) =~= b);
}

/// Lines can be edited exactly where they are in the file, and one can append
/// right behind the last one.
pub proof fn law_ranges_that_can_be_edited(count: nat, start: nat, end: nat)
    ensures
        edit_error(count, start, end) is None <==> 1 <= start <= end && (end <= count || (start
            == count + 1 && end == count + 1)),
{
}

/// An edit puts the replacement where the range was, and nothing else.
pub proof fn law_edit_puts_in_the_replacement(
    s: Seq<char>,
    replacement: Seq<char>,
    start: int,
    end: int,
)
    requires
        1 <= start <= end <= full_lines(s).len(),
    ensures
        edited(s, replacement, start, end) == s.take(
            concat(full_lines(s).take(start - 1)).len() as int,
        ) + replacement + s.skip(concat(full_lines(s).take(end)).len() as int),
{
    let all = full_lines(s);
    law_lines_make_the_text(s);
    lemma_concat_split(all, start - 1);
    lemma_concat_split(all, end);
    assert(concat(all.take(start - 1)) =~= s.take(concat(all.take(start - 1)).len() as int));
    assert(concat(all.skip(end)) =~= s.skip(concat(all.take(end)).len() as int));
}

/// An edit right behind the last line appends.
pub proof fn law_edit_behind_the_end_appends(s: Seq<char>, replacement: Seq<char>)
    ensures
        edited(
            s,
            replacement,
            full_lines(s).len() as int + 1,
            full_lines(s).len() as int + 1,
        ) == s + replacement,
{
}

/// A file below the root is read as it is, and nothing else is.
pub proof fn law_files_are_read_as_they_are(root: Seq<char>, path: Seq<char>, found: Found)
    ensures
        file_content(root, path, found) is Ok <==> stays_below(root, path) && found is File,
        stays_below(root, path) && found is File ==> file_content(root, path, found)->Ok_0
            == found->File_0@,
        stays_below(root, path) && found is Missing ==> contains_text(
            file_content(root, path, found)->Err_0,
            path,
        ),
        stays_below(root, path) && found is Unreadable ==> contains_text(
            file_content(root, path, found)->Err_0,
            found->Unreadable_0@,
        ),
{
    let e = file_content(root, path, found)->Err_0;
    if stays_below(root, path) && found is Missing {
        let tail = "' (resolved to "@ + joined(root, path) + ")"@;
        assert(e =~= "File not found: '"@ + path + tail);
        law_parts_are_found("File not found: '"@, path, tail, e);
    } else if stays_below(root, path) && found is Unreadable {
        let why = found->Unreadable_0@;
        let tail = " (resolved to "@ + joined(root, path) + ")"@;
        assert(e =~= "Read error: "@ + why + tail);
        law_parts_are_found("Read error: "@, why, tail, e);
    }
}

/// A whole file is written with the given content wherever a file is or can be;
/// a range is written only into a file that is there and has it, and the rest
/// of the file stays.
pub proof fn law_writes_store_their_content(
    root: Seq<char>,
    path: Seq<char>,
    content: Seq<char>,
    start: usize,
    end: usize,
    found: Found,
)
    requires
        stays_below(root, path),
    ensures
        written(root, path, content, None, found) is Ok <==> found is File || found is Missing,
        found is File || found is Missing ==> written(root, path, content, None, found)
            == Ok::<Seq<char>, Seq<char>>(content),
        written(root, path, content, Some((start, end)), found) is Ok <==> found is File
            && edit_error(full_lines(found->File_0@).len(), start as nat, end as nat) is None,
        written(root, path, content, Some((start, end)), found) is Ok ==> written(
            root,
            path,
            content,
            Some((start, end)),
            found,
        )->Ok_0 == edited(found->File_0@, content, start as int, end as int),
{
}

/// What stood in a file before is what was found there.
pub proof fn law_the_original_is_what_was_found(found: Found)
    ensures
        found is File ==> original_of(found) == found->File_0@,
        !(found is File) ==> original_of(found).len() == 0,
{
}

/// The names of a path are those before a slash and those behind it. A name is
/// a name of itself, and nothing is where nothing or a single dot stands.
pub proof fn law_paths_are_made_of_names(a: Seq<char>, b: Seq<char>, name: Seq<char>)
    requires
        name.len() > 0,
        name != "."@,
        forall|i: int| 0 <= i < name.len() ==> #[trigger] name[i] != '/',
    ensures
        components(a + seq!['/'] + b) == components(a) + components(b),
        components(name) == seq![name],
        components("."@) == Seq::<Seq<char>>::empty(),
        components(Seq::empty()) == Seq::<Seq<char>>::empty(),
{
    let keep = |c: Seq<char>| c.len() > 0 && c != "."@;
    law_pieces_of_both_sides(a, b, '/');
    Seq::filter_distributes_over_add(pieces(a, '/'), pieces(b, '/'), keep);
    law_pieces_stand_between_separators(name, b, '/');
    reveal_strlit(".");
    law_pieces_stand_between_separators("."@, b, '/');
    law_pieces_stand_between_separators(Seq::empty(), b, '/');
    reveal(Seq::filter);
    reveal_with_fuel(Seq::filter, 2);
    assert(seq![name].drop_last() =~= Seq::empty());
    assert(seq!["."@].drop_last() =~= Seq::empty());
    assert(seq![Seq::<char>::empty()].drop_last() =~= Seq::empty());
    assert(components(name) =~= seq![name]);
    assert(components("."@) =~= Seq::<Seq<char>>::empty());
    assert(components(Seq::empty()) =~= Seq::<Seq<char>>::empty());
}

/// A name leads one step down, `..` takes the step before it back, at the root
/// of all directories it does nothing, and where there is nothing to take back
/// it stands.
pub proof fn law_names_lead_down_and_back(
    from_root: bool,
    names: Seq<Seq<char>>,
    name: Seq<char>,
)
    requires
        name != ".."@,
    ensures
        walked_to(from_root, Seq::empty()) == Seq::<Seq<char>>::empty(),
        walked_to(from_root, names.push(name)) == walked_to(from_root, names).push(name),
        walked_to(from_root, names.push(name).push(".."@)) == walked_to(from_root, names),
        walked_to(true, names).len() == 0 ==> walked_to(true, names.push(".."@)).len() == 0,
        (walked_to(false, names).len() == 0 || walked_to(false, names).last() == ".."@)
            ==> walked_to(false, names.push(".."@)) == walked_to(false, names).push(".."@),
{
    assert(names.push(name).drop_last() =~= names);
    assert(names.push(".."@).drop_last() =~= names);
    assert(names.push(name).push(".."@).drop_last() =~= names.push(name));
    assert(walked_to(from_root, names.push(name)).drop_last() =~= walked_to(from_root, names));
}

/// A relative path and the same path with the root before it have the same
/// names behind the root.
pub proof fn law_names_behind_the_root(root: Seq<char>, path: Seq<char>)
    requires
        absolute(root),
        !absolute(path),
    ensures
        names_behind(root, path) == components(path),
        names_behind(root, root + seq!['/'] + path) == components(path),
        leads_to(root, root + seq!['/'] + path) == leads_to(root, path),
        stays_below(root, root + seq!['/'] + path) == stays_below(root, path),
{
    law_pieces_of_both_sides(root, path, '/');
    let keep = |c: Seq<char>| c.len() > 0 && c != "."@;
    Seq::filter_distributes_over_add(pieces(root, '/'), pieces(path, '/'), keep);
    let all = root + seq!['/'] + path;
    let a = components(root);
    let b = components(path);
    assert(components(all) == a + b);
    assert((a + b).skip(a.len() as int) =~= b);
    assert(all[0] == root[0]);
    assert(a =~= (a + b).subrange(0, a.len() as int));
}

/// The names of files are shown one by one, each on an indented line.
pub proof fn law_listed_files_are_shown_line_by_line(files: Seq<Seq<char>>, file: Seq<char>)
    ensures
        indented(Seq::empty()).len() == 0,
        indented(files.push(file)) == indented(files) + ("  "@ + file + "\n"@),
{
    assert(files.push(file).drop_last() =~= files);
    assert(indented(files.push(file)) =~= indented(files) + ("  "@ + file + "\n"@));
}

/// What is said of a directory names the path and where it leads, and shows the
/// files in it where there are any.
pub proof fn law_directories_are_hinted_at(
    root: Seq<char>,
    path: Seq<char>,
    files: Seq<Seq<char>>,
)
    ensures
        contains_text(hint(root, path, files), path),
        contains_text(hint(root, path, files), joined(root, path)),
        listing_of(root, path, files).len() > 0 ==> contains_text(
            hint(root, path, files),
            "Files in this directory:\n"@ + indented(listing_of(root, path, files)),
        ),
{
    let a = "Path '"@;
    let b = "' is a directory, not a file (resolved to "@;
    let c = "). All paths are relative to the peripheral crate root: "@;
    let d = ". You must specify a file path, e.g. 'src/main.rs'."@;
    let j = joined(root, path);
    let shown = listing_of(root, path, files);
    reveal_strlit("\nFiles in this directory:\n");
    reveal_strlit("Files in this directory:\n");
    let list = "Files in this directory:\n"@ + indented(shown);
    assert("\nFiles in this directory:\n"@ =~= seq!['\n'] + "Files in this directory:\n"@);
    let end = if shown.len() > 0 {
        seq!['\n'] + list
    } else {
        Seq::empty()
    };
    let s = hint(root, path, files);
    let head = a + path + b + j + c + root + d;
    assert(s =~= head + end);
    assert(s =~= a + path + (b + j + c + root + d + end));
    law_parts_are_found(a, path, b + j + c + root + d + end, s);
    assert(s =~= (a + path + b) + j + (c + root + d + end));
    law_parts_are_found(a + path + b, j, c + root + d + end, s);
    if shown.len() > 0 {
        assert(s =~= (head + seq!['\n']) + list + Seq::<char>::empty());
        law_parts_are_found(head + seq!['\n'], list, Seq::empty(), s);
    }
}

/// What is said of a write names the file and, where there is one, the range,
/// and shows the difference.
pub proof fn law_reports_of_writes_show_the_difference(w: WriteReport, s: String)
    requires
        call_ensures(WriteReport::summary, (&w,), s),
    ensures
        contains_text(s@, w.path@),
        s@.skip(s@.len() - w.diff@.len()) == w.diff@,
        w.range is Some ==> contains_text(
            s@,
            dec(w.range->Some_0.0 as nat) + "-"@ + dec(w.range->Some_0.1 as nat),
        ),
{
    assert(s@.skip(s@.len() - w.diff@.len()) =~= w.diff@);
    match w.range {
        Some(r) => {
            let a = dec(r.0 as nat) + "-"@ + dec(r.1 as nat);
            let tail = " (lines "@ + a + ").\n"@ + w.diff@;
            assert(s@ =~= "Updated "@ + w.path@ + tail);
            law_parts_are_found("Updated "@, w.path@, tail, s@);
            let head = "Updated "@ + w.path@ + " (lines "@;
            assert(s@ =~= head + a + (").\n"@ + w.diff@));
            law_parts_are_found(head, a, ").\n"@ + w.diff@, s@);
        },
        None => {
            assert(s@ =~= "Updated "@ + w.path@ + (".\n"@ + w.diff@));
            law_parts_are_found("Updated "@, w.path@, ".\n"@ + w.diff@, s@);
        },
    }
}

/// A file is shown as a whole or in the lines that are asked for; a path that
/// leads elsewhere is refused before anything else.
pub proof fn law_files_are_shown_as_asked(
    m: SourceManager,
    path: &str,
    range: Option<(usize, usize)>,
    found: Found,
    r: Result<String, String>,
)
    requires
        call_ensures(SourceManager::read_file_range, (&m, path, range, &found), r),
    ensures
        !stays_below(m@.peripheral, path@) ==> r is Err,
        !(found is File) ==> r is Err,
        stays_below(m@.peripheral, path@) && found is File && range is None ==> r is Ok
            && r->Ok_0@ == found->File_0@,
        stays_below(m@.peripheral, path@) && found is File && range is Some ==> (r is Ok
            <==> shown_range(
            path@,
            found->File_0@,
            range->Some_0.0 as nat,
            range->Some_0.1 as nat,
        ) is Ok),
{
}

/// A write stores what it makes of the file, and its report names the path and
/// the range and shows the difference to what was there.
pub proof fn law_writes_report_what_they_do(
    m: SourceManager,
    path: &str,
    content: &str,
    range: Option<(usize, usize)>,
    found: Found,
    r: Result<PreparedWrite, String>,
)
    requires
        call_ensures(SourceManager::write_file_range, (&m, path, content, range, &found), r),
    ensures
        !stays_below(m@.peripheral, path@) ==> r is Err,
        r is Ok && range is None ==> r->Ok_0.content@ == content@,
        r is Ok ==> r->Ok_0.report.path@ == path@ && r->Ok_0.report.range == range,
        r is Ok && found is File ==> r->Ok_0.report.diff@ == ellipsized(
            trimmed(unified_diff(found->File_0@, r->Ok_0.content@)),
            8000,
        ),
        stays_below(m@.peripheral, path@) && range is None && (found is File || found is Missing)
            ==> r is Ok,
{
}

/// A directory is listed where it is there and can be; a failure says why.
pub proof fn law_directories_are_listed(
    m: SourceManager,
    path: &str,
    listing: Option<Result<Vec<String>, String>>,
    r: Result<Vec<String>, String>,
)
    requires
        call_ensures(SourceManager::list_files, (&m, path, listing), r),
    ensures
        r is Ok <==> stays_below(m@.peripheral, path@) && listing is Some && listing->0 is Ok,
        r is Ok ==> texts(r->Ok_0@) == listing_of(
            m@.peripheral,
            path@,
            texts(listing->0->Ok_0@),
        ),
        stays_below(m@.peripheral, path@) && listing is None ==> contains_text(r->Err_0@, path@),
        stays_below(m@.peripheral, path@) && listing is Some && listing->0 is Err ==> contains_text(
            r->Err_0@,
            listing->0->Err_0@,
        ),
{
    if stays_below(m@.peripheral, path@) && listing is None {
        let tail = "' (resolved to "@ + joined(m@.peripheral, path@) + ")"@;
        assert(r->Err_0@ =~= "Directory not found: '"@ + path@ + tail);
        law_parts_are_found("Directory not found: '"@, path@, tail, r->Err_0@);
    } else if stays_below(m@.peripheral, path@) && listing->0 is Err {
        let e = listing->0->Err_0@;
        assert(r->Err_0@ =~= "List error: "@ + e + Seq::<char>::empty());
        law_parts_are_found("List error: "@, e, Seq::empty(), r->Err_0@);
    }
}

/// A search begins where there is something to search for and something to
/// search in, for the text as it is given and with as many results as asked for.
pub proof fn law_searches_begin_as_asked(
    m: SourceManager,
    query: &str,
    path: &str,
    max: usize,
    there: bool,
    r: Result<SourceSearch, String>,
)
    requires
        call_ensures(SourceManager::search, (&m, query, path, max, there), r),
    ensures
        r is Ok <==> trimmed(query@).len() > 0 && stays_below(m@.peripheral, path@) && there,
        r is Ok ==> r->Ok_0@.query == query@ && r->Ok_0@.max == max && r->Ok_0@.results.len() == 0,
{
}

/// An absolute path has to begin with the names of the root, which has to be
/// absolute itself.
pub proof fn law_absolute_paths_begin_with_the_root(root: Seq<char>, path: Seq<char>)
    requires
        absolute(path),
        stays_below(root, path),
    ensures
        absolute(root),
        components(path).len() >= components(root).len(),
        forall|i: int|
            0 <= i < components(root).len() ==> #[trigger] components(root)[i] == components(
                path,
            )[i],
{
}

/// The steps of a search over what it comes across: files that are left out make
/// no difference, a file that is read adds its lines, and the first file beyond
/// the limit ends it.
pub proof fn law_searches_go_on_file_by_file(
    s: Search,
    rules: Rules,
    e: Entry,
    rest: Seq<Entry>,
)
    ensures
        walked(s, rules, Seq::empty()) == s,
        visit_to(s, rules, e.path, e.is_dir) is Skip ==> walked(s, rules, seq![e] + rest) == walked(
            s,
            rules,
            rest,
        ),
        visit_to(s, rules, e.path, e.is_dir) is Read && e.content is Some ==> walked(
            s,
            rules,
            seq![e] + rest,
        ) == walked(s.after_file(e.name, e.content->0), rules, rest),
        visit_to(s, rules, e.path, e.is_dir) is Stop ==> walked(s, rules, seq![e] + rest) == s,
{
    assert((seq![e] + rest).skip(1) =~= rest);
}

} // verus!
