//! The rules of a `.gitignore` file, by which a search leaves files out.

use crate::split::{lines, lines_of, texts, trim_end};
use crate::text::{chars_of, string_from};
use crate::version::{opt_text, sentence};
use ignore::gitignore::{Gitignore, GitignoreBuilder};
use vstd::prelude::*;
use vstd::string::*;

verus! {

/// Declares `ignore::gitignore::GitignoreBuilder`, which collects the lines of
/// a `.gitignore` file.
#[verifier::external_type_specification]
#[verifier::external_body]
pub struct ExGitignoreBuilder(GitignoreBuilder);

/// Declares `ignore::gitignore::Gitignore`, the rules that the lines amount to.
#[verifier::external_type_specification]
#[verifier::external_body]
pub struct ExGitignore(Gitignore);

/// The directory that a builder was made for, without a leading `./`.
pub uninterp spec fn builder_root(b: GitignoreBuilder) -> Seq<char>;

/// The rules that a builder has kept, as it keeps their text.
pub uninterp spec fn builder_rules(b: GitignoreBuilder) -> Seq<Seq<char>>;

/// Whether a builder has read all its rules as it does by default: with regard
/// to case, and with an unclosed `[` standing for itself.
pub uninterp spec fn builder_is_plain(b: GitignoreBuilder) -> bool;

/// The directory that rules apply to. Where no rule was kept there is none, and
/// this is empty.
pub uninterp spec fn rule_root(g: Gitignore) -> Seq<char>;

/// The rules that were kept.
pub uninterp spec fn rule_lines(g: Gitignore) -> Seq<Seq<char>>;

/// Whether all rules were read as they are by default.
pub uninterp spec fn rules_are_plain(g: Gitignore) -> bool;

/// Whether a line is a rule: it is no comment, not blank, and a pattern.
pub uninterp spec fn is_rule(line: Seq<char>) -> bool;

/// Why no matcher can be made for rules, where that is so.
pub uninterp spec fn rules_error(rules: Seq<Seq<char>>) -> Option<Seq<char>>;

/// Whether the rules leave a file out, for its own sake or for that of a
/// directory that it is in.
pub uninterp spec fn path_ignored(
    root: Seq<char>,
    rules: Seq<Seq<char>>,
    path: Seq<char>,
) -> bool;

/// A path without a leading `./`.
pub open spec fn without_dot(path: Seq<char>) -> Seq<char> {
    if path.len() >= 2 && path[0] == '.' && path[1] == '/' {
        path.skip(2)
    } else {
        path
    }
}

/// The text of a rule: its line without trailing white space, which stays where
/// the line ends in a space behind a backslash.
pub open spec fn rule_text(line: Seq<char>) -> Seq<char> {
    if line.len() >= 2 && line[line.len() - 2] == '\\' && line.last() == ' ' {
        line
    } else {
        trim_end(line)
    }
}

/// Whether a line is a comment or blank.
pub open spec fn says_nothing(line: Seq<char>) -> bool {
    line.len() > 0 && line[0] == '#' || rule_text(line).len() == 0
}

/// `GitignoreBuilder::new`: a builder for the files below a directory, which
/// reads lines as by default and has kept no rule. It drops a leading `./` of
/// the directory.
#[verifier::external_body]
fn new_builder(root: &str) -> (b: GitignoreBuilder)
    ensures
        builder_root(b) == without_dot(root@),
        builder_rules(b) == Seq::<Seq<char>>::empty(),
        builder_is_plain(b),
{
    GitignoreBuilder::new(root)
}

/// `GitignoreBuilder::add_line`: keeps a line where it is a rule, and changes
/// nothing where it is none. A line that begins with `#` or that is blank is
/// none; what else is none is not said. That a line is none is not reported.
#[verifier::external_body]
fn add_line(b: &mut GitignoreBuilder, line: &str)
    requires
        builder_is_plain(*old(b)),
    ensures
        builder_is_plain(*final(b)),
        builder_root(*final(b)) == builder_root(*old(b)),
        builder_rules(*final(b)) == (if is_rule(line@) {
            builder_rules(*old(b)).push(rule_text(line@))
        } else {
            builder_rules(*old(b))
        }),
        says_nothing(line@) ==> builder_rules(*final(b)) == builder_rules(*old(b)),
{
    let _ = b.add_line(None, line);
}

/// `GitignoreBuilder::build`: a matcher for the rules that were kept, or why
/// there is none. Where no rule was kept the matcher is an empty one, which is
/// tied to no directory.
#[verifier::external_body]
fn build(b: &GitignoreBuilder) -> (r: Result<Gitignore, String>)
    requires
        builder_is_plain(*b),
    ensures
        builder_rules(*b).len() == 0 ==> r is Ok && rule_root(r->Ok_0) == Seq::<char>::empty(),
        builder_rules(*b).len() > 0 ==> (match rules_error(builder_rules(*b)) {
            Some(e) => r is Err && r->Err_0@ == e,
            None => r is Ok && rule_root(r->Ok_0) == builder_root(*b),
        }),
        r is Ok ==> rule_lines(r->Ok_0) == builder_rules(*b) && rules_are_plain(r->Ok_0),
{
    b.build().map_err(|e| e.to_string())
}

/// `Gitignore::is_empty`: whether no rule was kept.
#[verifier::external_body]
fn is_empty(g: &Gitignore) -> (b: bool)
    ensures
        b == (rule_lines(*g).len() == 0),
{
    g.is_empty()
}

/// The path continues the root by a slash and at least one further character,
/// which is no slash.
pub open spec fn lies_below(root: Seq<char>, path: Seq<char>) -> bool {
    &&& path.len() > root.len() + 1
    &&& path.take(root.len() as int) == root
    &&& path[root.len() as int] == '/'
    &&& path[root.len() as int + 1] != '/'
}

/// `Gitignore::matched_path_or_any_parents` for a file: whether the rules leave
/// it out. Without a rule nothing is left out. The call panics where there are
/// rules and the path does not lie below their directory. It drops a leading
/// `./` of the path first.
#[verifier::external_body]
fn matched(g: &Gitignore, path: &str) -> (b: bool)
    requires
        rules_are_plain(*g),
        rule_lines(*g).len() == 0 || lies_below(rule_root(*g), without_dot(path@)),
    ensures
        b == path_ignored(rule_root(*g), rule_lines(*g), path@),
        rule_lines(*g).len() == 0 ==> !b,
{
    g.matched_path_or_any_parents(path, false).is_ignore()
}

/// A text without byte order marks at its start.
pub open spec fn without_marks(s: Seq<char>) -> Seq<char>
    decreases s.len(),
{
    if s.len() > 0 && s[0] == '\u{feff}' {
        without_marks(s.skip(1))
    } else {
        s
    }
}

/// A text without byte order marks at its start.
fn skip_marks(s: &str) -> (r: String)
    ensures
        r@ == without_marks(s@),
{
    let v = chars_of(s);
    let mut i: usize = 0;
    assert(v@.skip(0) =~= v@);
    while i < v.len() && v[i] == '\u{feff}'
        invariant
            i <= v@.len(),
            without_marks(v@.skip(i as int)) == without_marks(v@),
        decreases v@.len() - i,
    {
        assert(v@.skip(i as int).skip(1) =~= v@.skip(i + 1));
        i += 1;
    }
    assert(without_marks(v@.skip(i as int)) == v@.skip(i as int));
    let n: usize = v.len();
    string_from(&v, i, n)
}

/// The lines of a `.gitignore` file, without a byte order mark. A file that is
/// not there has none.
pub open spec fn ignore_lines(content: Option<Seq<char>>) -> Seq<Seq<char>> {
    match content {
        None => Seq::empty(),
        Some(t) => {
            let all = lines(t);
            if all.len() == 0 {
                all
            } else {
                all.update(0, without_marks(all[0]))
            }
        },
    }
}

/// Every line is a comment or blank.
pub open spec fn only_comments(lines: Seq<Seq<char>>) -> bool {
    forall|i: int| 0 <= i < lines.len() ==> says_nothing(#[trigger] lines[i])
}

/// The rules that lines hold.
pub open spec fn rules_of(lines: Seq<Seq<char>>) -> Seq<Seq<char>>
    decreases lines.len(),
{
    if lines.len() == 0 {
        Seq::empty()
    } else {
        let before = rules_of(lines.drop_last());
        if is_rule(lines.last()) {
            before.push(rule_text(lines.last()))
        } else {
            before
        }
    }
}

/// The rules of a directory.
pub struct IgnoreRules {
    root: String,
    rules: Gitignore,
}

/// The content of `IgnoreRules`: the directory, without a leading `./`, and the
/// rules of its file.
pub ghost struct Rules {
    pub root: Seq<char>,
    pub lines: Seq<Seq<char>>,
}

impl View for IgnoreRules {
    type V = Rules;

    closed spec fn view(&self) -> Rules {
        Rules { root: self.root@, lines: rule_lines(self.rules) }
    }
}

impl Rules {
    /// There are no rules, or the path lies below their directory.
    pub open spec fn apply_to(self, path: Seq<char>) -> bool {
        self.lines.len() == 0 || lies_below(self.root, without_dot(path))
    }

    /// Whether the rules leave a file out.
    pub open spec fn leave_out(self, path: Seq<char>) -> bool {
        self.lines.len() > 0 && path_ignored(self.root, self.lines, path)
    }
}

impl IgnoreRules {
    #[verifier::type_invariant]
    spec fn of_its_root(self) -> bool {
        &&& rules_are_plain(self.rules)
        &&& rule_lines(self.rules).len() > 0 ==> rule_root(self.rules) == self.root@
    }

    /// The rules of a directory, given what its `.gitignore` file says.
    pub fn read(root: &str, content: &Option<String>) -> (r: Result<IgnoreRules, String>)
        ensures
            ({
                let rules = rules_of(ignore_lines(opt_text(*content)));
                if rules.len() > 0 && rules_error(rules) is Some {
                    r is Err && r->Err_0@ == "Failed to parse .gitignore: "@ + rules_error(
                        rules,
                    )->Some_0
                } else {
                    r is Ok && r->Ok_0@ == (Rules { root: without_dot(root@), lines: rules })
                }
            }),
            only_comments(ignore_lines(opt_text(*content))) ==> r is Ok && r->Ok_0@.lines.len()
                == 0,
    {
        let mut b = new_builder(root);
        match content {
            None => {},
            Some(t) => {
                let all = lines_of(t.as_str());
                let ghost want = ignore_lines(Some(t@));
                let ghost l = texts(all@);
                let mut i: usize = 0;
                assert(builder_rules(b) =~= rules_of(want.take(0)));
                while i < all.len()
                    invariant
                        i <= all@.len(),
                        l == texts(all@),
                        want.len() == l.len(),
                        l.len() > 0 ==> want == l.update(0, without_marks(l[0])),
                        builder_is_plain(b),
                        builder_root(b) == without_dot(root@),
                        builder_rules(b) == rules_of(want.take(i as int)),
                        only_comments(want) ==> builder_rules(b).len() == 0,
                    decreases all@.len() - i,
                {
                    assert(l[i as int] == all@[i as int]@);
                    assert(want.take(i + 1).last() == want[i as int]);
                    assert(want.take(i + 1).drop_last() =~= want.take(i as int));
                    if i == 0 {
                        let first = skip_marks(all[0].as_str());
                        add_line(&mut b, first.as_str());
                    } else {
                        add_line(&mut b, all[i].as_str());
                    }
                    i += 1;
                }
                assert(want.take(all@.len() as int) =~= want);
            },
        }
        match build(&b) {
            Ok(rules) => Ok(IgnoreRules { root: skip_dot(root), rules }),
            Err(e) => Err(sentence("Failed to parse .gitignore: ", e.as_str())),
        }
    }

    /// Whether the rules leave a file out, or nothing where there are rules and
    /// the file does not lie below their directory.
    pub fn leave_out(&self, path: &str) -> (r: Option<bool>)
        ensures
            r is Some <==> self@.apply_to(path@),
            r is Some ==> r->Some_0 == self@.leave_out(path@),
            self@.lines.len() == 0 ==> r == Some(false),
    {
        proof {
            use_type_invariant(self);
        }
        if is_empty(&self.rules) || is_below(self.root.as_str(), skip_dot(path).as_str()) {
            Some(matched(&self.rules, path))
        } else {
            None
        }
    }
}

/// A path without a leading `./`.
fn skip_dot(path: &str) -> (r: String)
    ensures
        r@ == without_dot(path@),
{
    let v = chars_of(path);
    let n: usize = v.len();
    if n >= 2 && v[0] == '.' && v[1] == '/' {
        assert(v@.subrange(2, n as int) =~= v@.skip(2));
        string_from(&v, 2, n)
    } else {
        path.to_owned()
    }
}

/// Whether the path lies below the root.
fn is_below(root: &str, path: &str) -> (b: bool)
    ensures
        b == lies_below(root@, path@),
{
    let r = chars_of(root);
    let p = chars_of(path);
    let n: usize = r.len();
    if p.len() <= n || p.len() - n <= 1 {
        return false;
    }
    let mut i: usize = 0;
    while i < n
        invariant
            i <= n,
            n == r@.len(),
            n < p@.len(),
            r@ == root@,
            p@ == path@,
            forall|k: int| 0 <= k < i ==> p@[k] == r@[k],
        decreases n - i,
    {
        if p[i] != r[i] {
            assert(p@.take(n as int)[i as int] != r@[i as int]);
            return false;
        }
        i += 1;
    }
    assert(p@.take(n as int) =~= r@);
    p[n] == '/' && p[n + 1] != '/'
}

/// A leading dot and slash makes no difference to a path.
pub proof fn law_leading_dot_is_dropped(path: Seq<char>)
    ensures
        without_dot(seq!['.', '/'] + path) == path,
        path.len() < 2 || path[0] != '.' || path[1] != '/' ==> without_dot(path) == path,
{
    assert((seq!['.', '/'] + path).skip(2) =~= path);
}

/// What stands behind a directory and a slash lies below it, and nothing else.
pub proof fn law_paths_below_continue_the_root(root: Seq<char>, rest: Seq<char>, path: Seq<char>)
    ensures
        rest.len() > 0 && rest[0] != '/' ==> lies_below(root, root + seq!['/'] + rest),
        lies_below(root, path) ==> exists|r: Seq<char>|
            r.len() > 0 && r[0] != '/' && path == #[trigger] (root + seq!['/'] + r),
{
    let all = root + seq!['/'] + rest;
    assert(all.take(root.len() as int) =~= root);
    if lies_below(root, path) {
        let r = path.skip(root.len() as int + 1);
        assert(path =~= root + seq!['/'] + r);
    }
}

/// A byte order mark at the start of a file is no part of its first line; all
/// other lines are those of the file.
pub proof fn law_byte_order_marks_are_dropped(t: Seq<char>, s: Seq<char>)
    ensures
        without_marks(seq!['\u{feff}'] + s) == without_marks(s),
        s.len() == 0 || s[0] != '\u{feff}' ==> without_marks(s) == s,
        ignore_lines(None).len() == 0,
        ignore_lines(Some(t)).len() == lines(t).len(),
        lines(t).len() > 0 ==> ignore_lines(Some(t))[0] == without_marks(lines(t)[0]),
        forall|i: int|
            1 <= i < lines(t).len() ==> #[trigger] ignore_lines(Some(t))[i] == lines(t)[i],
{
    assert((seq!['\u{feff}'] + s).skip(1) =~= s);
}

/// Comments and blank lines say nothing. The text of a rule has no white space
/// behind it, unless a backslash keeps its last blank.
pub proof fn law_lines_that_say_nothing(line: Seq<char>)
    ensures
        says_nothing(Seq::empty()),
        line.len() > 0 && line[0] == '#' ==> says_nothing(line),
        line.len() > 0 && line[0] != '#' && trim_end(line).len() > 0 ==> !says_nothing(line),
        line.len() < 2 || line[line.len() - 2] != '\\' || line.last() != ' ' ==> rule_text(line)
            == trim_end(line),
        line.len() >= 2 && line[line.len() - 2] == '\\' && line.last() == ' ' ==> rule_text(line)
            == line,
{
}

/// The rules are those of the lines that are rules, in their order.
pub proof fn law_rules_are_kept_in_order(all: Seq<Seq<char>>, line: Seq<char>)
    ensures
        rules_of(Seq::empty()).len() == 0,
        is_rule(line) ==> rules_of(all.push(line)) == rules_of(all).push(rule_text(line)),
        !is_rule(line) ==> rules_of(all.push(line)) == rules_of(all),
{
    assert(all.push(line).drop_last() =~= all);
}

/// Without rules nothing is left out and every path is within them; with rules
/// only paths below their directory are.
pub proof fn law_rules_apply_below_their_directory(r: Rules, path: Seq<char>)
    ensures
        r.lines.len() == 0 ==> r.apply_to(path) && !r.leave_out(path),
        r.lines.len() > 0 ==> (r.apply_to(path) <==> lies_below(r.root, without_dot(path))),
        r.lines.len() > 0 ==> (r.leave_out(path) <==> path_ignored(r.root, r.lines, path)),
{
}

} // verus!
