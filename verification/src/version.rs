//! Version management on git branches. Every version is a branch `V1`, `V2`, …
//! of one repository; the current version is the branch that is checked out.

use crate::paths::{join, joined};
use crate::scan::{contains_text, law_parts_are_found};
use crate::split::{
    law_pieces_of_both_sides, law_pieces_stand_between_separators, lemma_texts_push, lines, lines_of, pieces, split_char, texts, trim, trimmed,
};
use crate::text::{dec, parsed_u32, read_u32, str_eq};
use vstd::prelude::*;
use vstd::string::*;

verus! {

/// Failed upgrades in a row after which no further version is made.
pub const MAX_CONSECUTIVE_FAILURES: u32 = 3;

/// What a finished command reported.
pub struct CommandOutcome {
    /// Why the command could not be run at all.
    pub spawn_error: Option<String>,
    pub success: bool,
    pub stdout: String,
    pub stderr: String,
}

/// The content of a `CommandOutcome`.
pub ghost struct Outcome {
    pub spawn_error: Option<Seq<char>>,
    pub success: bool,
    pub stdout: Seq<char>,
    pub stderr: Seq<char>,
}

/// The content of an optional string.
pub open spec fn opt_text(s: Option<String>) -> Option<Seq<char>> {
    match s {
        Some(t) => Some(t@),
        None => None,
    }
}

impl View for CommandOutcome {
    type V = Outcome;

    open spec fn view(&self) -> Outcome {
        Outcome {
            spawn_error: opt_text(self.spawn_error),
            success: self.success,
            stdout: self.stdout@,
            stderr: self.stderr@,
        }
    }
}

impl Outcome {
    /// The command ran and succeeded.
    pub open spec fn ok(self) -> bool {
        self.spawn_error is None && self.success
    }

    /// What the failure of a command is reported with: why it could not be run, or
    /// what it wrote to standard error.
    pub open spec fn problem(self) -> Seq<char> {
        match self.spawn_error {
            Some(e) => e,
            None => self.stderr,
        }
    }
}

impl CommandOutcome {
    pub fn ok(&self) -> (b: bool)
        ensures
            b == self@.ok(),
    {
        self.spawn_error.is_none() && self.success
    }

    /// What the failure of the command is reported with.
    pub fn problem(&self) -> (s: &str)
        ensures
            s@ == self@.problem(),
    {
        match &self.spawn_error {
            Some(e) => e.as_str(),
            None => self.stderr.as_str(),
        }
    }
}

/// The number of a version branch: `V` followed by a number.
pub open spec fn version_number(name: Seq<char>) -> Option<u32> {
    if name.len() > 0 && name[0] == 'V' {
        parsed_u32(name.skip(1))
    } else {
        None
    }
}

/// The number of a version branch.
pub fn read_version(name: &str) -> (n: Option<u32>)
    ensures
        n == version_number(name@),
{
    let len: usize = name.unicode_len();
    if len > 0 && name.get_char(0) == 'V' {
        let rest = name.substring_char(1, len);
        assert(rest@ =~= name@.skip(1));
        read_u32(rest)
    } else {
        None
    }
}

/// The name of the version with a number.
pub open spec fn version_name(n: nat) -> Seq<char> {
    "V"@ + dec(n)
}

/// The version branch with the highest number among the listed names; the
/// first one where several have it.
pub open spec fn highest(names: Seq<Seq<char>>) -> Option<(u32, Seq<char>)>
    decreases names.len(),
{
    if names.len() == 0 {
        None
    } else {
        let before = highest(names.drop_last());
        let name = trimmed(names.last());
        match version_number(name) {
            Some(n) => if before is None || n > before->Some_0.0 {
                Some((n, name))
            } else {
                before
            },
            None => before,
        }
    }
}

/// Finds the version branch with the highest number in a branch listing.
pub fn highest_version(listing: &str) -> (r: Option<(u32, String)>)
    ensures
        r is Some <==> highest(lines(listing@)) is Some,
        r is Some ==> r->Some_0.0 == highest(lines(listing@))->Some_0.0 && r->Some_0.1@
            == highest(lines(listing@))->Some_0.1,
{
    let all = lines_of(listing);
    let ghost names = texts(all@);
    let mut best: Option<(u32, String)> = None;
    let mut i: usize = 0;
    while i < all.len()
        invariant
            i <= all@.len(),
            names == texts(all@),
            best is Some <==> highest(names.take(i as int)) is Some,
            best is Some ==> best->Some_0.0 == highest(names.take(i as int))->Some_0.0
                && best->Some_0.1@ == highest(names.take(i as int))->Some_0.1,
        decreases all@.len() - i,
    {
        assert(names.take(i + 1).drop_last() =~= names.take(i as int));
        let name = trim(all[i].as_str());
        match read_version(name.as_str()) {
            Some(n) => {
                let better = match &best {
                    Some(b) => n > b.0,
                    None => true,
                };
                if better {
                    best = Some((n, name));
                }
            },
            None => {},
        }
        i += 1;
    }
    assert(names.take(all@.len() as int) =~= names);
    best
}

/// The highest version number in use, 0 where there is none.
pub open spec fn max_version(names: Seq<Seq<char>>) -> u32 {
    match highest(names) {
        Some(b) => b.0,
        None => 0,
    }
}

/// The number of the next version, given what listing the branches reported.
pub fn next_version_number(listing: &CommandOutcome) -> (n: u32)
    requires
        listing@.ok() ==> max_version(lines(listing@.stdout)) < u32::MAX,
    ensures
        n == (if listing@.ok() {
            max_version(lines(listing@.stdout)) + 1
        } else {
            1
        }),
{
    if listing.ok() {
        match highest_version(listing.stdout.as_str()) {
            Some(b) => b.0 + 1,
            None => 1,
        }
    } else {
        1
    }
}

/// The version that is checked out, given whether there is a repository and
/// what asking for its branch reported.
pub open spec fn branch_version(has_repo: bool, o: Outcome) -> Option<Seq<char>> {
    if has_repo && o.ok() && version_number(trimmed(o.stdout)) is Some {
        Some(trimmed(o.stdout))
    } else {
        None
    }
}

/// The version branch that a command named, if it named one.
fn read_branch(has_repo: bool, o: &CommandOutcome) -> (v: Option<String>)
    ensures
        opt_text(v) == branch_version(has_repo, o@),
{
    if !has_repo || !o.ok() {
        return None;
    }
    let branch = trim(o.stdout.as_str());
    if read_version(branch.as_str()).is_some() {
        Some(branch)
    } else {
        None
    }
}

/// The names of version branches among the listed names, in their order.
pub open spec fn version_names(names: Seq<Seq<char>>) -> Seq<Seq<char>>
    decreases names.len(),
{
    if names.len() == 0 {
        Seq::empty()
    } else {
        let before = version_names(names.drop_last());
        if version_number(trimmed(names.last())) is Some {
            before.push(trimmed(names.last()))
        } else {
            before
        }
    }
}

/// The number that a version is sorted by.
pub open spec fn sort_key(name: Seq<char>) -> u32 {
    match version_number(name) {
        Some(n) => n,
        None => 0,
    }
}

/// Where a name goes in a sorted list: behind every name that does not sort after it.
pub open spec fn insert_position(sorted: Seq<Seq<char>>, name: Seq<char>) -> int
    decreases sorted.len(),
{
    if sorted.len() == 0 || sort_key(sorted.last()) <= sort_key(name) {
        sorted.len() as int
    } else {
        insert_position(sorted.drop_last(), name)
    }
}

/// The names sorted by their number, those of equal number in their order.
pub open spec fn sorted_versions(names: Seq<Seq<char>>) -> Seq<Seq<char>>
    decreases names.len(),
{
    if names.len() == 0 {
        Seq::empty()
    } else {
        let before = sorted_versions(names.drop_last());
        before.insert(insert_position(before, names.last()), names.last())
    }
}

proof fn lemma_insert_position(sorted: Seq<Seq<char>>, name: Seq<char>)
    ensures
        0 <= insert_position(sorted, name) <= sorted.len(),
        forall|i: int|
            insert_position(sorted, name) <= i < sorted.len() ==> sort_key(#[trigger] sorted[i])
                > sort_key(name),
        insert_position(sorted, name) > 0 ==> sort_key(sorted[insert_position(sorted, name) - 1])
            <= sort_key(name),
    decreases sorted.len(),
{
    if sorted.len() > 0 && sort_key(sorted.last()) > sort_key(name) {
        let d = sorted.drop_last();
        lemma_insert_position(d, name);
        assert forall|i: int| insert_position(sorted, name) <= i < sorted.len() implies sort_key(
            #[trigger] sorted[i],
        ) > sort_key(name) by {
            if i < d.len() {
                assert(d[i] == sorted[i]);
            }
        }
    }
}

proof fn lemma_position_prefix(sorted: Seq<Seq<char>>, name: Seq<char>, n: int)
    requires
        0 <= n <= sorted.len(),
        forall|i: int| n <= i < sorted.len() ==> sort_key(#[trigger] sorted[i]) > sort_key(name),
    ensures
        insert_position(sorted, name) == insert_position(sorted.take(n), name),
    decreases sorted.len(),
{
    if n < sorted.len() {
        let d = sorted.drop_last();
        assert(sort_key(sorted[sorted.len() - 1]) > sort_key(name));
        assert forall|i: int| n <= i < d.len() implies sort_key(#[trigger] d[i]) > sort_key(
            name,
        ) by {
            assert(d[i] == sorted[i]);
        }
        lemma_position_prefix(d, name, n);
        assert(d.take(n) =~= sorted.take(n));
    } else {
        assert(sorted.take(n) =~= sorted);
    }
}

fn key_of(name: &str) -> (k: u32)
    ensures
        k == sort_key(name@),
{
    match read_version(name) {
        Some(n) => n,
        None => 0,
    }
}

/// Puts a name into a sorted list.
fn insert_sorted(list: &mut Vec<String>, name: String)
    ensures
        texts(final(list)@) == texts(old(list)@).insert(
            insert_position(texts(old(list)@), name@),
            name@,
        ),
{
    let key: u32 = key_of(name.as_str());
    let ghost t = texts(list@);
    let mut at: usize = list.len();
    while at > 0
        invariant_except_break
            at <= list@.len(),
            t == texts(list@),
            list@ == old(list)@,
            key == sort_key(name@),
            forall|i: int| at <= i < t.len() ==> sort_key(#[trigger] t[i]) > sort_key(name@),
        ensures
            at <= list@.len(),
            list@ == old(list)@,
            t == texts(list@),
            forall|i: int| at <= i < t.len() ==> sort_key(#[trigger] t[i]) > sort_key(name@),
            at == 0 || sort_key(t[at - 1]) <= sort_key(name@),
        decreases at,
    {
        assert(t[at - 1] == list@[at - 1]@);
        if key_of(list[at - 1].as_str()) <= key {
            break;
        }
        at -= 1;
    }
    proof {
        lemma_position_prefix(t, name@, at as int);
        if at > 0 {
            assert(t.take(at as int).last() == t[at - 1]);
        }
        assert(insert_position(t, name@) == at);
    }
    list.insert(at, name);
    assert(texts(list@) =~= t.insert(at as int, name@));
}

/// The version branches of a listing, sorted by number.
pub fn sort_listing(listing: &str) -> (r: Vec<String>)
    ensures
        texts(r@) == sorted_versions(version_names(lines(listing@))),
{
    let all = lines_of(listing);
    let ghost names = texts(all@);
    let mut r: Vec<String> = Vec::new();
    let mut i: usize = 0;
    assert(texts(r@) =~= sorted_versions(version_names(names.take(0))));
    while i < all.len()
        invariant
            i <= all@.len(),
            names == texts(all@),
            texts(r@) == sorted_versions(version_names(names.take(i as int))),
        decreases all@.len() - i,
    {
        let ghost before = version_names(names.take(i as int));
        assert(names.take(i + 1).drop_last() =~= names.take(i as int));
        let name = trim(all[i].as_str());
        if read_version(name.as_str()).is_some() {
            assert(before.push(name@).drop_last() =~= before);
            insert_sorted(&mut r, name);
        }
        i += 1;
    }
    assert(names.take(all@.len() as int) =~= names);
    r
}

/// The versions that may be removed: the oldest, beyond the `keep` newest,
/// of those that are neither current nor the rollback target.
pub open spec fn removable(
    versions: Seq<Seq<char>>,
    current: Option<Seq<char>>,
    rollback: Option<Seq<char>>,
    keep: nat,
) -> Seq<Seq<char>> {
    let rest = spare_versions(versions, current, rollback);
    if rest.len() <= keep {
        Seq::empty()
    } else {
        rest.take(rest.len() - keep)
    }
}

/// The versions that are neither current nor the rollback target, in their order.
pub open spec fn spare_versions(
    versions: Seq<Seq<char>>,
    current: Option<Seq<char>>,
    rollback: Option<Seq<char>>,
) -> Seq<Seq<char>> {
    versions.filter(|v: Seq<char>| Some(v) != current && Some(v) != rollback)
}

fn is_named(name: &str, version: &Option<String>) -> (b: bool)
    ensures
        b == (opt_text(*version) == Some(name@)),
{
    match version {
        Some(v) => str_eq(v.as_str(), name),
        None => false,
    }
}

/// The facts on a version's last commit.
pub struct VersionDetail {
    pub version: String,
    pub commit: String,
    pub date: String,
    pub subject: String,
}

/// The `i`-th line of a text, empty where there is none.
pub open spec fn line_or_empty(text: Seq<char>, i: int) -> Seq<char> {
    if i < lines(text).len() {
        lines(text)[i]
    } else {
        Seq::empty()
    }
}

fn take_line(all: &Vec<String>, i: usize) -> (s: String)
    ensures
        s@ == (if i < all@.len() {
            all@[i as int]@
        } else {
            Seq::empty()
        }),
{
    if i < all.len() {
        all[i].clone()
    } else {
        String::new()
    }
}

/// The facts on a version, given what verifying its branch and reading its log reported.
pub fn version_detail(version: &str, check: &CommandOutcome, log: &CommandOutcome) -> (r: Result<
    VersionDetail,
    String,
>)
    ensures
        r is Ok <==> check@.ok() && log@.ok(),
        check@.spawn_error is Some ==> r is Err && r->Err_0@ == "git rev-parse failed: "@
            + check@.problem(),
        check@.spawn_error is None && !check@.success ==> r is Err && r->Err_0@
            == "Version branch does not exist: "@ + version@,
        check@.ok() && !log@.ok() ==> r is Err && r->Err_0@ == "git log failed: "@
            + log@.problem(),
        r is Ok ==> {
            &&& r->Ok_0.version@ == version@
            &&& r->Ok_0.commit@ == line_or_empty(log@.stdout, 0)
            &&& r->Ok_0.date@ == line_or_empty(log@.stdout, 1)
            &&& r->Ok_0.subject@ == line_or_empty(log@.stdout, 2)
        },
{
    if check.spawn_error.is_some() {
        return Err(sentence("git rev-parse failed: ", check.problem()));
    }
    if !check.success {
        return Err(sentence("Version branch does not exist: ", version));
    }
    if !log.ok() {
        return Err(sentence("git log failed: ", log.problem()));
    }
    let all = lines_of(log.stdout.as_str());
    proof {
        assert(texts(all@).len() == all@.len());
        assert(all@.len() > 0 ==> texts(all@)[0] == all@[0]@);
        assert(all@.len() > 1 ==> texts(all@)[1] == all@[1]@);
        assert(all@.len() > 2 ==> texts(all@)[2] == all@[2]@);
    }
    Ok(
        VersionDetail {
            version: version.to_owned(),
            commit: take_line(&all, 0),
            date: take_line(&all, 1),
            subject: take_line(&all, 2),
        },
    )
}

/// Two strings in one.
pub(crate) fn sentence(a: &str, b: &str) -> (s: String)
    ensures
        s@ == a@ + b@,
{
    let mut s = a.to_owned();
    s.append(b);
    s
}

/// The entries of a source directory that cleaning and copying leave alone.
pub open spec fn is_preserved(name: Seq<char>) -> bool {
    name == ".git"@ || name == "target"@
}

/// Whether an entry of a source directory is left alone.
pub fn preserves(name: &str) -> (b: bool)
    ensures
        b == is_preserved(name@),
{
    str_eq(name, ".git") || str_eq(name, "target")
}

/// The names of a directory that cleaning removes.
pub open spec fn unpreserved(names: Seq<Seq<char>>) -> Seq<Seq<char>> {
    names.filter(|n: Seq<char>| !is_preserved(n))
}

/// Whether some part of a path is left alone.
pub open spec fn on_preserved_path(path: Seq<char>) -> bool {
    exists|i: int|
        0 <= i < pieces(path, '/').len() && is_preserved(#[trigger] pieces(path, '/')[i])
}

/// The paths of a new source that copying takes over.
pub open spec fn copied(paths: Seq<Seq<char>>) -> Seq<Seq<char>> {
    paths.filter(|p: Seq<char>| !on_preserved_path(p))
}

/// How a source directory takes over a new source.
pub struct CopyPlan {
    /// The names to remove from the directory first.
    pub remove: Vec<String>,
    /// The paths to copy from the new source then.
    pub copy: Vec<String>,
}

fn crosses_preserved(path: &str) -> (b: bool)
    ensures
        b == on_preserved_path(path@),
{
    let parts = split_char(path, '/');
    let ghost names = texts(parts@);
    assert(names.len() == parts@.len());
    let mut i: usize = 0;
    while i < parts.len()
        invariant
            i <= parts@.len(),
            names == texts(parts@),
            names == pieces(path@, '/'),
            forall|k: int| 0 <= k < i ==> !is_preserved(#[trigger] names[k]),
        decreases parts@.len() - i,
    {
        assert(names[i as int] == parts@[i as int]@);
        if preserves(parts[i].as_str()) {
            return true;
        }
        i += 1;
    }
    false
}

/// The candidates whose deletion succeeded, in their order.
pub open spec fn deleted(candidates: Seq<Seq<char>>, outcomes: Seq<CommandOutcome>) -> Seq<
    Seq<char>,
>
    recommends
        candidates.len() == outcomes.len(),
    decreases candidates.len(),
{
    if candidates.len() == 0 {
        Seq::empty()
    } else {
        let before = deleted(candidates.drop_last(), outcomes.drop_last());
        if outcomes.last()@.ok() {
            before.push(candidates.last())
        } else {
            before
        }
    }
}

/// The versions that were deleted, given what each deletion reported.
pub fn deleted_versions(candidates: &Vec<String>, outcomes: &Vec<CommandOutcome>) -> (r: Vec<
    String,
>)
    requires
        candidates@.len() == outcomes@.len(),
    ensures
        texts(r@) == deleted(texts(candidates@), outcomes@),
{
    let ghost all = texts(candidates@);
    let mut r: Vec<String> = Vec::new();
    let mut i: usize = 0;
    assert(texts(r@) =~= deleted(all.take(0), outcomes@.take(0)));
    while i < candidates.len()
        invariant
            i <= candidates@.len(),
            candidates@.len() == outcomes@.len(),
            all == texts(candidates@),
            texts(r@) == deleted(all.take(i as int), outcomes@.take(i as int)),
        decreases candidates@.len() - i,
    {
        proof {
            assert(all.take(i + 1).drop_last() =~= all.take(i as int));
            assert(all.take(i + 1).last() == candidates@[i as int]@);
            assert(outcomes@.take(i + 1).drop_last() =~= outcomes@.take(i as int));
        }
        if outcomes[i].ok() {
            let s = candidates[i].clone();
            proof {
                lemma_texts_push(r@, s);
            }
            r.push(s);
        }
        i += 1;
    }
    assert(all.take(candidates@.len() as int) =~= all);
    assert(outcomes@.take(candidates@.len() as int) =~= outcomes@);
    r
}

/// Where the versions are kept, and how upgrades have gone.
pub struct VersionManager {
    base_dir: String,
    source_dir: String,
    binary_path: String,
    rollback_binary_path: String,
    consecutive_failures: u32,
    locked: bool,
}

/// A newly allocated version.
#[derive(Debug, Clone)]
pub struct VersionInfo {
    pub version: String,
    pub source_dir: String,
    pub binary_path: String,
}

/// The mathematical state of a `VersionManager`.
pub ghost struct VersionState {
    pub base_dir: Seq<char>,
    pub failures: nat,
    pub locked: bool,
}

impl View for VersionManager {
    type V = VersionState;

    closed spec fn view(&self) -> VersionState {
        VersionState {
            base_dir: self.base_dir@,
            failures: self.consecutive_failures as nat,
            locked: self.locked,
        }
    }
}

impl VersionState {
    pub open spec fn source_dir(self) -> Seq<char> {
        joined(self.base_dir, "source"@)
    }

    pub open spec fn binary_path(self) -> Seq<char> {
        joined(self.base_dir, "binary"@)
    }

    pub open spec fn rollback_binary_path(self) -> Seq<char> {
        joined(self.base_dir, "binary.rollback"@)
    }

    /// The state after one more failed upgrade.
    pub open spec fn failed(self) -> VersionState {
        VersionState {
            failures: self.failures + 1,
            locked: self.locked || self.failures + 1 >= MAX_CONSECUTIVE_FAILURES,
            ..self
        }
    }
}

impl VersionManager {
    /// The paths are those below the base directory.
    pub closed spec fn wf(self) -> bool {
        &&& self.source_dir@ == self@.source_dir()
        &&& self.binary_path@ == self@.binary_path()
        &&& self.rollback_binary_path@ == self@.rollback_binary_path()
    }

    pub fn new(base_dir: &str) -> (m: VersionManager)
        ensures
            m.wf(),
            m@ == (VersionState {
                base_dir: joined(base_dir@, "peripheral"@),
                failures: 0,
                locked: false,
            }),
    {
        let peripheral = join(base_dir, "peripheral");
        let source_dir = join(peripheral.as_str(), "source");
        let binary_path = join(peripheral.as_str(), "binary");
        let rollback_binary_path = join(peripheral.as_str(), "binary.rollback");
        VersionManager {
            base_dir: peripheral,
            source_dir,
            binary_path,
            rollback_binary_path,
            consecutive_failures: 0,
            locked: false,
        }
    }

    /// The directory that holds everything on the peripheral.
    pub fn base_dir(&self) -> (p: &str)
        ensures
            p@ == self@.base_dir,
    {
        self.base_dir.as_str()
    }

    pub fn source_dir(&self) -> (p: &str)
        requires
            self.wf(),
        ensures
            p@ == self@.source_dir(),
    {
        self.source_dir.as_str()
    }

    pub fn binary_path(&self) -> (p: &str)
        requires
            self.wf(),
        ensures
            p@ == self@.binary_path(),
    {
        self.binary_path.as_str()
    }

    pub fn rollback_binary_path(&self) -> (p: &str)
        requires
            self.wf(),
        ensures
            p@ == self@.rollback_binary_path(),
    {
        self.rollback_binary_path.as_str()
    }

    /// The current version, given whether there is a repository and what
    /// `git branch --show-current` reported.
    pub fn current_version(&self, has_repo: bool, branch: &CommandOutcome) -> (v: Option<String>)
        ensures
            opt_text(v) == branch_version(has_repo, branch@),
    {
        read_branch(has_repo, branch)
    }

    /// The rollback target, given whether there is a repository and what
    /// reading the rollback reference reported.
    pub fn rollback_version(&self, has_repo: bool, reference: &CommandOutcome) -> (v: Option<
        String,
    >)
        ensures
            opt_text(v) == branch_version(has_repo, reference@),
    {
        read_branch(has_repo, reference)
    }

    /// Whether the binary is there and belongs to the given version.
    pub fn has_binary(
        &self,
        version: &str,
        binary_exists: bool,
        current: &Option<String>,
    ) -> (b: bool)
        ensures
            b <==> binary_exists && opt_text(*current) == Some(version@),
    {
        binary_exists && is_named(version, current)
    }

    /// All versions sorted by number, given whether there is a repository and
    /// what listing its branches reported.
    pub fn list_versions(&self, has_repo: bool, listing: &CommandOutcome) -> (r: Vec<String>)
        ensures
            texts(r@) == (if has_repo && listing@.ok() {
                sorted_versions(version_names(lines(listing@.stdout)))
            } else {
                Seq::empty()
            }),
    {
        if has_repo && listing.ok() {
            sort_listing(listing.stdout.as_str())
        } else {
            let none: Vec<String> = Vec::new();
            assert(texts(none@) =~= Seq::empty());
            none
        }
    }

    /// The old versions to delete, beyond the `keep` newest of those that are
    /// neither current nor the rollback target.
    pub fn cleanup_old_versions(
        &self,
        versions: &Vec<String>,
        current: &Option<String>,
        rollback: &Option<String>,
        keep: usize,
    ) -> (r: Vec<String>)
        ensures
            texts(r@) == removable(
                texts(versions@),
                opt_text(*current),
                opt_text(*rollback),
                keep as nat,
            ),
    {
        let ghost all = texts(versions@);
        let ghost c = opt_text(*current);
        let ghost b = opt_text(*rollback);
        let mut rest: Vec<String> = Vec::new();
        let mut i: usize = 0;
        proof {
            reveal(Seq::filter);
            assert(texts(rest@) =~= spare_versions(all.take(0), c, b));
        }
        while i < versions.len()
            invariant
                i <= versions@.len(),
                all == texts(versions@),
                c == opt_text(*current),
                b == opt_text(*rollback),
                texts(rest@) == spare_versions(all.take(i as int), c, b),
            decreases versions@.len() - i,
        {
            proof {
                reveal(Seq::filter);
                assert(all.take(i + 1).drop_last() =~= all.take(i as int));
                assert(all.take(i + 1).last() == versions@[i as int]@);
            }
            let v = versions[i].as_str();
            if !is_named(v, current) && !is_named(v, rollback) {
                let s = v.to_owned();
                proof {
                    lemma_texts_push(rest@, s);
                }
                rest.push(s);
            }
            i += 1;
        }
        assert(all.take(versions@.len() as int) =~= all);
        assert(texts(rest@).len() == rest@.len());
        if rest.len() <= keep {
            let none: Vec<String> = Vec::new();
            assert(texts(none@) =~= Seq::empty());
            return none;
        }
        let n: usize = rest.len() - keep;
        let ghost before = rest@;
        rest.truncate(n);
        assert(texts(rest@) =~= texts(before).take(n as int));
        rest
    }

    /// Whether the branch of a version is there, given whether there is a
    /// repository and what verifying the branch reported.
    pub fn has_source(&self, has_repo: bool, check: &CommandOutcome) -> (b: bool)
        ensures
            b <==> has_repo && check@.ok(),
    {
        has_repo && check.ok()
    }

    /// What replacing the source directory's content by a new source does,
    /// given the names directly in the directory and the paths below the new
    /// source, directories before what they hold.
    pub fn copy_source(&self, present: &Vec<String>, staged: &Vec<String>) -> (r: CopyPlan)
        ensures
            texts(r.remove@) == unpreserved(texts(present@)),
            texts(r.copy@) == copied(texts(staged@)),
    {
        let ghost all = texts(present@);
        let ghost new = texts(staged@);
        let mut remove: Vec<String> = Vec::new();
        let mut copy: Vec<String> = Vec::new();
        let mut i: usize = 0;
        proof {
            reveal(Seq::filter);
            assert(texts(remove@) =~= unpreserved(all.take(0)));
            assert(texts(copy@) =~= copied(new.take(0)));
        }
        while i < present.len()
            invariant
                i <= present@.len(),
                all == texts(present@),
                texts(remove@) == unpreserved(all.take(i as int)),
            decreases present@.len() - i,
        {
            proof {
                reveal(Seq::filter);
                assert(all.take(i + 1).drop_last() =~= all.take(i as int));
                assert(all.take(i + 1).last() == present@[i as int]@);
            }
            if !preserves(present[i].as_str()) {
                let s = present[i].clone();
                proof {
                    lemma_texts_push(remove@, s);
                }
                remove.push(s);
            }
            i += 1;
        }
        assert(all.take(present@.len() as int) =~= all);
        let mut k: usize = 0;
        while k < staged.len()
            invariant
                k <= staged@.len(),
                new == texts(staged@),
                texts(copy@) == copied(new.take(k as int)),
            decreases staged@.len() - k,
        {
            proof {
                reveal(Seq::filter);
                assert(new.take(k + 1).drop_last() =~= new.take(k as int));
                assert(new.take(k + 1).last() == staged@[k as int]@);
            }
            if !crosses_preserved(staged[k].as_str()) {
                let s = staged[k].clone();
                proof {
                    lemma_texts_push(copy@, s);
                }
                copy.push(s);
            }
            k += 1;
        }
        assert(new.take(staged@.len() as int) =~= new);
        CopyPlan { remove, copy }
    }

    /// Counts a failed upgrade; returns whether the manager is locked by it.
    pub fn record_failure(&mut self) -> (locks: bool)
        requires
            old(self)@.failures < u32::MAX,
            old(self).wf(),
        ensures
            final(self).wf(),
            final(self)@ == old(self)@.failed(),
            locks <==> final(self)@.failures >= MAX_CONSECUTIVE_FAILURES,
    {
        self.consecutive_failures += 1;
        if self.consecutive_failures >= MAX_CONSECUTIVE_FAILURES {
            self.locked = true;
            true
        } else {
            false
        }
    }

    pub fn is_locked(&self) -> (b: bool)
        ensures
            b == self@.locked,
    {
        self.locked
    }

    /// Lifts a lock; returns whether there was one.
    pub fn unlock(&mut self) -> (was_locked: bool)
        requires
            old(self).wf(),
        ensures
            final(self).wf(),
            final(self)@ == (VersionState { failures: 0, locked: false, ..old(self)@ }),
            was_locked == old(self)@.locked,
    {
        let was_locked = self.locked;
        self.locked = false;
        self.consecutive_failures = 0;
        was_locked
    }

    /// Forgets failed upgrades after a successful one.
    pub(crate) fn clear_failures(&mut self)
        requires
            old(self).wf(),
        ensures
            final(self).wf(),
            final(self)@ == (VersionState { failures: 0, ..old(self)@ }),
    {
        self.consecutive_failures = 0;
    }
}

/// Taking over a new source leaves the repository's own data and the build
/// output alone, removes every other name that was there, and copies every
/// other path of the new source.
pub proof fn law_copy_leaves_the_repository_alone(
    present: Seq<Seq<char>>,
    staged: Seq<Seq<char>>,
    name: Seq<char>,
    path: Seq<char>,
)
    ensures
        unpreserved(present).contains(name) <==> present.contains(name) && name != ".git"@ && name
            != "target"@,
        copied(staged).contains(path) <==> staged.contains(path) && !on_preserved_path(path),
{
    let keeps = |n: Seq<char>| !is_preserved(n);
    let takes = |p: Seq<char>| !on_preserved_path(p);
    lemma_filter_contains(present, keeps, name);
    lemma_filter_contains(staged, takes, path);
}

proof fn lemma_filter_contains(s: Seq<Seq<char>>, f: spec_fn(Seq<char>) -> bool, x: Seq<char>)
    ensures
        s.filter(f).contains(x) <==> s.contains(x) && f(x),
    decreases s.len(),
{
    reveal(Seq::filter);
    if s.len() > 0 {
        let rest = s.drop_last();
        lemma_filter_contains(rest, f, x);
        assert(rest.push(s.last()) =~= s);
        vstd::seq_lib::lemma_seq_contains_after_push(rest, s.last(), x);
        if f(s.last()) {
            vstd::seq_lib::lemma_seq_contains_after_push(rest.filter(f), s.last(), x);
        }
    }
}

/// The state after `n` failed upgrades in a row.
pub open spec fn failed_times(s: VersionState, n: nat) -> VersionState
    decreases n,
{
    if n == 0 {
        s
    } else {
        failed_times(s, (n - 1) as nat).failed()
    }
}

/// An unlocked manager without failures locks with the third failure in a row,
/// not before, and stays locked.
pub proof fn law_locks_after_three_failures(s: VersionState, n: nat)
    requires
        !s.locked,
        s.failures == 0,
    ensures
        failed_times(s, n).failures == n,
        failed_times(s, n).locked <==> n >= MAX_CONSECUTIVE_FAILURES,
    decreases n,
{
    if n > 0 {
        law_locks_after_three_failures(s, (n - 1) as nat);
    }
}

/// The number of a version's name is the version's number, and no listed
/// version has the number of the next one.
pub proof fn law_next_version_is_new(names: Seq<Seq<char>>, i: int)
    requires
        0 <= i < names.len(),
        max_version(names) < u32::MAX,
    ensures
        version_number(version_name((max_version(names) + 1) as nat)) == Some(
            (max_version(names) + 1) as u32,
        ),
        trimmed(names[i]) != version_name((max_version(names) + 1) as nat),
{
    lemma_version_name((max_version(names) + 1) as nat);
    lemma_highest_bounds(names, i);
}

proof fn lemma_version_name(n: nat)
    requires
        n <= u32::MAX,
    ensures
        version_number(version_name(n)) == Some(n as u32),
{
    reveal_strlit("V");
    crate::text::lemma_dec_round_trip(n);
    let name = version_name(n);
    assert(name.skip(1) =~= dec(n));
    assert(name[0] == 'V');
    assert(crate::text::is_digit(dec(n)[0]));
    assert(dec(n)[0] != '+');
}

proof fn lemma_highest_bounds(names: Seq<Seq<char>>, i: int)
    requires
        0 <= i < names.len(),
    ensures
        version_number(trimmed(names[i])) is Some ==> version_number(trimmed(names[i]))->Some_0
            <= max_version(names) && highest(names) is Some,
    decreases names.len(),
{
    if i < names.len() - 1 {
        lemma_highest_bounds(names.drop_last(), i);
        assert(names.drop_last()[i] == names[i]);
    }
}

/// Cleaning up never removes the current version or the rollback target, and
/// whatever it removes was listed.
pub proof fn law_cleanup_spares_active_versions(
    versions: Seq<Seq<char>>,
    current: Option<Seq<char>>,
    rollback: Option<Seq<char>>,
    keep: nat,
    i: int,
)
    requires
        0 <= i < removable(versions, current, rollback, keep).len(),
    ensures
        Some(removable(versions, current, rollback, keep)[i]) != current,
        Some(removable(versions, current, rollback, keep)[i]) != rollback,
        versions.contains(removable(versions, current, rollback, keep)[i]),
{
    let rest = spare_versions(versions, current, rollback);
    lemma_spare(versions, current, rollback, i);
}

proof fn lemma_spare(
    versions: Seq<Seq<char>>,
    current: Option<Seq<char>>,
    rollback: Option<Seq<char>>,
    i: int,
)
    requires
        0 <= i < spare_versions(versions, current, rollback).len(),
    ensures
        Some(spare_versions(versions, current, rollback)[i]) != current,
        Some(spare_versions(versions, current, rollback)[i]) != rollback,
        versions.contains(spare_versions(versions, current, rollback)[i]),
    decreases versions.len(),
{
    reveal(Seq::filter);
    let d = versions.drop_last();
    let before = spare_versions(d, current, rollback);
    if i < before.len() {
        lemma_spare(d, current, rollback, i);
        let k = choose|k: int| 0 <= k < d.len() && d[k] == before[i];
        assert(versions[k] == before[i]);
    } else {
        assert(versions[versions.len() - 1] == versions.last());
    }
}

/// What remains after cleaning up are at most `keep` versions beside the
/// current one and the rollback target.
pub proof fn law_cleanup_keeps_at_most(
    versions: Seq<Seq<char>>,
    current: Option<Seq<char>>,
    rollback: Option<Seq<char>>,
    keep: nat,
)
    ensures
        spare_versions(versions, current, rollback).len() - removable(
            versions,
            current,
            rollback,
            keep,
        ).len() <= keep,
        removable(versions, current, rollback, keep).is_prefix_of(
            spare_versions(versions, current, rollback),
        ),
{
    let rest = spare_versions(versions, current, rollback);
    assert(removable(versions, current, rollback, keep).is_prefix_of(rest));
}

/// Sorting keeps exactly the given versions and orders them by number.
pub proof fn law_versions_are_sorted(names: Seq<Seq<char>>)
    ensures
        sorted_versions(names).to_multiset() == names.to_multiset(),
        forall|i: int, j: int|
            0 <= i < j < names.len() ==> sort_key(#[trigger] sorted_versions(names)[i])
                <= sort_key(#[trigger] sorted_versions(names)[j]),
        sorted_versions(names).len() == names.len(),
    decreases names.len(),
{
    if names.len() > 0 {
        let d = names.drop_last();
        let x = names.last();
        law_versions_are_sorted(d);
        let before = sorted_versions(d);
        let p = insert_position(before, x);
        lemma_insert_position(before, x);
        let all = sorted_versions(names);
        assert(names =~= d.push(x));
        assert(all == before.insert(p, x));
        vstd::seq_lib::to_multiset_insert(before, p, x);
        vstd::seq_lib::to_multiset_build(d, x);
        assert(all.to_multiset() == names.to_multiset());
        assert forall|i: int, j: int| 0 <= i < j < all.len() implies sort_key(#[trigger] all[i])
            <= sort_key(#[trigger] all[j]) by {
            let a = if i < p {
                before[i]
            } else if i == p {
                x
            } else {
                before[i - 1]
            };
            let b = if j < p {
                before[j]
            } else if j == p {
                x
            } else {
                before[j - 1]
            };
            assert(a == all[i] && b == all[j]);
            if i < p && j == p {
                assert(sort_key(before[i]) <= sort_key(before[p - 1]));
            }
        }
    } else {
        assert(sorted_versions(names) =~= names);
    }
}

/// The highest version is one of the listed ones, no listed one has a higher
/// number, and of several with its number it is the first. There is none only
/// where no version is listed.
pub proof fn law_highest_version_is_listed(names: Seq<Seq<char>>)
    ensures
        highest(names) is None <==> forall|i: int|
            0 <= i < names.len() ==> version_number(trimmed(#[trigger] names[i])) is None,
        highest(names) is Some ==> exists|i: int|
            #![trigger names[i]]
            0 <= i < names.len() && trimmed(names[i]) == highest(names)->Some_0.1 && version_number(
                trimmed(names[i]),
            ) == Some(highest(names)->Some_0.0) && (forall|k: int|
                0 <= k < i && version_number(trimmed(#[trigger] names[k])) is Some
                    ==> version_number(trimmed(names[k]))->0 < highest(names)->Some_0.0),
        forall|i: int|
            0 <= i < names.len() && version_number(trimmed(#[trigger] names[i])) is Some
                ==> highest(names) is Some && version_number(trimmed(names[i]))->0
                <= highest(names)->Some_0.0,
    decreases names.len(),
{
    if names.len() > 0 {
        let d = names.drop_last();
        law_highest_version_is_listed(d);
        assert(forall|i: int| 0 <= i < d.len() ==> #[trigger] names[i] == d[i]);
        let last = names.len() - 1;
        assert(names[last] == names.last());
        if highest(d) is Some {
            let i = choose|i: int|
                #![trigger d[i]]
                0 <= i < d.len() && trimmed(d[i]) == highest(d)->Some_0.1 && version_number(
                    trimmed(d[i]),
                ) == Some(highest(d)->Some_0.0) && (forall|k: int|
                    0 <= k < i && version_number(trimmed(#[trigger] d[k])) is Some
                        ==> version_number(trimmed(d[k]))->0 < highest(d)->Some_0.0);
            assert(names[i] == d[i]);
            if highest(names) == highest(d) {
                assert forall|k: int| 0 <= k < i && version_number(trimmed(#[trigger] names[k]))
                    is Some implies version_number(trimmed(names[k]))->0 < highest(names)->Some_0.0 by {
                    assert(names[k] == d[k]);
                }
            }
        }
        assert forall|i: int|
            0 <= i < names.len() && version_number(trimmed(#[trigger] names[i])) is Some implies highest(
            names,
        ) is Some && version_number(trimmed(names[i]))->0 <= highest(names)->Some_0.0 by {
            if i < last {
                assert(names[i] == d[i]);
            }
        }
    }
}

/// The listed versions are the names that are those of versions, without white
/// space around them, in their order.
pub proof fn law_versions_are_listed_in_order(names: Seq<Seq<char>>, name: Seq<char>)
    ensures
        version_names(Seq::empty()).len() == 0,
        version_number(trimmed(name)) is Some ==> version_names(names.push(name)) == version_names(
            names,
        ).push(trimmed(name)),
        version_number(trimmed(name)) is None ==> version_names(names.push(name)) == version_names(
            names,
        ),
{
    assert(names.push(name).drop_last() =~= names);
}

/// A version's name is a capital V with its number; no other letter begins one.
pub proof fn law_versions_are_named_by_number(n: nat, name: Seq<char>)
    ensures
        n <= u32::MAX ==> version_number(version_name(n)) == Some(n as u32),
        version_number(name) is Some ==> name.len() > 1 && name[0] == 'V',
{
    if n <= u32::MAX {
        lemma_version_name(n);
    }
}

/// Of versions with the same number the one listed first stays first.
pub proof fn law_sorting_keeps_the_order_of_equals(names: Seq<Seq<char>>, name: Seq<char>)
    requires
        forall|i: int|
            0 <= i < sorted_versions(names).len() ==> sort_key(#[trigger] sorted_versions(names)[i])
                <= sort_key(name),
    ensures
        sorted_versions(names.push(name)) == sorted_versions(names).push(name),
{
    let r = sorted_versions(names);
    assert(names.push(name).drop_last() =~= names);
    if r.len() > 0 {
        assert(r.last() == r[r.len() - 1]);
    }
    assert(r.insert(r.len() as int, name) =~= r.push(name));
}

/// Cleaning up removes exactly as many versions as there are too many, and every
/// version but the current one and the rollback target is counted.
pub proof fn law_cleanup_removes_what_is_too_much(
    versions: Seq<Seq<char>>,
    current: Option<Seq<char>>,
    rollback: Option<Seq<char>>,
    keep: nat,
    v: Seq<char>,
)
    ensures
        spare_versions(versions, current, rollback).contains(v) <==> versions.contains(v) && Some(v)
            != current && Some(v) != rollback,
        removable(versions, current, rollback, keep).len() == (if spare_versions(
            versions,
            current,
            rollback,
        ).len() > keep {
            spare_versions(versions, current, rollback).len() - keep
        } else {
            0
        }),
{
    lemma_filter_contains(
        versions,
        |v: Seq<char>| Some(v) != current && Some(v) != rollback,
        v,
    );
}

/// A version counts as deleted where its command succeeded.
pub proof fn law_deleted_versions_are_those_that_could_be(
    candidates: Seq<Seq<char>>,
    outcomes: Seq<CommandOutcome>,
    candidate: Seq<char>,
    outcome: CommandOutcome,
)
    ensures
        deleted(Seq::empty(), outcomes).len() == 0,
        outcome@.ok() ==> deleted(candidates.push(candidate), outcomes.push(outcome)) == deleted(
            candidates,
            outcomes,
        ).push(candidate),
        !outcome@.ok() ==> deleted(candidates.push(candidate), outcomes.push(outcome)) == deleted(
            candidates,
            outcomes,
        ),
{
    assert(candidates.push(candidate).drop_last() =~= candidates);
    assert(outcomes.push(outcome).drop_last() =~= outcomes);
}

/// A command succeeded where it could be run and says so; else what went wrong
/// is why it could not be run, or what it wrote to standard error.
pub proof fn law_outcomes_of_commands(o: Outcome)
    ensures
        o.ok() <==> o.spawn_error is None && o.success,
        o.spawn_error is Some ==> o.problem() == o.spawn_error->0,
        o.spawn_error is None ==> o.problem() == o.stderr,
{
}

/// The version that is checked out is the one that the command names, where
/// there is a repository, the command succeeded and the name is one of a version.
pub proof fn law_checked_out_version(o: Outcome)
    ensures
        branch_version(false, o) is None,
        !o.ok() ==> branch_version(true, o) is None,
        o.ok() && version_number(trimmed(o.stdout)) is Some ==> branch_version(true, o) == Some(
            trimmed(o.stdout),
        ),
        o.ok() && version_number(trimmed(o.stdout)) is None ==> branch_version(true, o) is None,
{
}

/// A failed upgrade is counted and leaves the rest alone; three are too many.
pub proof fn law_failed_upgrades_are_counted(s: VersionState)
    ensures
        s.failed().failures == s.failures + 1,
        s.failed().locked <==> s.locked || s.failures >= 2,
        s.failed().base_dir == s.base_dir,
{
}

/// A path is left alone where some part of it is.
pub proof fn law_preserved_parts_preserve_paths(a: Seq<char>, b: Seq<char>, name: Seq<char>)
    requires
        forall|i: int| 0 <= i < name.len() ==> #[trigger] name[i] != '/',
    ensures
        on_preserved_path(a + seq!['/'] + b) <==> on_preserved_path(a) || on_preserved_path(b),
        on_preserved_path(name) <==> name == ".git"@ || name == "target"@,
{
    law_pieces_of_both_sides(a, b, '/');
    law_pieces_stand_between_separators(name, b, '/');
    let p = pieces(a, '/');
    let q = pieces(b, '/');
    let all = pieces(a + seq!['/'] + b, '/');
    if on_preserved_path(a) {
        let i = choose|i: int| 0 <= i < p.len() && is_preserved(#[trigger] p[i]);
        assert(all[i] == p[i]);
    }
    if on_preserved_path(b) {
        let i = choose|i: int| 0 <= i < q.len() && is_preserved(#[trigger] q[i]);
        assert(all[p.len() + i] == q[i]);
    }
    if on_preserved_path(a + seq!['/'] + b) {
        let i = choose|i: int| 0 <= i < all.len() && is_preserved(#[trigger] all[i]);
        if i < p.len() {
            assert(all[i] == p[i]);
        } else {
            assert(all[i] == q[i - p.len()]);
        }
    }
    assert(pieces(name, '/')[0] == name);
}

/// Outcomes and optional texts are what their parts say.
pub proof fn law_outcomes_are_what_they_say(o: CommandOutcome, s: Option<String>)
    ensures
        o@.spawn_error == opt_text(o.spawn_error),
        o@.success == o.success,
        o@.stdout == o.stdout@,
        o@.stderr == o.stderr@,
        s is Some ==> opt_text(s) == Some(s->0@),
        s is None ==> opt_text(s) is None,
{
}

/// The source, the binary and the one to go back to lie in the directory of the
/// peripheral.
pub proof fn law_version_files_lie_in_the_directory(s: VersionState)
    ensures
        s.source_dir() == joined(s.base_dir, "source"@),
        s.binary_path() == joined(s.base_dir, "binary"@),
        s.rollback_binary_path() == joined(s.base_dir, "binary.rollback"@),
{
}

/// The details of a version are the lines of its log, and where there is no such
/// version or no log the failure says why.
pub proof fn law_details_are_those_of_the_log(
    version: &str,
    check: CommandOutcome,
    log: CommandOutcome,
    r: Result<VersionDetail, String>,
)
    requires
        call_ensures(version_detail, (version, &check, &log), r),
    ensures
        r is Ok <==> check@.ok() && log@.ok(),
        r is Ok ==> r->Ok_0.version@ == version@,
        r is Ok && lines(log@.stdout).len() >= 3 ==> {
            &&& r->Ok_0.commit@ == lines(log@.stdout)[0]
            &&& r->Ok_0.date@ == lines(log@.stdout)[1]
            &&& r->Ok_0.subject@ == lines(log@.stdout)[2]
        },
        check@.spawn_error is None && !check@.success ==> contains_text(r->Err_0@, version@),
        check@.ok() && !log@.ok() ==> contains_text(r->Err_0@, log@.problem()),
{
    let none = Seq::<char>::empty();
    if check@.spawn_error is None && !check@.success {
        let head = "Version branch does not exist: "@;
        assert(r->Err_0@ =~= head + version@ + none);
        law_parts_are_found(head, version@, none, r->Err_0@);
    }
    if check@.ok() && !log@.ok() {
        assert(r->Err_0@ =~= "git log failed: "@ + log@.problem() + none);
        law_parts_are_found("git log failed: "@, log@.problem(), none, r->Err_0@);
    }
}

/// The versions of a repository are all that are listed, sorted; without a
/// repository there are none, and no source.
pub proof fn law_versions_are_those_of_the_repository(
    m: VersionManager,
    has_repo: bool,
    listing: CommandOutcome,
    r: Vec<String>,
    source: bool,
)
    requires
        call_ensures(VersionManager::list_versions, (&m, has_repo, &listing), r),
        call_ensures(VersionManager::has_source, (&m, has_repo, &listing), source),
    ensures
        has_repo && listing@.ok() ==> texts(r@).to_multiset() == version_names(
            lines(listing@.stdout),
        ).to_multiset(),
        forall|i: int, j: int|
            0 <= i < j < r@.len() ==> sort_key(#[trigger] r@[i]@) <= sort_key(#[trigger] r@[j]@),
        !has_repo || !listing@.ok() ==> r@.len() == 0 && !source,
        has_repo && listing@.ok() ==> source,
{
    let t = texts(r@);
    law_versions_are_sorted(version_names(lines(listing@.stdout)));
    assert(t.len() == r@.len());
    assert forall|i: int, j: int| 0 <= i < j < r@.len() implies sort_key(#[trigger] r@[i]@)
        <= sort_key(#[trigger] r@[j]@) by {
        assert(t[i] == r@[i]@ && t[j] == r@[j]@);
    }
}

/// Only the current version has the binary.
pub proof fn law_binary_is_that_of_the_current_version(
    m: VersionManager,
    version: &str,
    exists_: bool,
    current: Option<String>,
    b: bool,
)
    requires
        call_ensures(VersionManager::has_binary, (&m, version, exists_, &current), b),
    ensures
        b <==> exists_ && current is Some && current->0@ == version@,
{
}

} // verus!
