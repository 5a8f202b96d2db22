//! The work on the version repository, step by step. Each step names one call
//! to make; what the call reported decides on the next step.

use crate::scan::{contains_text, law_parts_are_found};
use crate::split::{lines, texts, trim, trimmed};
use crate::text::{dec, decimal, str_eq};
use crate::version::{
    branch_version, highest, highest_version, max_version, next_version_number, opt_text, sentence,
    version_name, CommandOutcome, Outcome, VersionInfo, VersionManager, VersionState,
};
use vstd::prelude::*;
use vstd::string::*;

verus! {

/// A call that a step asks for. Git runs in the source directory, except
/// `git init`, which names it.
pub enum RepoCommand {
    /// Make the peripheral's directory.
    CreateBase,
    /// Tell whether the source directory holds a repository.
    CheckRepo,
    RemoveSource,
    CreateSource,
    /// Copy the binary, where there is one, to the rollback binary.
    BackUpBinary,
    /// Copy the rollback binary, where there is one, to the binary.
    RestoreBinary,
    Git(Vec<String>),
    Nothing,
}

/// The content of a `RepoCommand`.
pub ghost enum RepoCall {
    CreateBase,
    CheckRepo,
    RemoveSource,
    CreateSource,
    BackUpBinary,
    RestoreBinary,
    Git(Seq<Seq<char>>),
    Nothing,
}

impl View for RepoCommand {
    type V = RepoCall;

    open spec fn view(&self) -> RepoCall {
        match self {
            RepoCommand::CreateBase => RepoCall::CreateBase,
            RepoCommand::CheckRepo => RepoCall::CheckRepo,
            RepoCommand::RemoveSource => RepoCall::RemoveSource,
            RepoCommand::CreateSource => RepoCall::CreateSource,
            RepoCommand::BackUpBinary => RepoCall::BackUpBinary,
            RepoCommand::RestoreBinary => RepoCall::RestoreBinary,
            RepoCommand::Git(a) => RepoCall::Git(texts(a@)),
            RepoCommand::Nothing => RepoCall::Nothing,
        }
    }
}

/// A list of arguments of its own.
fn git(args: &[&str]) -> (c: RepoCommand)
    ensures
        c@ == RepoCall::Git(Seq::new(args@.len(), |i: int| args@[i]@)),
{
    let mut v: Vec<String> = Vec::new();
    let mut i: usize = 0;
    while i < args.len()
        invariant
            i <= args@.len(),
            v@.len() == i,
            forall|k: int| 0 <= k < i ==> (#[trigger] v@[k])@ == args@[k]@,
        decreases args@.len() - i,
    {
        v.push(args[i].to_owned());
        i += 1;
    }
    assert(texts(v@) =~= Seq::new(args@.len(), |i: int| args@[i]@));
    RepoCommand::Git(v)
}

/// Steps to a repository with a `main` branch.
pub enum InitStep<T> {
    CheckRepo,
    VerifyMain,
    ListBranches,
    RecreateMain(T),
    RemoveSource,
    CreateSource,
    Init,
    ConfigName,
    ConfigEmail,
    FirstCommit,
    Done(Result<(), T>),
}

impl View for InitStep<String> {
    type V = InitStep<Seq<char>>;

    open spec fn view(&self) -> InitStep<Seq<char>> {
        match self {
            InitStep::CheckRepo => InitStep::CheckRepo,
            InitStep::VerifyMain => InitStep::VerifyMain,
            InitStep::ListBranches => InitStep::ListBranches,
            InitStep::RecreateMain(b) => InitStep::RecreateMain(b@),
            InitStep::RemoveSource => InitStep::RemoveSource,
            InitStep::CreateSource => InitStep::CreateSource,
            InitStep::Init => InitStep::Init,
            InitStep::ConfigName => InitStep::ConfigName,
            InitStep::ConfigEmail => InitStep::ConfigEmail,
            InitStep::FirstCommit => InitStep::FirstCommit,
            InitStep::Done(Ok(())) => InitStep::Done(Ok(())),
            InitStep::Done(Err(e)) => InitStep::Done(Err(e@)),
        }
    }
}

/// The call of an initialisation step.
pub open spec fn init_call(step: InitStep<Seq<char>>, source_dir: Seq<char>) -> RepoCall {
    match step {
        InitStep::CheckRepo => RepoCall::CheckRepo,
        InitStep::VerifyMain => RepoCall::Git(
            seq!["rev-parse"@, "--verify"@, "refs/heads/main"@],
        ),
        InitStep::ListBranches => RepoCall::Git(
            seq!["branch"@, "--list"@, "V*"@, "--format=%(refname:short)"@],
        ),
        InitStep::RecreateMain(b) => RepoCall::Git(seq!["branch"@, "main"@, b]),
        InitStep::RemoveSource => RepoCall::RemoveSource,
        InitStep::CreateSource => RepoCall::CreateSource,
        InitStep::Init => RepoCall::Git(seq!["init"@, "-b"@, "main"@, source_dir]),
        InitStep::ConfigName => RepoCall::Git(seq!["config"@, "user.name"@, "reloopy-boot"@]),
        InitStep::ConfigEmail => RepoCall::Git(
            seq!["config"@, "user.email"@, "boot@reloopy.local"@],
        ),
        InitStep::FirstCommit => RepoCall::Git(
            seq!["commit"@, "--allow-empty"@, "-m"@, "Initial commit"@],
        ),
        InitStep::Done(_) => RepoCall::Nothing,
    }
}

/// A failed step of initialisation.
pub open spec fn init_failed(start: Seq<char>, o: Outcome) -> InitStep<Seq<char>> {
    InitStep::Done(Err(start + o.problem()))
}

/// The step after an initialisation step. A repository that still has version
/// branches is never removed.
pub open spec fn init_next(
    step: InitStep<Seq<char>>,
    o: Outcome,
    source_dir: Seq<char>,
) -> InitStep<Seq<char>> {
    match step {
        InitStep::CheckRepo => if o.ok() {
            InitStep::VerifyMain
        } else {
            InitStep::CreateSource
        },
        InitStep::VerifyMain => if o.ok() {
            InitStep::Done(Ok(()))
        } else {
            InitStep::ListBranches
        },
        InitStep::ListBranches => if !o.ok() {
            init_failed("git branch --list failed: "@, o)
        } else {
            match highest(lines(o.stdout)) {
                Some(b) => InitStep::RecreateMain(b.1),
                None => InitStep::RemoveSource,
            }
        },
        InitStep::RecreateMain(b) => if o.ok() {
            InitStep::Done(Ok(()))
        } else {
            init_failed("git branch main "@ + b + " failed: "@, o)
        },
        InitStep::RemoveSource => if o.ok() {
            InitStep::CreateSource
        } else {
            init_failed("Failed to remove stale repo at "@ + source_dir + ": "@, o)
        },
        InitStep::CreateSource => if o.ok() {
            InitStep::Init
        } else {
            init_failed("Failed to create source dir: "@, o)
        },
        InitStep::Init => if o.ok() {
            InitStep::ConfigName
        } else {
            init_failed("git init failed: "@, o)
        },
        InitStep::ConfigName => if o.ok() {
            InitStep::ConfigEmail
        } else if o.spawn_error is Some {
            init_failed("git config failed: "@, o)
        } else {
            init_failed("git config user.name failed: "@, o)
        },
        InitStep::ConfigEmail => if o.ok() {
            InitStep::FirstCommit
        } else if o.spawn_error is Some {
            init_failed("git config failed: "@, o)
        } else {
            init_failed("git config user.email failed: "@, o)
        },
        InitStep::FirstCommit => if o.ok() {
            InitStep::Done(Ok(()))
        } else if o.spawn_error is Some {
            init_failed("git commit (init) failed: "@, o)
        } else {
            init_failed("git initial commit failed: "@, o)
        },
        InitStep::Done(r) => InitStep::Done(r),
    }
}

fn fail_init(start: &str, o: &CommandOutcome) -> (s: InitStep<String>)
    ensures
        s@ == init_failed(start@, o@),
{
    InitStep::Done(Err(sentence(start, o.problem())))
}

impl InitStep<String> {
    /// The call to make in this step.
    pub fn command(&self, source_dir: &str) -> (c: RepoCommand)
        ensures
            c@ == init_call(self@, source_dir@),
    {
        let c = match self {
            InitStep::CheckRepo => RepoCommand::CheckRepo,
            InitStep::VerifyMain => git(&["rev-parse", "--verify", "refs/heads/main"]),
            InitStep::ListBranches => git(
                &["branch", "--list", "V*", "--format=%(refname:short)"],
            ),
            InitStep::RecreateMain(b) => git(&["branch", "main", b.as_str()]),
            InitStep::RemoveSource => RepoCommand::RemoveSource,
            InitStep::CreateSource => RepoCommand::CreateSource,
            InitStep::Init => git(&["init", "-b", "main", source_dir]),
            InitStep::ConfigName => git(&["config", "user.name", "reloopy-boot"]),
            InitStep::ConfigEmail => git(&["config", "user.email", "boot@reloopy.local"]),
            InitStep::FirstCommit => git(&["commit", "--allow-empty", "-m", "Initial commit"]),
            InitStep::Done(_) => RepoCommand::Nothing,
        };
        proof {
            if c@ is Git {
                assert(c@->Git_0 =~= init_call(self@, source_dir@)->Git_0);
            }
        }
        c
    }

    /// The step after this one.
    pub fn next(self, o: &CommandOutcome, source_dir: &str) -> (s: InitStep<String>)
        ensures
            s@ == init_next(self@, o@, source_dir@),
    {
        match self {
            InitStep::CheckRepo => if o.ok() {
                InitStep::VerifyMain
            } else {
                InitStep::CreateSource
            },
            InitStep::VerifyMain => if o.ok() {
                InitStep::Done(Ok(()))
            } else {
                InitStep::ListBranches
            },
            InitStep::ListBranches => if !o.ok() {
                fail_init("git branch --list failed: ", o)
            } else {
                match highest_version(o.stdout.as_str()) {
                    Some(b) => InitStep::RecreateMain(b.1),
                    None => InitStep::RemoveSource,
                }
            },
            InitStep::RecreateMain(b) => if o.ok() {
                InitStep::Done(Ok(()))
            } else {
                let mut m = sentence("git branch main ", b.as_str());
                m.append(" failed: ");
                fail_init(m.as_str(), o)
            },
            InitStep::RemoveSource => if o.ok() {
                InitStep::CreateSource
            } else {
                let mut m = sentence("Failed to remove stale repo at ", source_dir);
                m.append(": ");
                fail_init(m.as_str(), o)
            },
            InitStep::CreateSource => if o.ok() {
                InitStep::Init
            } else {
                fail_init("Failed to create source dir: ", o)
            },
            InitStep::Init => if o.ok() {
                InitStep::ConfigName
            } else {
                fail_init("git init failed: ", o)
            },
            InitStep::ConfigName => if o.ok() {
                InitStep::ConfigEmail
            } else if o.spawn_error.is_some() {
                fail_init("git config failed: ", o)
            } else {
                fail_init("git config user.name failed: ", o)
            },
            InitStep::ConfigEmail => if o.ok() {
                InitStep::FirstCommit
            } else if o.spawn_error.is_some() {
                fail_init("git config failed: ", o)
            } else {
                fail_init("git config user.email failed: ", o)
            },
            InitStep::FirstCommit => if o.ok() {
                InitStep::Done(Ok(()))
            } else if o.spawn_error.is_some() {
                fail_init("git commit (init) failed: ", o)
            } else {
                fail_init("git initial commit failed: ", o)
            },
            InitStep::Done(r) => InitStep::Done(r),
        }
    }
}

/// A repository is removed only where its branches could be listed and none of
/// them is a version.
pub proof fn law_versions_survive_initialisation(
    step: InitStep<Seq<char>>,
    o: Outcome,
    source_dir: Seq<char>,
)
    requires
        !(step is RemoveSource),
        init_next(step, o, source_dir) is RemoveSource,
    ensures
        step is ListBranches,
        o.ok(),
        highest(lines(o.stdout)) is None,
{
}

/// A measure that every step of the initialisation lowers.
pub open spec fn init_rank(step: InitStep<Seq<char>>) -> nat {
    match step {
        InitStep::CheckRepo => 10,
        InitStep::VerifyMain => 9,
        InitStep::ListBranches => 8,
        InitStep::RecreateMain(_) => 7,
        InitStep::RemoveSource => 6,
        InitStep::CreateSource => 5,
        InitStep::Init => 4,
        InitStep::ConfigName => 3,
        InitStep::ConfigEmail => 2,
        InitStep::FirstCommit => 1,
        InitStep::Done(_) => 0,
    }
}

/// Whatever the calls report, the initialisation comes to an end.
pub proof fn law_initialisation_ends(
    step: InitStep<Seq<char>>,
    o: Outcome,
    source_dir: Seq<char>,
)
    requires
        !(step is Done),
    ensures
        init_rank(init_next(step, o, source_dir)) < init_rank(step),
{
}

/// Steps to a commit on a version's branch that leave the branch that was
/// checked out before checked out again.
pub enum CommitStep<T> {
    ShowCurrent,
    Checkout { previous: T },
    Add { previous: T },
    Commit { previous: T },
    /// Back to the previous branch after a failure, which is then reported.
    RestoreAndFail { previous: T, error: T },
    Restore { previous: T },
    Done(Result<(), T>),
}

impl View for CommitStep<String> {
    type V = CommitStep<Seq<char>>;

    open spec fn view(&self) -> CommitStep<Seq<char>> {
        match self {
            CommitStep::ShowCurrent => CommitStep::ShowCurrent,
            CommitStep::Checkout { previous } => CommitStep::Checkout { previous: previous@ },
            CommitStep::Add { previous } => CommitStep::Add { previous: previous@ },
            CommitStep::Commit { previous } => CommitStep::Commit { previous: previous@ },
            CommitStep::RestoreAndFail { previous, error } => CommitStep::RestoreAndFail {
                previous: previous@,
                error: error@,
            },
            CommitStep::Restore { previous } => CommitStep::Restore { previous: previous@ },
            CommitStep::Done(Ok(())) => CommitStep::Done(Ok(())),
            CommitStep::Done(Err(e)) => CommitStep::Done(Err(e@)),
        }
    }
}

/// The call of a commit step for a version.
pub open spec fn commit_call(step: CommitStep<Seq<char>>, version: Seq<char>) -> RepoCall {
    match step {
        CommitStep::ShowCurrent => RepoCall::Git(seq!["branch"@, "--show-current"@]),
        CommitStep::Checkout { previous } => RepoCall::Git(seq!["checkout"@, version]),
        CommitStep::Add { previous } => RepoCall::Git(seq!["add"@, "-A"@]),
        CommitStep::Commit { previous } => RepoCall::Git(
            seq!["commit"@, "--allow-empty"@, "-m"@, "Version "@ + version],
        ),
        CommitStep::RestoreAndFail { previous, error } => RepoCall::Git(
            seq!["checkout"@, previous],
        ),
        CommitStep::Restore { previous } => RepoCall::Git(seq!["checkout"@, previous]),
        CommitStep::Done(_) => RepoCall::Nothing,
    }
}

/// The step after a commit step for a version.
pub open spec fn commit_next(
    step: CommitStep<Seq<char>>,
    o: Outcome,
    version: Seq<char>,
) -> CommitStep<Seq<char>> {
    match step {
        CommitStep::ShowCurrent => if o.ok() {
            CommitStep::Checkout { previous: trimmed(o.stdout) }
        } else {
            CommitStep::Done(Err("git branch --show-current failed: "@ + o.problem()))
        },
        CommitStep::Checkout { previous } => if o.ok() {
            CommitStep::Add { previous }
        } else {
            CommitStep::Done(Err("git checkout "@ + version + " failed: "@ + o.problem()))
        },
        CommitStep::Add { previous } => if o.ok() {
            CommitStep::Commit { previous }
        } else if o.spawn_error is Some {
            CommitStep::Done(Err("git add failed: "@ + o.problem()))
        } else {
            CommitStep::RestoreAndFail { previous, error: "git add -A failed: "@ + o.problem() }
        },
        CommitStep::Commit { previous } => if o.ok() {
            if previous.len() > 0 && previous != version {
                CommitStep::Restore { previous }
            } else {
                CommitStep::Done(Ok(()))
            }
        } else if o.spawn_error is Some {
            CommitStep::Done(Err("git commit failed: "@ + o.problem()))
        } else {
            CommitStep::RestoreAndFail { previous, error: "git commit failed: "@ + o.problem() }
        },
        CommitStep::RestoreAndFail { previous, error } => CommitStep::Done(Err(error)),
        CommitStep::Restore { previous } => CommitStep::Done(Ok(())),
        CommitStep::Done(r) => CommitStep::Done(r),
    }
}

impl CommitStep<String> {
    /// The call to make in this step.
    pub fn command(&self, version: &str) -> (c: RepoCommand)
        ensures
            c@ == commit_call(self@, version@),
    {
        let c = match self {
            CommitStep::ShowCurrent => git(&["branch", "--show-current"]),
            CommitStep::Checkout { previous } => git(&["checkout", version]),
            CommitStep::Add { previous } => git(&["add", "-A"]),
            CommitStep::Commit { previous } => {
                let m = sentence("Version ", version);
                git(&["commit", "--allow-empty", "-m", m.as_str()])
            },
            CommitStep::RestoreAndFail { previous, error } => git(
                &["checkout", previous.as_str()],
            ),
            CommitStep::Restore { previous } => git(&["checkout", previous.as_str()]),
            CommitStep::Done(_) => RepoCommand::Nothing,
        };
        proof {
            if c@ is Git {
                assert(c@->Git_0 =~= commit_call(self@, version@)->Git_0);
            }
        }
        c
    }
}

impl VersionManager {
    /// The step after a step towards a version's commit.
    pub fn commit_version_source(
        &self,
        step: CommitStep<String>,
        o: &CommandOutcome,
        version: &str,
    ) -> (s: CommitStep<String>)
        ensures
            s@ == commit_next(step@, o@, version@),
    {
        match step {
            CommitStep::ShowCurrent => if o.ok() {
                CommitStep::Checkout { previous: trim(o.stdout.as_str()) }
            } else {
                CommitStep::Done(Err(sentence("git branch --show-current failed: ", o.problem())))
            },
            CommitStep::Checkout { previous } => if o.ok() {
                CommitStep::Add { previous }
            } else {
                let mut m = sentence("git checkout ", version);
                m.append(" failed: ");
                m.append(o.problem());
                CommitStep::Done(Err(m))
            },
            CommitStep::Add { previous } => if o.ok() {
                CommitStep::Commit { previous }
            } else if o.spawn_error.is_some() {
                CommitStep::Done(Err(sentence("git add failed: ", o.problem())))
            } else {
                CommitStep::RestoreAndFail {
                    previous,
                    error: sentence("git add -A failed: ", o.problem()),
                }
            },
            CommitStep::Commit { previous } => if o.ok() {
                if previous.as_str().unicode_len() > 0 && !str_eq(previous.as_str(), version) {
                    CommitStep::Restore { previous }
                } else {
                    CommitStep::Done(Ok(()))
                }
            } else if o.spawn_error.is_some() {
                CommitStep::Done(Err(sentence("git commit failed: ", o.problem())))
            } else {
                CommitStep::RestoreAndFail {
                    previous,
                    error: sentence("git commit failed: ", o.problem()),
                }
            },
            CommitStep::RestoreAndFail { previous, error } => CommitStep::Done(Err(error)),
            CommitStep::Restore { previous } => CommitStep::Done(Ok(())),
            CommitStep::Done(r) => CommitStep::Done(r),
        }
    }
}

/// Whether a commit step stands on the version's branch.
pub open spec fn on_version_branch(step: CommitStep<Seq<char>>) -> bool {
    step is Add || step is Commit || step is RestoreAndFail || step is Restore
}

/// The branch that was checked out before.
pub open spec fn previous_branch(step: CommitStep<Seq<char>>) -> Seq<char> {
    match step {
        CommitStep::Checkout { previous } => previous,
        CommitStep::Add { previous } => previous,
        CommitStep::Commit { previous } => previous,
        CommitStep::RestoreAndFail { previous, error } => previous,
        CommitStep::Restore { previous } => previous,
        _ => Seq::empty(),
    }
}

/// The unverified version is not left checked out: as long as git can be run,
/// the steps on its branch end only by a step that checks the previous branch
/// out again, where that is another branch.
pub proof fn law_commit_returns_to_previous_branch(
    step: CommitStep<Seq<char>>,
    o: Outcome,
    version: Seq<char>,
)
    requires
        on_version_branch(step),
        commit_next(step, o, version) is Done,
        o.spawn_error is None,
        previous_branch(step).len() > 0,
        previous_branch(step) != version,
    ensures
        commit_call(step, version) == RepoCall::Git(seq!["checkout"@, previous_branch(step)]),
{
}

/// The previous branch is remembered from the first step to the last.
pub proof fn law_commit_remembers_previous_branch(
    step: CommitStep<Seq<char>>,
    o: Outcome,
    version: Seq<char>,
)
    requires
        !(step is ShowCurrent),
        !(commit_next(step, o, version) is Done),
    ensures
        previous_branch(commit_next(step, o, version)) == previous_branch(step),
{
}

/// Steps to a new version's branch.
pub enum AllocateStep<T> {
    CreateBase,
    Init(InitStep<T>),
    ListBranches,
    CreateBranch { version: T },
    /// The new version, or why there is none.
    Done(Result<T, T>),
}

impl View for AllocateStep<String> {
    type V = AllocateStep<Seq<char>>;

    open spec fn view(&self) -> AllocateStep<Seq<char>> {
        match self {
            AllocateStep::CreateBase => AllocateStep::CreateBase,
            AllocateStep::Init(s) => AllocateStep::Init(s@),
            AllocateStep::ListBranches => AllocateStep::ListBranches,
            AllocateStep::CreateBranch { version } => AllocateStep::CreateBranch {
                version: version@,
            },
            AllocateStep::Done(Ok(v)) => AllocateStep::Done(Ok(v@)),
            AllocateStep::Done(Err(e)) => AllocateStep::Done(Err(e@)),
        }
    }
}

/// The call of an allocation step.
pub open spec fn allocate_call(step: AllocateStep<Seq<char>>, s: VersionState) -> RepoCall {
    match step {
        AllocateStep::CreateBase => RepoCall::CreateBase,
        AllocateStep::Init(i) => init_call(i, s.source_dir()),
        AllocateStep::ListBranches => RepoCall::Git(
            seq!["branch"@, "--list"@, "V*"@, "--format=%(refname:short)"@],
        ),
        AllocateStep::CreateBranch { version } => RepoCall::Git(seq!["branch"@, version]),
        AllocateStep::Done(_) => RepoCall::Nothing,
    }
}

/// The step after an allocation step. A locked manager allocates nothing.
pub open spec fn allocate_next(
    step: AllocateStep<Seq<char>>,
    o: Outcome,
    s: VersionState,
) -> AllocateStep<Seq<char>> {
    match step {
        AllocateStep::CreateBase => if !o.ok() {
            AllocateStep::Done(Err("Failed to create peripheral dir: "@ + o.problem()))
        } else if s.locked {
            AllocateStep::Done(
                Err(
                    "Version manager is locked due to consecutive failures. Human intervention required."@,
                ),
            )
        } else {
            AllocateStep::Init(InitStep::CheckRepo)
        },
        AllocateStep::Init(i) => match init_next(i, o, s.source_dir()) {
            InitStep::Done(Ok(_)) => AllocateStep::ListBranches,
            InitStep::Done(Err(e)) => AllocateStep::Done(Err(e)),
            other => AllocateStep::Init(other),
        },
        AllocateStep::ListBranches => AllocateStep::CreateBranch {
            version: version_name(
                if o.ok() {
                    (max_version(lines(o.stdout)) + 1) as nat
                } else {
                    1
                },
            ),
        },
        AllocateStep::CreateBranch { version } => if o.ok() {
            AllocateStep::Done(Ok(version))
        } else {
            AllocateStep::Done(Err("git branch "@ + version + " failed: "@ + o.problem()))
        },
        AllocateStep::Done(r) => AllocateStep::Done(r),
    }
}

impl VersionManager {
    /// The call to make in an allocation step.
    pub fn allocate_command(&self, step: &AllocateStep<String>) -> (c: RepoCommand)
        requires
            self.wf(),
        ensures
            c@ == allocate_call(step@, self@),
    {
        match step {
            AllocateStep::CreateBase => RepoCommand::CreateBase,
            AllocateStep::Init(i) => i.command(self.source_dir()),
            AllocateStep::ListBranches => {
                let c = git(&["branch", "--list", "V*", "--format=%(refname:short)"]);
                assert(c@->Git_0 =~= allocate_call(step@, self@)->Git_0);
                c
            },
            AllocateStep::CreateBranch { version } => {
                let c = git(&["branch", version.as_str()]);
                assert(c@->Git_0 =~= allocate_call(step@, self@)->Git_0);
                c
            },
            AllocateStep::Done(_) => RepoCommand::Nothing,
        }
    }

    /// The step after an allocation step.
    pub fn allocate_version(
        &self,
        step: AllocateStep<String>,
        o: &CommandOutcome,
    ) -> (s: AllocateStep<String>)
        requires
            self.wf(),
            step is ListBranches && o@.ok() ==> max_version(lines(o@.stdout)) < u32::MAX,
        ensures
            s@ == allocate_next(step@, o@, self@),
    {
        match step {
            AllocateStep::CreateBase => if !o.ok() {
                AllocateStep::Done(
                    Err(sentence("Failed to create peripheral dir: ", o.problem())),
                )
            } else if self.is_locked() {
                AllocateStep::Done(
                    Err(
                        "Version manager is locked due to consecutive failures. Human intervention required.".to_owned(),
                    ),
                )
            } else {
                AllocateStep::Init(InitStep::CheckRepo)
            },
            AllocateStep::Init(i) => {
                let n = i.next(o, self.source_dir());
                match n {
                    InitStep::Done(Ok(())) => AllocateStep::ListBranches,
                    InitStep::Done(Err(e)) => AllocateStep::Done(Err(e)),
                    other => AllocateStep::Init(other),
                }
            },
            AllocateStep::ListBranches => {
                let n: u32 = next_version_number(o);
                let version = sentence("V", decimal(n as u64).as_str());
                AllocateStep::CreateBranch { version }
            },
            AllocateStep::CreateBranch { version } => if o.ok() {
                AllocateStep::Done(Ok(version))
            } else {
                let mut m = sentence("git branch ", version.as_str());
                m.append(" failed: ");
                m.append(o.problem());
                AllocateStep::Done(Err(m))
            },
            AllocateStep::Done(r) => AllocateStep::Done(r),
        }
    }

    /// What is known of an allocated version.
    pub fn version_info(&self, version: String) -> (i: VersionInfo)
        requires
            self.wf(),
        ensures
            i.version == version,
            i.source_dir@ == self@.source_dir(),
            i.binary_path@ == self@.binary_path(),
    {
        VersionInfo {
            version,
            source_dir: self.source_dir().to_owned(),
            binary_path: self.binary_path().to_owned(),
        }
    }
}

/// A locked manager never comes to make a branch.
pub proof fn law_locked_manager_allocates_nothing(o: Outcome, s: VersionState)
    requires
        s.locked,
    ensures
        allocate_next(AllocateStep::CreateBase, o, s) is Done,
        allocate_next(AllocateStep::CreateBase, o, s)->Done_0 is Err,
{
}

/// Allocating does not move the repository to another branch: no step checks anything out.
pub proof fn law_allocation_does_not_switch(step: AllocateStep<Seq<char>>, s: VersionState)
    ensures
        allocate_call(step, s) is Git ==> allocate_call(step, s)->Git_0[0] != "checkout"@,
{
    reveal_strlit("checkout");
    reveal_strlit("branch");
    reveal_strlit("rev-parse");
    reveal_strlit("init");
    reveal_strlit("config");
    reveal_strlit("commit");
    assert("checkout"@[1] == 'h');
    assert("branch"@[1] == 'r');
    assert("rev-parse"@[1] == 'e');
    assert("init"@[1] == 'n');
    assert("config"@[1] == 'o');
    assert("commit"@[1] == 'o');
}

/// Steps to another version.
pub enum SwitchStep<T> {
    VerifyBranch,
    CheckRepo,
    ShowCurrent,
    BackUpBinary { previous: Option<T> },
    Checkout { previous: Option<T> },
    KeepRollback { previous: T },
    /// The version that was left, empty where there was none, or why the
    /// switch failed.
    Done(Result<T, T>),
}

impl View for SwitchStep<String> {
    type V = SwitchStep<Seq<char>>;

    open spec fn view(&self) -> SwitchStep<Seq<char>> {
        match self {
            SwitchStep::VerifyBranch => SwitchStep::VerifyBranch,
            SwitchStep::CheckRepo => SwitchStep::CheckRepo,
            SwitchStep::ShowCurrent => SwitchStep::ShowCurrent,
            SwitchStep::BackUpBinary { previous } => SwitchStep::BackUpBinary {
                previous: opt_text(*previous),
            },
            SwitchStep::Checkout { previous } => SwitchStep::Checkout {
                previous: opt_text(*previous),
            },
            SwitchStep::KeepRollback { previous } => SwitchStep::KeepRollback {
                previous: previous@,
            },
            SwitchStep::Done(Ok(v)) => SwitchStep::Done(Ok(v@)),
            SwitchStep::Done(Err(e)) => SwitchStep::Done(Err(e@)),
        }
    }
}

/// The call of a step towards a version.
pub open spec fn switch_call(step: SwitchStep<Seq<char>>, version: Seq<char>) -> RepoCall {
    match step {
        SwitchStep::VerifyBranch => RepoCall::Git(
            seq!["rev-parse"@, "--verify"@, "refs/heads/"@ + version],
        ),
        SwitchStep::CheckRepo => RepoCall::CheckRepo,
        SwitchStep::ShowCurrent => RepoCall::Git(seq!["branch"@, "--show-current"@]),
        SwitchStep::BackUpBinary { previous } => RepoCall::BackUpBinary,
        SwitchStep::Checkout { previous } => RepoCall::Git(seq!["checkout"@, version]),
        SwitchStep::KeepRollback { previous } => RepoCall::Git(
            seq!["symbolic-ref"@, "refs/reloopy/rollback"@, "refs/heads/"@ + previous],
        ),
        SwitchStep::Done(_) => RepoCall::Nothing,
    }
}

/// The step after a step towards a version. The binary is backed up before
/// anything is checked out; that the backup or the rollback reference cannot
/// be kept does not stop the switch.
pub open spec fn switch_next(
    step: SwitchStep<Seq<char>>,
    o: Outcome,
    version: Seq<char>,
) -> SwitchStep<Seq<char>> {
    match step {
        SwitchStep::VerifyBranch => if o.ok() {
            SwitchStep::CheckRepo
        } else if o.spawn_error is Some {
            SwitchStep::Done(Err("git rev-parse failed: "@ + o.problem()))
        } else {
            SwitchStep::Done(Err("Version branch does not exist: "@ + version))
        },
        SwitchStep::CheckRepo => if o.ok() {
            SwitchStep::ShowCurrent
        } else {
            SwitchStep::BackUpBinary { previous: None }
        },
        SwitchStep::ShowCurrent => SwitchStep::BackUpBinary { previous: branch_version(true, o) },
        SwitchStep::BackUpBinary { previous } => SwitchStep::Checkout { previous },
        SwitchStep::Checkout { previous } => if !o.ok() {
            SwitchStep::Done(Err("git checkout "@ + version + " failed: "@ + o.problem()))
        } else {
            match previous {
                Some(p) => SwitchStep::KeepRollback { previous: p },
                None => SwitchStep::Done(Ok(Seq::empty())),
            }
        },
        SwitchStep::KeepRollback { previous } => SwitchStep::Done(Ok(previous)),
        SwitchStep::Done(r) => SwitchStep::Done(r),
    }
}

/// Steps back to the rollback target.
pub enum RollbackStep<T> {
    CheckRepo,
    ReadTarget,
    Checkout { version: T },
    RestoreBinary { version: T },
    /// The version that was gone back to, or why there was none.
    Done(Result<T, T>),
}

impl View for RollbackStep<String> {
    type V = RollbackStep<Seq<char>>;

    open spec fn view(&self) -> RollbackStep<Seq<char>> {
        match self {
            RollbackStep::CheckRepo => RollbackStep::CheckRepo,
            RollbackStep::ReadTarget => RollbackStep::ReadTarget,
            RollbackStep::Checkout { version } => RollbackStep::Checkout { version: version@ },
            RollbackStep::RestoreBinary { version } => RollbackStep::RestoreBinary {
                version: version@,
            },
            RollbackStep::Done(Ok(v)) => RollbackStep::Done(Ok(v@)),
            RollbackStep::Done(Err(e)) => RollbackStep::Done(Err(e@)),
        }
    }
}

/// The call of a rollback step.
pub open spec fn rollback_call(step: RollbackStep<Seq<char>>) -> RepoCall {
    match step {
        RollbackStep::CheckRepo => RepoCall::CheckRepo,
        RollbackStep::ReadTarget => RepoCall::Git(
            seq!["symbolic-ref"@, "--short"@, "refs/reloopy/rollback"@],
        ),
        RollbackStep::Checkout { version } => RepoCall::Git(seq!["checkout"@, version]),
        RollbackStep::RestoreBinary { version } => RepoCall::RestoreBinary,
        RollbackStep::Done(_) => RepoCall::Nothing,
    }
}

/// The step after a rollback step. That the binary cannot be restored does not
/// stop the rollback.
pub open spec fn rollback_next(step: RollbackStep<Seq<char>>, o: Outcome) -> RollbackStep<
    Seq<char>,
> {
    match step {
        RollbackStep::CheckRepo => if o.ok() {
            RollbackStep::ReadTarget
        } else {
            RollbackStep::Done(Err("No rollback version available"@))
        },
        RollbackStep::ReadTarget => match branch_version(true, o) {
            Some(v) => RollbackStep::Checkout { version: v },
            None => RollbackStep::Done(Err("No rollback version available"@)),
        },
        RollbackStep::Checkout { version } => if o.ok() {
            RollbackStep::RestoreBinary { version }
        } else {
            RollbackStep::Done(Err("git checkout "@ + version + " failed: "@ + o.problem()))
        },
        RollbackStep::RestoreBinary { version } => RollbackStep::Done(Ok(version)),
        RollbackStep::Done(r) => RollbackStep::Done(r),
    }
}

fn checkout_failed(version: &str, o: &CommandOutcome) -> (m: String)
    ensures
        m@ == "git checkout "@ + version@ + " failed: "@ + o@.problem(),
{
    let mut m = sentence("git checkout ", version);
    m.append(" failed: ");
    m.append(o.problem());
    m
}

impl SwitchStep<String> {
    /// The call to make in this step.
    pub fn command(&self, version: &str) -> (c: RepoCommand)
        ensures
            c@ == switch_call(self@, version@),
    {
        let c = match self {
            SwitchStep::VerifyBranch => {
                let r = sentence("refs/heads/", version);
                git(&["rev-parse", "--verify", r.as_str()])
            },
            SwitchStep::CheckRepo => RepoCommand::CheckRepo,
            SwitchStep::ShowCurrent => git(&["branch", "--show-current"]),
            SwitchStep::BackUpBinary { previous } => RepoCommand::BackUpBinary,
            SwitchStep::Checkout { previous } => git(&["checkout", version]),
            SwitchStep::KeepRollback { previous } => {
                let r = sentence("refs/heads/", previous.as_str());
                git(&["symbolic-ref", "refs/reloopy/rollback", r.as_str()])
            },
            SwitchStep::Done(_) => RepoCommand::Nothing,
        };
        proof {
            if c@ is Git {
                assert(c@->Git_0 =~= switch_call(self@, version@)->Git_0);
            }
        }
        c
    }
}

impl VersionManager {
    /// The step after a step towards a version. A switch that succeeds clears
    /// the failures of earlier upgrades.
    pub fn switch_to(
        &mut self,
        step: SwitchStep<String>,
        o: &CommandOutcome,
        version: &str,
    ) -> (s: SwitchStep<String>)
        requires
            old(self).wf(),
            !(step is Done),
        ensures
            final(self).wf(),
            s@ == switch_next(step@, o@, version@),
            final(self)@ == (if s is Done && s->Done_0 is Ok {
                VersionState { failures: 0, ..old(self)@ }
            } else {
                old(self)@
            }),
    {
        match step {
            SwitchStep::VerifyBranch => if o.ok() {
                SwitchStep::CheckRepo
            } else if o.spawn_error.is_some() {
                SwitchStep::Done(Err(sentence("git rev-parse failed: ", o.problem())))
            } else {
                SwitchStep::Done(Err(sentence("Version branch does not exist: ", version)))
            },
            SwitchStep::CheckRepo => if o.ok() {
                SwitchStep::ShowCurrent
            } else {
                SwitchStep::BackUpBinary { previous: None }
            },
            SwitchStep::ShowCurrent => SwitchStep::BackUpBinary {
                previous: self.current_version(true, o),
            },
            SwitchStep::BackUpBinary { previous } => SwitchStep::Checkout { previous },
            SwitchStep::Checkout { previous } => if !o.ok() {
                SwitchStep::Done(Err(checkout_failed(version, o)))
            } else {
                match previous {
                    Some(p) => SwitchStep::KeepRollback { previous: p },
                    None => {
                        self.clear_failures();
                        SwitchStep::Done(Ok(String::new()))
                    },
                }
            },
            SwitchStep::KeepRollback { previous } => {
                self.clear_failures();
                SwitchStep::Done(Ok(previous))
            },
            SwitchStep::Done(r) => SwitchStep::Done(r),
        }
    }

    /// The step after a rollback step.
    pub fn rollback(
        &self,
        step: RollbackStep<String>,
        o: &CommandOutcome,
    ) -> (s: RollbackStep<String>)
        ensures
            s@ == rollback_next(step@, o@),
    {
        match step {
            RollbackStep::CheckRepo => if o.ok() {
                RollbackStep::ReadTarget
            } else {
                RollbackStep::Done(Err("No rollback version available".to_owned()))
            },
            RollbackStep::ReadTarget => match self.rollback_version(true, o) {
                Some(version) => RollbackStep::Checkout { version },
                None => RollbackStep::Done(Err("No rollback version available".to_owned())),
            },
            RollbackStep::Checkout { version } => if o.ok() {
                RollbackStep::RestoreBinary { version }
            } else {
                RollbackStep::Done(Err(checkout_failed(version.as_str(), o)))
            },
            RollbackStep::RestoreBinary { version } => RollbackStep::Done(Ok(version)),
            RollbackStep::Done(r) => RollbackStep::Done(r),
        }
    }
}

impl RollbackStep<String> {
    /// The call to make in this step.
    pub fn command(&self) -> (c: RepoCommand)
        ensures
            c@ == rollback_call(self@),
    {
        let c = match self {
            RollbackStep::CheckRepo => RepoCommand::CheckRepo,
            RollbackStep::ReadTarget => git(
                &["symbolic-ref", "--short", "refs/reloopy/rollback"],
            ),
            RollbackStep::Checkout { version } => git(&["checkout", version.as_str()]),
            RollbackStep::RestoreBinary { version } => RepoCommand::RestoreBinary,
            RollbackStep::Done(_) => RepoCommand::Nothing,
        };
        proof {
            if c@ is Git {
                assert(c@->Git_0 =~= rollback_call(self@)->Git_0);
            }
        }
        c
    }
}

/// The call that deletes a version's branch.
pub fn delete_command(version: &str) -> (c: RepoCommand)
    ensures
        c@ == RepoCall::Git(seq!["branch"@, "-D"@, version@]),
{
    let c = git(&["branch", "-D", version]);
    assert(c@->Git_0 =~= seq!["branch"@, "-D"@, version@]);
    c
}

/// A switch that succeeds has kept the version it left as the rollback target,
/// where there was one: the last call before the end stores its reference.
pub proof fn law_switch_keeps_rollback_target(
    step: SwitchStep<Seq<char>>,
    o: Outcome,
    version: Seq<char>,
)
    requires
        !(step is Done),
        switch_next(step, o, version) is Done,
        switch_next(step, o, version)->Done_0 is Ok,
        switch_next(step, o, version)->Done_0->Ok_0.len() > 0,
    ensures
        switch_call(step, version) == RepoCall::Git(
            seq![
                "symbolic-ref"@,
                "refs/reloopy/rollback"@,
                "refs/heads/"@ + switch_next(step, o, version)->Done_0->Ok_0,
            ],
        ),
{
}

/// Going back returns to the version that the rollback reference names: after
/// a switch away from `left`, reading the reference gives `left`, and the
/// rollback checks it out.
pub proof fn law_rollback_undoes_switch(left: Seq<char>, o: Outcome, done: Outcome)
    requires
        o.ok(),
        trimmed(o.stdout) == left,
        crate::version::version_number(left) is Some,
        done.ok(),
    ensures
        rollback_next(RollbackStep::ReadTarget, o) == (RollbackStep::Checkout { version: left }),
        rollback_call(rollback_next(RollbackStep::ReadTarget, o)) == RepoCall::Git(
            seq!["checkout"@, left],
        ),
        rollback_next(
            rollback_next(rollback_next(RollbackStep::ReadTarget, o), done),
            done,
        ) == RollbackStep::<Seq<char>>::Done(Ok(left)),
{
}

/// A commit goes through the branch of the version: it looks where it is, checks
/// the version out, adds everything, commits, and goes back to where it was.
pub proof fn law_commits_go_through_the_branch(
    version: Seq<char>,
    first: Outcome,
    ok: Outcome,
)
    requires
        first.ok(),
        ok.ok(),
    ensures
        ({
            let p = trimmed(first.stdout);
            let s1 = commit_next(CommitStep::ShowCurrent, first, version);
            let s2 = commit_next(s1, ok, version);
            let s3 = commit_next(s2, ok, version);
            let s4 = commit_next(s3, ok, version);
            &&& commit_call(CommitStep::ShowCurrent, version) == RepoCall::Git(
                seq!["branch"@, "--show-current"@],
            )
            &&& commit_call(s1, version) == RepoCall::Git(seq!["checkout"@, version])
            &&& commit_call(s2, version) == RepoCall::Git(seq!["add"@, "-A"@])
            &&& commit_call(s3, version) == RepoCall::Git(
                seq!["commit"@, "--allow-empty"@, "-m"@, "Version "@ + version],
            )
            &&& p.len() > 0 && p != version ==> commit_call(s4, version) == RepoCall::Git(
                seq!["checkout"@, p],
            ) && commit_next(s4, ok, version) == CommitStep::<Seq<char>>::Done(Ok(()))
            &&& p.len() == 0 || p == version ==> s4 == CommitStep::<Seq<char>>::Done(Ok(()))
        }),
{
}

/// A commit that fails somewhere ends with an error that holds the problem, once
/// the branch that was left is checked out again where it was left.
pub proof fn law_failed_commits_say_why(step: CommitStep<Seq<char>>, o: Outcome, version: Seq<char>)
    requires
        !o.ok(),
        step is ShowCurrent || step is Checkout || step is Add || step is Commit,
    ensures
        ({
            let n = commit_next(step, o, version);
            &&& n is Done || n is RestoreAndFail
            &&& n is Done ==> n->Done_0 is Err && contains_text(n->Done_0->Err_0, o.problem())
            &&& n is RestoreAndFail ==> contains_text(n->RestoreAndFail_error, o.problem())
                && commit_next(n, o, version) == CommitStep::<Seq<char>>::Done(
                Err(n->RestoreAndFail_error),
            )
            &&& (step is Add || step is Commit) && o.spawn_error is None ==> n is RestoreAndFail
        }),
{
    let p = o.problem();
    lemma_ends_in("git branch --show-current failed: "@, p);
    lemma_ends_in("git checkout "@ + version + " failed: "@, p);
    lemma_ends_in("git add failed: "@, p);
    lemma_ends_in("git add -A failed: "@, p);
    lemma_ends_in("git commit failed: "@, p);
}

proof fn lemma_ends_in(head: Seq<char>, p: Seq<char>)
    ensures
        contains_text(head + p, p),
{
    assert(head + p =~= head + p + Seq::<char>::empty());
    law_parts_are_found(head, p, Seq::empty(), head + p);
}

/// A new version gets the number after the highest one that is listed, and its
/// branch; it is allocated once the branch is there.
pub proof fn law_new_versions_get_the_next_number(
    s: VersionState,
    listing: Outcome,
    o: Outcome,
    version: Seq<char>,
)
    requires
        max_version(lines(listing.stdout)) < u32::MAX,
    ensures
        listing.ok() ==> allocate_next(AllocateStep::ListBranches, listing, s) == (
        AllocateStep::CreateBranch {
            version: "V"@ + dec((max_version(lines(listing.stdout)) + 1) as nat),
        }),
        !listing.ok() ==> allocate_next(AllocateStep::ListBranches, listing, s) == (
        AllocateStep::CreateBranch { version: "V"@ + dec(1) }),
        allocate_call(AllocateStep::CreateBranch { version }, s) == RepoCall::Git(
            seq!["branch"@, version],
        ),
        o.ok() ==> allocate_next(AllocateStep::CreateBranch { version }, o, s)
            == AllocateStep::Done(Ok(version)),
        !o.ok() ==> {
            let n = allocate_next(AllocateStep::CreateBranch { version }, o, s);
            n is Done && n->Done_0 is Err && contains_text(n->Done_0->Err_0, o.problem())
        },
{
    lemma_ends_in("git branch "@ + version + " failed: "@, o.problem());
}

/// Allocation begins with the directory and the repository, and nothing is
/// allocated where one of them fails or the manager is locked.
pub proof fn law_allocation_needs_a_repository(s: VersionState, o: Outcome)
    ensures
        o.ok() && !s.locked ==> allocate_next(AllocateStep::CreateBase, o, s)
            == AllocateStep::<Seq<char>>::Init(InitStep::CheckRepo),
        !o.ok() || s.locked ==> allocate_next(AllocateStep::CreateBase, o, s) is Done
            && allocate_next(AllocateStep::CreateBase, o, s)->Done_0 is Err,
        o.ok() ==> allocate_next(AllocateStep::Init(InitStep::VerifyMain), o, s)
            == AllocateStep::<Seq<char>>::ListBranches,
{
}

/// A repository with a main branch is ready. One without gets it at its highest
/// version, and where it has no version it is made anew, with a name to commit
/// under and a first commit.
pub proof fn law_repositories_are_made_ready(dir: Seq<char>, o: Outcome, ok: Outcome)
    requires
        ok.ok(),
    ensures
        init_next(InitStep::CheckRepo, ok, dir) == InitStep::<Seq<char>>::VerifyMain,
        init_next(InitStep::VerifyMain, ok, dir) == InitStep::<Seq<char>>::Done(Ok(())),
        !o.ok() ==> init_next(InitStep::VerifyMain, o, dir) == InitStep::<Seq<char>>::ListBranches,
        !o.ok() ==> init_next(InitStep::CheckRepo, o, dir) == InitStep::<Seq<char>>::CreateSource,
        highest(lines(ok.stdout)) is Some ==> {
            let b = highest(lines(ok.stdout))->Some_0.1;
            &&& init_next(InitStep::ListBranches, ok, dir) == InitStep::RecreateMain(b)
            &&& init_call(InitStep::RecreateMain(b), dir) == RepoCall::Git(
                seq!["branch"@, "main"@, b],
            )
            &&& init_next(InitStep::RecreateMain(b), ok, dir) == InitStep::<Seq<char>>::Done(Ok(()))
        },
        highest(lines(ok.stdout)) is None ==> init_next(InitStep::ListBranches, ok, dir)
            == InitStep::<Seq<char>>::RemoveSource,
        init_next(InitStep::RemoveSource, ok, dir) == InitStep::<Seq<char>>::CreateSource,
        init_next(InitStep::CreateSource, ok, dir) == InitStep::<Seq<char>>::Init,
        init_next(InitStep::Init, ok, dir) == InitStep::<Seq<char>>::ConfigName,
        init_next(InitStep::ConfigName, ok, dir) == InitStep::<Seq<char>>::ConfigEmail,
        init_next(InitStep::ConfigEmail, ok, dir) == InitStep::<Seq<char>>::FirstCommit,
        init_next(InitStep::FirstCommit, ok, dir) == InitStep::<Seq<char>>::Done(Ok(())),
        init_call(InitStep::Init, dir) == RepoCall::Git(seq!["init"@, "-b"@, "main"@, dir]),
        init_call(InitStep::FirstCommit, dir) == RepoCall::Git(
            seq!["commit"@, "--allow-empty"@, "-m"@, "Initial commit"@],
        ),
{
}

/// A step that fails where it must not ends the initialisation with the problem.
pub proof fn law_failed_initialisations_say_why(
    step: InitStep<Seq<char>>,
    o: Outcome,
    dir: Seq<char>,
)
    requires
        !o.ok(),
        !(step is CheckRepo || step is VerifyMain || step is Done),
    ensures
        init_next(step, o, dir) is Done,
        init_next(step, o, dir)->Done_0 is Err,
        contains_text(init_next(step, o, dir)->Done_0->Err_0, o.problem()),
{
    let e = init_next(step, o, dir)->Done_0->Err_0;
    let p = o.problem();
    let head = e.take(e.len() - p.len());
    assert(e =~= head + p);
    lemma_ends_in(head, p);
}

/// A switch makes sure that the version is there, notes where it is, backs the
/// binary up, checks the version out and keeps what it left for a rollback.
pub proof fn law_switches_go_step_by_step(
    version: Seq<char>,
    current: Outcome,
    ok: Outcome,
    any: Outcome,
)
    requires
        ok.ok(),
        current.ok(),
        crate::version::version_number(trimmed(current.stdout)) is Some,
    ensures
        ({
            let left = trimmed(current.stdout);
            let s1 = switch_next(SwitchStep::VerifyBranch, ok, version);
            let s2 = switch_next(s1, ok, version);
            let s3 = switch_next(s2, current, version);
            let s4 = switch_next(s3, any, version);
            let s5 = switch_next(s4, ok, version);
            &&& switch_call(SwitchStep::VerifyBranch, version) == RepoCall::Git(
                seq!["rev-parse"@, "--verify"@, "refs/heads/"@ + version],
            )
            &&& switch_call(s1, version) is CheckRepo
            &&& switch_call(s2, version) == RepoCall::Git(seq!["branch"@, "--show-current"@])
            &&& switch_call(s3, version) is BackUpBinary
            &&& switch_call(s4, version) == RepoCall::Git(seq!["checkout"@, version])
            &&& switch_call(s5, version) == RepoCall::Git(
                seq!["symbolic-ref"@, "refs/reloopy/rollback"@, "refs/heads/"@ + left],
            )
            &&& switch_next(s5, any, version) == SwitchStep::Done(Ok(left))
        }),
{
}

/// A switch to a version that is not there, or that cannot be checked out, fails
/// and says why.
pub proof fn law_failed_switches_say_why(
    version: Seq<char>,
    previous: Option<Seq<char>>,
    o: Outcome,
)
    requires
        !o.ok(),
    ensures
        switch_next(SwitchStep::VerifyBranch, o, version) is Done,
        switch_next(SwitchStep::VerifyBranch, o, version)->Done_0 is Err,
        switch_next(SwitchStep::Checkout { previous }, o, version) is Done,
        switch_next(SwitchStep::Checkout { previous }, o, version)->Done_0 is Err,
        contains_text(
            switch_next(SwitchStep::Checkout { previous }, o, version)->Done_0->Err_0,
            o.problem(),
        ),
        o.spawn_error is None ==> contains_text(
            switch_next(SwitchStep::VerifyBranch, o, version)->Done_0->Err_0,
            version,
        ),
{
    lemma_ends_in("git checkout "@ + version + " failed: "@, o.problem());
    lemma_ends_in("Version branch does not exist: "@, version);
}

/// A rollback needs a repository, a target and a checkout that succeeds; the
/// binary is restored last and need not be there.
pub proof fn law_rollbacks_go_step_by_step(version: Seq<char>, o: Outcome, ok: Outcome)
    requires
        ok.ok(),
    ensures
        rollback_next(RollbackStep::CheckRepo, ok) == RollbackStep::<Seq<char>>::ReadTarget,
        !o.ok() ==> rollback_next(RollbackStep::CheckRepo, o) is Done && rollback_next(
            RollbackStep::CheckRepo,
            o,
        )->Done_0 is Err,
        !o.ok() ==> rollback_next(RollbackStep::ReadTarget, o) is Done && rollback_next(
            RollbackStep::ReadTarget,
            o,
        )->Done_0 is Err,
        rollback_next(RollbackStep::Checkout { version }, ok) == (RollbackStep::RestoreBinary {
            version,
        }),
        !o.ok() ==> rollback_next(RollbackStep::Checkout { version }, o) is Done && rollback_next(
            RollbackStep::Checkout { version },
            o,
        )->Done_0 is Err && contains_text(
            rollback_next(RollbackStep::Checkout { version }, o)->Done_0->Err_0,
            o.problem(),
        ),
        rollback_call(RollbackStep::RestoreBinary { version }) is RestoreBinary,
        rollback_next(RollbackStep::RestoreBinary { version }, o) == RollbackStep::Done(
            Ok(version),
        ),
{
    lemma_ends_in("git checkout "@ + version + " failed: "@, o.problem());
}

} // verus!
