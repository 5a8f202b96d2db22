use std::collections::BTreeMap;

use reloopy::repo::{
    delete_command, AllocateStep, CommitStep, InitStep, RepoCommand, RollbackStep, SwitchStep,
};
use reloopy::version::{
    deleted_versions, highest_version, next_version_number, preserves, read_version,
    version_detail, CommandOutcome, VersionManager,
};

/// A repository that understands the commands which the steps ask for.
struct Repo {
    exists: bool,
    broken: Vec<String>,
    branches: Vec<String>,
    head: String,
    rollback: Option<String>,
    binary: Option<String>,
    rollback_binary: Option<String>,
    calls: Vec<String>,
}

fn done(success: bool, stdout: &str, stderr: &str) -> CommandOutcome {
    CommandOutcome {
        spawn_error: None,
        success,
        stdout: stdout.to_string(),
        stderr: stderr.to_string(),
    }
}

impl Repo {
    fn new() -> Repo {
        Repo {
            exists: false,
            broken: vec![],
            branches: vec![],
            head: String::new(),
            rollback: None,
            binary: None,
            rollback_binary: None,
            calls: vec![],
        }
    }

    fn has(&self, name: &str) -> bool {
        self.branches.iter().any(|b| b == name)
    }

    fn git(&mut self, args: &[String]) -> CommandOutcome {
        let line = args.join(" ");
        self.calls.push(line.clone());
        if self.broken.contains(&line) {
            return done(false, "", "broken");
        }
        let last = args[args.len() - 1].clone();
        match args[0].as_str() {
            "init" => {
                self.exists = true;
                self.head = "main".to_string();
                done(true, "", "")
            }
            "config" | "add" => done(true, "", ""),
            "commit" => {
                if !self.has(&self.head.clone()) {
                    self.branches.push(self.head.clone());
                }
                done(true, "", "")
            }
            "rev-parse" => {
                let name = last.trim_start_matches("refs/heads/").to_string();
                done(self.has(&name), "", "")
            }
            "branch" if args[1] == "--show-current" => done(true, &format!("{}\n", self.head), ""),
            "branch" if args[1] == "--list" => {
                let v: Vec<String> =
                    self.branches.iter().filter(|b| b.starts_with('V')).cloned().collect();
                done(true, &v.join("\n"), "")
            }
            "branch" if args[1] == "-D" => {
                let found = self.has(&last);
                self.branches.retain(|b| *b != last);
                done(found, "", "")
            }
            "branch" => {
                let name = args[1].clone();
                self.branches.push(name);
                done(true, "", "")
            }
            "checkout" => {
                if self.has(&last) {
                    self.head = last;
                    done(true, "", "")
                } else {
                    done(false, "", "no such branch")
                }
            }
            "symbolic-ref" if args[1] == "--short" => match &self.rollback {
                Some(r) => done(true, &format!("{}\n", r), ""),
                None => done(false, "", ""),
            },
            "symbolic-ref" => {
                self.rollback = Some(last.trim_start_matches("refs/heads/").to_string());
                done(true, "", "")
            }
            _ => panic!("unexpected command: {}", line),
        }
    }

    fn run(&mut self, c: &RepoCommand) -> CommandOutcome {
        match c {
            RepoCommand::CreateBase | RepoCommand::CreateSource => done(true, "", ""),
            RepoCommand::CheckRepo => done(self.exists, "", ""),
            RepoCommand::RemoveSource => {
                self.exists = false;
                self.branches.clear();
                done(true, "", "")
            }
            RepoCommand::BackUpBinary => {
                if self.binary.is_some() {
                    self.rollback_binary = self.binary.clone();
                }
                done(true, "", "")
            }
            RepoCommand::RestoreBinary => {
                if self.rollback_binary.is_some() {
                    self.binary = self.rollback_binary.clone();
                }
                done(true, "", "")
            }
            RepoCommand::Git(args) => self.git(args),
            RepoCommand::Nothing => panic!("nothing to do"),
        }
    }
}

fn allocate(m: &VersionManager, r: &mut Repo) -> Result<String, String> {
    let mut step = AllocateStep::CreateBase;
    loop {
        if let AllocateStep::Done(result) = step {
            return result;
        }
        let o = r.run(&m.allocate_command(&step));
        step = m.allocate_version(step, &o);
    }
}

fn init(r: &mut Repo) -> Result<(), String> {
    let mut step = InitStep::CheckRepo;
    loop {
        if let InitStep::Done(result) = step {
            return result;
        }
        let o = r.run(&step.command("/src"));
        step = step.next(&o, "/src");
    }
}

fn switch_to(m: &mut VersionManager, r: &mut Repo, version: &str) -> Result<String, String> {
    let mut step = SwitchStep::VerifyBranch;
    loop {
        if let SwitchStep::Done(result) = step {
            return result;
        }
        let o = r.run(&step.command(version));
        step = m.switch_to(step, &o, version);
    }
}

fn rollback(m: &VersionManager, r: &mut Repo) -> Result<String, String> {
    let mut step = RollbackStep::CheckRepo;
    loop {
        if let RollbackStep::Done(result) = step {
            return result;
        }
        let o = r.run(&step.command());
        step = m.rollback(step, &o);
    }
}

fn commit(m: &VersionManager, r: &mut Repo, version: &str) -> Result<(), String> {
    let mut step = CommitStep::ShowCurrent;
    loop {
        if let CommitStep::Done(result) = step {
            return result;
        }
        let o = r.run(&step.command(version));
        step = m.commit_version_source(step, &o, version);
    }
}

fn args(list: &[&str]) -> Vec<String> {
    list.iter().map(|s| s.to_string()).collect()
}

fn current_version(m: &VersionManager, r: &mut Repo) -> Option<String> {
    let exists = r.exists;
    let o = r.git(&args(&["branch", "--show-current"]));
    m.current_version(exists, &o)
}

fn rollback_version(m: &VersionManager, r: &mut Repo) -> Option<String> {
    let exists = r.exists;
    let o = r.git(&args(&["symbolic-ref", "--short", "refs/reloopy/rollback"]));
    m.rollback_version(exists, &o)
}

fn list_versions(m: &VersionManager, r: &mut Repo) -> Vec<String> {
    let exists = r.exists;
    let o = r.git(&args(&["branch", "--list", "V*", "--format=%(refname:short)"]));
    m.list_versions(exists, &o)
}

#[test]
fn allocate_v1_creates_branch_without_switching() {
    let mgr = VersionManager::new("/base");
    let mut repo = Repo::new();
    let version = allocate(&mgr, &mut repo).expect("V1 allocation should succeed");
    let info = mgr.version_info(version);
    assert_eq!(info.version, "V1");
    assert_eq!(info.source_dir, "/base/peripheral/source");
    assert!(repo.exists, "source dir must exist");
    assert!(repo.has("main"), "main branch must exist after init");
    assert!(repo.has("V1"), "V1 branch must exist");
    assert_eq!(repo.head, "main", "HEAD must remain on main after allocate");
    assert_eq!(
        repo.calls,
        vec![
            "init -b main /base/peripheral/source",
            "config user.name reloopy-boot",
            "config user.email boot@reloopy.local",
            "commit --allow-empty -m Initial commit",
            "branch --list V* --format=%(refname:short)",
            "branch V1",
        ]
    );
}

#[test]
fn allocate_v2_does_not_switch_head() {
    let mut mgr = VersionManager::new("/base");
    let mut repo = Repo::new();
    let v1 = allocate(&mgr, &mut repo).expect("V1");
    assert_eq!(v1, "V1");
    switch_to(&mut mgr, &mut repo, "V1").unwrap();
    let v2 = allocate(&mgr, &mut repo).expect("V2");
    assert_eq!(v2, "V2");
    assert!(repo.exists);
    assert_eq!(current_version(&mgr, &mut repo), Some("V1".to_string()));
}

#[test]
fn current_version_unaffected_by_allocate() {
    let mut mgr = VersionManager::new("/base");
    let mut repo = Repo::new();
    assert_eq!(current_version(&mgr, &mut repo), None);
    allocate(&mgr, &mut repo).expect("V1");
    assert_eq!(current_version(&mgr, &mut repo), None);
    switch_to(&mut mgr, &mut repo, "V1").unwrap();
    assert_eq!(current_version(&mgr, &mut repo), Some("V1".to_string()));
    allocate(&mgr, &mut repo).expect("V2");
    assert_eq!(current_version(&mgr, &mut repo), Some("V1".to_string()));
}

#[test]
fn switch_and_rollback() {
    let mut mgr = VersionManager::new("/base");
    let mut repo = Repo::new();
    allocate(&mgr, &mut repo).expect("V1");
    switch_to(&mut mgr, &mut repo, "V1").unwrap();
    allocate(&mgr, &mut repo).expect("V2");
    switch_to(&mut mgr, &mut repo, "V2").unwrap();

    let old = switch_to(&mut mgr, &mut repo, "V1").unwrap();
    assert_eq!(old, "V2");
    assert_eq!(current_version(&mgr, &mut repo), Some("V1".to_string()));
    assert_eq!(rollback_version(&mgr, &mut repo), Some("V2".to_string()));

    let rolled = rollback(&mgr, &mut repo).unwrap();
    assert_eq!(rolled, "V2");
    assert_eq!(current_version(&mgr, &mut repo), Some("V2".to_string()));
}

#[test]
fn rollback_persists_across_manager_instances() {
    let mut repo = Repo::new();
    {
        let mut mgr = VersionManager::new("/base");
        allocate(&mgr, &mut repo).expect("V1");
        switch_to(&mut mgr, &mut repo, "V1").unwrap();
        allocate(&mgr, &mut repo).expect("V2");
        switch_to(&mut mgr, &mut repo, "V2").unwrap();
        assert_eq!(rollback_version(&mgr, &mut repo), Some("V1".to_string()));
    }
    let mgr2 = VersionManager::new("/base");
    assert_eq!(
        rollback_version(&mgr2, &mut repo),
        Some("V1".to_string()),
        "Rollback ref must survive across manager instances"
    );
}

#[test]
fn list_versions_returns_sorted_branches() {
    let mgr = VersionManager::new("/base");
    let mut repo = Repo::new();
    allocate(&mgr, &mut repo).expect("V1");
    allocate(&mgr, &mut repo).expect("V2");
    allocate(&mgr, &mut repo).expect("V3");
    let versions = list_versions(&mgr, &mut repo);
    assert_eq!(versions, vec!["V1", "V2", "V3"]);
    let o = done(true, "V10\n V2 \nmain\nVx\nV1\nV02\n", "");
    assert_eq!(mgr.list_versions(true, &o), vec!["V1", "V2", "V02", "V10"]);
    assert!(mgr.list_versions(false, &o).is_empty());
}

#[test]
fn cleanup_old_versions_deletes_branches() {
    let mut mgr = VersionManager::new("/base");
    let mut repo = Repo::new();
    allocate(&mgr, &mut repo).expect("V1");
    switch_to(&mut mgr, &mut repo, "V1").unwrap();
    allocate(&mgr, &mut repo).expect("V2");
    switch_to(&mut mgr, &mut repo, "V2").unwrap();
    allocate(&mgr, &mut repo).expect("V3");
    switch_to(&mut mgr, &mut repo, "V3").unwrap();

    let all = list_versions(&mgr, &mut repo);
    let current = current_version(&mgr, &mut repo);
    let back = rollback_version(&mgr, &mut repo);
    let candidates = mgr.cleanup_old_versions(&all, &current, &back, 0);
    let outcomes: Vec<CommandOutcome> =
        candidates.iter().map(|v| repo.run(&delete_command(v))).collect();
    let removed = deleted_versions(&candidates, &outcomes);
    assert_eq!(removed, vec!["V1"]);

    let remaining = list_versions(&mgr, &mut repo);
    assert!(remaining.contains(&"V2".to_string()));
    assert!(remaining.contains(&"V3".to_string()));
    assert!(!remaining.contains(&"V1".to_string()));
}

#[test]
fn cleanup_keeps_the_newest() {
    let m = VersionManager::new("/base");
    let all = args(&["V1", "V2", "V3", "V4", "V5"]);
    let cur = Some("V5".to_string());
    let back = Some("V1".to_string());
    assert_eq!(m.cleanup_old_versions(&all, &cur, &back, 1), vec!["V2", "V3"]);
    assert!(m.cleanup_old_versions(&all, &cur, &back, 3).is_empty());
    assert_eq!(m.cleanup_old_versions(&all, &None, &None, 4), vec!["V1"]);
}

#[test]
fn stale_repo_without_branches_is_recovered() {
    let mut repo = Repo::new();
    repo.exists = true;
    init(&mut repo).expect("should recover from stale repo");
    assert!(repo.has("main"), "main must exist after recovery");
}

#[test]
fn missing_main_recovered_from_existing_branch() {
    let mut mgr = VersionManager::new("/base");
    let mut repo = Repo::new();
    allocate(&mgr, &mut repo).expect("V1");
    switch_to(&mut mgr, &mut repo, "V1").unwrap();
    allocate(&mgr, &mut repo).expect("V2");
    switch_to(&mut mgr, &mut repo, "V2").unwrap();
    repo.branches.retain(|b| b != "main");
    init(&mut repo).expect("should recover main from V2");
    assert!(repo.has("main"), "main must exist after recovery");
    assert!(repo.calls.contains(&"branch main V2".to_string()));
    assert!(repo.has("V1"));
    assert!(repo.has("V2"));
}

#[test]
fn versions_are_not_lost_when_recovery_fails() {
    let mut repo = Repo::new();
    repo.exists = true;
    repo.branches = args(&["V1"]);
    repo.broken = args(&["branch main V1"]);
    assert_eq!(init(&mut repo), Err("git branch main V1 failed: broken".to_string()));
    assert!(repo.has("V1"));
}

#[test]
fn has_binary_is_version_aware() {
    let mut mgr = VersionManager::new("/base");
    let mut repo = Repo::new();
    allocate(&mgr, &mut repo).expect("V1");
    switch_to(&mut mgr, &mut repo, "V1").unwrap();
    allocate(&mgr, &mut repo).expect("V2");
    switch_to(&mut mgr, &mut repo, "V2").unwrap();
    let current = current_version(&mgr, &mut repo);
    assert!(mgr.has_binary("V2", true, &current));
    assert!(!mgr.has_binary("V1", true, &current));
    assert!(!mgr.has_binary("V2", false, &current));
}

#[test]
fn version_detail_returns_commit_info() {
    let check = done(true, "", "");
    let log = done(true, "abc\n2024-01-01 10:00:00 +0000\nVersion V1\n", "");
    let detail = version_detail("V1", &check, &log).ok().unwrap();
    assert_eq!(detail.version, "V1");
    assert!(!detail.commit.is_empty());
    assert_eq!(detail.date, "2024-01-01 10:00:00 +0000");
    assert_eq!(detail.subject, "Version V1");
    let missing = version_detail("V9", &done(false, "", ""), &log);
    assert_eq!(missing.err().unwrap(), "Version branch does not exist: V9");
    let failed = version_detail("V1", &check, &done(false, "", "bad"));
    assert_eq!(failed.err().unwrap(), "git log failed: bad");
}

#[test]
fn rollback_restores_binary() {
    let mut mgr = VersionManager::new("/base");
    let mut repo = Repo::new();
    allocate(&mgr, &mut repo).expect("V1");
    switch_to(&mut mgr, &mut repo, "V1").unwrap();
    repo.binary = Some("v1-binary".to_string());
    allocate(&mgr, &mut repo).expect("V2");
    switch_to(&mut mgr, &mut repo, "V2").unwrap();
    repo.binary = Some("v2-binary".to_string());
    rollback(&mgr, &mut repo).unwrap();
    assert_eq!(repo.binary, Some("v1-binary".to_string()));
}

#[test]
fn rollback_needs_a_target() {
    let mgr = VersionManager::new("/base");
    let mut repo = Repo::new();
    assert_eq!(rollback(&mgr, &mut repo), Err("No rollback version available".to_string()));
    repo.exists = true;
    repo.rollback = Some("main".to_string());
    assert_eq!(rollback(&mgr, &mut repo), Err("No rollback version available".to_string()));
    repo.rollback = Some("V4".to_string());
    assert_eq!(
        rollback(&mgr, &mut repo),
        Err("git checkout V4 failed: no such branch".to_string())
    );
}

#[test]
fn commits_return_to_the_previous_branch() {
    let mgr = VersionManager::new("/base");
    let mut repo = Repo::new();
    allocate(&mgr, &mut repo).expect("V1");
    assert_eq!(commit(&mgr, &mut repo, "V1"), Ok(()));
    assert_eq!(repo.head, "main");
    assert!(repo.calls.contains(&"commit --allow-empty -m Version V1".to_string()));
    repo.broken = args(&["add -A"]);
    assert_eq!(commit(&mgr, &mut repo, "V1"), Err("git add -A failed: broken".to_string()));
    assert_eq!(repo.head, "main");
    repo.broken = args(&["commit --allow-empty -m Version V1"]);
    assert_eq!(commit(&mgr, &mut repo, "V1"), Err("git commit failed: broken".to_string()));
    assert_eq!(repo.head, "main");
    assert_eq!(
        commit(&mgr, &mut repo, "V7"),
        Err("git checkout V7 failed: no such branch".to_string())
    );
    let o = CommandOutcome {
        spawn_error: Some("no git".to_string()),
        success: false,
        stdout: String::new(),
        stderr: String::new(),
    };
    match mgr.commit_version_source(CommitStep::ShowCurrent, &o, "V1") {
        CommitStep::Done(Err(e)) => assert_eq!(e, "git branch --show-current failed: no git"),
        _ => panic!("must fail"),
    }
}

#[test]
fn failures_lock_the_manager() {
    let mut mgr = VersionManager::new("/base");
    let mut repo = Repo::new();
    assert!(!mgr.record_failure());
    assert!(!mgr.record_failure());
    allocate(&mgr, &mut repo).unwrap();
    switch_to(&mut mgr, &mut repo, "V1").unwrap();
    assert!(!mgr.record_failure());
    assert!(!mgr.record_failure());
    assert!(mgr.record_failure());
    assert!(mgr.is_locked());
    assert_eq!(
        allocate(&mgr, &mut repo),
        Err("Version manager is locked due to consecutive failures. Human intervention required."
            .to_string())
    );
    assert!(mgr.unlock());
    assert!(!mgr.unlock());
    assert_eq!(allocate(&mgr, &mut repo), Ok("V2".to_string()));
}

#[test]
fn switching_to_an_unknown_version_fails() {
    let mut mgr = VersionManager::new("/base");
    let mut repo = Repo::new();
    allocate(&mgr, &mut repo).unwrap();
    assert_eq!(
        switch_to(&mut mgr, &mut repo, "V8"),
        Err("Version branch does not exist: V8".to_string())
    );
    assert_eq!(switch_to(&mut mgr, &mut repo, "V1"), Ok(String::new()));
    assert_eq!(mgr.binary_path(), "/base/peripheral/binary");
    assert_eq!(mgr.rollback_binary_path(), "/base/peripheral/binary.rollback");
    assert_eq!(mgr.source_dir(), "/base/peripheral/source");
    assert_eq!(mgr.base_dir(), "/base/peripheral");
}

fn has_source(m: &VersionManager, r: &mut Repo, version: &str) -> bool {
    let exists = r.exists;
    let reference = format!("refs/heads/{}", version);
    let o = r.git(&args(&["rev-parse", "--verify", &reference]));
    m.has_source(exists, &o)
}

#[test]
fn has_source_checks_branch_existence() {
    let mgr = VersionManager::new("/base");
    let mut repo = Repo::new();
    assert!(!has_source(&mgr, &mut repo, "V1"));
    allocate(&mgr, &mut repo).expect("V1");
    assert!(has_source(&mgr, &mut repo, "V1"));
    assert!(!has_source(&mgr, &mut repo, "V99"));
}

/// A directory: every path below it, with the content of those that are files.
type Tree = BTreeMap<String, Option<String>>;

fn tree(dirs: &[&str], files: &[(&str, &str)]) -> Tree {
    let mut t = Tree::new();
    for d in dirs {
        t.insert(d.to_string(), None);
    }
    for (f, c) in files {
        t.insert(f.to_string(), Some(c.to_string()));
    }
    t
}

fn copy_source(m: &VersionManager, from: &Tree, to: &mut Tree) {
    let present: Vec<String> = to.keys().filter(|p| !p.contains('/')).cloned().collect();
    let staged: Vec<String> = from.keys().cloned().collect();
    let plan = m.copy_source(&present, &staged);
    for name in &plan.remove {
        let below = format!("{}/", name);
        to.retain(|p, _| p != name && !p.starts_with(&below));
    }
    for path in &plan.copy {
        to.insert(path.clone(), from[path].clone());
    }
}

#[test]
fn copy_source_cleans_stale_files() {
    let mgr = VersionManager::new("/base");
    let mut source = tree(&[".git"], &[("stale.txt", "old content")]);
    let staging = tree(
        &["src"],
        &[("Cargo.toml", "[package]\nname=\"test\"\n"), ("src/main.rs", "fn main() {}")],
    );
    copy_source(&mgr, &staging, &mut source);
    assert!(
        !source.contains_key("stale.txt"),
        "stale.txt must be removed by copy_source"
    );
    assert!(source.contains_key("Cargo.toml"));
    assert!(source.contains_key("src/main.rs"));
    assert!(source.contains_key(".git"));
}

#[test]
fn copy_source_preserves_git() {
    let mgr = VersionManager::new("/base");
    let mut source = tree(&[".git"], &[(".git/HEAD", "ref: refs/heads/V1\n")]);
    let staging = tree(
        &[".git", ".git/objects", "src", "target", "target/debug"],
        &[
            (".git/HEAD", "ref: refs/heads/fake\n"),
            ("target/debug/artifact", "binary"),
            ("Cargo.toml", "[package]\nname=\"test\"\n"),
            ("src/main.rs", "fn main() {}"),
        ],
    );
    copy_source(&mgr, &staging, &mut source);
    assert!(source.contains_key(".git"), ".git must still exist");
    assert_eq!(source[".git/HEAD"], Some("ref: refs/heads/V1\n".to_string()));
    assert!(!source.contains_key("target"), "target directory must not be copied");
    assert!(source.contains_key("Cargo.toml"));
    assert!(source.contains_key("src/main.rs"));
}

#[test]
fn nested_build_output_is_not_copied() {
    let mgr = VersionManager::new("/base");
    let staged = args(&["a", "a/target", "a/target/x", "a/targets", "target.rs"]);
    let plan = mgr.copy_source(&args(&["target", "a", ".git", ".gitignore"]), &staged);
    assert_eq!(plan.copy, vec!["a", "a/targets", "target.rs"]);
    assert_eq!(plan.remove, vec!["a", ".gitignore"]);
}

#[test]
fn failed_deletions_are_not_reported() {
    let candidates = args(&["V1", "V2"]);
    let outcomes = vec![done(false, "", "in use"), done(true, "", "")];
    assert_eq!(deleted_versions(&candidates, &outcomes), vec!["V2"]);
}

#[test]
fn version_names_are_read() {
    assert_eq!(read_version("V12"), Some(12));
    assert_eq!(read_version("V+3"), Some(3));
    assert_eq!(read_version("V"), None);
    assert_eq!(read_version("v1"), None);
    assert_eq!(read_version("V4294967296"), None);
    assert_eq!(highest_version("V2\nV10\nV010\nV9"), Some((10, "V10".to_string())));
    assert_eq!(highest_version("main\n"), None);
    assert!(preserves(".git") && preserves("target"));
    assert!(!preserves("src"));
}

#[test]
fn failed_listings_are_not_read() {
    assert_eq!(next_version_number(&done(true, "V2\nV10\n", "")), 11);
    assert_eq!(next_version_number(&done(true, "", "")), 1);
    assert_eq!(next_version_number(&done(false, "V4294967295\n", "broken")), 1);
}
