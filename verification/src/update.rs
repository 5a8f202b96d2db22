//! The way of an update through the kernel: submission, compilation, testing,
//! probation and the switch to the new version.

use crate::capability::{escalation_views, Escalation, EscalationViolation};
use crate::json::{
    empty_object, json_parse, number_of, text_list, text_or_null, Json, JsonTree,
};
use crate::kernel::{
    acts, all_wf, binary_of, boot_envelope, boot_letter, no_actions, one_action, push_action, Act,
    Action, HotSwapState, KernelState, Letter, Microkernel, Probation, ProbationState,
    PROBATION_DURATION_SECS,
};
use crate::lease::{LeaseEntry, LeaseState};
use crate::messages::{
    capability_escalation_tree, compile_request_tree, probation_started_tree, shutdown_tree,
    test_request_tree, update_accepted_tree, update_rejected_tree, CapabilityEscalation,
    CompileRequest, CompileResult, Envelope, InvariantResult, ProbationStarted, Shutdown,
    TestRequest, TestResult, TestVerdict, UpdateAccepted, UpdateRejected,
};
use crate::msg_types;
use crate::paths::{join, joined};
use crate::runlevel::Runlevel;
use crate::scan::{join_with, joined_with};
use crate::split::{lemma_texts_push, texts};
use crate::version::{opt_text, sentence, VersionInfo};
use vstd::prelude::*;
use vstd::string::*;

verus! {

/// A rejection that says nothing beyond its reason.
pub open spec fn plain_rejection(
    version: Seq<char>,
    reason: Seq<char>,
    errors: Option<Seq<char>>,
    allows_patch_retry: bool,
) -> JsonTree {
    update_rejected_tree(
        version,
        reason,
        errors,
        Seq::empty(),
        None,
        None,
        allows_patch_retry,
        0,
    )
}

/// The message that rejects an update.
pub open spec fn rejection_letter(
    to: Seq<char>,
    id: Seq<char>,
    version: Seq<char>,
    reason: Seq<char>,
    errors: Option<Seq<char>>,
    allows_patch_retry: bool,
) -> Letter {
    boot_letter(
        to,
        "UpdateRejected"@,
        id,
        plain_rejection(version, reason, errors, allows_patch_retry),
    )
}

/// The message that rejects an update.
fn reject(
    to: &str,
    id: &str,
    version: &str,
    reason: String,
    errors: Option<String>,
    allows_patch_retry: bool,
) -> (a: Action)
    ensures
        a@ == Act::Send(
            rejection_letter(
                to@,
                id@,
                version@,
                reason@,
                opt_text(errors),
                allows_patch_retry,
            ),
        ),
        a.wf(),
{
    let rejected = UpdateRejected {
        version: version.to_owned(),
        reason,
        errors,
        failed_tests: Vec::new(),
        scores: None,
        suggestion: None,
        allows_patch_retry,
        attempt: 0,
    };
    assert(texts(rejected.failed_tests@) =~= Seq::empty());
    Action::Send(boot_envelope(to, msg_types::UPDATE_REJECTED, id, rejected.to_json()))
}

/// An event of the audit log without details.
fn audit(event: &str, version: &str) -> (a: Action)
    ensures
        a@ == (Act::Audit { event: event@, version: Some(version@), details: empty_object() }),
        a.wf(),
{
    Action::Audit {
        event: event.to_owned(),
        version: Some(version.to_owned()),
        details: Json::object(),
    }
}

/// How far a submitted update has come: each step reports what was done last.
pub enum SubmitStep {
    /// The submission has arrived.
    Received,
    /// A version was to be allocated.
    Allocated(Result<VersionInfo, String>),
    /// The source was to be copied for the version.
    Copied { info: VersionInfo, outcome: Result<(), String> },
    /// The compile request was to be sent.
    Requested { version: String, outcome: Result<(), String> },
}

/// What a submitted update needs next.
pub enum SubmitNext {
    /// Send the rejection; the update is over.
    Reject(Action),
    AllocateVersion,
    CopySource(VersionInfo),
    /// Send the compile request.
    Request { version: String, request: Envelope },
    /// The update is with the compiler.
    Done,
}

/// The directory of the build of a version.
pub open spec fn target_of(base_dir: Seq<char>, version: Seq<char>) -> Seq<char> {
    joined(joined(joined(base_dir, "peripheral"@), version), "target"@)
}

/// The rejection that a step of a submission leads to, if it does.
pub open spec fn submit_rejection(
    s: KernelState,
    from: Seq<char>,
    id: Seq<char>,
    step: SubmitStep,
) -> Option<Letter> {
    let empty = Seq::<char>::empty();
    match step {
        SubmitStep::Received => if s.runlevel.level is Safe || s.runlevel.level is Halt {
            Some(
                rejection_letter(
                    from,
                    id,
                    empty,
                    "Updates not allowed in "@ + s.runlevel.level.spec_name() + " mode"@,
                    None,
                    false,
                ),
            )
        } else if s.versions.locked {
            Some(
                rejection_letter(
                    from,
                    id,
                    empty,
                    "Version manager locked due to consecutive failures"@,
                    None,
                    false,
                ),
            )
        } else {
            None
        },
        SubmitStep::Allocated(Err(e)) => Some(
            rejection_letter(from, id, empty, "Failed to allocate version: "@ + e@, None, false),
        ),
        SubmitStep::Copied { info, outcome: Err(e) } => Some(
            rejection_letter(
                from,
                id,
                info.version@,
                "Failed to copy source: "@ + e@,
                None,
                false,
            ),
        ),
        SubmitStep::Requested { version, outcome: Err(e) } => Some(
            rejection_letter(
                from,
                empty,
                version@,
                "Compiler service unavailable: "@ + e@,
                None,
                false,
            ),
        ),
        _ => None,
    }
}

/// The request to compile a version.
pub open spec fn compile_letter(s: KernelState, id: Seq<char>, info: VersionInfo) -> Letter {
    boot_letter(
        "compiler"@,
        "CompileRequest"@,
        id,
        compile_request_tree(
            info.version@,
            info.source_dir@,
            target_of(s.base_dir, info.version@),
            1,
        ),
    )
}

/// Whether `next` is what a step of a submission leads to.
pub open spec fn submit_leads_to(
    s: KernelState,
    from: Seq<char>,
    id: Seq<char>,
    step: SubmitStep,
    next: SubmitNext,
) -> bool {
    match submit_rejection(s, from, id, step) {
        Some(letter) => next is Reject && next->Reject_0@ == Act::Send(letter)
            && next->Reject_0.wf(),
        None => match step {
            SubmitStep::Received => next is AllocateVersion,
            SubmitStep::Allocated(r) => next == SubmitNext::CopySource(r->Ok_0),
            SubmitStep::Copied { info, outcome } => {
                &&& next is Request
                &&& next->version@ == info.version@
                &&& next->request@ == compile_letter(s, id, info)
                &&& next->request.payload.wf()
            },
            SubmitStep::Requested { version, outcome } => next is Done,
        },
    }
}

/// Whether a compilation result leads on, or ends in a rejection.
pub open spec fn compile_failed(
    s: KernelState,
    id: Seq<char>,
    version: Seq<char>,
    errors: Option<Seq<char>>,
) -> (KernelState, Seq<Act>) {
    (
        KernelState { versions: s.versions.failed(), ..s },
        seq![
            Act::Send(
                rejection_letter(
                    "peripheral"@,
                    id,
                    version,
                    "Compilation failed"@,
                    errors,
                    false,
                ),
            ),
        ],
    )
}

/// The request to test a version.
pub open spec fn test_letter(s: KernelState, id: Seq<char>, version: Seq<char>) -> Letter {
    boot_letter(
        "judge"@,
        "TestRequest"@,
        id,
        test_request_tree(version, binary_of(s.base_dir, version)),
    )
}

/// What a compilation result leads to.
pub enum CompileNext {
    /// The compilation failed; carry out the actions.
    Failed(Vec<Action>),
    /// Copy the binary to its place where it is there, then send the request
    /// for tests and report how that went.
    Test { binary: Option<String>, target: String, request: Envelope },
}

/// Whether a compilation result leads from one state to another, and to `next`.
pub open spec fn compile_leads_to(
    before: KernelState,
    after: KernelState,
    id: Seq<char>,
    result: CompileResult,
    next: CompileNext,
) -> bool {
    if result.success {
        &&& after == before
        &&& next is Test
        &&& next->binary == result.binary_path
        &&& next->target@ == binary_of(before.base_dir, result.version@)
        &&& next->request@ == test_letter(before, id, result.version@)
        &&& next->request.payload.wf()
    } else {
        &&& next is Failed
        &&& all_wf(next->Failed_0@)
        &&& (after, acts(next->Failed_0@)) == compile_failed(
            before,
            id,
            result.version@,
            opt_text(result.errors),
        )
    }
}

/// What follows a request for tests, given whether it could be sent: without a
/// judge the version is switched to untested.
pub open spec fn after_test_request(id: Seq<char>, version: Seq<char>, sent: bool) -> Seq<Act> {
    (if sent {
        Seq::empty()
    } else {
        seq![Act::Finalize { version, envelope_id: id }]
    }).push(
        Act::Audit {
            event: "compilation_succeeded"@,
            version: Some(version),
            details: empty_object(),
        },
    )
}

/// The constraints of a probation, as they are announced.
pub open spec fn probation_constraints() -> JsonTree {
    match json_parse("{\"heartbeat_interval_secs\":5,\"resource_quota_multiplier\":0.5}"@) {
        Ok(t) => t,
        Err(_) => JsonTree::Null,
    }
}

/// The tests that failed, in their order.
pub open spec fn failed_ids(results: Seq<InvariantResult>) -> Seq<Seq<char>>
    decreases results.len(),
{
    if results.len() == 0 {
        Seq::empty()
    } else if results.last().passed {
        failed_ids(results.drop_last())
    } else {
        failed_ids(results.drop_last()).push(results.last().test_id@)
    }
}

/// The tests that failed, in their order.
pub fn failed_tests(results: &Vec<InvariantResult>) -> (r: Vec<String>)
    ensures
        texts(r@) == failed_ids(results@),
{
    let mut r: Vec<String> = Vec::new();
    let mut i: usize = 0;
    assert(texts(r@) =~= failed_ids(results@.take(0)));
    while i < results.len()
        invariant
            i <= results@.len(),
            texts(r@) == failed_ids(results@.take(i as int)),
        decreases results@.len() - i,
    {
        assert(results@.take(i + 1).drop_last() =~= results@.take(i as int));
        if !results[i].passed {
            let t = results[i].test_id.clone();
            proof {
                lemma_texts_push(r@, t);
            }
            r.push(t);
        }
        i += 1;
    }
    assert(results@.take(results@.len() as int) =~= results@);
    r
}

/// The state and the actions after a test result. A pass leads to the switch,
/// a soft failure to probation, a hard failure to a rejection that counts as a
/// failed upgrade.
pub open spec fn after_test(
    s: KernelState,
    id: Seq<char>,
    r: TestResult,
    now: u64,
) -> (KernelState, Seq<Act>) {
    let version = r.version@;
    match r.verdict {
        TestVerdict::Pass => (
            s,
            seq![
                Act::Audit {
                    event: "test_passed"@,
                    version: Some(version),
                    details: empty_object().set("overall_score"@, r.overall_score.tree()).set(
                        "dimension_scores"@,
                        r.dimension_scores.tree(),
                    ),
                },
                Act::Finalize { version, envelope_id: id },
            ],
        ),
        TestVerdict::SoftFail => (
            KernelState {
                probation: Some(
                    Probation {
                        version,
                        binary_path: binary_of(s.base_dir, version),
                        started_at: now,
                        duration: (PROBATION_DURATION_SECS * 1000) as u64,
                        envelope_id: id,
                    },
                ),
                leases: probation_set(s.leases, true),
                ..s
            },
            seq![
                Act::Send(
                    boot_letter(
                        "peripheral"@,
                        "ProbationStarted"@,
                        id,
                        probation_started_tree(
                            version,
                            PROBATION_DURATION_SECS,
                            probation_constraints(),
                        ),
                    ),
                ),
                Act::Audit {
                    event: "probation_started"@,
                    version: Some(version),
                    details: empty_object().set("overall_score"@, r.overall_score.tree()).set(
                        "suggestion"@,
                        text_or_null(opt_text(r.suggestion)),
                    ).set(
                        "duration_secs"@,
                        JsonTree::Number(number_of(PROBATION_DURATION_SECS)),
                    ),
                },
            ],
        ),
        TestVerdict::HardFail => (
            KernelState { versions: s.versions.failed(), ..s },
            seq![
                Act::Send(
                    boot_letter(
                        "peripheral"@,
                        "UpdateRejected"@,
                        id,
                        update_rejected_tree(
                            version,
                            "Test suite failed"@,
                            None,
                            failed_ids(r.invariant_results@),
                            Some(r.dimension_scores.tree()),
                            opt_text(r.suggestion),
                            true,
                            0,
                        ),
                    ),
                ),
                Act::Audit {
                    event: "update_rejected"@,
                    version: Some(version),
                    details: empty_object().set(
                        "reason"@,
                        JsonTree::Text("Test suite hard fail"@),
                    ).set("overall_score"@, r.overall_score.tree()).set(
                        "failed_tests"@,
                        text_list(failed_ids(r.invariant_results@)),
                    ),
                },
            ],
        ),
    }
}

/// The leases with the peripheral put on probation, or taken off.
pub open spec fn probation_set(s: LeaseState, probation: bool) -> LeaseState {
    if s.leases.contains_key("peripheral"@) {
        LeaseState {
            leases: s.leases.insert(
                "peripheral"@,
                LeaseEntry { probation, ..s.leases["peripheral"@] },
            ),
            ..s
        }
    } else {
        s
    }
}

/// How far the switch to a version has come. A step reports what was done last.
pub enum SwitchEvent {
    /// The switch begins, from this version or from none.
    Started(Option<String>),
    /// The capabilities of the two versions were to be compared.
    Compared(Result<Vec<EscalationViolation>, String>),
    /// The state migration was to be begun.
    MigrationBegun(Result<(), String>),
    /// The state migration was to be committed.
    MigrationCommitted(Result<(), String>),
    /// The version was to be switched.
    Switched(Result<String, String>),
    /// Whether the new version's binary is there.
    BinaryFound(bool),
}

/// What the switch to a version needs next.
pub enum SwitchNeed {
    CompareCapabilities,
    BeginMigration,
    CommitMigration,
    SwitchVersion,
    FindBinary,
    /// The switch is over.
    Nothing,
}

/// The sentences that describe violations.
pub open spec fn descriptions(v: Seq<Escalation>) -> Seq<Seq<char>> {
    Seq::new(v.len(), |i: int| v[i].description())
}

/// What the switch needs after an event, and the actions on the way. Without a
/// previous version there is nothing to compare and nothing to migrate.
pub open spec fn switch_step(
    base_dir: Seq<char>,
    version: Seq<char>,
    id: Seq<char>,
    old_version: Seq<char>,
    event: SwitchEvent,
) -> (SwitchNeed, Seq<Act>) {
    match event {
        SwitchEvent::Started(_) => if old_version.len() > 0 {
            (SwitchNeed::CompareCapabilities, Seq::empty())
        } else {
            (SwitchNeed::SwitchVersion, Seq::empty())
        },
        SwitchEvent::Compared(Ok(v)) => if v@.len() > 0 {
            let found = descriptions(escalation_views(v@));
            (
                SwitchNeed::Nothing,
                seq![
                    Act::Audit {
                        event: "capability_escalation_blocked"@,
                        version: Some(version),
                        details: capability_escalation_tree(version, found),
                    },
                    Act::Send(
                        rejection_letter(
                            "peripheral"@,
                            id,
                            version,
                            "Capability escalation requires human approval"@,
                            Some(joined_with(found, "; "@)),
                            true,
                        ),
                    ),
                ],
            )
        } else {
            (SwitchNeed::BeginMigration, Seq::empty())
        },
        SwitchEvent::Compared(Err(_)) => (SwitchNeed::BeginMigration, Seq::empty()),
        SwitchEvent::MigrationBegun(Ok(_)) => (SwitchNeed::CommitMigration, Seq::empty()),
        SwitchEvent::MigrationBegun(Err(_)) => (SwitchNeed::SwitchVersion, Seq::empty()),
        SwitchEvent::MigrationCommitted(Ok(_)) => (SwitchNeed::SwitchVersion, Seq::empty()),
        SwitchEvent::MigrationCommitted(Err(e)) => (
            SwitchNeed::Nothing,
            seq![
                Act::Send(
                    rejection_letter(
                        "peripheral"@,
                        id,
                        version,
                        "State migration failed: "@ + e@,
                        None,
                        false,
                    ),
                ),
            ],
        ),
        SwitchEvent::Switched(Ok(_)) => (
            SwitchNeed::FindBinary,
            seq![
                Act::Send(
                    boot_letter(
                        "peripheral"@,
                        "UpdateAccepted"@,
                        id,
                        update_accepted_tree(version),
                    ),
                ),
                Act::Audit {
                    event: "update_accepted"@,
                    version: Some(version),
                    details: empty_object(),
                },
            ],
        ),
        SwitchEvent::Switched(Err(e)) => (
            SwitchNeed::Nothing,
            seq![
                Act::Send(
                    rejection_letter(
                        "peripheral"@,
                        id,
                        version,
                        "Version switch failed: "@ + e@,
                        None,
                        false,
                    ),
                ),
            ],
        ),
        SwitchEvent::BinaryFound(true) => (
            SwitchNeed::Nothing,
            seq![
                Act::Send(
                    boot_letter(
                        "peripheral"@,
                        "Shutdown"@,
                        Seq::empty(),
                        shutdown_tree("Hot replacement: upgrading to "@ + version, 5000),
                    ),
                ),
            ],
        ),
        SwitchEvent::BinaryFound(false) => (SwitchNeed::Nothing, Seq::empty()),
    }
}

/// The kernel's state after an event of a switch: a binary that is found
/// starts a hot swap.
pub open spec fn switch_state(
    s: KernelState,
    version: Seq<char>,
    old_version: Seq<char>,
    event: SwitchEvent,
    now: u64,
) -> KernelState {
    match event {
        SwitchEvent::BinaryFound(true) => KernelState {
            hot_swap: HotSwapState::WaitingForOldDisconnect {
                new_version: version,
                new_binary: binary_of(s.base_dir, version),
                old_version,
                initiated_at: now,
            },
            ..s
        },
        _ => s,
    }
}

fn describe_all(v: &Vec<EscalationViolation>) -> (r: Vec<String>)
    ensures
        texts(r@) == descriptions(escalation_views(v@)),
{
    let mut r: Vec<String> = Vec::new();
    let mut i: usize = 0;
    while i < v.len()
        invariant
            i <= v@.len(),
            r@.len() == i,
            forall|k: int| 0 <= k < i ==> (#[trigger] r@[k])@ == v@[k]@.description(),
        decreases v@.len() - i,
    {
        r.push(v[i].describe());
        i += 1;
    }
    assert(texts(r@) =~= descriptions(escalation_views(v@)));
    r
}

/// Two actions.
fn two_actions(a: Action, b: Action) -> (v: Vec<Action>)
    requires
        a.wf(),
        b.wf(),
    ensures
        acts(v@) == seq![a@, b@],
        all_wf(v@),
{
    let mut v = one_action(a);
    push_action(&mut v, b);
    assert(acts(v@) =~= seq![a@, b@]);
    v
}

impl Microkernel {
    /// Decides on the next step of a submitted update. In a restricted mode,
    /// and while the versions are locked, updates are rejected.
    pub fn handle_submit_update(&self, from: &str, id: &str, step: SubmitStep) -> (next: SubmitNext)
        ensures
            submit_leads_to(self@, from@, id@, step, next),
    {
        let none = String::new();
        match step {
            SubmitStep::Received => {
                let level = self.runlevel_manager.current();
                if level.is_restricted() {
                    let mut reason = sentence("Updates not allowed in ", level.name());
                    reason.append(" mode");
                    return SubmitNext::Reject(
                        reject(from, id, none.as_str(), reason, None, false),
                    );
                }
                if self.version_manager.is_locked() {
                    let reason = "Version manager locked due to consecutive failures".to_owned();
                    return SubmitNext::Reject(
                        reject(from, id, none.as_str(), reason, None, false),
                    );
                }
                SubmitNext::AllocateVersion
            },
            SubmitStep::Allocated(Ok(info)) => SubmitNext::CopySource(info),
            SubmitStep::Allocated(Err(e)) => {
                let reason = sentence("Failed to allocate version: ", e.as_str());
                SubmitNext::Reject(reject(from, id, none.as_str(), reason, None, false))
            },
            SubmitStep::Copied { info, outcome: Ok(()) } => {
                let output = join(
                    join(
                        join(self.config.base_dir.as_str(), "peripheral").as_str(),
                        info.version.as_str(),
                    ).as_str(),
                    "target",
                );
                let request = CompileRequest {
                    version: info.version.clone(),
                    source_path: info.source_dir.clone(),
                    output_path: output,
                    attempt: 1,
                };
                let request = boot_envelope(
                    "compiler",
                    msg_types::COMPILE_REQUEST,
                    id,
                    request.to_json(),
                );
                SubmitNext::Request { version: info.version, request }
            },
            SubmitStep::Copied { info, outcome: Err(e) } => {
                let reason = sentence("Failed to copy source: ", e.as_str());
                SubmitNext::Reject(reject(from, id, info.version.as_str(), reason, None, false))
            },
            SubmitStep::Requested { version, outcome: Ok(()) } => SubmitNext::Done,
            SubmitStep::Requested { version, outcome: Err(e) } => {
                let reason = sentence("Compiler service unavailable: ", e.as_str());
                SubmitNext::Reject(
                    reject(from, none.as_str(), version.as_str(), reason, None, false),
                )
            },
        }
    }

    /// Deals with the compiler's result: a failure counts and is reported, a
    /// success goes to the judge.
    pub fn handle_compile_result(&mut self, id: &str, result: &CompileResult) -> (next: CompileNext)
        requires
            old(self).wf(),
            !result.success ==> old(self)@.versions.failures < u32::MAX,
        ensures
            final(self).wf(),
            compile_leads_to(old(self)@, final(self)@, id@, *result, next),
    {
        let version = result.version.as_str();
        if !result.success {
            let _ = self.version_manager.record_failure();
            return CompileNext::Failed(
                one_action(
                    reject(
                        "peripheral",
                        id,
                        version,
                        "Compilation failed".to_owned(),
                        result.errors.clone(),
                        false,
                    ),
                ),
            );
        }
        let target = self.version_binary(version);
        let request = TestRequest {
            version: version.to_owned(),
            binary_path: self.version_binary(version),
        };
        CompileNext::Test {
            binary: result.binary_path.clone(),
            target,
            request: boot_envelope("judge", msg_types::TEST_REQUEST, id, request.to_json()),
        }
    }

    /// Goes on once the request for tests was to be sent: without a judge the
    /// version is switched to untested.
    pub fn test_requested(&self, id: &str, version: &str, outcome: Result<(), String>) -> (v: Vec<
        Action,
    >)
        ensures
            all_wf(v@),
            acts(v@) == after_test_request(id@, version@, outcome is Ok),
    {
        let mut v = match outcome {
            Ok(()) => no_actions(),
            Err(_) => one_action(
                Action::Finalize { version: version.to_owned(), envelope_id: id.to_owned() },
            ),
        };
        push_action(&mut v, audit("compilation_succeeded", version));
        v
    }

    /// Deals with the judge's result.
    pub fn handle_test_result(&mut self, id: &str, result: &TestResult, now: u64) -> (v: Vec<
        Action,
    >)
        requires
            old(self).wf(),
            result.verdict is HardFail ==> old(self)@.versions.failures < u32::MAX,
            result.overall_score.wf(),
            result.dimension_scores.wf(),
        ensures
            final(self).wf(),
            all_wf(v@),
            (final(self)@, acts(v@)) == after_test(old(self)@, id@, *result, now),
    {
        let version = result.version.as_str();
        match result.verdict {
            TestVerdict::Pass => {
                let mut details = Json::object();
                details.set("overall_score", result.overall_score.copy());
                details.set("dimension_scores", result.dimension_scores.copy());
                two_actions(
                    Action::Audit {
                        event: "test_passed".to_owned(),
                        version: Some(version.to_owned()),
                        details,
                    },
                    Action::Finalize { version: version.to_owned(), envelope_id: id.to_owned() },
                )
            },
            TestVerdict::SoftFail => {
                let binary_path = self.version_binary(version);
                self.probation = Some(
                    ProbationState {
                        version: version.to_owned(),
                        binary_path,
                        started_at: now,
                        duration: PROBATION_DURATION_SECS * 1000,
                        envelope_id: id.to_owned(),
                    },
                );
                self.lease_manager.set_probation("peripheral", true);
                let constraints = match Json::parse(
                    "{\"heartbeat_interval_secs\":5,\"resource_quota_multiplier\":0.5}",
                ) {
                    Ok(c) => c,
                    Err(_) => Json::Null,
                };
                let started = ProbationStarted {
                    version: version.to_owned(),
                    duration_secs: PROBATION_DURATION_SECS,
                    constraints,
                };
                let mut details = Json::object();
                details.set("overall_score", result.overall_score.copy());
                details.set("suggestion", Json::optional(&result.suggestion));
                details.set("duration_secs", Json::number(PROBATION_DURATION_SECS));
                two_actions(
                    Action::Send(
                        boot_envelope(
                            "peripheral",
                            msg_types::PROBATION_STARTED,
                            id,
                            started.to_json(),
                        ),
                    ),
                    Action::Audit {
                        event: "probation_started".to_owned(),
                        version: Some(version.to_owned()),
                        details,
                    },
                )
            },
            TestVerdict::HardFail => {
                let _ = self.version_manager.record_failure();
                let failed = failed_tests(&result.invariant_results);
                let mut details = Json::object();
                details.set("reason", Json::text("Test suite hard fail"));
                details.set("overall_score", result.overall_score.copy());
                details.set("failed_tests", Json::strings(&failed));
                let rejected = UpdateRejected {
                    version: version.to_owned(),
                    reason: "Test suite failed".to_owned(),
                    errors: None,
                    failed_tests: failed,
                    scores: Some(result.dimension_scores.copy()),
                    suggestion: result.suggestion.clone(),
                    allows_patch_retry: true,
                    attempt: 0,
                };
                two_actions(
                    Action::Send(
                        boot_envelope(
                            "peripheral",
                            msg_types::UPDATE_REJECTED,
                            id,
                            rejected.to_json(),
                        ),
                    ),
                    Action::Audit {
                        event: "update_rejected".to_owned(),
                        version: Some(version.to_owned()),
                        details,
                    },
                )
            },
        }
    }

    /// Goes on with the switch to a version that has been found good.
    /// `old_version` is the version that is left, empty where there is none.
    pub fn finalize_version_switch(
        &mut self,
        version: &str,
        id: &str,
        old_version: &str,
        event: SwitchEvent,
        now: u64,
    ) -> (r: (SwitchNeed, Vec<Action>))
        requires
            old(self).wf(),
        ensures
            final(self).wf(),
            all_wf(r.1@),
            (r.0, acts(r.1@)) == switch_step(
                old(self)@.base_dir,
                version@,
                id@,
                old_version@,
                event,
            ),
            final(self)@ == switch_state(old(self)@, version@, old_version@, event, now),
    {
        match event {
            SwitchEvent::Started(_) => {
                if old_version.unicode_len() > 0 {
                    (SwitchNeed::CompareCapabilities, no_actions())
                } else {
                    (SwitchNeed::SwitchVersion, no_actions())
                }
            },
            SwitchEvent::Compared(Ok(found)) => {
                if found.len() == 0 {
                    return (SwitchNeed::BeginMigration, no_actions());
                }
                let violations = describe_all(&found);
                let all = join_with(&violations, "; ");
                let escalation = CapabilityEscalation { version: version.to_owned(), violations };
                let blocked = Action::Audit {
                    event: "capability_escalation_blocked".to_owned(),
                    version: Some(version.to_owned()),
                    details: escalation.to_json(),
                };
                let rejected = reject(
                    "peripheral",
                    id,
                    version,
                    "Capability escalation requires human approval".to_owned(),
                    Some(all),
                    true,
                );
                (SwitchNeed::Nothing, two_actions(blocked, rejected))
            },
            SwitchEvent::Compared(Err(_)) => (SwitchNeed::BeginMigration, no_actions()),
            SwitchEvent::MigrationBegun(Ok(())) => (SwitchNeed::CommitMigration, no_actions()),
            SwitchEvent::MigrationBegun(Err(_)) => (SwitchNeed::SwitchVersion, no_actions()),
            SwitchEvent::MigrationCommitted(Ok(())) => (SwitchNeed::SwitchVersion, no_actions()),
            SwitchEvent::MigrationCommitted(Err(e)) => {
                let reason = sentence("State migration failed: ", e.as_str());
                (
                    SwitchNeed::Nothing,
                    one_action(reject("peripheral", id, version, reason, None, false)),
                )
            },
            SwitchEvent::Switched(Ok(_)) => {
                let accepted = UpdateAccepted { version: version.to_owned() };
                let answer = Action::Send(
                    boot_envelope(
                        "peripheral",
                        msg_types::UPDATE_ACCEPTED,
                        id,
                        accepted.to_json(),
                    ),
                );
                (SwitchNeed::FindBinary, two_actions(answer, audit("update_accepted", version)))
            },
            SwitchEvent::Switched(Err(e)) => {
                let reason = sentence("Version switch failed: ", e.as_str());
                (
                    SwitchNeed::Nothing,
                    one_action(reject("peripheral", id, version, reason, None, false)),
                )
            },
            SwitchEvent::BinaryFound(found) => {
                if !found {
                    return (SwitchNeed::Nothing, no_actions());
                }
                let shutdown = Shutdown {
                    reason: sentence("Hot replacement: upgrading to ", version),
                    grace_ms: 5000,
                };
                let none = String::new();
                let order = Action::Send(
                    boot_envelope(
                        "peripheral",
                        msg_types::SHUTDOWN,
                        none.as_str(),
                        shutdown.to_json(),
                    ),
                );
                let new_binary = self.version_binary(version);
                self.hot_swap = HotSwapState::WaitingForOldDisconnect {
                    new_version: version.to_owned(),
                    new_binary,
                    old_version: old_version.to_owned(),
                    initiated_at: now,
                };
                (SwitchNeed::Nothing, one_action(order))
            },
        }
    }
}

/// In safe mode and on the way to halt no update gets past its submission.
pub proof fn law_restricted_modes_reject_updates(
    s: KernelState,
    from: Seq<char>,
    id: Seq<char>,
    next: SubmitNext,
)
    requires
        s.runlevel.level is Safe || s.runlevel.level is Halt || s.versions.locked,
        submit_leads_to(s, from, id, SubmitStep::Received, next),
    ensures
        next is Reject,
{
}

/// A rejected submission is answered to the peer that made it.
pub proof fn law_rejections_go_to_the_submitter(
    s: KernelState,
    from: Seq<char>,
    id: Seq<char>,
    step: SubmitStep,
)
    requires
        submit_rejection(s, from, id, step) is Some,
    ensures
        submit_rejection(s, from, id, step)->Some_0.to == from,
        submit_rejection(s, from, id, step)->Some_0.msg_type == "UpdateRejected"@,
{
}

/// A version that asks for more than the one before it is not switched to: the
/// switch ends there, with an audit entry and a rejection.
pub proof fn law_escalation_blocks_the_switch(
    base_dir: Seq<char>,
    version: Seq<char>,
    id: Seq<char>,
    old_version: Seq<char>,
    found: Vec<EscalationViolation>,
)
    requires
        found@.len() > 0,
    ensures
        ({
            let (need, acts) = switch_step(
                base_dir,
                version,
                id,
                old_version,
                SwitchEvent::Compared(Ok(found)),
            );
            &&& need is Nothing
            &&& acts.len() == 2
            &&& acts[0] is Audit
            &&& acts[0]->Audit_version == Some(version)
            &&& acts[1] is Send
            &&& acts[1]->Send_0.to == "peripheral"@
            &&& acts[1]->Send_0.msg_type == "UpdateRejected"@
        }),
{
}

/// Where there is a version before, the capabilities are compared before
/// anything is migrated, and the versions are switched only after that.
pub proof fn law_switch_comes_last(
    base_dir: Seq<char>,
    version: Seq<char>,
    id: Seq<char>,
    old_version: Seq<char>,
    event: SwitchEvent,
)
    requires
        old_version.len() > 0,
    ensures
        ({
            let need = switch_step(base_dir, version, id, old_version, event).0;
            &&& event is Started ==> need is CompareCapabilities
            &&& need is BeginMigration ==> event is Compared && (event->Compared_0 is Ok
                ==> event->Compared_0->Ok_0@.len() == 0)
            &&& need is CommitMigration ==> event is MigrationBegun && event->MigrationBegun_0 is Ok
            &&& need is SwitchVersion ==> {
                ||| event is MigrationBegun && event->MigrationBegun_0 is Err
                ||| event is MigrationCommitted && event->MigrationCommitted_0 is Ok
            }
            &&& need is FindBinary ==> event is Switched && event->Switched_0 is Ok
        }),
{
}

/// Whether an action accepts an update.
pub open spec fn accepts_update(a: Act) -> bool {
    a is Send && a->Send_0.msg_type == "UpdateAccepted"@
}

/// An update is accepted only once the version has been switched.
pub proof fn law_accepted_only_after_the_switch(
    base_dir: Seq<char>,
    version: Seq<char>,
    id: Seq<char>,
    old_version: Seq<char>,
    event: SwitchEvent,
    i: int,
)
    requires
        0 <= i < switch_step(base_dir, version, id, old_version, event).1.len(),
        accepts_update(switch_step(base_dir, version, id, old_version, event).1[i]),
    ensures
        event is Switched,
        event->Switched_0 is Ok,
{
    reveal_strlit("UpdateAccepted");
    reveal_strlit("UpdateRejected");
    reveal_strlit("Shutdown");
    assert("UpdateAccepted"@[6] == 'A');
    assert("UpdateRejected"@[6] == 'R');
    assert("UpdateAccepted"@.len() == 14);
    assert("Shutdown"@.len() == 8);
}

/// The verdict decides: only a pass leads straight to the switch, only a soft
/// failure to probation, and only a hard failure counts as a failed upgrade.
pub proof fn law_verdict_decides(s: KernelState, id: Seq<char>, r: TestResult, now: u64)
    ensures
        (exists|i: int|
            0 <= i < after_test(s, id, r, now).1.len() && (#[trigger] after_test(
                s,
                id,
                r,
                now,
            ).1[i]) is Finalize) <==> r.verdict is Pass,
        r.verdict is SoftFail ==> after_test(s, id, r, now).0.probation is Some,
        !(r.verdict is SoftFail) ==> after_test(s, id, r, now).0.probation == s.probation,
        after_test(s, id, r, now).0.versions.failures == s.versions.failures + (
        if r.verdict is HardFail {
            1int
        } else {
            0int
        }),
{
    let v = after_test(s, id, r, now).1;
    if r.verdict is Pass {
        assert(v[1] is Finalize);
    } else {
        assert forall|i: int| 0 <= i < v.len() implies !((#[trigger] v[i]) is Finalize) by {
            assert(i == 0 || i == 1);
        }
    }
}

/// A submission that arrives is rejected exactly in safe mode, on the way to
/// halt and while the versions are locked. In any other case, in evolve mode as
/// in normal operation, a version is allocated for it.
pub proof fn law_only_restricted_modes_and_locks_reject(
    s: KernelState,
    from: Seq<char>,
    id: Seq<char>,
    next: SubmitNext,
)
    requires
        submit_leads_to(s, from, id, SubmitStep::Received, next),
    ensures
        next is Reject <==> s.runlevel.level == Runlevel::Safe || s.runlevel.level
            == Runlevel::Halt || s.versions.locked,
        (s.runlevel.level == Runlevel::Normal || s.runlevel.level == Runlevel::Evolve)
            && !s.versions.locked ==> next is AllocateVersion,
{
}

/// Whether a letter rejects an update, with a reason that ends in what went wrong.
pub open spec fn rejects_with(l: Letter, to: Seq<char>, version: Seq<char>, cause: Seq<char>) -> bool {
    let reason = l.payload.get_text("reason"@);
    &&& l.from == "boot"@
    &&& l.to == to
    &&& l.msg_type == "UpdateRejected"@
    &&& l.payload.get_text("version"@) == Some(version)
    &&& reason is Some
    &&& reason->Some_0.len() > cause.len()
    &&& reason->Some_0.skip(reason->Some_0.len() - cause.len()) == cause
    &&& l.payload.get("allows_patch_retry"@) == Some(JsonTree::Bool(false))
}

proof fn lemma_rejection(
    to: Seq<char>,
    id: Seq<char>,
    version: Seq<char>,
    start: Seq<char>,
    cause: Seq<char>,
)
    requires
        start.len() > 0,
    ensures
        rejects_with(
            rejection_letter(to, id, version, start + cause, None, false),
            to,
            version,
            cause,
        ),
{
    reveal_strlit("version");
    reveal_strlit("reason");
    reveal_strlit("errors");
    reveal_strlit("allows_patch_retry");
    reveal_strlit("attempt");
    assert("version"@.len() == 7);
    assert("reason"@.len() == 6);
    assert("errors"@.len() == 6);
    assert("allows_patch_retry"@.len() == 18);
    assert("attempt"@.len() == 7);
    assert("version"@[0] == 'v');
    assert("reason"@[0] == 'r');
    assert("errors"@[0] == 'e');
    assert("attempt"@[0] == 'a');
    assert((start + cause).skip(start.len() as int) =~= cause);
}

/// What a submission leads to: the allocated version is copied to, the compiler
/// is asked to build what was copied, and any step that fails ends in a
/// rejection to the submitter that says why.
pub proof fn law_submissions_go_on_until_something_fails(
    s: KernelState,
    from: Seq<char>,
    id: Seq<char>,
    step: SubmitStep,
    next: SubmitNext,
)
    requires
        submit_leads_to(s, from, id, step, next),
    ensures
        next is Reject ==> next->Reject_0@ is Send && next->Reject_0@->Send_0.to == from,
        step matches SubmitStep::Allocated(Ok(info)) ==> next == SubmitNext::CopySource(info),
        step matches SubmitStep::Allocated(Err(e)) ==> next is Reject && rejects_with(
            next->Reject_0@->Send_0,
            from,
            Seq::empty(),
            e@,
        ) && next->Reject_0@->Send_0.id == id,
        step matches SubmitStep::Copied { info, outcome: Ok(_) } ==> {
            let l = next->request@;
            &&& next is Request
            &&& next->version@ == info.version@
            &&& l.from == "boot"@ && l.to == "compiler"@ && l.msg_type == "CompileRequest"@
            &&& l.id == id
            &&& l.payload.get_text("version"@) == Some(info.version@)
            &&& l.payload.get_text("source_path"@) == Some(info.source_dir@)
            &&& l.payload.get_text("output_path"@) == Some(
                joined(joined(joined(s.base_dir, "peripheral"@), info.version@), "target"@),
            )
            &&& l.payload.get("attempt"@) == Some(JsonTree::Number(number_of(1)))
        },
        step matches SubmitStep::Copied { info, outcome: Err(e) } ==> next is Reject
            && rejects_with(next->Reject_0@->Send_0, from, info.version@, e@)
            && next->Reject_0@->Send_0.id == id,
        step matches SubmitStep::Requested { version, outcome: Ok(_) } ==> next is Done,
        step matches SubmitStep::Requested { version, outcome: Err(e) } ==> next is Reject
            && rejects_with(next->Reject_0@->Send_0, from, version@, e@),
{
    reveal_strlit("version");
    reveal_strlit("source_path");
    reveal_strlit("output_path");
    reveal_strlit("attempt");
    assert("version"@.len() == 7);
    assert("source_path"@.len() == 11);
    assert("output_path"@.len() == 11);
    assert("attempt"@.len() == 7);
    assert("version"@[0] == 'v');
    assert("source_path"@[0] == 's');
    assert("output_path"@[0] == 'o');
    assert("attempt"@[0] == 'a');
    reveal_strlit("Failed to allocate version: ");
    reveal_strlit("Failed to copy source: ");
    reveal_strlit("Compiler service unavailable: ");
    let empty = Seq::<char>::empty();
    match step {
        SubmitStep::Allocated(Err(e)) => {
            lemma_rejection(from, id, empty, "Failed to allocate version: "@, e@);
        },
        SubmitStep::Copied { info, outcome: Err(e) } => {
            lemma_rejection(from, id, info.version@, "Failed to copy source: "@, e@);
        },
        SubmitStep::Requested { version, outcome: Err(e) } => {
            lemma_rejection(from, empty, version@, "Compiler service unavailable: "@, e@);
        },
        _ => {},
    }
}

/// A compilation that succeeds goes to the judge, with the version's binary and
/// nothing changed; one that fails counts against the versions and is told to
/// the agent with the compiler's errors.
pub proof fn law_compilation_decides(
    before: KernelState,
    after: KernelState,
    id: Seq<char>,
    result: CompileResult,
    next: CompileNext,
)
    requires
        compile_leads_to(before, after, id, result, next),
    ensures
        next is Test <==> result.success,
        next is Failed <==> !result.success,
        result.success ==> {
            let l = next->request@;
            let binary = joined(
                joined(joined(before.base_dir, "peripheral"@), result.version@),
                "binary"@,
            );
            &&& after == before
            &&& next->binary == result.binary_path
            &&& next->target@ == binary
            &&& l.from == "boot"@ && l.to == "judge"@ && l.msg_type == "TestRequest"@
            &&& l.id == id
            &&& l.payload.get_text("version"@) == Some(result.version@)
            &&& l.payload.get_text("binary_path"@) == Some(binary)
        },
        !result.success ==> {
            let a = acts(next->Failed_0@);
            let l = a[0]->Send_0;
            &&& a.len() == 1 && a[0] is Send
            &&& l.to == "peripheral"@ && l.msg_type == "UpdateRejected"@ && l.id == id
            &&& l.payload.get_text("version"@) == Some(result.version@)
            &&& l.payload.get_text("errors"@) == opt_text(result.errors)
            &&& l.payload.get_text("reason"@) == Some("Compilation failed"@)
            &&& l.payload.get("allows_patch_retry"@) == Some(JsonTree::Bool(false))
            &&& after.versions.failures == before.versions.failures + 1
            &&& after.versions.locked <==> before.versions.locked || before.versions.failures + 1
                >= 3
            &&& after == (KernelState { versions: after.versions, ..before })
        },
{
    reveal_strlit("version");
    reveal_strlit("reason");
    reveal_strlit("errors");
    reveal_strlit("allows_patch_retry");
    reveal_strlit("attempt");
    reveal_strlit("binary_path");
    assert("version"@.len() == 7);
    assert("reason"@.len() == 6);
    assert("errors"@.len() == 6);
    assert("allows_patch_retry"@.len() == 18);
    assert("attempt"@.len() == 7);
    assert("binary_path"@.len() == 11);
    assert("version"@[0] == 'v');
    assert("reason"@[0] == 'r');
    assert("errors"@[0] == 'e');
    assert("attempt"@[0] == 'a');
}

/// A version that could be handed to the judge waits for the verdict; one that
/// could not is switched to. The compilation is recorded either way.
pub proof fn law_untested_only_without_a_judge(id: Seq<char>, version: Seq<char>, sent: bool, i: int)
    requires
        0 <= i < after_test_request(id, version, sent).len(),
    ensures
        after_test_request(id, version, sent)[i] is Finalize ==> !sent,
        !sent ==> after_test_request(id, version, sent)[0] == (Act::Finalize {
            version,
            envelope_id: id,
        }),
        after_test_request(id, version, sent).last() is Audit,
        after_test_request(id, version, sent).last()->Audit_version == Some(version),
        after_test_request(id, version, sent).len() == (if sent {
            1int
        } else {
            2int
        }),
{
}

/// The failed tests of results in two parts are those of the first part and
/// then those of the second; of a single result they are its name, or none.
pub proof fn law_failed_tests_are_named(
    a: Seq<InvariantResult>,
    b: Seq<InvariantResult>,
    r: InvariantResult,
)
    ensures
        failed_ids(a + b) == failed_ids(a) + failed_ids(b),
        r.passed ==> failed_ids(seq![r]) == Seq::<Seq<char>>::empty(),
        !r.passed ==> failed_ids(seq![r]) == seq![r.test_id@],
    decreases b.len(),
{
    assert(seq![r].drop_last() =~= Seq::empty());
    assert(failed_ids(seq![r].drop_last()) =~= Seq::empty());
    if !r.passed {
        assert(failed_ids(seq![r]) =~= seq![r.test_id@]);
    }
    if b.len() == 0 {
        assert(a + b =~= a);
        assert(failed_ids(a) + failed_ids(b) =~= failed_ids(a));
    } else {
        law_failed_tests_are_named(a, b.drop_last(), r);
        assert((a + b).drop_last() =~= a + b.drop_last());
        assert((a + b).last() == b.last());
        assert(failed_ids(a + b) =~= failed_ids(a) + failed_ids(b));
    }
}

/// A version that passes is switched to, under its name and for its request,
/// and changes nothing before that.
pub proof fn law_passing_versions_are_switched_to(
    s: KernelState,
    id: Seq<char>,
    r: TestResult,
    now: u64,
)
    requires
        r.verdict == TestVerdict::Pass,
    ensures
        after_test(s, id, r, now).0 == s,
        after_test(s, id, r, now).1.len() == 2,
        after_test(s, id, r, now).1[1] == (Act::Finalize { version: r.version@, envelope_id: id }),
        after_test(s, id, r, now).1[0] is Audit,
        after_test(s, id, r, now).1[0]->Audit_version == Some(r.version@),
{
}

/// A version that fails softly is put on probation for an hour from now: the
/// agent is told, its lease is tightened, and nothing else changes.
pub proof fn law_soft_failures_start_a_probation(
    s: KernelState,
    id: Seq<char>,
    r: TestResult,
    now: u64,
    peer: Seq<char>,
)
    requires
        r.verdict == TestVerdict::SoftFail,
        peer != "peripheral"@,
    ensures
        ({
            let (after, a) = after_test(s, id, r, now);
            let p = after.probation->Some_0;
            let l = a[0]->Send_0;
            &&& after.probation is Some
            &&& p.version == r.version@
            &&& p.binary_path == joined(
                joined(joined(s.base_dir, "peripheral"@), r.version@),
                "binary"@,
            )
            &&& p.started_at == now
            &&& p.duration == 3_600_000
            &&& p.envelope_id == id
            &&& after == (KernelState { probation: after.probation, leases: after.leases, ..s })
            &&& after.leases.config == s.leases.config
            &&& after.leases.leases.dom() == s.leases.leases.dom()
            &&& s.leases.leases.contains_key(peer) ==> after.leases.leases[peer]
                == s.leases.leases[peer]
            &&& s.leases.leases.contains_key("peripheral"@) ==> after.leases.leases["peripheral"@]
                == (LeaseEntry { probation: true, ..s.leases.leases["peripheral"@] })
            &&& a.len() == 2 && a[0] is Send && a[1] is Audit
            &&& a[1]->Audit_version == Some(r.version@)
            &&& l.to == "peripheral"@ && l.msg_type == "ProbationStarted"@ && l.id == id
            &&& l.payload.get_text("version"@) == Some(r.version@)
            &&& l.payload.get("duration_secs"@) == Some(JsonTree::Number(number_of(3600)))
        }),
{
    reveal_strlit("version");
    reveal_strlit("duration_secs");
    reveal_strlit("constraints");
    assert("version"@.len() == 7);
    assert("duration_secs"@.len() == 13);
    assert("constraints"@.len() == 11);
    assert(after_test(s, id, r, now).0.leases.leases.dom() =~= s.leases.leases.dom());
}

/// A version that fails hard counts against the versions and is rejected: the
/// agent is told which tests failed, the scores and the suggestion, and may try
/// again.
pub proof fn law_hard_failures_are_explained(
    s: KernelState,
    id: Seq<char>,
    r: TestResult,
    now: u64,
)
    requires
        r.verdict == TestVerdict::HardFail,
    ensures
        ({
            let (after, a) = after_test(s, id, r, now);
            let l = a[0]->Send_0;
            let failed = failed_ids(r.invariant_results@);
            &&& after.versions.failures == s.versions.failures + 1
            &&& after.versions.locked <==> s.versions.locked || s.versions.failures + 1 >= 3
            &&& after == (KernelState { versions: after.versions, ..s })
            &&& a.len() == 2 && a[0] is Send && a[1] is Audit
            &&& a[1]->Audit_version == Some(r.version@)
            &&& l.to == "peripheral"@ && l.msg_type == "UpdateRejected"@ && l.id == id
            &&& l.payload.get_text("version"@) == Some(r.version@)
            &&& failed.len() > 0 ==> l.payload.get("failed_tests"@) == Some(text_list(failed))
            &&& failed.len() == 0 ==> l.payload.get("failed_tests"@) is None
            &&& l.payload.get("scores"@) == Some(r.dimension_scores.tree())
            &&& l.payload.get_text("suggestion"@) == opt_text(r.suggestion)
            &&& l.payload.get("allows_patch_retry"@) == Some(JsonTree::Bool(true))
        }),
{
    reveal_strlit("version");
    reveal_strlit("reason");
    reveal_strlit("errors");
    reveal_strlit("allows_patch_retry");
    reveal_strlit("attempt");
    reveal_strlit("failed_tests");
    reveal_strlit("scores");
    reveal_strlit("suggestion");
    assert("version"@.len() == 7);
    assert("reason"@.len() == 6);
    assert("errors"@.len() == 6);
    assert("allows_patch_retry"@.len() == 18);
    assert("attempt"@.len() == 7);
    assert("failed_tests"@.len() == 12);
    assert("scores"@.len() == 6);
    assert("suggestion"@.len() == 10);
    assert("version"@[0] == 'v');
    assert("reason"@[0] == 'r');
    assert("errors"@[0] == 'e');
    assert("attempt"@[0] == 'a');
    assert("scores"@[0] == 's');
}

/// The steps of a switch in their order: without a version before, the version
/// is switched at once; otherwise the capabilities are compared, the state is
/// migrated, and then the version is switched. A comparison that cannot be made
/// and a migration that cannot begin do not hold the switch up. A migration
/// that cannot be committed and a switch that fails end in a rejection that
/// says why.
pub proof fn law_switch_goes_on_until_something_fails(
    base_dir: Seq<char>,
    version: Seq<char>,
    id: Seq<char>,
    old_version: Seq<char>,
    event: SwitchEvent,
)
    ensures
        ({
            let (need, a) = switch_step(base_dir, version, id, old_version, event);
            let rejects = |e: Seq<char>|
                need is Nothing && a.len() == 1 && a[0] is Send && rejects_with(
                    a[0]->Send_0,
                    "peripheral"@,
                    version,
                    e,
                ) && a[0]->Send_0.id == id;
            &&& event is Started ==> a.len() == 0 && (if old_version.len() == 0 {
                need is SwitchVersion
            } else {
                need is CompareCapabilities
            })
            &&& event matches SwitchEvent::Compared(Ok(v)) ==> v@.len() == 0 ==> need
                is BeginMigration && a.len() == 0
            &&& event matches SwitchEvent::Compared(Err(_)) ==> need is BeginMigration && a.len()
                == 0
            &&& event matches SwitchEvent::MigrationBegun(Ok(_)) ==> need is CommitMigration
                && a.len() == 0
            &&& event matches SwitchEvent::MigrationBegun(Err(_)) ==> need is SwitchVersion
                && a.len() == 0
            &&& event matches SwitchEvent::MigrationCommitted(Ok(_)) ==> need is SwitchVersion
                && a.len() == 0
            &&& event matches SwitchEvent::MigrationCommitted(Err(e)) ==> rejects(e@)
            &&& event matches SwitchEvent::Switched(Err(e)) ==> rejects(e@)
            &&& event matches SwitchEvent::BinaryFound(false) ==> need is Nothing && a.len() == 0
        }),
{
    reveal_strlit("State migration failed: ");
    reveal_strlit("Version switch failed: ");
    match event {
        SwitchEvent::MigrationCommitted(Err(e)) => {
            lemma_rejection("peripheral"@, id, version, "State migration failed: "@, e@);
        },
        SwitchEvent::Switched(Err(e)) => {
            lemma_rejection("peripheral"@, id, version, "Version switch failed: "@, e@);
        },
        _ => {},
    }
}

/// A version that has been switched to is accepted: the agent is told which one,
/// the audit log too, and its binary is looked for. Where the binary is there,
/// the running agent is asked to go and the kernel waits for that, knowing what
/// is to be started and what was there before.
pub proof fn law_switched_versions_are_accepted_and_swapped_in(
    s: KernelState,
    version: Seq<char>,
    id: Seq<char>,
    old_version: Seq<char>,
    to: String,
    now: u64,
    event: SwitchEvent,
)
    ensures
        ({
            let (need, a) = switch_step(
                s.base_dir,
                version,
                id,
                old_version,
                SwitchEvent::Switched(Ok(to)),
            );
            let l = a[0]->Send_0;
            &&& need is FindBinary
            &&& a.len() == 2 && a[0] is Send && a[1] is Audit
            &&& l.from == "boot"@ && l.to == "peripheral"@ && l.msg_type == "UpdateAccepted"@
            &&& l.id == id
            &&& l.payload.get_text("version"@) == Some(version)
            &&& a[1]->Audit_version == Some(version)
        }),
        ({
            let found = SwitchEvent::BinaryFound(true);
            let (need, a) = switch_step(s.base_dir, version, id, old_version, found);
            let l = a[0]->Send_0;
            let after = switch_state(s, version, old_version, found, now);
            &&& need is Nothing
            &&& a.len() == 1 && a[0] is Send
            &&& l.from == "boot"@ && l.to == "peripheral"@ && l.msg_type == "Shutdown"@
            &&& after.hot_swap == (HotSwapState::WaitingForOldDisconnect {
                new_version: version,
                new_binary: joined(
                    joined(joined(s.base_dir, "peripheral"@), version),
                    "binary"@,
                ),
                old_version,
                initiated_at: now,
            })
            &&& after == (KernelState { hot_swap: after.hot_swap, ..s })
        }),
        event != SwitchEvent::BinaryFound(true) ==> switch_state(
            s,
            version,
            old_version,
            event,
            now,
        ) == s,
{
}

/// Probation is set for the peripheral's lease and for no other.
pub proof fn law_probation_is_that_of_the_peripheral(
    s: LeaseState,
    probation: bool,
    other: Seq<char>,
)
    ensures
        s.leases.contains_key("peripheral"@) ==> probation_set(s, probation).leases.contains_key(
            "peripheral"@,
        ) && probation_set(s, probation).leases["peripheral"@].probation == probation
            && probation_set(s, probation).leases["peripheral"@].deadline
            == s.leases["peripheral"@].deadline,
        !s.leases.contains_key("peripheral"@) ==> probation_set(s, probation) == s,
        other != "peripheral"@ && s.leases.contains_key(other) ==> probation_set(
            s,
            probation,
        ).leases.contains_key(other) && probation_set(s, probation).leases[other]
            == s.leases[other],
        probation_set(s, probation).config == s.config,
{
}

/// Each version is built in a target directory of its own.
pub proof fn law_versions_are_built_in_their_own_directory(base: Seq<char>, version: Seq<char>)
    ensures
        target_of(base, version) == joined(
            joined(joined(base, "peripheral"@), version),
            "target"@,
        ),
{
}

/// What became of a test is logged under a name of its own, with the version and
/// its score, and for a failure with what failed.
pub proof fn law_tests_are_logged(s: KernelState, id: Seq<char>, r: TestResult, now: u64)
    ensures
        ({
            let a = after_test(s, id, r, now).1;
            let log = if r.verdict is Pass {
                a[0]
            } else {
                a[1]
            };
            let d = log->Audit_details;
            &&& log is Audit
            &&& log->Audit_version == Some(r.version@)
            &&& d.get("overall_score"@) == Some(r.overall_score.tree())
            &&& r.verdict is Pass ==> log->Audit_event == "test_passed"@ && d.get(
                "dimension_scores"@,
            ) == Some(r.dimension_scores.tree())
            &&& r.verdict is SoftFail ==> log->Audit_event == "probation_started"@ && d.get_text(
                "suggestion"@,
            ) == opt_text(r.suggestion)
            &&& r.verdict is HardFail ==> log->Audit_event == "update_rejected"@ && d.get(
                "failed_tests"@,
            ) == Some(text_list(failed_ids(r.invariant_results@)))
            &&& r.verdict is HardFail ==> a[0]->Send_0.payload.get_text("reason"@) == Some(
                "Test suite failed"@,
            )
            &&& r.verdict is SoftFail ==> a[0]->Send_0.payload.get("constraints"@) == Some(
                probation_constraints(),
            )
        }),
{
    reveal_strlit("overall_score");
    reveal_strlit("dimension_scores");
    reveal_strlit("suggestion");
    reveal_strlit("duration_secs");
    reveal_strlit("reason");
    reveal_strlit("failed_tests");
    assert("overall_score"@.len() == 13);
    assert("dimension_scores"@.len() == 16);
    assert("suggestion"@.len() == 10);
    assert("duration_secs"@.len() == 13);
    assert("reason"@.len() == 6);
    assert("failed_tests"@.len() == 12);
    assert("overall_score"@[0] == 'o');
    assert("duration_secs"@[0] == 'd');
    crate::messages::law_update_rejected_holds_its_parts(
        r.version@,
        "Test suite failed"@,
        None,
        failed_ids(r.invariant_results@),
        Some(r.dimension_scores.tree()),
        opt_text(r.suggestion),
        true,
        0,
    );
    crate::messages::law_probation_started_holds_its_parts(
        r.version@,
        3600,
        probation_constraints(),
    );
}

} // verus!
