//! The messages that the processes of the system exchange.
//!
//! The boot process understands the core types; everything else it routes as
//! it is.

use crate::json::{
    empty_object, number_of, text_list, text_or_null, Json, JsonTree,
};
use crate::msg_types;
use crate::split::texts;
use crate::text::str_eq;
use crate::version::opt_text;
use vstd::prelude::*;
use vstd::string::*;

verus! {

/// The envelope of every message.
#[derive(Debug)]
pub struct Envelope {
    /// Sender identity.
    pub from: String,
    /// Destination identity.
    pub to: String,
    /// The name of the message type.
    pub msg_type: String,
    /// Correlates requests and responses.
    pub id: String,
    pub payload: Json,
}

/// Handshake: a process introduces itself.
#[derive(Debug)]
pub struct Hello {
    pub protocol_version: String,
    pub capabilities: Json,
    /// The port that the peer serves HTTP on.
    pub http_port: Option<u16>,
}

/// Handshake response.
#[derive(Debug)]
pub struct Welcome {
    pub accepted_capabilities: Json,
    pub runlevel: u8,
}

/// The payload of a `Welcome` message.
pub open spec fn welcome_tree(
    accepted_capabilities: JsonTree,
    runlevel: u8,
) -> JsonTree {
    empty_object().set("accepted_capabilities"@, accepted_capabilities).set("runlevel"@, JsonTree::Number(number_of(runlevel as u64)))
}

impl Welcome {
    /// The payload that is sent.
    pub fn to_json(&self) -> (j: Json)
        requires
            self.accepted_capabilities.wf(),
        ensures
            j.wf(),
            j.tree() == welcome_tree(self.accepted_capabilities.tree(), self.runlevel),
    {
        let mut j = Json::object();
        j.set("accepted_capabilities", self.accepted_capabilities.copy());
        j.set("runlevel", Json::number(self.runlevel as u64));
        j
    }
}

/// A peer's report on itself. The CPU usage is carried as the bit pattern of
/// its floating-point percentage.
#[derive(Debug, Clone, Copy, PartialEq, Eq, Structural)]
pub struct HealthReport {
    /// The runlevel that the process believes to be in.
    pub runlevel: u8,
    pub memory_bytes: u64,
    pub cpu_bits: u64,
    /// Tasks processed since the last report.
    pub tasks_processed: u64,
}

/// Lease renewal.
#[derive(Debug, Clone)]
pub struct LeaseRenew {
    pub health: HealthReport,
}

/// Lease acknowledgement.
#[derive(Debug, Clone)]
pub struct LeaseAck {
    /// When the next renewal is due, in milliseconds since the UNIX epoch.
    pub next_deadline_ms: u64,
}

/// The payload of a `LeaseAck` message.
pub open spec fn lease_ack_tree(
    next_deadline_ms: u64,
) -> JsonTree {
    empty_object().set("next_deadline_ms"@, JsonTree::Number(number_of(next_deadline_ms)))
}

impl LeaseAck {
    /// The payload that is sent.
    pub fn to_json(&self) -> (j: Json)
        ensures
            j.wf(),
            j.tree() == lease_ack_tree(self.next_deadline_ms),
    {
        let mut j = Json::object();
        j.set("next_deadline_ms", Json::number(self.next_deadline_ms));
        j
    }
}

/// Runlevel change notification.
#[derive(Debug, Clone)]
pub struct RunlevelChange {
    pub from: u8,
    pub to: u8,
    pub reason: String,
}

/// The payload of a `RunlevelChange` message.
pub open spec fn runlevel_change_tree(
    from: u8,
    to: u8,
    reason: Seq<char>,
) -> JsonTree {
    empty_object().set("from"@, JsonTree::Number(number_of(from as u64))).set("to"@, JsonTree::Number(number_of(to as u64))).set("reason"@, JsonTree::Text(reason))
}

impl RunlevelChange {
    /// The payload that is sent.
    pub fn to_json(&self) -> (j: Json)
        ensures
            j.wf(),
            j.tree() == runlevel_change_tree(self.from, self.to, self.reason@),
    {
        let mut j = Json::object();
        j.set("from", Json::number(self.from as u64));
        j.set("to", Json::number(self.to as u64));
        j.set("reason", Json::text(self.reason.as_str()));
        j
    }
}

/// Graceful shutdown command.
#[derive(Debug, Clone)]
pub struct Shutdown {
    pub reason: String,
    /// Milliseconds before the process is killed.
    pub grace_ms: u64,
}

/// The payload of a `Shutdown` message.
pub open spec fn shutdown_tree(
    reason: Seq<char>,
    grace_ms: u64,
) -> JsonTree {
    empty_object().set("reason"@, JsonTree::Text(reason)).set("grace_ms"@, JsonTree::Number(number_of(grace_ms)))
}

impl Shutdown {
    /// The payload that is sent.
    pub fn to_json(&self) -> (j: Json)
        ensures
            j.wf(),
            j.tree() == shutdown_tree(self.reason@, self.grace_ms),
    {
        let mut j = Json::object();
        j.set("reason", Json::text(self.reason.as_str()));
        j.set("grace_ms", Json::number(self.grace_ms));
        j
    }
}

/// Source code for a new version is submitted.
#[derive(Debug, Clone)]
pub struct SubmitUpdate {
    pub source_path: String,
}

/// Request to compile a new version.
#[derive(Debug, Clone)]
pub struct CompileRequest {
    pub version: String,
    pub source_path: String,
    pub output_path: String,
    /// Which attempt this is for the version, counted from 1.
    pub attempt: u32,
}

/// The payload of a `CompileRequest` message.
pub open spec fn compile_request_tree(
    version: Seq<char>,
    source_path: Seq<char>,
    output_path: Seq<char>,
    attempt: u32,
) -> JsonTree {
    empty_object().set("version"@, JsonTree::Text(version)).set("source_path"@, JsonTree::Text(source_path)).set("output_path"@, JsonTree::Text(output_path)).set("attempt"@, JsonTree::Number(number_of(attempt as u64)))
}

impl CompileRequest {
    /// The payload that is sent.
    pub fn to_json(&self) -> (j: Json)
        ensures
            j.wf(),
            j.tree() == compile_request_tree(self.version@, self.source_path@, self.output_path@, self.attempt),
    {
        let mut j = Json::object();
        j.set("version", Json::text(self.version.as_str()));
        j.set("source_path", Json::text(self.source_path.as_str()));
        j.set("output_path", Json::text(self.output_path.as_str()));
        j.set("attempt", Json::number(self.attempt as u64));
        j
    }
}

/// The result of a compilation.
#[derive(Debug, Clone)]
pub struct CompileResult {
    pub version: String,
    pub success: bool,
    pub binary_path: Option<String>,
    pub errors: Option<String>,
}

/// The payload of a `CompileResult` message.
pub open spec fn compile_result_tree(
    version: Seq<char>,
    success: bool,
    binary_path: Option<Seq<char>>,
    errors: Option<Seq<char>>,
) -> JsonTree {
    empty_object().set("version"@, JsonTree::Text(version)).set("success"@, JsonTree::Bool(success)).set("binary_path"@, text_or_null(binary_path)).set("errors"@, text_or_null(errors))
}

impl CompileResult {
    /// The payload that is sent.
    pub fn to_json(&self) -> (j: Json)
        ensures
            j.wf(),
            j.tree() == compile_result_tree(self.version@, self.success, opt_text(self.binary_path), opt_text(self.errors)),
    {
        let mut j = Json::object();
        j.set("version", Json::text(self.version.as_str()));
        j.set("success", Json::Bool(self.success));
        j.set("binary_path", Json::optional(&self.binary_path));
        j.set("errors", Json::optional(&self.errors));
        j
    }
}

/// An update was rejected, with feedback.
#[derive(Debug)]
pub struct UpdateRejected {
    pub version: String,
    pub reason: String,
    pub errors: Option<String>,
    pub failed_tests: Vec<String>,
    pub scores: Option<Json>,
    pub suggestion: Option<String>,
    pub allows_patch_retry: bool,
    /// Which attempt failed, counted from 1.
    pub attempt: u32,
}

/// The payload of a `UpdateRejected` message.
pub open spec fn update_rejected_tree(
    version: Seq<char>,
    reason: Seq<char>,
    errors: Option<Seq<char>>,
    failed_tests: Seq<Seq<char>>,
    scores: Option<JsonTree>,
    suggestion: Option<Seq<char>>,
    allows_patch_retry: bool,
    attempt: u32,
) -> JsonTree {
    let t = empty_object().set("version"@, JsonTree::Text(version)).set("reason"@, JsonTree::Text(reason)).set("errors"@, text_or_null(errors)).set("allows_patch_retry"@, JsonTree::Bool(allows_patch_retry)).set("attempt"@, JsonTree::Number(number_of(attempt as u64)));
    let t = if failed_tests.len() > 0 {
        t.set("failed_tests"@, text_list(failed_tests))
    } else {
        t
    };
    let t = match scores {
        Some(v) => t.set("scores"@, v),
        None => t,
    };
    match suggestion {
        Some(v) => t.set("suggestion"@, JsonTree::Text(v)),
        None => t,
    }
}

impl UpdateRejected {
    /// The payload that is sent.
    pub fn to_json(&self) -> (j: Json)
        requires
            self.scores is Some ==> self.scores->Some_0.wf(),
        ensures
            j.wf(),
            j.tree() == update_rejected_tree(self.version@, self.reason@, opt_text(self.errors), texts(self.failed_tests@), (match self.scores {
                    Some(v) => Some(v.tree()),
                    None => None,
                }), opt_text(self.suggestion), self.allows_patch_retry, self.attempt),
    {
        let mut j = Json::object();
        j.set("version", Json::text(self.version.as_str()));
        j.set("reason", Json::text(self.reason.as_str()));
        j.set("errors", Json::optional(&self.errors));
        j.set("allows_patch_retry", Json::Bool(self.allows_patch_retry));
        j.set("attempt", Json::number(self.attempt as u64));
        assert(texts(self.failed_tests@).len() == self.failed_tests@.len());
        if self.failed_tests.len() > 0 {
            j.set("failed_tests", Json::strings(&self.failed_tests));
        }
        match &self.scores {
            Some(v) => j.set("scores", v.copy()),
            None => {},
        }
        match &self.suggestion {
            Some(v) => j.set("suggestion", Json::text(v.as_str())),
            None => {},
        }
        j
    }
}

/// An update was accepted.
#[derive(Debug, Clone)]
pub struct UpdateAccepted {
    pub version: String,
}

/// The payload of a `UpdateAccepted` message.
pub open spec fn update_accepted_tree(
    version: Seq<char>,
) -> JsonTree {
    empty_object().set("version"@, JsonTree::Text(version))
}

impl UpdateAccepted {
    /// The payload that is sent.
    pub fn to_json(&self) -> (j: Json)
        ensures
            j.wf(),
            j.tree() == update_accepted_tree(self.version@),
    {
        let mut j = Json::object();
        j.set("version", Json::text(self.version.as_str()));
        j
    }
}

/// What failed before a start that recovers by rollback.
#[derive(Debug, Clone)]
pub struct RollbackContext {
    /// The version that failed.
    pub from_version: String,
    /// The version that was restored.
    pub to_version: String,
    pub reason: String,
    pub errors: Option<String>,
    pub failed_tests: Vec<String>,
    pub user_feedback: Option<String>,
}

/// The payload of a `RollbackContext` message.
pub open spec fn rollback_context_tree(
    from_version: Seq<char>,
    to_version: Seq<char>,
    reason: Seq<char>,
    errors: Option<Seq<char>>,
    failed_tests: Seq<Seq<char>>,
    user_feedback: Option<Seq<char>>,
) -> JsonTree {
    let t = empty_object().set("from_version"@, JsonTree::Text(from_version)).set("to_version"@, JsonTree::Text(to_version)).set("reason"@, JsonTree::Text(reason));
    let t = match errors {
        Some(v) => t.set("errors"@, JsonTree::Text(v)),
        None => t,
    };
    let t = if failed_tests.len() > 0 {
        t.set("failed_tests"@, text_list(failed_tests))
    } else {
        t
    };
    match user_feedback {
        Some(v) => t.set("user_feedback"@, JsonTree::Text(v)),
        None => t,
    }
}

impl RollbackContext {
    /// The payload that is sent.
    pub fn to_json(&self) -> (j: Json)
        ensures
            j.wf(),
            j.tree() == rollback_context_tree(self.from_version@, self.to_version@, self.reason@, opt_text(self.errors), texts(self.failed_tests@), opt_text(self.user_feedback)),
    {
        let mut j = Json::object();
        j.set("from_version", Json::text(self.from_version.as_str()));
        j.set("to_version", Json::text(self.to_version.as_str()));
        j.set("reason", Json::text(self.reason.as_str()));
        match &self.errors {
            Some(v) => j.set("errors", Json::text(v.as_str())),
            None => {},
        }
        assert(texts(self.failed_tests@).len() == self.failed_tests@.len());
        if self.failed_tests.len() > 0 {
            j.set("failed_tests", Json::strings(&self.failed_tests));
        }
        match &self.user_feedback {
            Some(v) => j.set("user_feedback", Json::text(v.as_str())),
            None => {},
        }
        j
    }
}

/// Request to test a version.
#[derive(Debug, Clone)]
pub struct TestRequest {
    pub version: String,
    pub binary_path: String,
}

/// The payload of a `TestRequest` message.
pub open spec fn test_request_tree(
    version: Seq<char>,
    binary_path: Seq<char>,
) -> JsonTree {
    empty_object().set("version"@, JsonTree::Text(version)).set("binary_path"@, JsonTree::Text(binary_path))
}

impl TestRequest {
    /// The payload that is sent.
    pub fn to_json(&self) -> (j: Json)
        ensures
            j.wf(),
            j.tree() == test_request_tree(self.version@, self.binary_path@),
    {
        let mut j = Json::object();
        j.set("version", Json::text(self.version.as_str()));
        j.set("binary_path", Json::text(self.binary_path.as_str()));
        j
    }
}

/// The result of one invariant test.
#[derive(Debug, Clone)]
pub struct InvariantResult {
    pub test_id: String,
    pub passed: bool,
    pub detail: Option<String>,
}

/// The payload of a `InvariantResult` message.
pub open spec fn invariant_result_tree(
    test_id: Seq<char>,
    passed: bool,
    detail: Option<Seq<char>>,
) -> JsonTree {
    empty_object().set("test_id"@, JsonTree::Text(test_id)).set("passed"@, JsonTree::Bool(passed)).set("detail"@, text_or_null(detail))
}

impl InvariantResult {
    /// The payload that is sent.
    pub fn to_json(&self) -> (j: Json)
        ensures
            j.wf(),
            j.tree() == invariant_result_tree(self.test_id@, self.passed, opt_text(self.detail)),
    {
        let mut j = Json::object();
        j.set("test_id", Json::text(self.test_id.as_str()));
        j.set("passed", Json::Bool(self.passed));
        j.set("detail", Json::optional(&self.detail));
        j
    }
}

/// What the judge thinks of a version.
#[derive(Debug, Clone, Copy, PartialEq, Eq, Structural)]
pub enum TestVerdict {
    Pass,
    SoftFail,
    HardFail,
}

/// The judge's result. The scores are floating-point numbers, which are only
/// passed on.
#[derive(Debug)]
pub struct TestResult {
    pub version: String,
    pub verdict: TestVerdict,
    pub invariant_results: Vec<InvariantResult>,
    pub dimension_scores: Json,
    pub overall_score: Json,
    pub suggestion: Option<String>,
}

/// A version runs on probation.
#[derive(Debug)]
pub struct ProbationStarted {
    pub version: String,
    pub duration_secs: u64,
    pub constraints: Json,
}

/// The payload of a `ProbationStarted` message.
pub open spec fn probation_started_tree(
    version: Seq<char>,
    duration_secs: u64,
    constraints: JsonTree,
) -> JsonTree {
    empty_object().set("version"@, JsonTree::Text(version)).set("duration_secs"@, JsonTree::Number(number_of(duration_secs))).set("constraints"@, constraints)
}

impl ProbationStarted {
    /// The payload that is sent.
    pub fn to_json(&self) -> (j: Json)
        requires
            self.constraints.wf(),
        ensures
            j.wf(),
            j.tree() == probation_started_tree(self.version@, self.duration_secs, self.constraints.tree()),
    {
        let mut j = Json::object();
        j.set("version", Json::text(self.version.as_str()));
        j.set("duration_secs", Json::number(self.duration_secs));
        j.set("constraints", self.constraints.copy());
        j
    }
}

/// A probation is over.
#[derive(Debug, Clone)]
pub struct ProbationEnded {
    pub version: String,
    pub passed: bool,
    pub reason: String,
}

/// The payload of a `ProbationEnded` message.
pub open spec fn probation_ended_tree(
    version: Seq<char>,
    passed: bool,
    reason: Seq<char>,
) -> JsonTree {
    empty_object().set("version"@, JsonTree::Text(version)).set("passed"@, JsonTree::Bool(passed)).set("reason"@, JsonTree::Text(reason))
}

impl ProbationEnded {
    /// The payload that is sent.
    pub fn to_json(&self) -> (j: Json)
        ensures
            j.wf(),
            j.tree() == probation_ended_tree(self.version@, self.passed, self.reason@),
    {
        let mut j = Json::object();
        j.set("version", Json::text(self.version.as_str()));
        j.set("passed", Json::Bool(self.passed));
        j.set("reason", Json::text(self.reason.as_str()));
        j
    }
}

/// An event for the audit log.
#[derive(Debug)]
pub struct AuditLog {
    pub timestamp: String,
    pub event: String,
    pub version: Option<String>,
    pub details: Json,
}

/// The payload of a `AuditLog` message.
pub open spec fn audit_log_tree(
    timestamp: Seq<char>,
    event: Seq<char>,
    version: Option<Seq<char>>,
    details: JsonTree,
) -> JsonTree {
    empty_object().set("timestamp"@, JsonTree::Text(timestamp)).set("event"@, JsonTree::Text(event)).set("version"@, text_or_null(version)).set("details"@, details)
}

impl AuditLog {
    /// The payload that is sent.
    pub fn to_json(&self) -> (j: Json)
        requires
            self.details.wf(),
        ensures
            j.wf(),
            j.tree() == audit_log_tree(self.timestamp@, self.event@, opt_text(self.version), self.details.tree()),
    {
        let mut j = Json::object();
        j.set("timestamp", Json::text(self.timestamp.as_str()));
        j.set("event", Json::text(self.event.as_str()));
        j.set("version", Json::optional(&self.version));
        j.set("details", self.details.copy());
        j
    }
}

/// A resource limit was broken.
#[derive(Debug, Clone)]
pub struct ResourceViolationAlert {
    pub peer: String,
    pub resource: String,
    pub current_value: String,
    pub limit_value: String,
    /// "soft" or "hard".
    pub severity: String,
}

/// The payload of a `ResourceViolationAlert` message.
pub open spec fn resource_violation_alert_tree(
    peer: Seq<char>,
    resource: Seq<char>,
    current_value: Seq<char>,
    limit_value: Seq<char>,
    severity: Seq<char>,
) -> JsonTree {
    empty_object().set("peer"@, JsonTree::Text(peer)).set("resource"@, JsonTree::Text(resource)).set("current_value"@, JsonTree::Text(current_value)).set("limit_value"@, JsonTree::Text(limit_value)).set("severity"@, JsonTree::Text(severity))
}

impl ResourceViolationAlert {
    /// The payload that is sent.
    pub fn to_json(&self) -> (j: Json)
        ensures
            j.wf(),
            j.tree() == resource_violation_alert_tree(self.peer@, self.resource@, self.current_value@, self.limit_value@, self.severity@),
    {
        let mut j = Json::object();
        j.set("peer", Json::text(self.peer.as_str()));
        j.set("resource", Json::text(self.resource.as_str()));
        j.set("current_value", Json::text(self.current_value.as_str()));
        j.set("limit_value", Json::text(self.limit_value.as_str()));
        j.set("severity", Json::text(self.severity.as_str()));
        j
    }
}

/// Request for another runlevel.
#[derive(Debug, Clone)]
pub struct RunlevelRequest {
    pub to: u8,
    pub reason: String,
}

/// What became of a runlevel request.
#[derive(Debug, Clone)]
pub struct RunlevelRequestResult {
    pub accepted: bool,
    pub from: u8,
    pub to: u8,
    pub reason: String,
}

/// The payload of a `RunlevelRequestResult` message.
pub open spec fn runlevel_request_result_tree(
    accepted: bool,
    from: u8,
    to: u8,
    reason: Seq<char>,
) -> JsonTree {
    empty_object().set("accepted"@, JsonTree::Bool(accepted)).set("from"@, JsonTree::Number(number_of(from as u64))).set("to"@, JsonTree::Number(number_of(to as u64))).set("reason"@, JsonTree::Text(reason))
}

impl RunlevelRequestResult {
    /// The payload that is sent.
    pub fn to_json(&self) -> (j: Json)
        ensures
            j.wf(),
            j.tree() == runlevel_request_result_tree(self.accepted, self.from, self.to, self.reason@),
    {
        let mut j = Json::object();
        j.set("accepted", Json::Bool(self.accepted));
        j.set("from", Json::number(self.from as u64));
        j.set("to", Json::number(self.to as u64));
        j.set("reason", Json::text(self.reason.as_str()));
        j
    }
}

/// A version asks for more than the one before it.
#[derive(Debug, Clone)]
pub struct CapabilityEscalation {
    pub version: String,
    pub violations: Vec<String>,
}

/// The payload of a `CapabilityEscalation` message.
pub open spec fn capability_escalation_tree(
    version: Seq<char>,
    violations: Seq<Seq<char>>,
) -> JsonTree {
    empty_object().set("version"@, JsonTree::Text(version)).set("violations"@, text_list(violations))
}

impl CapabilityEscalation {
    /// The payload that is sent.
    pub fn to_json(&self) -> (j: Json)
        ensures
            j.wf(),
            j.tree() == capability_escalation_tree(self.version@, texts(self.violations@)),
    {
        let mut j = Json::object();
        j.set("version", Json::text(self.version.as_str()));
        j.set("violations", Json::strings(&self.violations));
        j
    }
}

/// Request for the state under a key.
#[derive(Debug, Clone)]
pub struct GetState {
    pub key: String,
}

/// The state under a key.
#[derive(Debug)]
pub struct GetStateResponse {
    pub key: String,
    pub value: Json,
    pub schema_version: u64,
}

/// The payload of a `GetStateResponse` message.
pub open spec fn get_state_response_tree(
    key: Seq<char>,
    value: JsonTree,
    schema_version: u64,
) -> JsonTree {
    empty_object().set("key"@, JsonTree::Text(key)).set("value"@, value).set("schema_version"@, JsonTree::Number(number_of(schema_version)))
}

impl GetStateResponse {
    /// The payload that is sent.
    pub fn to_json(&self) -> (j: Json)
        requires
            self.value.wf(),
        ensures
            j.wf(),
            j.tree() == get_state_response_tree(self.key@, self.value.tree(), self.schema_version),
    {
        let mut j = Json::object();
        j.set("key", Json::text(self.key.as_str()));
        j.set("value", self.value.copy());
        j.set("schema_version", Json::number(self.schema_version));
        j
    }
}

/// Request to store a state under a key.
#[derive(Debug)]
pub struct SetState {
    pub key: String,
    pub value: Json,
    pub schema_version: u64,
}

/// Whether a state was stored.
#[derive(Debug, Clone)]
pub struct SetStateAck {
    pub key: String,
    pub success: bool,
    pub error: Option<String>,
}

/// The payload of a `SetStateAck` message.
pub open spec fn set_state_ack_tree(
    key: Seq<char>,
    success: bool,
    error: Option<Seq<char>>,
) -> JsonTree {
    empty_object().set("key"@, JsonTree::Text(key)).set("success"@, JsonTree::Bool(success)).set("error"@, text_or_null(error))
}

impl SetStateAck {
    /// The payload that is sent.
    pub fn to_json(&self) -> (j: Json)
        ensures
            j.wf(),
            j.tree() == set_state_ack_tree(self.key@, self.success, opt_text(self.error)),
    {
        let mut j = Json::object();
        j.set("key", Json::text(self.key.as_str()));
        j.set("success", Json::Bool(self.success));
        j.set("error", Json::optional(&self.error));
        j
    }
}

/// Proposal to amend the constitution.
#[derive(Debug)]
pub struct ConstitutionAmendmentProposal {
    pub amendment_type: String,
    pub target_file: String,
    pub description: String,
    pub changes: Json,
    pub signature: String,
}

/// What became of an amendment.
#[derive(Debug, Clone)]
pub struct ConstitutionAmendmentResult {
    pub accepted: bool,
    pub amendment_id: String,
    pub reason: String,
}

/// The payload of a `ConstitutionAmendmentResult` message.
pub open spec fn constitution_amendment_result_tree(
    accepted: bool,
    amendment_id: Seq<char>,
    reason: Seq<char>,
) -> JsonTree {
    empty_object().set("accepted"@, JsonTree::Bool(accepted)).set("amendment_id"@, JsonTree::Text(amendment_id)).set("reason"@, JsonTree::Text(reason))
}

impl ConstitutionAmendmentResult {
    /// The payload that is sent.
    pub fn to_json(&self) -> (j: Json)
        ensures
            j.wf(),
            j.tree() == constitution_amendment_result_tree(self.accepted, self.amendment_id@, self.reason@),
    {
        let mut j = Json::object();
        j.set("accepted", Json::Bool(self.accepted));
        j.set("amendment_id", Json::text(self.amendment_id.as_str()));
        j.set("reason", Json::text(self.reason.as_str()));
        j
    }
}

/// Proposal to extend the protocol.
#[derive(Debug)]
pub struct ProtocolExtensionProposal {
    pub new_messages: Json,
    pub breaking: bool,
    pub description: String,
    pub signature: Option<String>,
}

/// What became of a protocol extension.
#[derive(Debug, Clone)]
pub struct ProtocolExtensionResult {
    pub accepted: bool,
    pub new_protocol_version: Option<String>,
    pub reason: String,
}

/// The payload of a `ProtocolExtensionResult` message.
pub open spec fn protocol_extension_result_tree(
    accepted: bool,
    new_protocol_version: Option<Seq<char>>,
    reason: Seq<char>,
) -> JsonTree {
    empty_object().set("accepted"@, JsonTree::Bool(accepted)).set("new_protocol_version"@, text_or_null(new_protocol_version)).set("reason"@, JsonTree::Text(reason))
}

impl ProtocolExtensionResult {
    /// The payload that is sent.
    pub fn to_json(&self) -> (j: Json)
        ensures
            j.wf(),
            j.tree() == protocol_extension_result_tree(self.accepted, opt_text(self.new_protocol_version), self.reason@),
    {
        let mut j = Json::object();
        j.set("accepted", Json::Bool(self.accepted));
        j.set("new_protocol_version", Json::optional(&self.new_protocol_version));
        j.set("reason", Json::text(self.reason.as_str()));
        j
    }
}

/// Request for the system status.
#[derive(Debug, Clone)]
pub struct AdminStatusRequest {
}

/// The system status.
#[derive(Debug, Clone)]
pub struct AdminStatusResponse {
    pub runlevel: u8,
    pub current_version: Option<String>,
    pub rollback_version: Option<String>,
    pub connected_peers: Vec<String>,
    pub version_locked: bool,
    pub probation_active: bool,
    /// The port of the running peripheral, if it is connected.
    pub peripheral_http_port: Option<u16>,
}

/// Request for the versions.
#[derive(Debug, Clone)]
pub struct AdminListVersionsRequest {
}

/// One of the versions.
#[derive(Debug, Clone)]
pub struct VersionEntry {
    pub version: String,
    pub is_current: bool,
    pub is_rollback: bool,
}

/// The versions.
#[derive(Debug, Clone)]
pub struct AdminListVersionsResponse {
    pub versions: Vec<VersionEntry>,
}

/// Request for the details of a version.
#[derive(Debug, Clone)]
pub struct AdminVersionDetailRequest {
    pub version: String,
}

/// The details of a version.
#[derive(Debug)]
pub struct AdminVersionDetailResponse {
    pub version: String,
    pub manifest: Option<Json>,
    pub is_current: bool,
    pub is_rollback: bool,
    pub has_binary: bool,
    pub has_source: bool,
}

/// Request to remove old versions.
#[derive(Debug, Clone)]
pub struct AdminCleanupVersionsRequest {
    pub keep: usize,
}

/// The versions that were removed.
#[derive(Debug, Clone)]
pub struct AdminCleanupVersionsResponse {
    pub removed: Vec<String>,
    pub error: Option<String>,
}

/// Request to roll back.
#[derive(Debug, Clone)]
pub struct AdminForceRollbackRequest {
    pub reason: String,
    pub to_version: Option<String>,
}

/// What became of a rollback.
#[derive(Debug, Clone)]
pub struct AdminForceRollbackResponse {
    pub success: bool,
    pub rolled_back_to: Option<String>,
    pub error: Option<String>,
}

/// Request for the leases.
#[derive(Debug, Clone)]
pub struct AdminLeaseStatusRequest {
}

/// One peer's lease.
#[derive(Debug, Clone)]
pub struct PeerLeaseInfo {
    pub identity: String,
    pub status: String,
    pub probation: bool,
    pub last_health: Option<HealthReport>,
}

/// The leases.
#[derive(Debug, Clone)]
pub struct AdminLeaseStatusResponse {
    pub leases: Vec<PeerLeaseInfo>,
}

/// Request to unlock the version manager.
#[derive(Debug, Clone)]
pub struct AdminUnlockVersionRequest {
}

/// What became of an unlock request.
#[derive(Debug, Clone)]
pub struct AdminUnlockVersionResponse {
    pub success: bool,
    pub was_locked: bool,
}

/// Query of the audit log.
#[derive(Debug, Clone)]
pub struct AdminAuditQueryRequest {
    pub event_filter: Option<String>,
    pub limit: Option<usize>,
}

/// Entries of the audit log.
#[derive(Debug)]
pub struct AdminAuditQueryResponse {
    pub entries: Vec<AuditLog>,
    pub error: Option<String>,
}

/// Request to shut the system down.
#[derive(Debug, Clone)]
pub struct AdminShutdownRequest {
    pub reason: String,
}

/// What became of a shutdown request.
#[derive(Debug, Clone)]
pub struct AdminShutdownResponse {
    pub success: bool,
    pub error: Option<String>,
}

/// Subscription to events.
#[derive(Debug, Clone)]
pub struct EventSubscribe {
    /// The categories; none for all.
    pub event_filter: Vec<String>,
}

/// Acknowledgement of a subscription.
#[derive(Debug, Clone)]
pub struct EventSubscribeAck {
    pub accepted: bool,
    pub subscribed_categories: Vec<String>,
}

/// Progress of a compilation.
#[derive(Debug, Clone)]
pub struct CompileProgress {
    pub version: String,
    pub stage: String,
    pub percent: u8,
    /// The latest output of the compiler.
    pub log_line: Option<String>,
    pub finished: bool,
    pub attempt: u32,
}

/// The payload of a `CompileProgress` message.
pub open spec fn compile_progress_tree(
    version: Seq<char>,
    stage: Seq<char>,
    percent: u8,
    log_line: Option<Seq<char>>,
    finished: bool,
    attempt: u32,
) -> JsonTree {
    empty_object().set("version"@, JsonTree::Text(version)).set("stage"@, JsonTree::Text(stage)).set("percent"@, JsonTree::Number(number_of(percent as u64))).set("log_line"@, text_or_null(log_line)).set("finished"@, JsonTree::Bool(finished)).set("attempt"@, JsonTree::Number(number_of(attempt as u64)))
}

impl CompileProgress {
    /// The payload that is sent.
    pub fn to_json(&self) -> (j: Json)
        ensures
            j.wf(),
            j.tree() == compile_progress_tree(self.version@, self.stage@, self.percent, opt_text(self.log_line), self.finished, self.attempt),
    {
        let mut j = Json::object();
        j.set("version", Json::text(self.version.as_str()));
        j.set("stage", Json::text(self.stage.as_str()));
        j.set("percent", Json::number(self.percent as u64));
        j.set("log_line", Json::optional(&self.log_line));
        j.set("finished", Json::Bool(self.finished));
        j.set("attempt", Json::number(self.attempt as u64));
        j
    }
}

/// Progress of a test run.
#[derive(Debug, Clone)]
pub struct TestProgress {
    pub version: String,
    pub stage: String,
    pub completed: u32,
    /// 0 where it is not known.
    pub total: u32,
    pub last_test_id: Option<String>,
    pub last_test_passed: Option<bool>,
    pub finished: bool,
}

impl Default for UpdateRejected {
    fn default() -> (u: UpdateRejected)
        ensures
            u.version@ == Seq::<char>::empty(),
            u.reason@ == Seq::<char>::empty(),
            u.errors is None,
            u.failed_tests@ == Seq::<String>::empty(),
            u.scores is None,
            u.suggestion is None,
            !u.allows_patch_retry,
            u.attempt == 0,
    {
        UpdateRejected {
            version: String::new(),
            reason: String::new(),
            errors: None,
            failed_tests: Vec::new(),
            scores: None,
            suggestion: None,
            allows_patch_retry: false,
            attempt: 0,
        }
    }
}

/// The attempt that a request without one stands for.
pub fn default_attempt() -> (n: u32)
    ensures
        n == 1,
{
    1
}

/// The core message types.
pub open spec fn core_type(t: Seq<char>) -> bool {
    ||| t == "Hello"@
    ||| t == "Welcome"@
    ||| t == "LeaseRenew"@
    ||| t == "LeaseAck"@
    ||| t == "RunlevelChange"@
    ||| t == "Shutdown"@
    ||| t == "SubmitUpdate"@
    ||| t == "CompileRequest"@
    ||| t == "CompileResult"@
    ||| t == "UpdateRejected"@
    ||| t == "UpdateAccepted"@
    ||| t == "GetState"@
    ||| t == "GetStateResponse"@
    ||| t == "SetState"@
    ||| t == "SetStateAck"@
    ||| t == "TestRequest"@
    ||| t == "TestResult"@
    ||| t == "ProbationStarted"@
    ||| t == "ProbationEnded"@
    ||| t == "AuditLog"@
    ||| t == "ResourceViolation"@
    ||| t == "RunlevelRequest"@
    ||| t == "RunlevelRequestResult"@
    ||| t == "CapabilityEscalation"@
    ||| t == "ConstitutionAmendmentProposal"@
    ||| t == "ConstitutionAmendmentResult"@
    ||| t == "ProtocolExtensionProposal"@
    ||| t == "ProtocolExtensionResult"@
    ||| t == "AdminStatusRequest"@
    ||| t == "AdminStatusResponse"@
    ||| t == "AdminListVersionsRequest"@
    ||| t == "AdminListVersionsResponse"@
    ||| t == "AdminVersionDetailRequest"@
    ||| t == "AdminVersionDetailResponse"@
    ||| t == "AdminCleanupVersionsRequest"@
    ||| t == "AdminCleanupVersionsResponse"@
    ||| t == "AdminForceRollbackRequest"@
    ||| t == "AdminForceRollbackResponse"@
    ||| t == "AdminLeaseStatusRequest"@
    ||| t == "AdminLeaseStatusResponse"@
    ||| t == "AdminUnlockVersionRequest"@
    ||| t == "AdminUnlockVersionResponse"@
    ||| t == "AdminAuditQueryRequest"@
    ||| t == "AdminAuditQueryResponse"@
    ||| t == "AdminShutdownRequest"@
    ||| t == "AdminShutdownResponse"@
    ||| t == "EventSubscribe"@
    ||| t == "EventSubscribeAck"@
    ||| t == "CompileProgress"@
    ||| t == "TestProgress"@
    ||| t == "RollbackContext"@
}

/// Whether a message type is one that the boot process handles itself.
pub fn is_core_message(msg_type: &str) -> (b: bool)
    ensures
        b == core_type(msg_type@),
{
    str_eq(msg_type, msg_types::HELLO) || str_eq(msg_type, msg_types::WELCOME) || str_eq(msg_type, msg_types::LEASE_RENEW) || str_eq(msg_type, msg_types::LEASE_ACK) || str_eq(msg_type, msg_types::RUNLEVEL_CHANGE) || str_eq(msg_type, msg_types::SHUTDOWN) || str_eq(msg_type, msg_types::SUBMIT_UPDATE) || str_eq(msg_type, msg_types::COMPILE_REQUEST) || str_eq(msg_type, msg_types::COMPILE_RESULT) || str_eq(msg_type, msg_types::UPDATE_REJECTED) || str_eq(msg_type, msg_types::UPDATE_ACCEPTED) || str_eq(msg_type, msg_types::GET_STATE) || str_eq(msg_type, msg_types::GET_STATE_RESPONSE) || str_eq(msg_type, msg_types::SET_STATE) || str_eq(msg_type, msg_types::SET_STATE_ACK) || str_eq(msg_type, msg_types::TEST_REQUEST) || str_eq(msg_type, msg_types::TEST_RESULT) || str_eq(msg_type, msg_types::PROBATION_STARTED) || str_eq(msg_type, msg_types::PROBATION_ENDED) || str_eq(msg_type, msg_types::AUDIT_LOG) || str_eq(msg_type, msg_types::RESOURCE_VIOLATION) || str_eq(msg_type, msg_types::RUNLEVEL_REQUEST) || str_eq(msg_type, msg_types::RUNLEVEL_REQUEST_RESULT) || str_eq(msg_type, msg_types::CAPABILITY_ESCALATION) || str_eq(msg_type, msg_types::CONSTITUTION_AMENDMENT_PROPOSAL) || str_eq(msg_type, msg_types::CONSTITUTION_AMENDMENT_RESULT) || str_eq(msg_type, msg_types::PROTOCOL_EXTENSION_PROPOSAL) || str_eq(msg_type, msg_types::PROTOCOL_EXTENSION_RESULT) || str_eq(msg_type, msg_types::ADMIN_STATUS_REQUEST) || str_eq(msg_type, msg_types::ADMIN_STATUS_RESPONSE) || str_eq(msg_type, msg_types::ADMIN_LIST_VERSIONS_REQUEST) || str_eq(msg_type, msg_types::ADMIN_LIST_VERSIONS_RESPONSE) || str_eq(msg_type, msg_types::ADMIN_VERSION_DETAIL_REQUEST) || str_eq(msg_type, msg_types::ADMIN_VERSION_DETAIL_RESPONSE) || str_eq(msg_type, msg_types::ADMIN_CLEANUP_VERSIONS_REQUEST) || str_eq(msg_type, msg_types::ADMIN_CLEANUP_VERSIONS_RESPONSE) || str_eq(msg_type, msg_types::ADMIN_FORCE_ROLLBACK_REQUEST) || str_eq(msg_type, msg_types::ADMIN_FORCE_ROLLBACK_RESPONSE) || str_eq(msg_type, msg_types::ADMIN_LEASE_STATUS_REQUEST) || str_eq(msg_type, msg_types::ADMIN_LEASE_STATUS_RESPONSE) || str_eq(msg_type, msg_types::ADMIN_UNLOCK_VERSION_REQUEST) || str_eq(msg_type, msg_types::ADMIN_UNLOCK_VERSION_RESPONSE) || str_eq(msg_type, msg_types::ADMIN_AUDIT_QUERY_REQUEST) || str_eq(msg_type, msg_types::ADMIN_AUDIT_QUERY_RESPONSE) || str_eq(msg_type, msg_types::ADMIN_SHUTDOWN_REQUEST) || str_eq(msg_type, msg_types::ADMIN_SHUTDOWN_RESPONSE) || str_eq(msg_type, msg_types::EVENT_SUBSCRIBE) || str_eq(msg_type, msg_types::EVENT_SUBSCRIBE_ACK) || str_eq(msg_type, msg_types::COMPILE_PROGRESS) || str_eq(msg_type, msg_types::TEST_PROGRESS) || str_eq(msg_type, msg_types::ROLLBACK_CONTEXT)
}

/// The payload of a welcome message holds each of its parts under its name.
pub proof fn law_welcome_holds_its_parts(
    accepted_capabilities: JsonTree,
    runlevel: u8,
)
    ensures
        welcome_tree(accepted_capabilities, runlevel).get("accepted_capabilities"@) == Some(accepted_capabilities),
        welcome_tree(accepted_capabilities, runlevel).get("runlevel"@) == Some(JsonTree::Number(number_of(runlevel as u64))),
{
    reveal_strlit("accepted_capabilities");
    reveal_strlit("runlevel");
    assert("accepted_capabilities"@.len() == 21);
    assert("runlevel"@.len() == 8);
}

/// The payload of a lease ack message holds each of its parts under its name.
pub proof fn law_lease_ack_holds_its_parts(
    next_deadline_ms: u64,
)
    ensures
        lease_ack_tree(next_deadline_ms).get("next_deadline_ms"@) == Some(JsonTree::Number(number_of(next_deadline_ms))),
{
    reveal_strlit("next_deadline_ms");
    assert("next_deadline_ms"@.len() == 16);
}

/// The payload of a runlevel change message holds each of its parts under its name.
pub proof fn law_runlevel_change_holds_its_parts(
    from: u8,
    to: u8,
    reason: Seq<char>,
)
    ensures
        runlevel_change_tree(from, to, reason).get("from"@) == Some(JsonTree::Number(number_of(from as u64))),
        runlevel_change_tree(from, to, reason).get("to"@) == Some(JsonTree::Number(number_of(to as u64))),
        runlevel_change_tree(from, to, reason).get("reason"@) == Some(JsonTree::Text(reason)),
{
    reveal_strlit("from");
    reveal_strlit("to");
    reveal_strlit("reason");
    assert("from"@.len() == 4);
    assert("to"@.len() == 2);
    assert("reason"@.len() == 6);
}

/// The payload of a shutdown message holds each of its parts under its name.
pub proof fn law_shutdown_holds_its_parts(
    reason: Seq<char>,
    grace_ms: u64,
)
    ensures
        shutdown_tree(reason, grace_ms).get("reason"@) == Some(JsonTree::Text(reason)),
        shutdown_tree(reason, grace_ms).get("grace_ms"@) == Some(JsonTree::Number(number_of(grace_ms))),
{
    reveal_strlit("reason");
    reveal_strlit("grace_ms");
    assert("reason"@.len() == 6);
    assert("grace_ms"@.len() == 8);
}

/// The payload of a compile request message holds each of its parts under its name.
pub proof fn law_compile_request_holds_its_parts(
    version: Seq<char>,
    source_path: Seq<char>,
    output_path: Seq<char>,
    attempt: u32,
)
    ensures
        compile_request_tree(version, source_path, output_path, attempt).get("version"@) == Some(JsonTree::Text(version)),
        compile_request_tree(version, source_path, output_path, attempt).get("source_path"@) == Some(JsonTree::Text(source_path)),
        compile_request_tree(version, source_path, output_path, attempt).get("output_path"@) == Some(JsonTree::Text(output_path)),
        compile_request_tree(version, source_path, output_path, attempt).get("attempt"@) == Some(JsonTree::Number(number_of(attempt as u64))),
{
    reveal_strlit("version");
    reveal_strlit("source_path");
    reveal_strlit("output_path");
    reveal_strlit("attempt");
    assert("version"@.len() == 7);
    assert("source_path"@.len() == 11);
    assert("output_path"@.len() == 11);
    assert("attempt"@.len() == 7);
    assert("version"@[0] == 'v');
    assert("source_path"@[0] == 's');
    assert("output_path"@[0] == 'o');
    assert("attempt"@[0] == 'a');
}

/// The payload of a compile result message holds each of its parts under its name.
pub proof fn law_compile_result_holds_its_parts(
    version: Seq<char>,
    success: bool,
    binary_path: Option<Seq<char>>,
    errors: Option<Seq<char>>,
)
    ensures
        compile_result_tree(version, success, binary_path, errors).get("version"@) == Some(JsonTree::Text(version)),
        compile_result_tree(version, success, binary_path, errors).get("success"@) == Some(JsonTree::Bool(success)),
        binary_path is Some ==> compile_result_tree(version, success, binary_path, errors).get("binary_path"@) == Some(JsonTree::Text(binary_path->0)),
        binary_path is None ==> compile_result_tree(version, success, binary_path, errors).get("binary_path"@) == Some(JsonTree::Null),
        errors is Some ==> compile_result_tree(version, success, binary_path, errors).get("errors"@) == Some(JsonTree::Text(errors->0)),
        errors is None ==> compile_result_tree(version, success, binary_path, errors).get("errors"@) == Some(JsonTree::Null),
{
    reveal_strlit("version");
    reveal_strlit("success");
    reveal_strlit("binary_path");
    reveal_strlit("errors");
    assert("version"@.len() == 7);
    assert("success"@.len() == 7);
    assert("binary_path"@.len() == 11);
    assert("errors"@.len() == 6);
    assert("version"@[0] == 'v');
    assert("success"@[0] == 's');
}

/// The payload of a update rejected message holds each of its parts under its name.
pub proof fn law_update_rejected_holds_its_parts(
    version: Seq<char>,
    reason: Seq<char>,
    errors: Option<Seq<char>>,
    failed_tests: Seq<Seq<char>>,
    scores: Option<JsonTree>,
    suggestion: Option<Seq<char>>,
    allows_patch_retry: bool,
    attempt: u32,
)
    ensures
        update_rejected_tree(version, reason, errors, failed_tests, scores, suggestion, allows_patch_retry, attempt).get("version"@) == Some(JsonTree::Text(version)),
        update_rejected_tree(version, reason, errors, failed_tests, scores, suggestion, allows_patch_retry, attempt).get("reason"@) == Some(JsonTree::Text(reason)),
        errors is Some ==> update_rejected_tree(version, reason, errors, failed_tests, scores, suggestion, allows_patch_retry, attempt).get("errors"@) == Some(JsonTree::Text(errors->0)),
        errors is None ==> update_rejected_tree(version, reason, errors, failed_tests, scores, suggestion, allows_patch_retry, attempt).get("errors"@) == Some(JsonTree::Null),
        update_rejected_tree(version, reason, errors, failed_tests, scores, suggestion, allows_patch_retry, attempt).get("allows_patch_retry"@) == Some(JsonTree::Bool(allows_patch_retry)),
        update_rejected_tree(version, reason, errors, failed_tests, scores, suggestion, allows_patch_retry, attempt).get("attempt"@) == Some(JsonTree::Number(number_of(attempt as u64))),
        failed_tests.len() > 0 ==> update_rejected_tree(version, reason, errors, failed_tests, scores, suggestion, allows_patch_retry, attempt).get("failed_tests"@) == Some(text_list(failed_tests)),
        failed_tests.len() == 0 ==> update_rejected_tree(version, reason, errors, failed_tests, scores, suggestion, allows_patch_retry, attempt).get("failed_tests"@) is None,
        scores is Some ==> update_rejected_tree(version, reason, errors, failed_tests, scores, suggestion, allows_patch_retry, attempt).get("scores"@) == scores,
        scores is None ==> update_rejected_tree(version, reason, errors, failed_tests, scores, suggestion, allows_patch_retry, attempt).get("scores"@) is None,
        suggestion is Some ==> update_rejected_tree(version, reason, errors, failed_tests, scores, suggestion, allows_patch_retry, attempt).get("suggestion"@) == Some(JsonTree::Text(suggestion->0)),
        suggestion is None ==> update_rejected_tree(version, reason, errors, failed_tests, scores, suggestion, allows_patch_retry, attempt).get("suggestion"@) is None,
{
    reveal_strlit("version");
    reveal_strlit("reason");
    reveal_strlit("errors");
    reveal_strlit("allows_patch_retry");
    reveal_strlit("attempt");
    reveal_strlit("failed_tests");
    reveal_strlit("scores");
    reveal_strlit("suggestion");
    assert("version"@.len() == 7);
    assert("reason"@.len() == 6);
    assert("errors"@.len() == 6);
    assert("allows_patch_retry"@.len() == 18);
    assert("attempt"@.len() == 7);
    assert("failed_tests"@.len() == 12);
    assert("scores"@.len() == 6);
    assert("suggestion"@.len() == 10);
    assert("version"@[0] == 'v');
    assert("reason"@[0] == 'r');
    assert("errors"@[0] == 'e');
    assert("attempt"@[0] == 'a');
    assert("scores"@[0] == 's');
}

/// The payload of a update accepted message holds each of its parts under its name.
pub proof fn law_update_accepted_holds_its_parts(
    version: Seq<char>,
)
    ensures
        update_accepted_tree(version).get("version"@) == Some(JsonTree::Text(version)),
{
    reveal_strlit("version");
    assert("version"@.len() == 7);
}

/// The payload of a rollback context message holds each of its parts under its name.
pub proof fn law_rollback_context_holds_its_parts(
    from_version: Seq<char>,
    to_version: Seq<char>,
    reason: Seq<char>,
    errors: Option<Seq<char>>,
    failed_tests: Seq<Seq<char>>,
    user_feedback: Option<Seq<char>>,
)
    ensures
        rollback_context_tree(from_version, to_version, reason, errors, failed_tests, user_feedback).get("from_version"@) == Some(JsonTree::Text(from_version)),
        rollback_context_tree(from_version, to_version, reason, errors, failed_tests, user_feedback).get("to_version"@) == Some(JsonTree::Text(to_version)),
        rollback_context_tree(from_version, to_version, reason, errors, failed_tests, user_feedback).get("reason"@) == Some(JsonTree::Text(reason)),
        errors is Some ==> rollback_context_tree(from_version, to_version, reason, errors, failed_tests, user_feedback).get("errors"@) == Some(JsonTree::Text(errors->0)),
        errors is None ==> rollback_context_tree(from_version, to_version, reason, errors, failed_tests, user_feedback).get("errors"@) is None,
        failed_tests.len() > 0 ==> rollback_context_tree(from_version, to_version, reason, errors, failed_tests, user_feedback).get("failed_tests"@) == Some(text_list(failed_tests)),
        failed_tests.len() == 0 ==> rollback_context_tree(from_version, to_version, reason, errors, failed_tests, user_feedback).get("failed_tests"@) is None,
        user_feedback is Some ==> rollback_context_tree(from_version, to_version, reason, errors, failed_tests, user_feedback).get("user_feedback"@) == Some(JsonTree::Text(user_feedback->0)),
        user_feedback is None ==> rollback_context_tree(from_version, to_version, reason, errors, failed_tests, user_feedback).get("user_feedback"@) is None,
{
    reveal_strlit("from_version");
    reveal_strlit("to_version");
    reveal_strlit("reason");
    reveal_strlit("errors");
    reveal_strlit("failed_tests");
    reveal_strlit("user_feedback");
    assert("from_version"@.len() == 12);
    assert("to_version"@.len() == 10);
    assert("reason"@.len() == 6);
    assert("errors"@.len() == 6);
    assert("failed_tests"@.len() == 12);
    assert("user_feedback"@.len() == 13);
    assert("from_version"@[1] == 'r');
    assert("reason"@[0] == 'r');
    assert("errors"@[0] == 'e');
    assert("failed_tests"@[1] == 'a');
}

/// The payload of a test request message holds each of its parts under its name.
pub proof fn law_test_request_holds_its_parts(
    version: Seq<char>,
    binary_path: Seq<char>,
)
    ensures
        test_request_tree(version, binary_path).get("version"@) == Some(JsonTree::Text(version)),
        test_request_tree(version, binary_path).get("binary_path"@) == Some(JsonTree::Text(binary_path)),
{
    reveal_strlit("version");
    reveal_strlit("binary_path");
    assert("version"@.len() == 7);
    assert("binary_path"@.len() == 11);
}

/// The payload of a invariant result message holds each of its parts under its name.
pub proof fn law_invariant_result_holds_its_parts(
    test_id: Seq<char>,
    passed: bool,
    detail: Option<Seq<char>>,
)
    ensures
        invariant_result_tree(test_id, passed, detail).get("test_id"@) == Some(JsonTree::Text(test_id)),
        invariant_result_tree(test_id, passed, detail).get("passed"@) == Some(JsonTree::Bool(passed)),
        detail is Some ==> invariant_result_tree(test_id, passed, detail).get("detail"@) == Some(JsonTree::Text(detail->0)),
        detail is None ==> invariant_result_tree(test_id, passed, detail).get("detail"@) == Some(JsonTree::Null),
{
    reveal_strlit("test_id");
    reveal_strlit("passed");
    reveal_strlit("detail");
    assert("test_id"@.len() == 7);
    assert("passed"@.len() == 6);
    assert("detail"@.len() == 6);
    assert("passed"@[0] == 'p');
    assert("detail"@[0] == 'd');
}

/// The payload of a probation started message holds each of its parts under its name.
pub proof fn law_probation_started_holds_its_parts(
    version: Seq<char>,
    duration_secs: u64,
    constraints: JsonTree,
)
    ensures
        probation_started_tree(version, duration_secs, constraints).get("version"@) == Some(JsonTree::Text(version)),
        probation_started_tree(version, duration_secs, constraints).get("duration_secs"@) == Some(JsonTree::Number(number_of(duration_secs))),
        probation_started_tree(version, duration_secs, constraints).get("constraints"@) == Some(constraints),
{
    reveal_strlit("version");
    reveal_strlit("duration_secs");
    reveal_strlit("constraints");
    assert("version"@.len() == 7);
    assert("duration_secs"@.len() == 13);
    assert("constraints"@.len() == 11);
}

/// The payload of a probation ended message holds each of its parts under its name.
pub proof fn law_probation_ended_holds_its_parts(
    version: Seq<char>,
    passed: bool,
    reason: Seq<char>,
)
    ensures
        probation_ended_tree(version, passed, reason).get("version"@) == Some(JsonTree::Text(version)),
        probation_ended_tree(version, passed, reason).get("passed"@) == Some(JsonTree::Bool(passed)),
        probation_ended_tree(version, passed, reason).get("reason"@) == Some(JsonTree::Text(reason)),
{
    reveal_strlit("version");
    reveal_strlit("passed");
    reveal_strlit("reason");
    assert("version"@.len() == 7);
    assert("passed"@.len() == 6);
    assert("reason"@.len() == 6);
    assert("passed"@[0] == 'p');
    assert("reason"@[0] == 'r');
}

/// The payload of a audit log message holds each of its parts under its name.
pub proof fn law_audit_log_holds_its_parts(
    timestamp: Seq<char>,
    event: Seq<char>,
    version: Option<Seq<char>>,
    details: JsonTree,
)
    ensures
        audit_log_tree(timestamp, event, version, details).get("timestamp"@) == Some(JsonTree::Text(timestamp)),
        audit_log_tree(timestamp, event, version, details).get("event"@) == Some(JsonTree::Text(event)),
        version is Some ==> audit_log_tree(timestamp, event, version, details).get("version"@) == Some(JsonTree::Text(version->0)),
        version is None ==> audit_log_tree(timestamp, event, version, details).get("version"@) == Some(JsonTree::Null),
        audit_log_tree(timestamp, event, version, details).get("details"@) == Some(details),
{
    reveal_strlit("timestamp");
    reveal_strlit("event");
    reveal_strlit("version");
    reveal_strlit("details");
    assert("timestamp"@.len() == 9);
    assert("event"@.len() == 5);
    assert("version"@.len() == 7);
    assert("details"@.len() == 7);
    assert("version"@[0] == 'v');
    assert("details"@[0] == 'd');
}

/// The payload of a resource violation alert message holds each of its parts under its name.
pub proof fn law_resource_violation_alert_holds_its_parts(
    peer: Seq<char>,
    resource: Seq<char>,
    current_value: Seq<char>,
    limit_value: Seq<char>,
    severity: Seq<char>,
)
    ensures
        resource_violation_alert_tree(peer, resource, current_value, limit_value, severity).get("peer"@) == Some(JsonTree::Text(peer)),
        resource_violation_alert_tree(peer, resource, current_value, limit_value, severity).get("resource"@) == Some(JsonTree::Text(resource)),
        resource_violation_alert_tree(peer, resource, current_value, limit_value, severity).get("current_value"@) == Some(JsonTree::Text(current_value)),
        resource_violation_alert_tree(peer, resource, current_value, limit_value, severity).get("limit_value"@) == Some(JsonTree::Text(limit_value)),
        resource_violation_alert_tree(peer, resource, current_value, limit_value, severity).get("severity"@) == Some(JsonTree::Text(severity)),
{
    reveal_strlit("peer");
    reveal_strlit("resource");
    reveal_strlit("current_value");
    reveal_strlit("limit_value");
    reveal_strlit("severity");
    assert("peer"@.len() == 4);
    assert("resource"@.len() == 8);
    assert("current_value"@.len() == 13);
    assert("limit_value"@.len() == 11);
    assert("severity"@.len() == 8);
    assert("resource"@[0] == 'r');
    assert("severity"@[0] == 's');
}

/// The payload of a runlevel request result message holds each of its parts under its name.
pub proof fn law_runlevel_request_result_holds_its_parts(
    accepted: bool,
    from: u8,
    to: u8,
    reason: Seq<char>,
)
    ensures
        runlevel_request_result_tree(accepted, from, to, reason).get("accepted"@) == Some(JsonTree::Bool(accepted)),
        runlevel_request_result_tree(accepted, from, to, reason).get("from"@) == Some(JsonTree::Number(number_of(from as u64))),
        runlevel_request_result_tree(accepted, from, to, reason).get("to"@) == Some(JsonTree::Number(number_of(to as u64))),
        runlevel_request_result_tree(accepted, from, to, reason).get("reason"@) == Some(JsonTree::Text(reason)),
{
    reveal_strlit("accepted");
    reveal_strlit("from");
    reveal_strlit("to");
    reveal_strlit("reason");
    assert("accepted"@.len() == 8);
    assert("from"@.len() == 4);
    assert("to"@.len() == 2);
    assert("reason"@.len() == 6);
}

/// The payload of a capability escalation message holds each of its parts under its name.
pub proof fn law_capability_escalation_holds_its_parts(
    version: Seq<char>,
    violations: Seq<Seq<char>>,
)
    ensures
        capability_escalation_tree(version, violations).get("version"@) == Some(JsonTree::Text(version)),
        capability_escalation_tree(version, violations).get("violations"@) == Some(text_list(violations)),
{
    reveal_strlit("version");
    reveal_strlit("violations");
    assert("version"@.len() == 7);
    assert("violations"@.len() == 10);
}

/// The payload of a get state response message holds each of its parts under its name.
pub proof fn law_get_state_response_holds_its_parts(
    key: Seq<char>,
    value: JsonTree,
    schema_version: u64,
)
    ensures
        get_state_response_tree(key, value, schema_version).get("key"@) == Some(JsonTree::Text(key)),
        get_state_response_tree(key, value, schema_version).get("value"@) == Some(value),
        get_state_response_tree(key, value, schema_version).get("schema_version"@) == Some(JsonTree::Number(number_of(schema_version))),
{
    reveal_strlit("key");
    reveal_strlit("value");
    reveal_strlit("schema_version");
    assert("key"@.len() == 3);
    assert("value"@.len() == 5);
    assert("schema_version"@.len() == 14);
}

/// The payload of a set state ack message holds each of its parts under its name.
pub proof fn law_set_state_ack_holds_its_parts(
    key: Seq<char>,
    success: bool,
    error: Option<Seq<char>>,
)
    ensures
        set_state_ack_tree(key, success, error).get("key"@) == Some(JsonTree::Text(key)),
        set_state_ack_tree(key, success, error).get("success"@) == Some(JsonTree::Bool(success)),
        error is Some ==> set_state_ack_tree(key, success, error).get("error"@) == Some(JsonTree::Text(error->0)),
        error is None ==> set_state_ack_tree(key, success, error).get("error"@) == Some(JsonTree::Null),
{
    reveal_strlit("key");
    reveal_strlit("success");
    reveal_strlit("error");
    assert("key"@.len() == 3);
    assert("success"@.len() == 7);
    assert("error"@.len() == 5);
}

/// The payload of a constitution amendment result message holds each of its parts under its name.
pub proof fn law_constitution_amendment_result_holds_its_parts(
    accepted: bool,
    amendment_id: Seq<char>,
    reason: Seq<char>,
)
    ensures
        constitution_amendment_result_tree(accepted, amendment_id, reason).get("accepted"@) == Some(JsonTree::Bool(accepted)),
        constitution_amendment_result_tree(accepted, amendment_id, reason).get("amendment_id"@) == Some(JsonTree::Text(amendment_id)),
        constitution_amendment_result_tree(accepted, amendment_id, reason).get("reason"@) == Some(JsonTree::Text(reason)),
{
    reveal_strlit("accepted");
    reveal_strlit("amendment_id");
    reveal_strlit("reason");
    assert("accepted"@.len() == 8);
    assert("amendment_id"@.len() == 12);
    assert("reason"@.len() == 6);
}

/// The payload of a protocol extension result message holds each of its parts under its name.
pub proof fn law_protocol_extension_result_holds_its_parts(
    accepted: bool,
    new_protocol_version: Option<Seq<char>>,
    reason: Seq<char>,
)
    ensures
        protocol_extension_result_tree(accepted, new_protocol_version, reason).get("accepted"@) == Some(JsonTree::Bool(accepted)),
        new_protocol_version is Some ==> protocol_extension_result_tree(accepted, new_protocol_version, reason).get("new_protocol_version"@) == Some(JsonTree::Text(new_protocol_version->0)),
        new_protocol_version is None ==> protocol_extension_result_tree(accepted, new_protocol_version, reason).get("new_protocol_version"@) == Some(JsonTree::Null),
        protocol_extension_result_tree(accepted, new_protocol_version, reason).get("reason"@) == Some(JsonTree::Text(reason)),
{
    reveal_strlit("accepted");
    reveal_strlit("new_protocol_version");
    reveal_strlit("reason");
    assert("accepted"@.len() == 8);
    assert("new_protocol_version"@.len() == 20);
    assert("reason"@.len() == 6);
}

/// The payload of a compile progress message holds each of its parts under its name.
pub proof fn law_compile_progress_holds_its_parts(
    version: Seq<char>,
    stage: Seq<char>,
    percent: u8,
    log_line: Option<Seq<char>>,
    finished: bool,
    attempt: u32,
)
    ensures
        compile_progress_tree(version, stage, percent, log_line, finished, attempt).get("version"@) == Some(JsonTree::Text(version)),
        compile_progress_tree(version, stage, percent, log_line, finished, attempt).get("stage"@) == Some(JsonTree::Text(stage)),
        compile_progress_tree(version, stage, percent, log_line, finished, attempt).get("percent"@) == Some(JsonTree::Number(number_of(percent as u64))),
        log_line is Some ==> compile_progress_tree(version, stage, percent, log_line, finished, attempt).get("log_line"@) == Some(JsonTree::Text(log_line->0)),
        log_line is None ==> compile_progress_tree(version, stage, percent, log_line, finished, attempt).get("log_line"@) == Some(JsonTree::Null),
        compile_progress_tree(version, stage, percent, log_line, finished, attempt).get("finished"@) == Some(JsonTree::Bool(finished)),
        compile_progress_tree(version, stage, percent, log_line, finished, attempt).get("attempt"@) == Some(JsonTree::Number(number_of(attempt as u64))),
{
    reveal_strlit("version");
    reveal_strlit("stage");
    reveal_strlit("percent");
    reveal_strlit("log_line");
    reveal_strlit("finished");
    reveal_strlit("attempt");
    assert("version"@.len() == 7);
    assert("stage"@.len() == 5);
    assert("percent"@.len() == 7);
    assert("log_line"@.len() == 8);
    assert("finished"@.len() == 8);
    assert("attempt"@.len() == 7);
    assert("version"@[0] == 'v');
    assert("percent"@[0] == 'p');
    assert("log_line"@[0] == 'l');
    assert("finished"@[0] == 'f');
    assert("attempt"@[0] == 'a');
}

/// These are message types that the boot process knows.
pub proof fn law_core_types_are_known()
    ensures
        core_type("Hello"@),
        core_type("Welcome"@),
        core_type("LeaseRenew"@),
        core_type("LeaseAck"@),
        core_type("RunlevelChange"@),
        core_type("Shutdown"@),
        core_type("SubmitUpdate"@),
        core_type("CompileRequest"@),
        core_type("CompileResult"@),
        core_type("UpdateRejected"@),
        core_type("UpdateAccepted"@),
        core_type("GetState"@),
        core_type("GetStateResponse"@),
        core_type("SetState"@),
        core_type("SetStateAck"@),
        core_type("TestRequest"@),
        core_type("TestResult"@),
        core_type("ProbationStarted"@),
        core_type("ProbationEnded"@),
        core_type("AuditLog"@),
        core_type("ResourceViolation"@),
        core_type("RunlevelRequest"@),
        core_type("RunlevelRequestResult"@),
        core_type("CapabilityEscalation"@),
        core_type("ConstitutionAmendmentProposal"@),
        core_type("ConstitutionAmendmentResult"@),
        core_type("ProtocolExtensionProposal"@),
        core_type("ProtocolExtensionResult"@),
        core_type("AdminStatusRequest"@),
        core_type("AdminStatusResponse"@),
        core_type("AdminListVersionsRequest"@),
        core_type("AdminListVersionsResponse"@),
        core_type("AdminVersionDetailRequest"@),
        core_type("AdminVersionDetailResponse"@),
        core_type("AdminCleanupVersionsRequest"@),
        core_type("AdminCleanupVersionsResponse"@),
        core_type("AdminForceRollbackRequest"@),
        core_type("AdminForceRollbackResponse"@),
        core_type("AdminLeaseStatusRequest"@),
        core_type("AdminLeaseStatusResponse"@),
        core_type("AdminUnlockVersionRequest"@),
        core_type("AdminUnlockVersionResponse"@),
        core_type("AdminAuditQueryRequest"@),
        core_type("AdminAuditQueryResponse"@),
        core_type("AdminShutdownRequest"@),
        core_type("AdminShutdownResponse"@),
        core_type("EventSubscribe"@),
        core_type("EventSubscribeAck"@),
        core_type("CompileProgress"@),
        core_type("TestProgress"@),
        core_type("RollbackContext"@),
{
}

} // verus!
