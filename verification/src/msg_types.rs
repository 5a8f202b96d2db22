//! The names of the message types that the boot process understands.

use vstd::prelude::*;

verus! {

pub const HELLO: &'static str = "Hello";

pub const WELCOME: &'static str = "Welcome";

pub const LEASE_RENEW: &'static str = "LeaseRenew";

pub const LEASE_ACK: &'static str = "LeaseAck";

pub const RUNLEVEL_CHANGE: &'static str = "RunlevelChange";

pub const SHUTDOWN: &'static str = "Shutdown";

pub const SUBMIT_UPDATE: &'static str = "SubmitUpdate";

pub const COMPILE_REQUEST: &'static str = "CompileRequest";

pub const COMPILE_RESULT: &'static str = "CompileResult";

pub const UPDATE_REJECTED: &'static str = "UpdateRejected";

pub const UPDATE_ACCEPTED: &'static str = "UpdateAccepted";

pub const GET_STATE: &'static str = "GetState";

pub const GET_STATE_RESPONSE: &'static str = "GetStateResponse";

pub const SET_STATE: &'static str = "SetState";

pub const SET_STATE_ACK: &'static str = "SetStateAck";

pub const TEST_REQUEST: &'static str = "TestRequest";

pub const TEST_RESULT: &'static str = "TestResult";

pub const PROBATION_STARTED: &'static str = "ProbationStarted";

pub const PROBATION_ENDED: &'static str = "ProbationEnded";

pub const AUDIT_LOG: &'static str = "AuditLog";

pub const RESOURCE_VIOLATION: &'static str = "ResourceViolation";

pub const RUNLEVEL_REQUEST: &'static str = "RunlevelRequest";

pub const RUNLEVEL_REQUEST_RESULT: &'static str = "RunlevelRequestResult";

pub const CAPABILITY_ESCALATION: &'static str = "CapabilityEscalation";

pub const CONSTITUTION_AMENDMENT_PROPOSAL: &'static str = "ConstitutionAmendmentProposal";

pub const CONSTITUTION_AMENDMENT_RESULT: &'static str = "ConstitutionAmendmentResult";

pub const PROTOCOL_EXTENSION_PROPOSAL: &'static str = "ProtocolExtensionProposal";

pub const PROTOCOL_EXTENSION_RESULT: &'static str = "ProtocolExtensionResult";

pub const ADMIN_STATUS_REQUEST: &'static str = "AdminStatusRequest";

pub const ADMIN_STATUS_RESPONSE: &'static str = "AdminStatusResponse";

pub const ADMIN_LIST_VERSIONS_REQUEST: &'static str = "AdminListVersionsRequest";

pub const ADMIN_LIST_VERSIONS_RESPONSE: &'static str = "AdminListVersionsResponse";

pub const ADMIN_VERSION_DETAIL_REQUEST: &'static str = "AdminVersionDetailRequest";

pub const ADMIN_VERSION_DETAIL_RESPONSE: &'static str = "AdminVersionDetailResponse";

pub const ADMIN_CLEANUP_VERSIONS_REQUEST: &'static str = "AdminCleanupVersionsRequest";

pub const ADMIN_CLEANUP_VERSIONS_RESPONSE: &'static str = "AdminCleanupVersionsResponse";

pub const ADMIN_FORCE_ROLLBACK_REQUEST: &'static str = "AdminForceRollbackRequest";

pub const ADMIN_FORCE_ROLLBACK_RESPONSE: &'static str = "AdminForceRollbackResponse";

pub const ADMIN_LEASE_STATUS_REQUEST: &'static str = "AdminLeaseStatusRequest";

pub const ADMIN_LEASE_STATUS_RESPONSE: &'static str = "AdminLeaseStatusResponse";

pub const ADMIN_UNLOCK_VERSION_REQUEST: &'static str = "AdminUnlockVersionRequest";

pub const ADMIN_UNLOCK_VERSION_RESPONSE: &'static str = "AdminUnlockVersionResponse";

pub const ADMIN_AUDIT_QUERY_REQUEST: &'static str = "AdminAuditQueryRequest";

pub const ADMIN_AUDIT_QUERY_RESPONSE: &'static str = "AdminAuditQueryResponse";

pub const ADMIN_SHUTDOWN_REQUEST: &'static str = "AdminShutdownRequest";

pub const ADMIN_SHUTDOWN_RESPONSE: &'static str = "AdminShutdownResponse";

pub const EVENT_SUBSCRIBE: &'static str = "EventSubscribe";

pub const EVENT_SUBSCRIBE_ACK: &'static str = "EventSubscribeAck";

pub const COMPILE_PROGRESS: &'static str = "CompileProgress";

pub const TEST_PROGRESS: &'static str = "TestProgress";

pub const ROLLBACK_CONTEXT: &'static str = "RollbackContext";

} // verus!
