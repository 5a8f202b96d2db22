//! What the kernel does about requests for state, amendments and protocol
//! extensions, about the end of a probation, and about messages in general.

use crate::constitution::signature_valid;
use crate::json::{empty_object, number_of, text_or_null, Json, JsonTree};
use crate::kernel::{
    acts, all_wf, boot_envelope, boot_letter, one_action, push_action, Act, Action, KernelState,
    Letter, Microkernel, Probation,
};
use crate::messages::{
    constitution_amendment_result_tree, core_type, get_state_response_tree, is_core_message,
    probation_ended_tree, protocol_extension_result_tree, set_state_ack_tree, test_request_tree,
    ConstitutionAmendmentProposal, ConstitutionAmendmentResult, Envelope, GetState,
    GetStateResponse, ProbationEnded, ProtocolExtensionProposal, ProtocolExtensionResult,
    SetState, SetStateAck, TestRequest,
};
use crate::msg_types;
use crate::protocol::{
    build_extension_payload, can_extend, extension_decided, extension_payload, ExtensionLogEntry,
};
use crate::scan::{contains_text, law_parts_are_found};
use crate::state::{StateValue, StoreState};
use crate::text::str_eq;
use crate::update::probation_set;
use crate::version::sentence;
use vstd::prelude::*;
use vstd::string::*;

verus! {

/// The answer to a request for the state under a key: what is stored, or null
/// in schema version 0 where nothing is.
pub open spec fn state_answer(
    s: KernelState,
    from: Seq<char>,
    id: Seq<char>,
    key: Seq<char>,
) -> Seq<Act> {
    let payload = if s.store.entries.contains_key(key) {
        get_state_response_tree(
            key,
            s.store.entries[key].value,
            s.store.entries[key].schema_version,
        )
    } else {
        get_state_response_tree(key, JsonTree::Null, 0)
    };
    seq![Act::Send(boot_letter(from, "GetStateResponse"@, id, payload))]
}

/// The kernel after a request to store a state, which counts only where it
/// could be written.
pub open spec fn after_set_state(
    s: KernelState,
    key: Seq<char>,
    value: JsonTree,
    schema_version: u64,
    written: bool,
) -> KernelState {
    if written {
        KernelState {
            store: StoreState {
                entries: s.store.entries.insert(key, StateValue { value, schema_version }),
                ..s.store
            },
            ..s
        }
    } else {
        s
    }
}

/// The answer to a request to store a state, with the error where it could not
/// be written.
pub open spec fn stored_answer(
    from: Seq<char>,
    id: Seq<char>,
    key: Seq<char>,
    error: Option<Seq<char>>,
) -> Seq<Act> {
    seq![
        Act::Send(
            boot_letter(
                from,
                "SetStateAck"@,
                id,
                set_state_ack_tree(key, error is None, error),
            ),
        ),
    ]
}

/// What the kernel does with a message addressed to it.
#[derive(Debug, Clone, Copy, PartialEq, Eq, Structural)]
pub enum Handling {
    Hello,
    LeaseRenew,
    SubmitUpdate,
    CompileResult,
    TestResult,
    GetState,
    SetState,
    RunlevelRequest,
    ConstitutionAmendment,
    ProtocolExtension,
    /// A core message that does not go to the kernel.
    WrongDirection,
    Unknown,
}

/// What the kernel does with a message of the given type.
pub open spec fn handling(t: Seq<char>) -> Handling {
    if t == "Hello"@ {
        Handling::Hello
    } else if t == "LeaseRenew"@ {
        Handling::LeaseRenew
    } else if t == "SubmitUpdate"@ {
        Handling::SubmitUpdate
    } else if t == "CompileResult"@ {
        Handling::CompileResult
    } else if t == "TestResult"@ {
        Handling::TestResult
    } else if t == "GetState"@ {
        Handling::GetState
    } else if t == "SetState"@ {
        Handling::SetState
    } else if t == "RunlevelRequest"@ {
        Handling::RunlevelRequest
    } else if t == "ConstitutionAmendmentProposal"@ {
        Handling::ConstitutionAmendment
    } else if t == "ProtocolExtensionProposal"@ {
        Handling::ProtocolExtension
    } else if core_type(t) {
        Handling::WrongDirection
    } else {
        Handling::Unknown
    }
}

/// What the kernel does with a message of the given type.
pub fn handle_message(msg_type: &str) -> (h: Handling)
    ensures
        h == handling(msg_type@),
{
    if str_eq(msg_type, msg_types::HELLO) {
        Handling::Hello
    } else if str_eq(msg_type, msg_types::LEASE_RENEW) {
        Handling::LeaseRenew
    } else if str_eq(msg_type, msg_types::SUBMIT_UPDATE) {
        Handling::SubmitUpdate
    } else if str_eq(msg_type, msg_types::COMPILE_RESULT) {
        Handling::CompileResult
    } else if str_eq(msg_type, msg_types::TEST_RESULT) {
        Handling::TestResult
    } else if str_eq(msg_type, msg_types::GET_STATE) {
        Handling::GetState
    } else if str_eq(msg_type, msg_types::SET_STATE) {
        Handling::SetState
    } else if str_eq(msg_type, msg_types::RUNLEVEL_REQUEST) {
        Handling::RunlevelRequest
    } else if str_eq(msg_type, msg_types::CONSTITUTION_AMENDMENT_PROPOSAL) {
        Handling::ConstitutionAmendment
    } else if str_eq(msg_type, msg_types::PROTOCOL_EXTENSION_PROPOSAL) {
        Handling::ProtocolExtension
    } else if is_core_message(msg_type) {
        Handling::WrongDirection
    } else {
        Handling::Unknown
    }
}

/// A probation whose time is up.
pub struct Reevaluation {
    pub version: String,
    pub envelope_id: String,
    /// The request for another test, to be sent to the judge.
    pub request: Envelope,
}

/// Whether a probation's time is up.
pub open spec fn probation_over(p: Probation, now: u64) -> bool {
    (if now >= p.started_at {
        now - p.started_at
    } else {
        0
    }) >= p.duration
}

/// The request for another test at the end of a probation.
pub open spec fn reevaluation_letter(p: Probation) -> Letter {
    boot_letter(
        "judge"@,
        "TestRequest"@,
        "probation-reeval-"@ + p.envelope_id,
        test_request_tree(p.version, p.binary_path),
    )
}

/// What becomes of a probation that is looked at: where its time is up, it ends
/// and the version is to be tested again.
pub open spec fn probation_checked(
    before: KernelState,
    after: KernelState,
    now: u64,
    r: Option<Reevaluation>,
) -> bool {
    if before.probation is Some && probation_over(before.probation->Some_0, now) {
        let p = before.probation->Some_0;
        &&& r is Some
        &&& r->Some_0.version@ == p.version
        &&& r->Some_0.envelope_id@ == p.envelope_id
        &&& r->Some_0.request@ == reevaluation_letter(p)
        &&& r->Some_0.request.payload.wf()
        &&& after == (KernelState {
            probation: None,
            leases: probation_set(before.leases, false),
            ..before
        })
    } else {
        r is None && after == before
    }
}

/// The outcome of an amendment or an extension for its proposer: an identifier
/// on success, a reason otherwise.
pub open spec fn outcome_text(r: Result<String, String>) -> Result<Seq<char>, Seq<char>> {
    match r {
        Ok(s) => Ok(s@),
        Err(e) => Err(e@),
    }
}

/// The answer to an amendment and its trace in the audit log.
pub open spec fn amendment_acts(
    from: Seq<char>,
    id: Seq<char>,
    amendment_type: Seq<char>,
    target_file: Seq<char>,
    outcome: Result<Seq<char>, Seq<char>>,
) -> Seq<Act> {
    let amendment_id = match outcome {
        Ok(a) => a,
        Err(_) => Seq::empty(),
    };
    let reason = match outcome {
        Ok(a) => "Amendment "@ + a + " approved"@,
        Err(e) => e,
    };
    seq![
        Act::Send(
            boot_letter(
                from,
                "ConstitutionAmendmentResult"@,
                id,
                constitution_amendment_result_tree(outcome is Ok, amendment_id, reason),
            ),
        ),
        Act::Audit {
            event: if outcome is Ok {
                "constitution_amendment_accepted"@
            } else {
                "constitution_amendment_rejected"@
            },
            version: None,
            details: empty_object().set("amendment_id"@, JsonTree::Text(amendment_id)).set(
                "amendment_type"@,
                JsonTree::Text(amendment_type),
            ).set("target_file"@, JsonTree::Text(target_file)).set(
                "reason"@,
                JsonTree::Text(reason),
            ).set("proposed_by"@, JsonTree::Text(from)),
        },
    ]
}

/// The answer to a protocol extension and its trace in the audit log.
pub open spec fn extension_acts(
    from: Seq<char>,
    id: Seq<char>,
    breaking: bool,
    outcome: Result<Seq<char>, Seq<char>>,
) -> Seq<Act> {
    let version = match outcome {
        Ok(v) => Some(v),
        Err(_) => None,
    };
    let reason = match outcome {
        Ok(v) => "Protocol updated to "@ + v,
        Err(e) => e,
    };
    seq![
        Act::Send(
            boot_letter(
                from,
                "ProtocolExtensionResult"@,
                id,
                protocol_extension_result_tree(outcome is Ok, version, reason),
            ),
        ),
        Act::Audit {
            event: if outcome is Ok {
                "protocol_extension_accepted"@
            } else {
                "protocol_extension_rejected"@
            },
            version: None,
            details: empty_object().set("new_version"@, text_or_null(version)).set(
                "breaking"@,
                JsonTree::Bool(breaking),
            ).set("reason"@, JsonTree::Text(reason)).set("proposed_by"@, JsonTree::Text(from)),
        },
    ]
}

impl Microkernel {
    /// Ends a probation whose time is up: the version is to be tested again.
    pub fn check_probation(&mut self, now: u64) -> (r: Option<Reevaluation>)
        requires
            old(self).wf(),
        ensures
            final(self).wf(),
            probation_checked(old(self)@, final(self)@, now, r),
    {
        let (version, binary_path, envelope_id) = match &self.probation {
            Some(p) => {
                let elapsed: u64 = if now >= p.started_at {
                    now - p.started_at
                } else {
                    0
                };
                if elapsed < p.duration {
                    return None;
                }
                (p.version.clone(), p.binary_path.clone(), p.envelope_id.clone())
            },
            None => {
                return None;
            },
        };
        let request = TestRequest { version: version.clone(), binary_path };
        let id = sentence("probation-reeval-", envelope_id.as_str());
        let request = boot_envelope("judge", msg_types::TEST_REQUEST, id.as_str(), request.to_json());
        self.lease_manager.set_probation("peripheral", false);
        self.probation = None;
        Some(Reevaluation { version, envelope_id, request })
    }

    /// Deals with a judge that cannot be asked at the end of a probation.
    pub fn reevaluation_failed(&self, version: &str, envelope_id: &str, error: &str) -> (v: Vec<
        Action,
    >)
        ensures
            all_wf(v@),
            acts(v@) == seq![
                Act::Send(
                    boot_letter(
                        "peripheral"@,
                        "ProbationEnded"@,
                        envelope_id@,
                        probation_ended_tree(
                            version@,
                            false,
                            "Judge unavailable for re-evaluation: "@ + error@,
                        ),
                    ),
                ),
                Act::Audit {
                    event: "probation_failed"@,
                    version: Some(version@),
                    details: empty_object().set(
                        "reason"@,
                        JsonTree::Text("Judge unavailable for re-evaluation"@),
                    ),
                },
            ],
    {
        let ended = ProbationEnded {
            version: version.to_owned(),
            passed: false,
            reason: sentence("Judge unavailable for re-evaluation: ", error),
        };
        let mut details = Json::object();
        details.set("reason", Json::text("Judge unavailable for re-evaluation"));
        let mut v = one_action(
            Action::Send(
                boot_envelope(
                    "peripheral",
                    msg_types::PROBATION_ENDED,
                    envelope_id,
                    ended.to_json(),
                ),
            ),
        );
        let ghost first = acts(v@);
        push_action(
            &mut v,
            Action::Audit {
                event: "probation_failed".to_owned(),
                version: Some(version.to_owned()),
                details,
            },
        );
        assert(acts(v@) =~= seq![first[0], acts(v@)[1]]);
        v
    }

    /// Answers a request for the state under a key; where there is none, it is
    /// null in schema version 0.
    pub fn handle_get_state(&self, from: &str, id: &str, request: &GetState) -> (v: Vec<Action>)
        requires
            self.wf(),
        ensures
            all_wf(v@),
            acts(v@) == state_answer(self@, from@, id@, request.key@),
    {
        let response = match self.state_store.get(request.key.as_str()) {
            Some(e) => GetStateResponse {
                key: request.key.clone(),
                value: e.value.copy(),
                schema_version: e.schema_version,
            },
            None => GetStateResponse {
                key: request.key.clone(),
                value: Json::Null,
                schema_version: 0,
            },
        };
        one_action(
            Action::Send(
                boot_envelope(from, msg_types::GET_STATE_RESPONSE, id, response.to_json()),
            ),
        )
    }

    /// Answers a request to store a state, given whether its file could be
    /// written: the state counts only then.
    pub fn handle_set_state(
        &mut self,
        from: &str,
        id: &str,
        request: SetState,
        written: Result<(), String>,
    ) -> (v: Vec<Action>)
        requires
            old(self).wf(),
            request.value.wf(),
        ensures
            final(self).wf(),
            all_wf(v@),
            final(self)@ == after_set_state(
                old(self)@,
                request.key@,
                request.value.tree(),
                request.schema_version,
                written is Ok,
            ),
            acts(v@) == stored_answer(
                from@,
                id@,
                request.key@,
                match written {
                    Ok(_) => None,
                    Err(e) => Some(e@),
                },
            ),
    {
        let key = request.key;
        let (success, error) = match written {
            Ok(()) => {
                self.state_store.set(key.as_str(), request.value, request.schema_version);
                (true, None)
            },
            Err(e) => (false, Some(e)),
        };
        let ack = SetStateAck { key, success, error };
        one_action(
            Action::Send(boot_envelope(from, msg_types::SET_STATE_ACK, id, ack.to_json())),
        )
    }

    /// Answers an amendment, given what became of it: the amendment's
    /// identifier, or why it was not carried out.
    pub fn handle_constitution_amendment(
        &self,
        from: &str,
        id: &str,
        proposal: &ConstitutionAmendmentProposal,
        outcome: Result<String, String>,
    ) -> (v: Vec<Action>)
        ensures
            all_wf(v@),
            acts(v@) == amendment_acts(
                from@,
                id@,
                proposal.amendment_type@,
                proposal.target_file@,
                outcome_text(outcome),
            ),
    {
        let (accepted, amendment_id, reason) = match outcome {
            Ok(a) => {
                let mut reason = sentence("Amendment ", a.as_str());
                reason.append(" approved");
                (true, a, reason)
            },
            Err(e) => (false, String::new(), e),
        };
        let mut details = Json::object();
        details.set("amendment_id", Json::text(amendment_id.as_str()));
        details.set("amendment_type", Json::text(proposal.amendment_type.as_str()));
        details.set("target_file", Json::text(proposal.target_file.as_str()));
        details.set("reason", Json::text(reason.as_str()));
        details.set("proposed_by", Json::text(from));
        let result = ConstitutionAmendmentResult { accepted, amendment_id, reason };
        let mut v = one_action(
            Action::Send(
                boot_envelope(
                    from,
                    msg_types::CONSTITUTION_AMENDMENT_RESULT,
                    id,
                    result.to_json(),
                ),
            ),
        );
        let event = if accepted {
            "constitution_amendment_accepted"
        } else {
            "constitution_amendment_rejected"
        };
        push_action(
            &mut v,
            Action::Audit { event: event.to_owned(), version: None, details },
        );
        assert(acts(v@) =~= amendment_acts(
            from@,
            id@,
            proposal.amendment_type@,
            proposal.target_file@,
            outcome_text(outcome),
        ));
        v
    }

    /// Decides on a protocol extension. A signature is checked against the
    /// constitution's secret.
    pub fn decide_protocol_extension(
        &mut self,
        proposal: &ProtocolExtensionProposal,
        timestamp: u64,
    ) -> (r: Result<ExtensionLogEntry, String>)
        requires
            old(self).wf(),
            proposal.new_messages.wf(),
            can_extend(
                old(self)@.registry,
                proposal.new_messages,
                proposal.breaking,
                Some(true),
            ),
        ensures
            final(self).wf(),
            final(self)@ == (KernelState { registry: final(self)@.registry, ..old(self)@ }),
            extension_decided(
                old(self)@.registry,
                final(self)@.registry,
                proposal.new_messages,
                proposal.breaking,
                proposal.description@,
                match proposal.signature {
                    Some(sig) => Some(
                        signature_valid(
                            old(self)@.constitution.key,
                            extension_payload(
                                proposal.description@,
                                proposal.new_messages.tree(),
                            ),
                            sig@,
                        ),
                    ),
                    None => None,
                },
                timestamp,
                r,
            ),
    {
        let authorized = match &proposal.signature {
            Some(sig) => {
                let payload = build_extension_payload(
                    proposal.description.as_str(),
                    &proposal.new_messages,
                );
                Some(self.constitution_manager.verify_signature(payload.as_str(), sig.as_str()))
            },
            None => None,
        };
        self.protocol_manager.decide_extension(
            &proposal.new_messages,
            proposal.breaking,
            proposal.description.as_str(),
            authorized,
            timestamp,
        )
    }

    /// Answers a protocol extension, given what became of it: the protocol's
    /// new version, or why it was not adopted.
    pub fn handle_protocol_extension(
        &self,
        from: &str,
        id: &str,
        breaking: bool,
        outcome: Result<String, String>,
    ) -> (v: Vec<Action>)
        ensures
            all_wf(v@),
            acts(v@) == extension_acts(from@, id@, breaking, outcome_text(outcome)),
    {
        let (accepted, new_protocol_version, reason) = match outcome {
            Ok(version) => {
                let reason = sentence("Protocol updated to ", version.as_str());
                (true, Some(version), reason)
            },
            Err(e) => (false, None, e),
        };
        let mut details = Json::object();
        details.set("new_version", Json::optional(&new_protocol_version));
        details.set("breaking", Json::Bool(breaking));
        details.set("reason", Json::text(reason.as_str()));
        details.set("proposed_by", Json::text(from));
        let result = ProtocolExtensionResult { accepted, new_protocol_version, reason };
        let mut v = one_action(
            Action::Send(
                boot_envelope(
                    from,
                    msg_types::PROTOCOL_EXTENSION_RESULT,
                    id,
                    result.to_json(),
                ),
            ),
        );
        let event = if accepted {
            "protocol_extension_accepted"
        } else {
            "protocol_extension_rejected"
        };
        push_action(
            &mut v,
            Action::Audit { event: event.to_owned(), version: None, details },
        );
        assert(acts(v@) =~= extension_acts(from@, id@, breaking, outcome_text(outcome)));
        v
    }
}

/// After a state was stored, a request for its key is answered with its value
/// and schema version, and a request for any other key as before. Where the
/// state could not be written, every request is answered as before.
pub proof fn law_read_gives_back_what_was_written(
    s: KernelState,
    key: Seq<char>,
    value: JsonTree,
    schema_version: u64,
    other: Seq<char>,
    from: Seq<char>,
    id: Seq<char>,
)
    requires
        other != key,
    ensures
        state_answer(after_set_state(s, key, value, schema_version, true), from, id, key) == seq![
            Act::Send(
                boot_letter(
                    from,
                    "GetStateResponse"@,
                    id,
                    get_state_response_tree(key, value, schema_version),
                ),
            ),
        ],
        state_answer(after_set_state(s, key, value, schema_version, true), from, id, other)
            == state_answer(s, from, id, other),
        state_answer(after_set_state(s, key, value, schema_version, false), from, id, key)
            == state_answer(s, from, id, key),
        state_answer(after_set_state(s, key, value, schema_version, false), from, id, other)
            == state_answer(s, from, id, other),
{
}

/// Messages for the kernel are dealt with by their type; a core message of any
/// other type does not go to the kernel, and what is no core message is not
/// known.
pub proof fn law_messages_are_dealt_with_by_type(t: Seq<char>)
    ensures
        handling("Hello"@) is Hello,
        handling("LeaseRenew"@) is LeaseRenew,
        handling("SubmitUpdate"@) is SubmitUpdate,
        handling("CompileResult"@) is CompileResult,
        handling("TestResult"@) is TestResult,
        handling("GetState"@) is GetState,
        handling("SetState"@) is SetState,
        handling("RunlevelRequest"@) is RunlevelRequest,
        handling("ConstitutionAmendmentProposal"@) is ConstitutionAmendment,
        handling("ProtocolExtensionProposal"@) is ProtocolExtension,
        (core_type(t) && t != "Hello"@ && t != "LeaseRenew"@ && t != "SubmitUpdate"@ && t != "CompileResult"@ && t != "TestResult"@ && t != "GetState"@ && t != "SetState"@ && t != "RunlevelRequest"@ && t != "ConstitutionAmendmentProposal"@ && t != "ProtocolExtensionProposal"@) ==> handling(t) is WrongDirection,
        !core_type(t) ==> handling(t) is Unknown,
{
    reveal_strlit("Hello");
    reveal_strlit("LeaseRenew");
    reveal_strlit("SubmitUpdate");
    reveal_strlit("CompileResult");
    reveal_strlit("TestResult");
    reveal_strlit("GetState");
    reveal_strlit("SetState");
    reveal_strlit("RunlevelRequest");
    reveal_strlit("ConstitutionAmendmentProposal");
    reveal_strlit("ProtocolExtensionProposal");
    assert("Hello"@.len() == 5);
    assert("LeaseRenew"@.len() == 10);
    assert("SubmitUpdate"@.len() == 12);
    assert("CompileResult"@.len() == 13);
    assert("TestResult"@.len() == 10);
    assert("GetState"@.len() == 8);
    assert("SetState"@.len() == 8);
    assert("RunlevelRequest"@.len() == 15);
    assert("ConstitutionAmendmentProposal"@.len() == 29);
    assert("ProtocolExtensionProposal"@.len() == 25);
    assert("LeaseRenew"@[0] == 'L');
    assert("TestResult"@[0] == 'T');
    assert("GetState"@[0] == 'G');
    assert("SetState"@[0] == 'S');
    crate::messages::law_core_types_are_known();
}

/// A probation ends when its time is up, not before, and a clock that runs
/// backwards does not end it early.
pub proof fn law_probation_lasts_its_time(p: Probation, now: u64)
    ensures
        now >= p.started_at && now - p.started_at >= p.duration ==> probation_over(p, now),
        p.duration > 0 && now < p.started_at + p.duration ==> !probation_over(p, now),
{
}

/// At the end of a probation the judge is asked to test the version again.
pub proof fn law_probation_ends_with_another_test(p: Probation)
    ensures
        reevaluation_letter(p).to == "judge"@,
        reevaluation_letter(p).msg_type == "TestRequest"@,
        reevaluation_letter(p).payload.get_text("version"@) == Some(p.version),
        reevaluation_letter(p).payload.get_text("binary_path"@) == Some(p.binary_path),
        reevaluation_letter(p).id == "probation-reeval-"@ + p.envelope_id,
{
    crate::messages::law_test_request_holds_its_parts(p.version, p.binary_path);
}

/// A probation whose version cannot be tested again has failed, which its
/// peripheral is told with the reason.
pub proof fn law_probation_without_a_judge_fails(
    k: Microkernel,
    version: &str,
    id: &str,
    error: &str,
    v: Vec<Action>,
)
    requires
        call_ensures(Microkernel::reevaluation_failed, (&k, version, id, error), v),
    ensures
        acts(v@).len() == 2,
        acts(v@)[0] is Send,
        acts(v@)[0]->Send_0.to == "peripheral"@,
        acts(v@)[0]->Send_0.id == id@,
        acts(v@)[0]->Send_0.payload.get_text("version"@) == Some(version@),
        acts(v@)[0]->Send_0.payload.get("passed"@) == Some(JsonTree::Bool(false)),
        acts(v@)[0]->Send_0.payload.get_text("reason"@) is Some,
        contains_text(acts(v@)[0]->Send_0.payload.get_text("reason"@)->0, error@),
        acts(v@)[1] is Audit,
        acts(v@)[1]->Audit_version == Some(version@),
{
    let reason = "Judge unavailable for re-evaluation: "@ + error@;
    crate::messages::law_probation_ended_holds_its_parts(version@, false, reason);
    assert(reason =~= "Judge unavailable for re-evaluation: "@ + error@ + Seq::<char>::empty());
    law_parts_are_found("Judge unavailable for re-evaluation: "@, error@, Seq::empty(), reason);
}

/// A request for a state is answered to the peer that sent it with the key; a
/// key under which nothing is stored has the value null in schema version 0.
pub proof fn law_requests_for_state_are_answered(
    s: KernelState,
    from: Seq<char>,
    id: Seq<char>,
    key: Seq<char>,
)
    ensures
        ({
            let v = state_answer(s, from, id, key);
            let p = v[0]->Send_0.payload;
            &&& v.len() == 1
            &&& v[0] is Send
            &&& v[0]->Send_0.to == from
            &&& v[0]->Send_0.id == id
            &&& v[0]->Send_0.msg_type == "GetStateResponse"@
            &&& p.get_text("key"@) == Some(key)
            &&& s.store.entries.contains_key(key) ==> p.get("value"@) == Some(
                s.store.entries[key].value,
            ) && p.get("schema_version"@) == Some(
                JsonTree::Number(number_of(s.store.entries[key].schema_version)),
            )
            &&& !s.store.entries.contains_key(key) ==> p.get("value"@) == Some(JsonTree::Null)
                && p.get("schema_version"@) == Some(JsonTree::Number(number_of(0)))
        }),
{
    if s.store.entries.contains_key(key) {
        let e = s.store.entries[key];
        crate::messages::law_get_state_response_holds_its_parts(key, e.value, e.schema_version);
    } else {
        crate::messages::law_get_state_response_holds_its_parts(key, JsonTree::Null, 0);
    }
}

/// An amendment is answered to its proposer with its identifier, or with the
/// reason why it was not carried out, and what was decided is logged.
pub proof fn law_amendments_are_answered(
    from: Seq<char>,
    id: Seq<char>,
    kind: Seq<char>,
    file: Seq<char>,
    outcome: Result<Seq<char>, Seq<char>>,
)
    ensures
        ({
            let v = amendment_acts(from, id, kind, file, outcome);
            let p = v[0]->Send_0.payload;
            let d = v[1]->Audit_details;
            &&& v.len() == 2
            &&& v[0] is Send
            &&& v[0]->Send_0.to == from
            &&& v[0]->Send_0.id == id
            &&& v[0]->Send_0.msg_type == "ConstitutionAmendmentResult"@
            &&& p.get("accepted"@) == Some(JsonTree::Bool(outcome is Ok))
            &&& p.get_text("reason"@) is Some
            &&& outcome is Ok ==> p.get_text("amendment_id"@) == Some(outcome->Ok_0)
                && contains_text(p.get_text("reason"@)->0, outcome->Ok_0)
            &&& outcome is Err ==> p.get_text("amendment_id"@) == Some(Seq::<char>::empty())
                && p.get_text("reason"@) == Some(outcome->Err_0)
            &&& v[1] is Audit
            &&& outcome is Ok ==> v[1]->Audit_event == "constitution_amendment_accepted"@
            &&& outcome is Err ==> v[1]->Audit_event == "constitution_amendment_rejected"@
            &&& d.get_text("amendment_type"@) == Some(kind)
            &&& d.get_text("target_file"@) == Some(file)
            &&& d.get_text("proposed_by"@) == Some(from)
            &&& d.get_text("amendment_id"@) == p.get_text("amendment_id"@)
            &&& d.get_text("reason"@) == p.get_text("reason"@)
        }),
{
    reveal_strlit("accepted");
    reveal_strlit("amendment_id");
    reveal_strlit("reason");
    reveal_strlit("amendment_type");
    reveal_strlit("target_file");
    reveal_strlit("proposed_by");
    assert("accepted"@.len() == 8);
    assert("amendment_id"@.len() == 12);
    assert("reason"@.len() == 6);
    assert("amendment_type"@.len() == 14);
    assert("target_file"@.len() == 11);
    assert("proposed_by"@.len() == 11);
    assert("target_file"@[0] == 't');
    assert("proposed_by"@[0] == 'p');
    if outcome is Ok {
        let a = outcome->Ok_0;
        law_parts_are_found("Amendment "@, a, " approved"@, "Amendment "@ + a + " approved"@);
    }
}

/// An extension of the protocol is answered to its proposer with the new
/// version, or with the reason why it was not adopted, and what was decided is
/// logged.
pub proof fn law_extensions_are_answered(
    from: Seq<char>,
    id: Seq<char>,
    breaking: bool,
    outcome: Result<Seq<char>, Seq<char>>,
)
    ensures
        ({
            let v = extension_acts(from, id, breaking, outcome);
            let p = v[0]->Send_0.payload;
            let d = v[1]->Audit_details;
            &&& v.len() == 2
            &&& v[0] is Send
            &&& v[0]->Send_0.to == from
            &&& v[0]->Send_0.id == id
            &&& v[0]->Send_0.msg_type == "ProtocolExtensionResult"@
            &&& p.get("accepted"@) == Some(JsonTree::Bool(outcome is Ok))
            &&& p.get_text("reason"@) is Some
            &&& outcome is Ok ==> p.get_text("new_protocol_version"@) == Some(outcome->Ok_0)
                && d.get_text("new_version"@) == Some(outcome->Ok_0)
            &&& outcome is Err ==> p.get("new_protocol_version"@) == Some(JsonTree::Null)
                && p.get_text("reason"@) == Some(outcome->Err_0)
            &&& v[1] is Audit
            &&& outcome is Ok ==> v[1]->Audit_event == "protocol_extension_accepted"@
            &&& outcome is Err ==> v[1]->Audit_event == "protocol_extension_rejected"@
            &&& d.get("breaking"@) == Some(JsonTree::Bool(breaking))
            &&& d.get_text("proposed_by"@) == Some(from)
            &&& d.get_text("reason"@) == p.get_text("reason"@)
        }),
{
    reveal_strlit("accepted");
    reveal_strlit("new_protocol_version");
    reveal_strlit("reason");
    reveal_strlit("new_version");
    reveal_strlit("breaking");
    reveal_strlit("proposed_by");
    assert("accepted"@.len() == 8);
    assert("new_protocol_version"@.len() == 20);
    assert("reason"@.len() == 6);
    assert("new_version"@.len() == 11);
    assert("breaking"@.len() == 8);
    assert("proposed_by"@.len() == 11);
    assert("accepted"@[0] == 'a');
    assert("new_version"@[0] == 'n');
    assert("breaking"@[0] == 'b');
    assert("proposed_by"@[0] == 'p');
}

/// A request to store a state is answered to the peer that sent it with the key,
/// whether it was written, and why not.
pub proof fn law_stored_states_are_acknowledged(
    from: Seq<char>,
    id: Seq<char>,
    key: Seq<char>,
    error: Option<Seq<char>>,
)
    ensures
        ({
            let v = stored_answer(from, id, key, error);
            let p = v[0]->Send_0.payload;
            &&& v.len() == 1
            &&& v[0] is Send
            &&& v[0]->Send_0.to == from
            &&& v[0]->Send_0.id == id
            &&& v[0]->Send_0.msg_type == "SetStateAck"@
            &&& p.get_text("key"@) == Some(key)
            &&& p.get("success"@) == Some(JsonTree::Bool(error is None))
            &&& p.get_text("error"@) == error
        }),
{
    crate::messages::law_set_state_ack_holds_its_parts(key, error is None, error);
}

/// A state that was written replaces what stood under its key and nothing else.
pub proof fn law_states_are_stored_under_their_keys(
    s: KernelState,
    key: Seq<char>,
    other: Seq<char>,
    value: JsonTree,
    schema_version: u64,
)
    requires
        other != key,
    ensures
        after_set_state(s, key, value, schema_version, false) == s,
        ({
            let t = after_set_state(s, key, value, schema_version, true);
            &&& t.store.entries.contains_key(key)
            &&& t.store.entries[key].value == value
            &&& t.store.entries[key].schema_version == schema_version
            &&& t.store.entries.contains_key(other) == s.store.entries.contains_key(other)
            &&& s.store.entries.contains_key(other) ==> t.store.entries[other]
                == s.store.entries[other]
            &&& t.leases == s.leases && t.runlevel == s.runlevel && t.versions == s.versions
                && t.probation == s.probation && t.hot_swap == s.hot_swap
        }),
{
}

/// A probation ends exactly when its time is up: it is then over for the
/// peripheral's lease too, and its version is tested again under its message.
pub proof fn law_probations_end_on_time(
    before: KernelState,
    after: KernelState,
    now: u64,
    r: Option<Reevaluation>,
)
    requires
        probation_checked(before, after, now, r),
    ensures
        before.probation is None ==> r is None && after == before,
        before.probation is Some && before.probation->0.duration > 0 ==> (r is Some <==> now
            >= before.probation->0.started_at + before.probation->0.duration),
        r is None ==> after == before,
        r is Some ==> {
            &&& after.probation is None
            &&& r->0.version@ == before.probation->0.version
            &&& r->0.envelope_id@ == before.probation->0.envelope_id
            &&& r->0.request@.to == "judge"@
            &&& r->0.request@.payload.get_text("version"@) == Some(before.probation->0.version)
            &&& before.leases.leases.contains_key("peripheral"@)
                ==> !after.leases.leases["peripheral"@].probation
            &&& after.runlevel == before.runlevel && after.hot_swap == before.hot_swap
        },
{
    if r is Some {
        law_probation_ends_with_another_test(before.probation->0);
    }
}

/// The outcome for a proposer is what came out.
pub proof fn law_outcomes_for_proposers(r: Result<String, String>)
    ensures
        r is Ok ==> outcome_text(r) == Ok::<Seq<char>, Seq<char>>(r->Ok_0@),
        r is Err ==> outcome_text(r) == Err::<Seq<char>, Seq<char>>(r->Err_0@),
{
}

} // verus!
