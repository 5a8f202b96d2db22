use reloopy::capability::EscalationViolation;
use reloopy::constitution::ConstitutionManager;
use reloopy::json::Json;
use reloopy::kernel::{
    audit_envelope, Action, BootConfig, CapabilityRegistry, HotSwapState, Microkernel,
};
use reloopy::messages::{
    CompileResult, ConstitutionAmendmentProposal, Envelope, GetState, HealthReport, Hello,
    InvariantResult, ProtocolExtensionProposal, RunlevelRequest, SetState, TestResult, TestVerdict,
};
use reloopy::protocol::ProtocolManager;
use reloopy::requests::{handle_message, Handling};
use reloopy::resource::LimitReading;
use reloopy::runlevel::Runlevel;
use reloopy::update::{CompileNext, SubmitNext, SubmitStep, SwitchEvent, SwitchNeed};

fn json(text: &str) -> Json {
    match Json::parse(text) {
        Ok(j) => j,
        Err(e) => panic!("{}: {}", text, e),
    }
}

fn kernel() -> Microkernel {
    let constitution = ConstitutionManager::new("/h/.reloopy", vec![7; 32], None);
    Microkernel::new(BootConfig::for_home("/h"), constitution, ProtocolManager::new(None))
}

/// An action on one line.
fn show(a: &Action) -> String {
    let letter = |e: &Envelope| format!("{}/{} {}", e.msg_type, e.id, e.payload.compact());
    match a {
        Action::Send(e) => format!("send {} {}", e.to, letter(e)),
        Action::Broadcast(e) => format!("broadcast {}", letter(e)),
        Action::Audit { event, version, details } => {
            format!("audit {} {:?} {}", event, version.as_deref(), details.compact())
        }
        Action::RemovePeer(p) => format!("remove {}", p),
        Action::Finalize { version, envelope_id } => format!("finalize {} {}", version, envelope_id),
        Action::SpawnPeripheral { binary, version, old_version } => {
            format!("spawn {} {} {}", binary, version, old_version)
        }
        Action::RollBack => "roll back".to_string(),
        Action::RollBackAndSpawn { binary, version } => {
            format!("roll back and spawn {} {}", binary, version)
        }
    }
}

fn shown(v: Vec<Action>) -> Vec<String> {
    v.iter().map(show).collect()
}

fn hello(capabilities: &str) -> Hello {
    Hello {
        protocol_version: "1.0".to_string(),
        capabilities: json(capabilities),
        http_port: None,
    }
}

#[test]
fn boot_lives_below_the_home_directory() {
    let c = BootConfig::for_home("/h");
    assert_eq!(c.base_dir, "/h/.reloopy");
    assert_eq!(c.sock_path, "/h/.reloopy/reloopy.sock");
    assert_eq!(c.lease_check_interval, 5_000);
    assert_eq!(c.resource_limits.max_memory_mb, 512);
}

#[test]
fn roles_must_declare_their_capabilities() {
    let check = |role: &str, caps: &str| CapabilityRegistry::validate(role, &json(caps));
    assert_eq!(check("judge", r#"["score", 1, "test"]"#), Ok(()));
    assert_eq!(
        check("judge", r#"["test"]"#),
        Err("Role 'judge' requires capability 'score' but it was not declared".to_string())
    );
    assert_eq!(check("compiler", "{}"), Err("capabilities must be a JSON array".to_string()));
    assert_eq!(check("nobody", "[]"), Err("Unknown role: nobody".to_string()));
    assert_eq!(
        CapabilityRegistry::required_capabilities("audit"),
        Some(vec!["log_write", "log_query"])
    );
}

#[test]
fn handshakes_are_answered() {
    let mut k = kernel();
    assert_eq!(
        shown(k.handle_hello("peripheral", "m1", &hello("[\"agent\"]"), 0)),
        vec!["send peripheral Welcome/m1 {\"accepted_capabilities\":[\"agent\"],\"runlevel\":2}"]
    );
    assert_eq!(
        shown(k.handle_hello("peripheral", "m1", &hello("[]"), 0)),
        vec!["remove peripheral"]
    );
    assert!(k.handshake_complete("peripheral").is_empty());
}

fn health(memory_mb: u64) -> Option<(HealthReport, LimitReading)> {
    let report = HealthReport {
        runlevel: 2,
        memory_bytes: memory_mb * 1024 * 1024,
        cpu_bits: 1f64.to_bits(),
        tasks_processed: 0,
    };
    let cpu = LimitReading {
        over_max: false,
        over_soft: false,
        current: "1.0".to_string(),
        max: "80.0".to_string(),
        soft: "64.0".to_string(),
    };
    Some((report, cpu))
}

#[test]
fn renewals_are_acknowledged() {
    let mut k = kernel();
    assert!(k.handle_lease_renew("compiler", "r", None, 0, 0).is_empty());
    k.handle_hello("compiler", "h", &hello("[\"compile\"]"), 0);
    assert_eq!(
        shown(k.handle_lease_renew("compiler", "r", health(1), 5, 1_000)),
        vec!["send compiler LeaseAck/r {\"next_deadline_ms\":11000}"]
    );
}

#[test]
fn resource_hogs_degrade_the_system() {
    let mut k = kernel();
    k.handle_hello("compiler", "h", &hello("[\"compile\"]"), 0);
    let alert = "audit resource_violation None {\"current_value\":\"600.0\",\
                 \"limit_value\":\"512.0\",\"peer\":\"compiler\",\"resource\":\"memory_mb\",\
                 \"severity\":\"hard\"}";
    for _ in 0..2 {
        let told = shown(k.handle_lease_renew("compiler", "r", health(600), 5, 0));
        assert_eq!(told.len(), 2);
        assert_eq!(told[0], alert);
    }
    let told = shown(k.handle_lease_renew("compiler", "r", health(600), 5, 0));
    assert_eq!(told.len(), 4);
    assert_eq!(
        told[1],
        "broadcast RunlevelChange/ {\"from\":2,\"reason\":\"Peer 'compiler' exceeded resource hard \
         limits consecutively\",\"to\":1}"
    );
    assert_eq!(
        told[2],
        "audit runlevel_change None {\"automatic\":true,\"from\":2,\"reason\":\"Peer 'compiler' \
         exceeded resource hard limits consecutively\",\"to\":1}"
    );
    assert!(matches!(k.runlevel_manager.current(), Runlevel::Safe));
}

#[test]
fn two_deaths_lead_to_safe_mode() {
    let mut k = kernel();
    assert_eq!(shown(k.handle_dead_peer("a")), vec!["remove a"]);
    let told = shown(k.handle_dead_peer("b"));
    assert_eq!(told[0], "remove b");
    assert!(told[1].starts_with("broadcast RunlevelChange/ {\"from\":2,\"reason\":\"Peer 'b' dead"));
    assert!(matches!(k.runlevel_manager.current(), Runlevel::Safe));
}

#[test]
fn silent_peers_die() {
    let mut k = kernel();
    k.handle_hello("compiler", "h", &hello("[\"compile\"]"), 0);
    assert!(k.check_leases(9_999).is_empty());
    assert!(k.check_leases(12_000).is_empty());
    assert!(k.check_leases(14_000).is_empty());
    assert_eq!(shown(k.check_leases(15_000)), vec!["remove compiler"]);
    assert!(k.check_leases(20_000).is_empty());
}

fn rejected(r: SubmitNext) -> String {
    match r {
        SubmitNext::Reject(a) => show(&a),
        _ => panic!("not rejected"),
    }
}

fn rejection(to: &str, id: &str, version: &str, reason: &str) -> String {
    format!(
        "send {} UpdateRejected/{} {{\"allows_patch_retry\":false,\"attempt\":0,\"errors\":null,\
         \"reason\":\"{}\",\"version\":\"{}\"}}",
        to, id, reason, version
    )
}

#[test]
fn submissions_go_to_the_compiler() {
    let k = kernel();
    assert!(matches!(
        k.handle_submit_update("peripheral", "u", SubmitStep::Received),
        SubmitNext::AllocateVersion
    ));
    let info = k.version_manager.version_info("V4".to_string());
    let next = k.handle_submit_update("peripheral", "u", SubmitStep::Allocated(Ok(info.clone())));
    assert!(matches!(next, SubmitNext::CopySource(i) if i.version == "V4"));
    let copied = SubmitStep::Copied { info: info.clone(), outcome: Ok(()) };
    match k.handle_submit_update("peripheral", "u", copied) {
        SubmitNext::Request { version, request } => {
            assert_eq!(version, "V4");
            assert_eq!(
                show(&Action::Send(request)),
                "send compiler CompileRequest/u {\"attempt\":1,\
                 \"output_path\":\"/h/.reloopy/peripheral/V4/target\",\
                 \"source_path\":\"/h/.reloopy/peripheral/source\",\"version\":\"V4\"}"
            );
        }
        _ => panic!("no request"),
    }
    let sent = SubmitStep::Requested { version: "V4".to_string(), outcome: Ok(()) };
    assert!(matches!(k.handle_submit_update("peripheral", "u", sent), SubmitNext::Done));
}

#[test]
fn submissions_can_be_rejected_on_the_way() {
    let mut k = kernel();
    let info = k.version_manager.version_info("V4".to_string());
    let e = || Err("e".to_string());
    assert_eq!(
        rejected(k.handle_submit_update("p", "u", SubmitStep::Allocated(Err("e".to_string())))),
        rejection("p", "u", "", "Failed to allocate version: e")
    );
    let step = SubmitStep::Copied { info, outcome: e() };
    assert_eq!(
        rejected(k.handle_submit_update("p", "u", step)),
        rejection("p", "u", "V4", "Failed to copy source: e")
    );
    let step = SubmitStep::Requested { version: "V4".to_string(), outcome: e() };
    assert_eq!(
        rejected(k.handle_submit_update("p", "u", step)),
        rejection("p", "", "V4", "Compiler service unavailable: e")
    );
    for _ in 0..3 {
        k.version_manager.record_failure();
    }
    assert_eq!(
        rejected(k.handle_submit_update("p", "u", SubmitStep::Received)),
        rejection("p", "u", "", "Version manager locked due to consecutive failures")
    );
    k.attempt_runlevel_transition(Runlevel::Safe, "r", false);
    assert_eq!(
        rejected(k.handle_submit_update("p", "u", SubmitStep::Received)),
        rejection("p", "u", "", "Updates not allowed in Safe mode")
    );
}

fn compiled(success: bool) -> CompileResult {
    CompileResult {
        version: "V2".to_string(),
        success,
        binary_path: Some("/t/bin".to_string()),
        errors: Some("E".to_string()),
    }
}

#[test]
fn compilation_results_lead_on() {
    let mut k = kernel();
    match k.handle_compile_result("c", &compiled(false)) {
        CompileNext::Failed(v) => assert_eq!(
            shown(v),
            vec![
                "send peripheral UpdateRejected/c {\"allows_patch_retry\":false,\"attempt\":0,\
                 \"errors\":\"E\",\"reason\":\"Compilation failed\",\"version\":\"V2\"}"
            ]
        ),
        _ => panic!("must fail"),
    }
    match k.handle_compile_result("c", &compiled(true)) {
        CompileNext::Test { binary, target, request } => {
            assert_eq!(binary.as_deref(), Some("/t/bin"));
            assert_eq!(target, "/h/.reloopy/peripheral/V2/binary");
            assert_eq!(
                show(&Action::Send(request)),
                "send judge TestRequest/c {\"binary_path\":\"/h/.reloopy/peripheral/V2/binary\",\
                 \"version\":\"V2\"}"
            );
        }
        _ => panic!("must be tested"),
    }
    assert_eq!(
        shown(k.test_requested("c", "V2", Ok(()))),
        vec!["audit compilation_succeeded Some(\"V2\") {}"]
    );
    assert_eq!(
        shown(k.test_requested("c", "V2", Err("gone".to_string()))),
        vec!["finalize V2 c", "audit compilation_succeeded Some(\"V2\") {}"]
    );
}

fn tested(verdict: TestVerdict) -> TestResult {
    let result = |id: &str, passed: bool| InvariantResult {
        test_id: id.to_string(),
        passed,
        detail: None,
    };
    TestResult {
        version: "V2".to_string(),
        verdict,
        invariant_results: vec![result("a", true), result("b", false)],
        dimension_scores: json("[]"),
        overall_score: json("0.9"),
        suggestion: Some("s".to_string()),
    }
}

#[test]
fn test_results_lead_to_switch_probation_or_rejection() {
    let mut k = kernel();
    assert_eq!(
        shown(k.handle_test_result("t", &tested(TestVerdict::Pass), 0)),
        vec![
            "audit test_passed Some(\"V2\") {\"dimension_scores\":[],\"overall_score\":0.9}",
            "finalize V2 t"
        ]
    );
    assert_eq!(
        shown(k.handle_test_result("t", &tested(TestVerdict::HardFail), 0)),
        vec![
            "send peripheral UpdateRejected/t {\"allows_patch_retry\":true,\"attempt\":0,\
             \"errors\":null,\"failed_tests\":[\"b\"],\"reason\":\"Test suite failed\",\
             \"scores\":[],\"suggestion\":\"s\",\"version\":\"V2\"}",
            "audit update_rejected Some(\"V2\") {\"failed_tests\":[\"b\"],\"overall_score\":0.9,\
             \"reason\":\"Test suite hard fail\"}"
        ]
    );
    k.handle_hello("peripheral", "h", &hello("[\"agent\"]"), 0);
    assert_eq!(
        shown(k.handle_test_result("t", &tested(TestVerdict::SoftFail), 100)),
        vec![
            "send peripheral ProbationStarted/t {\"constraints\":{\"heartbeat_interval_secs\":5,\
             \"resource_quota_multiplier\":0.5},\"duration_secs\":3600,\"version\":\"V2\"}",
            "audit probation_started Some(\"V2\") {\"duration_secs\":3600,\"overall_score\":0.9,\
             \"suggestion\":\"s\"}"
        ]
    );
    assert!(k.is_on_probation("peripheral"));
    assert!(!k.is_on_probation("judge"));
    assert!(k.check_probation(3_600_099).is_none());
    let again = k.check_probation(3_600_100).unwrap();
    assert_eq!(again.version, "V2");
    assert_eq!(
        show(&Action::Send(again.request)),
        "send judge TestRequest/probation-reeval-t \
         {\"binary_path\":\"/h/.reloopy/peripheral/V2/binary\",\"version\":\"V2\"}"
    );
    assert!(!k.is_on_probation("peripheral"));
    assert_eq!(
        shown(k.reevaluation_failed("V2", "t", "gone")),
        vec![
            "send peripheral ProbationEnded/t {\"passed\":false,\
             \"reason\":\"Judge unavailable for re-evaluation: gone\",\"version\":\"V2\"}",
            "audit probation_failed Some(\"V2\") \
             {\"reason\":\"Judge unavailable for re-evaluation\"}"
        ]
    );
}

fn event(k: &mut Microkernel, e: SwitchEvent) -> (SwitchNeed, Vec<String>) {
    let (need, actions) = k.finalize_version_switch("V2", "f", "V1", e, 50);
    (need, shown(actions))
}

#[test]
fn switches_take_their_steps() {
    let mut k = kernel();
    let started = SwitchEvent::Started(Some("V1".to_string()));
    assert!(matches!(event(&mut k, started).0, SwitchNeed::CompareCapabilities));
    let (need, _) = k.finalize_version_switch("V2", "f", "", SwitchEvent::Started(None), 50);
    assert!(matches!(need, SwitchNeed::SwitchVersion));
    assert!(matches!(
        event(&mut k, SwitchEvent::Compared(Ok(vec![]))).0,
        SwitchNeed::BeginMigration
    ));
    assert!(matches!(
        event(&mut k, SwitchEvent::Compared(Err("e".to_string()))).0,
        SwitchNeed::BeginMigration
    ));
    assert!(matches!(
        event(&mut k, SwitchEvent::MigrationBegun(Ok(()))).0,
        SwitchNeed::CommitMigration
    ));
    assert!(matches!(
        event(&mut k, SwitchEvent::MigrationBegun(Err("e".to_string()))).0,
        SwitchNeed::SwitchVersion
    ));
    assert!(matches!(
        event(&mut k, SwitchEvent::MigrationCommitted(Ok(()))).0,
        SwitchNeed::SwitchVersion
    ));
    let (need, told) = event(&mut k, SwitchEvent::Switched(Ok("V1".to_string())));
    assert!(matches!(need, SwitchNeed::FindBinary));
    assert_eq!(
        told,
        vec![
            "send peripheral UpdateAccepted/f {\"version\":\"V2\"}",
            "audit update_accepted Some(\"V2\") {}"
        ]
    );
    let (need, told) = event(&mut k, SwitchEvent::BinaryFound(true));
    assert!(matches!(need, SwitchNeed::Nothing));
    assert_eq!(
        told,
        vec![
            "send peripheral Shutdown/ {\"grace_ms\":5000,\
             \"reason\":\"Hot replacement: upgrading to V2\"}"
        ]
    );
    assert!(matches!(k.hot_swap, HotSwapState::WaitingForOldDisconnect { .. }));
}

#[test]
fn switches_can_be_refused() {
    let mut k = kernel();
    let found = vec![
        EscalationViolation::NetworkEscalation,
        EscalationViolation::ChildProcessEscalation { old: 0, new: 1 },
    ];
    let (need, told) = event(&mut k, SwitchEvent::Compared(Ok(found)));
    assert!(matches!(need, SwitchNeed::Nothing));
    assert_eq!(
        told,
        vec![
            "audit capability_escalation_blocked Some(\"V2\") {\"version\":\"V2\",\"violations\":\
             [\"Network access escalation (was denied)\",\
             \"Child process limit escalation: 0 -> 1\"]}",
            "send peripheral UpdateRejected/f {\"allows_patch_retry\":true,\"attempt\":0,\
             \"errors\":\"Network access escalation (was denied); \
             Child process limit escalation: 0 -> 1\",\
             \"reason\":\"Capability escalation requires human approval\",\"version\":\"V2\"}"
        ]
    );
    assert_eq!(
        event(&mut k, SwitchEvent::MigrationCommitted(Err("e".to_string()))).1,
        vec![rejection("peripheral", "f", "V2", "State migration failed: e")]
    );
    assert_eq!(
        event(&mut k, SwitchEvent::Switched(Err("e".to_string()))).1,
        vec![rejection("peripheral", "f", "V2", "Version switch failed: e")]
    );
    assert!(event(&mut k, SwitchEvent::BinaryFound(false)).1.is_empty());
    assert!(matches!(k.hot_swap, HotSwapState::Idle));
}

fn swapping() -> Microkernel {
    let mut k = kernel();
    event(&mut k, SwitchEvent::BinaryFound(true));
    k
}

#[test]
fn hot_swaps_complete() {
    let mut k = swapping();
    assert_eq!(
        shown(k.handle_dead_peer("peripheral")),
        vec!["remove peripheral", "spawn /h/.reloopy/peripheral/V2/binary V2 V1"]
    );
    assert_eq!(k.runlevel_manager.consecutive_crashes(), 0);
    assert!(k.peripheral_spawned("V2", "V1", Ok(()), 60).is_empty());
    assert!(matches!(k.hot_swap, HotSwapState::WaitingForNewHandshake { .. }));
    assert!(k.handshake_complete("judge").is_empty());
    assert_eq!(
        shown(k.handshake_complete("peripheral")),
        vec!["audit hot_swap_complete Some(\"V2\") {}"]
    );
    assert!(matches!(k.hot_swap, HotSwapState::Idle));
    assert!(k.advance_hot_swap_after_disconnect().is_empty());
}

#[test]
fn hot_swaps_have_their_timeouts() {
    let mut k = swapping();
    assert!(k.check_hot_swap(15_050).is_empty());
    assert_eq!(
        shown(k.check_hot_swap(15_051)),
        vec!["remove peripheral", "spawn /h/.reloopy/peripheral/V2/binary V2 V1"]
    );
    k.peripheral_spawned("V2", "V1", Ok(()), 100);
    assert!(k.check_hot_swap(60_100).is_empty());
    assert_eq!(
        shown(k.check_hot_swap(60_101)),
        vec![
            "roll back and spawn /h/.reloopy/peripheral/V1/binary V1",
            "audit hot_swap_timeout_rollback Some(\"V2\") {\"rolled_back_to\":\"V1\"}"
        ]
    );
    assert!(matches!(k.hot_swap, HotSwapState::Idle));
    assert_eq!(
        shown(k.peripheral_spawned("V2", "V1", Err("no".to_string()), 0)),
        vec!["roll back", "audit hot_swap_failed Some(\"V2\") {\"error\":\"no\"}"]
    );
}

#[test]
fn runlevels_change_on_request() {
    let mut k = kernel();
    let ask = |to: u8| RunlevelRequest { to, reason: "why".to_string() };
    assert_eq!(
        shown(k.handle_runlevel_request("admin", "r", &ask(9))),
        vec![
            "send admin RunlevelRequestResult/r {\"accepted\":false,\"from\":2,\
             \"reason\":\"Invalid runlevel: 9\",\"to\":9}"
        ]
    );
    assert_eq!(
        shown(k.handle_runlevel_request("admin", "r", &ask(3))),
        vec![
            "send admin RunlevelRequestResult/r {\"accepted\":true,\"from\":2,\"reason\":\"why\",\
             \"to\":3}",
            "broadcast RunlevelChange/ {\"from\":2,\"reason\":\"why\",\"to\":3}",
            "audit runlevel_change None {\"from\":2,\"reason\":\"why\",\"requested_by\":\"admin\",\
             \"to\":3}"
        ]
    );
    assert!(k.check_resource_based_transitions(true, "10.0").is_empty());
    assert_eq!(
        shown(k.check_resource_based_transitions(false, "91.5"))[0],
        "broadcast RunlevelChange/ {\"from\":3,\"reason\":\"Resource pressure too high for evolve \
         mode (avg CPU: 91.5%)\",\"to\":2}"
    );
    let told = shown(k.handle_runlevel_request("admin", "r", &ask(0)));
    assert_eq!(
        told[3],
        "broadcast Shutdown/ {\"grace_ms\":5000,\"reason\":\"System entering Halt runlevel\"}"
    );
    assert_eq!(
        shown(k.handle_runlevel_request("admin", "r", &ask(2))),
        vec![
            "send admin RunlevelRequestResult/r {\"accepted\":false,\"from\":0,\"reason\":\
             \"Invalid runlevel transition: Halt → Normal (reason: Requested by admin: why)\",\
             \"to\":2}"
        ]
    );
}

#[test]
fn state_is_stored_and_read_back() {
    let mut k = kernel();
    let get = GetState { key: "k".to_string() };
    assert_eq!(
        shown(k.handle_get_state("p", "g", &get)),
        vec!["send p GetStateResponse/g {\"key\":\"k\",\"schema_version\":0,\"value\":null}"]
    );
    let set = || SetState { key: "k".to_string(), value: json("[1]"), schema_version: 4 };
    assert_eq!(
        shown(k.handle_set_state("p", "s", set(), Err("full".to_string()))),
        vec!["send p SetStateAck/s {\"error\":\"full\",\"key\":\"k\",\"success\":false}"]
    );
    assert!(k.state_store.get("k").is_none());
    assert_eq!(
        shown(k.handle_set_state("p", "s", set(), Ok(()))),
        vec!["send p SetStateAck/s {\"error\":null,\"key\":\"k\",\"success\":true}"]
    );
    assert_eq!(
        shown(k.handle_get_state("p", "g", &get)),
        vec!["send p GetStateResponse/g {\"key\":\"k\",\"schema_version\":4,\"value\":[1]}"]
    );
    let other = GetState { key: "other".to_string() };
    assert_eq!(
        shown(k.handle_get_state("p", "g", &other)),
        vec!["send p GetStateResponse/g {\"key\":\"other\",\"schema_version\":0,\"value\":null}"]
    );
}

#[test]
fn amendments_are_answered() {
    let k = kernel();
    let proposal = ConstitutionAmendmentProposal {
        amendment_type: "add_test".to_string(),
        target_file: "invariants.json".to_string(),
        description: "d".to_string(),
        changes: json("{}"),
        signature: "s".to_string(),
    };
    assert_eq!(
        shown(k.handle_constitution_amendment("p", "a", &proposal, Ok("amendment-0001".to_string()))),
        vec![
            "send p ConstitutionAmendmentResult/a {\"accepted\":true,\
             \"amendment_id\":\"amendment-0001\",\
             \"reason\":\"Amendment amendment-0001 approved\"}",
            "audit constitution_amendment_accepted None {\"amendment_id\":\"amendment-0001\",\
             \"amendment_type\":\"add_test\",\"proposed_by\":\"p\",\
             \"reason\":\"Amendment amendment-0001 approved\",\"target_file\":\"invariants.json\"}"
        ]
    );
    let told = shown(k.handle_constitution_amendment("p", "a", &proposal, Err("no".to_string())));
    assert_eq!(
        told[0],
        "send p ConstitutionAmendmentResult/a {\"accepted\":false,\"amendment_id\":\"\",\
         \"reason\":\"no\"}"
    );
    assert!(told[1].starts_with("audit constitution_amendment_rejected None "));
}

#[test]
fn extensions_are_decided_by_signature() {
    let mut k = kernel();
    let mut proposal = ProtocolExtensionProposal {
        new_messages: json(r#"{"Hello": {}}"#),
        breaking: true,
        description: "d".to_string(),
        signature: None,
    };
    assert!(k.decide_protocol_extension(&proposal, 1).is_err());
    proposal.signature = Some("00".to_string());
    assert!(k.decide_protocol_extension(&proposal, 1).is_err());
    let payload = "protocol_extension:d:{\"Hello\":{}}";
    proposal.signature = k.constitution_manager.compute_signature(payload).ok();
    let entry = k.decide_protocol_extension(&proposal, 1).ok().unwrap();
    assert_eq!(entry.new_version, "2.0");
    assert_eq!(
        shown(k.handle_protocol_extension("p", "x", true, Ok("2.0".to_string()))),
        vec![
            "send p ProtocolExtensionResult/x {\"accepted\":true,\"new_protocol_version\":\"2.0\",\
             \"reason\":\"Protocol updated to 2.0\"}",
            "audit protocol_extension_accepted None {\"breaking\":true,\"new_version\":\"2.0\",\
             \"proposed_by\":\"p\",\"reason\":\"Protocol updated to 2.0\"}"
        ]
    );
    assert!(shown(k.handle_protocol_extension("p", "x", true, Err("no".to_string())))[1]
        .starts_with("audit protocol_extension_rejected None {\"breaking\":true,\"new_version\":null"));
}

#[test]
fn messages_are_sorted() {
    assert_eq!(handle_message("Hello"), Handling::Hello);
    assert_eq!(handle_message("SetState"), Handling::SetState);
    assert_eq!(handle_message("Welcome"), Handling::WrongDirection);
    assert_eq!(handle_message("Echo"), Handling::Unknown);
}

#[test]
fn audit_entries_carry_the_time() {
    let e = audit_envelope(77, "x".to_string(), None, json("{}"));
    assert_eq!(
        show(&Action::Send(e)),
        "send audit AuditLog/ {\"details\":{},\"event\":\"x\",\"timestamp\":\"77\",\"version\":null}"
    );
}
