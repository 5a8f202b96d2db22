use reloopy::admin::{
    admin_envelope, agent_url, expand_tilde, expect_type, format_audit, format_audit_entry,
    format_cleanup, format_peers, format_rollback, format_runlevel, format_runlevel_result,
    format_shutdown, format_status, format_unlock, format_version_detail, format_versions,
    make_admin_hello, next_id, quick_evolve_allowed, quick_evolve_patch, runlevel_name, PeerRow,
    PATCH_NEW, PATCH_OLD,
};
use reloopy::compiler::{build_arguments, compile_result, Compilation, CompilerState};
use reloopy::json::Json;
use reloopy::judge::{
    build_hard_fail_suggestion, build_test_result, echo_request, passed_count, refuse_request,
    test_echo, test_handshake, test_heartbeat, welcome_candidate, EchoStep, InvariantRunner,
    InvariantSpec, InvariantsConfig, Regression, ScoredDimension, ScoringResult, TestKind,
    TestOutcome,
};
use reloopy::messages::{
    AdminAuditQueryResponse, AdminCleanupVersionsResponse, AdminForceRollbackResponse,
    AdminListVersionsResponse, AdminShutdownResponse, AdminStatusResponse,
    AdminUnlockVersionResponse, AdminVersionDetailResponse, AuditLog, CompileRequest, Envelope, InvariantResult,
    RunlevelRequestResult, TestVerdict, VersionEntry,
};
use reloopy::service::{sort_message, ServiceClient, ServiceMessage};

fn json(text: &str) -> Json {
    match Json::parse(text) {
        Ok(j) => j,
        Err(e) => panic!("{}: {}", text, e),
    }
}

fn envelope(msg_type: &str, payload: &str) -> Envelope {
    Envelope {
        from: "x".to_string(),
        to: "y".to_string(),
        msg_type: msg_type.to_string(),
        id: "7".to_string(),
        payload: json(payload),
    }
}

// Services

#[test]
fn services_introduce_themselves() {
    let mut c = ServiceClient::new("judge", vec!["test".to_string(), "score".to_string()]);
    let hello = c.hello();
    assert_eq!(hello.id, "judge-1");
    assert_eq!(
        hello.payload.compact(),
        "{\"capabilities\":[\"test\",\"score\"],\"protocol_version\":\"1.0\"}"
    );
    assert_eq!(
        c.welcomed(&envelope("Bye", "[1]"), 2),
        Err("Expected Welcome, got: Bye (payload: [1])".to_string())
    );
    assert_eq!(c.welcomed(&envelope("Welcome", "{}"), 2), Ok(()));
    c.task_done();
    let beat = c.heartbeat();
    assert_eq!(beat.id, "judge-2");
    assert_eq!(
        beat.payload.compact(),
        "{\"health\":{\"cpu_percent\":0.0,\"memory_bytes\":0,\"runlevel\":2,\"tasks_processed\":1}}"
    );
    let answer = c.answer(&envelope("TestRequest", "{}"), "TestResult", json("{}"));
    assert_eq!((answer.from.as_str(), answer.to.as_str()), ("judge", "x"));
    assert_eq!((answer.id.as_str(), answer.msg_type.as_str()), ("7", "TestResult"));
    assert_eq!(c.new_msg_id(), "judge-3");
}

#[test]
fn services_sort_their_messages() {
    let sort = |t: &str| sort_message(t, "AuditLog");
    assert_eq!(sort("LeaseAck"), ServiceMessage::LeaseAck);
    assert_eq!(sort("Shutdown"), ServiceMessage::Shutdown);
    assert_eq!(sort("RunlevelChange"), ServiceMessage::RunlevelChange);
    assert_eq!(sort("AuditLog"), ServiceMessage::Task);
    assert_eq!(sort("TestRequest"), ServiceMessage::Unhandled);
}

// Compiler

#[test]
fn one_compilation_at_a_time() {
    let mut s = CompilerState::new();
    assert!(s.begin("V1").is_none());
    let busy = s.begin("V2").unwrap();
    assert_eq!(busy.version, "V2");
    assert_eq!(
        busy.errors.as_deref(),
        Some("Compiler busy — compilation already in progress")
    );
    s.finished();
    assert!(s.begin("V2").is_none());
}

#[test]
fn compilations_are_reported() {
    let request = CompileRequest {
        version: "V1".to_string(),
        source_path: "/s".to_string(),
        output_path: "/o".to_string(),
        attempt: 1,
    };
    let ok = compile_result(Ok(&request), Compilation::Succeeded);
    assert!(ok.success && ok.errors.is_none());
    assert_eq!(ok.binary_path.as_deref(), Some("/o/release/reloopy-peripheral"));
    let errors = |c: Compilation| compile_result(Ok(&request), c).errors.unwrap();
    assert_eq!(errors(Compilation::NoSource), "Source path does not exist: /s");
    assert_eq!(errors(Compilation::NotRun("e".to_string())), "Failed to invoke cargo: e");
    assert_eq!(errors(Compilation::Failed("E".to_string())), "E");
    let bad = compile_result(Err("no field"), Compilation::Succeeded);
    assert!(!bad.success && bad.version.is_empty());
    assert_eq!(bad.errors.as_deref(), Some("Invalid CompileRequest payload: no field"));
    assert_eq!(
        build_arguments("/o"),
        vec!["build", "--release", "-p", "reloopy-peripheral", "--target-dir", "/o"]
    );
}

// Judge

fn spec(test_type: &str) -> InvariantSpec {
    InvariantSpec {
        id: "t1".to_string(),
        name: "n".to_string(),
        description: "d".to_string(),
        timeout_secs: 12,
        test_type: test_type.to_string(),
    }
}

#[test]
fn tests_have_kinds() {
    let kind = |t: &str| InvariantRunner::execute_test(&spec(t));
    assert_eq!(kind("handshake"), Ok(TestKind::Handshake));
    assert_eq!(kind("echo"), Ok(TestKind::Echo));
    assert_eq!(kind("heartbeat"), Ok(TestKind::Heartbeat));
    assert_eq!(kind("x"), Err("Unknown test type: x".to_string()));
    let config = InvariantsConfig { version: "1".to_string(), tests: vec![spec("echo")] };
    assert_eq!(InvariantRunner::new(config).tests().len(), 1);
}

#[test]
fn outcomes_become_results() {
    let run = |o: TestOutcome| InvariantRunner::run_single(&spec("echo"), o);
    assert!(run(TestOutcome::Passed).passed);
    let failed = run(TestOutcome::Failed("e".to_string()));
    assert!(!failed.passed);
    assert_eq!(failed.detail.as_deref(), Some("e"));
    assert_eq!(
        run(TestOutcome::TimedOut).detail.as_deref(),
        Some("Test timed out after 12s")
    );
}

#[test]
fn candidates_are_put_to_the_test() {
    let welcome = welcome_candidate(&envelope("Hello", "{}"));
    assert_eq!(welcome.payload.compact(), "{\"accepted_capabilities\":[],\"runlevel\":2}");
    assert_eq!((welcome.to.as_str(), welcome.id.as_str()), ("x", "7"));
    assert_eq!(test_handshake("Hello", None), Ok(()));
    assert_eq!(test_handshake("Hi", None), Err("Expected Hello, got: Hi".to_string()));
    assert_eq!(
        test_handshake("Hello", Some("e".to_string())),
        Err("Invalid Hello payload: e".to_string())
    );
    assert_eq!(test_heartbeat("LeaseRenew", None), Ok(()));
    assert_eq!(test_heartbeat("Hi", None), Err("Expected LeaseRenew, got: Hi".to_string()));
    assert_eq!(
        test_heartbeat("LeaseRenew", Some("e".to_string())),
        Err("Invalid LeaseRenew payload: e".to_string())
    );
    let ping = echo_request("p");
    assert_eq!((ping.id.as_str(), ping.msg_type.as_str()), ("echo-test-1", "Echo"));
    let good = envelope("EchoResponse", "{\"echo\":\"ping\"}");
    assert!(matches!(test_echo(&good, true), EchoStep::Passed));
    let beat = envelope("LeaseRenew", "{}");
    assert!(matches!(test_echo(&beat, true), EchoStep::ReadAgain));
    assert!(matches!(
        test_echo(&beat, false),
        EchoStep::Failed(m) if m == "Unexpected echo response: type=LeaseRenew, payload={}"
    ));
    let bad = envelope("EchoResponse", "{\"echo\":\"ping\",\"x\":1}");
    assert!(matches!(
        test_echo(&bad, true),
        EchoStep::Failed(m)
            if m == "Unexpected response: type=EchoResponse, payload={\"echo\":\"ping\",\"x\":1}"
    ));
}

fn result(id: &str, passed: bool, detail: Option<&str>) -> InvariantResult {
    InvariantResult {
        test_id: id.to_string(),
        passed,
        detail: detail.map(|d| d.to_string()),
    }
}

fn scoring(below: bool, below_min: bool) -> ScoringResult {
    ScoringResult {
        dimensions: vec![ScoredDimension {
            name: "speed".to_string(),
            below,
            score: "0.50".to_string(),
            threshold: "0.70".to_string(),
        }],
        dimension_scores: json("[{\"name\":\"speed\"}]"),
        overall_score: json("0.5"),
        overall_text: "0.50".to_string(),
        below_overall_min: below_min,
    }
}

#[test]
fn results_are_proportionate() {
    let fine = vec![result("a", true, None)];
    let broken = vec![result("a", true, None), result("b", false, Some("why")), result("c", false, None)];
    let regressed = Some(Regression {
        regressed: true,
        old_text: "0.90".to_string(),
        tolerance_text: "0.05".to_string(),
    });
    let r = build_test_result("V1", &broken, &scoring(true, true), &regressed);
    assert!(matches!(r.verdict, TestVerdict::HardFail));
    assert_eq!(
        r.suggestion.as_deref(),
        Some(
            "Failed invariant tests: [b, c];   b: why; speed score 0.50 below min threshold 0.70"
        )
    );
    assert_eq!(r.invariant_results.len(), 3);
    assert_eq!(r.overall_score.compact(), "0.5");
    let r = build_test_result("V1", &fine, &scoring(false, true), &None);
    assert!(matches!(r.verdict, TestVerdict::HardFail));
    assert!(r.suggestion.is_none());
    let r = build_test_result("V1", &fine, &scoring(false, false), &regressed);
    assert!(matches!(r.verdict, TestVerdict::SoftFail));
    assert_eq!(
        r.suggestion.as_deref(),
        Some("Score regression detected (0.90 → 0.50, tolerance 0.05). Version eligible for probation.")
    );
    let r = build_test_result("V1", &fine, &scoring(false, false), &None);
    assert!(matches!(r.verdict, TestVerdict::Pass));
    let r = build_test_result("V1", &fine, &scoring(true, false), &None);
    assert!(matches!(r.verdict, TestVerdict::HardFail));
    assert!(scoring(true, false).any_below_threshold());
    assert!(!scoring(false, true).any_below_threshold());
    assert_eq!(passed_count(&broken), 1);
    assert_eq!(build_hard_fail_suggestion(&fine, &scoring(false, false).dimensions), None);
}

#[test]
fn unreadable_requests_are_refused() {
    let r = refuse_request("no version");
    assert!(matches!(r.verdict, TestVerdict::HardFail));
    assert_eq!(r.suggestion.as_deref(), Some("Invalid TestRequest payload: no version"));
    assert_eq!(r.dimension_scores.compact(), "[]");
    assert_eq!(r.overall_score.compact(), "0.0");
    assert!(r.version.is_empty() && r.invariant_results.is_empty());
}

// Administration

#[test]
fn status_is_shown() {
    let s = AdminStatusResponse {
        runlevel: 2,
        current_version: Some("V3".to_string()),
        rollback_version: None,
        connected_peers: vec!["a".to_string(), "b".to_string()],
        version_locked: false,
        probation_active: true,
        peripheral_http_port: None,
    };
    assert_eq!(
        format_status(&s),
        "=== Reloopy System Status ===\nRunlevel:         2 (Normal)\nCurrent version:  V3\n\
         Rollback version: (none)\nVersion locked:   false\nProbation active: true\n\
         Connected peers:  [a, b]\n"
    );
    assert_eq!(runlevel_name(7), "Unknown");
    assert_eq!(format_runlevel(3), "Current runlevel: 3 (Evolve)");
}

#[test]
fn versions_are_listed() {
    let none = AdminListVersionsResponse { versions: vec![] };
    assert_eq!(format_versions(&none), "No versions found.\n");
    let some = AdminListVersionsResponse {
        versions: vec![VersionEntry {
            version: "V1".to_string(),
            is_current: true,
            is_rollback: false,
        }],
    };
    let expected = format!(
        "{:<12} {:<10} {:<10}\n{}\n{:<12} {:<10} {:<10}\n",
        "VERSION",
        "CURRENT",
        "ROLLBACK",
        "-".repeat(32),
        "V1",
        "*",
        ""
    );
    assert_eq!(format_versions(&some), expected);
    let mut detail = AdminVersionDetailResponse {
        version: "V1".to_string(),
        manifest: Some(json("{\"a\":[1]}")),
        is_current: true,
        is_rollback: false,
        has_binary: true,
        has_source: false,
    };
    assert_eq!(
        format_version_detail(&detail),
        "=== Version: V1 ===\nCurrent:    true\nRollback:   false\nHas binary: true\n\
         Has source: false\nManifest:\n{\n  \"a\": [\n    1\n  ]\n}\n"
    );
    detail.manifest = None;
    assert!(format_version_detail(&detail).ends_with("Manifest:   (none)\n"));
}

#[test]
fn outcomes_are_told_in_words() {
    let rollback = |success: bool, to: Option<&str>, error: Option<&str>| {
        format_rollback(&AdminForceRollbackResponse {
            success,
            rolled_back_to: to.map(|s| s.to_string()),
            error: error.map(|s| s.to_string()),
        })
    };
    assert_eq!(
        rollback(true, Some("V1"), None),
        Ok("Rollback successful. Now at: V1".to_string())
    );
    assert_eq!(rollback(false, None, None), Err("Rollback failed: unknown error".to_string()));
    let cleanup = |removed: Vec<String>, error: Option<String>| {
        format_cleanup(&AdminCleanupVersionsResponse { removed, error })
    };
    assert_eq!(cleanup(vec![], None), Ok("Nothing to clean up.\n".to_string()));
    assert_eq!(
        cleanup(vec!["V1".to_string()], None),
        Ok("Removed 1 version(s):\n  - V1\n".to_string())
    );
    assert_eq!(
        cleanup(vec![], Some("e".to_string())),
        Err("Cleanup error: e".to_string())
    );
    let level = |accepted: bool| {
        format_runlevel_result(&RunlevelRequestResult {
            accepted,
            from: 2,
            to: 3,
            reason: "r".to_string(),
        })
    };
    assert_eq!(level(true), Ok("Runlevel changed: 2 -> 3".to_string()));
    assert_eq!(level(false), Err("Runlevel change rejected: r".to_string()));
    let unlock = |was_locked: bool| {
        format_unlock(&AdminUnlockVersionResponse { success: true, was_locked })
    };
    assert_eq!(unlock(true), "Version manager unlocked successfully.");
    assert_eq!(unlock(false), "Version manager was not locked.");
    let down = AdminShutdownResponse { success: false, error: None };
    assert_eq!(
        format_shutdown(&down, "Shutdown rejected: ", "unknown"),
        Err("Shutdown rejected: unknown".to_string())
    );
    let up = AdminShutdownResponse { success: true, error: None };
    assert_eq!(
        format_shutdown(&up, "", ""),
        Ok("Shutdown initiated. Boot is terminating all services.")
    );
}

#[test]
fn tables_are_aligned() {
    assert_eq!(format_peers(&Vec::new()), "No peers registered.\n");
    let peer = PeerRow {
        identity: "judge".to_string(),
        status: "alive".to_string(),
        probation: false,
        cpu: "1.0".to_string(),
        mem: "-".to_string(),
    };
    assert_eq!(
        format_peers(&vec![peer]),
        format!(
            "{:<15} {:<12} {:<10} {:<10} {:<10}\n{}\n{:<15} {:<12} {:<10} {:<10} {:<10}\n",
            "PEER",
            "STATUS",
            "PROBATION",
            "CPU%",
            "MEM(MB)",
            "-".repeat(57),
            "judge",
            "alive",
            false,
            "1.0",
            "-"
        )
    );
    let entry = AuditLog {
        timestamp: "12".to_string(),
        event: "e".to_string(),
        version: None,
        details: json("{\"b\":1,\"a\":2}"),
    };
    assert_eq!(format_audit_entry(&entry), "[12] e version=- {\"a\":2,\"b\":1}");
    let other = AuditLog {
        timestamp: "13".to_string(),
        event: "f".to_string(),
        version: Some("V1".to_string()),
        details: json("{}"),
    };
    let found = AdminAuditQueryResponse { entries: vec![entry, other], error: None };
    assert_eq!(
        format_audit(&found).ok().unwrap(),
        "[12] e version=- {\"a\":2,\"b\":1}\n[13] f version=V1 {}\n"
    );
    let none = AdminAuditQueryResponse { entries: Vec::new(), error: None };
    assert_eq!(format_audit(&none).ok().unwrap(), "No audit entries found.\n");
    let failed =
        AdminAuditQueryResponse { entries: Vec::new(), error: Some("no log".to_string()) };
    assert_eq!(format_audit(&failed).err().unwrap(), "Audit query: no log");
}

#[test]
fn administrators_connect() {
    let mut counter: u64 = 1;
    assert_eq!(next_id("admin", &mut counter), "admin-1");
    assert_eq!(next_id("admin-web", &mut counter), "admin-web-2");
    let hello = make_admin_hello("cli", "cli-1");
    assert_eq!(hello.from, "cli");
    assert_eq!(hello.payload.get("capabilities").unwrap().compact(), "[\"admin\"]");
    let e = admin_envelope("cli", "AdminShutdownRequest", "cli-2", json("{}"));
    assert_eq!((e.to.as_str(), e.id.as_str()), ("boot", "cli-2"));
    assert_eq!(expect_type("Welcome", "Welcome"), Ok(()));
    assert_eq!(expect_type("Welcome", "x"), Err("Expected Welcome, got x".to_string()));
    let home = Some("/h".to_string());
    assert_eq!(expand_tilde("~/.reloopy/reloopy.sock", &home), "/h/.reloopy/reloopy.sock");
    assert_eq!(expand_tilde("~/x", &None), "~/x");
    assert_eq!(expand_tilde("/x", &home), "/x");
}

#[test]
fn the_dashboard_finds_the_agent() {
    assert_eq!(
        agent_url(&json("{\"peripheral_http_port\":7700}")),
        Some("http://localhost:7700".to_string())
    );
    assert_eq!(agent_url(&json("{\"peripheral_http_port\":null}")), None);
    assert_eq!(agent_url(&json("{}")), None);
    assert_eq!(
        agent_url(&json("{\"peripheral_http_port\":65537}")),
        Some("http://localhost:1".to_string())
    );
}

#[test]
fn quick_evolution_patches_once() {
    assert_eq!(quick_evolve_allowed(&json("{}")), Ok(()));
    assert_eq!(quick_evolve_allowed(&json("{\"current_version\":\"V0\"}")), Ok(()));
    assert_eq!(
        quick_evolve_allowed(&json("{\"current_version\":\"V1\"}")),
        Err("Quick evolution is only available on V0 or fresh install".to_string())
    );
    let page = format!("a{}b{}c", PATCH_OLD, PATCH_OLD);
    assert_eq!(
        quick_evolve_patch(&page),
        Ok(format!("a{}b{}c", PATCH_NEW, PATCH_OLD))
    );
    assert_eq!(
        quick_evolve_patch("x"),
        Err("Patch target not found — file may have already been modified".to_string())
    );
}
