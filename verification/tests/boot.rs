use reloopy::capability::{
    default_peripheral_capabilities, detect_escalations, Capabilities, CapabilityManager,
    EscalationViolation, ExecCaps, FilesystemCaps, NetworkCaps,
};
use reloopy::constitution::{
    apply_amendment, count_amendments, decode_secret, new_secret, AmendmentError,
    ConstitutionManager,
};
use reloopy::json::Json;
use reloopy::lease::{LeaseConfig, LeaseManager, LeaseStatus};
use reloopy::log_err::LogErr;
use reloopy::memory_writer::{append_to_daily_log, format_rollback_entry};
use reloopy::messages::{default_attempt, is_core_message, HealthReport, UpdateRejected};
use reloopy::migration::{migrate, rollback_migration};
use reloopy::protocol::{bump_version, ProtocolManager};
use reloopy::resource::{
    LimitReading, ResourceLimits, ResourceMonitor, ResourceViolation, ViolationSeverity,
    HARD_VIOLATION_THRESHOLD,
};
use reloopy::router::{identify_peer, Route, RouterTable};
use reloopy::runlevel::{is_valid_transition, Runlevel, RunlevelManager, TransitionReason};
use reloopy::state::{
    logged_keys, recover_from_wal, state_key, transform_entry, validate_entry, wal_lines,
    MigrationTransaction, Recovery, StateEntry, StateStore, Written,
};
use reloopy::table::Table;
use reloopy::text::truncate_str;
use reloopy::wire::{fd_count, frame, frame_message, read_length, MAX_MESSAGE_SIZE};

fn json(text: &str) -> Json {
    match Json::parse(text) {
        Ok(j) => j,
        Err(e) => panic!("{}: {}", text, e),
    }
}

// Capabilities

#[test]
fn no_escalation_on_identical_caps() {
    let caps = Capabilities {
        filesystem: FilesystemCaps {
            read: vec!["/a".to_string()],
            write: vec!["/b".to_string()],
        },
        network: NetworkCaps { allowed: false, whitelist: vec![] },
        exec_caps: ExecCaps { allowed: false, whitelist: vec![] },
        ipc: vec!["reloopy.sock".to_string()],
        max_child_processes: 0,
    };
    let violations = detect_escalations(&caps, &caps);
    assert!(violations.is_empty());
}

#[test]
fn detects_filesystem_read_escalation() {
    let old = Capabilities {
        filesystem: FilesystemCaps { read: vec!["/a".to_string()], write: vec![] },
        ..Default::default()
    };
    let new = Capabilities {
        filesystem: FilesystemCaps {
            read: vec!["/a".to_string(), "/secret".to_string()],
            write: vec![],
        },
        ..Default::default()
    };
    let violations = detect_escalations(&old, &new);
    assert_eq!(violations.len(), 1);
    assert!(matches!(
        &violations[0],
        EscalationViolation::NewFilesystemRead(paths) if paths == &vec!["/secret".to_string()]
    ));
    assert_eq!(violations[0].describe(), "New filesystem read paths: [\"/secret\"]");
}

#[test]
fn detects_network_escalation() {
    let old = Capabilities::default();
    let mut new = Capabilities::default();
    new.network.allowed = true;
    let violations = detect_escalations(&old, &new);
    assert_eq!(violations.len(), 1);
    assert!(matches!(&violations[0], EscalationViolation::NetworkEscalation));
}

#[test]
fn shrink_is_allowed() {
    let old = Capabilities {
        filesystem: FilesystemCaps {
            read: vec!["/a".to_string(), "/b".to_string()],
            write: vec!["/c".to_string()],
        },
        network: NetworkCaps {
            allowed: true,
            whitelist: vec!["host1".to_string(), "host2".to_string()],
        },
        exec_caps: ExecCaps { allowed: true, whitelist: vec!["cmd1".to_string()] },
        ipc: vec!["reloopy.sock".to_string()],
        max_child_processes: 4,
    };
    let new = Capabilities {
        filesystem: FilesystemCaps { read: vec!["/a".to_string()], write: vec![] },
        network: NetworkCaps { allowed: true, whitelist: vec!["host1".to_string()] },
        exec_caps: ExecCaps { allowed: false, whitelist: vec![] },
        ipc: vec!["reloopy.sock".to_string()],
        max_child_processes: 2,
    };
    let violations = detect_escalations(&old, &new);
    assert!(violations.is_empty());
}

#[test]
fn detects_child_process_escalation() {
    let old = Capabilities { max_child_processes: 2, ..Default::default() };
    let new = Capabilities { max_child_processes: 5, ..Default::default() };
    let violations = detect_escalations(&old, &new);
    assert_eq!(violations.len(), 1);
    assert!(matches!(
        &violations[0],
        EscalationViolation::ChildProcessEscalation { old: 2, new: 5 }
    ));
    assert_eq!(violations[0].describe(), "Child process limit escalation: 2 -> 5");
}

#[test]
fn every_kind_of_escalation_is_found_in_order() {
    let old = Capabilities {
        network: NetworkCaps { allowed: true, whitelist: vec!["a".to_string()] },
        exec_caps: ExecCaps { allowed: true, whitelist: vec![] },
        ..Default::default()
    };
    let new = Capabilities {
        filesystem: FilesystemCaps {
            read: vec!["/r".to_string(), "/r".to_string()],
            write: vec!["/w".to_string()],
        },
        network: NetworkCaps {
            allowed: true,
            whitelist: vec!["a".to_string(), "b".to_string()],
        },
        exec_caps: ExecCaps { allowed: true, whitelist: vec!["sh".to_string()] },
        ipc: vec!["x.sock".to_string()],
        max_child_processes: 1,
    };
    let told: Vec<String> = detect_escalations(&old, &new).iter().map(|v| v.describe()).collect();
    assert_eq!(
        told,
        vec![
            "New filesystem read paths: [\"/r\", \"/r\"]",
            "New filesystem write paths: [\"/w\"]",
            "New network whitelist entries: [\"b\"]",
            "New exec whitelist entries: [\"sh\"]",
            "New IPC endpoints: [\"x.sock\"]",
            "Child process limit escalation: 0 -> 1",
        ]
    );
    let mut runs = Capabilities::default();
    runs.exec_caps.allowed = true;
    let denied = detect_escalations(&Capabilities::default(), &runs);
    assert_eq!(denied[0].describe(), "Exec access escalation (was denied)");
    runs.network.allowed = true;
    let denied = detect_escalations(&Capabilities::default(), &runs);
    assert_eq!(denied[0].describe(), "Network access escalation (was denied)");
}

#[test]
fn capability_manager_loads_and_compares() {
    let m = CapabilityManager::new("/home/x/.reloopy");
    assert_eq!(
        m.capabilities_path("V2"),
        "/home/x/.reloopy/peripheral/V2/capabilities.json"
    );
    assert!(m.load_capabilities(None).unwrap().ipc.is_empty());
    let failed = m.check_escalation(Err("old".to_string()), Err("new".to_string()));
    assert_eq!(failed.unwrap_err(), "old");
    let failed = m.check_escalation(Ok(Capabilities::default()), Err("new".to_string()));
    assert_eq!(failed.unwrap_err(), "new");
    let found = m
        .check_escalation(Ok(Capabilities::default()), Ok(default_peripheral_capabilities("/b")))
        .unwrap();
    assert_eq!(found.len(), 3);
    let caps = default_peripheral_capabilities("/b");
    assert_eq!(caps.filesystem.read, vec!["/b/state", "/b/constitution"]);
    assert_eq!(caps.filesystem.write, vec!["/b/state/memory.json", "/b/state/context.json"]);
    assert_eq!(caps.ipc, vec!["reloopy.sock"]);
}

// Constitution

const INVARIANTS: &str = r#"{
  "version": "1.0",
  "tests": [
    {
      "id": "test_1",
      "name": "Test One",
      "description": "A test",
      "timeout_secs": 10,
      "type": "handshake"
    }
  ]
}"#;

const BENCHMARKS: &str = r#"{
  "version": "1.0",
  "dimensions": [
    { "name": "protocol_compliance", "weight": 0.3, "min_threshold": 0.95 }
  ],
  "overall_min": 0.8,
  "regression_tolerance": 0.05
}"#;

fn manager() -> ConstitutionManager {
    let nanos: Vec<u128> = (0..32).map(|i| 1_700_000_000_000_000_000u128 + i).collect();
    let (key, _) = new_secret(&nanos);
    ConstitutionManager::new("/base", key, None)
}

fn test_two() -> Json {
    json(
        r#"{"id": "test_2", "name": "Test Two", "description": "Another test",
            "timeout_secs": 5, "type": "echo"}"#,
    )
}

#[test]
fn sign_and_verify() {
    let mgr = manager();
    let data = "test_data";
    let sig = mgr.compute_signature(data).unwrap();
    assert!(mgr.verify_signature(data, &sig));
    assert!(!mgr.verify_signature("wrong_data", &sig));
}

#[test]
fn signature_is_the_hexadecimal_hmac() {
    let mgr = ConstitutionManager::new("/base", b"my secret and secure key".to_vec(), None);
    assert_eq!(
        mgr.compute_signature("input message").unwrap(),
        "97d2a569059bbcd8ead4444ff99071f4c01d005bcefe0d3567e1be628e5fdcd9"
    );
    assert!(mgr.verify_signature(
        "input message",
        "97D2A569059BBCD8EAD4444FF99071F4C01D005BCEFE0D3567E1BE628E5FDCD9"
    ));
    assert!(!mgr.verify_signature("input message", "97d2"));
}

#[test]
fn add_invariant_test() {
    let mut mgr = manager();
    let changes = test_two();
    let payload =
        mgr.build_signature_payload("add_test", "invariants.json", "Add test 2", &changes);
    assert_eq!(
        payload,
        "add_test:invariants.json:Add test 2:{\"description\":\"Another test\",\"id\":\"test_2\",\
         \"name\":\"Test Two\",\"timeout_secs\":5,\"type\":\"echo\"}"
    );
    let sig = mgr.compute_signature(&payload).unwrap();
    let result = mgr.propose_amendment(
        "add_test",
        "invariants.json",
        "Add test 2",
        &changes,
        &sig,
        Ok(INVARIANTS.to_string()),
    );
    assert!(result.is_ok());
    let content = match result {
        Ok(c) => c,
        Err(_) => unreachable!(),
    };
    let doc = json(&content);
    assert_eq!(doc.get_list("tests").unwrap().len(), 2);
    assert_eq!(doc.get_str("version"), Some("1.0"));
    let record =
        mgr.record_amendment("add_test", "invariants.json", "Add test 2", &changes, 17);
    assert_eq!(record.id, "amendment-0001");
    assert_eq!(record.timestamp, 17);
    assert_eq!(mgr.record_amendment("a", "b", "c", &changes, 18).id, "amendment-0002");
}

fn refusal(r: Result<String, AmendmentError>) -> String {
    match r {
        Err(AmendmentError::Refused(e)) => e,
        Err(AmendmentError::NotAnObject) => "not an object".to_string(),
        Ok(t) => panic!("accepted: {}", t),
    }
}

#[test]
fn reject_invalid_signature() {
    let mgr = manager();
    let result = mgr.propose_amendment(
        "add_test",
        "invariants.json",
        "Add test 2",
        &test_two(),
        "bad_signature",
        Ok(INVARIANTS.to_string()),
    );
    assert!(result.is_err());
    assert!(refusal(result).contains("HMAC signature"));
}

#[test]
fn amendments_are_checked_in_order() {
    let mgr = manager();
    let c = test_two();
    let bad = mgr.propose_amendment("x", "other.json", "d", &c, "s", Err("e".to_string()));
    assert_eq!(
        refusal(bad),
        "Invalid target file 'other.json'. Must be one of: [\"invariants.json\", \"benchmarks.json\"]"
    );
    let bad = mgr.propose_amendment("x", "benchmarks.json", "d", &c, "s", Err("e".to_string()));
    assert_eq!(
        refusal(bad),
        "Invalid amendment type 'x'. Must be one of: [\"add_test\", \"remove_test\", \
         \"modify_test\", \"add_dimension\", \"remove_dimension\", \"modify_dimension\", \
         \"update_thresholds\"]"
    );
    let payload = mgr.build_signature_payload("add_test", "invariants.json", "d", &c);
    let sig = mgr.compute_signature(&payload).unwrap();
    let bad =
        mgr.propose_amendment("add_test", "invariants.json", "d", &c, &sig, Err("gone".to_string()));
    assert_eq!(refusal(bad), "Failed to read invariants.json: gone");
}

#[test]
fn invariant_amendments() {
    let one = json(r#"{"id": "test_1", "name": "New"}"#);
    let two = test_two();
    let f = |kind: &str, c: &Json| apply_amendment(INVARIANTS, "invariants.json", kind, c);
    assert_eq!(refusal(f("add_test", &one)), "Test 'test_1' already exists");
    assert_eq!(refusal(f("add_test", &json("{}"))), "add_test requires 'id' field");
    assert_eq!(refusal(f("remove_test", &two)), "Test 'test_2' not found");
    assert_eq!(refusal(f("modify_test", &two)), "Test 'test_2' not found");
    assert_eq!(
        refusal(f("add_dimension", &one)),
        "Invalid amendment type for invariants: add_dimension"
    );
    assert_eq!(
        refusal(apply_amendment("{}", "invariants.json", "add_test", &one)),
        "invariants.json missing 'tests' array"
    );
    assert!(refusal(apply_amendment("{", "invariants.json", "add_test", &one))
        .starts_with("Failed to parse invariants.json: "));
    assert_eq!(
        refusal(apply_amendment("{}", "x.json", "add_test", &one)),
        "Unsupported target: x.json"
    );
    let removed = json(&f("remove_test", &one).ok().unwrap());
    assert_eq!(removed.get_list("tests").unwrap().len(), 0);
    let modified = json(&f("modify_test", &one).ok().unwrap());
    let test = &modified.get_list("tests").unwrap()[0];
    assert_eq!(test.get_str("name"), Some("New"));
    assert_eq!(test.get_str("type"), Some("handshake"));
    let grown = f("add_test", &two).ok().unwrap();
    let back = apply_amendment(&grown, "invariants.json", "remove_test", &two).ok().unwrap();
    assert_eq!(json(&back).compact(), json(INVARIANTS).compact());
}

#[test]
fn benchmark_amendments() {
    let f = |kind: &str, c: &str| apply_amendment(BENCHMARKS, "benchmarks.json", kind, &json(c));
    let d = json(&f("add_dimension", r#"{"name": "speed"}"#).ok().unwrap());
    assert_eq!(d.get_list("dimensions").unwrap().len(), 2);
    assert_eq!(
        refusal(f("add_dimension", r#"{"name": "protocol_compliance"}"#)),
        "Dimension 'protocol_compliance' already exists"
    );
    assert_eq!(refusal(f("remove_dimension", r#"{"name": "x"}"#)), "Dimension 'x' not found");
    assert_eq!(refusal(f("modify_dimension", "[]")), "modify_dimension requires 'name' field");
    assert_eq!(
        refusal(f("add_test", r#"{"id": "x"}"#)),
        "Invalid amendment type for benchmarks: add_test"
    );
    assert_eq!(
        refusal(apply_amendment("[]", "benchmarks.json", "add_dimension", &json("{}"))),
        "benchmarks.json missing 'dimensions' array"
    );
    let t = json(&f("update_thresholds", r#"{"overall_min": 1, "other": 2}"#).ok().unwrap());
    assert_eq!(t.get("overall_min").unwrap().as_u64(), Some(1));
    assert!(t.get("other").is_none());
    assert_eq!(t.get("regression_tolerance").unwrap().compact(), "0.05");
    let fresh = apply_amendment(
        "null",
        "benchmarks.json",
        "update_thresholds",
        &json(r#"{"regression_tolerance": 3}"#),
    );
    assert_eq!(json(&fresh.ok().unwrap()).compact(), "{\"regression_tolerance\":3}");
    assert_eq!(
        refusal(apply_amendment(
            "[1]",
            "benchmarks.json",
            "update_thresholds",
            &json(r#"{"overall_min": 1}"#)
        )),
        "not an object"
    );
    let same = apply_amendment("[1]", "benchmarks.json", "update_thresholds", &json("{}"));
    assert_eq!(json(&same.ok().unwrap()).compact(), "[1]");
}

#[test]
fn secrets_and_log_counts() {
    assert_eq!(decode_secret(" 00ff10\n").unwrap(), vec![0u8, 255, 16]);
    let e = decode_secret("0").unwrap_err();
    assert_eq!(e, "Invalid secret key hex: Odd number of digits");
    assert!(decode_secret("zz").unwrap_err().starts_with("Invalid secret key hex: "));
    let nanos: Vec<u128> = vec![3; 32];
    let (key, text) = new_secret(&nanos);
    assert_eq!(key.len(), 32);
    let k: u128 = 6364136223846793005;
    for i in 0..32u128 {
        assert_eq!(key[i as usize] as u128, (3 * k + i) & 0xFF);
    }
    assert_eq!(decode_secret(&text).unwrap(), key);
    assert_eq!(count_amendments("{}\n\n  \n{}\n"), 2);
    assert_eq!(count_amendments(""), 0);
    let m = ConstitutionManager::new("/b", vec![], Some("a\nb\n".to_string()));
    assert_eq!(m.secret_key_path(), "/b/secret.key");
    let mut m = m;
    assert_eq!(m.record_amendment("t", "f", "d", &json("{}"), 0).id, "amendment-0003");
}

// Rollback entries

#[test]
fn format_rollback_entry_basic() {
    let entry = format_rollback_entry("V3", "V2", "hot_swap_timeout", None, None);
    assert!(entry.contains("[SYSTEM ROLLBACK]"));
    assert!(entry.contains("V3 → V2"));
    assert!(entry.contains("hot_swap_timeout"));
}

#[test]
fn format_rollback_entry_with_errors_and_feedback() {
    let entry = format_rollback_entry(
        "V3",
        "V2",
        "compilation_failed",
        Some("error[E0308]: mismatched types"),
        Some("The new version broke the REPL"),
    );
    assert!(entry.contains("mismatched types"));
    assert!(entry.contains("broke the REPL"));
    assert_eq!(
        entry,
        "**[SYSTEM ROLLBACK]** V3 → V2\n\n**Reason:** compilation_failed\n\n**Errors:**\n```\n\
         error[E0308]: mismatched types\n```\n\n**User feedback:** The new version broke the REPL"
    );
}

#[test]
fn long_errors_are_cut() {
    let long = "é".repeat(1500);
    let entry = format_rollback_entry("a", "b", "c", Some(&long), None);
    assert_eq!(entry.matches('é').count(), 1000);
}

#[test]
fn truncate_str_respects_utf8() {
    let s = "hello 世界 foo";
    let t = truncate_str(s, 8);
    assert!(t.len() <= 8);
    assert!(t.is_char_boundary(t.len()));
    assert_eq!(t, "hello ");
    assert_eq!(truncate_str(s, 9), "hello 世");
    assert_eq!(truncate_str(s, 0), "");
    assert_eq!(truncate_str(s, 100), s);
}

#[test]
fn append_to_daily_log_creates_file() {
    let content = append_to_daily_log(false, "2024-01-01", "10:00 UTC", "Test entry");
    assert!(content.contains("Test entry"));
    assert!(content.contains("# Daily Log"));
    assert_eq!(content, "# Daily Log — 2024-01-01\n\n### 10:00 UTC\n\nTest entry\n\n");
    let more = append_to_daily_log(true, "2024-01-01", "10:01 UTC", "  more \n");
    assert_eq!(more, "### 10:01 UTC\n\nmore\n\n");
}

// Protocol

type Check = fn(&str, &str) -> bool;

#[test]
fn creates_default_registry() {
    let mgr = ProtocolManager::new(None);
    assert_eq!(mgr.current_version(), "1.0");
    assert!(mgr.is_known_message("Hello"));
    assert!(mgr.is_known_message("ProtocolExtensionProposal"));
    assert!(!mgr.is_known_message("NonexistentMessage"));
    assert_eq!(mgr.registry().messages.len(), 28);
    let entry = mgr.registry().messages.get("Shutdown").unwrap();
    assert_eq!(entry.category, "lifecycle");
    assert_eq!(entry.direction, "boot->peer");
    assert_eq!(entry.added_in, Some("1.0".to_string()));
}

#[test]
fn add_non_breaking_extension() {
    let mut mgr = ProtocolManager::new(None);
    let new_msgs = json(
        r#"{"CustomPing": {"category": "custom", "direction": "peer->boot", "schema": {}}}"#,
    );
    let result =
        mgr.propose_extension::<Check>(&new_msgs, false, "Add ping", None, None, 5);
    assert!(result.is_ok());
    let entry = result.ok().unwrap();
    assert_eq!(entry.old_version, "1.0");
    assert_eq!(entry.new_version, "1.1");
    assert_eq!(entry.added_types, vec!["CustomPing"]);
    assert!(entry.modified_types.is_empty());
    assert_eq!(entry.timestamp, 5);
    assert!(mgr.is_known_message("CustomPing"));
    assert_eq!(mgr.registry().messages.get("CustomPing").unwrap().category, "custom");
}

const MODIFIED: &str = r#"{"Hello": {"category": "handshake", "direction": "peer->boot",
    "schema": {"new_field": "string"}}}"#;

#[test]
fn reject_breaking_without_signature() {
    let mut mgr = ProtocolManager::new(None);
    let result =
        mgr.propose_extension::<Check>(&json(MODIFIED), true, "Modify Hello", None, None, 0);
    assert!(result.is_err());
    let undeclared =
        mgr.propose_extension::<Check>(&json(MODIFIED), false, "Modify Hello", None, None, 0);
    assert_eq!(
        undeclared.err().unwrap(),
        "Breaking protocol changes require human HMAC signature"
    );
    assert_eq!(mgr.current_version(), "1.0");
}

#[test]
fn accept_breaking_with_valid_signature() {
    let mut mgr = ProtocolManager::new(None);
    let always_valid = |_data: &str, _sig: &str| true;
    let result = mgr.propose_extension(
        &json(MODIFIED),
        true,
        "Modify Hello",
        Some(always_valid),
        Some("valid_sig"),
        0,
    );
    assert!(result.is_ok());
    let entry = result.ok().unwrap();
    assert_eq!(entry.new_version, "2.0");
    assert!(entry.breaking);
    assert_eq!(entry.modified_types, vec!["Hello"]);
}

#[test]
fn extension_errors_and_defaults() {
    let mut mgr = ProtocolManager::new(None);
    let e = mgr.propose_extension::<Check>(&json("[]"), false, "d", None, None, 0);
    assert_eq!(e.err().unwrap(), "new_messages must be a JSON object");
    let e = mgr.propose_extension::<Check>(&json("{}"), false, "d", None, None, 0);
    assert_eq!(e.err().unwrap(), "No message types proposed");
    let never = |_d: &str, _s: &str| false;
    let e = mgr.propose_extension(&json(MODIFIED), false, "d", Some(never), Some("s"), 0);
    assert_eq!(
        e.err().unwrap(),
        "Breaking protocol change requires valid human HMAC signature"
    );
    let sees = |d: &str, s: &str| d == "protocol_extension:why:{\"Hello\":1}" && s == "sig";
    let r = mgr.propose_extension(&json(r#"{"Hello": 1}"#), false, "why", Some(sees), Some("sig"), 0);
    assert_eq!(r.ok().unwrap().new_version, "2.0");
    let hello = mgr.registry().messages.get("Hello").unwrap();
    assert_eq!(hello.category, "extension");
    assert_eq!(hello.direction, "peer->boot");
    assert_eq!(hello.added_in, Some("2.0".to_string()));
}

#[test]
fn versions_are_bumped() {
    assert_eq!(bump_version("1.9", false), "1.10");
    assert_eq!(bump_version("7.3", true), "8.0");
    assert_eq!(bump_version("x.y", false), "1.1");
    assert_eq!(bump_version("x.y", true), "2.0");
    assert_eq!(bump_version("1.2.3", false), "1.1");
    assert_eq!(bump_version("3", true), "2.0");
}

// Resources

fn make_health(memory_mb: u64, cpu: f64) -> HealthReport {
    HealthReport {
        runlevel: 2,
        memory_bytes: memory_mb * 1024 * 1024,
        cpu_bits: cpu.to_bits(),
        tasks_processed: 0,
    }
}

fn cpu_reading(health: &HealthReport, max: f64) -> LimitReading {
    let current = f64::from_bits(health.cpu_bits);
    LimitReading {
        over_max: current > max,
        over_soft: current > max * 0.8,
        current: format!("{:.1}", current),
        max: format!("{:.1}", max),
        soft: format!("{:.1}", max * 0.8),
    }
}

fn limits() -> ResourceLimits {
    ResourceLimits { max_memory_mb: 512, ..Default::default() }
}

fn check(m: &mut ResourceMonitor, health: &HealthReport, probation: bool) -> Vec<ResourceViolation> {
    let max = if probation { 40.0 } else { 80.0 };
    m.check_health("test", health, &cpu_reading(health, max), probation)
}

#[test]
fn no_violation_under_soft_limit() {
    let mut monitor = ResourceMonitor::new(ResourceLimits::default());
    let violations = check(&mut monitor, &make_health(200, 50.0), false);
    assert!(violations.is_empty());
}

#[test]
fn soft_violation_between_80_and_100_percent() {
    let mut monitor = ResourceMonitor::new(limits());
    let violations = check(&mut monitor, &make_health(450, 50.0), false);
    assert_eq!(violations.len(), 1);
    assert_eq!(violations[0].severity, ViolationSeverity::Soft);
    assert_eq!(violations[0].resource, "memory_mb");
    assert_eq!(
        violations[0].describe(),
        "[SOFT] test: memory_mb = 450.0 (limit: 512.0 (soft: 409.6))"
    );
}

#[test]
fn hard_violation_over_100_percent() {
    let mut monitor = ResourceMonitor::new(limits());
    let violations = check(&mut monitor, &make_health(600, 90.0), false);
    assert_eq!(violations.len(), 2);
    assert!(violations.iter().all(|v| v.severity == ViolationSeverity::Hard));
    assert_eq!(violations[1].describe(), "[HARD] test: cpu_percent = 90.0 (limit: 80.0)");
}

#[test]
fn degradation_after_consecutive_hard_violations() {
    let mut monitor = ResourceMonitor::new(limits());
    let health = make_health(600, 50.0);
    for _ in 0..HARD_VIOLATION_THRESHOLD {
        assert!(!monitor.should_degrade("test"));
        check(&mut monitor, &health, false);
    }
    assert!(monitor.should_degrade("test"));
    monitor.reset_violations("test");
    assert!(!monitor.should_degrade("test"));
}

#[test]
fn probation_uses_halved_limits() {
    let mut monitor = ResourceMonitor::new(limits());
    let health = make_health(300, 50.0);
    let violations_normal = check(&mut monitor, &health, false);
    assert!(violations_normal.is_empty());
    let violations_probation = check(&mut monitor, &health, true);
    assert!(!violations_probation.is_empty());
}

#[test]
fn only_the_last_reports_count() {
    let mut monitor = ResourceMonitor::new(limits());
    let bad = make_health(600, 50.0);
    let soft = make_health(450, 50.0);
    // Soft violations do not count, and end a row of hard ones.
    assert_eq!(check(&mut monitor, &soft, false)[0].severity, ViolationSeverity::Soft);
    for health in [&bad, &bad, &soft, &bad, &bad] {
        check(&mut monitor, health, false);
        assert!(!monitor.should_degrade("test"));
    }
    assert!(!monitor.should_degrade("other"));
    check(&mut monitor, &bad, false);
    assert!(monitor.should_degrade("test"));
    // Other peers have no influence.
    monitor.remove_peer("other");
    assert!(monitor.should_degrade("test"));
    check(&mut monitor, &soft, false);
    assert!(!monitor.should_degrade("test"));
}

#[test]
fn violations_reset_on_clean_report() {
    let mut monitor = ResourceMonitor::new(limits());
    let bad = make_health(600, 50.0);
    check(&mut monitor, &bad, false);
    check(&mut monitor, &bad, false);
    let good = make_health(200, 50.0);
    check(&mut monitor, &good, false);
    assert!(!monitor.should_degrade("test"));
    check(&mut monitor, &bad, false);
    monitor.remove_peer("test");
    assert!(!monitor.should_degrade("test"));
}

// Runlevels

fn reason(text: &str, automatic: bool) -> TransitionReason {
    TransitionReason { description: text.to_string(), automatic }
}

#[test]
fn normal_to_safe_after_crashes() {
    let mut mgr = RunlevelManager::new();
    assert_eq!(mgr.record_crash(), None);
    assert_eq!(mgr.record_crash(), Some(Runlevel::Safe));
}

#[test]
fn transition_resets_crashes() {
    let mut mgr = RunlevelManager::new();
    mgr.record_crash();
    mgr.record_crash();
    let _ = mgr.transition(Runlevel::Safe, reason("test", true));
    assert_eq!(mgr.consecutive_crashes(), 2);
    let _ = mgr.transition(Runlevel::Normal, reason("recovery", false));
    assert_eq!(mgr.consecutive_crashes(), 0);
}

#[test]
fn evolve_to_safe_is_valid() {
    assert!(is_valid_transition(Runlevel::Evolve, Runlevel::Safe));
}

#[test]
fn safe_to_evolve_is_invalid() {
    assert!(!is_valid_transition(Runlevel::Safe, Runlevel::Evolve));
}

#[test]
fn can_enter_evolve_checks_cpu() {
    let mgr = RunlevelManager::new();
    assert!(mgr.can_enter_evolve(30.0 < 50.0));
    assert!(!mgr.can_enter_evolve(60.0 < 50.0));
}

#[test]
fn noop_on_same_level() {
    let mut mgr = RunlevelManager::new();
    let result = mgr.transition(Runlevel::Normal, reason("no change", false));
    assert!(result.is_ok());
}

#[test]
fn refused_transition_says_why() {
    let mut mgr = RunlevelManager::new();
    assert_eq!(mgr.transition(Runlevel::Halt, reason("stop", false)), Ok(Runlevel::Normal));
    assert_eq!(
        mgr.transition(Runlevel::Normal, reason("again", false)),
        Err("Invalid runlevel transition: Halt → Normal (reason: again)".to_string())
    );
    assert_eq!(mgr.current(), Runlevel::Halt);
}

#[test]
fn runlevels_have_numbers() {
    for n in 0..4u8 {
        assert_eq!(Runlevel::from_u8(n).unwrap().as_u8(), n);
    }
    assert_eq!(Runlevel::from_u8(4), None);
    assert!(Runlevel::Evolve.allows_evolution());
    assert!(!Runlevel::Normal.allows_evolution());
    assert!(Runlevel::Halt.is_restricted() && Runlevel::Safe.is_restricted());
    assert!(!Runlevel::Evolve.is_restricted());
    let mut mgr = RunlevelManager::new();
    mgr.transition(Runlevel::Evolve, reason("go", false)).unwrap();
    assert!(mgr.should_exit_evolve(false));
    assert!(!mgr.should_exit_evolve(true));
    assert!(!mgr.can_enter_evolve(true));
}

// Leases

#[test]
fn leases_expire_step_by_step() {
    let mut m = LeaseManager::new(LeaseConfig::default());
    assert_eq!(m.check("p", 0), LeaseStatus::Unknown);
    m.register("p".to_string(), 1_000);
    assert_eq!(m.check("p", 10_999), LeaseStatus::Alive);
    assert_eq!(m.check("p", 11_000), LeaseStatus::GracePeriod);
    assert_eq!(m.check("p", 16_000), LeaseStatus::Expired { missed_count: 2 });
    assert_eq!(m.check("p", 16_001), LeaseStatus::Dead);
    assert_eq!(m.renew("p", None, 20_000, 1_000_000), Some(1_010_000));
    assert_eq!(m.check("p", 29_999), LeaseStatus::Alive);
    m.set_probation("p", true);
    let health = make_health(1, 0.0);
    assert_eq!(m.renew("p", Some(health), 30_000, 0), Some(5_000));
    assert_eq!(m.last_health("p"), Some(health));
    assert_eq!(m.check("p", 35_000), LeaseStatus::GracePeriod);
    assert_eq!(m.renew("q", None, 0, 0), None);
    m.remove("p");
    assert_eq!(m.check("p", 0), LeaseStatus::Unknown);
    assert_eq!(m.last_health("p"), None);
}

#[test]
fn all_leases_are_checked() {
    let mut m = LeaseManager::new(LeaseConfig::default());
    m.register("a".to_string(), 0);
    m.register("b".to_string(), 9_000);
    m.register("c".to_string(), 0);
    // Peers in their grace period are not reported.
    assert_eq!(m.check_all(12_000), vec![]);
    // Nor are those that have missed too few renewals.
    assert_eq!(m.check_all(15_000), vec![]);
    assert_eq!(
        m.check_all(15_000),
        vec![("a".to_string(), LeaseStatus::Dead), ("c".to_string(), LeaseStatus::Dead)]
    );
    // The checks counted the misses and removed nobody.
    assert_eq!(m.check("a", 15_000), LeaseStatus::Dead);
    assert_eq!(m.check("b", 18_999), LeaseStatus::Alive);
}

// Routing

#[test]
fn messages_are_routed() {
    let mut r = RouterTable::new();
    assert!(matches!(r.route("boot"), Route::Boot));
    r.register_peer("judge", 4);
    r.register_peer("audit", 5);
    r.register_peer("judge", 6);
    assert!(matches!(r.route("judge"), Route::Peer(6)));
    assert_eq!(r.broadcast(), vec![6, 5]);
    assert_eq!(r.connected_peers(), vec!["judge", "audit"]);
    assert!(r.remove_peer("judge"));
    assert!(!r.remove_peer("judge"));
    assert_eq!(r.send_to("judge"), Err("Peer 'judge' not connected".to_string()));
    assert!(matches!(r.route("judge"), Route::Unreachable(_)));
    assert_eq!(r.send_to("audit"), Ok(5));
}

#[test]
fn connections_open_with_hello() {
    assert_eq!(identify_peer("Hello", "judge"), Ok("judge".to_string()));
    assert_eq!(
        identify_peer("Shutdown", "judge"),
        Err("Expected Hello as first message, got 'Shutdown'".to_string())
    );
}

#[test]
fn errors_can_be_given_up() {
    let good: Result<u8, String> = Ok(3);
    let bad: Result<u8, String> = Err("no".to_string());
    assert_eq!(good.clone().warn_err(), Some(3));
    assert_eq!(good.log_err(), Some(3));
    assert_eq!(bad.clone().warn_err(), None);
    assert_eq!(bad.log_err(), None);
}

// State

#[test]
fn state_is_kept_by_key() {
    let mut s = StateStore::new("/b");
    assert_eq!(s.directories(), vec!["/b/state", "/b/state/snapshots", "/b/state/wal"]);
    assert_eq!(s.state_file_path("k"), "/b/state/k.json");
    assert_eq!(s.wal_path(), "/b/state/wal/migration.log");
    assert_eq!(s.snapshot_path("V1", "V2"), "/b/state/snapshots/snap_V1_V2.json");
    assert!(s.get("k").is_none());
    s.set("k", json("[1]"), 3);
    assert_eq!(s.get("k").unwrap().schema_version, 3);
    s.set("k", json("[2]"), 4);
    assert_eq!(s.get("k").unwrap().value.compact(), "[2]");
    assert_eq!(s.entries().len(), 1);
    assert_eq!(state_key("memory.json"), Some("memory".to_string()));
    assert_eq!(state_key("a.b.json"), Some("a.b".to_string()));
    assert_eq!(state_key(".json"), None);
    assert_eq!(state_key("x.txt"), None);
    assert_eq!(wal_lines("a\n\nb\n"), vec!["a", "b"]);
}

#[test]
fn interrupted_migration_goes_back() {
    let mut s = StateStore::new("/b");
    s.set("k", json("1"), 1);
    let mut snapshot: Table<StateEntry> = Table::new();
    snapshot.insert("k", StateEntry { value: json("1"), schema_version: 1 });
    let (mut tx, begin) = MigrationTransaction::begin(&s, "V1", "V2");
    assert_eq!(begin.operation, "BEGIN_MIGRATION");
    assert_eq!(tx.snapshot_path(), "/b/state/snapshots/snap_V1_V2.json");
    let t = transform_entry(&s, "k", 2);
    assert_eq!((t.operation.as_str(), t.from_schema, t.to_schema), ("TRANSFORM", Some(1), Some(2)));
    let v = validate_entry("k");
    assert_eq!((v.operation.as_str(), v.result.as_deref()), ("VALIDATE", Some("OK")));
    assert_eq!(tx.transform(&mut s, "k", json("2"), 2, Written::All), Ok(()));
    assert_eq!(s.get("k").unwrap().value.compact(), "2");
    let n = transform_entry(&s, "new", 7);
    assert_eq!(n.from_schema, Some(0));
    assert_eq!(tx.transform(&mut s, "new", json("0"), 7, Written::All), Ok(()));
    let log = vec![begin, t, v, n];
    assert_eq!(logged_keys(&log), vec!["k", "new"]);
    match recover_from_wal(&log) {
        Recovery::RollBack(p) => {
            assert_eq!(p, Some("/b/state/snapshots/snap_V1_V2.json".to_string()))
        }
        _ => panic!("no rollback"),
    }
    // The file of the key that was first set in the migration goes, and the log.
    assert_eq!(
        tx.abandon(&mut s, Some(snapshot)),
        vec!["/b/state/new.json", "/b/state/wal/migration.log"]
    );
    assert_eq!(s.get("k").unwrap().value.compact(), "1");
    assert!(s.get("new").is_none());
}

#[test]
fn changes_that_cannot_be_written_are_not_made() {
    let mut s = StateStore::new("/b");
    s.set("k", json("1"), 1);
    let (mut tx, _) = MigrationTransaction::begin(&s, "V1", "V2");
    let full = || "disk full".to_string();
    let unlogged = tx.transform(&mut s, "a", json("2"), 2, Written::Unlogged(full()));
    assert_eq!(unlogged, Err(full()));
    let unstored = tx.transform(&mut s, "b", json("2"), 2, Written::Unstored(full()));
    assert_eq!(unstored, Err(full()));
    assert!(s.get("a").is_none() && s.get("b").is_none());
    let unconfirmed = tx.transform(&mut s, "c", json("2"), 2, Written::Unconfirmed(full()));
    assert_eq!(unconfirmed, Err(full()));
    assert_eq!(s.get("c").unwrap().schema_version, 2);
    // Without its snapshot the store stays as it is, and only the log goes.
    assert_eq!(tx.abandon(&mut s, None), vec!["/b/state/wal/migration.log"]);
    assert!(s.get("c").is_some());

    let (mut tx, _) = MigrationTransaction::begin(&s, "V1", "V2");
    let mut snapshot: Table<StateEntry> = Table::new();
    snapshot.insert("k", StateEntry { value: json("1"), schema_version: 1 });
    let _ = tx.transform(&mut s, "a", json("2"), 2, Written::Unlogged(full()));
    let _ = tx.transform(&mut s, "b", json("2"), 2, Written::Unstored(full()));
    assert_eq!(
        tx.abandon(&mut s, Some(snapshot)),
        vec!["/b/state/b.json", "/b/state/wal/migration.log"]
    );
    assert_eq!(s.entries().len(), 1);
}

#[test]
fn committed_migration_stays() {
    let s = StateStore::new("/b");
    let (tx, begin) = MigrationTransaction::begin(&s, "V1", "V2");
    let commit = tx.commit();
    assert_eq!(commit.operation, "COMMIT");
    assert_eq!(commit.to_version, Some("V2".to_string()));
    assert!(matches!(recover_from_wal(&vec![begin, commit]), Recovery::Committed));
    assert!(matches!(recover_from_wal(&vec![]), Recovery::Empty));
}

#[test]
fn values_migrate_both_ways() {
    let v = json("{\"a\":[1,2]}");
    let up = migrate(&v, 1, 4).unwrap();
    assert_eq!(rollback_migration(&up, 4, 1).unwrap().compact(), v.compact());
    assert_eq!(migrate(&v, 3, 1).unwrap().compact(), v.compact());
    assert_eq!(
        rollback_migration(&v, 1, 2).unwrap_err(),
        "Rollback requires from_version (1) > to_version (2)"
    );
}

// Messages and wire format

#[test]
fn core_messages_are_known() {
    assert!(is_core_message("Hello"));
    assert!(is_core_message("RollbackContext"));
    assert!(!is_core_message("hello"));
    assert!(!is_core_message("Echo"));
}

#[test]
fn rejections_leave_out_what_is_empty() {
    assert_eq!(default_attempt(), 1);
    let mut r = UpdateRejected::default();
    assert_eq!(
        r.to_json().compact(),
        "{\"allows_patch_retry\":false,\"attempt\":0,\"errors\":null,\"reason\":\"\",\"version\":\"\"}"
    );
    r.failed_tests = vec!["t".to_string()];
    r.scores = Some(json("[]"));
    r.suggestion = Some("s".to_string());
    assert_eq!(
        r.to_json().compact(),
        "{\"allows_patch_retry\":false,\"attempt\":0,\"errors\":null,\"failed_tests\":[\"t\"],\
         \"reason\":\"\",\"scores\":[],\"suggestion\":\"s\",\"version\":\"\"}"
    );
}

#[test]
fn frames_are_read_back() {
    let f = frame(&b"{}".to_vec());
    assert_eq!(f, vec![0, 0, 0, 2, b'{', b'}']);
    assert_eq!(read_length([0, 0, 0, 2]), Ok(2));
    assert_eq!(read_length([0, 16, 0, 0]), Ok(MAX_MESSAGE_SIZE));
    assert_eq!(
        read_length([0, 16, 0, 1]),
        Err("Message too large: 1048577 bytes (max 1048576)".to_string())
    );
    let long = vec![7u8; 70_000];
    let f = frame(&long);
    assert_eq!(read_length([f[0], f[1], f[2], f[3]]), Ok(70_000));
    assert_eq!(&f[4..], &long[..]);
}

#[test]
fn file_descriptors_are_announced() {
    let f = frame_message(json("{\"a\":1}"), 3);
    let text = String::from_utf8(f[4..].to_vec()).unwrap();
    assert_eq!(text, "{\"a\":1,\"fd_count\":3}");
    assert_eq!(fd_count(&json(&text)), 3);
    assert_eq!(fd_count(&json("{\"fd_count\":-1}")), 0);
    assert_eq!(fd_count(&json("[]")), 0);
    let plain = frame_message(json("{}"), 0);
    assert_eq!(plain.len(), 6);
}
