use std::collections::BTreeMap;

use reloopy::agent::{
    build_system_prompt, format_update_result, forward_event, submit_result, tool_result_event,
    truncate_lines, AgentEvent, AgentStep, Conversation, SubmitOutcome, BASE_SYSTEM_PROMPT,
};
use reloopy::calendar::{current_time_string, date_at, days_to_ymd, is_leap, time_at};
use reloopy::deepseek::{
    apply_tool_call_delta, read_line, ChatMessage, FunctionCall, StreamAssembler, StreamChoice,
    StreamChunk, StreamDelta, StreamEvent, StreamFunctionCall, StreamToolCall, ToolCall,
};
use reloopy::ipc_client::{
    check_welcome, config_api_key, incoming, make_heartbeat, make_hello, make_submit_update,
    new_msg_id, read_config_api_key, read_port, resolve_workspace_root, workspace_places, Incoming,
};
use reloopy::json::Json;
use reloopy::memory::{count_terms, report_hits, MemoryManager, SearchHit};
use reloopy::messages::Envelope;
use reloopy::msg_types;
use reloopy::scenario::{load_scenario, parse_args};
use reloopy::scripted_llm::ScriptedLlmClient;
use reloopy::source::{
    apply_line_range_edit, line_spans, show_diff, show_range, summarize_diff,
    truncate_with_ellipsis, Found, SourceManager, Visit, WriteReport,
};
use reloopy::tools::{
    execute_tool, list_output, long_term_output, memory_append_output, memory_write_output,
    tool_definitions, tool_output, ToolRequest, ToolResult,
};

fn json(text: &str) -> Json {
    match Json::parse(text) {
        Ok(j) => j,
        Err(e) => panic!("{}: {}", text, e),
    }
}

// Agent

#[test]
fn truncate_short_string_unchanged() {
    assert_eq!(truncate_lines("hello", 500), "hello");
}

#[test]
fn truncate_ascii_at_boundary() {
    let s = "a\n".repeat(10);
    let result = truncate_lines(&s, 3);
    assert!(
        result.contains("truncated; showing first 3 of 10 lines"),
        "unexpected output: {}",
        result
    );
    assert_eq!(result, "a\na\na\n... (truncated; showing first 3 of 10 lines)");
}

#[test]
fn truncate_multibyte_utf8_does_not_panic() {
    let s: String = "代理\n".repeat(20);
    let result = truncate_lines(&s, 10);
    assert!(
        result.contains("truncated; showing first 10 of 20 lines"),
        "unexpected output: {}",
        result
    );
}

#[test]
fn truncate_mixed_content() {
    let s = format!("line1 {}\nline2 {}\nline3", "a".repeat(10), "代理代理");
    let result = truncate_lines(&s, 2);
    assert!(
        result.contains("truncated; showing first 2 of 3 lines"),
        "unexpected truncation output: {}",
        result
    );
}

fn boot_message(msg_type: &str, id: &str, payload: &str) -> Envelope {
    Envelope {
        from: "boot".to_string(),
        to: "peripheral".to_string(),
        msg_type: msg_type.to_string(),
        id: id.to_string(),
        payload: json(payload),
    }
}

#[test]
fn format_update_accepted() {
    let envelope = boot_message(msg_types::UPDATE_ACCEPTED, "test-1", r#"{"version": "V3"}"#);
    let result = format_update_result(&envelope);
    assert!(result.contains("ACCEPTED"));
    assert!(result.contains("V3"));
    assert_eq!(result, "Update ACCEPTED — version V3 deployed successfully.");
}

#[test]
fn format_update_rejected_with_errors() {
    let envelope = boot_message(
        msg_types::UPDATE_REJECTED,
        "test-2",
        r#"{"version": "V4", "reason": "compilation_failed",
            "errors": "error[E0308]: mismatched types", "suggestion": "Check the return type"}"#,
    );
    let result = format_update_result(&envelope);
    assert!(result.contains("REJECTED"));
    assert!(result.contains("compilation_failed"));
    assert!(result.contains("error[E0308]"));
    assert!(result.contains("Check the return type"));
}

#[test]
fn format_update_rejected_minimal() {
    let envelope = boot_message(
        msg_types::UPDATE_REJECTED,
        "test-3",
        r#"{"version": "V5", "reason": "test_failed"}"#,
    );
    let result = format_update_result(&envelope);
    assert!(result.contains("REJECTED"));
    assert!(result.contains("test_failed"));
    assert!(!result.contains("Compilation errors"));
    assert!(!result.contains("Suggestion"));
    let other = boot_message("Echo", "x", "{}");
    assert_eq!(format_update_result(&other), "Unexpected response from Boot: Echo");
    let bare = boot_message(msg_types::UPDATE_ACCEPTED, "x", "{}");
    assert!(format_update_result(&bare).contains("version unknown"));
}

fn assistant(content: Option<&str>, tool_calls: Option<Vec<ToolCall>>) -> ChatMessage {
    ChatMessage {
        role: "assistant".to_string(),
        content: content.map(|s| s.to_string()),
        tool_calls,
        tool_call_id: None,
    }
}

fn call(id: &str, name: &str, arguments: &str) -> ToolCall {
    ToolCall {
        id: id.to_string(),
        type_: "function".to_string(),
        function: FunctionCall { name: name.to_string(), arguments: arguments.to_string() },
    }
}

#[test]
fn agent_with_scripted_llm_runs_to_completion() {
    let mut llm = ScriptedLlmClient::new(vec![assistant(Some("Test complete."), None)]);
    let mut talk = Conversation::new("");
    talk.user_said("hello");
    let (reply, events) = match llm.next_response() {
        Ok(r) => r,
        Err(e) => panic!("{}", e),
    };
    let mut content = String::new();
    for ev in events {
        if let Some(AgentEvent::Content(s)) = forward_event(ev) {
            content.push_str(&s);
        }
    }
    let finished = matches!(talk.model_replied(reply), AgentStep::Finished);
    assert!(finished, "expected Done event");
    assert_eq!(content, "Test complete.");
    let roles: Vec<&str> = talk.messages().iter().map(|m| m.role.as_str()).collect();
    assert_eq!(roles, vec!["system", "user", "assistant"]);
}

#[test]
fn every_tool_call_gets_an_answer() {
    let mut talk = Conversation::new("notes");
    talk.user_said("go");
    let calls = vec![call("c1", "a", "{}"), call("c2", "b", "{}")];
    let todo = match talk.model_replied(assistant(None, Some(calls))) {
        AgentStep::RunTools(t) => t,
        AgentStep::Finished => panic!("tools were asked for"),
    };
    assert_eq!(todo.len(), 2);
    for c in &todo {
        talk.tool_answered("out", &c.id);
    }
    let m = talk.messages();
    assert_eq!(m.len(), 5);
    assert_eq!(m[3].tool_call_id.as_deref(), Some("c1"));
    assert_eq!(m[4].tool_call_id.as_deref(), Some("c2"));
    assert_eq!(m[4].role, "tool");
    talk.reset_conversation("");
    assert_eq!(talk.messages().len(), 1);
    assert_eq!(talk.messages()[0].content.as_deref(), Some(BASE_SYSTEM_PROMPT));
}

#[test]
fn memory_is_part_of_the_prompt() {
    assert_eq!(build_system_prompt(""), BASE_SYSTEM_PROMPT);
    assert_eq!(
        build_system_prompt("Fact."),
        format!("{}\n## Current Memory\n\nFact.", BASE_SYSTEM_PROMPT)
    );
}

#[test]
fn events_are_passed_on() {
    let passed = |e: StreamEvent| forward_event(e).is_some();
    assert!(passed(StreamEvent::Reasoning("r".to_string())));
    assert!(passed(StreamEvent::ToolCallArgDelta("d".to_string())));
    assert!(!passed(StreamEvent::Done));
    assert!(!passed(StreamEvent::Error("e".to_string())));
    match tool_result_event("t", &"x\n".repeat(121)) {
        AgentEvent::ToolResult { name, output } => {
            assert_eq!(name, "t");
            assert!(output.ends_with("... (truncated; showing first 120 of 121 lines)"));
        }
        _ => panic!("not a result"),
    }
}

#[test]
fn submissions_end_in_one_of_four_ways() {
    assert_eq!(
        submit_result(&SubmitOutcome::NotSent),
        ("Error: Lost connection to Boot".to_string(), false)
    );
    assert_eq!(
        submit_result(&SubmitOutcome::Closed),
        ("Error: IPC channel closed".to_string(), false)
    );
    assert_eq!(
        submit_result(&SubmitOutcome::TimedOut),
        ("Error: Timed out waiting for build result (300s)".to_string(), false)
    );
    let stop = SubmitOutcome::Answered(boot_message(msg_types::SHUTDOWN, "x", "{}"));
    assert_eq!(
        submit_result(&stop),
        ("Unexpected response from Boot: Shutdown".to_string(), true)
    );
}

// Model streams

fn delta(index: Option<usize>, id: Option<&str>, name: Option<&str>, args: Option<&str>) -> StreamToolCall {
    StreamToolCall {
        index,
        id: id.map(|s| s.to_string()),
        type_: Some("function".to_string()),
        function: Some(StreamFunctionCall {
            name: name.map(|s| s.to_string()),
            arguments: args.map(|s| s.to_string()),
        }),
    }
}

#[test]
fn tool_call_delta_preserves_arguments_across_duplicate_ids() {
    let mut pending: BTreeMap<usize, ToolCall> = BTreeMap::new();
    let first = delta(Some(0), Some("call-1"), Some("write_source_file"), None);
    let second = delta(Some(0), Some("call-1"), Some("write_source_file"), Some("part-1"));
    let third = delta(Some(0), Some("call-1"), Some("write_source_file"), Some("part-2"));

    let update = apply_tool_call_delta(&mut pending, first);
    assert_eq!(
        update.start,
        Some(("call-1".to_string(), "write_source_file".to_string()))
    );
    assert!(pending.get(&0).map(|tc| tc.function.arguments.is_empty()).unwrap_or(false));

    let update2 = apply_tool_call_delta(&mut pending, second);
    assert!(update2.start.is_none(), "start should not fire twice");
    assert_eq!(pending.get(&0).unwrap().function.arguments, "part-1".to_string());

    apply_tool_call_delta(&mut pending, third);
    assert_eq!(
        pending.get(&0).unwrap().function.arguments,
        "part-1part-2".to_string(),
        "arguments should accumulate across deltas without being reset"
    );
}

#[test]
fn tool_call_deltas_at_the_edges() {
    let mut pending: BTreeMap<usize, ToolCall> = BTreeMap::new();
    let lost = apply_tool_call_delta(&mut pending, delta(Some(3), None, None, Some("a")));
    assert_eq!(lost.arg_delta, Some("a".to_string()));
    assert!(pending.is_empty());
    let mut bare = delta(None, Some("x"), None, None);
    bare.type_ = None;
    apply_tool_call_delta(&mut pending, bare);
    assert_eq!(pending[&0].type_, "function");
    assert_eq!(pending[&0].function.name, "");
    apply_tool_call_delta(&mut pending, delta(None, Some("x"), Some("late"), None));
    assert_eq!(pending[&0].function.name, "late");
    apply_tool_call_delta(&mut pending, delta(None, Some("x"), Some("later"), None));
    assert_eq!(pending[&0].function.name, "late");
}

fn chunk(delta: StreamDelta) -> StreamChunk {
    StreamChunk { choices: vec![StreamChoice { delta, finish_reason: None }] }
}

#[test]
fn streams_are_assembled() {
    let mut a = StreamAssembler::new();
    assert!(a.feed("data: {\"x\"").is_empty());
    assert_eq!(
        a.feed(":1}\n\n data: [DONE] \n{\"y\":2}\r\ndata: par"),
        vec!["{\"x\":1}", "{\"y\":2}"]
    );
    let said = StreamDelta {
        role: None,
        content: Some("Hi".to_string()),
        reasoning_content: Some("hm".to_string()),
        tool_calls: Some(vec![delta(Some(1), Some("b"), Some("g"), Some("{}"))]),
    };
    let events = a.apply_chunk(&chunk(said));
    assert_eq!(events.len(), 4);
    assert!(matches!(&events[0], StreamEvent::Reasoning(s) if s == "hm"));
    assert!(matches!(&events[1], StreamEvent::Content(s) if s == "Hi"));
    assert!(matches!(&events[2], StreamEvent::ToolCallStart { id, .. } if id == "b"));
    assert!(matches!(&events[3], StreamEvent::ToolCallArgDelta(s) if s == "{}"));
    let more = StreamDelta {
        role: None,
        content: Some(" there".to_string()),
        reasoning_content: None,
        tool_calls: Some(vec![delta(Some(0), Some("a"), Some("f"), None)]),
    };
    a.apply_chunk(&chunk(more));
    let m = a.finish();
    assert_eq!(m.content.as_deref(), Some("Hi there"));
    let ids: Vec<String> = m.tool_calls.unwrap().iter().map(|c| c.id.clone()).collect();
    assert_eq!(ids, vec!["a", "b"]);
    let empty = StreamAssembler::new().finish();
    assert!(empty.content.is_none() && empty.tool_calls.is_none());
}

#[test]
fn cutting_a_stream_elsewhere_changes_nothing() {
    let text = "data: {}\n\ndata: [DONE]\nplain\nrest";
    let mut whole = StreamAssembler::new();
    let expected = whole.feed(text);
    assert_eq!(expected, vec!["{}", "plain"]);
    for cut in 0..text.len() {
        let mut parts = StreamAssembler::new();
        let mut got = parts.feed(&text[..cut]);
        got.extend(parts.feed(&text[cut..]));
        assert_eq!(got, expected);
    }
    assert_eq!(read_line("  data: [DONE]"), None);
    assert_eq!(read_line(" data: a "), Some("a".to_string()));
    assert_eq!(read_line("\t"), None);
}

// Scripted model

#[test]
fn scripted_client_returns_responses_in_order() {
    let mut client = ScriptedLlmClient::new(vec![
        assistant(Some("first"), None),
        assistant(Some("second"), None),
    ]);
    let first = client.next_response().ok().unwrap().0;
    assert_eq!(first.content.as_deref(), Some("first"));
    let second = client.next_response().ok().unwrap().0;
    assert_eq!(second.content.as_deref(), Some("second"));
}

#[test]
fn scripted_client_errors_when_exhausted() {
    let mut client = ScriptedLlmClient::new(vec![]);
    let result = client.next_response();
    assert!(result.is_err());
    assert!(result.err().unwrap().contains("no more scripted responses"));
}

#[test]
fn scripted_client_emits_content_event() {
    let mut client = ScriptedLlmClient::new(vec![assistant(Some("hello world"), None)]);
    let events = client.next_response().ok().unwrap().1;
    assert!(
        events.iter().any(|e| matches!(e, StreamEvent::Content(s) if s == "hello world")),
        "expected Content event with 'hello world'"
    );
    assert!(events.iter().any(|e| matches!(e, StreamEvent::Done)));
}

#[test]
fn scripted_client_emits_tool_call_events() {
    let calls = vec![call("call-1", "read_source_file", r#"{"path":"src/main.rs"}"#)];
    let mut client = ScriptedLlmClient::new(vec![assistant(None, Some(calls))]);
    let (result, events) = client.next_response().ok().unwrap();
    assert!(result.tool_calls.is_some());
    assert!(
        events.iter().any(|e| matches!(e,
            StreamEvent::ToolCallStart { name, .. } if name == "read_source_file"
        )),
        "expected ToolCallStart event"
    );
    assert!(
        events.iter().any(|e| matches!(e,
            StreamEvent::ToolCallArgDelta(args) if args.contains("src/main.rs")
        )),
        "expected ToolCallArgDelta event"
    );
}

#[test]
fn default_scenario_has_two_turns() {
    let scenario = load_scenario(None);
    assert_eq!(scenario.len(), 2);
    assert!(scenario[0].tool_calls.is_some(), "first turn should be a tool call");
    assert!(scenario[1].content.is_some(), "second turn should be plain text");
    assert_eq!(load_scenario(Some(vec![ChatMessage::user("x")])).len(), 1);
}

#[test]
fn scenario_arguments_are_read() {
    let list = |a: &[&str]| -> Vec<String> { a.iter().map(|s| s.to_string()).collect() };
    let d = parse_args(&vec![]).ok().unwrap();
    assert_eq!(d.user_input, "Please read the source files and give me a summary.");
    assert!(d.scenario_path.is_none() && d.workspace.is_none());
    let a = parse_args(&list(&["--input", "hi", "--scenario", "s", "--workspace"])).ok().unwrap();
    assert_eq!(a.user_input, "hi");
    assert_eq!(a.scenario_path.as_deref(), Some("s"));
    assert!(a.workspace.is_none());
    assert_eq!(
        parse_args(&list(&["--x"])).err().unwrap(),
        "Unknown argument: --x. Valid options: --scenario <path>, --input <text>, --workspace <path>"
    );
}

// Memory

#[test]
fn today_is_valid_date_format() {
    let d = MemoryManager::today();
    assert_eq!(d.len(), 10, "date must be YYYY-MM-DD");
    assert_eq!(&d[4..5], "-");
    assert_eq!(&d[7..8], "-");
}

#[test]
fn yesterday_is_valid_and_differs_from_today() {
    let today = MemoryManager::today();
    let yesterday = MemoryManager::yesterday();
    assert_eq!(yesterday.len(), 10);
    assert!(yesterday <= today);
    assert_eq!(current_time_string().len(), 9);
    assert!(today.as_str() > "2020-01-01");
}

/// The memory directory, where it exists.
type Files = Option<BTreeMap<String, String>>;

fn read(files: &Files, path: &str) -> Option<String> {
    files.as_ref().and_then(|f| f.get(path)).cloned()
}

fn write(files: &mut Files, path: &str, content: &str) {
    files.get_or_insert_with(BTreeMap::new).insert(path.to_string(), content.to_string());
}

fn get_long_term(m: &MemoryManager, files: &Files) -> Result<String, String> {
    m.get_long_term(read(files, &m.long_term_path()).map(Ok))
}

fn append_daily(m: &MemoryManager, files: &mut Files, content: &str) {
    let today = MemoryManager::today();
    let path = m.daily_path(&today);
    let log = m.append_daily(read(files, &path), &today, &current_time_string(), content);
    write(files, &path, &log);
}

fn get_daily(m: &MemoryManager, files: &Files, date: &str) -> Result<String, String> {
    let date = m.resolve_date(date, &MemoryManager::today(), &MemoryManager::yesterday());
    m.get_daily(&date, read(files, &m.daily_path(&date)).map(Ok))
}

fn search(m: &MemoryManager, files: &Files, query: &str) -> String {
    let list: Option<Vec<(String, String)>> = files.as_ref().map(|f| {
        f.iter()
            .map(|(p, c)| (p[m.memory_dir().len() + 1..].to_string(), c.clone()))
            .collect()
    });
    m.search(query, list.as_ref())
}

fn load_context(m: &MemoryManager, files: &Files) -> String {
    let today = MemoryManager::today();
    let yesterday = MemoryManager::yesterday();
    m.load_context(
        &read(files, &m.long_term_path()),
        &yesterday,
        &read(files, &m.daily_path(&yesterday)),
        &today,
        &read(files, &m.daily_path(&today)),
    )
}

#[test]
fn search_missing_dir_returns_graceful_message() {
    let m = MemoryManager::new("/base");
    let result = search(&m, &None, "anything");
    assert!(
        result.contains("empty") || result.contains("No memory"),
        "got: {}",
        result
    );
}

#[test]
fn write_and_read_long_term() {
    let m = MemoryManager::new("/base");
    let mut files: Files = None;
    write(&mut files, &m.long_term_path(), "User prefers Rust.");
    let content = get_long_term(&m, &files).unwrap();
    assert_eq!(content, "User prefers Rust.");
    assert_eq!(m.long_term_path(), "/base/memory/MEMORY.md");
}

#[test]
fn append_daily_creates_and_accumulates() {
    let m = MemoryManager::new("/base");
    let mut files: Files = None;
    append_daily(&m, &mut files, "First entry.");
    append_daily(&m, &mut files, "Second entry.");
    let log = get_daily(&m, &files, "today").unwrap();
    assert!(log.contains("First entry."));
    assert!(log.contains("Second entry."));
    assert_eq!(
        m.append_daily(None, "2024-01-02", "03:04 UTC", " x\n"),
        "# Daily Log — 2024-01-02\n\n### 03:04 UTC\n\nx\n\n"
    );
}

#[test]
fn get_daily_missing_returns_graceful_message() {
    let m = MemoryManager::new("/base");
    let result = get_daily(&m, &None, "1970-01-01").unwrap();
    assert!(result.contains("No log found"), "got: {}", result);
    assert_eq!(
        m.get_daily("1970-01-01", Some(Err("bad".to_string()))).unwrap_err(),
        "Failed to read log for 1970-01-01: bad"
    );
}

#[test]
fn search_finds_matching_content() {
    let m = MemoryManager::new("/base");
    let mut files: Files = None;
    write(
        &mut files,
        &m.long_term_path(),
        "The user prefers functional programming in Rust.",
    );
    let result = search(&m, &files, "functional");
    assert!(result.contains("functional"), "got: {}", result);
    assert_eq!(
        search(&m, &files, "FUNCTIONAL Perl"),
        "Memory search results for \"FUNCTIONAL Perl\"\n\n**[MEMORY.md]** (score: 1)\n\
         The user prefers functional programming in Rust."
    );
}

#[test]
fn search_returns_no_results_message_when_unmatched() {
    let m = MemoryManager::new("/base");
    let mut files: Files = None;
    write(&mut files, &m.long_term_path(), "The user prefers Rust.");
    let result = search(&m, &files, "python");
    assert!(result.contains("No results"), "got: {}", result);
    assert_eq!(search(&m, &files, " \n"), "Empty search query.");
}

#[test]
fn search_shows_at_most_ten_sections() {
    let m = MemoryManager::new("/base");
    let mut files: Files = None;
    write(&mut files, &m.long_term_path(), &"one two\n\n".repeat(9));
    write(&mut files, &m.daily_path("2024-01-01"), &"one\n\n".repeat(9));
    let result = search(&m, &files, "one two");
    assert_eq!(result.matches("(score: 2)").count(), 9);
    assert_eq!(result.matches("(score: 1)").count(), 1);
    assert!(result.find("(score: 2)") < result.find("(score: 1)"));
}

#[test]
fn long_term_memory_comes_first_on_ties() {
    let m = MemoryManager::new("/base");
    let mut files: Files = None;
    write(&mut files, &m.daily_path("2024-01-01"), "alpha log");
    write(&mut files, &m.long_term_path(), "alpha fact");
    assert_eq!(
        search(&m, &files, "alpha"),
        "Memory search results for \"alpha\"\n\n**[MEMORY.md]** (score: 1)\nalpha fact\n\n---\n\n\
         **[2024-01-01.md]** (score: 1)\nalpha log"
    );
}

#[test]
fn hits_are_reported_best_first() {
    let hit = |score: usize, file: &str, section: &str| SearchHit {
        score,
        file: file.to_string(),
        section: section.to_string(),
    };
    assert_eq!(report_hits("q", vec![]), "No results found for: q");
    assert_eq!(
        report_hits("q", vec![hit(1, "b.md", "x"), hit(2, "c.md", "y"), hit(1, "a.md", "z")]),
        "Memory search results for \"q\"\n\n**[c.md]** (score: 2)\ny\n\n---\n\n\
         **[a.md]** (score: 1)\nz\n\n---\n\n**[b.md]** (score: 1)\nx"
    );
    // On equal scores long-term memory comes first, wherever it was found.
    let tie = "Memory search results for \"q\"\n\n**[MEMORY.md]** (score: 1)\nm\n\n---\n\n\
               **[2024-01-01.md]** (score: 1)\nd";
    let (m, d) = (("MEMORY.md", "m"), ("2024-01-01.md", "d"));
    assert_eq!(report_hits("q", vec![hit(1, m.0, m.1), hit(1, d.0, d.1)]), tie);
    assert_eq!(report_hits("q", vec![hit(1, d.0, d.1), hit(1, m.0, m.1)]), tie);
    let terms = vec!["ab".to_string(), "c".to_string(), "ab".to_string()];
    assert_eq!(count_terms("xabx", &terms), 2);
}

#[test]
fn load_context_empty_when_no_files() {
    let m = MemoryManager::new("/base");
    assert_eq!(load_context(&m, &None), "");
}

#[test]
fn load_context_includes_memory_and_log() {
    let m = MemoryManager::new("/base");
    let mut files: Files = None;
    write(&mut files, &m.long_term_path(), "Key fact.");
    append_daily(&m, &mut files, "Today's work.");
    let ctx = load_context(&m, &files);
    assert!(ctx.contains("Key fact."));
    assert!(ctx.contains("Today's work."));
    let blank = Some(" ".to_string());
    let log = Some("y\n".to_string());
    assert_eq!(
        m.load_context(&blank, "D1", &log, "D2", &log),
        "## Yesterday's Log (D1)\n\ny\n\n---\n\n## Today's Log (D2)\n\ny"
    );
}

#[test]
fn days_to_ymd_known_dates() {
    assert_eq!(days_to_ymd(0), (1970, 1, 1));
    assert_eq!(days_to_ymd(30), (1970, 1, 31));
    assert_eq!(days_to_ymd(31), (1970, 2, 1));
    let (y, m, d) = days_to_ymd(19723);
    assert_eq!(y, 2024);
    assert_eq!(m, 1);
    assert_eq!(d, 1);
    assert_eq!(days_to_ymd(19723 + 59), (2024, 2, 29));
    assert_eq!(days_to_ymd(19722), (2023, 12, 31));
}

#[test]
fn is_leap_correct() {
    assert!(is_leap(2000));
    assert!(is_leap(2024));
    assert!(!is_leap(1900));
    assert!(!is_leap(2023));
}

#[test]
fn dates_and_times_are_padded() {
    assert_eq!(date_at(1_704_067_199, 0), "2023-12-31");
    assert_eq!(date_at(1_704_067_200, 0), "2024-01-01");
    assert_eq!(date_at(1_704_067_200, 1), "2023-12-31");
    assert_eq!(date_at(5, 3), "1970-01-01");
    for secs in [86_400u64, 946_684_800, 1_709_251_200, 253_402_300_799] {
        assert!(date_at(secs, 1) < date_at(secs, 0));
        assert_eq!(date_at(secs, 1).len(), 10);
    }
    assert_eq!(date_at(86_399, 1), date_at(86_399, 0));
    assert_eq!(time_at(86_400 + 3_600 * 9 + 60 * 7 + 59), "09:07 UTC");
}

#[test]
fn write_long_term_overwrites_existing() {
    let m = MemoryManager::new("/base");
    let mut files: Files = None;
    write(&mut files, &m.long_term_path(), "Old content.");
    write(&mut files, &m.long_term_path(), "New content.");
    let content = get_long_term(&m, &files).unwrap();
    assert_eq!(content, "New content.");
    assert!(!content.contains("Old content."));
}

#[test]
fn get_long_term_empty_when_not_exists() {
    let m = MemoryManager::new("/base");
    let content = get_long_term(&m, &None).unwrap();
    assert_eq!(content, "");
    assert_eq!(
        m.get_long_term(Some(Err("no".to_string()))).unwrap_err(),
        "Failed to read MEMORY.md: no"
    );
}

#[test]
fn search_ranks_more_matches_higher() {
    let m = MemoryManager::new("/base");
    let mut files: Files = None;
    write(
        &mut files,
        &m.long_term_path(),
        "Rust is great.\n\nRust and functional programming go well together. Rust Rust.",
    );
    let result = search(&m, &files, "rust functional");
    assert!(result.contains("functional"), "got: {}", result);
    assert!(result.find("functional programming") < result.find("Rust is great."));
}

#[test]
fn daily_log_get_yesterday() {
    let m = MemoryManager::new("/base");
    let mut files: Files = None;
    let path = m.daily_path(&MemoryManager::yesterday());
    write(&mut files, &path, "Yesterday content.");
    let result = get_daily(&m, &files, "yesterday").unwrap();
    assert!(result.contains("Yesterday content."));
    assert_eq!(m.resolve_date("  ", "T", "Y"), "T");
    assert_eq!(m.resolve_date(" 2024-01-01 ", "T", "Y"), "2024-01-01");
}

// Source files

/// The files below the peripheral's root.
type Disk = BTreeMap<String, String>;

fn look(disk: &Disk, path: &str) -> Found {
    if let Some(c) = disk.get(path) {
        return Found::File(c.clone());
    }
    let below = if path == "." { String::new() } else { format!("{}/", path) };
    let files: Vec<String> = disk.keys().filter(|p| p.starts_with(&below)).cloned().collect();
    if path == "." || path == "src" || !files.is_empty() {
        Found::Directory(files)
    } else {
        Found::Missing
    }
}

fn write_file(
    m: &SourceManager,
    disk: &mut Disk,
    path: &str,
    content: &str,
    range: Option<(usize, usize)>,
) -> Result<WriteReport, String> {
    match m.write_file_range(path, content, range, &look(disk, path)) {
        Ok(w) => {
            disk.insert(path.to_string(), w.content);
            Ok(w.report)
        }
        Err(e) => Err(e),
    }
}

fn search_disk(
    m: &SourceManager,
    disk: &Disk,
    query: &str,
    path: &str,
    max_results: usize,
) -> Result<String, String> {
    let exists = !matches!(look(disk, path), Found::Missing);
    let mut s = m.search(query, path, max_results, exists)?;
    let rules = m.ignore_rules(&disk.get(".gitignore").cloned())?;
    for (file, content) in disk.iter() {
        match s.visit(&rules, &format!("{}/{}", m.peripheral_root(), file), false) {
            Visit::Skip => {}
            Visit::Read => s.search_file(file, content),
            Visit::Stop => break,
            Visit::Elsewhere => panic!("{} is not below the peripheral", file),
        }
    }
    Ok(s.finish())
}

fn run_tool(m: &SourceManager, disk: &mut Disk, name: &str, arguments: &str) -> ToolResult {
    match execute_tool(name, arguments) {
        ToolRequest::Refused(message) => ToolResult::Output(message),
        ToolRequest::ReadSource { path, range } => {
            tool_output(m.read_file_range(&path, range, &look(disk, &path)))
        }
        ToolRequest::WriteSource { path, content, range } => {
            tool_output(write_file(m, disk, &path, &content, range).map(|r| r.summary()))
        }
        ToolRequest::SearchSource { query, path, max_results } => {
            tool_output(search_disk(m, disk, &query, &path, max_results))
        }
        ToolRequest::SubmitUpdate => ToolResult::SubmitUpdate(m.workspace_root().to_string()),
        _ => panic!("not a source tool"),
    }
}

fn output(r: ToolResult) -> String {
    match r {
        ToolResult::Output(s) => s,
        ToolResult::SubmitUpdate(s) => panic!("expected Output, got: {:?}", s),
    }
}

fn manager() -> SourceManager {
    SourceManager::new("/ws".to_string())
}

#[test]
fn write_file_to_existing_directory_returns_error_with_hint() {
    let mgr = manager();
    let mut disk = Disk::new();
    assert!(write_file(&mgr, &mut disk, "src/lib.rs", "// lib", None).is_ok());
    let result = write_file(&mgr, &mut disk, "src", "hello", None);
    assert!(result.is_err());
    let err = result.err().unwrap();
    assert!(err.contains("is a directory"), "expected directory error, got: {}", err);
    assert!(err.contains("src/lib.rs"), "expected file listing in hint, got: {}", err);
    assert!(err.contains("resolved to"), "expected resolved absolute path, got: {}", err);
    assert!(
        err.contains("peripheral crate root:"),
        "expected peripheral root path, got: {}",
        err
    );
    assert_eq!(
        err,
        "Path 'src' is a directory, not a file (resolved to /ws/crates/peripheral/src). \
         All paths are relative to the peripheral crate root: /ws/crates/peripheral. \
         You must specify a file path, e.g. 'src/main.rs'.\nFiles in this directory:\n  src/lib.rs\n"
    );
}

#[test]
fn write_file_to_dot_returns_error_with_hint() {
    let mgr = manager();
    let mut disk = Disk::new();
    assert!(write_file(&mgr, &mut disk, "Cargo.toml", "[package]", None).is_ok());
    let result = write_file(&mgr, &mut disk, ".", "[package]", None);
    assert!(result.is_err());
    let err = result.err().unwrap();
    assert!(err.contains("is a directory"), "expected directory error, got: {}", err);
    assert!(
        err.contains("You must specify a file path"),
        "expected guidance in hint, got: {}",
        err
    );
    assert!(err.contains("Cargo.toml"), "expected file listing in hint, got: {}", err);
    assert!(err.contains("resolved to"), "expected resolved absolute path, got: {}", err);
}

#[test]
fn write_file_normal_path_succeeds() {
    let mgr = manager();
    let mut disk = Disk::new();
    let content = mgr
        .write_file("src/test.rs", "fn main() {}", &look(&disk, "src/test.rs"))
        .expect("write should succeed");
    disk.insert("src/test.rs".to_string(), content);
    let content = mgr
        .read_file("src/test.rs", &look(&disk, "src/test.rs"))
        .expect("read should succeed");
    assert_eq!(content, "fn main() {}");
}

#[test]
fn read_file_on_directory_returns_error_with_hint() {
    let mgr = manager();
    let mut disk = Disk::new();
    disk.insert("src/main.rs".to_string(), "fn main() {}".to_string());
    let result = mgr.read_file("src", &look(&disk, "src"));
    assert!(result.is_err());
    let err = result.unwrap_err();
    assert!(err.contains("is a directory"), "expected directory error, got: {}", err);
    assert!(err.contains("src/main.rs"), "expected file listing in hint, got: {}", err);
    assert!(err.contains("resolved to"), "expected resolved absolute path, got: {}", err);
}

#[test]
fn read_file_not_found_includes_resolved_path() {
    let mgr = manager();
    let result = mgr.read_file("nonexistent.rs", &look(&Disk::new(), "nonexistent.rs"));
    assert!(result.is_err());
    let err = result.unwrap_err();
    assert!(err.contains("File not found"), "expected not found error, got: {}", err);
    assert!(err.contains("resolved to"), "expected resolved absolute path, got: {}", err);
    assert!(err.contains("nonexistent.rs"), "expected original path in error, got: {}", err);
}

#[test]
fn read_file_range_returns_numbered_lines() {
    let mgr = manager();
    let mut disk = Disk::new();
    assert!(write_file(&mgr, &mut disk, "src/lib.rs", "one\ntwo\nthree\n", None).is_ok());
    let output = mgr
        .read_file_range("src/lib.rs", Some((2, 3)), &look(&disk, "src/lib.rs"))
        .expect("read range should work");
    assert!(
        output.contains("Showing lines 2-3 of 3"),
        "expected range header, got: {}",
        output
    );
    assert!(output.contains("2: two"));
    assert!(output.contains("3: three"));
    assert_eq!(output, "Showing lines 2-3 of 3 (src/lib.rs):\n2: two\n3: three\n");
}

#[test]
fn write_file_range_replaces_only_target_lines() {
    let mgr = manager();
    let mut disk = Disk::new();
    assert!(write_file(&mgr, &mut disk, "src/lib.rs", "alpha\nbeta\ngamma\n", None).is_ok());
    let report = match write_file(&mgr, &mut disk, "src/lib.rs", "// replaced\n", Some((2, 2))) {
        Ok(r) => r,
        Err(e) => panic!("write range should succeed: {}", e),
    };
    let content = mgr.read_file("src/lib.rs", &look(&disk, "src/lib.rs")).unwrap();
    assert_eq!(content, "alpha\n// replaced\ngamma\n");
    assert!(report.diff.contains("@@"), "expected diff output, got: {}", report.diff);
    assert_eq!(
        report.diff,
        "--- original\n+++ updated\n@@ -1,3 +1,3 @@\n alpha\n-beta\n+// replaced\n gamma"
    );
}

#[test]
fn write_file_range_appends_at_end() {
    let mgr = manager();
    let mut disk = Disk::new();
    assert!(write_file(&mgr, &mut disk, "src/lib.rs", "a\nb\n", None).is_ok());
    assert!(
        write_file(&mgr, &mut disk, "src/lib.rs", "c\n", Some((3, 3))).is_ok(),
        "append should succeed"
    );
    let content = mgr.read_file("src/lib.rs", &look(&disk, "src/lib.rs")).unwrap();
    assert_eq!(content, "a\nb\nc\n");
}

#[test]
fn ranges_are_checked() {
    let e = |s: usize, t: usize| apply_line_range_edit("a\nb", "x", s, t);
    assert_eq!(e(1, 1), Ok("xb".to_string()));
    assert_eq!(e(1, 2), Ok("x".to_string()));
    assert_eq!(e(3, 3), Ok("a\nbx".to_string()));
    assert_eq!(e(0, 1), Err("Line numbers must start at 1.".to_string()));
    assert_eq!(
        e(2, 1),
        Err("Invalid range: end_line (1) must be >= start_line (2).".to_string())
    );
    assert_eq!(
        e(4, 4),
        Err("Cannot edit lines 4-4: file has 2 lines. Use start_line=end_line=3 to append."
            .to_string())
    );
    assert_eq!(
        e(3, 4),
        Err("When appending at end, set start_line=end_line=3 (file has 2).".to_string())
    );
    assert_eq!(
        e(2, 3),
        Err("end_line 3 exceeds file length 2. Use 3 to append at end.".to_string())
    );
    assert_eq!(apply_line_range_edit("", "x", 1, 1), Ok("x".to_string()));
    assert_eq!(line_spans("a\r\n\nb"), vec!["a\r\n", "\n", "b"]);
    assert!(line_spans("").is_empty());
}

#[test]
fn ranges_are_shown() {
    let text = "l\n".repeat(10);
    assert_eq!(
        show_range("f", &text, 9, 99).unwrap(),
        "Showing lines 9-10 of 10 (f):\n 9: l\n10: l\n"
    );
    assert_eq!(show_range("f", "", 1, 1).unwrap(), "File 'f' is empty; no lines to show.");
    assert_eq!(
        show_range("f", "a", 2, 3).unwrap_err(),
        "Requested lines 2-3 but file only has 1 lines."
    );
    assert_eq!(show_range("f", "a", 0, 3).unwrap_err(), "Line numbers must start at 1.");
    assert_eq!(
        show_range("f", "a", 3, 2).unwrap_err(),
        "Invalid range: end_line (2) must be >= start_line (3)."
    );
}

#[test]
fn paths_stay_below_the_root() {
    let mgr = manager();
    assert_eq!(
        mgr.read_file("/etc/x", &Found::Missing).unwrap_err(),
        "Path traversal not allowed"
    );
    assert_eq!(mgr.resolve("src/a.rs").unwrap(), "/ws/crates/peripheral/src/a.rs");
    assert!(mgr.list_files("/x", None).is_err());
    assert_eq!(
        mgr.list_files("x", None).unwrap_err(),
        "Directory not found: 'x' (resolved to /ws/crates/peripheral/x)"
    );
    assert_eq!(
        mgr.list_files(".", Some(Err("denied".to_string()))).unwrap_err(),
        "List error: denied"
    );
    let listing = vec!["b".to_string(), "a/c".to_string(), "B".to_string()];
    assert_eq!(mgr.list_files(".", Some(Ok(listing))).unwrap(), vec!["B", "a/c", "b"]);
    assert_eq!(
        mgr.read_file("f", &Found::Unreadable("bad".to_string())).unwrap_err(),
        "Read error: bad (resolved to /ws/crates/peripheral/f)"
    );
    assert_eq!(
        write_file(&mgr, &mut Disk::new(), "n.rs", "x", Some((1, 1))).err().unwrap(),
        "Cannot apply line-range edit because the file does not exist (resolved to \
         /ws/crates/peripheral/n.rs). Create the file first or omit start_line/end_line to write a \
         new file."
    );
}

#[test]
fn paths_do_not_climb_out() {
    let mgr = manager();
    let mut disk = Disk::new();
    let refused = Err("Path traversal not allowed".to_string());
    for path in [
        "../outside.rs",
        "..",
        "src/../../x",
        "a/./../..//b/../c",
        "/etc/outside.rs",
        "/ws/crates/peripheral/../x",
        "/ws/crates/peripherals/x",
        "../peripherals/x",
        "../../peripheral/x",
        "../../../../../peripheral/x",
        "/ws/crates/x/../peripheral/b",
    ] {
        assert_eq!(mgr.write_file(path, "x", &Found::Missing), refused, "{}", path);
        assert_eq!(mgr.read_file(path, &Found::File("x".to_string())), refused, "{}", path);
        assert_eq!(mgr.list_files(path, None).err(), refused.clone().err());
        assert_eq!(mgr.search("q", path, 1, true).err(), refused.clone().err());
        assert_eq!(mgr.resolve(path), refused);
        assert!(write_file(&mgr, &mut disk, path, "x", None).is_err());
    }
    assert!(disk.is_empty());
    // A path may climb out where it comes back in.
    for path in [
        "src/../x.rs",
        "a/b/../../c",
        "./..x",
        "/ws/crates/peripheral/a/../x",
        "../peripheral/src/main.rs",
        "../../../../ws/crates/peripheral/x",
        "/ws/crates/peripheral/a/../../peripheral/b",
    ] {
        assert_eq!(mgr.write_file(path, "x", &Found::Missing), Ok("x".to_string()), "{}", path);
    }
}

#[test]
fn relative_roots_keep_their_paths() {
    let mgr = SourceManager::new("..".to_string());
    assert!(mgr.resolve("src/main.rs").is_ok());
    assert!(mgr.resolve("../peripheral/x").is_ok());
    assert!(mgr.resolve("../x").is_err());
    assert!(mgr.resolve("../../../x/crates/peripheral/y").is_err());
}

#[test]
fn listings_leave_out_what_is_left_alone() {
    let mgr = manager();
    let list = |dir: &str, files: &[&str]| {
        let files = files.iter().map(|f| f.to_string()).collect();
        mgr.list_files(dir, Some(Ok(files))).unwrap()
    };
    assert_eq!(
        list(".", &["src/b.rs", "target/x", "src/target/y", ".git/HEAD", "a", "src/b.rs", "targets"]),
        vec!["a", "src/b.rs", "targets"]
    );
    assert_eq!(list(".", &["target"]), Vec::<String>::new());
    // Only the names behind the directory count.
    assert_eq!(
        list("target", &["target/x", "target/target/y", "target/d/.git"]),
        vec!["target/x"]
    );
    assert_eq!(
        list("/ws/crates/peripheral/target", &["target/x", "target/.git/y"]),
        vec!["target/x"]
    );
    let files = vec!["src/target/x".to_string(), "src/z".to_string(), "src/a".to_string()];
    let hint = mgr.read_file("src", &Found::Directory(files)).unwrap_err();
    assert!(hint.ends_with("\nFiles in this directory:\n  src/a\n  src/z\n"), "got: {}", hint);
    let none = mgr.read_file("src", &Found::Directory(vec!["src/target/x".to_string()]));
    assert!(none.unwrap_err().ends_with("e.g. 'src/main.rs'."));
}

#[test]
fn long_diffs_are_cut() {
    assert_eq!(truncate_with_ellipsis("héllo", 2), "h...(diff truncated)");
    assert_eq!(truncate_with_ellipsis("héllo", 6), "héllo");
    let long = "x\n".repeat(5000);
    let d = summarize_diff("", &long);
    assert!(d.ends_with("...(diff truncated)"));
    assert_eq!(d.len(), 8000 + "...(diff truncated)".len());
    assert_eq!(summarize_diff("a\n", "a\n"), "");
    assert_eq!(show_diff("\n@@ x \n"), "@@ x");
}

#[test]
fn search_respects_gitignore() {
    let mgr = manager();
    let mut disk = Disk::new();
    assert!(write_file(&mgr, &mut disk, "src/lib.rs", "find me\n", None).is_ok());
    disk.insert("ignored.txt".to_string(), "find me too\n".to_string());
    disk.insert("ignored_dir/file.rs".to_string(), "find me three\n".to_string());
    disk.insert(".gitignore".to_string(), "ignored.txt\nignored_dir/\n".to_string());
    let result = match search_disk(&mgr, &disk, "find", ".", 10) {
        Ok(r) => r,
        Err(e) => panic!("search should succeed: {}", e),
    };
    assert!(
        result.contains("src/lib.rs"),
        "expected match in src/lib.rs, got: {}",
        result
    );
    assert!(!result.contains("ignored.txt"), "ignored file should not appear: {}", result);
    assert!(
        !result.contains("ignored_dir"),
        "ignored directory should not appear: {}",
        result
    );
    assert_eq!(result, "src/lib.rs:1: find me");
}

#[test]
fn ignored_files_are_left_out() {
    let mgr = manager();
    let visit = |rules: Option<&str>, path: &str, is_dir: bool| {
        let rules = mgr.ignore_rules(&rules.map(|r| r.to_string())).ok().unwrap();
        mgr.search("q", ".", 1, true).ok().unwrap().visit(&rules, path, is_dir)
    };
    let file = "/ws/crates/peripheral/src/a.log";
    assert_eq!(visit(None, file, false), Visit::Read);
    assert_eq!(visit(None, file, true), Visit::Skip);
    assert_eq!(visit(Some("*.log\n"), file, false), Visit::Skip);
    assert_eq!(visit(Some("\u{feff}*.log\r\n"), file, false), Visit::Skip);
    assert_eq!(visit(Some("*.log\n!a.log\n"), file, false), Visit::Read);
    assert_eq!(visit(Some("src/\n"), file, false), Visit::Skip);
    assert_eq!(visit(Some("/a.log\n"), file, false), Visit::Read);
    assert_eq!(visit(Some("# nothing\n\n"), file, false), Visit::Read);
    assert_eq!(visit(Some("{a\n*.log\n"), file, false), Visit::Skip);
    // Rules apply below their directory only; without a rule there is no limit.
    assert_eq!(visit(Some("*.log\n"), "/elsewhere/a.log", false), Visit::Elsewhere);
    assert_eq!(visit(Some("*.log\n"), "/ws/crates/peripheral", false), Visit::Elsewhere);
    assert_eq!(visit(Some("*.log\n"), "/ws/crates/peripheral//a.log", false), Visit::Elsewhere);
    assert_eq!(visit(Some("# nothing\n"), "/elsewhere/a.log", false), Visit::Read);
    assert_eq!(visit(Some(" \n{a\n"), "/elsewhere/a.log", false), Visit::Read);
    // Trailing white space is no part of a rule, unless it is escaped.
    assert_eq!(visit(Some("*.log  \n"), file, false), Visit::Skip);
    assert_eq!(visit(Some("*.log\\ \n"), file, false), Visit::Read);
    assert_eq!(visit(None, "/elsewhere/a.log", false), Visit::Read);

    // A leading `./` makes no difference, of the directory or of the path.
    let near = SourceManager::new(".".to_string());
    let rules = near.ignore_rules(&Some("*.log\n".to_string())).ok().unwrap();
    let s = near.search("q", ".", 1, true).ok().unwrap();
    assert_eq!(s.visit(&rules, "./crates/peripheral/a.log", false), Visit::Skip);
    assert_eq!(s.visit(&rules, "crates/peripheral/a.log", false), Visit::Skip);
    assert_eq!(s.visit(&rules, "./crates/peripheral/a.rs", false), Visit::Read);
    assert_eq!(s.visit(&rules, "/crates/peripheral/a.log", false), Visit::Elsewhere);

    // A search ends at the first file once it has enough.
    let rules = mgr.ignore_rules(&Some("*.log\n".to_string())).ok().unwrap();
    let mut s = mgr.search("q", ".", 1, true).ok().unwrap();
    s.search_file("f", "q\nq\n");
    assert_eq!(s.visit(&rules, "/ws/crates/peripheral/b", false), Visit::Stop);
    assert_eq!(s.visit(&rules, file, false), Visit::Skip);
    assert_eq!(s.finish_file(Visit::Skip), "Search root is ignored by .gitignore.");
    assert_eq!(s.finish_file(Visit::Stop), "f:1: q");

    // What is left out makes no difference.
    let mut disk = Disk::new();
    disk.insert(".gitignore".to_string(), "*.log\n".to_string());
    disk.insert("a.rs".to_string(), "one q\n".to_string());
    let without = search_disk(&mgr, &disk, "q", ".", 5).ok().unwrap();
    disk.insert("a.log".to_string(), "q\n".to_string());
    assert_eq!(search_disk(&mgr, &disk, "q", ".", 5).ok().unwrap(), without);
    assert_eq!(without, "a.rs:1: one q");
}

#[test]
fn searches_have_a_limit() {
    let mgr = manager();
    let mut s = mgr.search("a", ".", 2, true).ok().unwrap();
    assert_eq!(s.finish(), "No matches found.");
    s.search_file("f", "b\na  \nxax\na\n");
    assert!(s.is_full());
    s.search_file("g", "a\n");
    assert_eq!(s.finish(), "f:2: a\nf:3: xax");
    assert_eq!(mgr.search(" ", ".", 2, true).err().unwrap(), "Search query must not be empty.");
    assert_eq!(
        mgr.search("q", "x", 2, false).err().unwrap(),
        "Search root not found: 'x' (resolved to /ws/crates/peripheral/x)"
    );
}

// Tools

#[test]
fn write_source_file_with_empty_arguments_returns_parse_error() {
    let msg = output(run_tool(&manager(), &mut Disk::new(), "write_source_file", ""));
    assert!(
        msg.contains("Failed to parse arguments"),
        "expected JSON parse error, got: {}",
        msg
    );
}

#[test]
fn write_source_file_with_missing_path_returns_error() {
    let msg = output(run_tool(
        &manager(),
        &mut Disk::new(),
        "write_source_file",
        r#"{"content": "fn main() {}"}"#,
    ));
    assert!(
        msg.contains("'path' parameter is required"),
        "expected missing path error, got: {}",
        msg
    );
}

#[test]
fn write_source_file_with_valid_arguments_succeeds() {
    let msg = output(run_tool(
        &manager(),
        &mut Disk::new(),
        "write_source_file",
        r#"{"path": "src/test.rs", "content": "fn main() {}"}"#,
    ));
    assert!(msg.contains("Updated src/test.rs"), "expected success, got: {}", msg);
}

#[test]
fn write_source_file_with_range_succeeds() {
    let mut disk = Disk::new();
    disk.insert("src/test.rs".to_string(), "line1\nline2\nline3\n".to_string());
    let msg = output(run_tool(
        &manager(),
        &mut disk,
        "write_source_file",
        r#"{"path": "src/test.rs", "content": "// replace\n", "start_line": 2, "end_line": 2}"#,
    ));
    assert!(msg.contains("lines 2-2"), "expected range summary, got: {}", msg);
    assert!(msg.starts_with("Updated src/test.rs (lines 2-2).\n--- original\n"));
}

#[test]
fn write_source_file_requires_start_line_when_end_line_given() {
    let msg = output(run_tool(
        &manager(),
        &mut Disk::new(),
        "write_source_file",
        r#"{"path": "src/test.rs", "content": "a", "end_line": 3}"#,
    ));
    assert!(msg.contains("start_line"), "expected start_line error, got: {}", msg);
    assert_eq!(msg, "Error: Provide start_line when end_line is set.");
}

#[test]
fn search_source_files_returns_match() {
    let mut disk = Disk::new();
    disk.insert("src/lib.rs".to_string(), "needle here\n".to_string());
    let msg = output(run_tool(
        &manager(),
        &mut disk,
        "search_source_files",
        r#"{"query": "needle", "path": "src"}"#,
    ));
    assert!(msg.contains("src/lib.rs"), "expected search hit, got: {}", msg);
}

#[test]
fn read_source_file_range_works() {
    let mut disk = Disk::new();
    disk.insert("src/lib.rs".to_string(), "one\ntwo\nthree\n".to_string());
    let msg = output(run_tool(
        &manager(),
        &mut disk,
        "read_source_file",
        r#"{"path": "src/lib.rs", "start_line": 2, "end_line": 2}"#,
    ));
    assert!(msg.contains("2: two"), "expected line 2, got: {}", msg);
}

#[test]
fn read_source_file_with_empty_path_returns_error() {
    let msg =
        output(run_tool(&manager(), &mut Disk::new(), "read_source_file", r#"{"path": ""}"#));
    assert!(
        msg.contains("'path' parameter is required"),
        "expected missing path error, got: {}",
        msg
    );
}

#[test]
fn read_source_file_with_missing_path_returns_error() {
    let msg = output(run_tool(&manager(), &mut Disk::new(), "read_source_file", r#"{}"#));
    assert!(
        msg.contains("'path' parameter is required"),
        "expected missing path error, got: {}",
        msg
    );
}

#[test]
fn invalid_json_arguments_returns_parse_error() {
    let msg =
        output(run_tool(&manager(), &mut Disk::new(), "write_source_file", "not valid json"));
    assert!(
        msg.contains("Failed to parse arguments"),
        "expected parse error, got: {}",
        msg
    );
    assert!(
        msg.contains("not valid json"),
        "expected raw arguments in error, got: {}",
        msg
    );
    assert_eq!(
        msg,
        "Error: Failed to parse arguments as JSON: expected ident at line 1 column 2. \
         Raw arguments: not valid json"
    );
}

#[test]
fn other_tools_are_read() {
    assert!(matches!(execute_tool("submit_update", "{}"), ToolRequest::SubmitUpdate));
    assert!(
        matches!(execute_tool("memory_get", "{}"), ToolRequest::MemoryGet { date } if date == "today")
    );
    assert!(
        matches!(execute_tool("memory_search", r#"{"query":"q"}"#), ToolRequest::MemorySearch { query } if query == "q")
    );
    assert!(matches!(execute_tool("memory_get_long_term", "{}"), ToolRequest::MemoryGetLongTerm));
    assert!(
        matches!(execute_tool("memory_write", "{}"), ToolRequest::MemoryWrite { content } if content.is_empty())
    );
    assert!(
        matches!(execute_tool("memory_append", r#"{"content":"c"}"#), ToolRequest::MemoryAppend { content } if content == "c")
    );
    assert!(
        matches!(execute_tool("list_source_files", "[]"), ToolRequest::ListSource { path } if path == ".")
    );
    assert!(
        matches!(execute_tool("nope", "{}"), ToolRequest::Refused(m) if m == "Unknown tool: nope")
    );
    assert!(matches!(
        execute_tool("search_source_files", r#"{"query":" "}"#),
        ToolRequest::Refused(m) if m == "Error: 'query' parameter is required but was empty or missing."
    ));
    let limit = |args: &str| match execute_tool("search_source_files", args) {
        ToolRequest::SearchSource { max_results, .. } => max_results,
        _ => panic!("no search"),
    };
    assert_eq!(limit(r#"{"query":"q"}"#), 40);
    assert_eq!(limit(r#"{"query":"q","max_results":0}"#), 1);
    assert_eq!(limit(r#"{"query":"q","max_results":999}"#), 200);
}

#[test]
fn outcomes_are_told() {
    assert_eq!(output(tool_output(Err("e".to_string()))), "Error: e");
    assert_eq!(
        output(list_output(Ok(vec!["a".to_string(), "b".to_string()]))),
        "a\nb"
    );
    assert_eq!(output(list_output(Err("e".to_string()))), "Error: e");
    assert_eq!(output(long_term_output(Ok(String::new()))), "MEMORY.md is empty.");
    assert_eq!(output(memory_write_output(Ok(()))), "MEMORY.md updated.");
    assert_eq!(
        output(memory_append_output(Ok(()), "2024-01-01")),
        "Appended to today's log (2024-01-01)."
    );
    assert_eq!(output(memory_append_output(Err("e".to_string()), "")), "Error: e");
}

#[test]
fn tools_are_described() {
    let tools = tool_definitions();
    let names: Vec<&str> = tools.iter().map(|t| t.function.name.as_str()).collect();
    assert_eq!(
        names,
        vec![
            "read_source_file",
            "list_source_files",
            "write_source_file",
            "search_source_files",
            "submit_update",
            "memory_search",
            "memory_get",
            "memory_get_long_term",
            "memory_write",
            "memory_append"
        ]
    );
    assert_eq!(
        tools[4].function.parameters.compact(),
        "{\"properties\":{},\"required\":[],\"type\":\"object\"}"
    );
    assert_eq!(
        tools[2].function.parameters.get("required").unwrap().compact(),
        "[\"path\",\"content\"]"
    );
}

// Connection to boot

#[test]
fn messages_to_boot() {
    let mut counter: u64 = 1;
    assert_eq!(new_msg_id(&mut counter), "peripheral-1");
    let id = new_msg_id(&mut counter);
    let hello = make_hello(id, Some(80));
    assert_eq!(hello.id, "peripheral-2");
    assert_eq!(hello.msg_type, msg_types::HELLO);
    assert_eq!(
        hello.payload.compact(),
        "{\"capabilities\":[\"agent\"],\"http_port\":80,\"protocol_version\":\"1.0\"}"
    );
    let beat = make_heartbeat("i".to_string(), 2);
    assert_eq!(
        beat.payload.compact(),
        "{\"health\":{\"cpu_percent\":0.0,\"memory_bytes\":0,\"runlevel\":2,\"tasks_processed\":0}}"
    );
    let submit = make_submit_update("i".to_string(), "/w");
    assert_eq!(submit.payload.compact(), "{\"source_path\":\"/w\"}");
    assert_eq!((submit.from.as_str(), submit.to.as_str()), ("peripheral", "boot"));
}

#[test]
fn messages_from_boot() {
    assert!(check_welcome("Welcome").is_ok());
    assert_eq!(check_welcome("Hello").unwrap_err(), "Expected Welcome, got: Hello");
    assert!(matches!(incoming("LeaseAck"), Incoming::Note));
    assert!(matches!(incoming("Shutdown"), Incoming::Stop));
    assert!(matches!(incoming("UpdateRejected"), Incoming::Deliver));
    assert!(matches!(incoming("x"), Incoming::Ignore));
}

#[test]
fn configuration_is_read() {
    assert_eq!(read_port(None), 7700);
    assert_eq!(read_port(Some("8080")), 8080);
    assert_eq!(read_port(Some("70000")), 7700);
    assert_eq!(read_port(Some("x")), 7700);
    assert_eq!(config_api_key(&json(r#"{"deepseek_api_key":"k"}"#)).unwrap(), "k");
    assert_eq!(
        read_config_api_key(None).unwrap_err(),
        "DEEPSEEK_API_KEY not set and not found in ~/.reloopy/config.json"
    );
    assert_eq!(
        read_config_api_key(Some(Err("no".to_string()))).unwrap_err(),
        "Read config: no"
    );
    assert!(read_config_api_key(Some(Ok("{".to_string())))
        .unwrap_err()
        .starts_with("Parse config: "));
    assert_eq!(
        read_config_api_key(Some(Ok("{\"deepseek_api_key\":\"z\"}".to_string()))).unwrap(),
        "z"
    );
}

#[test]
fn workspaces_are_found() {
    assert_eq!(
        workspace_places("/b", &None),
        vec!["/b/workspace", "/b/peripheral/current/source"]
    );
    let named = Some("/n".to_string());
    assert_eq!(workspace_places("/b", &named), vec!["/n"]);
    assert_eq!(resolve_workspace_root("/b", &named, &vec![true]).unwrap(), "/n");
    assert_eq!(
        resolve_workspace_root("/b", &named, &vec![false]).unwrap_err(),
        "RELOOPY_WORKSPACE=/n does not contain crates/peripheral/"
    );
    assert_eq!(
        resolve_workspace_root("/b", &None, &vec![false, true]).unwrap(),
        "/b/peripheral/current/source"
    );
    assert_eq!(
        resolve_workspace_root("/b", &None, &vec![false, false]).unwrap_err(),
        "Cannot determine workspace root. Set RELOOPY_WORKSPACE env var, \
         populate ~/.reloopy/workspace, or ensure ~/.reloopy/peripheral/current/source/ exists."
    );
}
