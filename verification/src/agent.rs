//! The agent: its conversation with the model, and what it does about replies.

use crate::scan::{contains_text, law_parts_are_found};
use crate::deepseek::{
    calls, plain_message, tool_message, Call, ChatMessage, Message, StreamEvent, ToolCall,
};
use crate::json::{Json, JsonTree};
use crate::messages::Envelope;
use crate::msg_types;
use crate::scripted_llm::messages;
use crate::split::{lines, lines_of, texts};
use crate::text::{dec, decimal, str_eq};
use crate::version::sentence;
use vstd::prelude::*;
use vstd::string::*;

verus! {

/// The lines of a tool's output that are shown as it arrives.
pub const TOOL_TRUNCATE_LINES: usize = 120;

/// What the model is told about itself and its tools.
pub const BASE_SYSTEM_PROMPT: &'static str = r#"You are Reloopy, a self-evolving AI agent written in Rust. You can read and modify your own source code to improve yourself.

## Source Code Tools
- read_source_file(path, offset?, limit?, start_line?, end_line?): Read a file or a 1-based inclusive line range. Prefer offset+limit to page large files. Paths are relative to the peripheral crate root (e.g. "src/main.rs", "Cargo.toml").
- search_source(query, path?="."): Search source files using a .gitignore-aware walker. Supports regex. Returns "path:line: snippet" matches.
- list_source_files(path): List files in your source directory. Path is relative to the peripheral crate root (e.g. "src/", ".").
- write_source_file(path, content, start_line?, end_line?): Write changes directly to a file in your working directory. Provide the replacement text for the targeted range or entire file. Use line ranges for precise edits or set start_line=end_line=current_line_count+1 to append.
- edit_source_file(path, old_string, new_string): Precisely replace a single matching string in a file. Fails if the match is missing or ambiguous.
- submit_update(): Submit the current working directory for compilation and deployment. This tool returns the build/test result. If compilation fails, read the error messages, fix the code with write_source_file, and call submit_update() again.

## Memory Tools
- memory_search(query): Search across all memory files for relevant content.
- memory_get(date): Get a daily log. date = "today" | "yesterday" | "YYYY-MM-DD".
- memory_get_long_term(): Read the full MEMORY.md. Always call this before memory_write to safely merge updates.
- memory_write(content): Overwrite MEMORY.md with updated long-term facts. Always call memory_get_long_term first to read existing content, then merge and rewrite the full document.
- memory_append(content): Append a note to today's daily log.

## Guidelines
- Always read the relevant source files before making changes
- Use search_source and line ranges to keep context focused
- Tool outputs are line-truncated for previews and include total line counts; keep requests concise and rely on targeted reads/diffs
- Ensure your changes produce valid, compilable Rust code
- Maintain IPC protocol compatibility (handshake, heartbeat, message handling)
- Make focused, incremental changes
- After writing all modified files, call submit_update() to deploy
- submit_update() returns compilation/test results. If it fails, analyze the errors, fix the code, and re-submit
- Use memory_append() to record important decisions or context during a session
- Use memory_write() to persist key facts that should survive across sessions
"#;

/// The system prompt, with what the memory says where it says anything.
pub open spec fn system_prompt(context: Seq<char>) -> Seq<char> {
    if context.len() == 0 {
        BASE_SYSTEM_PROMPT@
    } else {
        BASE_SYSTEM_PROMPT@ + "\n## Current Memory\n\n"@ + context
    }
}

/// The system prompt for a memory context.
pub fn build_system_prompt(context: &str) -> (s: String)
    ensures
        s@ == system_prompt(context@),
{
    let mut s = BASE_SYSTEM_PROMPT.to_owned();
    if context.unicode_len() > 0 {
        s.append("\n## Current Memory\n\n");
        s.append(context);
    }
    s
}

/// Lines, each with a line end.
pub open spec fn ended(all: Seq<Seq<char>>) -> Seq<char>
    decreases all.len(),
{
    if all.len() == 0 {
        Seq::empty()
    } else {
        ended(all.drop_last()) + all.last() + "\n"@
    }
}

/// A text cut to a number of lines, with a note where it has more.
pub open spec fn first_lines(s: Seq<char>, max: nat) -> Seq<char> {
    let all = lines(s);
    if all.len() <= max {
        s
    } else {
        ended(all.take(max as int)) + "... (truncated; showing first "@ + dec(max) + " of "@ + dec(
            all.len(),
        ) + " lines)"@
    }
}

/// Cuts a text to a number of lines.
pub fn truncate_lines(s: &str, max_lines: usize) -> (r: String)
    ensures
        r@ == first_lines(s@, max_lines as nat),
{
    let all = lines_of(s);
    let ghost t = texts(all@);
    assert(t.len() == all@.len());
    if all.len() <= max_lines {
        return s.to_owned();
    }
    let mut out = String::new();
    let mut i: usize = 0;
    assert(t.take(0).len() == 0);
    while i < max_lines
        invariant
            i <= max_lines < all@.len(),
            t == texts(all@),
            out@ == ended(t.take(i as int)),
        decreases max_lines - i,
    {
        assert(t.take(i + 1).drop_last() =~= t.take(i as int));
        out.append(all[i].as_str());
        out.append("\n");
        i += 1;
    }
    out.append("... (truncated; showing first ");
    out.append(decimal(max_lines as u64).as_str());
    out.append(" of ");
    out.append(decimal(all.len() as u64).as_str());
    out.append(" lines)");
    out
}

/// A string field of a payload, or a default.
pub open spec fn field_or(payload: JsonTree, name: Seq<char>, default: Seq<char>) -> Seq<char> {
    match payload.get_text(name) {
        Some(s) => s,
        None => default,
    }
}

/// What the model is told of the boot process's answer to an update.
pub open spec fn update_result(msg_type: Seq<char>, payload: JsonTree) -> Seq<char> {
    if msg_type == "UpdateAccepted"@ {
        "Update ACCEPTED — version "@ + field_or(payload, "version"@, "unknown"@)
            + " deployed successfully."@
    } else if msg_type == "UpdateRejected"@ {
        let errors = field_or(payload, "errors"@, Seq::empty());
        let suggestion = field_or(payload, "suggestion"@, Seq::empty());
        let m = "Update REJECTED: "@ + field_or(payload, "reason"@, "unknown"@);
        let m = if errors.len() > 0 {
            m + "\n\nCompilation errors:\n"@ + errors
        } else {
            m
        };
        if suggestion.len() > 0 {
            m + "\n\nSuggestion: "@ + suggestion
        } else {
            m
        }
    } else {
        "Unexpected response from Boot: "@ + msg_type
    }
}

fn field(payload: &Json, name: &str, default: &str) -> (s: String)
    requires
        payload.wf(),
    ensures
        s@ == field_or(payload.tree(), name@, default@),
{
    match payload.get_str(name) {
        Some(s) => s.to_owned(),
        None => default.to_owned(),
    }
}

/// What the model is told of the boot process's answer to an update.
pub fn format_update_result(envelope: &Envelope) -> (s: String)
    requires
        envelope.payload.wf(),
    ensures
        s@ == update_result(envelope.msg_type@, envelope.payload.tree()),
{
    let none = String::new();
    if str_eq(envelope.msg_type.as_str(), msg_types::UPDATE_ACCEPTED) {
        let version = field(&envelope.payload, "version", "unknown");
        let mut m = sentence("Update ACCEPTED — version ", version.as_str());
        m.append(" deployed successfully.");
        m
    } else if str_eq(envelope.msg_type.as_str(), msg_types::UPDATE_REJECTED) {
        let reason = field(&envelope.payload, "reason", "unknown");
        let errors = field(&envelope.payload, "errors", none.as_str());
        let suggestion = field(&envelope.payload, "suggestion", none.as_str());
        let mut m = sentence("Update REJECTED: ", reason.as_str());
        if errors.as_str().unicode_len() > 0 {
            m.append("\n\nCompilation errors:\n");
            m.append(errors.as_str());
        }
        if suggestion.as_str().unicode_len() > 0 {
            m.append("\n\nSuggestion: ");
            m.append(suggestion.as_str());
        }
        m
    } else {
        sentence("Unexpected response from Boot: ", envelope.msg_type.as_str())
    }
}

/// What is told of the agent's work while it goes on.
#[derive(Debug, Clone)]
pub enum AgentEvent {
    Reasoning(String),
    Content(String),
    ToolCallStart { id: String, name: String },
    ToolCallArgDelta(String),
    ToolResult { name: String, output: String },
    SubmitUpdate { source_path: String },
    Error(String),
    Done,
}

/// How a request to the agent ends.
pub enum AgentOutcome {
    Done,
}

/// What of a stream is passed on: everything but its end and its errors.
pub fn forward_event(e: StreamEvent) -> (r: Option<AgentEvent>)
    ensures
        (match e {
            StreamEvent::Reasoning(s) => r == Some(AgentEvent::Reasoning(s)),
            StreamEvent::Content(s) => r == Some(AgentEvent::Content(s)),
            StreamEvent::ToolCallStart { id, name } => r == Some(
                AgentEvent::ToolCallStart { id, name },
            ),
            StreamEvent::ToolCallArgDelta(s) => r == Some(AgentEvent::ToolCallArgDelta(s)),
            StreamEvent::Done => r is None,
            StreamEvent::Error(_) => r is None,
        }),
{
    match e {
        StreamEvent::Reasoning(s) => Some(AgentEvent::Reasoning(s)),
        StreamEvent::Content(s) => Some(AgentEvent::Content(s)),
        StreamEvent::ToolCallStart { id, name } => Some(AgentEvent::ToolCallStart { id, name }),
        StreamEvent::ToolCallArgDelta(s) => Some(AgentEvent::ToolCallArgDelta(s)),
        StreamEvent::Done => None,
        StreamEvent::Error(_) => None,
    }
}

/// What is told of a tool's output: its first lines.
pub fn tool_result_event(name: &str, output: &str) -> (e: AgentEvent)
    ensures
        e is ToolResult,
        e->ToolResult_name@ == name@,
        e->output@ == first_lines(output@, TOOL_TRUNCATE_LINES as nat),
{
    AgentEvent::ToolResult {
        name: name.to_owned(),
        output: truncate_lines(output, TOOL_TRUNCATE_LINES),
    }
}

/// What came of submitting an update.
pub enum SubmitOutcome {
    /// The submission could not be sent.
    NotSent,
    Answered(Envelope),
    /// No answer can come any more.
    Closed,
    TimedOut,
}

/// What the model is told of a submission, and whether the users are to be
/// warned that the agent is being replaced.
pub fn submit_result(outcome: &SubmitOutcome) -> (r: (String, bool))
    requires
        outcome is Answered ==> outcome->Answered_0.payload.wf(),
    ensures
        r.0@ == (match *outcome {
            SubmitOutcome::NotSent => "Error: Lost connection to Boot"@,
            SubmitOutcome::Answered(e) => update_result(e.msg_type@, e.payload.tree()),
            SubmitOutcome::Closed => "Error: IPC channel closed"@,
            SubmitOutcome::TimedOut => "Error: Timed out waiting for build result (300s)"@,
        }),
        r.1 <==> outcome is Answered && outcome->Answered_0.msg_type@ == "Shutdown"@,
{
    match outcome {
        SubmitOutcome::NotSent => ("Error: Lost connection to Boot".to_owned(), false),
        SubmitOutcome::Answered(e) => {
            let text = format_update_result(e);
            (text, str_eq(e.msg_type.as_str(), msg_types::SHUTDOWN))
        },
        SubmitOutcome::Closed => ("Error: IPC channel closed".to_owned(), false),
        SubmitOutcome::TimedOut => {
            ("Error: Timed out waiting for build result (300s)".to_owned(), false)
        },
    }
}

/// What the agent does after a reply of the model.
pub enum AgentStep {
    /// Run the tools, answer each call, and ask the model again.
    RunTools(Vec<ToolCall>),
    /// The request is done.
    Finished,
}

/// A conversation with the model.
pub struct Conversation {
    messages: Vec<ChatMessage>,
}

impl View for Conversation {
    type V = Seq<Message>;

    closed spec fn view(&self) -> Seq<Message> {
        messages(self.messages@)
    }
}

/// The message that a reply is remembered as: a reply without tool calls is
/// remembered by its content alone.
pub open spec fn remembered(m: Message) -> Message {
    match m.tool_calls {
        Some(_) => m,
        None => plain_message(
            "assistant"@,
            match m.content {
                Some(c) => c,
                None => Seq::empty(),
            },
        ),
    }
}

impl Conversation {
    /// A conversation that begins with the system prompt.
    pub fn new(context: &str) -> (c: Conversation)
        ensures
            c@ == seq![plain_message("system"@, system_prompt(context@))],
    {
        let prompt = build_system_prompt(context);
        let mut v: Vec<ChatMessage> = Vec::new();
        v.push(ChatMessage::system(prompt.as_str()));
        let c = Conversation { messages: v };
        assert(c@ =~= seq![plain_message("system"@, system_prompt(context@))]);
        c
    }

    /// The messages, to be sent to the model.
    pub fn messages(&self) -> (v: &Vec<ChatMessage>)
        ensures
            messages(v@) == self@,
    {
        &self.messages
    }

    fn push(&mut self, m: ChatMessage)
        ensures
            final(self)@ == old(self)@.push(m@),
    {
        self.messages.push(m);
        assert(self@ =~= old(self)@.push(m@));
    }

    /// Takes in what the user says.
    pub fn user_said(&mut self, input: &str)
        ensures
            final(self)@ == old(self)@.push(plain_message("user"@, input@)),
    {
        self.push(ChatMessage::user(input));
    }

    /// Takes in a reply of the model.
    pub fn model_replied(&mut self, reply: ChatMessage) -> (step: AgentStep)
        ensures
            final(self)@ == old(self)@.push(remembered(reply@)),
            (match reply@.tool_calls {
                Some(c) => step is RunTools && calls(step->RunTools_0@) == c,
                None => step is Finished,
            }),
    {
        let copy = reply.copy();
        match reply.tool_calls {
            Some(c) => {
                self.push(copy);
                AgentStep::RunTools(c)
            },
            None => {
                let text = match reply.content {
                    Some(t) => t,
                    None => String::new(),
                };
                self.push(
                    ChatMessage {
                        role: "assistant".to_owned(),
                        content: Some(text),
                        tool_calls: None,
                        tool_call_id: None,
                    },
                );
                AgentStep::Finished
            },
        }
    }

    /// Takes in the output of a tool.
    pub fn tool_answered(&mut self, output: &str, call_id: &str)
        ensures
            final(self)@ == old(self)@.push(tool_message(output@, call_id@)),
    {
        self.push(ChatMessage::tool(output, call_id));
    }

    /// Begins again, with the memory as it is now.
    pub fn reset_conversation(&mut self, context: &str)
        ensures
            final(self)@ == seq![plain_message("system"@, system_prompt(context@))],
    {
        *self = Conversation::new(context);
    }
}

/// The answers to the calls of a reply, in their order.
pub open spec fn answers(c: Seq<Call>, outputs: Seq<Seq<char>>) -> Seq<Message> {
    Seq::new(c.len(), |i: int| tool_message(outputs[i], c[i].id))
}

/// Every call of a reply is answered under its identifier, right behind the
/// reply and in the order of the calls.
pub proof fn law_every_call_is_answered(
    before: Seq<Message>,
    reply: Message,
    outputs: Seq<Seq<char>>,
    i: int,
)
    requires
        reply.tool_calls is Some,
        outputs.len() == reply.tool_calls->Some_0.len(),
        0 <= i < outputs.len(),
    ensures
        ({
            let after = before.push(remembered(reply)) + answers(
                reply.tool_calls->Some_0,
                outputs,
            );
            &&& after[before.len() as int] == reply
            &&& after[before.len() + 1 + i].tool_call_id == Some(
                reply.tool_calls->Some_0[i].id,
            )
            &&& after[before.len() + 1 + i].content == Some(outputs[i])
        }),
{
}

/// The prompt begins with the standing instructions and ends with what the
/// memory says.
pub proof fn law_prompt_holds_the_memory(context: Seq<char>)
    ensures
        BASE_SYSTEM_PROMPT@.is_prefix_of(system_prompt(context)),
        contains_text(system_prompt(context), context),
        context.len() == 0 ==> system_prompt(context) == BASE_SYSTEM_PROMPT@,
        context.len() > 0 ==> contains_text(
            system_prompt(context),
            "## Current Memory\n\n"@ + context,
        ),
{
    let p = system_prompt(context);
    let base = BASE_SYSTEM_PROMPT@;
    assert(base =~= p.subrange(0, base.len() as int));
    if context.len() > 0 {
        reveal_strlit("\n## Current Memory\n\n");
        reveal_strlit("## Current Memory\n\n");
        let part = "## Current Memory\n\n"@ + context;
        assert("\n## Current Memory\n\n"@ =~= seq!['\n'] + "## Current Memory\n\n"@);
        assert(p =~= (base + seq!['\n']) + part + Seq::<char>::empty());
        law_parts_are_found(base + seq!['\n'], part, Seq::empty(), p);
        let head = base + "\n## Current Memory\n\n"@;
        assert(p =~= head + context + Seq::<char>::empty());
        law_parts_are_found(head, context, Seq::empty(), p);
    } else {
        assert(p =~= p + context + Seq::<char>::empty());
        law_parts_are_found(p, context, Seq::empty(), p);
    }
}

/// A text with no more lines than the limit stays as it is. Of a longer one the
/// first lines are shown, each with its end, and how many there are.
pub proof fn law_long_outputs_are_cut_to_their_first_lines(s: Seq<char>, max: nat)
    ensures
        lines(s).len() <= max ==> first_lines(s, max) == s,
        lines(s).len() > max ==> {
            &&& ended(lines(s).take(max as int)).is_prefix_of(first_lines(s, max))
            &&& contains_text(
                first_lines(s, max),
                dec(max) + " of "@ + dec(lines(s).len()) + " lines"@,
            )
        },
{
    if lines(s).len() > max {
        let r = first_lines(s, max);
        let shown = ended(lines(s).take(max as int));
        assert(shown =~= r.subrange(0, shown.len() as int));
        reveal_strlit(" lines)");
        reveal_strlit(" lines");
        assert(" lines)"@ =~= " lines"@ + seq![')']);
        let part = dec(max) + " of "@ + dec(lines(s).len()) + " lines"@;
        let head = shown + "... (truncated; showing first "@;
        assert(r =~= head + part + seq![')']);
        law_parts_are_found(head, part, seq![')'], r);
    }
}

/// Lines are ended one by one.
pub proof fn law_lines_are_ended_one_by_one(all: Seq<Seq<char>>, line: Seq<char>)
    ensures
        ended(Seq::empty()).len() == 0,
        ended(all.push(line)) == ended(all) + line + "\n"@,
{
    assert(all.push(line).drop_last() =~= all);
}

/// The model is told which version was accepted, or why the update was not, with
/// the errors and the suggestion where there are any.
pub proof fn law_answers_to_updates_are_told(payload: JsonTree, t: Seq<char>, x: Seq<char>)
    ensures
        payload.get("version"@) == Some(JsonTree::Text(x)) ==> contains_text(
            update_result("UpdateAccepted"@, payload),
            x,
        ),
        payload.get("reason"@) == Some(JsonTree::Text(x)) ==> contains_text(
            update_result("UpdateRejected"@, payload),
            x,
        ),
        payload.get("errors"@) == Some(JsonTree::Text(x)) ==> contains_text(
            update_result("UpdateRejected"@, payload),
            x,
        ),
        payload.get("suggestion"@) == Some(JsonTree::Text(x)) ==> contains_text(
            update_result("UpdateRejected"@, payload),
            x,
        ),
        t != "UpdateAccepted"@ && t != "UpdateRejected"@ ==> update_result(t, payload)
            == "Unexpected response from Boot: "@ + t,
        "Update ACCEPTED"@.is_prefix_of(update_result("UpdateAccepted"@, payload)),
        "Update REJECTED"@.is_prefix_of(update_result("UpdateRejected"@, payload)),
{
    reveal_strlit("UpdateAccepted");
    reveal_strlit("UpdateRejected");
    assert("UpdateAccepted"@.len() == 14);
    assert("UpdateRejected"@.len() == 14);
    assert("UpdateAccepted"@[6] == 'A');
    assert("UpdateRejected"@[6] == 'R');
    let a = update_result("UpdateAccepted"@, payload);
    let v = field_or(payload, "version"@, "unknown"@);
    law_parts_are_found(
        "Update ACCEPTED — version "@,
        v,
        " deployed successfully."@,
        a,
    );
    reveal_strlit("Update ACCEPTED — version ");
    reveal_strlit("Update ACCEPTED");
    assert("Update ACCEPTED"@ =~= a.subrange(0, 15));
    let r = update_result("UpdateRejected"@, payload);
    let reason = field_or(payload, "reason"@, "unknown"@);
    let errors = field_or(payload, "errors"@, Seq::empty());
    let suggestion = field_or(payload, "suggestion"@, Seq::empty());
    let head = "Update REJECTED: "@;
    let e = if errors.len() > 0 {
        "\n\nCompilation errors:\n"@ + errors
    } else {
        Seq::empty()
    };
    let s = if suggestion.len() > 0 {
        "\n\nSuggestion: "@ + suggestion
    } else {
        Seq::empty()
    };
    assert(r =~= head + reason + (e + s));
    law_parts_are_found(head, reason, e + s, r);
    reveal_strlit("Update REJECTED: ");
    reveal_strlit("Update REJECTED");
    assert("Update REJECTED"@ =~= r.subrange(0, 15));
    if errors.len() > 0 {
        let h = head + reason + "\n\nCompilation errors:\n"@;
        assert(r =~= h + errors + s);
        law_parts_are_found(h, errors, s, r);
    } else {
        assert(r =~= r + errors + Seq::<char>::empty());
        law_parts_are_found(r, errors, Seq::empty(), r);
    }
    if suggestion.len() > 0 {
        let h = head + reason + e + "\n\nSuggestion: "@;
        assert(r =~= h + suggestion + Seq::<char>::empty());
        law_parts_are_found(h, suggestion, Seq::empty(), r);
    } else {
        assert(r =~= r + suggestion + Seq::<char>::empty());
        law_parts_are_found(r, suggestion, Seq::empty(), r);
    }
}

/// A reply is remembered as it is where it calls tools, and else by what it says.
pub proof fn law_replies_are_remembered(m: Message)
    ensures
        m.tool_calls is Some ==> remembered(m) == m,
        m.tool_calls is None ==> {
            &&& remembered(m).tool_calls is None
            &&& remembered(m).role == "assistant"@
            &&& m.content is Some ==> remembered(m).content == m.content
            &&& m.content is None ==> remembered(m).content == Some(Seq::<char>::empty())
        },
{
}

/// What is told of a stream is passed on as it is; its end is not.
pub proof fn law_events_are_passed_on(e: StreamEvent, r: Option<AgentEvent>)
    requires
        call_ensures(forward_event, (e,), r),
    ensures
        r is None <==> e is Done || e is Error,
        e is Reasoning ==> r == Some(AgentEvent::Reasoning(e->Reasoning_0)),
        e is Content ==> r == Some(AgentEvent::Content(e->Content_0)),
        e is ToolCallStart ==> r == Some(
            (AgentEvent::ToolCallStart { id: e->id, name: e->name }),
        ),
        e is ToolCallArgDelta ==> r == Some(AgentEvent::ToolCallArgDelta(e->ToolCallArgDelta_0)),
{
}

/// An answer to a submission is told as what it says, and only an order to shut
/// down warns the users; a lost connection and a missing answer are errors.
pub proof fn law_submissions_are_answered(o: SubmitOutcome, r: (String, bool))
    requires
        call_ensures(submit_result, (&o,), r),
    ensures
        o is Answered ==> r.0@ == update_result(
            o->Answered_0.msg_type@,
            o->Answered_0.payload.tree(),
        ),
        r.1 <==> o is Answered && o->Answered_0.msg_type@ == "Shutdown"@,
        !(o is Answered) ==> r.0@.len() > 0 && r.0@[0] == 'E',
{
    reveal_strlit("Error: Lost connection to Boot");
    reveal_strlit("Error: IPC channel closed");
    reveal_strlit("Error: Timed out waiting for build result (300s)");
}

} // verus!
